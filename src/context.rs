use vstd::prelude::*;
use crate::key_combination::KeyCombination;
use crate::reshade::{pair_views, shortcut_entries, ReshadeContext};
use crate::shortcut_config::{map_of_entries, shortcut_map_from};
use crate::time_period::{
    canthan_time_thresholds, current_time_period_with_default_detection, cycle_elapsed, phase_of,
    tyrian_time_thresholds, CurrentTimePeriod, TimeThresholds, DAY_SECONDS,
};
use std::collections::HashMap;

verus! {

/// State of the configuration screen.
pub struct UiContext {
    pub map_names: HashMap<String, String>,
    pub rule_under_edit_index: Option<usize>,
    pub map_search_term: String,
    pub blacklist_map_search_term: String,
    pub invalid_reshade_preset_configuration: bool,
}

impl Default for UiContext {
    fn default() -> (r: UiContext)
        ensures
            r.map_names@ == Map::<String, String>::empty(),
            r.rule_under_edit_index is None,
            r.map_search_term@.len() == 0,
            r.blacklist_map_search_term@.len() == 0,
            !r.invalid_reshade_preset_configuration,
    {
        UiContext {
            map_names: HashMap::new(),
            rule_under_edit_index: None,
            map_search_term: String::new(),
            blacklist_map_search_term: String::new(),
            invalid_reshade_preset_configuration: false,
        }
    }
}

/// Errors shown on the configuration screen.
#[derive(Clone, Copy, Debug)]
pub struct Errors {}

/// Everything the control loop knows between polls.
pub struct Context {
    pub run_background_thread: bool,
    pub previous_map_id: Option<u32>,
    pub ui: UiContext,
    pub reshade: ReshadeContext,
    pub current_time_period: CurrentTimePeriod,
    pub process_manually: bool,
}

/// The maps that keep Cantha's day/night cycle.
pub open spec fn canthan_maps() -> Seq<u32> {
    seq![1442u32, 1438, 1452, 1422, 1490, 1428, 1465, 1593, 1595]
}

/// The thresholds of the region that `map_id` lies in.
pub open spec fn thresholds_for(map_id: u32) -> TimeThresholds {
    if canthan_maps().contains(map_id) {
        (2100i64, 2400i64, 5700i64, 6000i64)
    } else {
        (2400i64, 2700i64, 5100i64, 5400i64)
    }
}

/// `p` is what the clock gives on `map_id` at some moment of the day.
pub open spec fn clock_phase(p: CurrentTimePeriod, map_id: u32) -> bool {
    exists|s: int| 0 <= s < DAY_SECONDS && p == phase_of(cycle_elapsed(s), thresholds_for(map_id))
}

/// `p` is the phase read on `map_id`: the authoritative one when there is
/// one, else one that the clock gives.
pub open spec fn phase_reading(p: CurrentTimePeriod, authoritative: Option<CurrentTimePeriod>, map_id: u32) -> bool {
    match authoritative {
        Some(a) => p == a,
        None => clock_phase(p, map_id),
    }
}

/// The maps that keep Cantha's day/night cycle.
pub fn canthan_time_maps() -> (r: Vec<u32>)
    ensures
        r@ == canthan_maps(),
{
    let r: Vec<u32> = vec![1442, 1438, 1452, 1422, 1490, 1428, 1465, 1593, 1595];
    assert(r@ == canthan_maps());
    r
}

/// The thresholds of the region that `map_id` lies in.
pub fn time_thresholds_for_map(map_id: u32) -> (r: TimeThresholds)
    ensures
        r == thresholds_for(map_id),
{
    if crate::condition::contains_map(&canthan_time_maps(), map_id) {
        canthan_time_thresholds()
    } else {
        tyrian_time_thresholds()
    }
}

/// The phase on `map_id` by the clock.
pub fn detect_time_period_with_default_detection(map_id: u32) -> (r: CurrentTimePeriod)
    ensures
        clock_phase(r, map_id),
{
    current_time_period_with_default_detection(time_thresholds_for_map(map_id))
}

/// The phase on `map_id`: the authoritative one when there is one, else the
/// clock's.
pub fn read_time_period(authoritative: Option<CurrentTimePeriod>, map_id: u32) -> (r: CurrentTimePeriod)
    ensures
        phase_reading(r, authoritative, map_id),
{
    match authoritative {
        Some(p) => p,
        None => detect_time_period_with_default_detection(map_id),
    }
}

impl Default for Context {
    /// A context for a start on no known map, its phase read by the clock.
    fn default() -> (r: Context)
        ensures
            r.run_background_thread,
            r.previous_map_id is None,
            !r.process_manually,
            r.reshade.verify_activation is None,
            clock_phase(r.current_time_period, 0),
    {
        Context {
            run_background_thread: true,
            previous_map_id: None,
            ui: UiContext::default(),
            reshade: ReshadeContext::default(),
            current_time_period: detect_time_period_with_default_detection(0),
            process_manually: false,
        }
    }
}

impl Context {
    /// The context is usable when its mirror of the external configuration is.
    pub fn valid(&self) -> (r: bool)
        ensures
            r == (shortcut_entries(self.reshade.preset_shortcuts).dom() != Set::<
                crate::key_combination::KeyView,
            >::empty()),
    {
        self.reshade.valid()
    }

    /// Takes the current map from `map_reading`, if there is one: records it
    /// in `new_map_id` and as the previous map, and on a change reads the
    /// phase anew. Returns whether the map changed.
    pub fn map_changed(
        &mut self,
        map_reading: Option<u32>,
        authoritative_period: Option<CurrentTimePeriod>,
        new_map_id: &mut u32,
    ) -> (r: bool)
        ensures
            map_reading is None ==> !r && final(self).previous_map_id == old(self).previous_map_id
                && final(self).current_time_period == old(self).current_time_period
                && *final(new_map_id) == *old(new_map_id),
            map_reading matches Some(m) ==> r == (old(self).previous_map_id != Some(m))
                && final(self).previous_map_id == Some(m) && *final(new_map_id) == m,
            map_reading matches Some(m) ==> (r ==> phase_reading(
                final(self).current_time_period,
                authoritative_period,
                m,
            )),
            !r ==> final(self).current_time_period == old(self).current_time_period,
            final(self).reshade == old(self).reshade,
            final(self).process_manually == old(self).process_manually,
            final(self).run_background_thread == old(self).run_background_thread,
            final(self).ui == old(self).ui,
            map_reading is None ==> *final(self) == *old(self),
    {
        match map_reading {
            None => false,
            Some(current_map) => {
                let changed = match self.previous_map_id {
                    Some(prev_map) => current_map != prev_map,
                    None => true,
                };
                self.previous_map_id = Some(current_map);
                *new_map_id = current_map;
                if changed {
                    self.current_time_period = read_time_period(authoritative_period, current_map);
                }
                changed
            },
        }
    }

    /// Reads the phase on `current_map_id` and records it. Returns whether it
    /// differs from the one recorded before.
    pub fn time_period_changed(
        &mut self,
        current_map_id: u32,
        authoritative_period: Option<CurrentTimePeriod>,
    ) -> (r: bool)
        ensures
            phase_reading(final(self).current_time_period, authoritative_period, current_map_id),
            r == (final(self).current_time_period != old(self).current_time_period),
            final(self).previous_map_id == old(self).previous_map_id,
            final(self).reshade == old(self).reshade,
            final(self).process_manually == old(self).process_manually,
            final(self).run_background_thread == old(self).run_background_thread,
            final(self).ui == old(self).ui,
    {
        let new_period = read_time_period(authoritative_period, current_map_id);
        if new_period != self.current_time_period {
            self.current_time_period = new_period;
            return true;
        }
        false
    }

    /// Takes in a fresh reading of the external configuration: the active
    /// preset, if the text named one, and the shortcut pairs, if it listed
    /// presets, of which those whose preset exists (`preset_exists[i]` for
    /// pair `i`) make the new shortcut map. Flags the configuration as damaged
    /// when a listed preset is missing.
    pub fn load_reshade_configuration(
        &mut self,
        active_preset_path: Option<String>,
        entries: Option<Vec<(KeyCombination, String)>>,
        preset_exists: &Vec<bool>,
    )
        requires
            entries matches Some(e) ==> preset_exists.len() == e.len(),
        ensures
            active_preset_path matches Some(p) ==> final(self).reshade.active_preset_path == p,
            active_preset_path is None ==> final(self).reshade.active_preset_path == old(
                self,
            ).reshade.active_preset_path,
            entries matches Some(e) ==> shortcut_entries(final(self).reshade.preset_shortcuts)
                == map_of_entries(pair_views(e@), preset_exists@),
            entries is None ==> final(self).reshade.preset_shortcuts == old(
                self,
            ).reshade.preset_shortcuts,
            final(self).ui.invalid_reshade_preset_configuration == (entries is Some && exists|i: int|
                0 <= i < preset_exists.len() && !preset_exists@[i]),
            final(self).reshade.verify_activation == old(self).reshade.verify_activation,
            final(self).previous_map_id == old(self).previous_map_id,
            final(self).current_time_period == old(self).current_time_period,
            final(self).process_manually == old(self).process_manually,
    {
        if let Some(p) = active_preset_path {
            self.reshade.active_preset_path = p;
        }
        let mut invalid = false;
        if let Some(e) = entries {
            let (map, missing) = shortcut_map_from(&e, preset_exists);
            self.reshade.preset_shortcuts = map;
            invalid = missing;
        }
        self.ui.invalid_reshade_preset_configuration = invalid;
    }
}

} // verus!
