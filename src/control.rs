use vstd::prelude::*;
use crate::condition::conditions_hold;
use crate::context::Context;
use crate::preset_rule::{rolls_in_range, rule_valid, PresetRule};
use crate::reshade::{pending_view, retry_tick};
use crate::time_period::CurrentTimePeriod;

verus! {

/// Polls that an activation may be retried before it is given up.
pub const RETRY_COUNT: usize = 10;

/// Rule `i` is valid and its conditions hold, `rolls[i]` being the numbers
/// drawn for its conditions.
pub open spec fn rule_matches(
    rules: Seq<PresetRule>,
    preset_exists: Seq<bool>,
    period: CurrentTimePeriod,
    map_id: u32,
    rolls: Seq<Seq<u32>>,
    i: int,
) -> bool {
    rule_valid(rules[i], preset_exists[i]) && conditions_hold(rules[i].conditions@, period, map_id, rolls[i])
}

/// `i` is the first rule that matches.
pub open spec fn first_match(
    rules: Seq<PresetRule>,
    preset_exists: Seq<bool>,
    period: CurrentTimePeriod,
    map_id: u32,
    rolls: Seq<Seq<u32>>,
    i: int,
) -> bool {
    &&& 0 <= i < rules.len()
    &&& rule_matches(rules, preset_exists, period, map_id, rolls, i)
    &&& forall|j: int| 0 <= j < i ==> !rule_matches(rules, preset_exists, period, map_id, rolls, j)
}

/// The rule to activate: on the character select screen the last one;
/// otherwise the first that matches, or the last when none does.
pub open spec fn selected_rule(
    rules: Seq<PresetRule>,
    preset_exists: Seq<bool>,
    period: CurrentTimePeriod,
    map_id: u32,
    rolls: Seq<Seq<u32>>,
    on_character_select: bool,
) -> int {
    if !on_character_select && exists|i: int| first_match(rules, preset_exists, period, map_id, rolls, i) {
        choose|i: int| first_match(rules, preset_exists, period, map_id, rolls, i)
    } else {
        rules.len() - 1
    }
}

/// `r` is the preset `path`, and `path` awaits activation with a full set of
/// retries.
pub open spec fn activation_marked(r: Option<String>, pending: Option<(String, usize)>, path: Seq<
    char,
>) -> bool {
    let entry = pending->0;
    &&& r is Some && r->0@ == path
    &&& pending is Some && entry.0@ == path && entry.1 == RETRY_COUNT
}

pub open spec fn roll_views(rolls: Seq<Vec<u32>>) -> Seq<Seq<u32>> {
    rolls.map_values(|v: Vec<u32>| v@)
}

/// Draws for every rule, one per condition.
pub open spec fn all_rolls_in_range(rolls: Seq<Seq<u32>>, rules: Seq<PresetRule>) -> bool {
    rolls.len() == rules.len() && forall|i: int|
        0 <= i < rules.len() ==> rolls_in_range(#[trigger] rolls[i], rules[i].conditions@.len())
}

/// When no rule before the last matches, the last rule is selected, whether
/// or not its own conditions hold.
pub proof fn lemma_fallback_to_last(
    rules: Seq<PresetRule>,
    preset_exists: Seq<bool>,
    period: CurrentTimePeriod,
    map_id: u32,
    rolls: Seq<Seq<u32>>,
    on_character_select: bool,
)
    requires
        rules.len() > 0,
        forall|i: int|
            0 <= i < rules.len() - 1 ==> !rule_matches(rules, preset_exists, period, map_id, rolls, i),
    ensures
        selected_rule(rules, preset_exists, period, map_id, rolls, on_character_select) == rules.len()
            - 1,
{
    if !on_character_select && exists|i: int| first_match(rules, preset_exists, period, map_id, rolls, i) {
        let i = choose|i: int| first_match(rules, preset_exists, period, map_id, rolls, i);
        assert(i == rules.len() - 1);
    }
}

/// The index of the first rule that matches, with `rolls[i]` the numbers
/// drawn for rule `i`.
pub fn select_rule_with_rolls(
    rules: &Vec<PresetRule>,
    preset_exists: &Vec<bool>,
    period: CurrentTimePeriod,
    map_id: u32,
    rolls: &Vec<Vec<u32>>,
) -> (r: Option<usize>)
    requires
        preset_exists.len() == rules.len(),
        rolls.len() == rules.len(),
        forall|i: int| 0 <= i < rules.len() ==> (#[trigger] rolls@[i]).len() == rules@[i].conditions.len(),
    ensures
        r matches Some(i) ==> first_match(rules@, preset_exists@, period, map_id, roll_views(rolls@), i as int),
        r is None ==> forall|i: int| 0 <= i < rules.len() ==> !rule_matches(rules@, preset_exists@, period, map_id, roll_views(rolls@), i),
{
    let ghost rv = roll_views(rolls@);
    let mut i: usize = 0;
    while i < rules.len()
        invariant
            0 <= i <= rules.len(),
            preset_exists.len() == rules.len(),
            rolls.len() == rules.len(),
            forall|k: int| 0 <= k < rules.len() ==> (#[trigger] rolls@[k]).len() == rules@[k].conditions.len(),
            rv == roll_views(rolls@),
            forall|j: int| 0 <= j < i ==> !rule_matches(rules@, preset_exists@, period, map_id, rv, j),
        decreases rules.len() - i,
    {
        let result = rules[i].evaluate_with_rolls(period, map_id, preset_exists[i], &rolls[i]);
        assert(rv[i as int] == rolls@[i as int]@);
        if let Ok(true) = result.activate_rule {
            return Some(i);
        }
        i += 1;
    }
    None
}

/// The index of the first rule that matches, drawing fresh numbers for the
/// chance conditions of each rule it evaluates.
pub fn select_rule(
    rules: &Vec<PresetRule>,
    preset_exists: &Vec<bool>,
    context: &Context,
    map_id: u32,
) -> (r: Option<usize>)
    requires
        preset_exists.len() == rules.len(),
    ensures
        exists|rolls: Seq<Seq<u32>>| all_rolls_in_range(rolls, rules@) && {
            &&& r matches Some(i) ==> first_match(rules@, preset_exists@, context.current_time_period, map_id, rolls, i as int)
            &&& r is None ==> forall|i: int| 0 <= i < rules.len() ==> !rule_matches(rules@, preset_exists@, context.current_time_period, map_id, rolls, i)
        },
{
    let mut rolls: Vec<Vec<u32>> = Vec::new();
    let mut i: usize = 0;
    while i < rules.len()
        invariant
            0 <= i <= rules.len(),
            rolls.len() == i,
            forall|k: int| 0 <= k < i ==> rolls_in_range(#[trigger] rolls@[k]@, rules@[k].conditions@.len()),
        decreases rules.len() - i,
    {
        rolls.push(crate::preset_rule::draw_rolls(&rules[i].conditions));
        i += 1;
    }
    let r = select_rule_with_rolls(rules, preset_exists, context.current_time_period, map_id, &rolls);
    assert(all_rolls_in_range(roll_views(rolls@), rules@));
    r
}

/// Marks the rule at `rule_index_to_activate`, or the last rule when there
/// is no index, as the pending activation with a full set of retries, and
/// returns its preset. Returns `None`, changing nothing, when there is no
/// such rule.
pub fn activate_preset_rule(
    rules: &Vec<PresetRule>,
    context: &mut Context,
    rule_index_to_activate: Option<usize>,
) -> (r: Option<String>)
    ensures
        ({
            let chosen = match rule_index_to_activate {
                Some(i) => i as int,
                None => rules.len() - 1,
            };
            &&& 0 <= chosen < rules.len() ==> activation_marked(
                r,
                final(context).reshade.verify_activation,
                rules@[chosen].preset_path@,
            )
            &&& !(0 <= chosen < rules.len()) ==> r is None && *final(context) == *old(context)
        }),
        final(context).ui == old(context).ui,
        final(context).run_background_thread == old(context).run_background_thread,
        final(context).reshade.active_preset_path == old(context).reshade.active_preset_path,
        final(context).reshade.preset_shortcuts == old(context).reshade.preset_shortcuts,
        final(context).previous_map_id == old(context).previous_map_id,
        final(context).current_time_period == old(context).current_time_period,
        final(context).process_manually == old(context).process_manually,
{
    let index = match rule_index_to_activate {
        Some(i) => i,
        None => {
            if rules.len() == 0 {
                return None;
            }
            rules.len() - 1
        },
    };
    if index >= rules.len() {
        return None;
    }
    let path = rules[index].preset_path.clone();
    context.reshade.verify_activation = Some((path.clone(), RETRY_COUNT));
    Some(path)
}

/// Selects the rule for the current map (the last rule on the character
/// select screen), marks it as the pending activation, clears the manual
/// request, and returns the preset to switch to. `preset_exists[i]` tells
/// whether rule `i`'s preset exists.
pub fn process_preset_rules(
    rules: &Vec<PresetRule>,
    context: &mut Context,
    new_map_id: u32,
    on_character_select: bool,
    preset_exists: &Vec<bool>,
) -> (r: Option<String>)
    requires
        preset_exists.len() == rules.len(),
    ensures
        !final(context).process_manually,
        rules.len() == 0 ==> r is None,
        rules.len() > 0 ==> exists|rolls: Seq<Seq<u32>>| all_rolls_in_range(rolls, rules@) && {
            let i = selected_rule(rules@, preset_exists@, old(context).current_time_period, new_map_id, rolls, on_character_select);
            activation_marked(r, final(context).reshade.verify_activation, rules@[i].preset_path@)
        },
        final(context).reshade.active_preset_path == old(context).reshade.active_preset_path,
        final(context).reshade.preset_shortcuts == old(context).reshade.preset_shortcuts,
        final(context).previous_map_id == old(context).previous_map_id,
        final(context).current_time_period == old(context).current_time_period,
        final(context).ui == old(context).ui,
        final(context).run_background_thread == old(context).run_background_thread,
{
    context.process_manually = false;
    let mut index: Option<usize> = None;
    if !on_character_select {
        index = select_rule(rules, preset_exists, context, new_map_id);
    }
    let ghost period = context.current_time_period;
    let r = activate_preset_rule(rules, context, index);
    proof {
        if rules.len() > 0 {
            let rolls = if on_character_select {
                Seq::new(rules@.len(), |i: int| Seq::new(rules@[i].conditions@.len(), |k: int| 1u32))
            } else {
                choose|rolls: Seq<Seq<u32>>| all_rolls_in_range(rolls, rules@) && {
                    &&& index matches Some(i) ==> first_match(rules@, preset_exists@, period, new_map_id, rolls, i as int)
                    &&& index is None ==> forall|i: int| 0 <= i < rules.len() ==> !rule_matches(rules@, preset_exists@, period, new_map_id, rolls, i)
                }
            };
            assert(all_rolls_in_range(rolls, rules@));
            let i = selected_rule(rules@, preset_exists@, period, new_map_id, rolls, on_character_select);
            if !on_character_select {
                if let Some(j) = index {
                    assert(first_match(rules@, preset_exists@, period, new_map_id, rolls, j as int));
                    assert(i == j) by {
                        let c = choose|c: int| first_match(rules@, preset_exists@, period, new_map_id, rolls, c);
                        if c < j {
                            assert(!rule_matches(rules@, preset_exists@, period, new_map_id, rolls, c));
                        }
                        if j < c {
                            assert(!rule_matches(rules@, preset_exists@, period, new_map_id, rolls, j as int));
                        }
                    }
                }
            }
        }
    }
    r
}

/// What the environment showed at one poll of the control loop.
#[derive(Clone, Copy, Debug)]
pub struct LoopObservation {
    /// The external configuration file is set and exists.
    pub config_valid: bool,
    /// The game window has the input focus.
    pub has_focus: bool,
    /// The player is in the game world rather than on a selection screen.
    pub in_game: bool,
    /// The current map, when the game reports one.
    pub map_reading: Option<u32>,
    /// The phase that the game reports, when it reports one.
    pub authoritative_period: Option<CurrentTimePeriod>,
}

/// What the control loop is to do after a poll.
#[derive(Clone, Debug)]
pub enum LoopAction {
    /// Nothing until the next poll.
    Wait,
    /// Select a rule for this map and activate it.
    ProcessRules(u32),
    /// Press the shortcut of this pending preset once more.
    RetryActivation(String),
}

/// The loop acts on a poll when the configuration is set, the mirror holds
/// shortcuts, and the game has the focus or shows a selection screen.
pub open spec fn loop_engaged(observation: LoopObservation, context: Context) -> bool {
    &&& observation.config_valid
    &&& crate::reshade::shortcut_entries(context.reshade.preset_shortcuts).dom() != Set::<
        crate::key_combination::KeyView,
    >::empty()
    &&& observation.has_focus || !observation.in_game
}

/// The pending activation names `path`.
pub open spec fn pending_names(pending: Option<(String, usize)>, path: Seq<char>) -> bool {
    let entry = pending->0;
    pending is Some && entry.0@ == path
}

impl Context {
    /// Decides one poll of the control loop: a change of map or of phase, or
    /// a manual request, calls for rule selection; otherwise a pending
    /// activation is checked and perhaps retried.
    pub fn next_action(&mut self, observation: &LoopObservation) -> (r: LoopAction)
        ensures
            !loop_engaged(*observation, *old(self)) ==> r is Wait && *final(self) == *old(self),
            loop_engaged(*observation, *old(self)) ==> {
                let map_moved = observation.map_reading is Some && old(self).previous_map_id
                    != observation.map_reading;
                &&& (r is ProcessRules) == (map_moved || final(self).current_time_period != old(
                    self,
                ).current_time_period || old(self).process_manually)
                &&& r matches LoopAction::ProcessRules(m) ==> m == (match observation.map_reading {
                    Some(id) => id,
                    None => 0u32,
                }) && final(self).reshade.verify_activation == old(self).reshade.verify_activation
                &&& !(r is ProcessRules) ==> (
                    pending_view(final(self).reshade.verify_activation),
                    r is RetryActivation,
                ) == retry_tick(
                    pending_view(old(self).reshade.verify_activation),
                    old(self).reshade.active_preset_path@,
                )
                &&& r matches LoopAction::RetryActivation(p) ==> pending_names(
                    final(self).reshade.verify_activation,
                    p@,
                )
                &&& observation.map_reading matches Some(id) ==> final(self).previous_map_id == Some(
                    id,
                )
                &&& observation.map_reading is None ==> final(self).previous_map_id == old(
                    self,
                ).previous_map_id
                &&& final(self).current_time_period != old(self).current_time_period
                    ==> crate::context::phase_reading(
                    final(self).current_time_period,
                    observation.authoritative_period,
                    match observation.map_reading {
                        Some(id) => id,
                        None => 0u32,
                    },
                )
            },
            loop_engaged(*observation, *old(self)) && !(r is ProcessRules) && pending_names(
                old(self).reshade.verify_activation,
                old(self).reshade.active_preset_path@,
            ) ==> r is Wait && final(self).reshade.verify_activation is None,
            final(self).process_manually == old(self).process_manually,
            final(self).reshade.active_preset_path == old(self).reshade.active_preset_path,
            final(self).reshade.preset_shortcuts == old(self).reshade.preset_shortcuts,
            final(self).ui == old(self).ui,
            final(self).run_background_thread == old(self).run_background_thread,
    {
        if !observation.config_valid || !self.valid() || !(observation.has_focus
            || !observation.in_game) {
            return LoopAction::Wait;
        }
        let mut new_map_id: u32 = 0;
        let map_changed = self.map_changed(
            observation.map_reading,
            observation.authoritative_period,
            &mut new_map_id,
        );
        let period_changed = if map_changed || !observation.in_game {
            false
        } else {
            self.time_period_changed(new_map_id, observation.authoritative_period)
        };
        if map_changed || period_changed || self.process_manually {
            return LoopAction::ProcessRules(new_map_id);
        }
        if self.reshade.should_retry_activation() {
            match &self.reshade.verify_activation {
                Some((preset_path, _)) => LoopAction::RetryActivation(preset_path.clone()),
                None => LoopAction::Wait,
            }
        } else {
            LoopAction::Wait
        }
    }
}

} // verus!
