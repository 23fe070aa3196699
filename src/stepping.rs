use vstd::prelude::*;
use crate::ini::{list_items, setting, setting_value, split_list, text_lines, views};
use crate::key_combination::{KeyCombination, KeyView};
use crate::shortcut_config::key_at;
use crate::text::string_from_chars;

verus! {

/// Why no step toward a preset can be taken.
#[derive(Clone, Copy, Debug, PartialEq, Eq, Structural)]
pub enum StepError {
    /// The target or the active preset is not in the preset list.
    PresetNotListed,
    /// The step that is needed has no shortcut.
    NoStepShortcut,
    /// The target is already the active preset.
    AlreadyActive,
}

/// The first position of `p` in `list`, if it is there.
pub open spec fn first_index(list: Seq<String>, p: Seq<char>) -> Option<int> {
    if exists|i: int| 0 <= i < list.len() && list[i]@ == p {
        Some(choose|i: int| 0 <= i < list.len() && list[i]@ == p && forall|j: int| 0 <= j < i ==> list[j]@ != p)
    } else {
        None
    }
}

/// Where `p` first stands in `list`.
pub fn position_of(list: &Vec<String>, p: &String) -> (r: Option<usize>)
    ensures
        r matches Some(i) ==> i < list.len() && list@[i as int]@ == p@ && forall|j: int| 0 <= j < i ==> list@[j]@ != p@,
        r is None ==> forall|j: int| 0 <= j < list.len() ==> list@[j]@ != p@,
{
    let mut i: usize = 0;
    while i < list.len()
        invariant
            0 <= i <= list.len(),
            forall|j: int| 0 <= j < i ==> list@[j]@ != p@,
        decreases list.len() - i,
    {
        if list[i] == *p {
            return Some(i);
        }
        i += 1;
    }
    None
}

/// The shortcut that steps the external application's preset cursor one
/// place toward `target`: forward when the target comes later in the
/// ordered preset list than the active preset, backward when earlier.
pub fn step_shortcut(
    presets: &Vec<String>,
    active: &String,
    target: &String,
    next: &Option<KeyCombination>,
    previous: &Option<KeyCombination>,
) -> (r: Result<KeyCombination, StepError>)
    ensures
        ({
            let ti = first_index(presets@, target@);
            let ai = first_index(presets@, active@);
            &&& (ti is None || ai is None) ==> r == Err::<KeyCombination, StepError>(
                StepError::PresetNotListed,
            )
            &&& (ti is Some && ai is Some && ti->0 == ai->0) ==> r == Err::<KeyCombination, StepError>(
                StepError::AlreadyActive,
            )
            &&& (ti is Some && ai is Some && ti->0 > ai->0) ==> step_by(r, *next)
            &&& (ti is Some && ai is Some && ti->0 < ai->0) ==> step_by(r, *previous)
        }),
{
    let ti = position_of(presets, target);
    let ai = position_of(presets, active);
    proof {
        lemma_first_index(presets@, target@, ti);
        lemma_first_index(presets@, active@, ai);
    }
    match (ti, ai) {
        (Some(t), Some(a)) => {
            if t == a {
                Err(StepError::AlreadyActive)
            } else {
                let step = if t > a { next } else { previous };
                match step {
                    Some(k) => Ok(k.duplicate()),
                    None => Err(StepError::NoStepShortcut),
                }
            }
        },
        _ => Err(StepError::PresetNotListed),
    }
}

/// `r` presses `step`, or reports that it has no shortcut.
pub open spec fn step_by(r: Result<KeyCombination, StepError>, step: Option<KeyCombination>) -> bool {
    match step {
        Some(k) => r is Ok && r->Ok_0@ == k@,
        None => r == Err::<KeyCombination, StepError>(StepError::NoStepShortcut),
    }
}

proof fn lemma_first_index(list: Seq<String>, p: Seq<char>, found: Option<usize>)
    requires
        found matches Some(i) ==> i < list.len() && list[i as int]@ == p && forall|j: int| 0 <= j < i ==> list[j]@ != p,
        found is None ==> forall|j: int| 0 <= j < list.len() ==> list[j]@ != p,
    ensures
        found matches Some(i) ==> first_index(list, p) == Some(i as int),
        found is None ==> first_index(list, p) is None,
{
    if let Some(i) = found {
        let c = choose|c: int| 0 <= c < list.len() && list[c]@ == p && forall|j: int| 0 <= j < c ==> list[j]@ != p;
        if c < i {
            assert(list[c]@ != p);
        }
        if i < c {
            assert(list[i as int]@ != p);
        }
    }
}

/// The shortcut that setting `key` holds: its first field is the key code,
/// the next three the ctrl, shift and alt flags.
pub open spec fn key_setting(text: Seq<char>, key: Seq<char>) -> Option<KeyView> {
    match setting_value(text, key) {
        Some(v) => if list_items(v).len() > 0 {
            Some(key_at(list_items(v), 0))
        } else {
            None
        },
        None => None,
    }
}

/// Reads a shortcut setting such as the step-forward shortcut.
pub fn parse_key_setting(content: &str, key: &str) -> (r: Option<KeyCombination>)
    ensures
        r matches Some(k) ==> key_setting(content@, key@) == Some(k@),
        r is None ==> key_setting(content@, key@) is None,
{
    let lines = text_lines(content);
    let value = match setting(&lines, key) {
        Some(v) => v,
        None => {
            return None;
        },
    };
    let fields = split_list(&value);
    if fields.len() == 0 {
        return None;
    }
    let ghost fv = views(fields@);
    assert(fv[0] == fields@[0]@);
    let k = KeyCombination {
        key_code: string_from_chars(&fields[0]),
        ctrl: crate::shortcut_config::flag_field(&fields, 1),
        shift: crate::shortcut_config::flag_field(&fields, 2),
        alt: crate::shortcut_config::flag_field(&fields, 3),
    };
    Some(k)
}

} // verus!
