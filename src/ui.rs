use vstd::prelude::*;
use crate::condition::RuleCondition;
use crate::ini::{join_with, split_on, split_pieces, views};
use crate::preset_rule::PresetRule;
use crate::text::{chars_of, push_str_chars, string_from_chars};

verus! {

/// An edit requested on a list shown on the configuration screen.
#[derive(Clone, Copy, Debug, PartialEq, Eq, Structural)]
pub enum UiAction {
    MoveDown(usize),
    MoveUp(usize),
    Delete(usize),
    Clone(usize),
}

/// How a screen of the configuration editor ended.
#[derive(Clone, Copy, Debug, PartialEq, Eq, Structural)]
pub enum RenderResult {
    Terminated,
    Concluded,
}

/// An item of an editable list: it has a name and can be renamed.
pub trait UiElement {
    spec fn display_name(&self) -> Seq<char>;

    /// The two items agree in everything but their names.
    spec fn same_apart_from_name(&self, other: &Self) -> bool;

    fn rename(&mut self, new_name: String)
        ensures
            final(self).display_name() == new_name@,
            final(self).same_apart_from_name(&*old(self)),
    ;

    fn name(&self) -> (r: &String)
        ensures
            r@ == self.display_name(),
    ;
}

impl UiElement for PresetRule {
    open spec fn display_name(&self) -> Seq<char> {
        self.rule_name@
    }

    open spec fn same_apart_from_name(&self, other: &Self) -> bool {
        self.preset_path == other.preset_path && self.conditions == other.conditions
    }

    fn rename(&mut self, new_name: String) {
        self.rule_name = new_name;
    }

    fn name(&self) -> (r: &String) {
        &self.rule_name
    }
}

impl UiElement for RuleCondition {
    open spec fn display_name(&self) -> Seq<char> {
        self.name@
    }

    open spec fn same_apart_from_name(&self, other: &Self) -> bool {
        self.data == other.data && self.conjunction_type == other.conjunction_type
    }

    fn rename(&mut self, new_name: String) {
        self.name = new_name;
    }

    fn name(&self) -> (r: &String) {
        &self.name
    }
}

/// What a copy's name gets appended.
pub open spec fn copy_suffix() -> Seq<char> {
    " (1)"@
}

/// `c` is a clone of `src` renamed to `src`'s name with the copy suffix.
pub open spec fn renamed_copy<T: UiElement + Clone>(c: T, src: T) -> bool {
    &&& c.display_name() == src.display_name() + copy_suffix()
    &&& exists|x: T| cloned(src, x) && #[trigger] c.same_apart_from_name(&x)
}

/// The length of a list of `len` items after `action`.
pub open spec fn length_after(len: int, action: UiAction) -> int {
    match action {
        UiAction::Delete(_) => len - 1,
        UiAction::Clone(i) => if i < len {
            len + 1
        } else {
            len
        },
        _ => len,
    }
}

/// Whether `action` can be applied to a list of `len` items.
pub open spec fn action_valid(action: UiAction, len: int) -> bool {
    match action {
        UiAction::MoveDown(i) => i + 1 < len,
        UiAction::MoveUp(i) => 1 <= i < len,
        UiAction::Delete(i) => i < len,
        UiAction::Clone(_) => true,
    }
}

/// Every one of `actions` can be applied, in order, to a list of `len` items.
pub open spec fn actions_valid(len: int, actions: Seq<UiAction>) -> bool
    decreases actions.len(),
{
    actions.len() == 0 || (action_valid(actions[0], len) && actions_valid(
        length_after(len, actions[0]),
        actions.drop_first(),
    ))
}

/// `t` is `s` after one action: a move swaps an item with its neighbour, a
/// delete removes it, a clone of an item puts a renamed copy of it first, and
/// a clone of a missing item changes nothing.
pub open spec fn step_result<T: UiElement + Clone>(s: Seq<T>, action: UiAction, t: Seq<T>) -> bool {
    match action {
        UiAction::MoveDown(i) => t == s.update(i as int, s[i + 1]).update(i + 1, s[i as int]),
        UiAction::MoveUp(i) => t == s.update(i as int, s[i - 1]).update(i - 1, s[i as int]),
        UiAction::Delete(i) => t == s.remove(i as int),
        UiAction::Clone(i) => if i < s.len() {
            t.len() == s.len() + 1 && t.drop_first() == s && renamed_copy(t[0], s[i as int])
        } else {
            t == s
        },
    }
}

/// `t` is `s` after all of `actions`, in order.
pub open spec fn actions_result<T: UiElement + Clone>(s: Seq<T>, actions: Seq<UiAction>, t: Seq<T>) -> bool
    decreases actions.len(),
{
    if actions.len() == 0 {
        t == s
    } else {
        exists|mid: Seq<T>|
            #[trigger] step_result(s, actions[0], mid) && actions_result(mid, actions.drop_first(), t)
    }
}

/// Applies the edits to `vec`, in order.
pub fn process_ui_actions_for_vec<T: UiElement + Clone>(vec: &mut Vec<T>, ui_actions: Vec<UiAction>)
    requires
        actions_valid(old(vec)@.len() as int, ui_actions@),
    ensures
        actions_result(old(vec)@, ui_actions@, final(vec)@),
{
    let mut k: usize = 0;
    assert(ui_actions@.subrange(0, ui_actions@.len() as int) == ui_actions@);
    while k < ui_actions.len()
        invariant
            0 <= k <= ui_actions.len(),
            actions_valid(vec@.len() as int, ui_actions@.subrange(k as int, ui_actions@.len() as int)),
            forall|t: Seq<T>|
                #[trigger] actions_result(vec@, ui_actions@.subrange(k as int, ui_actions@.len() as int), t)
                    ==> actions_result(old(vec)@, ui_actions@, t),
        decreases ui_actions.len() - k,
    {
        let ghost rest = ui_actions@.subrange(k as int, ui_actions@.len() as int);
        let ghost later = ui_actions@.subrange(k + 1, ui_actions@.len() as int);
        assert(rest[0] == ui_actions@[k as int]);
        assert(rest.drop_first() == later);
        let ghost before = vec@;
        let action = ui_actions[k];
        assert(action_valid(action, vec@.len() as int));
        match action {
            UiAction::MoveDown(i) => {
                assert(i + 1 < vec.len());
                let x = vec.remove(i + 1);
                vec.insert(i, x);
                assert(vec@ == before.update(i as int, before[i + 1]).update(i + 1, before[i as int]));
            },
            UiAction::MoveUp(i) => {
                let x = vec.remove(i);
                vec.insert(i - 1, x);
                assert(vec@ == before.update(i as int, before[i - 1]).update(i - 1, before[i as int]));
            },
            UiAction::Delete(i) => {
                vec.remove(i);
            },
            UiAction::Clone(i) => {
                if i < vec.len() {
                    let ghost src = vec@[i as int];
                    let mut new_t = vec[i].clone();
                    let ghost copy = new_t;
                    assert(cloned(src, copy));
                    let mut name: Vec<char> = chars_of(vec[i].name().as_str());
                    push_str_chars(&mut name, " (1)");
                    new_t.rename(string_from_chars(&name));
                    vec.insert(0, new_t);
                    assert(vec@.drop_first() == before);
                    assert(vec@[0].same_apart_from_name(&copy));
                }
            },
        }
        assert(step_result(before, action, vec@));
        assert(vec@.len() == length_after(before.len() as int, action));
        assert forall|t: Seq<T>|
            #[trigger] actions_result(vec@, later, t) implies actions_result(old(vec)@, ui_actions@, t) by {
            assert(step_result(before, rest[0], vec@) && actions_result(vec@, rest.drop_first(), t));
            assert(actions_result(before, rest, t));
        }
        k += 1;
    }
    assert(actions_result(vec@, ui_actions@.subrange(k as int, ui_actions@.len() as int), vec@));
}

/// The last three parts of a Windows path, after `..\`.
pub open spec fn shortened(path: Seq<char>) -> Seq<char> {
    let parts = split_on(path, '\\');
    let from = if parts.len() >= 3 {
        parts.len() - 3
    } else {
        0
    };
    "..\\"@ + join_with(parts.subrange(from as int, parts.len() as int), '\\')
}

/// Shortens a Windows path for display to `..\` and its last three parts.
pub fn shorten_path(path_str: String) -> (r: String)
    ensures
        r@ == shortened(path_str@),
{
    let parts = split_pieces(&chars_of(path_str.as_str()), '\\');
    let ghost pv = views(parts@);
    let from: usize = if parts.len() >= 3 {
        parts.len() - 3
    } else {
        0
    };
    let mut out: Vec<char> = Vec::new();
    push_str_chars(&mut out, "..\\");
    let ghost head = out@;
    let mut k: usize = from;
    while k < parts.len()
        invariant
            from <= k <= parts.len(),
            pv == views(parts@),
            out@ == head + join_with(pv.subrange(from as int, k as int), '\\'),
        decreases parts.len() - k,
    {
        let ghost done = pv.subrange(from as int, k as int);
        assert(pv.subrange(from as int, k + 1) == done.push(parts@[k as int]@));
        assert(done.push(parts@[k as int]@).drop_last() == done);
        if k > from {
            out.push('\\');
        }
        let mut j: usize = 0;
        let ghost mid = out@;
        while j < parts[k].len()
            invariant
                0 <= j <= parts@[k as int]@.len(),
                k < parts.len(),
                out@ == mid + parts@[k as int]@.subrange(0, j as int),
            decreases parts@[k as int]@.len() - j,
        {
            out.push(parts[k][j]);
            j += 1;
        }
        assert(parts@[k as int]@.subrange(0, j as int) == parts@[k as int]@);
        k += 1;
    }
    string_from_chars(&out)
}

} // verus!
