use vstd::prelude::*;
use crate::key_combination::{KeyCombination, KeyView};

verus! {

#[verifier::external_type_specification]
#[verifier::external_body]
#[verifier::reject_recursive_types(L)]
#[verifier::reject_recursive_types(R)]
#[verifier::reject_recursive_types(LS)]
#[verifier::reject_recursive_types(RS)]
pub struct ExBiHashMap<L, R, LS, RS>(bimap::BiHashMap<L, R, LS, RS>);

/// The two-sided index between shortcuts and the presets they select.
pub type ShortcutMap = bimap::BiHashMap<KeyCombination, String>;

/// The shortcut-to-preset pairs that a shortcut map holds.
pub uninterp spec fn shortcut_entries(m: bimap::BiHashMap<KeyCombination, String>) -> Map<
    KeyView,
    Seq<char>,
>;

/// The map without any pair.
pub open spec fn no_shortcuts() -> Map<KeyView, Seq<char>> {
    Map::empty()
}

/// `m` after inserting the pair `k`, `p`: any pair with the shortcut `k` or
/// the preset `p` gives way to it.
pub open spec fn with_pair(m: Map<KeyView, Seq<char>>, k: KeyView, p: Seq<char>) -> Map<
    KeyView,
    Seq<char>,
> {
    Map::new(
        |k2: KeyView| k2 == k || (m.dom().contains(k2) && m[k2] != p),
        |k2: KeyView|
            if k2 == k {
                p
            } else {
                m[k2]
            },
    )
}

/// `pairs` lists the pairs of `m`, each once.
pub open spec fn lists_pairs(pairs: Seq<(KeyView, Seq<char>)>, m: Map<KeyView, Seq<char>>) -> bool {
    &&& forall|i: int|
        0 <= i < pairs.len() ==> m.dom().contains(#[trigger] pairs[i].0) && m[pairs[i].0]
            == pairs[i].1
    &&& forall|i: int, j: int| 0 <= i < j < pairs.len() ==> pairs[i].0 != pairs[j].0
    &&& forall|k: KeyView| m.dom().contains(k) ==> exists|i: int| 0 <= i < pairs.len() && #[trigger] pairs[i].0 == k
}

pub open spec fn pair_views(pairs: Seq<(KeyCombination, String)>) -> Seq<(KeyView, Seq<char>)> {
    pairs.map_values(|p: (KeyCombination, String)| (p.0@, p.1@))
}

/// Relies on `BiHashMap::new`, which makes an empty map.
#[verifier::external_body]
pub(crate) fn new_shortcut_map() -> (r: ShortcutMap)
    ensures
        shortcut_entries(r) == no_shortcuts(),
{
    bimap::BiHashMap::new()
}

/// Relies on `BiHashMap::insert`, which removes the pairs that hold the left
/// or the right value and then adds the new pair.
#[verifier::external_body]
pub(crate) fn insert_shortcut(m: &mut ShortcutMap, key: KeyCombination, preset: String)
    ensures
        shortcut_entries(*final(m)) == with_pair(shortcut_entries(*old(m)), key@, preset@),
{
    m.insert(key, preset);
}

/// Relies on `BiHashMap::get_by_right`, which finds the pair that holds the
/// right value.
#[verifier::external_body]
pub(crate) fn shortcut_of(m: &ShortcutMap, preset: &String) -> (r: Option<KeyCombination>)
    ensures
        r is Some == shortcut_entries(*m).values().contains(preset@),
        r is Some ==> shortcut_entries(*m).dom().contains(r->0@),
        r is Some ==> shortcut_entries(*m)[r->0@] == preset@,
{
    m.get_by_right(preset).cloned()
}

/// Relies on `BiHashMap::is_empty`, true when the map holds no pair.
#[verifier::external_body]
pub(crate) fn shortcut_map_is_empty(m: &ShortcutMap) -> (r: bool)
    ensures
        r == (shortcut_entries(*m).dom() == Set::<KeyView>::empty()),
{
    m.is_empty()
}

/// Relies on `BiHashMap::iter`, which visits each pair once, in an order that
/// it does not fix; no two pairs of the map share a right value.
#[verifier::external_body]
pub(crate) fn shortcut_pairs(m: &ShortcutMap) -> (r: Vec<(KeyCombination, String)>)
    ensures
        lists_pairs(pair_views(r@), shortcut_entries(*m)),
        forall|i: int, j: int| 0 <= i < j < r@.len() ==> r@[i].1@ != r@[j].1@,
{
    m.iter().map(|(k, p)| (k.clone(), p.clone())).collect()
}

/// A preset awaiting activation, with the retries left for it.
pub open spec fn pending_view(v: Option<(String, usize)>) -> Option<(Seq<char>, int)> {
    match v {
        None => None,
        Some((p, n)) => Some((p@, n as int)),
    }
}

/// One poll of the retry machine: the pending activation after it, and
/// whether the shortcut is to be pressed once more. It ends when the active
/// preset is the target or when no retry is left.
pub open spec fn retry_tick(pending: Option<(Seq<char>, int)>, active: Seq<char>) -> (Option<
    (Seq<char>, int),
>, bool) {
    match pending {
        None => (None, false),
        Some((target, retries)) => if target == active {
            (None, false)
        } else if retries > 0 {
            (Some((target, retries - 1)), true)
        } else {
            (None, false)
        },
    }
}

/// The pending activation after one poll for each active preset in
/// `actives`, in order, and how many of those polls pressed the shortcut.
pub open spec fn retry_run(pending: Option<(Seq<char>, int)>, actives: Seq<Seq<char>>) -> (Option<
    (Seq<char>, int),
>, int)
    decreases actives.len(),
{
    if actives.len() == 0 {
        (pending, 0)
    } else {
        let step = retry_tick(pending, actives[0]);
        let rest = retry_run(step.0, actives.drop_first());
        (rest.0, rest.1 + if step.1 {
            1int
        } else {
            0int
        })
    }
}

/// With no activation pending, polls press nothing and nothing becomes pending.
pub proof fn lemma_idle_stays_idle(actives: Seq<Seq<char>>)
    ensures
        retry_run(None, actives) == (None::<(Seq<char>, int)>, 0int),
    decreases actives.len(),
{
    if actives.len() > 0 {
        lemma_idle_stays_idle(actives.drop_first());
    }
}

/// While the active preset never becomes the target, an activation with `n`
/// retries left presses the shortcut on each of the next `n` polls; the poll
/// after those clears it, and no later poll presses anything. Each poll is a
/// call of `ReshadeContext::should_retry_activation`, whose contract is
/// `retry_tick`.
pub proof fn lemma_retries_exhaust(target: Seq<char>, n: nat, actives: Seq<Seq<char>>)
    requires
        forall|i: int| 0 <= i < actives.len() ==> actives[i] != target,
    ensures
        retry_run(Some((target, n as int)), actives) == (if actives.len() <= n {
            (Some((target, n - actives.len())), actives.len() as int)
        } else {
            (None, n as int)
        }),
    decreases actives.len(),
{
    if actives.len() > 0 {
        assert(actives[0] != target);
        if n > 0 {
            lemma_retries_exhaust(target, (n - 1) as nat, actives.drop_first());
        } else {
            lemma_idle_stays_idle(actives.drop_first());
        }
    }
}

/// Once the active preset equals the target, the poll clears the pending
/// activation and no shortcut is pressed then or later.
pub proof fn lemma_converged_run(target: Seq<char>, n: int, actives: Seq<Seq<char>>)
    requires
        actives.len() > 0,
        actives[0] == target,
    ensures
        retry_run(Some((target, n)), actives) == (None::<(Seq<char>, int)>, 0int),
{
    lemma_idle_stays_idle(actives.drop_first());
}

/// The mirrored state of the external application: the active preset, the
/// shortcut of each preset, and the activation that awaits confirmation.
pub struct ReshadeContext {
    pub preset_shortcuts: ShortcutMap,
    pub active_preset_path: String,
    pub verify_activation: Option<(String, usize)>,
}

impl Default for ReshadeContext {
    fn default() -> (r: ReshadeContext)
        ensures
            shortcut_entries(r.preset_shortcuts) == no_shortcuts(),
            r.active_preset_path@ == Seq::<char>::empty(),
            r.verify_activation is None,
    {
        ReshadeContext {
            preset_shortcuts: new_shortcut_map(),
            active_preset_path: String::new(),
            verify_activation: None,
        }
    }
}

impl ReshadeContext {
    /// The mirror is usable when it holds at least one shortcut.
    pub fn valid(&self) -> (r: bool)
        ensures
            r == (shortcut_entries(self.preset_shortcuts).dom() != Set::<KeyView>::empty()),
    {
        !shortcut_map_is_empty(&self.preset_shortcuts)
    }

    /// Polls the pending activation: returns whether its shortcut is to be
    /// pressed again, spending one retry. Convergence on the target, or no
    /// retry left, clears it.
    pub fn should_retry_activation(&mut self) -> (r: bool)
        ensures
            (pending_view(final(self).verify_activation), r) == retry_tick(
                pending_view(old(self).verify_activation),
                old(self).active_preset_path@,
            ),
            old(self).verify_activation matches Some((t, n)) && t@ == old(
                self,
            ).active_preset_path@ ==> final(self).verify_activation is None && !r,
            final(self).verify_activation matches Some((t, n)) ==> old(self).verify_activation
                matches Some((t0, n0)) && t == t0 && n + 1 == n0,
            final(self).active_preset_path == old(self).active_preset_path,
            final(self).preset_shortcuts == old(self).preset_shortcuts,
    {
        let next = match &self.verify_activation {
            Some((preset_path, retries)) => {
                if self.active_preset_path == *preset_path {
                    None
                } else if *retries > 0 {
                    Some((preset_path.clone(), *retries - 1))
                } else {
                    None
                }
            },
            None => None,
        };
        let retry = next.is_some();
        self.verify_activation = next;
        retry
    }

    /// The shortcut that selects `preset_path`, if the mirror knows one.
    pub fn shortcut_for_preset(&self, preset_path: &String) -> (r: Option<KeyCombination>)
        ensures
            r is Some == shortcut_entries(self.preset_shortcuts).values().contains(preset_path@),
            r matches Some(k) ==> shortcut_entries(self.preset_shortcuts)[k@] == preset_path@,
    {
        shortcut_of(&self.preset_shortcuts, preset_path)
    }
}

} // verus!
