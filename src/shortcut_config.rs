use vstd::prelude::*;
use crate::ini::{
    is_white, join_with, lemma_join_ends, lemma_join_lacks, lemma_list_items_join, lemma_split_append,
    lemma_split_no_sep, lemma_trim_clean, list_items, setting, setting_value, split_list, split_on,
    text_lines, trim, value_after, views,
};
use crate::key_combination::{KeyCombination, KeyView};
use crate::reshade::{
    insert_shortcut, lists_pairs, new_shortcut_map, no_shortcuts, pair_views, shortcut_entries,
    shortcut_pairs, with_pair, ReshadeContext, ShortcutMap,
};
use crate::text::{push_str_chars, string_from_chars};

verus! {

/// How a modifier flag is written: `1` when held, `0` when not.
pub open spec fn flag_text(b: bool) -> Seq<char> {
    if b {
        "1"@
    } else {
        "0"@
    }
}

/// The fields written for `pairs`: for each shortcut its key code and its
/// ctrl, shift and alt flags.
pub open spec fn key_fields(pairs: Seq<(KeyView, Seq<char>)>) -> Seq<Seq<char>>
    decreases pairs.len(),
{
    if pairs.len() == 0 {
        Seq::empty()
    } else {
        let k = pairs.last().0;
        key_fields(pairs.drop_last()) + seq![k.0, flag_text(k.1), flag_text(k.2), flag_text(k.3)]
    }
}

pub open spec fn preset_paths(pairs: Seq<(KeyView, Seq<char>)>) -> Seq<Seq<char>> {
    pairs.map_values(|p: (KeyView, Seq<char>)| p.1)
}

/// The two settings that hold `pairs`: the presets, then the shortcuts in
/// the same order.
pub open spec fn shortcut_configuration(pairs: Seq<(KeyView, Seq<char>)>) -> Seq<char> {
    "PresetShortcutPaths="@ + join_with(preset_paths(pairs), ',') + "\n"@ + "PresetShortcutKeys="@
        + join_with(key_fields(pairs), ',')
}

/// A field read as a flag: set when it is `1`, clear when it is anything else
/// or missing.
pub open spec fn flag_at(fields: Seq<Seq<char>>, j: int) -> bool {
    j < fields.len() && fields[j] == "1"@
}

/// The shortcut read from the `i`-th group of four fields.
pub open spec fn key_at(fields: Seq<Seq<char>>, i: int) -> KeyView {
    (fields[4 * i], flag_at(fields, 4 * i + 1), flag_at(fields, 4 * i + 2), flag_at(fields, 4 * i + 3))
}

/// How many shortcuts and presets pair up: one shortcut for each group of
/// up to four fields, one preset each, as far as both lists go.
pub open spec fn pair_count(fields: Seq<Seq<char>>, paths: Seq<Seq<char>>) -> nat {
    let groups = (fields.len() + 3) / 4;
    if groups < paths.len() {
        groups
    } else {
        paths.len()
    }
}

/// The `i`-th group of fields paired with the `i`-th preset.
pub open spec fn paired_entries(fields: Seq<Seq<char>>, paths: Seq<Seq<char>>) -> Seq<
    (KeyView, Seq<char>),
> {
    Seq::new(pair_count(fields, paths), |i: int| (key_at(fields, i), paths[i]))
}

/// The shortcut/preset pairs that a configuration text lists: `None` when it
/// has no preset list; no pair when it has no shortcut list.
pub open spec fn entries_of_text(text: Seq<char>) -> Option<Seq<(KeyView, Seq<char>)>> {
    match setting_value(text, "PresetShortcutPaths"@) {
        None => None,
        Some(pv) => Some(
            match setting_value(text, "PresetShortcutKeys"@) {
                None => Seq::empty(),
                Some(kv) => paired_entries(list_items(kv), list_items(pv)),
            },
        ),
    }
}

/// The map built by inserting, in order, the pairs whose preset exists.
pub open spec fn map_of_entries(entries: Seq<(KeyView, Seq<char>)>, exists: Seq<bool>) -> Map<
    KeyView,
    Seq<char>,
>
    decreases entries.len(),
{
    if entries.len() == 0 {
        no_shortcuts()
    } else {
        let prev = map_of_entries(entries.drop_last(), exists.drop_last());
        if exists[entries.len() - 1] {
            with_pair(prev, entries.last().0, entries.last().1)
        } else {
            prev
        }
    }
}

/// The active preset that a configuration text names, if it names one.
pub fn parse_active_preset_path(content: &str) -> (r: Option<String>)
    ensures
        r matches Some(p) ==> setting_value(content@, "PresetPath"@) == Some(p@),
        r is None ==> setting_value(content@, "PresetPath"@) is None,
{
    let lines = text_lines(content);
    match setting(&lines, "PresetPath") {
        Some(v) => Some(string_from_chars(&v)),
        None => None,
    }
}

/// The shortcut/preset pairs that a configuration text lists.
pub fn parse_shortcut_entries(content: &str) -> (r: Option<Vec<(KeyCombination, String)>>)
    ensures
        r matches Some(v) ==> entries_of_text(content@) == Some(pair_views(v@)),
        r is None ==> entries_of_text(content@) is None,
{
    let lines = text_lines(content);
    let paths_value = match setting(&lines, "PresetShortcutPaths") {
        Some(v) => v,
        None => {
            return None;
        },
    };
    let keys_value = match setting(&lines, "PresetShortcutKeys") {
        Some(v) => v,
        None => {
            let empty: Vec<(KeyCombination, String)> = Vec::new();
            assert(pair_views(empty@) == Seq::<(KeyView, Seq<char>)>::empty());
            return Some(empty);
        },
    };
    let paths = split_list(&paths_value);
    let fields = split_list(&keys_value);
    let ghost fv = views(fields@);
    let ghost pv = views(paths@);
    let groups: usize = fields.len() / 4 + if fields.len() % 4 == 0 { 0 } else { 1 };
    let count: usize = if groups < paths.len() { groups } else { paths.len() };
    assert(count == pair_count(fv, pv));
    let mut entries: Vec<(KeyCombination, String)> = Vec::new();
    let mut i: usize = 0;
    while i < count
        invariant
            0 <= i <= count,
            count == pair_count(fv, pv),
            count <= paths.len(),
            4 * count <= fields.len() + 3,
            fv == views(fields@),
            pv == views(paths@),
            pair_views(entries@) == paired_entries(fv, pv).subrange(0, i as int),
        decreases count - i,
    {
        let key_code = string_from_chars(&fields[4 * i]);
        let key = KeyCombination {
            key_code,
            ctrl: flag_field(&fields, 4 * i + 1),
            shift: flag_field(&fields, 4 * i + 2),
            alt: flag_field(&fields, 4 * i + 3),
        };
        let path = string_from_chars(&paths[i]);
        let ghost before = entries@;
        entries.push((key, path));
        assert(pair_views(entries@) == pair_views(before).push((key@, path@)));
        i += 1;
    }
    Some(entries)
}

/// Whether field `j` exists and reads `1`.
pub(crate) fn flag_field(fields: &Vec<Vec<char>>, j: usize) -> (r: bool)
    ensures
        r == flag_at(views(fields@), j as int),
{
    proof {
        reveal_strlit("1");
    }
    if j < fields.len() {
        let f = &fields[j];
        assert(views(fields@)[j as int] == f@);
        let r = f.len() == 1 && f[0] == '1';
        proof {
            if r {
                assert(f@ =~= "1"@);
            }
        }
        r
    } else {
        false
    }
}

/// Builds the shortcut map from `entries`, keeping the pairs whose preset
/// exists (`exists[i]` for pair `i`), a later pair overriding an earlier one
/// that shares its shortcut or its preset. Also returns whether any pair was
/// dropped for a missing preset.
pub fn shortcut_map_from(entries: &Vec<(KeyCombination, String)>, exists: &Vec<bool>) -> (r: (
    ShortcutMap,
    bool,
))
    requires
        exists.len() == entries.len(),
    ensures
        shortcut_entries(r.0) == map_of_entries(pair_views(entries@), exists@),
        r.1 == (exists|i: int| 0 <= i < exists.len() && !exists@[i]),
{
    let ghost ev = pair_views(entries@);
    let mut map = new_shortcut_map();
    let mut missing = false;
    let mut i: usize = 0;
    while i < entries.len()
        invariant
            0 <= i <= entries.len(),
            exists.len() == entries.len(),
            ev == pair_views(entries@),
            shortcut_entries(map) == map_of_entries(ev.subrange(0, i as int), exists@.subrange(0, i as int)),
            missing == (exists|k: int| 0 <= k < i && !exists@[k]),
        decreases entries.len() - i,
    {
        assert(ev.subrange(0, i + 1).drop_last() == ev.subrange(0, i as int));
        assert(exists@.subrange(0, i + 1).drop_last() == exists@.subrange(0, i as int));
        if exists[i] {
            let key = entries[i].0.duplicate();
            let path = entries[i].1.clone();
            insert_shortcut(&mut map, key, path);
        } else {
            missing = true;
        }
        i += 1;
    }
    assert(ev.subrange(0, entries.len() as int) == ev);
    assert(exists@.subrange(0, entries.len() as int) == exists@);
    (map, missing)
}

/// No two pairs name the same preset.
pub open spec fn distinct_presets(pairs: Seq<(KeyView, Seq<char>)>) -> bool {
    forall|i: int, j: int| 0 <= i < j < pairs.len() ==> pairs[i].1 != pairs[j].1
}

proof fn lemma_join_push(items: Seq<Seq<char>>, x: Seq<char>, sep: char)
    ensures
        join_with(items.push(x), sep) == (if items.len() == 0 {
            x
        } else {
            join_with(items, sep) + seq![sep] + x
        }),
{
    assert(items.push(x).drop_last() == items);
}

/// The text of one shortcut's four fields.
pub open spec fn key_text(k: KeyView) -> Seq<char> {
    k.0 + seq![','] + flag_text(k.1) + seq![','] + flag_text(k.2) + seq![','] + flag_text(k.3)
}

proof fn lemma_join_key(done: Seq<Seq<char>>, k: KeyView)
    ensures
        join_with(done + seq![k.0, flag_text(k.1), flag_text(k.2), flag_text(k.3)], ',') == (if done.len()
            == 0 {
            key_text(k)
        } else {
            join_with(done, ',') + seq![','] + key_text(k)
        }),
{
    let f1 = done.push(k.0);
    let f2 = f1.push(flag_text(k.1));
    let f3 = f2.push(flag_text(k.2));
    let f4 = f3.push(flag_text(k.3));
    assert(done + seq![k.0, flag_text(k.1), flag_text(k.2), flag_text(k.3)] == f4);
    lemma_join_push(done, k.0, ',');
    lemma_join_push(f1, flag_text(k.1), ',');
    lemma_join_push(f2, flag_text(k.2), ',');
    lemma_join_push(f3, flag_text(k.3), ',');
    if done.len() == 0 {
        assert(join_with(f4, ',') =~= key_text(k));
    } else {
        assert(join_with(f4, ',') =~= join_with(done, ',') + seq![','] + key_text(k));
    }
}

/// Appends the four fields of `k`, separated by commas.
fn push_key_fields(out: &mut Vec<char>, k: &KeyCombination)
    ensures
        final(out)@ == old(out)@ + key_text(k@),
{
    proof {
        reveal_strlit("1");
        reveal_strlit("0");
    }
    push_str_chars(out, k.key_code.as_str());
    out.push(',');
    out.push(if k.ctrl { '1' } else { '0' });
    out.push(',');
    out.push(if k.shift { '1' } else { '0' });
    out.push(',');
    out.push(if k.alt { '1' } else { '0' });
    assert("1"@ =~= seq!['1']);
    assert("0"@ =~= seq!['0']);
    assert(out@ =~= old(out)@ + key_text(k@));
}

/// How a modifier flag is written.
pub fn bool_to_string(b: bool) -> (r: String)
    ensures
        r@ == flag_text(b),
{
    let mut out: Vec<char> = Vec::new();
    out.push(if b { '1' } else { '0' });
    proof {
        reveal_strlit("1");
        reveal_strlit("0");
        assert(out@ =~= flag_text(b));
    }
    string_from_chars(&out)
}

impl ReshadeContext {
    /// The two configuration settings that hold the shortcut map, for
    /// writing back over a damaged configuration. The pairs come in the
    /// map's own order.
    pub fn as_reshade_shortcut_configuration(&self) -> (r: String)
        ensures
            exists|pairs: Seq<(KeyView, Seq<char>)>|
                lists_pairs(pairs, shortcut_entries(self.preset_shortcuts)) && distinct_presets(
                    pairs,
                ) && r@ == shortcut_configuration(pairs),
    {
        let pairs = shortcut_pairs(&self.preset_shortcuts);
        let ghost pv = pair_views(pairs@);
        let mut out: Vec<char> = Vec::new();
        push_str_chars(&mut out, "PresetShortcutPaths=");
        let mut i: usize = 0;
        while i < pairs.len()
            invariant
                0 <= i <= pairs.len(),
                pv == pair_views(pairs@),
                out@ == "PresetShortcutPaths="@ + join_with(
                    preset_paths(pv.subrange(0, i as int)),
                    ',',
                ),
            decreases pairs.len() - i,
        {
            let ghost done = preset_paths(pv.subrange(0, i as int));
            assert(preset_paths(pv.subrange(0, i + 1)) == done.push(pairs@[i as int].1@));
            proof {
                lemma_join_push(done, pairs@[i as int].1@, ',');
            }
            if i > 0 {
                out.push(',');
            }
            push_str_chars(&mut out, pairs[i].1.as_str());
            i += 1;
        }
        assert(pv.subrange(0, pairs.len() as int) == pv);
        push_str_chars(&mut out, "\n");
        push_str_chars(&mut out, "PresetShortcutKeys=");
        let ghost head = out@;
        i = 0;
        while i < pairs.len()
            invariant
                0 <= i <= pairs.len(),
                pv == pair_views(pairs@),
                out@ == head + join_with(key_fields(pv.subrange(0, i as int)), ','),
            decreases pairs.len() - i,
        {
            let ghost done = key_fields(pv.subrange(0, i as int));
            assert(pv.subrange(0, i + 1).drop_last() == pv.subrange(0, i as int));
            proof {
                lemma_join_key(done, pairs@[i as int].0@);
            }
            if i > 0 {
                out.push(',');
            }
            push_key_fields(&mut out, &pairs[i].0);
            i += 1;
        }
        assert(pv.subrange(0, pairs.len() as int) == pv);
        assert(out@ == shortcut_configuration(pv));
        string_from_chars(&out)
    }
}

/// A field that survives being written into a list and read back: not
/// empty, without commas or line breaks, and without whitespace at its ends.
pub open spec fn clean_field(s: Seq<char>) -> bool {
    &&& s.len() > 0
    &&& !s.contains(',')
    &&& !s.contains('\n')
    &&& !is_white(s[0])
    &&& !is_white(s.last())
}

/// Every key code and preset of `pairs` is a clean field.
pub open spec fn clean_pairs(pairs: Seq<(KeyView, Seq<char>)>) -> bool {
    forall|i: int| 0 <= i < pairs.len() ==> clean_field((#[trigger] pairs[i]).0.0) && clean_field(pairs[i].1)
}

/// Each preset of a list exists.
pub open spec fn all_exist(n: nat) -> Seq<bool> {
    Seq::new(n, |i: int| true)
}

proof fn lemma_key_fields_shape(pairs: Seq<(KeyView, Seq<char>)>)
    ensures
        key_fields(pairs).len() == 4 * pairs.len(),
        forall|i: int|
            0 <= i < pairs.len() ==> {
                let f = key_fields(pairs);
                let k = (#[trigger] pairs[i]).0;
                &&& f[4 * i] == k.0
                &&& f[4 * i + 1] == flag_text(k.1)
                &&& f[4 * i + 2] == flag_text(k.2)
                &&& f[4 * i + 3] == flag_text(k.3)
            },
    decreases pairs.len(),
{
    if pairs.len() > 0 {
        let init = pairs.drop_last();
        lemma_key_fields_shape(init);
        let f = key_fields(pairs);
        let g = key_fields(init);
        let k = pairs.last().0;
        assert(f == g + seq![k.0, flag_text(k.1), flag_text(k.2), flag_text(k.3)]);
        assert forall|i: int| 0 <= i < pairs.len() implies {
            let k = (#[trigger] pairs[i]).0;
            &&& f[4 * i] == k.0
            &&& f[4 * i + 1] == flag_text(k.1)
            &&& f[4 * i + 2] == flag_text(k.2)
            &&& f[4 * i + 3] == flag_text(k.3)
        } by {
            if i < pairs.len() - 1 {
                assert(init[i] == pairs[i]);
            } else {
                assert(pairs[i] == pairs.last());
            }
        }
    }
}

proof fn lemma_concat_lacks(a: Seq<char>, b: Seq<char>, c: char)
    requires
        !a.contains(c),
        !b.contains(c),
    ensures
        !(a + b).contains(c),
{
    if (a + b).contains(c) {
        let k = choose|k: int| 0 <= k < (a + b).len() && (a + b)[k] == c;
        if k < a.len() {
            assert(a[k] == c);
        } else {
            assert(b[k - a.len()] == c);
        }
    }
}

proof fn lemma_literal_lacks(s: Seq<char>, c: char)
    requires
        forall|i: int| 0 <= i < s.len() ==> s[i] != c,
    ensures
        !s.contains(c),
{
}

/// The value of a written list is its own trim.
proof fn lemma_written_list_trimmed(items: Seq<Seq<char>>)
    requires
        forall|i: int| 0 <= i < items.len() ==> clean_field(#[trigger] items[i]),
    ensures
        trim(join_with(items, ',')) == join_with(items, ','),
        list_items(join_with(items, ',')) == items,
        !join_with(items, ',').contains('\n'),
{
    if items.len() > 0 {
        lemma_join_ends(items, ',');
        assert(items[items.len() - 1] == items.last());
    }
    lemma_trim_clean(join_with(items, ','));
    lemma_list_items_join(items);
    lemma_join_lacks(items, ',', '\n');
}

/// Writing out the pairs of a shortcut map and reading the text back gives
/// the same pairs in the same order, and inserting them into an empty map,
/// all presets existing, gives back the same map.
pub proof fn lemma_shortcut_configuration_round_trip(
    m: Map<KeyView, Seq<char>>,
    pairs: Seq<(KeyView, Seq<char>)>,
)
    requires
        lists_pairs(pairs, m),
        distinct_presets(pairs),
        clean_pairs(pairs),
    ensures
        entries_of_text(shortcut_configuration(pairs)) == Some(pairs),
        map_of_entries(pairs, all_exist(pairs.len())) == m,
{
    lemma_configuration_text_round_trip(pairs);
    lemma_map_of_distinct(pairs);
    assert(map_of_entries(pairs, all_exist(pairs.len())) =~= m);
}

proof fn lemma_configuration_text_round_trip(pairs: Seq<(KeyView, Seq<char>)>)
    requires
        clean_pairs(pairs),
    ensures
        entries_of_text(shortcut_configuration(pairs)) == Some(pairs),
{
    reveal_strlit("1");
    reveal_strlit("0");
    reveal_strlit("\n");
    reveal_strlit("PresetShortcutPaths=");
    reveal_strlit("PresetShortcutKeys=");
    reveal_strlit("PresetShortcutPaths");
    reveal_strlit("PresetShortcutKeys");
    let n = pairs.len();
    let paths = preset_paths(pairs);
    let fields = key_fields(pairs);
    lemma_key_fields_shape(pairs);
    assert forall|i: int| 0 <= i < paths.len() implies clean_field(#[trigger] paths[i]) by {
        assert(clean_field(pairs[i].1));
    }
    assert forall|j: int| 0 <= j < fields.len() implies clean_field(#[trigger] fields[j]) by {
        let i = j / 4;
        assert(0 <= i < n);
        assert(clean_field(pairs[i].0.0));
        assert(j == 4 * i || j == 4 * i + 1 || j == 4 * i + 2 || j == 4 * i + 3);
        assert(flag_text(true).contains(',') ==> flag_text(true)[0] == ',');
        assert(flag_text(false).contains(',') ==> flag_text(false)[0] == ',');
        assert(flag_text(true).contains('\n') ==> flag_text(true)[0] == '\n');
        assert(flag_text(false).contains('\n') ==> flag_text(false)[0] == '\n');
    }
    lemma_written_list_trimmed(paths);
    lemma_written_list_trimmed(fields);
    let jp = join_with(paths, ',');
    let jk = join_with(fields, ',');
    let head_p = "PresetShortcutPaths="@;
    let head_k = "PresetShortcutKeys="@;
    let a = head_p + jp;
    let b = head_k + jk;
    lemma_literal_lacks(head_p, '\n');
    lemma_literal_lacks(head_k, '\n');
    lemma_concat_lacks(head_p, jp, '\n');
    lemma_concat_lacks(head_k, jk, '\n');
    let text = shortcut_configuration(pairs);
    assert(text =~= a + seq!['\n'] + b);
    lemma_split_append(a, b, '\n');
    lemma_split_no_sep(a, '\n');
    lemma_split_no_sep(b, '\n');
    let lines = split_on(text, '\n');
    assert(lines =~= seq![a, b]);
    let pp = "PresetShortcutPaths"@ + seq!['='];
    let kp = "PresetShortcutKeys"@ + seq!['='];
    assert(pp =~= head_p);
    assert(kp =~= head_k);
    assert(pp.is_prefix_of(a)) by {
        assert(a.subrange(0, pp.len() as int) =~= pp);
    }
    assert(a.subrange(pp.len() as int, a.len() as int) =~= jp);
    assert(!kp.is_prefix_of(a)) by {
        assert(a[14] != kp[14]);
    }
    assert(kp.is_prefix_of(b)) by {
        assert(b.subrange(0, kp.len() as int) =~= kp);
    }
    assert(lines.drop_first() =~= seq![b]);
    assert(b.subrange(kp.len() as int, b.len() as int) =~= jk);
    assert(value_after(lines, pp) == Some(jp));
    assert(value_after(seq![b], kp) == Some(jk));
    assert(value_after(lines, kp) == Some(jk));
    assert(setting_value(text, "PresetShortcutPaths"@) == Some(jp));
    assert(setting_value(text, "PresetShortcutKeys"@) == Some(jk));
    assert(pair_count(fields, paths) == n) by {
        assert((4 * n + 3) / 4 == n);
    }
    let got = paired_entries(fields, paths);
    assert forall|i: int| 0 <= i < n implies #[trigger] got[i] == pairs[i] by {
        let k = pairs[i].0;
        assert(flag_at(fields, 4 * i + 1) == k.1);
        assert(flag_at(fields, 4 * i + 2) == k.2);
        assert(flag_at(fields, 4 * i + 3) == k.3);
    }
    assert(got =~= pairs);
}

/// Inserting pairs with distinct shortcuts and distinct presets keeps them all.
proof fn lemma_map_of_distinct(pairs: Seq<(KeyView, Seq<char>)>)
    requires
        forall|i: int, j: int| 0 <= i < j < pairs.len() ==> pairs[i].0 != pairs[j].0,
        distinct_presets(pairs),
    ensures
        forall|k: KeyView|
            map_of_entries(pairs, all_exist(pairs.len())).dom().contains(k) <==> exists|i: int|
                0 <= i < pairs.len() && (#[trigger] pairs[i]).0 == k,
        forall|i: int|
            0 <= i < pairs.len() ==> map_of_entries(pairs, all_exist(pairs.len()))[(
                #[trigger] pairs[i]).0] == pairs[i].1,
    decreases pairs.len(),
{
    if pairs.len() > 0 {
        let init = pairs.drop_last();
        lemma_map_of_distinct(init);
        assert(all_exist(pairs.len()).drop_last() =~= all_exist(init.len()));
        let prev = map_of_entries(init, all_exist(init.len()));
        let last = pairs.last();
        assert(pairs[pairs.len() - 1] == last);
        assert forall|i: int| 0 <= i < init.len() implies #[trigger] init[i] == pairs[i] by {}
        let cur = map_of_entries(pairs, all_exist(pairs.len()));
        assert(cur == with_pair(prev, last.0, last.1));
        assert forall|k: KeyView| cur.dom().contains(k) <==> exists|i: int|
            0 <= i < pairs.len() && (#[trigger] pairs[i]).0 == k by {
            if prev.dom().contains(k) {
                let i = choose|i: int| 0 <= i < init.len() && (#[trigger] init[i]).0 == k;
                assert(pairs[i].0 == k);
                assert(prev[k] == pairs[i].1);
            }
            if exists|i: int| 0 <= i < pairs.len() && (#[trigger] pairs[i]).0 == k {
                let i = choose|i: int| 0 <= i < pairs.len() && (#[trigger] pairs[i]).0 == k;
                if i < pairs.len() - 1 {
                    assert(init[i].0 == k);
                    assert(prev[k] == pairs[i].1);
                }
            }
        }
        assert forall|i: int| 0 <= i < pairs.len() implies cur[(#[trigger] pairs[i]).0]
            == pairs[i].1 by {
            if i < pairs.len() - 1 {
                assert(init[i] == pairs[i]);
                assert(pairs[i].0 != last.0);
            }
        }
    }
}

} // verus!
