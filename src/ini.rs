use vstd::prelude::*;
use crate::text::chars_of;

verus! {

/// The pieces of `s` between occurrences of `sep`, in order; text without
/// `sep` is one piece, and the empty text is one empty piece.
pub open spec fn split_on(s: Seq<char>, sep: char) -> Seq<Seq<char>>
    decreases s.len(),
{
    if s.len() == 0 {
        seq![Seq::<char>::empty()]
    } else {
        let rest = split_on(s.drop_last(), sep);
        if s.last() == sep {
            rest.push(Seq::<char>::empty())
        } else {
            rest.update(rest.len() - 1, rest.last().push(s.last()))
        }
    }
}

/// The pieces joined with `sep` between each two of them.
pub open spec fn join_with(items: Seq<Seq<char>>, sep: char) -> Seq<char>
    decreases items.len(),
{
    if items.len() == 0 {
        Seq::empty()
    } else if items.len() == 1 {
        items[0]
    } else {
        join_with(items.drop_last(), sep) + seq![sep] + items.last()
    }
}

/// The pieces that are not empty, in order.
pub open spec fn non_empty_of(pieces: Seq<Seq<char>>) -> Seq<Seq<char>>
    decreases pieces.len(),
{
    if pieces.len() == 0 {
        Seq::empty()
    } else if pieces.last().len() > 0 {
        non_empty_of(pieces.drop_last()).push(pieces.last())
    } else {
        non_empty_of(pieces.drop_last())
    }
}

/// The non-empty pieces of a comma-separated list.
pub open spec fn list_items(s: Seq<char>) -> Seq<Seq<char>> {
    non_empty_of(split_on(s, ','))
}

/// Whitespace that is trimmed from the ends of a setting's value.
pub open spec fn is_white(c: char) -> bool {
    ||| '\t' <= c <= '\r'
    ||| c == ' '
    ||| c == '\u{85}'
    ||| c == '\u{A0}'
    ||| c == '\u{1680}'
    ||| '\u{2000}' <= c <= '\u{200A}'
    ||| c == '\u{2028}'
    ||| c == '\u{2029}'
    ||| c == '\u{202F}'
    ||| c == '\u{205F}'
    ||| c == '\u{3000}'
}

pub open spec fn trim_start(s: Seq<char>) -> Seq<char>
    decreases s.len(),
{
    if s.len() > 0 && is_white(s[0]) {
        trim_start(s.drop_first())
    } else {
        s
    }
}

pub open spec fn trim_end(s: Seq<char>) -> Seq<char>
    decreases s.len(),
{
    if s.len() > 0 && is_white(s.last()) {
        trim_end(s.drop_last())
    } else {
        s
    }
}

/// `s` without whitespace at either end.
pub open spec fn trim(s: Seq<char>) -> Seq<char> {
    trim_end(trim_start(s))
}

/// The rest of the first line that begins with `prefix`, if a line does.
pub open spec fn value_after(lines: Seq<Seq<char>>, prefix: Seq<char>) -> Option<Seq<char>>
    decreases lines.len(),
{
    if lines.len() == 0 {
        None
    } else if prefix.is_prefix_of(lines[0]) {
        Some(lines[0].subrange(prefix.len() as int, lines[0].len() as int))
    } else {
        value_after(lines.drop_first(), prefix)
    }
}

/// The value of setting `key` in a text of `key=value` lines: what follows
/// `key=` on the first line that begins so, without surrounding whitespace.
pub open spec fn setting_value(text: Seq<char>, key: Seq<char>) -> Option<Seq<char>> {
    match value_after(split_on(text, '\n'), key + seq!['=']) {
        Some(v) => Some(trim(v)),
        None => None,
    }
}

pub open spec fn views(pieces: Seq<Vec<char>>) -> Seq<Seq<char>> {
    pieces.map_values(|v: Vec<char>| v@)
}

/// Splits `s` into the pieces between occurrences of `sep`.
pub fn split_pieces(s: &Vec<char>, sep: char) -> (r: Vec<Vec<char>>)
    ensures
        views(r@) == split_on(s@, sep),
{
    let mut pieces: Vec<Vec<char>> = Vec::new();
    let mut current: Vec<char> = Vec::new();
    let mut i: usize = 0;
    while i < s.len()
        invariant
            0 <= i <= s.len(),
            views(pieces@).push(current@) == split_on(s@.subrange(0, i as int), sep),
        decreases s.len() - i,
    {
        let ghost before = s@.subrange(0, i as int);
        assert(s@.subrange(0, i + 1).drop_last() == before);
        if s[i] == sep {
            pieces.push(current);
            current = Vec::new();
            assert(views(pieces@) == views(pieces@).push(Seq::<char>::empty()).drop_last());
        } else {
            current.push(s[i]);
        }
        i += 1;
        assert(views(pieces@).push(current@) == split_on(s@.subrange(0, i as int), sep));
    }
    assert(s@.subrange(0, s.len() as int) == s@);
    pieces.push(current);
    pieces
}

/// The pieces that are not empty.
pub fn non_empty_pieces(pieces: Vec<Vec<char>>) -> (r: Vec<Vec<char>>)
    ensures
        views(r@) == non_empty_of(views(pieces@)),
{
    let ghost all = views(pieces@);
    let mut kept: Vec<Vec<char>> = Vec::new();
    let mut i: usize = 0;
    while i < pieces.len()
        invariant
            0 <= i <= pieces.len(),
            all == views(pieces@),
            views(kept@) == non_empty_of(all.subrange(0, i as int)),
        decreases pieces.len() - i,
    {
        assert(all.subrange(0, i + 1).drop_last() == all.subrange(0, i as int));
        if pieces[i].len() > 0 {
            let ghost before = kept@;
            kept.push(pieces[i].clone());
            assert(views(kept@) == views(before).push(all[i as int]));
        }
        i += 1;
    }
    assert(all.subrange(0, pieces.len() as int) == all);
    kept
}

/// The non-empty pieces of a comma-separated list.
pub fn split_list(s: &Vec<char>) -> (r: Vec<Vec<char>>)
    ensures
        views(r@) == list_items(s@),
{
    non_empty_pieces(split_pieces(s, ','))
}

/// `s` without whitespace at either end.
pub fn trim_chars(s: &Vec<char>) -> (r: Vec<char>)
    ensures
        r@ == trim(s@),
{
    let mut lo: usize = 0;
    assert(s@.subrange(0, s.len() as int) == s@);
    while lo < s.len() && is_white_char(s[lo])
        invariant
            0 <= lo <= s.len(),
            trim_start(s@) == trim_start(s@.subrange(lo as int, s.len() as int)),
        decreases s.len() - lo,
    {
        assert(s@.subrange(lo + 1, s.len() as int) == s@.subrange(lo as int, s.len() as int).drop_first());
        lo += 1;
    }
    let ghost start = s@.subrange(lo as int, s.len() as int);
    assert(trim_start(s@) == start);
    let mut hi: usize = s.len();
    while hi > lo && is_white_char(s[hi - 1])
        invariant
            lo <= hi <= s.len(),
            trim_end(start) == trim_end(s@.subrange(lo as int, hi as int)),
        decreases hi,
    {
        assert(s@.subrange(lo as int, hi - 1) == s@.subrange(lo as int, hi as int).drop_last());
        hi -= 1;
    }
    let mut r: Vec<char> = Vec::new();
    let mut k: usize = lo;
    while k < hi
        invariant
            lo <= k <= hi,
            hi <= s.len(),
            r@ == s@.subrange(lo as int, k as int),
        decreases hi - k,
    {
        r.push(s[k]);
        k += 1;
    }
    r
}

/// Whether `c` is trimmed from the ends of a value.
pub fn is_white_char(c: char) -> (r: bool)
    ensures
        r == is_white(c),
{
    ('\t' <= c && c <= '\r') || c == ' ' || c == '\u{85}' || c == '\u{A0}' || c == '\u{1680}'
        || ('\u{2000}' <= c && c <= '\u{200A}') || c == '\u{2028}' || c == '\u{2029}'
        || c == '\u{202F}' || c == '\u{205F}' || c == '\u{3000}'
}

/// Whether `line` begins with `prefix`.
pub fn starts_with(line: &Vec<char>, prefix: &Vec<char>) -> (r: bool)
    ensures
        r == prefix@.is_prefix_of(line@),
{
    if prefix.len() > line.len() {
        return false;
    }
    let mut i: usize = 0;
    while i < prefix.len()
        invariant
            0 <= i <= prefix.len(),
            prefix.len() <= line.len(),
            forall|k: int| 0 <= k < i ==> prefix@[k] == line@[k],
        decreases prefix.len() - i,
    {
        if prefix[i] != line[i] {
            return false;
        }
        i += 1;
    }
    assert(prefix@ == line@.subrange(0, prefix.len() as int));
    true
}

/// The rest of the first of `lines` that begins with `prefix`.
pub fn line_value(lines: &Vec<Vec<char>>, prefix: &Vec<char>) -> (r: Option<Vec<char>>)
    ensures
        r matches Some(v) ==> value_after(views(lines@), prefix@) == Some(v@),
        r is None ==> value_after(views(lines@), prefix@) is None,
{
    let ghost all = views(lines@);
    assert(all.subrange(0, all.len() as int) == all);
    let mut i: usize = 0;
    while i < lines.len()
        invariant
            0 <= i <= lines.len(),
            all == views(lines@),
            value_after(all, prefix@) == value_after(all.subrange(i as int, all.len() as int), prefix@),
        decreases lines.len() - i,
    {
        let ghost rest = all.subrange(i as int, all.len() as int);
        assert(rest[0] == lines@[i as int]@);
        assert(rest.drop_first() == all.subrange(i + 1, all.len() as int));
        if starts_with(&lines[i], prefix) {
            let line = &lines[i];
            let mut v: Vec<char> = Vec::new();
            let mut k: usize = prefix.len();
            while k < line.len()
                invariant
                    prefix.len() <= k <= line.len(),
                    v@ == line@.subrange(prefix.len() as int, k as int),
                decreases line.len() - k,
            {
                v.push(line[k]);
                k += 1;
            }
            return Some(v);
        }
        i += 1;
    }
    None
}

/// The value of setting `key` in a text split into `lines`.
pub fn setting(lines: &Vec<Vec<char>>, key: &str) -> (r: Option<Vec<char>>)
    ensures
        r matches Some(v) ==> value_after(views(lines@), key@ + seq!['=']) matches Some(raw) && v@
            == trim(raw),
        r is None ==> value_after(views(lines@), key@ + seq!['=']) is None,
{
    let mut prefix: Vec<char> = Vec::new();
    crate::text::push_str_chars(&mut prefix, key);
    prefix.push('=');
    assert(prefix@ == key@ + seq!['=']);
    match line_value(lines, &prefix) {
        Some(raw) => Some(trim_chars(&raw)),
        None => None,
    }
}

/// Splits a text into its lines.
pub fn text_lines(text: &str) -> (r: Vec<Vec<char>>)
    ensures
        views(r@) == split_on(text@, '\n'),
{
    let chars = chars_of(text);
    split_pieces(&chars, '\n')
}

pub proof fn lemma_split_len(s: Seq<char>, sep: char)
    ensures
        split_on(s, sep).len() >= 1,
    decreases s.len(),
{
    if s.len() > 0 {
        lemma_split_len(s.drop_last(), sep);
    }
}

/// Text without the separator is a single piece.
pub proof fn lemma_split_no_sep(s: Seq<char>, sep: char)
    requires
        !s.contains(sep),
    ensures
        split_on(s, sep) == seq![s],
    decreases s.len(),
{
    if s.len() > 0 {
        assert(!s.drop_last().contains(sep)) by {
            if s.drop_last().contains(sep) {
                let k = choose|k: int| 0 <= k < s.drop_last().len() && s.drop_last()[k] == sep;
                assert(s[k] == sep);
            }
        }
        lemma_split_no_sep(s.drop_last(), sep);
        assert(s.last() != sep) by {
            assert(s[s.len() - 1] == s.last());
        }
        let rest = split_on(s.drop_last(), sep);
        assert(s.drop_last().push(s.last()) =~= s);
        assert(rest.update(rest.len() - 1, rest.last().push(s.last())) =~= seq![s]);
    } else {
        assert(s =~= Seq::<char>::empty());
    }
}

/// Splitting text joined at a separator splits each side.
pub proof fn lemma_split_append(a: Seq<char>, b: Seq<char>, sep: char)
    ensures
        split_on(a + seq![sep] + b, sep) == split_on(a, sep) + split_on(b, sep),
    decreases b.len(),
{
    let s = a + seq![sep] + b;
    if b.len() == 0 {
        assert(s.drop_last() =~= a);
    } else {
        lemma_split_append(a, b.drop_last(), sep);
        lemma_split_len(b.drop_last(), sep);
        assert(s.drop_last() =~= a + seq![sep] + b.drop_last());
        assert(s.last() == b.last());
        let left = split_on(a, sep);
        let right = split_on(b.drop_last(), sep);
        if b.last() == sep {
            assert((left + right).push(Seq::<char>::empty()) =~= left + right.push(Seq::<char>::empty()));
        } else {
            let rest = left + right;
            assert(rest.update(rest.len() - 1, rest.last().push(b.last())) =~= left + right.update(
                right.len() - 1,
                right.last().push(b.last()),
            ));
        }
    }
}

/// Splitting a join of pieces without the separator gives the pieces back.
pub proof fn lemma_split_join(items: Seq<Seq<char>>, sep: char)
    requires
        items.len() >= 1,
        forall|i: int| 0 <= i < items.len() ==> !(#[trigger] items[i]).contains(sep),
    ensures
        split_on(join_with(items, sep), sep) == items,
    decreases items.len(),
{
    if items.len() == 1 {
        lemma_split_no_sep(items[0], sep);
        assert(seq![items[0]] =~= items);
    } else {
        let init = items.drop_last();
        lemma_split_join(init, sep);
        lemma_split_append(join_with(init, sep), items.last(), sep);
        lemma_split_no_sep(items.last(), sep);
        assert(init + seq![items.last()] =~= items);
    }
}

/// Dropping empty pieces keeps a list without any.
pub proof fn lemma_non_empty_all(items: Seq<Seq<char>>)
    requires
        forall|i: int| 0 <= i < items.len() ==> (#[trigger] items[i]).len() > 0,
    ensures
        non_empty_of(items) == items,
    decreases items.len(),
{
    if items.len() > 0 {
        lemma_non_empty_all(items.drop_last());
        assert(items.drop_last().push(items.last()) =~= items);
    }
}

/// A comma-separated list written from non-empty items without commas reads
/// back as those items.
pub proof fn lemma_list_items_join(items: Seq<Seq<char>>)
    requires
        forall|i: int|
            0 <= i < items.len() ==> (#[trigger] items[i]).len() > 0 && !items[i].contains(','),
    ensures
        list_items(join_with(items, ',')) == items,
{
    if items.len() == 0 {
        let one = seq![Seq::<char>::empty()];
        assert(one.drop_last() =~= Seq::<Seq<char>>::empty());
        assert(one.last().len() == 0);
        assert(non_empty_of(one.drop_last()) =~= Seq::<Seq<char>>::empty());
        assert(split_on(join_with(items, ','), ',') == one);
    } else {
        lemma_split_join(items, ',');
        lemma_non_empty_all(items);
    }
}

/// A join of non-empty pieces begins as the first piece does and ends as the
/// last one does.
pub proof fn lemma_join_ends(items: Seq<Seq<char>>, sep: char)
    requires
        items.len() >= 1,
        forall|i: int| 0 <= i < items.len() ==> (#[trigger] items[i]).len() > 0,
    ensures
        join_with(items, sep).len() > 0,
        join_with(items, sep)[0] == items[0][0],
        join_with(items, sep).last() == items.last().last(),
    decreases items.len(),
{
    if items.len() > 1 {
        lemma_join_ends(items.drop_last(), sep);
    }
}

/// Text with no whitespace at its ends is its own trim.
pub proof fn lemma_trim_clean(s: Seq<char>)
    requires
        s.len() == 0 || (!is_white(s[0]) && !is_white(s.last())),
    ensures
        trim(s) == s,
{
}

/// A join holds a character other than the separator only where a piece does.
pub proof fn lemma_join_lacks(items: Seq<Seq<char>>, sep: char, c: char)
    requires
        c != sep,
        forall|i: int| 0 <= i < items.len() ==> !(#[trigger] items[i]).contains(c),
    ensures
        !join_with(items, sep).contains(c),
    decreases items.len(),
{
    if items.len() > 1 {
        lemma_join_lacks(items.drop_last(), sep, c);
        let a = join_with(items.drop_last(), sep);
        let j = a + seq![sep] + items.last();
        if j.contains(c) {
            let k = choose|k: int| 0 <= k < j.len() && j[k] == c;
            if k < a.len() {
                assert(a[k] == c);
            } else if k > a.len() {
                assert(items.last()[k - a.len() - 1] == c);
                assert(items[items.len() - 1] == items.last());
            }
        }
    } else if items.len() == 1 {
        assert(!items[0].contains(c));
    }
}

} // verus!
