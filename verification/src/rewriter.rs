//! Substitution of logical table names in SQL text.
//!
//! The text is read once, from left to right. Where the name of an entry
//! stands as a whole word, the scan expression of that entry is written in
//! its place and reading goes on behind the name; any other character is
//! copied. What has been written is never read again, so a location that
//! happens to hold a table name is left alone. Where several entries match at
//! one position, the one registered last is taken.

use vstd::prelude::*;
use crate::catalog::{mappings, DeltaMapping, Mapping};
use crate::text::to_chars;
use crate::words::{is_identifier, is_word_at, word_after, word_at, word_before, word_char_at};

verus! {

/// `text` with each single quote doubled, as SQL writes a quote inside a
/// string literal.
pub open spec fn quoted(text: Seq<char>) -> Seq<char>
    decreases text.len(),
{
    if text.len() == 0 {
        Seq::empty()
    } else if text.last() == '\'' {
        quoted(text.drop_last()).push('\'').push('\'')
    } else {
        quoted(text.drop_last()).push(text.last())
    }
}

/// The expression that scans the table stored at `location`:
/// `delta_scan('<location>')`, with the location as an SQL string literal.
pub open spec fn scan_expr(location: Seq<char>) -> Seq<char> {
    "delta_scan('"@ + quoted(location) + "')"@
}

/// The expression that scans the table stored at `location`.
pub fn scan_expression(location: &str) -> (r: String)
    ensures
        r@ == scan_expr(location@),
{
    let chars = to_chars(location);
    let mut r = String::from_str("delta_scan('");
    let ghost head = r@;
    let mut i: usize = 0;
    while i < chars.len()
        invariant
            i <= chars.len(),
            r@ == head + quoted(chars@.take(i as int)),
        decreases chars.len() - i,
    {
        assert(chars@.take(i + 1).drop_last() =~= chars@.take(i as int));
        if chars[i] == '\'' {
            r.push('\'');
            r.push('\'');
        } else {
            r.push(chars[i]);
        }
        i += 1;
    }
    assert(chars@.take(i as int) =~= chars@);
    r.append("')");
    r
}

/// The entry whose name is substituted at position `at` of `text`: the last
/// of `entries` whose name stands there as a whole word, if there is one.
pub open spec fn chosen(text: Seq<char>, entries: Seq<Mapping>, at: int) -> Option<int>
    decreases entries.len(),
{
    if entries.len() == 0 {
        None
    } else if word_at(text, entries.last().name, at) {
        Some(entries.len() - 1)
    } else {
        chosen(text, entries.drop_last(), at)
    }
}

/// What [`chosen`] finds is an entry whose name stands at `at` as a whole
/// word, and no later entry has such a name.
pub proof fn lemma_chosen(text: Seq<char>, entries: Seq<Mapping>, at: int)
    ensures
        match chosen(text, entries, at) {
            Some(k) => {
                &&& 0 <= k < entries.len()
                &&& word_at(text, entries[k].name, at)
                &&& forall|j: int| k < j < entries.len() ==> !word_at(text, entries[j].name, at)
            },
            None => forall|j: int| 0 <= j < entries.len() ==> !word_at(text, entries[j].name, at),
        },
    decreases entries.len(),
{
    if entries.len() > 0 && !word_at(text, entries.last().name, at) {
        let rest = entries.drop_last();
        lemma_chosen(text, rest, at);
        match chosen(text, rest, at) {
            Some(k) => {
                assert forall|j: int| k < j < entries.len() implies !word_at(
                    text,
                    entries[j].name,
                    at,
                ) by {
                    if j < rest.len() {
                        assert(rest[j] == entries[j]);
                    }
                }
            },
            None => {
                assert forall|j: int| 0 <= j < entries.len() implies !word_at(
                    text,
                    entries[j].name,
                    at,
                ) by {
                    if j < rest.len() {
                        assert(rest[j] == entries[j]);
                    }
                }
            },
        }
    }
}

/// What the reading of `text` writes between the positions `from` and
/// `to`: at each position that it meets, the scan expression of the entry
/// chosen there, after which it goes on behind the entry's name, or else the
/// character itself.
pub open spec fn rewrite_range(text: Seq<char>, entries: Seq<Mapping>, from: int, to: int) -> Seq<
    char,
>
    decreases text.len() - from,
    via rewrite_range_decreases
{
    if from < 0 || from >= to || to > text.len() {
        Seq::empty()
    } else {
        match chosen(text, entries, from) {
            Some(k) => scan_expr(entries[k].location) + rewrite_range(
                text,
                entries,
                from + entries[k].name.len(),
                to,
            ),
            None => seq![text[from]] + rewrite_range(text, entries, from + 1, to),
        }
    }
}

#[via_fn]
proof fn rewrite_range_decreases(text: Seq<char>, entries: Seq<Mapping>, from: int, to: int) {
    lemma_chosen(text, entries, from);
}

/// `text` with the names of `entries` substituted: every whole-word
/// occurrence that the left-to-right reading meets is replaced by the scan
/// expression of its entry, and every other character is kept.
pub open spec fn rewritten(text: Seq<char>, entries: Seq<Mapping>) -> Seq<char> {
    rewrite_range(text, entries, 0, text.len() as int)
}

/// Whether the reading of `text` that starts at `from` comes to stand at
/// position `p`, rather than passing over it inside a name.
pub open spec fn meets(text: Seq<char>, entries: Seq<Mapping>, from: int, p: int) -> bool
    decreases text.len() - from,
    via meets_decreases
{
    if from < 0 || p < from || p > text.len() {
        false
    } else if p == from {
        true
    } else {
        match chosen(text, entries, from) {
            Some(k) => meets(text, entries, from + entries[k].name.len(), p),
            None => meets(text, entries, from + 1, p),
        }
    }
}

#[via_fn]
proof fn meets_decreases(text: Seq<char>, entries: Seq<Mapping>, from: int, p: int) {
    lemma_chosen(text, entries, from);
}

/// Whether the name of every entry is an identifier.
pub open spec fn all_identifiers(entries: Seq<Mapping>) -> bool {
    forall|k: int| 0 <= k < entries.len() ==> is_identifier(#[trigger] entries[k].name)
}

/// Whether position `p` lies in the whole-word occurrence of the name of
/// entry `k` that starts at `q`.
pub open spec fn covers(text: Seq<char>, entries: Seq<Mapping>, k: int, q: int, p: int) -> bool {
    &&& 0 <= k < entries.len()
    &&& word_at(text, entries[k].name, q)
    &&& q <= p < q + entries[k].name.len()
}

/// Whether position `p` lies in no whole-word occurrence of any entry's
/// name.
pub open spec fn uncovered(text: Seq<char>, entries: Seq<Mapping>, p: int) -> bool {
    forall|k: int, q: int| !#[trigger] covers(text, entries, k, q, p)
}

/// Where the reading meets a position, what it writes falls into what it
/// writes before that position and what it writes from there on.
pub proof fn lemma_rewrite_splits(
    text: Seq<char>,
    entries: Seq<Mapping>,
    from: int,
    p: int,
    to: int,
)
    requires
        0 <= from <= p <= to <= text.len(),
        meets(text, entries, from, p),
    ensures
        rewrite_range(text, entries, from, to) == rewrite_range(text, entries, from, p)
            + rewrite_range(text, entries, p, to),
    decreases text.len() - from,
{
    if from == p {
        assert(rewrite_range(text, entries, from, to) =~= Seq::<char>::empty() + rewrite_range(
            text,
            entries,
            p,
            to,
        ));
    } else {
        lemma_chosen(text, entries, from);
        match chosen(text, entries, from) {
            Some(k) => {
                let next = from + entries[k].name.len();
                assert(meets(text, entries, next, p));
                lemma_rewrite_splits(text, entries, next, p, to);
                assert(rewrite_range(text, entries, from, to) =~= (scan_expr(entries[k].location)
                    + rewrite_range(text, entries, next, p)) + rewrite_range(text, entries, p, to));
            },
            None => {
                lemma_rewrite_splits(text, entries, from + 1, p, to);
                assert(rewrite_range(text, entries, from, to) =~= (seq![text[from]]
                    + rewrite_range(text, entries, from + 1, p)) + rewrite_range(
                    text,
                    entries,
                    p,
                    to,
                ));
            },
        }
    }
}

/// Two whole-word occurrences of identifiers do not overlap: one that
/// starts before the other ends before it.
pub proof fn lemma_identifiers_lie_apart(
    text: Seq<char>,
    first: Seq<char>,
    q: int,
    second: Seq<char>,
    p: int,
)
    requires
        is_identifier(first),
        is_identifier(second),
        word_at(text, first, q),
        word_at(text, second, p),
        q < p,
    ensures
        q + first.len() <= p,
{
    if p < q + first.len() {
        assert(word_char_at(first, p - 1 - q));
        assert(word_char_at(second, 0));
    }
}

/// Two identifiers that occur as whole words at one position are the same.
pub proof fn lemma_identifiers_at_one_place(
    text: Seq<char>,
    first: Seq<char>,
    second: Seq<char>,
    p: int,
)
    requires
        is_identifier(first),
        is_identifier(second),
        word_at(text, first, p),
        word_at(text, second, p),
    ensures
        first == second,
{
    if first.len() < second.len() {
        assert(word_char_at(first, first.len() - 1));
        assert(word_char_at(second, first.len() as int));
    } else if second.len() < first.len() {
        assert(word_char_at(second, second.len() - 1));
        assert(word_char_at(first, second.len() as int));
    }
}

/// The reading meets every position that no earlier occurrence of a name
/// reaches over.
pub proof fn lemma_meets_what_is_not_passed(
    text: Seq<char>,
    entries: Seq<Mapping>,
    from: int,
    p: int,
)
    requires
        0 <= from <= p <= text.len(),
        forall|k: int, q: int| from <= q < p ==> !#[trigger] covers(text, entries, k, q, p),
    ensures
        meets(text, entries, from, p),
    decreases p - from,
{
    if from < p {
        lemma_chosen(text, entries, from);
        match chosen(text, entries, from) {
            Some(k) => {
                assert(!covers(text, entries, k, from, p));
                lemma_meets_what_is_not_passed(text, entries, from + entries[k].name.len(), p);
            },
            None => {
                lemma_meets_what_is_not_passed(text, entries, from + 1, p);
            },
        }
    }
}

/// Every whole-word occurrence of a registered identifier is substituted.
///
/// Let the names of all entries be identifiers, let entry `k` be the last
/// one with its name, and let that name occur in `text` at `p` as a whole
/// word. Then the rewritten text is what is written before `p`, then the
/// scan expression of entry `k`, then what is written behind the name.
pub proof fn lemma_occurrence_is_substituted(
    text: Seq<char>,
    entries: Seq<Mapping>,
    k: int,
    p: int,
)
    requires
        all_identifiers(entries),
        0 <= k < entries.len(),
        forall|j: int| k < j < entries.len() ==> (#[trigger] entries[j]).name != entries[k].name,
        word_at(text, entries[k].name, p),
    ensures
        meets(text, entries, 0, p),
        chosen(text, entries, p) == Some(k),
        rewritten(text, entries) == rewrite_range(text, entries, 0, p) + scan_expr(
            entries[k].location,
        ) + rewrite_range(text, entries, p + entries[k].name.len(), text.len() as int),
{
    let name = entries[k].name;
    let end = text.len() as int;
    assert forall|j: int, q: int| 0 <= q < p implies !#[trigger] covers(text, entries, j, q, p) by {
        if covers(text, entries, j, q, p) {
            lemma_identifiers_lie_apart(text, entries[j].name, q, name, p);
        }
    }
    lemma_meets_what_is_not_passed(text, entries, 0, p);
    lemma_chosen(text, entries, p);
    let c = chosen(text, entries, p).unwrap();
    lemma_identifiers_at_one_place(text, entries[c].name, name, p);
    lemma_rewrite_splits(text, entries, 0, p, end);
    assert(rewritten(text, entries) =~= rewrite_range(text, entries, 0, p) + scan_expr(
        entries[k].location,
    ) + rewrite_range(text, entries, p + name.len(), end));
}

/// Every character outside the whole-word occurrences of the entries'
/// names is kept.
///
/// Let position `p` of `text` lie in no whole-word occurrence of any
/// entry's name. Then the rewritten text is what is written before `p`, then
/// the character at `p`, then what is written behind it.
pub proof fn lemma_other_text_is_kept(text: Seq<char>, entries: Seq<Mapping>, p: int)
    requires
        0 <= p < text.len(),
        uncovered(text, entries, p),
    ensures
        meets(text, entries, 0, p),
        chosen(text, entries, p) is None,
        rewritten(text, entries) == rewrite_range(text, entries, 0, p) + seq![text[p]]
            + rewrite_range(text, entries, p + 1, text.len() as int),
{
    let end = text.len() as int;
    lemma_meets_what_is_not_passed(text, entries, 0, p);
    lemma_chosen(text, entries, p);
    if let Some(k) = chosen(text, entries, p) {
        assert(covers(text, entries, k, p, p));
    }
    lemma_rewrite_splits(text, entries, 0, p, end);
    assert(rewritten(text, entries) =~= rewrite_range(text, entries, 0, p) + seq![text[p]]
        + rewrite_range(text, entries, p + 1, end));
}

/// A stretch of text that lies in no whole-word occurrence of any entry's
/// name is copied as it is.
proof fn lemma_uncovered_range_is_copied(
    text: Seq<char>,
    entries: Seq<Mapping>,
    from: int,
    to: int,
)
    requires
        0 <= from <= to <= text.len(),
        forall|q: int| from <= q < to ==> uncovered(text, entries, q),
    ensures
        rewrite_range(text, entries, from, to) == text.subrange(from, to),
    decreases to - from,
{
    if from < to {
        lemma_chosen(text, entries, from);
        assert(uncovered(text, entries, from));
        if let Some(k) = chosen(text, entries, from) {
            assert(covers(text, entries, k, from, from));
        }
        lemma_uncovered_range_is_copied(text, entries, from + 1, to);
    }
}

/// Every other identifier is kept, also one that holds a registered name
/// as a part.
///
/// Let the names of all entries be identifiers, and let `other` be an
/// identifier that is the name of no entry and occurs in `text` at `p` as a
/// whole word. Then the rewritten text is what is written before `p`, then
/// `other` itself, then what is written behind it.
pub proof fn lemma_other_identifier_is_kept(
    text: Seq<char>,
    entries: Seq<Mapping>,
    other: Seq<char>,
    p: int,
)
    requires
        all_identifiers(entries),
        is_identifier(other),
        forall|k: int| 0 <= k < entries.len() ==> (#[trigger] entries[k]).name != other,
        word_at(text, other, p),
    ensures
        meets(text, entries, 0, p),
        rewritten(text, entries) == rewrite_range(text, entries, 0, p) + other + rewrite_range(
            text,
            entries,
            p + other.len(),
            text.len() as int,
        ),
{
    let end = text.len() as int;
    let behind = p + other.len();
    assert forall|k: int, s: int| s < behind implies !#[trigger] covers(
        text,
        entries,
        k,
        s,
        behind,
    ) by {
        if covers(text, entries, k, s, behind) {
            lemma_two_identifiers(text, entries[k].name, s, other, p);
        }
    }
    assert forall|q: int| p <= q < behind implies uncovered(text, entries, q) by {
        assert forall|k: int, s: int| !#[trigger] covers(text, entries, k, s, q) by {
            if covers(text, entries, k, s, q) {
                lemma_two_identifiers(text, entries[k].name, s, other, p);
            }
        }
    }
    assert forall|k: int, s: int| s < p implies !#[trigger] covers(text, entries, k, s, p) by {
        if covers(text, entries, k, s, p) {
            lemma_two_identifiers(text, entries[k].name, s, other, p);
        }
    }
    lemma_meets_what_is_not_passed(text, entries, 0, p);
    lemma_meets_what_is_not_passed(text, entries, p, behind);
    lemma_rewrite_splits(text, entries, 0, p, end);
    lemma_rewrite_splits(text, entries, p, behind, end);
    lemma_uncovered_range_is_copied(text, entries, p, behind);
    assert(rewritten(text, entries) =~= rewrite_range(text, entries, 0, p) + other
        + rewrite_range(text, entries, behind, end));
}

/// Two whole-word occurrences of identifiers are the same occurrence or
/// lie apart.
proof fn lemma_two_identifiers(text: Seq<char>, first: Seq<char>, q: int, second: Seq<char>, p: int)
    requires
        is_identifier(first),
        is_identifier(second),
        word_at(text, first, q),
        word_at(text, second, p),
    ensures
        q + first.len() <= p || p + second.len() <= q || (q == p && first == second),
{
    if q < p {
        lemma_identifiers_lie_apart(text, first, q, second, p);
    } else if p < q {
        lemma_identifiers_lie_apart(text, second, p, first, q);
    } else {
        lemma_identifiers_at_one_place(text, first, second, p);
    }
}

/// A name inside a longer identifier is no whole-word occurrence.
///
/// Let `name` be an identifier that stands in `text` at `p` with a word
/// character just before it or just behind it. Then it does not occur there
/// as a whole word.
pub proof fn lemma_part_of_identifier_is_no_occurrence(text: Seq<char>, name: Seq<char>, p: int)
    requires
        is_identifier(name),
        crate::text::occurs_at(text, name, p),
        word_before(text, p) || word_after(text, p + name.len()),
    ensures
        !word_at(text, name, p),
{
    let n = name.len() as int;
    assert(word_char_at(name, 0));
    assert(word_char_at(name, n - 1));
}

/// A text in which no entry's name occurs as a whole word is left as it is.
pub proof fn lemma_without_occurrence_unchanged(text: Seq<char>, entries: Seq<Mapping>)
    requires
        forall|k: int, q: int|
            0 <= k < entries.len() ==> !#[trigger] word_at(text, entries[k].name, q),
    ensures
        rewritten(text, entries) == text,
{
    lemma_range_without_occurrence(text, entries, 0);
}

/// From any position on, a text in which no entry's name occurs as a whole
/// word is copied.
proof fn lemma_range_without_occurrence(text: Seq<char>, entries: Seq<Mapping>, from: int)
    requires
        0 <= from <= text.len(),
        forall|k: int, q: int|
            0 <= k < entries.len() ==> !#[trigger] word_at(text, entries[k].name, q),
    ensures
        rewrite_range(text, entries, from, text.len() as int) == text.skip(from),
    decreases text.len() - from,
{
    if from < text.len() {
        lemma_chosen(text, entries, from);
        lemma_range_without_occurrence(text, entries, from + 1);
    }
}

/// The index of the entry substituted at position `at`, if any.
fn choose_entry(text: &Vec<char>, names: &Vec<Vec<char>>, at: usize, Ghost(entries): Ghost<
    Seq<Mapping>,
>) -> (r: Option<usize>)
    requires
        names.len() == entries.len(),
        forall|k: int| 0 <= k < names.len() ==> names@[k]@ == #[trigger] entries[k].name,
    ensures
        match r {
            Some(k) => chosen(text@, entries, at as int) == Some(k as int),
            None => chosen(text@, entries, at as int) is None,
        },
{
    let mut k: usize = names.len();
    assert(entries.take(k as int) =~= entries);
    while k > 0
        invariant
            k <= names.len(),
            names.len() == entries.len(),
            forall|j: int| 0 <= j < names.len() ==> names@[j]@ == #[trigger] entries[j].name,
            chosen(text@, entries, at as int) == chosen(text@, entries.take(k as int), at as int),
        decreases k,
    {
        assert(entries.take(k as int).drop_last() =~= entries.take(k - 1));
        if is_word_at(text, &names[k - 1], at) {
            return Some(k - 1);
        }
        k -= 1;
    }
    None
}

/// Substitutes the names of `entries` in `sql`.
pub fn rewrite(sql: &str, entries: &Vec<DeltaMapping>) -> (r: String)
    ensures
        r@ == rewritten(sql@, mappings(entries@)),
{
    let text = to_chars(sql);
    let ghost ms = mappings(entries@);
    let mut names: Vec<Vec<char>> = Vec::new();
    let mut scans: Vec<String> = Vec::new();
    let mut e: usize = 0;
    while e < entries.len()
        invariant
            e <= entries.len(),
            ms == mappings(entries@),
            names.len() == e,
            scans.len() == e,
            forall|k: int| 0 <= k < e ==> names@[k]@ == #[trigger] ms[k].name,
            forall|k: int| 0 <= k < e ==> scans@[k]@ == scan_expr(#[trigger] ms[k].location),
        decreases entries.len() - e,
    {
        names.push(to_chars(entries[e].duck_table.as_str()));
        scans.push(scan_expression(entries[e].delta_path.as_str()));
        e += 1;
    }
    let mut r = String::new();
    let mut at: usize = 0;
    while at < text.len()
        invariant
            at <= text.len(),
            text@ == sql@,
            ms == mappings(entries@),
            names.len() == ms.len(),
            scans.len() == ms.len(),
            forall|k: int| 0 <= k < ms.len() ==> names@[k]@ == #[trigger] ms[k].name,
            forall|k: int| 0 <= k < ms.len() ==> scans@[k]@ == scan_expr(#[trigger] ms[k].location),
            r@ + rewrite_range(text@, ms, at as int, text.len() as int) == rewritten(text@, ms),
        decreases text.len() - at,
    {
        let ghost before = r@;
        proof {
            lemma_chosen(text@, ms, at as int);
        }
        match choose_entry(&text, &names, at, Ghost(ms)) {
            Some(k) => {
                r.append(scans[k].as_str());
                at = at + names[k].len();
                assert(r@ + rewrite_range(text@, ms, at as int, text.len() as int) =~= before + (
                scan_expr(ms[k as int].location) + rewrite_range(
                    text@,
                    ms,
                    at as int,
                    text.len() as int,
                )));
            },
            None => {
                r.push(text[at]);
                at = at + 1;
                assert(r@ + rewrite_range(text@, ms, at as int, text.len() as int) =~= before + (
                seq![text@[at - 1]] + rewrite_range(text@, ms, at as int, text.len() as int)));
            },
        }
    }
    r
}

} // verus!
