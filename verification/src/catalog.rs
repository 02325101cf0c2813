//! The suggestion catalog: pairs of a trigger and its description, kept in
//! order, and the part of it that matches what has been typed.
use vstd::prelude::*;
use crate::text::{has_prefix, starts_with, to_chars};

verus! {

/// One entry of the catalog, as characters: the trigger and its description.
pub type Entry = (Seq<char>, Seq<char>);

/// The entries of a catalog, as characters.
pub open spec fn entries(v: Seq<(String, String)>) -> Seq<Entry> {
    v.map_values(|e: (String, String)| (e.0@, e.1@))
}

/// `a` comes before `b` in the dictionary, or is `b`: at the first place
/// where they differ `a` holds the smaller character, or `a` ends first.
pub open spec fn lex_le(a: Seq<char>, b: Seq<char>) -> bool
    decreases a.len(),
{
    if a.len() == 0 {
        true
    } else if b.len() == 0 {
        false
    } else if a[0] != b[0] {
        (a[0] as int) < (b[0] as int)
    } else {
        lex_le(a.skip(1), b.skip(1))
    }
}

/// The order of the catalog: by trigger, and by description among entries
/// with one trigger.
pub open spec fn entry_le(e: Entry, f: Entry) -> bool {
    if e.0 == f.0 {
        lex_le(e.1, f.1)
    } else {
        lex_le(e.0, f.0)
    }
}

/// No entry of the catalog comes before an earlier one.
pub open spec fn sorted(catalog: Seq<Entry>) -> bool {
    forall|i: int, j: int| 0 <= i < j < catalog.len() ==> entry_le(catalog[i], catalog[j])
}

/// The entries whose trigger begins with `typed`, in the catalog's order.
/// Every trigger begins with the empty text, so nothing typed gives the
/// whole catalog.
pub open spec fn filtered(catalog: Seq<Entry>, typed: Seq<char>) -> Seq<Entry>
    decreases catalog.len(),
{
    if catalog.len() == 0 {
        Seq::empty()
    } else {
        let before = filtered(catalog.drop_last(), typed);
        if starts_with(catalog.last().0, typed) {
            before.push(catalog.last())
        } else {
            before
        }
    }
}

/// Where nothing was typed, every entry matches.
pub proof fn lemma_nothing_typed_matches_all(catalog: Seq<Entry>)
    ensures
        filtered(catalog, Seq::empty()) == catalog,
    decreases catalog.len(),
{
    if catalog.len() > 0 {
        lemma_nothing_typed_matches_all(catalog.drop_last());
        assert(catalog.last().0.take(0) =~= Seq::<char>::empty());
        assert(catalog.drop_last().push(catalog.last()) =~= catalog);
    } else {
        assert(filtered(catalog, Seq::empty()) =~= catalog);
    }
}

/// Where a new entry goes: behind the leading entries that do not come after
/// it.
pub open spec fn insertion_point(catalog: Seq<Entry>, e: Entry) -> int
    decreases catalog.len(),
{
    if catalog.len() > 0 && entry_le(catalog[0], e) {
        1 + insertion_point(catalog.skip(1), e)
    } else {
        0
    }
}

/// The catalog with one more entry, in its place.
pub open spec fn with_entry(catalog: Seq<Entry>, e: Entry) -> Seq<Entry> {
    catalog.insert(insertion_point(catalog, e), e)
}

/// An entry put anywhere into a catalog adds itself to the matches, if it
/// matches, and takes none away.
pub proof fn lemma_filtered_insert(catalog: Seq<Entry>, at: int, e: Entry, typed: Seq<char>)
    requires
        0 <= at <= catalog.len(),
    ensures
        filtered(catalog.insert(at, e), typed).len() == filtered(catalog, typed).len() + (if starts_with(
            e.0,
            typed,
        ) {
            1nat
        } else {
            0nat
        }),
    decreases catalog.len(),
{
    let after = catalog.insert(at, e);
    if at == catalog.len() {
        assert(after.drop_last() =~= catalog);
        assert(after.last() == e);
    } else {
        assert(after.drop_last() =~= catalog.drop_last().insert(at, e));
        assert(after.last() == catalog.last());
        lemma_filtered_insert(catalog.drop_last(), at, e, typed);
    }
}

/// A catalog with one more entry has no fewer matches for what was typed.
pub proof fn lemma_with_entry_keeps_matches(catalog: Seq<Entry>, e: Entry, typed: Seq<char>)
    ensures
        filtered(with_entry(catalog, e), typed).len() >= filtered(catalog, typed).len(),
{
    lemma_insertion_point(catalog, e);
    lemma_filtered_insert(catalog, insertion_point(catalog, e), e, typed);
}

/// Of two texts one comes first.
pub proof fn lemma_lex_total(a: Seq<char>, b: Seq<char>)
    ensures
        lex_le(a, b) || lex_le(b, a),
    decreases a.len(),
{
    if a.len() > 0 && b.len() > 0 {
        if a[0] == b[0] {
            lemma_lex_total(a.skip(1), b.skip(1));
        } else {
            assert(a[0] as int != b[0] as int);
        }
    }
}

/// Two texts that each come before the other are one text.
pub proof fn lemma_lex_antisymmetric(a: Seq<char>, b: Seq<char>)
    requires
        lex_le(a, b),
        lex_le(b, a),
    ensures
        a == b,
    decreases a.len(),
{
    if a.len() == 0 || b.len() == 0 {
        assert(a =~= b);
    } else {
        lemma_lex_antisymmetric(a.skip(1), b.skip(1));
        assert(a =~= seq![a[0]] + a.skip(1));
        assert(b =~= seq![b[0]] + b.skip(1));
    }
}

/// The dictionary order is transitive.
pub proof fn lemma_lex_transitive(a: Seq<char>, b: Seq<char>, c: Seq<char>)
    requires
        lex_le(a, b),
        lex_le(b, c),
    ensures
        lex_le(a, c),
    decreases a.len(),
{
    if a.len() > 0 && b.len() > 0 && c.len() > 0 && a[0] == b[0] && b[0] == c[0] {
        lemma_lex_transitive(a.skip(1), b.skip(1), c.skip(1));
    }
}

/// Of two entries one comes first.
pub proof fn lemma_entry_total(e: Entry, f: Entry)
    ensures
        entry_le(e, f) || entry_le(f, e),
{
    lemma_lex_total(e.0, f.0);
    lemma_lex_total(e.1, f.1);
}

/// The order of the catalog is transitive.
pub proof fn lemma_entry_transitive(e: Entry, f: Entry, g: Entry)
    requires
        entry_le(e, f),
        entry_le(f, g),
    ensures
        entry_le(e, g),
{
    if e.0 == f.0 && f.0 == g.0 {
        lemma_lex_transitive(e.1, f.1, g.1);
    } else if e.0 == f.0 || f.0 == g.0 {
    } else {
        lemma_lex_transitive(e.0, f.0, g.0);
        if e.0 == g.0 {
            lemma_lex_antisymmetric(e.0, f.0);
        }
    }
}

/// The insertion point lies in the catalog; every entry before it does not
/// come after the new one, and the entry at it, if there is one, does.
pub proof fn lemma_insertion_point(catalog: Seq<Entry>, e: Entry)
    ensures
        0 <= insertion_point(catalog, e) <= catalog.len(),
        forall|i: int| 0 <= i < insertion_point(catalog, e) ==> entry_le(#[trigger] catalog[i], e),
        insertion_point(catalog, e) < catalog.len() ==> !entry_le(
            catalog[insertion_point(catalog, e)],
            e,
        ),
    decreases catalog.len(),
{
    if catalog.len() > 0 && entry_le(catalog[0], e) {
        let rest = catalog.skip(1);
        lemma_insertion_point(rest, e);
        let p = insertion_point(rest, e);
        assert forall|i: int| 0 <= i < p + 1 implies entry_le(#[trigger] catalog[i], e) by {
            if i > 0 {
                assert(catalog[i] == rest[i - 1]);
            }
        }
        if p < rest.len() {
            assert(catalog[p + 1] == rest[p]);
        }
    }
}

/// A catalog in order stays in order when an entry is put in its place.
pub proof fn lemma_with_entry_sorted(catalog: Seq<Entry>, e: Entry)
    requires
        sorted(catalog),
    ensures
        sorted(with_entry(catalog, e)),
{
    let p = insertion_point(catalog, e);
    let after = with_entry(catalog, e);
    lemma_insertion_point(catalog, e);
    assert forall|i: int, j: int| 0 <= i < j < after.len() implies entry_le(
        after[i],
        after[j],
    ) by {
        if j == p {
            assert(after[i] == catalog[i]);
        } else if i == p {
            // Everything from the insertion point on comes after the new entry.
            assert(after[j] == catalog[j - 1]);
            lemma_entry_total(catalog[p], e);
            if j - 1 > p {
                lemma_entry_transitive(e, catalog[p], catalog[j - 1]);
            }
        } else {
            let i0 = if i < p { i } else { i - 1 };
            let j0 = if j < p { j } else { j - 1 };
            assert(after[i] == catalog[i0]);
            assert(after[j] == catalog[j0]);
        }
    }
}

/// Whether `x` has the smaller code point.
pub fn char_lt(x: char, y: char) -> (r: bool)
    ensures
        r == ((x as int) < (y as int)),
{
    (x as u32) < (y as u32)
}

/// Decides `lex_le` on two character vectors.
pub fn text_le(a: &Vec<char>, b: &Vec<char>) -> (r: bool)
    ensures
        r == lex_le(a@, b@),
{
    let mut i: usize = 0;
    assert(a@.skip(0) =~= a@ && b@.skip(0) =~= b@);
    while i < a.len() && i < b.len() && a[i] == b[i]
        invariant
            i <= a.len(),
            i <= b.len(),
            lex_le(a@, b@) == lex_le(a@.skip(i as int), b@.skip(i as int)),
        decreases a.len() - i,
    {
        proof {
            assert(a@.skip(i as int)[0] == a@[i as int]);
            assert(b@.skip(i as int)[0] == b@[i as int]);
            assert(a@.skip(i as int).skip(1) =~= a@.skip(i + 1));
            assert(b@.skip(i as int).skip(1) =~= b@.skip(i + 1));
        }
        i += 1;
    }
    proof {
        if i < a.len() {
            assert(a@.skip(i as int)[0] == a@[i as int]);
        }
        if i < b.len() {
            assert(b@.skip(i as int)[0] == b@[i as int]);
        }
    }
    if i == a.len() {
        true
    } else if i == b.len() {
        false
    } else {
        char_lt(a[i], b[i])
    }
}

/// Decides `entry_le` on two pairs of strings.
pub fn pair_le(e: &(String, String), f: &(String, String)) -> (r: bool)
    ensures
        r == entry_le((e.0@, e.1@), (f.0@, f.1@)),
{
    if e.0 == f.0 {
        let a = to_chars(e.1.as_str());
        let b = to_chars(f.1.as_str());
        text_le(&a, &b)
    } else {
        let a = to_chars(e.0.as_str());
        let b = to_chars(f.0.as_str());
        text_le(&a, &b)
    }
}

/// Puts `entry` into a catalog, behind the leading entries that do not come
/// after it. A catalog that was in order is in order again.
pub fn insert_entry(catalog: &mut Vec<(String, String)>, entry: (String, String))
    ensures
        entries(final(catalog)@) == with_entry(entries(old(catalog)@), (entry.0@, entry.1@)),
        sorted(entries(old(catalog)@)) ==> sorted(entries(final(catalog)@)),
{
    let ghost before = entries(catalog@);
    let ghost e: Entry = (entry.0@, entry.1@);
    let mut p: usize = 0;
    assert(before.skip(0) =~= before);
    while p < catalog.len() && pair_le(&catalog[p], &entry)
        invariant
            p <= catalog.len(),
            catalog@ == old(catalog)@,
            before == entries(catalog@),
            e == (entry.0@, entry.1@),
            insertion_point(before, e) == p + insertion_point(before.skip(p as int), e),
        decreases catalog.len() - p,
    {
        proof {
            assert(before.skip(p as int)[0] == before[p as int]);
            assert(before.skip(p as int).skip(1) =~= before.skip(p + 1));
        }
        p += 1;
    }
    proof {
        if p < catalog.len() {
            assert(before.skip(p as int)[0] == before[p as int]);
        }
        lemma_with_entry_sorted_if(before, e);
    }
    catalog.insert(p, entry);
    assert(entries(catalog@) =~= before.insert(p as int, e));
}

/// `lemma_with_entry_sorted`, where the catalog is in order.
proof fn lemma_with_entry_sorted_if(catalog: Seq<Entry>, e: Entry)
    ensures
        sorted(catalog) ==> sorted(with_entry(catalog, e)),
{
    if sorted(catalog) {
        lemma_with_entry_sorted(catalog, e);
    }
}

/// The entries of a catalog whose trigger begins with `typed`.
pub fn matching_entries(catalog: &Vec<(String, String)>, typed: &Vec<char>) -> (r: Vec<
    (String, String),
>)
    ensures
        entries(r@) == filtered(entries(catalog@), typed@),
{
    let mut found: Vec<(String, String)> = Vec::new();
    let mut i: usize = 0;
    let ghost all = entries(catalog@);
    assert(all.take(0) =~= Seq::<Entry>::empty());
    assert(entries(found@) =~= filtered(all.take(0), typed@));
    while i < catalog.len()
        invariant
            i <= catalog.len(),
            all == entries(catalog@),
            entries(found@) == filtered(all.take(i as int), typed@),
        decreases catalog.len() - i,
    {
        let trigger = to_chars(catalog[i].0.as_str());
        proof {
            let upto = all.take(i + 1);
            assert(upto.drop_last() =~= all.take(i as int));
            assert(upto.last() == all[i as int]);
        }
        if has_prefix(&trigger, typed) {
            let entry = (catalog[i].0.clone(), catalog[i].1.clone());
            proof {
                assert(entries(found@.push(entry)) =~= entries(found@).push((entry.0@, entry.1@)));
            }
            found.push(entry);
        }
        i += 1;
    }
    assert(all.take(i as int) =~= all);
    found
}

/// The length of the longest trigger among the first `count` entries.
pub open spec fn trigger_width(list: Seq<Entry>, count: int) -> nat
    decreases count,
{
    if count <= 0 {
        0
    } else {
        let before = trigger_width(list, count - 1);
        if list[count - 1].0.len() > before {
            list[count - 1].0.len()
        } else {
            before
        }
    }
}

/// The length of the longest description among the first `count` entries.
pub open spec fn description_width(list: Seq<Entry>, count: int) -> nat
    decreases count,
{
    if count <= 0 {
        0
    } else {
        let before = description_width(list, count - 1);
        if list[count - 1].1.len() > before {
            list[count - 1].1.len()
        } else {
            before
        }
    }
}

/// The lengths of the longest trigger and of the longest description of a
/// list, in characters.
pub fn column_widths(list: &Vec<(String, String)>) -> (r: (usize, usize))
    ensures
        r.0 == trigger_width(entries(list@), list.len() as int),
        r.1 == description_width(entries(list@), list.len() as int),
{
    let mut longest_key: usize = 0;
    let mut longest_value: usize = 0;
    let mut i: usize = 0;
    while i < list.len()
        invariant
            i <= list.len(),
            longest_key == trigger_width(entries(list@), i as int),
            longest_value == description_width(entries(list@), i as int),
        decreases list.len() - i,
    {
        let k: usize = list[i].0.as_str().unicode_len();
        let v: usize = list[i].1.as_str().unicode_len();
        if k > longest_key {
            longest_key = k;
        }
        if v > longest_value {
            longest_value = v;
        }
        i += 1;
    }
    (longest_key, longest_value)
}

} // verus!
