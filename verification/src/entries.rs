//! Ordering scanned entries by name (and command) and dropping repeats.
use vstd::prelude::*;

use crate::category_list::{lemma_lex_total, lemma_lex_trans, lex_le, lex_le_chars};
use crate::model::AppEntry;
use crate::text::{chars_eq, chars_of};

verus! {

broadcast use vstd::seq_lib::group_to_multiset_ensures;

/// The same characters, compared by code point.
pub open spec fn same_codes(a: Seq<char>, b: Seq<char>) -> bool {
    a.len() == b.len() && forall|i: int| 0 <= i < a.len() ==> (a[i] as u32) == (b[i] as u32)
}

/// `String` order (by code point, a prefix first) on the names, and on the commands
/// between equal names when `by_command`.
pub open spec fn entry_le(a: AppEntry, b: AppEntry, by_command: bool) -> bool {
    if by_command && same_codes(a.name@, b.name@) {
        lex_le(a.command@, b.command@)
    } else {
        lex_le(a.name@, b.name@)
    }
}

pub proof fn lemma_lex_antisym(a: Seq<char>, b: Seq<char>)
    requires
        lex_le(a, b),
        lex_le(b, a),
    ensures
        same_codes(a, b),
    decreases a.len(),
{
    if a.len() > 0 && b.len() > 0 {
        lemma_lex_antisym(a.drop_first(), b.drop_first());
        assert forall|i: int| 0 <= i < a.len() implies (a[i] as u32) == (b[i] as u32) by {
            if i > 0 {
                assert(a[i] == a.drop_first()[i - 1]);
                assert(b[i] == b.drop_first()[i - 1]);
            }
        }
    }
}

/// `lex_le` sees characters only through their code points.
proof fn lemma_lex_congruent(a: Seq<char>, b: Seq<char>, a2: Seq<char>, b2: Seq<char>)
    requires
        same_codes(a, a2),
        same_codes(b, b2),
        lex_le(a, b),
    ensures
        lex_le(a2, b2),
    decreases a.len(),
{
    if a.len() > 0 && b.len() > 0 && (a[0] as u32) == (b[0] as u32) {
        assert(same_codes(a.drop_first(), a2.drop_first())) by {
            assert forall|i: int| 0 <= i < a.drop_first().len() implies (a.drop_first()[i] as u32) == (a2.drop_first()[i] as u32) by {
                assert(a.drop_first()[i] == a[i + 1]);
                assert(a2.drop_first()[i] == a2[i + 1]);
            }
        }
        assert(same_codes(b.drop_first(), b2.drop_first())) by {
            assert forall|i: int| 0 <= i < b.drop_first().len() implies (b.drop_first()[i] as u32) == (b2.drop_first()[i] as u32) by {
                assert(b.drop_first()[i] == b[i + 1]);
                assert(b2.drop_first()[i] == b2[i + 1]);
            }
        }
        lemma_lex_congruent(a.drop_first(), b.drop_first(), a2.drop_first(), b2.drop_first());
    }
}

proof fn lemma_entry_total(a: AppEntry, b: AppEntry, by_command: bool)
    ensures
        entry_le(a, b, by_command) || entry_le(b, a, by_command),
{
    lemma_lex_total(a.name@, b.name@);
    lemma_lex_total(a.command@, b.command@);
}

proof fn lemma_same_codes_refl(a: Seq<char>)
    ensures
        same_codes(a, a),
{
}

proof fn lemma_entry_trans(a: AppEntry, b: AppEntry, c: AppEntry, by_command: bool)
    requires
        entry_le(a, b, by_command),
        entry_le(b, c, by_command),
    ensures
        entry_le(a, c, by_command),
{
    let (x, y, z) = (a.name@, b.name@, c.name@);
    lemma_same_codes_refl(x);
    lemma_same_codes_refl(y);
    lemma_same_codes_refl(z);
    if !by_command {
        lemma_lex_trans(x, y, z);
    } else if same_codes(x, y) && same_codes(y, z) {
        lemma_lex_trans(a.command@, b.command@, c.command@);
        assert(same_codes(x, z));
    } else if same_codes(x, y) {
        lemma_lex_congruent(y, z, x, z);
        if same_codes(x, z) {
            assert(same_codes(y, z));
        }
    } else if same_codes(y, z) {
        lemma_lex_congruent(x, y, x, z);
        if same_codes(x, z) {
            assert(same_codes(x, y));
        }
    } else {
        lemma_lex_trans(x, y, z);
        if same_codes(x, z) {
            lemma_lex_congruent(y, z, y, x);
            lemma_lex_antisym(x, y);
        }
    }
}

/// Where a stable insertion puts `x`: after every entry that may come before it.
pub open spec fn entry_insert_pos(s: Seq<AppEntry>, x: AppEntry, by_command: bool) -> int
    decreases s.len(),
{
    if s.len() == 0 {
        0
    } else if !entry_le(s[0], x, by_command) {
        0
    } else {
        1 + entry_insert_pos(s.drop_first(), x, by_command)
    }
}

/// A stable sort by `entry_le`.
pub open spec fn sorted_entries(s: Seq<AppEntry>, by_command: bool) -> Seq<AppEntry>
    decreases s.len(),
{
    if s.len() == 0 {
        s
    } else {
        let t = sorted_entries(s.drop_last(), by_command);
        t.insert(entry_insert_pos(t, s.last(), by_command), s.last())
    }
}

/// The same name and command.
pub open spec fn same_entry(a: AppEntry, b: AppEntry) -> bool {
    a.name@ == b.name@ && a.command@ == b.command@
}

/// `Vec::dedup_by` with `same_entry`: of each run of entries the same as the one
/// kept before them, only the first stays.
pub open spec fn dedup_entries(s: Seq<AppEntry>) -> Seq<AppEntry>
    decreases s.len(),
{
    if s.len() == 0 {
        s
    } else {
        let t = dedup_entries(s.drop_last());
        if t.len() > 0 && same_entry(t.last(), s.last()) {
            t
        } else {
            t.push(s.last())
        }
    }
}

pub open spec fn entries_ordered(s: Seq<AppEntry>, by_command: bool) -> bool {
    forall|i: int, j: int| 0 <= i < j < s.len() ==> entry_le(#[trigger] s[i], #[trigger] s[j], by_command)
}

proof fn lemma_entry_insert_pos(s: Seq<AppEntry>, x: AppEntry, by_command: bool)
    ensures
        0 <= entry_insert_pos(s, x, by_command) <= s.len(),
        forall|i: int| 0 <= i < entry_insert_pos(s, x, by_command) ==> entry_le(#[trigger] s[i], x, by_command),
        entry_insert_pos(s, x, by_command) < s.len() ==> !entry_le(s[entry_insert_pos(s, x, by_command)], x, by_command),
    decreases s.len(),
{
    if s.len() > 0 && entry_le(s[0], x, by_command) {
        lemma_entry_insert_pos(s.drop_first(), x, by_command);
        assert forall|i: int| 0 <= i < entry_insert_pos(s, x, by_command) implies entry_le(#[trigger] s[i], x, by_command) by {
            if i > 0 {
                assert(s[i] == s.drop_first()[i - 1]);
            }
        }
    }
}

proof fn lemma_entry_insert_keeps_order(t: Seq<AppEntry>, x: AppEntry, by_command: bool)
    requires
        entries_ordered(t, by_command),
    ensures
        entries_ordered(t.insert(entry_insert_pos(t, x, by_command), x), by_command),
{
    lemma_entry_insert_pos(t, x, by_command);
    let p = entry_insert_pos(t, x, by_command);
    let u = t.insert(p, x);
    assert forall|i: int, j: int| 0 <= i < j < u.len() implies entry_le(#[trigger] u[i], #[trigger] u[j], by_command) by {
        if j < p {
            assert(u[i] == t[i] && u[j] == t[j]);
        } else if j == p {
            assert(u[i] == t[i]);
        } else if i == p {
            assert(u[j] == t[j - 1]);
            lemma_entry_total(t[p], x, by_command);
            if j - 1 > p {
                lemma_entry_trans(x, t[p], t[j - 1], by_command);
            }
        } else if i < p {
            assert(u[i] == t[i] && u[j] == t[j - 1]);
        } else {
            assert(u[i] == t[i - 1] && u[j] == t[j - 1]);
        }
    }
}

/// The sorted entries are a reordering of the entries, each no later in the order
/// than the ones after it.
pub proof fn law_sorted_entries_ordered_permutation(s: Seq<AppEntry>, by_command: bool)
    ensures
        entries_ordered(sorted_entries(s, by_command), by_command),
        sorted_entries(s, by_command).to_multiset() == s.to_multiset(),
    decreases s.len(),
{
    if s.len() > 0 {
        let t = sorted_entries(s.drop_last(), by_command);
        law_sorted_entries_ordered_permutation(s.drop_last(), by_command);
        lemma_entry_insert_keeps_order(t, s.last(), by_command);
        lemma_entry_insert_pos(t, s.last(), by_command);
        vstd::seq_lib::to_multiset_insert(t, entry_insert_pos(t, s.last(), by_command), s.last());
        vstd::seq_lib::to_multiset_build(s.drop_last(), s.last());
        assert(s.drop_last().push(s.last()) =~= s);
    }
}

fn codes_eq(a: &[char], b: &[char]) -> (r: bool)
    ensures
        r == same_codes(a@, b@),
{
    if a.len() != b.len() {
        return false;
    }
    let mut i: usize = 0;
    while i < a.len()
        invariant
            a@.len() == b@.len(),
            i <= a@.len(),
            forall|j: int| 0 <= j < i ==> (a@[j] as u32) == (b@[j] as u32),
        decreases a@.len() - i,
    {
        if (a[i] as u32) != (b[i] as u32) {
            return false;
        }
        i += 1;
    }
    true
}

fn entry_before(a: &AppEntry, b: &AppEntry, by_command: bool) -> (r: bool)
    ensures
        r == entry_le(*a, *b, by_command),
{
    let an = chars_of(a.name.as_str());
    let bn = chars_of(b.name.as_str());
    if by_command && codes_eq(an.as_slice(), bn.as_slice()) {
        lex_le_chars(chars_of(a.command.as_str()).as_slice(), chars_of(b.command.as_str()).as_slice())
    } else {
        lex_le_chars(an.as_slice(), bn.as_slice())
    }
}

fn insert_entry(out: &mut Vec<AppEntry>, x: AppEntry, by_command: bool)
    ensures
        final(out)@ == old(out)@.insert(entry_insert_pos(old(out)@, x, by_command), x),
{
    let mut k: usize = 0;
    assert(old(out)@.skip(0) =~= old(out)@);
    while k < out.len() && entry_before(&out[k], &x, by_command)
        invariant
            out@ == old(out)@,
            k <= out@.len(),
            entry_insert_pos(out@, x, by_command) == k + entry_insert_pos(out@.skip(k as int), x, by_command),
        decreases out@.len() - k,
    {
        assert(out@.skip(k as int).drop_first() =~= out@.skip(k + 1));
        k += 1;
    }
    out.insert(k, x);
}

/// Sorts `entries` stably by `entry_le`.
pub fn sort_entries(entries: Vec<AppEntry>, by_command: bool) -> (r: Vec<AppEntry>)
    ensures
        r@ == sorted_entries(entries@, by_command),
{
    let mut items = entries;
    let mut out: Vec<AppEntry> = Vec::new();
    let ghost orig = items@;
    let n = items.len();
    let mut i: usize = 0;
    assert(orig.skip(0) =~= orig);
    while items.len() > 0
        invariant
            i <= orig.len(),
            orig.len() == n,
            i + items@.len() == orig.len(),
            items@ == orig.skip(i as int),
            out@ == sorted_entries(orig.take(i as int), by_command),
        decreases items@.len(),
    {
        let x = items.remove(0);
        proof {
            assert(orig.take(i + 1).drop_last() =~= orig.take(i as int));
            assert(orig.skip(i as int).drop_first() =~= orig.skip(i + 1));
        }
        insert_entry(&mut out, x, by_command);
        i += 1;
    }
    assert(orig.take(i as int) =~= orig);
    out
}

fn same_entry_exec(a: &AppEntry, b: &AppEntry) -> (r: bool)
    ensures
        r == same_entry(*a, *b),
{
    chars_eq(chars_of(a.name.as_str()).as_slice(), chars_of(b.name.as_str()).as_slice()) && chars_eq(
        chars_of(a.command.as_str()).as_slice(),
        chars_of(b.command.as_str()).as_slice(),
    )
}

/// Drops each entry that repeats the name and command of the one kept before it.
pub fn dedup_adjacent(entries: Vec<AppEntry>) -> (r: Vec<AppEntry>)
    ensures
        r@ == dedup_entries(entries@),
{
    let mut items = entries;
    let mut out: Vec<AppEntry> = Vec::new();
    let ghost orig = items@;
    let n = items.len();
    let mut i: usize = 0;
    assert(orig.skip(0) =~= orig);
    while items.len() > 0
        invariant
            i <= orig.len(),
            orig.len() == n,
            i + items@.len() == orig.len(),
            items@ == orig.skip(i as int),
            out@ == dedup_entries(orig.take(i as int)),
        decreases items@.len(),
    {
        let x = items.remove(0);
        proof {
            assert(orig.take(i + 1).drop_last() =~= orig.take(i as int));
            assert(orig.skip(i as int).drop_first() =~= orig.skip(i + 1));
        }
        let keep = if out.len() > 0 {
            !same_entry_exec(&out[out.len() - 1], &x)
        } else {
            true
        };
        if keep {
            out.push(x);
        }
        i += 1;
    }
    assert(orig.take(i as int) =~= orig);
    out
}

/// The games of all sources in order of name, then command, each name and command
/// once (the first found kept).
pub fn sort_and_dedup_games(games: Vec<AppEntry>) -> (r: Vec<AppEntry>)
    ensures
        r@ == dedup_entries(sorted_entries(games@, true)),
{
    dedup_adjacent(sort_entries(games, true))
}

/// The desktop applications in order of name, an entry dropped when it repeats the
/// name and command of the one before it.
pub fn sort_and_dedup_apps(apps: Vec<AppEntry>) -> (r: Vec<AppEntry>)
    ensures
        r@ == dedup_entries(sorted_entries(apps@, false)),
{
    dedup_adjacent(sort_entries(apps, false))
}

/// No two neighbours of the deduplicated list repeat each other.
pub proof fn law_dedup_leaves_no_repeats(s: Seq<AppEntry>)
    ensures
        forall|i: int| 0 <= i < dedup_entries(s).len() - 1 ==> !same_entry(#[trigger] dedup_entries(s)[i], dedup_entries(s)[i + 1]),
        dedup_entries(s).len() <= s.len(),
    decreases s.len(),
{
    if s.len() > 0 {
        law_dedup_leaves_no_repeats(s.drop_last());
        let t = dedup_entries(s.drop_last());
        if !(t.len() > 0 && same_entry(t.last(), s.last())) {
            let u = t.push(s.last());
            assert forall|i: int| 0 <= i < u.len() - 1 implies !same_entry(#[trigger] u[i], u[i + 1]) by {
                if i < t.len() - 1 {
                    assert(u[i] == t[i] && u[i + 1] == t[i + 1]);
                }
            }
        }
    }
}

proof fn lemma_char_codes(c: char, d: char)
    requires
        (c as u32) == (d as u32),
    ensures
        c == d,
{
}

/// Entries that may each come before the other (ordering by name, then command)
/// have the same name and command.
proof fn lemma_entry_le_antisym(a: AppEntry, b: AppEntry)
    requires
        entry_le(a, b, true),
        entry_le(b, a, true),
    ensures
        same_entry(a, b),
{
    if same_codes(a.name@, b.name@) {
        assert(same_codes(b.name@, a.name@));
        lemma_lex_antisym(a.command@, b.command@);
    } else {
        assert(!same_codes(b.name@, a.name@));
        lemma_lex_antisym(a.name@, b.name@);
    }
    assert forall|i: int| 0 <= i < a.name@.len() implies a.name@[i] == b.name@[i] by {
        lemma_char_codes(a.name@[i], b.name@[i]);
    }
    assert forall|i: int| 0 <= i < a.command@.len() implies a.command@[i] == b.command@[i] by {
        lemma_char_codes(a.command@[i], b.command@[i]);
    }
    assert(a.name@ =~= b.name@);
    assert(a.command@ =~= b.command@);
}

/// What the deduplication keeps comes from its input.
proof fn lemma_dedup_from_input(s: Seq<AppEntry>)
    ensures
        forall|i: int| 0 <= i < dedup_entries(s).len() ==> s.contains(#[trigger] dedup_entries(s)[i]),
    decreases s.len(),
{
    if s.len() > 0 {
        let p = s.drop_last();
        lemma_dedup_from_input(p);
        let t = dedup_entries(p);
        let r = dedup_entries(s);
        assert forall|i: int| 0 <= i < r.len() implies s.contains(#[trigger] r[i]) by {
            if i < t.len() {
                assert(r[i] == t[i]);
                assert(p.contains(t[i]));
                let k = choose|k: int| 0 <= k < p.len() && p[k] == t[i];
                assert(s[k] == p[k]);
            } else {
                assert(r[i] == s[s.len() - 1]);
            }
        }
    }
}

/// Each entry of the input has one the same (name and command) among those the
/// deduplication keeps.
proof fn lemma_dedup_covers(s: Seq<AppEntry>)
    ensures
        forall|k: int| 0 <= k < s.len() ==> exists|i: int|
            0 <= i < dedup_entries(s).len() && same_entry(#[trigger] dedup_entries(s)[i], #[trigger] s[k]),
    decreases s.len(),
{
    if s.len() > 0 {
        let p = s.drop_last();
        lemma_dedup_covers(p);
        let t = dedup_entries(p);
        let r = dedup_entries(s);
        assert forall|k: int| 0 <= k < s.len() implies exists|i: int|
            0 <= i < r.len() && same_entry(#[trigger] r[i], #[trigger] s[k]) by {
            if k < p.len() {
                assert(s[k] == p[k]);
                let i = choose|i: int| 0 <= i < t.len() && same_entry(#[trigger] t[i], #[trigger] p[k]);
                assert(r[i] == t[i]);
            } else if t.len() > 0 && same_entry(t.last(), s.last()) {
                assert(r[t.len() - 1] == t.last());
            } else {
                assert(r[t.len() as int] == s.last());
            }
        }
    }
}

/// The deduplication of an ordered list is ordered.
proof fn lemma_dedup_ordered(s: Seq<AppEntry>, by_command: bool)
    requires
        entries_ordered(s, by_command),
    ensures
        entries_ordered(dedup_entries(s), by_command),
    decreases s.len(),
{
    if s.len() > 0 {
        let p = s.drop_last();
        assert(entries_ordered(p, by_command)) by {
            assert forall|i: int, j: int| 0 <= i < j < p.len() implies entry_le(
                #[trigger] p[i],
                #[trigger] p[j],
                by_command,
            ) by {
                assert(p[i] == s[i] && p[j] == s[j]);
            }
        }
        lemma_dedup_ordered(p, by_command);
        lemma_dedup_from_input(p);
        let t = dedup_entries(p);
        let r = dedup_entries(s);
        assert forall|i: int, j: int| 0 <= i < j < r.len() implies entry_le(
            #[trigger] r[i],
            #[trigger] r[j],
            by_command,
        ) by {
            if j < t.len() {
                assert(r[i] == t[i] && r[j] == t[j]);
            } else {
                assert(r[i] == t[i]);
                assert(r[j] == s[s.len() - 1]);
                assert(p.contains(t[i]));
                let k = choose|k: int| 0 <= k < p.len() && p[k] == t[i];
                assert(s[k] == t[i]);
            }
        }
    }
}

/// In a list ordered by name and then command with no two neighbours the same, no
/// two entries anywhere are the same.
proof fn lemma_ordered_without_neighbours_is_unique(r: Seq<AppEntry>)
    requires
        entries_ordered(r, true),
        forall|i: int| 0 <= i < r.len() - 1 ==> !same_entry(#[trigger] r[i], r[i + 1]),
    ensures
        forall|i: int, j: int| 0 <= i < j < r.len() ==> !same_entry(#[trigger] r[i], #[trigger] r[j]),
{
    assert forall|i: int, j: int| 0 <= i < j < r.len() implies !same_entry(
        #[trigger] r[i],
        #[trigger] r[j],
    ) by {
        if same_entry(r[i], r[j]) {
            assert(entry_le(r[i], r[i + 1], true));
            if i + 1 < j {
                assert(entry_le(r[i + 1], r[j], true));
            }
            assert(entry_le(r[i + 1], r[i], true));
            lemma_entry_le_antisym(r[i], r[i + 1]);
        }
    }
}

/// An entry of a reordering is an entry of the original.
proof fn lemma_reordering_contains(t: Seq<AppEntry>, s: Seq<AppEntry>, x: AppEntry)
    requires
        t.to_multiset() == s.to_multiset(),
    ensures
        t.contains(x) <==> s.contains(x),
{
    t.to_multiset_ensures();
    s.to_multiset_ensures();
    assert(t.to_multiset().count(x) == s.to_multiset().count(x));
    assert(t.contains(x) <==> t.to_multiset().count(x) > 0);
    assert(s.contains(x) <==> s.to_multiset().count(x) > 0);
}

/// The found games hold no repeat anywhere: no two of them have the same name and
/// command.  Each of them is one that a source gave, and each game a source gave
/// has one of the same name and command among them.
pub proof fn law_games_unique_and_complete(s: Seq<AppEntry>)
    ensures
        forall|i: int, j: int|
            0 <= i < j < dedup_entries(sorted_entries(s, true)).len() ==> !same_entry(
                #[trigger] dedup_entries(sorted_entries(s, true))[i],
                #[trigger] dedup_entries(sorted_entries(s, true))[j],
            ),
        forall|i: int|
            0 <= i < dedup_entries(sorted_entries(s, true)).len() ==> s.contains(
                #[trigger] dedup_entries(sorted_entries(s, true))[i],
            ),
        forall|k: int|
            0 <= k < s.len() ==> exists|i: int|
                0 <= i < dedup_entries(sorted_entries(s, true)).len() && same_entry(
                    #[trigger] dedup_entries(sorted_entries(s, true))[i],
                    #[trigger] s[k],
                ),
{
    let t = sorted_entries(s, true);
    let r = dedup_entries(t);
    law_sorted_entries_ordered_permutation(s, true);
    assert(entries_ordered(r, true)) by {
        lemma_dedup_ordered(t, true);
    }
    assert(forall|i: int| 0 <= i < r.len() - 1 ==> !same_entry(#[trigger] r[i], r[i + 1])) by {
        law_dedup_leaves_no_repeats(t);
    }
    lemma_ordered_without_neighbours_is_unique(r);
    assert forall|i: int| 0 <= i < r.len() implies s.contains(#[trigger] r[i]) by {
        lemma_dedup_from_input(t);
        lemma_reordering_contains(t, s, r[i]);
    }
    assert forall|k: int| 0 <= k < s.len() implies exists|i: int|
        0 <= i < r.len() && same_entry(#[trigger] r[i], #[trigger] s[k]) by {
        lemma_reordering_contains(t, s, s[k]);
        assert(s.contains(s[k]));
        let m = choose|m: int| 0 <= m < t.len() && t[m] == s[k];
        lemma_dedup_covers(t);
        let i = choose|i: int| 0 <= i < r.len() && same_entry(#[trigger] r[i], #[trigger] t[m]);
        assert(same_entry(r[i], s[k]));
    }
}

} // verus!
