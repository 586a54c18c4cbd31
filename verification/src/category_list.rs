//! One row of the launcher: its items, in display order, and the selected one.
use uuid::Uuid;
use vstd::prelude::*;

use crate::model::{LauncherItem, same_id};
use crate::text::{chars_of, unicode_lower, lower_chars};

verus! {

broadcast use vstd::seq_lib::group_to_multiset_ensures;

#[derive(Debug)]
pub struct CategoryList {
    pub items: Vec<LauncherItem>,
    pub selected_index: usize,
}

// ---------------------------------------------------------------------------
// Display order
// ---------------------------------------------------------------------------

/// Lexicographic order of character sequences by code point, which is the order of
/// their UTF-8 encodings (the order of `String`).
pub open spec fn lex_le(a: Seq<char>, b: Seq<char>) -> bool
    decreases a.len(),
{
    if a.len() == 0 {
        true
    } else if b.len() == 0 {
        false
    } else if (a[0] as u32) != (b[0] as u32) {
        (a[0] as u32) < (b[0] as u32)
    } else {
        lex_le(a.drop_first(), b.drop_first())
    }
}

/// May `a` be shown before `b`?  Started items come first, most recent first; items
/// never started follow, by case-insensitive name.
pub open spec fn item_le(a: LauncherItem, b: LauncherItem) -> bool {
    match (a.last_started, b.last_started) {
        (Some(x), Some(y)) => x >= y,
        (Some(_), None) => true,
        (None, Some(_)) => false,
        (None, None) => lex_le(unicode_lower(a.name@), unicode_lower(b.name@)),
    }
}

/// Where a stable insertion puts `x` into the ordered `s`: after every element that
/// may come before it.
pub open spec fn insert_pos(s: Seq<LauncherItem>, x: LauncherItem) -> int
    decreases s.len(),
{
    if s.len() == 0 {
        0
    } else if !item_le(s[0], x) {
        0
    } else {
        1 + insert_pos(s.drop_first(), x)
    }
}

/// The items in display order: a stable sort by `item_le`.
pub open spec fn sorted_items(s: Seq<LauncherItem>) -> Seq<LauncherItem>
    decreases s.len(),
{
    if s.len() == 0 {
        s
    } else {
        let t = sorted_items(s.drop_last());
        t.insert(insert_pos(t, s.last()), s.last())
    }
}

pub open spec fn is_ordered(s: Seq<LauncherItem>) -> bool {
    forall|i: int, j: int| 0 <= i < j < s.len() ==> item_le(#[trigger] s[i], #[trigger] s[j])
}

pub proof fn lemma_lex_total(a: Seq<char>, b: Seq<char>)
    ensures
        lex_le(a, b) || lex_le(b, a),
    decreases a.len(),
{
    if a.len() > 0 && b.len() > 0 && (a[0] as u32) == (b[0] as u32) {
        lemma_lex_total(a.drop_first(), b.drop_first());
    }
}

pub proof fn lemma_lex_trans(a: Seq<char>, b: Seq<char>, c: Seq<char>)
    requires
        lex_le(a, b),
        lex_le(b, c),
    ensures
        lex_le(a, c),
    decreases a.len(),
{
    if a.len() > 0 && b.len() > 0 && c.len() > 0 && (a[0] as u32) == (b[0] as u32) && (b[0] as u32) == (c[0] as u32) {
        lemma_lex_trans(a.drop_first(), b.drop_first(), c.drop_first());
    }
}

pub proof fn lemma_item_le_total(a: LauncherItem, b: LauncherItem)
    ensures
        item_le(a, b) || item_le(b, a),
{
    lemma_lex_total(unicode_lower(a.name@), unicode_lower(b.name@));
}

pub proof fn lemma_item_le_trans(a: LauncherItem, b: LauncherItem, c: LauncherItem)
    requires
        item_le(a, b),
        item_le(b, c),
    ensures
        item_le(a, c),
{
    if a.last_started is None && b.last_started is None && c.last_started is None {
        lemma_lex_trans(unicode_lower(a.name@), unicode_lower(b.name@), unicode_lower(c.name@));
    }
}

proof fn lemma_insert_pos(s: Seq<LauncherItem>, x: LauncherItem)
    ensures
        0 <= insert_pos(s, x) <= s.len(),
        forall|i: int| 0 <= i < insert_pos(s, x) ==> item_le(#[trigger] s[i], x),
        insert_pos(s, x) < s.len() ==> !item_le(s[insert_pos(s, x)], x),
    decreases s.len(),
{
    if s.len() > 0 && item_le(s[0], x) {
        lemma_insert_pos(s.drop_first(), x);
        assert forall|i: int| 0 <= i < insert_pos(s, x) implies item_le(#[trigger] s[i], x) by {
            if i > 0 {
                assert(s[i] == s.drop_first()[i - 1]);
            }
        }
    }
}

proof fn lemma_insert_keeps_order(t: Seq<LauncherItem>, x: LauncherItem)
    requires
        is_ordered(t),
    ensures
        is_ordered(t.insert(insert_pos(t, x), x)),
{
    lemma_insert_pos(t, x);
    let p = insert_pos(t, x);
    let u = t.insert(p, x);
    assert forall|i: int, j: int| 0 <= i < j < u.len() implies item_le(#[trigger] u[i], #[trigger] u[j]) by {
        if j < p {
            assert(u[i] == t[i] && u[j] == t[j]);
        } else if j == p {
            assert(u[i] == t[i]);
        } else if i == p {
            assert(u[j] == t[j - 1]);
            lemma_item_le_total(t[p], x);
            if j - 1 > p {
                lemma_item_le_trans(x, t[p], t[j - 1]);
            }
        } else if i < p {
            assert(u[i] == t[i] && u[j] == t[j - 1]);
        } else {
            assert(u[i] == t[i - 1] && u[j] == t[j - 1]);
        }
    }
}

/// The display order is a reordering of the items in which every item may come
/// before the ones after it.
pub proof fn law_sorted_is_ordered_permutation(s: Seq<LauncherItem>)
    ensures
        is_ordered(sorted_items(s)),
        sorted_items(s).to_multiset() == s.to_multiset(),
        sorted_items(s).len() == s.len(),
    decreases s.len(),
{
    if s.len() > 0 {
        let t = sorted_items(s.drop_last());
        law_sorted_is_ordered_permutation(s.drop_last());
        lemma_insert_keeps_order(t, s.last());
        lemma_insert_pos(t, s.last());
        vstd::seq_lib::to_multiset_insert(t, insert_pos(t, s.last()), s.last());
        vstd::seq_lib::to_multiset_build(s.drop_last(), s.last());
        assert(s.drop_last().push(s.last()) =~= s);
    }
}

/// Lexicographic comparison of two character vectors.
pub fn lex_le_chars(a: &[char], b: &[char]) -> (r: bool)
    ensures
        r == lex_le(a@, b@),
{
    let mut i: usize = 0;
    assert(a@.skip(0) =~= a@);
    assert(b@.skip(0) =~= b@);
    while i < a.len() && i < b.len() && (a[i] as u32) == (b[i] as u32)
        invariant
            i <= a@.len(),
            i <= b@.len(),
            lex_le(a@, b@) == lex_le(a@.skip(i as int), b@.skip(i as int)),
        decreases a@.len() - i,
    {
        assert(a@.skip(i as int).drop_first() =~= a@.skip(i + 1));
        assert(b@.skip(i as int).drop_first() =~= b@.skip(i + 1));
        i += 1;
    }
    if i == a.len() {
        true
    } else if i == b.len() {
        false
    } else {
        (a[i] as u32) < (b[i] as u32)
    }
}

/// May `a` be shown before `b`?
pub fn item_before(a: &LauncherItem, b: &LauncherItem) -> (r: bool)
    ensures
        r == item_le(*a, *b),
{
    match (a.last_started, b.last_started) {
        (Some(x), Some(y)) => x >= y,
        (Some(_), None) => true,
        (None, Some(_)) => false,
        (None, None) => {
            let an = chars_of(a.name.as_str());
            let bn = chars_of(b.name.as_str());
            let al = lower_chars(&an);
            let bl = lower_chars(&bn);
            lex_le_chars(&al, &bl)
        },
    }
}

fn insert_sorted(out: &mut Vec<LauncherItem>, x: LauncherItem)
    ensures
        final(out)@ == old(out)@.insert(insert_pos(old(out)@, x), x),
{
    let mut k: usize = 0;
    assert(old(out)@.skip(0) =~= old(out)@);
    while k < out.len() && item_before(&out[k], &x)
        invariant
            out@ == old(out)@,
            k <= out@.len(),
            insert_pos(out@, x) == k + insert_pos(out@.skip(k as int), x),
        decreases out@.len() - k,
    {
        assert(out@.skip(k as int).drop_first() =~= out@.skip(k + 1));
        k += 1;
    }
    out.insert(k, x);
}

impl CategoryList {
    pub fn new(items: Vec<LauncherItem>) -> (r: Self)
        ensures
            r.items == items,
            r.selected_index == 0,
    {
        CategoryList { items, selected_index: 0 }
    }

    pub fn set_items(&mut self, items: Vec<LauncherItem>)
        ensures
            final(self).items == items,
            final(self).selected_index == clamped_index(old(self).selected_index, items@.len()),
    {
        self.items = items;
        self.clamp_index();
    }

    pub fn clear(&mut self)
        ensures
            final(self).items@.len() == 0,
            final(self).selected_index == 0,
    {
        self.items.clear();
        self.selected_index = 0;
    }

    pub fn is_empty(&self) -> (r: bool)
        ensures
            r == (self.items@.len() == 0),
    {
        self.items.len() == 0
    }

    pub fn get_selected(&self) -> (r: Option<&LauncherItem>)
        ensures
            self.selected_index < self.items@.len() ==> r == Some(&self.items@[self.selected_index as int]),
            self.selected_index >= self.items@.len() ==> r is None,
    {
        if self.selected_index < self.items.len() {
            Some(&self.items[self.selected_index])
        } else {
            None
        }
    }

    pub fn move_left(&mut self) -> (r: bool)
        ensures
            final(self).items == old(self).items,
            r == (old(self).items@.len() > 0 && old(self).selected_index > 0),
            r ==> final(self).selected_index == old(self).selected_index - 1,
            !r ==> final(self).selected_index == old(self).selected_index,
    {
        if self.items.len() > 0 && self.selected_index > 0 {
            self.selected_index = self.selected_index - 1;
            return true;
        }
        false
    }

    pub fn move_right(&mut self) -> (r: bool)
        ensures
            final(self).items == old(self).items,
            r == (old(self).selected_index + 1 < old(self).items@.len()),
            r ==> final(self).selected_index == old(self).selected_index + 1,
            !r ==> final(self).selected_index == old(self).selected_index,
    {
        if self.items.len() > 0 && self.selected_index < self.items.len() - 1 {
            self.selected_index = self.selected_index + 1;
            return true;
        }
        false
    }

    /// Applies `f` to the first item whose id is `id`, if there is one.
    pub fn update_item_by_id<F: FnOnce(&mut LauncherItem)>(&mut self, id: Uuid, f: F)
        requires
            forall|x: &mut LauncherItem| call_requires(f, (x,)),
        ensures
            final(self).selected_index == old(self).selected_index,
            final(self).items@.len() == old(self).items@.len(),
            (forall|i: int| 0 <= i < old(self).items@.len() ==> old(self).items@[i].id != id)
                ==> final(self).items@ == old(self).items@,
            forall|k: int|
                0 <= k < old(self).items@.len() && old(self).items@[k].id == id && (forall|i: int|
                    0 <= i < k ==> old(self).items@[i].id != id) ==> {
                    &&& forall|i: int|
                        0 <= i < old(self).items@.len() && i != k ==> final(self).items@[i]
                            == old(self).items@[i]
                    &&& exists|m: &mut LauncherItem|
                        *m == old(self).items@[k] && *final(m) == final(self).items@[k]
                            && call_ensures(f, (m,), ())
                },
    {
        let mut k: usize = 0;
        while k < self.items.len()
            invariant
                forall|x: &mut LauncherItem| call_requires(f, (x,)),
                self.items == old(self).items,
                self.selected_index == old(self).selected_index,
                k <= self.items@.len(),
                forall|i: int| 0 <= i < k ==> self.items@[i].id != id,
            decreases self.items@.len() - k,
        {
            if same_id(&self.items[k].id, &id) {
                let mut item = self.items.remove(k);
                f(&mut item);
                self.items.insert(k, item);
                assert forall|i: int|
                    0 <= i < old(self).items@.len() && i != k implies self.items@[i]
                    == old(self).items@[i] by {}
                return;
            }
            k += 1;
        }
    }

    /// Adds an item and puts the row back in display order.
    pub fn add_item(&mut self, item: LauncherItem)
        ensures
            final(self).items@ == sorted_items(old(self).items@.push(item)),
            final(self).selected_index == clamped_index(
                old(self).selected_index,
                old(self).items@.len() + 1,
            ),
    {
        self.items.push(item);
        self.sort_inplace();
        proof {
            law_sorted_is_ordered_permutation(old(self).items@.push(item));
        }
        self.clamp_index();
    }

    /// Removes the selected item, if any, keeping the selection on the row.
    pub fn remove_selected(&mut self) -> (r: Option<LauncherItem>)
        ensures
            old(self).selected_index < old(self).items@.len() ==> {
                &&& r == Some(old(self).items@[old(self).selected_index as int])
                &&& final(self).items@ == old(self).items@.remove(old(self).selected_index as int)
                &&& final(self).selected_index == clamped_index(
                    old(self).selected_index,
                    (old(self).items@.len() - 1) as nat,
                )
            },
            old(self).selected_index >= old(self).items@.len() ==> r is None && *final(self)
                == *old(self),
    {
        if self.selected_index < self.items.len() {
            let removed = self.items.remove(self.selected_index);
            self.clamp_index();
            Some(removed)
        } else {
            None
        }
    }

    pub fn clamp_index(&mut self)
        ensures
            final(self).items == old(self).items,
            final(self).selected_index == clamped_index(
                old(self).selected_index,
                old(self).items@.len(),
            ),
    {
        let len = self.items.len();
        if len == 0 {
            self.selected_index = 0;
        } else if self.selected_index >= len {
            self.selected_index = len - 1;
        }
    }

    /// Sorts items by last-started timestamp (most recent first); items that have
    /// never been launched follow, alphabetically (case-insensitive).
    pub fn sort_items(items: &mut Vec<LauncherItem>)
        ensures
            final(items)@ == sorted_items(old(items)@),
    {
        let mut out: Vec<LauncherItem> = Vec::new();
        let ghost orig = items@;
        let n = items.len();
        let mut i: usize = 0;
        while items.len() > 0
            invariant
                n == orig.len(),
                i <= orig.len(),
                items@ == orig.skip(i as int),
                out@ == sorted_items(orig.take(i as int)),
            decreases items@.len(),
        {
            let x = items.remove(0);
            proof {
                assert(orig.take(i + 1).drop_last() =~= orig.take(i as int));
                assert(orig.skip(i as int).drop_first() =~= orig.skip(i + 1));
            }
            insert_sorted(&mut out, x);
            i += 1;
        }
        assert(orig.take(i as int) =~= orig);
        *items = out;
    }

    pub fn sort_inplace(&mut self)
        ensures
            final(self).items@ == sorted_items(old(self).items@),
            final(self).selected_index == old(self).selected_index,
    {
        Self::sort_items(&mut self.items);
    }
}

/// Index of the first item with identifier `id`.
pub open spec fn id_index(s: Seq<LauncherItem>, id: Uuid) -> Option<int>
    decreases s.len(),
{
    if s.len() == 0 {
        None
    } else if s[0].id == id {
        Some(0)
    } else {
        match id_index(s.drop_first(), id) {
            Some(i) => Some(i + 1),
            None => None,
        }
    }
}

pub proof fn lemma_id_index(s: Seq<LauncherItem>, id: Uuid)
    ensures
        match id_index(s, id) {
            Some(k) => 0 <= k < s.len() && s[k].id == id && forall|i: int| 0 <= i < k ==> s[i].id != id,
            None => forall|i: int| 0 <= i < s.len() ==> s[i].id != id,
        },
    decreases s.len(),
{
    if s.len() > 0 && s[0].id != id {
        lemma_id_index(s.drop_first(), id);
        assert(forall|i: int| 0 < i < s.len() ==> s[i] == s.drop_first()[i - 1]);
    }
}

impl CategoryList {
    /// Finds the first item with identifier `id`.
    pub fn find_id(&self, id: &Uuid) -> (r: Option<usize>)
        ensures
            match r {
                Some(k) => id_index(self.items@, *id) == Some(k as int),
                None => id_index(self.items@, *id) is None,
            },
    {
        proof {
            lemma_id_index(self.items@, *id);
        }
        let mut k: usize = 0;
        while k < self.items.len()
            invariant
                k <= self.items@.len(),
                forall|i: int| 0 <= i < k ==> self.items@[i].id != *id,
                match id_index(self.items@, *id) {
                    Some(j) => 0 <= j < self.items@.len() && self.items@[j].id == *id && forall|i: int|
                        0 <= i < j ==> self.items@[i].id != *id,
                    None => forall|i: int| 0 <= i < self.items@.len() ==> self.items@[i].id != *id,
                },
            decreases self.items@.len() - k,
        {
            if same_id(&self.items[k].id, id) {
                return Some(k);
            }
            k += 1;
        }
        None
    }

    /// Removes the first item with identifier `id`, keeping the selection on the row.
    pub fn remove_item_by_id(&mut self, id: Uuid) -> (r: Option<LauncherItem>)
        ensures
            match id_index(old(self).items@, id) {
                Some(k) => {
                    &&& r == Some(old(self).items@[k])
                    &&& final(self).items@ == old(self).items@.remove(k)
                    &&& final(self).selected_index == clamped_index(
                        old(self).selected_index,
                        (old(self).items@.len() - 1) as nat,
                    )
                },
                None => r is None && *final(self) == *old(self),
            },
    {
        match self.find_id(&id) {
            Some(k) => {
                proof {
                    lemma_id_index(self.items@, id);
                }
                let removed = self.items.remove(k);
                self.clamp_index();
                Some(removed)
            },
            None => None,
        }
    }
}

/// The selection after the row changed to `len` items: kept if still on the row,
/// else moved to the last item (0 for an empty row).
pub open spec fn clamped_index(i: usize, len: nat) -> usize {
    if len == 0 {
        0
    } else if i >= len {
        (len - 1) as usize
    } else {
        i
    }
}

/// A row's selection, once clamped, is on an item whenever the row has items.
pub proof fn law_clamped_index_on_row(i: usize, len: nat)
    ensures
        len > 0 ==> clamped_index(i, len) < len,
        len == 0 ==> clamped_index(i, len) == 0,
        i < len ==> clamped_index(i, len) == i,
{
}

} // verus!
