//! Editing the arranger: moving, grouping, ungrouping, duplicating and deleting items.
use vstd::prelude::*;

use crate::project::pattern::{Pattern, PatternColor};
use crate::text::{increment_name, next_in_series, push_padded, series_name_ok, trim, trim_ws, zero_padded};
use crate::project::{item_indices, refs_below, repeat_seq, ArrangerItem, Project};

verus! {

/// The item at `to` after an item moved from `from` to `to` (see `reorder_item`): where
/// the current item ends up.
pub open spec fn moved_index(cur: int, from: int, to: int) -> int {
    if cur == from {
        to
    } else if from < cur && to >= cur {
        cur - 1
    } else if from > cur && to <= cur {
        cur + 1
    } else {
        cur
    }
}

/// `s` with the entry at `from` moved to position `to`.
pub open spec fn moved<A>(s: Seq<A>, from: int, to: int) -> Seq<A> {
    s.remove(from).insert(to, s[from])
}

/// Single items for each of `indices`, in order.
pub open spec fn singles(indices: Seq<usize>) -> Seq<ArrangerItem> {
    Seq::new(indices.len(), |k: int| ArrangerItem::Single { pattern_idx: indices[k] })
}

/// `b` is `a` with its pattern indices replaced by `indices`, all else kept.
pub open spec fn with_indices(a: ArrangerItem, b: ArrangerItem, indices: Seq<usize>) -> bool {
    match (a, b) {
        (ArrangerItem::Single { .. }, ArrangerItem::Single { pattern_idx }) => indices
            == seq![pattern_idx],
        (
            ArrangerItem::Group {
                name: n1,
                color: c1,
                repeat: r1,
                clone_id: i1,
                collapsed: k1,
                ..
            },
            ArrangerItem::Group {
                name: n2,
                color: c2,
                repeat: r2,
                pattern_indices: p2,
                clone_id: i2,
                collapsed: k2,
            },
        ) => n1 == n2 && c1 == c2 && r1 == r2 && i1 == i2 && k1 == k2 && p2@ == indices,
        _ => false,
    }
}

/// Whether an item is a group.
pub open spec fn is_group(item: ArrangerItem) -> bool {
    item is Group
}

/// The arranger after ungrouping the group at `i`: its patterns, as single items, in its
/// place.
pub open spec fn ungrouped(items: Seq<ArrangerItem>, i: int) -> Seq<ArrangerItem> {
    items.take(i) + singles(item_indices(items[i])) + items.skip(i + 1)
}

/// The last valid index of a list of `len` entries when `cur` is past it, else `cur`.
pub open spec fn clamped(cur: int, len: int) -> int {
    if cur >= len {
        len - 1
    } else {
        cur
    }
}

/// `s` without the entries whose flag in `drop` is set, in order.
pub open spec fn without<A>(s: Seq<A>, drop: Seq<bool>) -> Seq<A>
    decreases s.len(),
{
    if s.len() == 0 {
        Seq::empty()
    } else {
        (if drop[0] {
            Seq::empty()
        } else {
            seq![s[0]]
        }) + without(s.drop_first(), drop.drop_first())
    }
}

/// Which of `len` arranger positions a list of positions names.
pub open spec fn selection(len: nat, indices: Seq<usize>) -> Seq<bool> {
    Seq::new(len, |i: int| indices.contains(i as usize))
}

/// The pattern indices of the selected items, in arranger order.
pub open spec fn gathered(items: Seq<ArrangerItem>, sel: Seq<bool>) -> Seq<usize>
    decreases items.len(),
{
    if items.len() == 0 {
        Seq::empty()
    } else {
        gathered(items.drop_last(), sel) + if sel[items.len() - 1] {
            item_indices(items.last())
        } else {
            Seq::empty()
        }
    }
}

/// The number of groups among the items.
pub open spec fn group_count(items: Seq<ArrangerItem>) -> nat
    decreases items.len(),
{
    if items.len() == 0 {
        0
    } else {
        group_count(items.drop_last()) + if is_group(items.last()) {
            1nat
        } else {
            0nat
        }
    }
}

/// The smallest entry of a non-empty list.
pub open spec fn least(s: Seq<usize>) -> usize
    decreases s.len(),
{
    if s.len() <= 1 {
        s[0]
    } else {
        let m = least(s.drop_last());
        if s.last() < m {
            s.last()
        } else {
            m
        }
    }
}

/// Where `group_items` puts the new group: at the first selected position, or at the end
/// if fewer items remain.
pub open spec fn grouping_pos(a: Seq<ArrangerItem>, indices: Seq<usize>) -> int {
    let rest = without(a, selection(a.len(), indices));
    if least(indices) < rest.len() {
        least(indices) as int
    } else {
        rest.len() as int
    }
}

/// `b` is the arranger `a` after grouping the items at `indices`: the unselected items in
/// order, with a group of the selected items' patterns at `grouping_pos`.
pub open spec fn grouped_from(a: Seq<ArrangerItem>, indices: Seq<usize>, b: Seq<ArrangerItem>) -> bool {
    let sel = selection(a.len(), indices);
    let rest = without(a, sel);
    let pos = grouping_pos(a, indices);
    &&& b.len() == rest.len() + 1
    &&& b.remove(pos) == rest
    &&& b[pos] matches ArrangerItem::Group { pattern_indices, .. }
    &&& pattern_indices@ == gathered(a, sel)
}

/// Whether one of the items refers to pattern `p`.
pub open spec fn refers(items: Seq<ArrangerItem>, p: int) -> bool {
    exists|k: int, j: int|
        0 <= k < items.len() && 0 <= j < item_indices(items[k]).len() && #[trigger] item_indices(
            items[k],
        )[j] == p
}

/// The number of set flags among the first `p`.
pub open spec fn drop_count(m: Seq<bool>, p: int) -> nat
    decreases p,
{
    if p <= 0 {
        0
    } else {
        drop_count(m, p - 1) + if m[p - 1] {
            1nat
        } else {
            0nat
        }
    }
}

/// Where pattern `p` ends up once the flagged patterns are removed.
pub open spec fn renumbered(m: Seq<bool>, p: usize) -> usize {
    (p - drop_count(m, p as int)) as usize
}

/// Removes the entries whose flag is set, keeping the order of the others.
fn remove_flagged<A>(v: &mut Vec<A>, m: &Vec<bool>)
    requires
        m@.len() == old(v)@.len(),
    ensures
        final(v)@ == without(old(v)@, m@),
{
    let ghost a = v@;
    let n = v.len();
    let mut q: usize = n;
    assert(a.skip(n as int) =~= Seq::<A>::empty());
    assert(m@.skip(n as int) =~= Seq::<bool>::empty());
    while q > 0
        invariant
            q <= n,
            n == a.len(),
            m@.len() == n,
            v@ == a.take(q as int) + without(a.skip(q as int), m@.skip(q as int)),
        decreases q,
    {
        q = q - 1;
        assert(a.skip(q as int).drop_first() =~= a.skip(q + 1));
        assert(m@.skip(q as int).drop_first() =~= m@.skip(q + 1));
        if m[q] {
            v.remove(q);
        }
        assert(v@ =~= a.take(q as int) + without(a.skip(q as int), m@.skip(q as int)));
    }
    assert(a.skip(0) =~= a);
    assert(m@.skip(0) =~= m@);
    assert(v@ =~= without(a, m@));
}

/// Flags each of `n` patterns that `removed` names and no item refers to.
fn unused_mask(items: &Vec<ArrangerItem>, removed: &Vec<usize>, n: usize) -> (m: Vec<bool>)
    requires
        forall|k: int| 0 <= k < removed@.len() ==> #[trigger] removed@[k] < n,
        forall|k: int, j: int|
            0 <= k < items@.len() && 0 <= j < item_indices(items@[k]).len() ==> #[trigger] item_indices(
                items@[k],
            )[j] < n,
    ensures
        m@.len() == n,
        forall|p: int|
            0 <= p < n ==> #[trigger] m@[p] == (removed@.contains(p as usize) && !refers(
                items@,
                p,
            )),
{
    let mut m: Vec<bool> = vec![false; n];
    let mut k: usize = 0;
    while k < removed.len()
        invariant
            k <= removed@.len(),
            m@.len() == n,
            forall|k: int| 0 <= k < removed@.len() ==> #[trigger] removed@[k] < n,
            forall|p: int| 0 <= p < n ==> #[trigger] m@[p] == removed@.take(k as int).contains(p as usize),
        decreases removed@.len() - k,
    {
        let r = removed[k];
        m.set(r, true);
        assert forall|p: int| 0 <= p < n implies #[trigger] m@[p] == removed@.take(k + 1).contains(
            p as usize,
        ) by {
            assert(removed@.take(k + 1) =~= removed@.take(k as int).push(r));
            if removed@.take(k as int).contains(p as usize) {
                let w = choose|w: int| 0 <= w < k && removed@.take(k as int)[w] == p as usize;
                assert(removed@.take(k + 1)[w] == p as usize);
            }
            if p == r {
                assert(removed@.take(k + 1)[k as int] == r);
            }
        }
        k = k + 1;
    }
    assert(removed@.take(removed@.len() as int) =~= removed@);
    let mut i: usize = 0;
    while i < items.len()
        invariant
            i <= items@.len(),
            m@.len() == n,
            forall|k: int, j: int|
                0 <= k < items@.len() && 0 <= j < item_indices(items@[k]).len()
                    ==> #[trigger] item_indices(items@[k])[j] < n,
            forall|p: int|
                0 <= p < n ==> #[trigger] m@[p] == (removed@.contains(p as usize) && forall|
                    k: int,
                    j: int,
                |
                    0 <= k < i && 0 <= j < item_indices(items@[k]).len()
                        ==> item_indices(items@[k])[j] != p),
        decreases items@.len() - i,
    {
        let ind = items[i].pattern_indices();
        let mut j: usize = 0;
        while j < ind.len()
            invariant
                i < items@.len(),
                j <= ind@.len(),
                ind@ == item_indices(items@[i as int]),
                m@.len() == n,
                forall|k: int, j: int|
                    0 <= k < items@.len() && 0 <= j < item_indices(items@[k]).len()
                        ==> #[trigger] item_indices(items@[k])[j] < n,
                forall|p: int|
                    0 <= p < n ==> #[trigger] m@[p] == (removed@.contains(p as usize) && (forall|
                        k: int,
                        j: int,
                    |
                        0 <= k < i && 0 <= j < item_indices(items@[k]).len()
                            ==> item_indices(items@[k])[j] != p) && forall|jj: int|
                        0 <= jj < j ==> ind@[jj] != p),
            decreases ind@.len() - j,
        {
            assert(item_indices(items@[i as int])[j as int] < n);
            m.set(ind[j], false);
            j = j + 1;
        }
        assert forall|p: int| 0 <= p < n implies #[trigger] m@[p] == (removed@.contains(p as usize)
            && forall|k: int, j: int|
            0 <= k < i + 1 && 0 <= j < item_indices(items@[k]).len() ==> item_indices(items@[k])[j]
                != p) by {
            if !(forall|k: int, j: int|
                0 <= k < i + 1 && 0 <= j < item_indices(items@[k]).len()
                    ==> item_indices(items@[k])[j] != p) {
                let (k, jx) = choose|k: int, j: int|
                    0 <= k < i + 1 && 0 <= j < item_indices(items@[k]).len()
                        && item_indices(items@[k])[j] == p;
                if k == i {
                    assert(ind@[jx] == p);
                }
            }
        }
        i = i + 1;
    }
    m
}

/// The new position of each of the patterns once the flagged ones are removed.
fn renumbering(m: &Vec<bool>) -> (v: Vec<usize>)
    ensures
        v@.len() == m@.len(),
        forall|p: int| 0 <= p < m@.len() ==> #[trigger] v@[p] == p - drop_count(m@, p),
{
    let mut v: Vec<usize> = Vec::new();
    let mut c: usize = 0;
    let mut p: usize = 0;
    while p < m.len()
        invariant
            p <= m@.len(),
            v@.len() == p,
            c == drop_count(m@, p as int),
            c <= p,
            forall|q: int| 0 <= q < p ==> #[trigger] v@[q] == q - drop_count(m@, q),
        decreases m@.len() - p,
    {
        v.push(p - c);
        if m[p] {
            c = c + 1;
        }
        p = p + 1;
    }
    v
}

/// Pattern indices after the flagged patterns are removed.
pub open spec fn renumber_all(ind: Seq<usize>, m: Seq<bool>) -> Seq<usize> {
    ind.map_values(|p: usize| renumbered(m, p))
}

/// Replaces each index by its entry in `newidx`.
fn renumber_vec(v: &mut Vec<usize>, newidx: &Vec<usize>)
    requires
        forall|j: int| 0 <= j < old(v)@.len() ==> #[trigger] old(v)@[j] < newidx@.len(),
    ensures
        final(v)@ == old(v)@.map_values(|p: usize| newidx@[p as int]),
{
    let ghost a = v@;
    let mut j: usize = 0;
    while j < v.len()
        invariant
            j <= v@.len(),
            v@.len() == a.len(),
            forall|j: int| 0 <= j < a.len() ==> #[trigger] a[j] < newidx@.len(),
            forall|q: int| 0 <= q < j ==> #[trigger] v@[q] == newidx@[a[q] as int],
            forall|q: int| j <= q < a.len() ==> #[trigger] v@[q] == a[q],
        decreases a.len() - j,
    {
        let x = newidx[v[j]];
        v.set(j, x);
        j = j + 1;
    }
    assert(v@ =~= a.map_values(|p: usize| newidx@[p as int]));
}

/// Whether `i` is among `indices`.
fn contains_index(indices: &[usize], i: usize) -> (r: bool)
    ensures
        r == indices@.contains(i),
{
    let mut k: usize = 0;
    while k < indices.len()
        invariant
            k <= indices@.len(),
            forall|j: int| 0 <= j < k ==> indices@[j] != i,
        decreases indices@.len() - k,
    {
        if indices[k] == i {
            return true;
        }
        k = k + 1;
    }
    false
}

/// The smallest of a non-empty list of positions.
fn least_of(indices: &[usize]) -> (r: usize)
    requires
        indices@.len() >= 1,
    ensures
        r == least(indices@),
{
    let mut m = indices[0];
    let mut k: usize = 1;
    assert(indices@.take(1).drop_last() =~= Seq::<usize>::empty());
    while k < indices.len()
        invariant
            1 <= k <= indices@.len(),
            m == least(indices@.take(k as int)),
        decreases indices@.len() - k,
    {
        assert(indices@.take(k + 1).drop_last() =~= indices@.take(k as int));
        if indices[k] < m {
            m = indices[k];
        }
        k = k + 1;
    }
    assert(indices@.take(indices@.len() as int) =~= indices@);
    m
}

impl<T> Project<T> {
    /// The tracks, input step, scale, transposition and clone counter are as in `other`.
    pub open spec fn same_settings(self, other: Project<T>) -> bool {
        &&& self.tracks == other.tracks
        &&& self.step == other.step
        &&& self.scale_index == other.scale_index
        &&& self.transpose == other.transpose
        &&& self.next_clone_id == other.next_clone_id
    }

    /// The fields other than the arranger and the current positions are as in `other`.
    pub open spec fn same_but_arranger(self, other: Project<T>) -> bool {
        &&& self.patterns == other.patterns
        &&& self.same_settings(other)
    }

    /// The patterns that deleting item `i` removes: those it refers to that no other
    /// item refers to.
    pub open spec fn dropped_by(self, i: int) -> Seq<bool> {
        Seq::new(
            self.patterns@.len(),
            |p: int|
                item_indices(self.arranger@[i]).contains(p as usize) && !refers(
                    self.arranger@.remove(i),
                    p,
                ),
        )
    }

    /// Moves the item at `from` to position `to`; the current item stays the same item.
    /// Nothing changes when `from == to` or either is out of range.
    pub fn reorder_item(&mut self, from: usize, to: usize)
        ensures
            old(self).indices_valid() ==> final(self).indices_valid(),
            final(self).same_but_arranger(*old(self)),
            final(self).current_sub_pattern_idx == old(self).current_sub_pattern_idx,
            if from == to || from >= old(self).arranger@.len()
                || to >= old(self).arranger@.len() {
                final(self).arranger@ == old(self).arranger@ && final(self).current_item_idx
                    == old(self).current_item_idx
            } else {
                &&& final(self).arranger@ == moved(old(self).arranger@, from as int, to as int)
                &&& final(self).current_item_idx == moved_index(
                    old(self).current_item_idx as int,
                    from as int,
                    to as int,
                )
            },
    {
        if from == to || from >= self.arranger.len() || to >= self.arranger.len() {
            return ;
        }
        let item = self.arranger.remove(from);
        self.arranger.insert(to, item);
        if self.current_item_idx == from {
            self.current_item_idx = to;
        } else if from < self.current_item_idx && to >= self.current_item_idx {
            self.current_item_idx = self.current_item_idx - 1;
        } else if from > self.current_item_idx && to <= self.current_item_idx {
            self.current_item_idx = self.current_item_idx + 1;
        }
    }

    /// Within the group at `group_idx`, moves the pattern at `from` to position `to`.
    /// Nothing changes when the item is not a group, `from == to`, or either position is
    /// out of range.
    pub fn reorder_sub_pattern(&mut self, group_idx: usize, from: usize, to: usize)
        requires
            group_idx < old(self).arranger@.len(),
        ensures
            old(self).indices_valid() ==> final(self).indices_valid(),
            final(self).same_but_arranger(*old(self)),
            final(self).current_item_idx == old(self).current_item_idx,
            final(self).current_sub_pattern_idx == old(self).current_sub_pattern_idx,
            ({
                let item = old(self).arranger@[group_idx as int];
                let ind = item_indices(item);
                if is_group(item) && from != to && from < ind.len() && to < ind.len() {
                    &&& final(self).arranger@.len() == old(self).arranger@.len()
                    &&& forall|i: int|
                        0 <= i < old(self).arranger@.len() && i != group_idx
                            ==> final(self).arranger@[i] == old(self).arranger@[i]
                    &&& with_indices(
                        item,
                        final(self).arranger@[group_idx as int],
                        moved(ind, from as int, to as int),
                    )
                } else {
                    final(self).arranger@ == old(self).arranger@
                }
            }),
    {
        match &mut self.arranger[group_idx] {
            ArrangerItem::Group { pattern_indices, .. } => {
                if from == to || from >= pattern_indices.len() || to >= pattern_indices.len() {
                    return ;
                }
                let item = pattern_indices.remove(from);
                pattern_indices.insert(to, item);
            },
            ArrangerItem::Single { .. } => {},
        }
        proof {
            let a = old(self).arranger@;
            let n = self.patterns@.len();
            let ind = item_indices(a[group_idx as int]);
            if old(self).indices_valid() && is_group(a[group_idx as int]) && from != to && from
                < ind.len() && to < ind.len() {
                assert(all_below(ind, n)) by {
                    assert forall|j: int| 0 <= j < ind.len() implies #[trigger] ind[j] < n by {
                        assert(item_indices(a[group_idx as int])[j] < n);
                    }
                }
                lemma_moved_below(ind, from as int, to as int, n);
                lemma_changed_below(a, self.arranger@, group_idx as int, moved(ind, from as int, to as int), n);
            }
        }
    }
}

/// `after` is `before` with item `i` deleted: the patterns only it referred to are gone,
/// and the other items, in order, have their pattern indices renumbered to match.
pub open spec fn deleted_from<T>(before: Project<T>, after: Project<T>, i: int) -> bool {
    let rest = before.arranger@.remove(i);
    let m = before.dropped_by(i);
    &&& after.patterns@ == without(before.patterns@, m)
    &&& after.arranger@.len() == rest.len()
    &&& forall|k: int|
        0 <= k < rest.len() ==> with_indices(
            #[trigger] rest[k],
            after.arranger@[k],
            renumber_all(item_indices(rest[k]), m),
        )
}

/// Counting the flags of the first `p` from the front.
proof fn lemma_drop_count_first(m: Seq<bool>, p: int)
    requires
        1 <= p <= m.len(),
    ensures
        drop_count(m, p) == (if m[0] {
            1nat
        } else {
            0nat
        }) + drop_count(m.drop_first(), p - 1),
    decreases p,
{
    let m2 = m.drop_first();
    if p > 1 {
        lemma_drop_count_first(m, p - 1);
        assert(m2[p - 2] == m[p - 1]);
        assert(drop_count(m2, p - 1) == drop_count(m2, p - 2) + if m2[p - 2] {
            1nat
        } else {
            0nat
        });
    } else {
        assert(drop_count(m, 0) == 0);
        assert(drop_count(m2, 0) == 0);
    }
}

/// At most `p` of the first `p` flags are set.
proof fn lemma_drop_count_le(m: Seq<bool>, p: int)
    requires
        0 <= p,
    ensures
        drop_count(m, p) <= p,
    decreases p,
{
    if p > 0 {
        lemma_drop_count_le(m, p - 1);
    }
}

/// An entry that is kept lands at its index less the number of removed entries before it.
pub proof fn lemma_without_index<A>(s: Seq<A>, m: Seq<bool>, p: int)
    requires
        m.len() == s.len(),
        0 <= p < s.len(),
        !m[p],
    ensures
        drop_count(m, p) <= p,
        p - drop_count(m, p) < without(s, m).len(),
        without(s, m)[p - drop_count(m, p)] == s[p],
    decreases s.len(),
{
    lemma_drop_count_le(m, p);
    let t = s.drop_first();
    let m2 = m.drop_first();
    if p == 0 {
    } else {
        lemma_without_index(t, m2, p - 1);
        lemma_drop_count_first(m, p);
    }
}

impl<T> Project<T> {
    /// Deletes the item at `item_idx`, and with it the patterns that only it referred to;
    /// the other items' pattern indices are renumbered to match, and a current index past
    /// the end moves to the last item. Nothing changes when the arranger holds at most
    /// one item.
    pub fn delete_item(&mut self, item_idx: usize)
        requires
            old(self).indices_valid(),
            old(self).arranger@.len() > 1 ==> item_idx < old(self).arranger@.len(),
        ensures
            old(self).arranger@.len() <= 1 ==> *final(self) == *old(self),
            old(self).arranger@.len() > 1 ==> {
                &&& final(self).same_settings(*old(self))
                &&& final(self).current_sub_pattern_idx == old(self).current_sub_pattern_idx
                &&& deleted_from(*old(self), *final(self), item_idx as int)
                &&& final(self).current_item_idx == clamped(
                    old(self).current_item_idx as int,
                    final(self).arranger@.len() as int,
                )
            },
    {
        if self.arranger.len() <= 1 {
            return ;
        }
        let ghost a = self.arranger@;
        let removed = self.arranger.remove(item_idx);
        let ghost rest = self.arranger@;
        if self.current_item_idx >= self.arranger.len() {
            self.current_item_idx = self.arranger.len() - 1;
        }
        let removed_indices = removed.pattern_indices();
        let n = self.patterns.len();
        proof {
            assert forall|k: int| 0 <= k < removed_indices@.len() implies #[trigger] removed_indices@[k]
                < n by {
                assert(item_indices(a[item_idx as int])[k] < n);
            }
            assert forall|k: int, j: int|
                0 <= k < rest.len() && 0 <= j < item_indices(rest[k]).len() implies #[trigger] item_indices(
                rest[k],
            )[j] < n by {
                if k < item_idx {
                    assert(rest[k] == a[k]);
                    assert(item_indices(a[k])[j] < n);
                } else {
                    assert(rest[k] == a[k + 1]);
                    assert(item_indices(a[k + 1])[j] < n);
                }
            }
        }
        let m = unused_mask(&self.arranger, &removed_indices, n);
        let ghost ms = old(self).dropped_by(item_idx as int);
        assert(m@ =~= ms);
        let newidx = renumbering(&m);
        remove_flagged(&mut self.patterns, &m);
        let mut k: usize = 0;
        while k < self.arranger.len()
            invariant
                k <= self.arranger@.len(),
                self.arranger@.len() == rest.len(),
                newidx@.len() == n,
                m@ == ms,
                forall|p: int| 0 <= p < n ==> #[trigger] newidx@[p] == p - drop_count(ms, p),
                forall|k: int, j: int|
                    0 <= k < rest.len() && 0 <= j < item_indices(rest[k]).len()
                        ==> #[trigger] item_indices(rest[k])[j] < n,
                forall|q: int|
                    0 <= q < k ==> with_indices(
                        #[trigger] rest[q],
                        self.arranger@[q],
                        renumber_all(item_indices(rest[q]), ms),
                    ),
                forall|q: int| k <= q < rest.len() ==> #[trigger] self.arranger@[q] == rest[q],
                self.same_settings(*old(self)),
                self.current_sub_pattern_idx == old(self).current_sub_pattern_idx,
                self.current_item_idx == clamped(old(self).current_item_idx as int, rest.len() as int),
                self.patterns@ == without(old(self).patterns@, ms),
            decreases rest.len() - k,
        {
            let ghost before = self.arranger@;
            match &mut self.arranger[k] {
                ArrangerItem::Single { pattern_idx } => {
                    assert(item_indices(rest[k as int])[0] < n);
                    *pattern_idx = newidx[*pattern_idx];
                },
                ArrangerItem::Group { pattern_indices, .. } => {
                    proof {
                        assert forall|j: int| 0 <= j < pattern_indices@.len() implies #[trigger] pattern_indices@[j]
                            < newidx@.len() by {
                            assert(item_indices(rest[k as int])[j] < n);
                        }
                    }
                    renumber_vec(pattern_indices, &newidx);
                },
            }
            proof {
                let r = renumber_all(item_indices(rest[k as int]), ms);
                assert(item_indices(self.arranger@[k as int]) =~= r) by {
                    assert forall|j: int| 0 <= j < r.len() implies item_indices(self.arranger@[k as int])[j] == r[j] by {
                        assert(item_indices(rest[k as int])[j] < n);
                    }
                }
                assert(with_indices(rest[k as int], self.arranger@[k as int], r));
            }
            k = k + 1;
        }
    }
}

/// A remaining item's pattern index, after a deletion, names the pattern it named before.
proof fn lemma_delete_ref<T>(before: Project<T>, after: Project<T>, i: int, k: int, j: int)
    requires
        before.indices_valid(),
        0 <= i < before.arranger@.len(),
        deleted_from(before, after, i),
        0 <= k < after.arranger@.len(),
        0 <= j < item_indices(after.arranger@[k]).len(),
    ensures
        item_indices(after.arranger@[k])[j] < after.patterns@.len(),
        after.patterns@[item_indices(after.arranger@[k])[j] as int]
            == before.patterns@[item_indices(before.arranger@.remove(i)[k])[j] as int],
{
    let rest = before.arranger@.remove(i);
    let m = before.dropped_by(i);
    let n = before.patterns@.len();
    assert(with_indices(rest[k], after.arranger@[k], renumber_all(item_indices(rest[k]), m)));
    let p = item_indices(rest[k])[j];
    let src = if k < i {
        k
    } else {
        k + 1
    };
    assert(rest[k] == before.arranger@[src]);
    assert(p < n);
    assert(refers(rest, p as int));
    assert(!m[p as int]);
    lemma_without_index(before.patterns@, m, p as int);
    assert(item_indices(after.arranger@[k])[j] == renumbered(m, p));
}

/// `b` is `a` with the pattern indices of the item at `k` replaced by `ind`.
pub open spec fn changed_at(a: Seq<ArrangerItem>, b: Seq<ArrangerItem>, k: int, ind: Seq<usize>) -> bool {
    &&& b.len() == a.len()
    &&& forall|q: int| 0 <= q < a.len() && q != k ==> #[trigger] b[q] == a[q]
    &&& with_indices(a[k], b[k], ind)
}

impl<T> Project<T> {
    /// Moves the single item at `item_idx` into the group at `group_idx`, at position
    /// `sub_pos` of its patterns (at the end if that is past it); the group becomes the
    /// current item. Nothing changes when either position is out of range, the first is
    /// not a single item or the second not a group.
    pub fn move_item_into_group(&mut self, item_idx: usize, group_idx: usize, sub_pos: usize)
        ensures
            old(self).indices_valid() ==> final(self).indices_valid(),
            final(self).same_but_arranger(*old(self)),
            final(self).current_sub_pattern_idx == old(self).current_sub_pattern_idx,
            ({
                let a = old(self).arranger@;
                if item_idx < a.len() && group_idx < a.len() && !is_group(a[item_idx as int])
                    && is_group(a[group_idx as int]) {
                    let rest = a.remove(item_idx as int);
                    let g = if item_idx < group_idx {
                        group_idx - 1
                    } else {
                        group_idx as int
                    };
                    let ind = item_indices(rest[g]);
                    let pos = if sub_pos < ind.len() {
                        sub_pos as int
                    } else {
                        ind.len() as int
                    };
                    &&& changed_at(
                        rest,
                        final(self).arranger@,
                        g,
                        ind.insert(pos, item_indices(a[item_idx as int])[0]),
                    )
                    &&& final(self).current_item_idx == g
                } else {
                    &&& final(self).arranger@ == a
                    &&& final(self).current_item_idx == old(self).current_item_idx
                }
            }),
    {
        if item_idx >= self.arranger.len() || group_idx >= self.arranger.len() {
            return ;
        }
        let pattern_idx = match &self.arranger[item_idx] {
            ArrangerItem::Single { pattern_idx } => *pattern_idx,
            ArrangerItem::Group { .. } => {
                return ;
            },
        };
        match &self.arranger[group_idx] {
            ArrangerItem::Group { .. } => {},
            ArrangerItem::Single { .. } => {
                return ;
            },
        }
        let ghost a = self.arranger@;
        self.arranger.remove(item_idx);
        let actual_group = if item_idx < group_idx {
            group_idx - 1
        } else {
            group_idx
        };
        let ghost rest = self.arranger@;
        if actual_group < self.arranger.len() {
            match &mut self.arranger[actual_group] {
                ArrangerItem::Group { pattern_indices, .. } => {
                    let pos = if sub_pos < pattern_indices.len() {
                        sub_pos
                    } else {
                        pattern_indices.len()
                    };
                    pattern_indices.insert(pos, pattern_idx);
                },
                ArrangerItem::Single { .. } => {},
            }
        }
        self.current_item_idx = if actual_group < self.arranger.len() {
            actual_group
        } else if self.arranger.len() > 0 {
            self.arranger.len() - 1
        } else {
            0
        };
        assert(rest[actual_group as int] == a[group_idx as int]);
        proof {
            let n = self.patterns@.len();
            if old(self).indices_valid() {
                lemma_remove_below(a, item_idx as int, n);
                let ind = item_indices(rest[actual_group as int]);
                let pos = if sub_pos < ind.len() {
                    sub_pos as int
                } else {
                    ind.len() as int
                };
                let ni = ind.insert(pos, item_indices(a[item_idx as int])[0]);
                assert(item_indices(a[item_idx as int])[0] < n);
                assert(all_below(ni, n)) by {
                    assert forall|j: int| 0 <= j < ni.len() implies #[trigger] ni[j] < n by {
                        if j < pos {
                            assert(ni[j] == ind[j]);
                        } else if j > pos {
                            assert(ni[j] == ind[j - 1]);
                        }
                        if j != pos {
                            let jj = if j < pos {
                                j
                            } else {
                                j - 1
                            };
                            assert(item_indices(rest[actual_group as int])[jj] < n);
                        }
                    }
                }
                lemma_changed_below(rest, self.arranger@, actual_group as int, ni, n);
            }
        }
    }

    /// Takes the pattern at `sub_idx` out of the group at `group_idx` and puts it, as a
    /// single item, at position `target_item_idx` of the arranger (at the end if that is
    /// past it); a group left empty is removed first, and positions after it shift down
    /// by one. The new item becomes the current item. Nothing changes when the item is not
    /// a group or either position is out of range.
    pub fn move_sub_pattern_out(&mut self, group_idx: usize, sub_idx: usize, target_item_idx: usize)
        ensures
            old(self).indices_valid() ==> final(self).indices_valid(),
            final(self).same_but_arranger(*old(self)),
            final(self).current_sub_pattern_idx == old(self).current_sub_pattern_idx,
            ({
                let a = old(self).arranger@;
                if group_idx < a.len() && is_group(a[group_idx as int]) && sub_idx < item_indices(
                    a[group_idx as int],
                ).len() {
                    let ind = item_indices(a[group_idx as int]);
                    let single = ArrangerItem::Single { pattern_idx: ind[sub_idx as int] };
                    let left = ind.remove(sub_idx as int);
                    if left.len() == 0 {
                        let rest = a.remove(group_idx as int);
                        let t = if target_item_idx > group_idx {
                            target_item_idx - 1
                        } else {
                            target_item_idx as int
                        };
                        let pos = if t < rest.len() {
                            t
                        } else {
                            rest.len() as int
                        };
                        &&& final(self).arranger@ == rest.insert(pos, single)
                        &&& final(self).current_item_idx == pos
                    } else {
                        let pos = if target_item_idx < a.len() {
                            target_item_idx as int
                        } else {
                            a.len() as int
                        };
                        &&& final(self).arranger@.len() == a.len() + 1
                        &&& final(self).arranger@[pos] == single
                        &&& changed_at(a, final(self).arranger@.remove(pos), group_idx as int, left)
                        &&& final(self).current_item_idx == pos
                    }
                } else {
                    &&& final(self).arranger@ == a
                    &&& final(self).current_item_idx == old(self).current_item_idx
                }
            }),
    {
        if group_idx >= self.arranger.len() {
            return ;
        }
        let ghost a = self.arranger@;
        let pat_idx = match &mut self.arranger[group_idx] {
            ArrangerItem::Group { pattern_indices, .. } => {
                if sub_idx >= pattern_indices.len() {
                    return ;
                }
                pattern_indices.remove(sub_idx)
            },
            ArrangerItem::Single { .. } => {
                return ;
            },
        };
        let ghost b = self.arranger@;
        let now_empty = match &self.arranger[group_idx] {
            ArrangerItem::Group { pattern_indices, .. } => pattern_indices.len() == 0,
            ArrangerItem::Single { .. } => false,
        };
        if now_empty {
            self.arranger.remove(group_idx);
            let adjusted = if target_item_idx > group_idx {
                target_item_idx - 1
            } else {
                target_item_idx
            };
            let pos = if adjusted < self.arranger.len() {
                adjusted
            } else {
                self.arranger.len()
            };
            assert(self.arranger@ =~= a.remove(group_idx as int));
            self.arranger.insert(pos, ArrangerItem::Single { pattern_idx: pat_idx });
            self.current_item_idx = pos;
            proof {
                let n = self.patterns@.len();
                if old(self).indices_valid() {
                    lemma_remove_below(a, group_idx as int, n);
                    lemma_item_below(a, group_idx as int, n);
                    assert(self.arranger@.remove(pos as int) =~= a.remove(group_idx as int));
                    assert(item_indices(self.arranger@[pos as int]) == seq![pat_idx]);
                    lemma_reinsert_below(self.arranger@, pos as int, n);
                }
            }
        } else {
            let pos = if target_item_idx < self.arranger.len() {
                target_item_idx
            } else {
                self.arranger.len()
            };
            self.arranger.insert(pos, ArrangerItem::Single { pattern_idx: pat_idx });
            self.current_item_idx = pos;
            assert(self.arranger@.remove(pos as int) =~= b);
            proof {
                let n = self.patterns@.len();
                if old(self).indices_valid() {
                    lemma_item_below(a, group_idx as int, n);
                    let ind = item_indices(a[group_idx as int]);
                    lemma_remove_seq_below(ind, sub_idx as int, n);
                    lemma_changed_below(a, b, group_idx as int, ind.remove(sub_idx as int), n);
                    assert(item_indices(self.arranger@[pos as int]) == seq![pat_idx]);
                    lemma_reinsert_below(self.arranger@, pos as int, n);
                }
            }
        }
    }
}

impl<T> Project<T> {
    /// Moves the pattern at `from_sub` of the group at `from_group` to position `to_sub`
    /// (at the end if that is past it) of the group at `to_group`; within one group this
    /// is `reorder_sub_pattern`. A group left empty is removed, and a later target shifts
    /// down by one. If the target is not a group, the pattern is taken out and put nowhere.
    /// The target becomes the current item. Nothing changes when a position is out of
    /// range or the source is not a group.
    pub fn move_sub_between_groups(
        &mut self,
        from_group: usize,
        from_sub: usize,
        to_group: usize,
        to_sub: usize,
    )
        ensures
            old(self).indices_valid() ==> final(self).indices_valid(),
            final(self).same_but_arranger(*old(self)),
            final(self).current_sub_pattern_idx == old(self).current_sub_pattern_idx,
            ({
                let a = old(self).arranger@;
                if from_group >= a.len() || to_group >= a.len() {
                    &&& final(self).arranger@ == a
                    &&& final(self).current_item_idx == old(self).current_item_idx
                } else if from_group == to_group {
                    let ind = item_indices(a[from_group as int]);
                    &&& final(self).current_item_idx == old(self).current_item_idx
                    &&& if is_group(a[from_group as int]) && from_sub != to_sub && from_sub
                        < ind.len() && to_sub < ind.len() {
                        changed_at(
                            a,
                            final(self).arranger@,
                            from_group as int,
                            moved(ind, from_sub as int, to_sub as int),
                        )
                    } else {
                        final(self).arranger@ == a
                    }
                } else if is_group(a[from_group as int]) && from_sub < item_indices(
                    a[from_group as int],
                ).len() {
                    let ind = item_indices(a[from_group as int]);
                    let pat = ind[from_sub as int];
                    let left = ind.remove(from_sub as int);
                    if left.len() == 0 {
                        let rest = a.remove(from_group as int);
                        let t = if from_group < to_group {
                            to_group - 1
                        } else {
                            to_group as int
                        };
                        let tind = item_indices(rest[t]);
                        let pos = if to_sub < tind.len() {
                            to_sub as int
                        } else {
                            tind.len() as int
                        };
                        &&& final(self).current_item_idx == t
                        &&& if is_group(rest[t]) {
                            changed_at(rest, final(self).arranger@, t, tind.insert(pos, pat))
                        } else {
                            final(self).arranger@ == rest
                        }
                    } else {
                        let tind = item_indices(a[to_group as int]);
                        let pos = if to_sub < tind.len() {
                            to_sub as int
                        } else {
                            tind.len() as int
                        };
                        &&& final(self).current_item_idx == to_group
                        &&& final(self).arranger@.len() == a.len()
                        &&& forall|q: int|
                            0 <= q < a.len() && q != from_group && q != to_group
                                ==> #[trigger] final(self).arranger@[q] == a[q]
                        &&& with_indices(
                            a[from_group as int],
                            final(self).arranger@[from_group as int],
                            left,
                        )
                        &&& if is_group(a[to_group as int]) {
                            with_indices(
                                a[to_group as int],
                                final(self).arranger@[to_group as int],
                                tind.insert(pos, pat),
                            )
                        } else {
                            final(self).arranger@[to_group as int] == a[to_group as int]
                        }
                    }
                } else {
                    &&& final(self).arranger@ == a
                    &&& final(self).current_item_idx == old(self).current_item_idx
                }
            }),
    {
        if from_group >= self.arranger.len() || to_group >= self.arranger.len() {
            return ;
        }
        if from_group == to_group {
            self.reorder_sub_pattern(from_group, from_sub, to_sub);
            return ;
        }
        let ghost a = self.arranger@;
        let pat_idx = match &mut self.arranger[from_group] {
            ArrangerItem::Group { pattern_indices, .. } => {
                if from_sub >= pattern_indices.len() {
                    return ;
                }
                pattern_indices.remove(from_sub)
            },
            ArrangerItem::Single { .. } => {
                return ;
            },
        };
        let now_empty = match &self.arranger[from_group] {
            ArrangerItem::Group { pattern_indices, .. } => pattern_indices.len() == 0,
            ArrangerItem::Single { .. } => false,
        };
        let actual_to = if now_empty {
            self.arranger.remove(from_group);
            assert(self.arranger@ =~= a.remove(from_group as int));
            if from_group < to_group {
                to_group - 1
            } else {
                to_group
            }
        } else {
            to_group
        };
        let ghost b = self.arranger@;
        if actual_to < self.arranger.len() {
            match &mut self.arranger[actual_to] {
                ArrangerItem::Group { pattern_indices, .. } => {
                    let pos = if to_sub < pattern_indices.len() {
                        to_sub
                    } else {
                        pattern_indices.len()
                    };
                    pattern_indices.insert(pos, pat_idx);
                },
                ArrangerItem::Single { .. } => {},
            }
        }
        self.current_item_idx = if actual_to < self.arranger.len() {
            actual_to
        } else if self.arranger.len() > 0 {
            self.arranger.len() - 1
        } else {
            0
        };
        proof {
            if !now_empty {
                assert(b[to_group as int] == a[to_group as int]);
            }
            let n = self.patterns@.len();
            if old(self).indices_valid() {
                let ind = item_indices(a[from_group as int]);
                lemma_item_below(a, from_group as int, n);
                lemma_remove_seq_below(ind, from_sub as int, n);
                let left = ind.remove(from_sub as int);
                if now_empty {
                    lemma_remove_below(a, from_group as int, n);
                } else {
                    let mid = a.update(from_group as int, b[from_group as int]);
                    assert(b =~= mid);
                    lemma_changed_below(a, b, from_group as int, left, n);
                }
                if actual_to < b.len() && is_group(b[actual_to as int]) {
                    lemma_item_below(b, actual_to as int, n);
                    let tind = item_indices(b[actual_to as int]);
                    let pos = if to_sub < tind.len() {
                        to_sub as int
                    } else {
                        tind.len() as int
                    };
                    lemma_insert_seq_below(tind, pos, pat_idx, n);
                    lemma_changed_below(b, self.arranger@, actual_to as int, tind.insert(pos, pat_idx), n);
                }
            }
        }
    }
}

/// `p` is a copy of `src` under the next name in its series.
pub open spec fn renamed_copy(p: Pattern, src: Pattern) -> bool {
    &&& p.name@ == next_in_series(src.name@)
    &&& p.color == src.color
    &&& p.repeat == src.repeat
    &&& p.rows == src.rows
    &&& p.bpm == src.bpm
    &&& p.time_sig_numerator == src.time_sig_numerator
    &&& p.time_sig_denominator == src.time_sig_denominator
    &&& p.note_value == src.note_value
    &&& p.measures == src.measures
    &&& p.track_note_values@ == src.track_note_values@
    &&& p.grid() == src.grid()
}

/// A copy of a pattern under the next name in its series.
fn copy_renamed(src: &Pattern) -> (r: Pattern)
    requires
        series_name_ok(src.name@),
    ensures
        renamed_copy(r, *src),
{
    let mut p = src.duplicate();
    p.name = increment_name(src.name.as_str());
    p
}

impl<T> Project<T> {
    /// The names of the patterns an item refers to, and of the item if it is a group,
    /// can each be followed in their series (see `series_name_ok`).
    pub open spec fn names_ok(self, i: int) -> bool {
        &&& forall|j: int|
            0 <= j < item_indices(self.arranger@[i]).len() ==> series_name_ok(
                #[trigger] self.patterns@[item_indices(self.arranger@[i])[j] as int].name@,
            )
        &&& self.arranger@[i] matches ArrangerItem::Group { name, .. } ==> series_name_ok(name@)
    }

    /// The next name in a numbered series ("Pattern 01" gives "Pattern 02", "Test" gives
    /// "Test 2"; see `next_in_series`).
    pub fn increment_name(name: &str) -> (r: String)
        requires
            series_name_ok(name@),
        ensures
            r@ == next_in_series(name@),
    {
        increment_name(name)
    }

    /// The name for a new pattern: "Pattern " and the count of patterns after it is
    /// added, at least two digits.
    pub fn next_pattern_name(&self) -> (r: String)
        requires
            self.patterns@.len() < usize::MAX,
        ensures
            r@ == "Pattern "@ + zero_padded(self.patterns@.len() + 1, 2),
    {
        let mut s = String::from_str("Pattern ");
        proof {
            reveal_strlit("Pattern ");
        }
        push_padded(&mut s, self.patterns.len() as u64 + 1, 2);
        s
    }

    /// The name for a new track: "Track " and the number of tracks before it is added, at
    /// least two digits.
    pub fn next_track_name(&self) -> (r: String)
        ensures
            r@ == "Track "@ + zero_padded(self.tracks@.len() as nat, 2),
    {
        let mut s = String::from_str("Track ");
        proof {
            reveal_strlit("Track ");
        }
        push_padded(&mut s, self.tracks.len() as u64, 2);
        s
    }

    /// Puts a copy of the item at `item_idx` right after it. A single item's copy refers
    /// to a new copy of its pattern; a group's copy, under the next name in its series,
    /// refers to new copies of each of its patterns, is not a clone and is not collapsed.
    /// Each copied pattern is added at the end, under the next name in its series.
    pub fn duplicate_item(&mut self, item_idx: usize)
        requires
            item_idx < old(self).arranger@.len(),
            old(self).indices_valid(),
            old(self).names_ok(item_idx as int),
            old(self).patterns@.len() + item_indices(old(self).arranger@[item_idx as int]).len()
                <= usize::MAX,
        ensures
            old(self).indices_valid() ==> final(self).indices_valid(),
            final(self).same_settings(*old(self)),
            final(self).current_item_idx == old(self).current_item_idx,
            final(self).current_sub_pattern_idx == old(self).current_sub_pattern_idx,
            ({
                let a = old(self).arranger@;
                let n = old(self).patterns@.len();
                let ind = item_indices(a[item_idx as int]);
                &&& final(self).patterns@.len() == n + ind.len()
                &&& final(self).patterns@.take(n as int) == old(self).patterns@
                &&& forall|j: int|
                    0 <= j < ind.len() ==> renamed_copy(
                        #[trigger] final(self).patterns@[n + j],
                        old(self).patterns@[ind[j] as int],
                    )
                &&& final(self).arranger@.len() == a.len() + 1
                &&& final(self).arranger@.remove(item_idx + 1) == a
                &&& match a[item_idx as int] {
                    ArrangerItem::Single { .. } => final(self).arranger@[item_idx + 1]
                        == ArrangerItem::Single { pattern_idx: n as usize },
                    ArrangerItem::Group { name, color, repeat, .. } => final(self).arranger@[item_idx + 1] matches ArrangerItem::Group {
                        name: n2,
                        color: c2,
                        repeat: r2,
                        pattern_indices,
                        clone_id,
                        collapsed,
                    } && n2@ == next_in_series(name@) && c2 == color && r2 == repeat
                        && pattern_indices@ == Seq::new(ind.len(), |j: int| (n + j) as usize)
                        && clone_id is None && !collapsed,
                }
            }),
    {
        let ghost a = self.arranger@;
        let ghost old_patterns = self.patterns@;
        let n = self.patterns.len();
        let count = self.arranger.len();
        assert(item_idx + 1 <= count);
        match &self.arranger[item_idx] {
            ArrangerItem::Single { pattern_idx } => {
                let pi = *pattern_idx;
                assert(item_indices(a[item_idx as int])[0] < n);
                assert(series_name_ok(self.patterns@[item_indices(a[item_idx as int])[0] as int].name@));
                let new_pat = copy_renamed(&self.patterns[pi]);
                self.patterns.push(new_pat);
                self.arranger.insert(item_idx + 1, ArrangerItem::Single { pattern_idx: n });
                assert(self.patterns@.take(n as int) =~= old_patterns);
                assert(self.arranger@.remove(item_idx + 1) =~= a);
            },
            ArrangerItem::Group { name, color, repeat, pattern_indices, .. } => {
                let new_name = increment_name(name.as_str());
                let color = *color;
                let repeat = *repeat;
                let indices = pattern_indices.clone();
                assert(indices@ == item_indices(a[item_idx as int]));
                let mut new_indices: Vec<usize> = Vec::new();
                let mut j: usize = 0;
                while j < indices.len()
                    invariant
                        j <= indices@.len(),
                        indices@ == item_indices(a[item_idx as int]),
                        item_idx < a.len(),
                        n == old_patterns.len(),
                        n + indices@.len() <= usize::MAX,
                        self.arranger@ == a,
                        old(self).indices_valid(),
                        old(self).names_ok(item_idx as int),
                        old(self).arranger@ == a,
                        old(self).patterns@ == old_patterns,
                        self.patterns@.len() == n + j,
                        self.patterns@.take(n as int) == old_patterns,
                        forall|q: int|
                            0 <= q < j ==> renamed_copy(
                                #[trigger] self.patterns@[n + q],
                                old_patterns[indices@[q] as int],
                            ),
                        new_indices@ == Seq::new(j as nat, |q: int| (n + q) as usize),
                        self.same_settings(*old(self)),
                        self.current_item_idx == old(self).current_item_idx,
                        self.current_sub_pattern_idx == old(self).current_sub_pattern_idx,
                    decreases indices@.len() - j,
                {
                    let pi = indices[j];
                    assert(item_indices(a[item_idx as int])[j as int] < n);
                    assert(self.patterns@[pi as int] == old_patterns[pi as int]);
                    let new_pat = copy_renamed(&self.patterns[pi]);
                    let new_idx = self.patterns.len();
                    self.patterns.push(new_pat);
                    new_indices.push(new_idx);
                    j = j + 1;
                    assert(self.patterns@.take(n as int) =~= old_patterns);
                    assert(new_indices@ =~= Seq::new(j as nat, |q: int| (n + q) as usize));
                }
                self.arranger.insert(
                    item_idx + 1,
                    ArrangerItem::Group {
                        name: new_name,
                        color,
                        repeat,
                        pattern_indices: new_indices,
                        clone_id: None,
                        collapsed: false,
                    },
                );
                assert(self.arranger@.remove(item_idx + 1) =~= a);
            },
        }
    }

    /// Puts a clone of the item at `item_idx` right after it. A single item's clone
    /// refers to the same pattern. A group without a clone id first gets the next one
    /// from the project's counter; its clone is a copy of it, with that clone id.
    pub fn clone_item(&mut self, item_idx: usize)
        requires
            item_idx < old(self).arranger@.len(),
            old(self).arranger@[item_idx as int] matches ArrangerItem::Group { clone_id, .. }
                && clone_id is None ==> old(self).next_clone_id < u64::MAX,
        ensures
            old(self).indices_valid() ==> final(self).indices_valid(),
            final(self).patterns == old(self).patterns,
            final(self).tracks == old(self).tracks,
            final(self).step == old(self).step,
            final(self).scale_index == old(self).scale_index,
            final(self).transpose == old(self).transpose,
            final(self).current_item_idx == old(self).current_item_idx,
            final(self).current_sub_pattern_idx == old(self).current_sub_pattern_idx,
            final(self).arranger@.len() == old(self).arranger@.len() + 1,
            item_indices(final(self).arranger@[item_idx + 1]) == item_indices(old(self).arranger@[item_idx as int]),
            ({
                let a = old(self).arranger@;
                match a[item_idx as int] {
                    ArrangerItem::Single { .. } => {
                        &&& final(self).arranger@ == a.insert(item_idx + 1, a[item_idx as int])
                        &&& final(self).next_clone_id == old(self).next_clone_id
                    },
                    ArrangerItem::Group { clone_id, .. } => {
                        let id = match clone_id {
                            Some(c) => c,
                            None => old(self).next_clone_id,
                        };
                        &&& final(self).next_clone_id == if clone_id is None {
                            (old(self).next_clone_id + 1) as u64
                        } else {
                            old(self).next_clone_id
                        }
                        &&& final(self).arranger@.len() == a.len() + 1
                        &&& forall|q: int|
                            0 <= q < a.len() && q != item_idx ==> #[trigger] final(self).arranger@.remove(item_idx + 1)[q] == a[q]
                        &&& with_clone_id(a[item_idx as int], final(self).arranger@[item_idx as int], id)
                        &&& with_clone_id(a[item_idx as int], final(self).arranger@[item_idx + 1], id)
                    },
                }
            }),
    {
        let ghost a = self.arranger@;
        let count = self.arranger.len();
        assert(item_idx + 1 <= count);
        let id = match &mut self.arranger[item_idx] {
            ArrangerItem::Single { pattern_idx } => {
                let new_item = ArrangerItem::Single { pattern_idx: *pattern_idx };
                self.arranger.insert(item_idx + 1, new_item);
                return ;
            },
            ArrangerItem::Group { clone_id, .. } => {
                match *clone_id {
                    Some(c) => c,
                    None => {
                        let c = self.next_clone_id;
                        *clone_id = Some(c);
                        self.next_clone_id = self.next_clone_id + 1;
                        c
                    },
                }
            },
        };
        let copy = self.arranger[item_idx].duplicate();
        self.arranger.insert(item_idx + 1, copy);
        assert(self.arranger@.remove(item_idx + 1)[item_idx as int] == self.arranger@[item_idx as int]);
        proof {
            let n = self.patterns@.len();
            if old(self).indices_valid() {
                let c = self.arranger@;
                let r = c.remove(item_idx + 1);
                assert(item_indices(r[item_idx as int]) == item_indices(a[item_idx as int]));
                lemma_item_below(a, item_idx as int, n);
                assert forall|i: int, j: int|
                    0 <= i < r.len() && 0 <= j < item_indices(r[i]).len() implies #[trigger] item_indices(
                    r[i],
                )[j] < n by {
                    if i != item_idx {
                        assert(r[i] == a[i]);
                    }
                }
                assert(item_indices(c[item_idx + 1]) == item_indices(a[item_idx as int]));
                lemma_reinsert_below(c, item_idx + 1, n);
            }
        }
    }
}

/// `b` is the pattern `a` under the name `name`, all else the same.
pub open spec fn renamed(a: Pattern, b: Pattern, name: Seq<char>) -> bool {
    &&& b.name@ == name
    &&& b.color == a.color
    &&& b.repeat == a.repeat
    &&& b.rows == a.rows
    &&& b.bpm == a.bpm
    &&& b.time_sig_numerator == a.time_sig_numerator
    &&& b.time_sig_denominator == a.time_sig_denominator
    &&& b.note_value == a.note_value
    &&& b.measures == a.measures
    &&& b.track_note_values == a.track_note_values
    &&& b.data == a.data
}

/// `b` is the pattern `a` with the color `color`, all else the same.
pub open spec fn recolored(a: Pattern, b: Pattern, color: Option<PatternColor>) -> bool {
    &&& b.name == a.name
    &&& b.color == color
    &&& b.repeat == a.repeat
    &&& b.rows == a.rows
    &&& b.bpm == a.bpm
    &&& b.time_sig_numerator == a.time_sig_numerator
    &&& b.time_sig_denominator == a.time_sig_denominator
    &&& b.note_value == a.note_value
    &&& b.measures == a.measures
    &&& b.track_note_values == a.track_note_values
    &&& b.data == a.data
}

/// `b` is the group `a` with some of its settings replaced: name (as characters), color,
/// repeat count, collapsed state; its patterns and clone id are kept.
pub open spec fn group_with(
    a: ArrangerItem,
    b: ArrangerItem,
    name: Seq<char>,
    color: Option<PatternColor>,
    repeat: u16,
    collapsed: bool,
) -> bool {
    match (a, b) {
        (
            ArrangerItem::Group { pattern_indices: p1, clone_id: i1, .. },
            ArrangerItem::Group {
                name: n2,
                color: c2,
                repeat: r2,
                pattern_indices: p2,
                clone_id: i2,
                collapsed: k2,
            },
        ) => n2@ == name && c2 == color && r2 == repeat && p2 == p1 && i2 == i1 && k2 == collapsed,
        _ => false,
    }
}

/// Only the pattern at `p` differs between `a` and `b`.
pub open spec fn only_pattern_changed(a: Seq<Pattern>, b: Seq<Pattern>, p: int) -> bool {
    &&& b.len() == a.len()
    &&& forall|q: int| 0 <= q < a.len() && q != p ==> #[trigger] b[q] == a[q]
}

/// Only the item at `k` differs between `a` and `b`.
pub open spec fn only_item_changed(a: Seq<ArrangerItem>, b: Seq<ArrangerItem>, k: int) -> bool {
    &&& b.len() == a.len()
    &&& forall|q: int| 0 <= q < a.len() && q != k ==> #[trigger] b[q] == a[q]
}

impl<T> Project<T> {
    /// Renames the item at `idx` (a single item's pattern, or the group) to `name` with
    /// its surrounding white space removed; a name that is only white space changes
    /// nothing.
    pub fn rename_item(&mut self, idx: usize, name: &str)
        requires
            idx < old(self).arranger@.len(),
            old(self).arranger@[idx as int] matches ArrangerItem::Single { pattern_idx }
                ==> pattern_idx < old(self).patterns@.len(),
        ensures
            final(self).same_settings(*old(self)),
            final(self).current_item_idx == old(self).current_item_idx,
            final(self).current_sub_pattern_idx == old(self).current_sub_pattern_idx,
            ({
                let t = trim_ws(name@);
                let a = old(self).arranger@;
                if t.len() == 0 {
                    final(self).arranger@ == old(self).arranger@ && final(self).patterns@
                        == old(self).patterns@
                } else {
                    match a[idx as int] {
                        ArrangerItem::Single { pattern_idx } => {
                            &&& final(self).arranger@ == old(self).arranger@
                            &&& only_pattern_changed(
                                old(self).patterns@,
                                final(self).patterns@,
                                pattern_idx as int,
                            )
                            &&& renamed(
                                old(self).patterns@[pattern_idx as int],
                                final(self).patterns@[pattern_idx as int],
                                t,
                            )
                        },
                        ArrangerItem::Group { color, repeat, collapsed, .. } => {
                            &&& final(self).patterns@ == old(self).patterns@
                            &&& only_item_changed(a, final(self).arranger@, idx as int)
                            &&& group_with(
                                a[idx as int],
                                final(self).arranger@[idx as int],
                                t,
                                color,
                                repeat,
                                collapsed,
                            )
                        },
                    }
                }
            }),
    {
        let trimmed = trim(name);
        if trimmed.unicode_len() == 0 {
            return ;
        }
        let pi = match &mut self.arranger[idx] {
            ArrangerItem::Single { pattern_idx } => *pattern_idx,
            ArrangerItem::Group { name, .. } => {
                *name = trimmed;
                return ;
            },
        };
        self.patterns[pi].name = trimmed;
    }

    /// Sets the color of the item at `idx`: a single item's pattern's, or the group's.
    pub fn set_item_color(&mut self, idx: usize, color: Option<PatternColor>)
        requires
            idx < old(self).arranger@.len(),
            old(self).arranger@[idx as int] matches ArrangerItem::Single { pattern_idx }
                ==> pattern_idx < old(self).patterns@.len(),
        ensures
            final(self).same_settings(*old(self)),
            final(self).current_item_idx == old(self).current_item_idx,
            final(self).current_sub_pattern_idx == old(self).current_sub_pattern_idx,
            ({
                let a = old(self).arranger@;
                match a[idx as int] {
                    ArrangerItem::Single { pattern_idx } => {
                        &&& final(self).arranger@ == old(self).arranger@
                        &&& only_pattern_changed(
                            old(self).patterns@,
                            final(self).patterns@,
                            pattern_idx as int,
                        )
                        &&& recolored(
                            old(self).patterns@[pattern_idx as int],
                            final(self).patterns@[pattern_idx as int],
                            color,
                        )
                    },
                    ArrangerItem::Group { name, repeat, collapsed, .. } => {
                        &&& final(self).patterns@ == old(self).patterns@
                        &&& only_item_changed(a, final(self).arranger@, idx as int)
                        &&& group_with(
                            a[idx as int],
                            final(self).arranger@[idx as int],
                            name@,
                            color,
                            repeat,
                            collapsed,
                        )
                    },
                }
            }),
    {
        let pi = match &mut self.arranger[idx] {
            ArrangerItem::Single { pattern_idx } => *pattern_idx,
            ArrangerItem::Group { color: c, .. } => {
                *c = color;
                return ;
            },
        };
        self.patterns[pi].color = color;
    }

    /// Sets how often the group at `idx` plays; nothing changes for a single item.
    pub fn set_group_repeat(&mut self, idx: usize, repeat: u16)
        requires
            idx < old(self).arranger@.len(),
        ensures
            final(self).same_but_arranger(*old(self)),
            final(self).current_item_idx == old(self).current_item_idx,
            final(self).current_sub_pattern_idx == old(self).current_sub_pattern_idx,
            ({
                let a = old(self).arranger@;
                match a[idx as int] {
                    ArrangerItem::Single { .. } => final(self).arranger@ == old(self).arranger@,
                    ArrangerItem::Group { name, color, collapsed, .. } => {
                        &&& only_item_changed(a, final(self).arranger@, idx as int)
                        &&& group_with(
                            a[idx as int],
                            final(self).arranger@[idx as int],
                            name@,
                            color,
                            repeat,
                            collapsed,
                        )
                    },
                }
            }),
    {
        match &mut self.arranger[idx] {
            ArrangerItem::Group { repeat: r, .. } => {
                *r = repeat;
            },
            ArrangerItem::Single { .. } => {},
        }
    }

    /// Folds or unfolds the group at `idx` in the arranger view; nothing changes for a
    /// single item.
    pub fn toggle_collapse(&mut self, idx: usize)
        requires
            idx < old(self).arranger@.len(),
        ensures
            final(self).same_but_arranger(*old(self)),
            final(self).current_item_idx == old(self).current_item_idx,
            final(self).current_sub_pattern_idx == old(self).current_sub_pattern_idx,
            ({
                let a = old(self).arranger@;
                match a[idx as int] {
                    ArrangerItem::Single { .. } => final(self).arranger@ == old(self).arranger@,
                    ArrangerItem::Group { name, color, repeat, collapsed, .. } => {
                        &&& only_item_changed(a, final(self).arranger@, idx as int)
                        &&& group_with(
                            a[idx as int],
                            final(self).arranger@[idx as int],
                            name@,
                            color,
                            repeat,
                            !collapsed,
                        )
                    },
                }
            }),
    {
        match &mut self.arranger[idx] {
            ArrangerItem::Group { collapsed, .. } => {
                *collapsed = !*collapsed;
            },
            ArrangerItem::Single { .. } => {},
        }
    }

    /// In the group at `group_idx`, puts the pattern at `sub_idx` a second time right
    /// after itself; nothing changes for a single item.
    pub fn sub_clone(&mut self, group_idx: usize, sub_idx: usize)
        requires
            group_idx < old(self).arranger@.len(),
            is_group(old(self).arranger@[group_idx as int]) ==> sub_idx < item_indices(
                old(self).arranger@[group_idx as int],
            ).len(),
        ensures
            old(self).indices_valid() ==> final(self).indices_valid(),
            final(self).same_but_arranger(*old(self)),
            final(self).current_item_idx == old(self).current_item_idx,
            final(self).current_sub_pattern_idx == old(self).current_sub_pattern_idx,
            ({
                let a = old(self).arranger@;
                let ind = item_indices(a[group_idx as int]);
                if is_group(a[group_idx as int]) {
                    changed_at(
                        a,
                        final(self).arranger@,
                        group_idx as int,
                        ind.insert(sub_idx + 1, ind[sub_idx as int]),
                    )
                } else {
                    final(self).arranger@ == old(self).arranger@
                }
            }),
    {
        let ghost a = self.arranger@;
        match &mut self.arranger[group_idx] {
            ArrangerItem::Group { pattern_indices, .. } => {
                let pi = pattern_indices[sub_idx];
                let len = pattern_indices.len();
                assert(sub_idx < len);
                pattern_indices.insert(sub_idx + 1, pi);
            },
            ArrangerItem::Single { .. } => {},
        }
        proof {
            let n = self.patterns@.len();
            if old(self).indices_valid() && is_group(a[group_idx as int]) {
                let ind = item_indices(a[group_idx as int]);
                lemma_item_below(a, group_idx as int, n);
                lemma_insert_seq_below(ind, sub_idx + 1, ind[sub_idx as int], n);
                lemma_changed_below(a, self.arranger@, group_idx as int, ind.insert(sub_idx + 1, ind[sub_idx as int]), n);
            }
        }
    }

    /// Removes the pattern at `sub_idx` from the group at `group_idx`, unless it is the
    /// group's only pattern; nothing changes for a single item.
    pub fn sub_delete(&mut self, group_idx: usize, sub_idx: usize)
        requires
            group_idx < old(self).arranger@.len(),
            is_group(old(self).arranger@[group_idx as int]) && item_indices(
                old(self).arranger@[group_idx as int],
            ).len() > 1 ==> sub_idx < item_indices(old(self).arranger@[group_idx as int]).len(),
        ensures
            old(self).indices_valid() ==> final(self).indices_valid(),
            final(self).same_but_arranger(*old(self)),
            final(self).current_item_idx == old(self).current_item_idx,
            final(self).current_sub_pattern_idx == old(self).current_sub_pattern_idx,
            ({
                let a = old(self).arranger@;
                let ind = item_indices(a[group_idx as int]);
                if is_group(a[group_idx as int]) && ind.len() > 1 {
                    changed_at(a, final(self).arranger@, group_idx as int, ind.remove(sub_idx as int))
                } else {
                    final(self).arranger@ == old(self).arranger@
                }
            }),
    {
        let ghost a = self.arranger@;
        match &mut self.arranger[group_idx] {
            ArrangerItem::Group { pattern_indices, .. } => {
                if pattern_indices.len() > 1 {
                    pattern_indices.remove(sub_idx);
                }
            },
            ArrangerItem::Single { .. } => {},
        }
        proof {
            let n = self.patterns@.len();
            let ind = item_indices(a[group_idx as int]);
            if old(self).indices_valid() && is_group(a[group_idx as int]) && ind.len() > 1 {
                lemma_item_below(a, group_idx as int, n);
                lemma_remove_seq_below(ind, sub_idx as int, n);
                lemma_changed_below(a, self.arranger@, group_idx as int, ind.remove(sub_idx as int), n);
            }
        }
    }

    /// In the group at `group_idx`, puts a copy of the pattern at `sub_idx`, under the
    /// next name in its series and added at the end of the patterns, right after it;
    /// nothing changes for a single item.
    pub fn sub_duplicate(&mut self, group_idx: usize, sub_idx: usize)
        requires
            group_idx < old(self).arranger@.len(),
            old(self).indices_valid(),
            is_group(old(self).arranger@[group_idx as int]) ==> {
                let ind = item_indices(old(self).arranger@[group_idx as int]);
                &&& sub_idx < ind.len()
                &&& series_name_ok(old(self).patterns@[ind[sub_idx as int] as int].name@)
                &&& old(self).patterns@.len() < usize::MAX
            },
        ensures
            final(self).indices_valid(),
            final(self).same_settings(*old(self)),
            final(self).current_item_idx == old(self).current_item_idx,
            final(self).current_sub_pattern_idx == old(self).current_sub_pattern_idx,
            ({
                let a = old(self).arranger@;
                let ind = item_indices(a[group_idx as int]);
                let n = old(self).patterns@.len();
                if is_group(a[group_idx as int]) {
                    &&& final(self).patterns@.len() == n + 1
                    &&& final(self).patterns@.take(n as int) == old(self).patterns@
                    &&& renamed_copy(final(self).patterns@[n as int], old(self).patterns@[ind[sub_idx as int] as int])
                    &&& changed_at(a, final(self).arranger@, group_idx as int, ind.insert(sub_idx + 1, n as usize))
                } else {
                    final(self).arranger@ == old(self).arranger@ && final(self).patterns@ == old(self).patterns@
                }
            }),
    {
        let ghost a = self.arranger@;
        let ghost before = self.patterns@;
        let pi = match &self.arranger[group_idx] {
            ArrangerItem::Group { pattern_indices, .. } => pattern_indices[sub_idx],
            ArrangerItem::Single { .. } => {
                return ;
            },
        };
        assert(item_indices(a[group_idx as int])[sub_idx as int] < before.len());
        let new_pat = copy_renamed(&self.patterns[pi]);
        let new_idx = self.patterns.len();
        self.patterns.push(new_pat);
        match &mut self.arranger[group_idx] {
            ArrangerItem::Group { pattern_indices, .. } => {
                let len = pattern_indices.len();
                assert(sub_idx < len);
                pattern_indices.insert(sub_idx + 1, new_idx);
            },
            ArrangerItem::Single { .. } => {},
        }
        proof {
            assert(self.patterns@.take(new_idx as int) =~= before);
            let n = self.patterns@.len();
            let ind = item_indices(a[group_idx as int]);
            assert(refs_below(a, n)) by {
                assert forall|i: int, j: int|
                    0 <= i < a.len() && 0 <= j < item_indices(a[i]).len() implies #[trigger] item_indices(
                    a[i],
                )[j] < n by {
                    assert(item_indices(a[i])[j] < before.len());
                }
            }
            lemma_item_below(a, group_idx as int, n);
            lemma_insert_seq_below(ind, sub_idx + 1, new_idx, n);
            lemma_changed_below(a, self.arranger@, group_idx as int, ind.insert(sub_idx + 1, new_idx), n);
        }
    }

    /// Adds a new pattern after the others, named by `next_pattern_name`, with the
    /// settings and track count of the pattern the editor shows and empty tracks (see
    /// `Pattern::new_from`); a single item for it is added at the end of the arranger and
    /// becomes the current item.
    pub fn add_pattern(&mut self)
        requires
            old(self).has_current(),
            old(self).current_pattern_idx_spec() < old(self).patterns@.len(),
            old(self).patterns@[old(self).current_pattern_idx_spec() as int].time_sig_denominator > 0,
            old(self).patterns@.len() < usize::MAX,
        ensures
            old(self).indices_valid() ==> final(self).indices_valid(),
            final(self).same_settings(*old(self)),
            final(self).current_sub_pattern_idx == old(self).current_sub_pattern_idx,
            ({
                let n = old(self).patterns@.len();
                let src = old(self).patterns@[old(self).current_pattern_idx_spec() as int];
                let p = final(self).patterns@[n as int];
                &&& final(self).patterns@.len() == n + 1
                &&& final(self).patterns@.take(n as int) == old(self).patterns@
                &&& p.name@ == "Pattern "@ + zero_padded(n + 1, 2)
                &&& p.color == src.color
                &&& p.repeat == src.repeat
                &&& p.bpm == src.bpm
                &&& p.time_sig_numerator == src.time_sig_numerator
                &&& p.time_sig_denominator == src.time_sig_denominator
                &&& p.note_value == src.note_value
                &&& p.measures == src.measures
                &&& p.grid().len() == src.data@.len()
                &&& forall|c: int|
                    0 <= c < src.data@.len() ==> #[trigger] p.grid()[c] == seq![
                        crate::project::pattern::empty_column(p.rows_for_track(c)),
                    ]
                &&& final(self).arranger@ == old(self).arranger@.push(ArrangerItem::Single { pattern_idx: n as usize })
                &&& final(self).current_item_idx == old(self).arranger@.len()
            }),
    {
        let name = self.next_pattern_name();
        let ghost before = self.patterns@;
        let current = self.current_pattern();
        let channels = current.data.len();
        let new_pat = Pattern::new_from(current, name, channels);
        let new_idx = self.patterns.len();
        self.patterns.push(new_pat);
        self.arranger.push(ArrangerItem::Single { pattern_idx: new_idx });
        self.current_item_idx = self.arranger.len() - 1;
        proof {
            assert(self.patterns@.take(new_idx as int) =~= before);
            let n = self.patterns@.len();
            if old(self).indices_valid() {
                let b = self.arranger@;
                assert forall|i: int, j: int|
                    0 <= i < b.len() && 0 <= j < item_indices(b[i]).len() implies #[trigger] item_indices(
                    b[i],
                )[j] < n by {
                    if i < b.len() - 1 {
                        assert(b[i] == old(self).arranger@[i]);
                        assert(item_indices(old(self).arranger@[i])[j] < before.len());
                    }
                }
            }
        }
    }
}

/// `b` is the group `a` with clone id `id`, all else the same.
pub open spec fn with_clone_id(a: ArrangerItem, b: ArrangerItem, id: u64) -> bool {
    match (a, b) {
        (
            ArrangerItem::Group {
                name: n1,
                color: c1,
                repeat: r1,
                pattern_indices: p1,
                collapsed: k1,
                ..
            },
            ArrangerItem::Group {
                name: n2,
                color: c2,
                repeat: r2,
                pattern_indices: p2,
                clone_id: i2,
                collapsed: k2,
            },
        ) => n1@ == n2@ && c1 == c2 && r1 == r2 && p1@ == p2@ && i2 == Some(id) && k1 == k2,
        _ => false,
    }
}

/// Every entry of the list is below `n`.
pub open spec fn all_below(s: Seq<usize>, n: nat) -> bool {
    forall|j: int| 0 <= j < s.len() ==> #[trigger] s[j] < n
}

/// Moving an entry keeps the entries.
proof fn lemma_moved_below(s: Seq<usize>, from: int, to: int, n: nat)
    requires
        all_below(s, n),
        0 <= from < s.len(),
        0 <= to < s.len(),
    ensures
        all_below(moved(s, from, to), n),
{
    let r = s.remove(from);
    assert(all_below(r, n)) by {
        assert forall|j: int| 0 <= j < r.len() implies #[trigger] r[j] < n by {
            if j < from {
                assert(r[j] == s[j]);
            } else {
                assert(r[j] == s[j + 1]);
            }
        }
    }
    let m = r.insert(to, s[from]);
    assert forall|j: int| 0 <= j < m.len() implies #[trigger] m[j] < n by {
        if j < to {
            assert(m[j] == r[j]);
        } else if j > to {
            assert(m[j] == r[j - 1]);
        }
    }
}

/// Changing one item's pattern indices to indices below `n` keeps all of them below `n`.
proof fn lemma_changed_below(a: Seq<ArrangerItem>, b: Seq<ArrangerItem>, k: int, ind: Seq<usize>, n: nat)
    requires
        refs_below(a, n),
        0 <= k < a.len(),
        changed_at(a, b, k, ind),
        all_below(ind, n),
    ensures
        refs_below(b, n),
{
    assert forall|i: int, j: int|
        0 <= i < b.len() && 0 <= j < item_indices(b[i]).len() implies #[trigger] item_indices(b[i])[j]
        < n by {
        if i == k {
            assert(item_indices(b[k]) == ind);
        } else {
            assert(b[i] == a[i]);
        }
    }
}

/// Removing an item keeps the others' indices below `n`.
proof fn lemma_remove_below(a: Seq<ArrangerItem>, k: int, n: nat)
    requires
        refs_below(a, n),
        0 <= k < a.len(),
    ensures
        refs_below(a.remove(k), n),
{
    let r = a.remove(k);
    assert forall|i: int, j: int|
        0 <= i < r.len() && 0 <= j < item_indices(r[i]).len() implies #[trigger] item_indices(r[i])[j]
        < n by {
        if i < k {
            assert(r[i] == a[i]);
        } else {
            assert(r[i] == a[i + 1]);
        }
    }
}

/// Dropping items keeps the others' indices below `n`.
proof fn lemma_without_below(a: Seq<ArrangerItem>, m: Seq<bool>, n: nat)
    requires
        refs_below(a, n),
        m.len() == a.len(),
    ensures
        refs_below(without(a, m), n),
    decreases a.len(),
{
    if a.len() > 0 {
        let t = a.drop_first();
        assert(refs_below(t, n)) by {
            assert forall|i: int, j: int|
                0 <= i < t.len() && 0 <= j < item_indices(t[i]).len() implies #[trigger] item_indices(
                t[i],
            )[j] < n by {
                assert(t[i] == a[i + 1]);
            }
        }
        lemma_without_below(t, m.drop_first(), n);
        let w = without(a, m);
        let head: Seq<ArrangerItem> = if m[0] {
            Seq::empty()
        } else {
            seq![a[0]]
        };
        assert(w == head + without(t, m.drop_first()));
        assert forall|i: int, j: int|
            0 <= i < w.len() && 0 <= j < item_indices(w[i]).len() implies #[trigger] item_indices(
            w[i],
        )[j] < n by {
            if i < head.len() {
                assert(w[i] == a[0]);
            } else {
                assert(w[i] == without(t, m.drop_first())[i - head.len()]);
            }
        }
    }
}

/// The patterns gathered from some items are below `n` when the items' are.
proof fn lemma_gathered_below(a: Seq<ArrangerItem>, sel: Seq<bool>, n: nat)
    requires
        refs_below(a, n),
        sel.len() >= a.len(),
    ensures
        all_below(gathered(a, sel), n),
    decreases a.len(),
{
    if a.len() > 0 {
        let d = a.drop_last();
        assert(refs_below(d, n)) by {
            assert forall|i: int, j: int|
                0 <= i < d.len() && 0 <= j < item_indices(d[i]).len() implies #[trigger] item_indices(
                d[i],
            )[j] < n by {
                assert(d[i] == a[i]);
            }
        }
        lemma_gathered_below(d, sel, n);
        let g = gathered(d, sel);
        let tail = if sel[a.len() - 1] {
            item_indices(a.last())
        } else {
            Seq::empty()
        };
        assert forall|j: int| 0 <= j < gathered(a, sel).len() implies #[trigger] gathered(a, sel)[j]
            < n by {
            assert(gathered(a, sel) == g + tail);
            if j >= g.len() {
                assert(item_indices(a[a.len() - 1])[j - g.len()] < n);
            }
        }
    }
}

/// Removing an entry keeps the others below `n`.
proof fn lemma_remove_seq_below(s: Seq<usize>, k: int, n: nat)
    requires
        all_below(s, n),
        0 <= k < s.len(),
    ensures
        all_below(s.remove(k), n),
{
    let r = s.remove(k);
    assert forall|j: int| 0 <= j < r.len() implies #[trigger] r[j] < n by {
        if j < k {
            assert(r[j] == s[j]);
        } else {
            assert(r[j] == s[j + 1]);
        }
    }
}

/// Inserting an entry below `n` keeps all entries below `n`.
proof fn lemma_insert_seq_below(s: Seq<usize>, k: int, x: usize, n: nat)
    requires
        all_below(s, n),
        0 <= k <= s.len(),
        x < n,
    ensures
        all_below(s.insert(k, x), n),
{
    let r = s.insert(k, x);
    assert forall|j: int| 0 <= j < r.len() implies #[trigger] r[j] < n by {
        if j < k {
            assert(r[j] == s[j]);
        } else if j > k {
            assert(r[j] == s[j - 1]);
        }
    }
}

/// The pattern indices of item `i` are below `n` when all items' are.
proof fn lemma_item_below(a: Seq<ArrangerItem>, i: int, n: nat)
    requires
        refs_below(a, n),
        0 <= i < a.len(),
    ensures
        all_below(item_indices(a[i]), n),
{
    assert forall|j: int| 0 <= j < item_indices(a[i]).len() implies #[trigger] item_indices(a[i])[j]
        < n by {
        assert(item_indices(a[i])[j] < n);
    }
}

/// An arranger with an item at `pos`, whose indices are below `n`, and whose other items'
/// indices are below `n`, has all its indices below `n`.
proof fn lemma_reinsert_below(c: Seq<ArrangerItem>, pos: int, n: nat)
    requires
        0 <= pos < c.len(),
        refs_below(c.remove(pos), n),
        all_below(item_indices(c[pos]), n),
    ensures
        refs_below(c, n),
{
    let r = c.remove(pos);
    assert forall|i: int, j: int|
        0 <= i < c.len() && 0 <= j < item_indices(c[i]).len() implies #[trigger] item_indices(c[i])[j]
        < n by {
        if i < pos {
            assert(c[i] == r[i]);
        } else if i > pos {
            assert(c[i] == r[i - 1]);
        }
    }
}

/// Law: deleting an item keeps every other item's patterns: each pattern index of a
/// remaining item still names a pattern, the same one as before the deletion.
pub proof fn lemma_delete_keeps_references<T>(before: Project<T>, after: Project<T>, i: int)
    requires
        before.indices_valid(),
        0 <= i < before.arranger@.len(),
        deleted_from(before, after, i),
    ensures
        after.indices_valid(),
        forall|k: int, j: int|
            0 <= k < after.arranger@.len() && 0 <= j < item_indices(after.arranger@[k]).len()
                ==> after.patterns@[item_indices(after.arranger@[k])[j] as int]
                == before.patterns@[#[trigger] item_indices(before.arranger@.remove(i)[k])[j] as int],
{
    assert forall|k: int, j: int|
        0 <= k < after.arranger@.len() && 0 <= j < item_indices(after.arranger@[k]).len() implies after.patterns@[item_indices(after.arranger@[k])[j] as int]
        == before.patterns@[#[trigger] item_indices(before.arranger@.remove(i)[k])[j] as int] by {
        lemma_delete_ref(before, after, i, k, j);
    }
    assert forall|k: int, j: int|
        0 <= k < after.arranger@.len() && 0 <= j < item_indices(after.arranger@[k]).len() implies #[trigger] item_indices(
        after.arranger@[k],
    )[j] < after.patterns@.len() by {
        lemma_delete_ref(before, after, i, k, j);
    }
}

/// Law: moving an item keeps the current item the current item: the item at the new
/// current index is the one that was current before.
pub proof fn lemma_reorder_keeps_current<A>(s: Seq<A>, cur: int, from: int, to: int)
    requires
        0 <= cur < s.len(),
        0 <= from < s.len(),
        0 <= to < s.len(),
    ensures
        0 <= moved_index(cur, from, to) < s.len(),
        moved(s, from, to)[moved_index(cur, from, to)] == s[cur],
{
}

/// Law: moving an item keeps the arranger's items, only their order changes.
pub proof fn lemma_reorder_keeps_items<A>(s: Seq<A>, from: int, to: int)
    requires
        0 <= from < s.len(),
        0 <= to < s.len(),
    ensures
        moved(s, from, to).to_multiset() == s.to_multiset(),
{
    broadcast use vstd::seq_lib::group_to_multiset_ensures;

    let r = s.remove(from);
    assert(s =~= s.take(from) + s.skip(from));
    assert(s.skip(from) =~= seq![s[from]] + s.skip(from + 1));
    assert(r =~= s.take(from) + s.skip(from + 1));
    vstd::seq_lib::lemma_multiset_commutative(s.take(from), s.skip(from));
    vstd::seq_lib::lemma_multiset_commutative(seq![s[from]], s.skip(from + 1));
    vstd::seq_lib::lemma_multiset_commutative(s.take(from), s.skip(from + 1));
    let m = r.insert(to, s[from]);
    assert(m =~= r.take(to) + seq![s[from]] + r.skip(to));
    assert(r =~= r.take(to) + r.skip(to));
    vstd::seq_lib::lemma_multiset_commutative(r.take(to), r.skip(to));
    vstd::seq_lib::lemma_multiset_commutative(r.take(to) + seq![s[from]], r.skip(to));
    vstd::seq_lib::lemma_multiset_commutative(r.take(to), seq![s[from]]);
}

impl<T> Project<T> {
    /// Replaces the group at `item_idx` by its patterns, each as a single item, in order;
    /// a current index past the end moves to the last item. Nothing changes when the item
    /// is a single pattern.
    pub fn ungroup(&mut self, item_idx: usize)
        requires
            item_idx < old(self).arranger@.len(),
            old(self).arranger@.len() == 1 && is_group(old(self).arranger@[item_idx as int])
                ==> item_indices(old(self).arranger@[item_idx as int]).len() > 0,
        ensures
            old(self).indices_valid() ==> final(self).indices_valid(),
            final(self).same_but_arranger(*old(self)),
            final(self).current_sub_pattern_idx == old(self).current_sub_pattern_idx,
            if is_group(old(self).arranger@[item_idx as int]) {
                &&& final(self).arranger@ == ungrouped(old(self).arranger@, item_idx as int)
                &&& final(self).current_item_idx == clamped(
                    old(self).current_item_idx as int,
                    final(self).arranger@.len() as int,
                )
            } else {
                &&& final(self).arranger@ == old(self).arranger@
                &&& final(self).current_item_idx == old(self).current_item_idx
            },
    {
        let indices = match &self.arranger[item_idx] {
            ArrangerItem::Group { pattern_indices, .. } => pattern_indices.clone(),
            ArrangerItem::Single { .. } => {
                return ;
            },
        };
        let ghost a = self.arranger@;
        assert(indices@ == item_indices(a[item_idx as int]));
        self.arranger.remove(item_idx);
        let mut off: usize = 0;
        assert(self.arranger@ =~= a.take(item_idx as int) + singles(indices@.take(0))
            + a.skip(item_idx + 1));
        while off < indices.len()
            invariant
                off <= indices@.len(),
                item_idx < a.len(),
                self.same_but_arranger(*old(self)),
                self.current_item_idx == old(self).current_item_idx,
                self.current_sub_pattern_idx == old(self).current_sub_pattern_idx,
                self.arranger@ == a.take(item_idx as int) + singles(indices@.take(off as int))
                    + a.skip(item_idx + 1),
            decreases indices@.len() - off,
        {
            let len = self.arranger.len();
            assert(item_idx + off <= len);
            self.arranger.insert(item_idx + off, ArrangerItem::Single { pattern_idx: indices[off] });
            off = off + 1;
            assert(self.arranger@ =~= a.take(item_idx as int) + singles(indices@.take(off as int))
                + a.skip(item_idx + 1));
        }
        assert(indices@.take(indices@.len() as int) =~= indices@);
        if self.current_item_idx >= self.arranger.len() {
            self.current_item_idx = self.arranger.len() - 1;
        }
    }
}

/// Law: ungrouping a group that plays once leaves the song's play order as it was.
pub proof fn lemma_ungroup_keeps_play_order<T>(before: Project<T>, after: Project<T>, i: int)
    requires
        0 <= i < before.arranger@.len(),
        before.arranger@[i] matches ArrangerItem::Group { repeat, .. } && repeat <= 1,
        after.patterns == before.patterns,
        after.arranger@ == ungrouped(before.arranger@, i),
    ensures
        after.flat_order_spec() == before.flat_order_spec(),
{
    let a = before.arranger@;
    let ind = item_indices(a[i]);
    before.lemma_flat_order_split(i);
    let pass = before.pass_of(ind);
    assert(repeat_seq(pass, 1) =~= pass) by {
        assert(repeat_seq(pass, 0) =~= Seq::<usize>::empty());
    }
    assert(before.item_order(a[i]) == pass);
    let b = after.arranger@;
    after.lemma_order_upto_items(b.len());
    assert(b.take(b.len() as int) =~= b);
    after.lemma_items_order_concat(a.take(i) + singles(ind), a.skip(i + 1));
    after.lemma_items_order_concat(a.take(i), singles(ind));
    after.lemma_items_order_singles(ind);
    assert(singles(ind) =~= Seq::new(
        ind.len(),
        |k: int| ArrangerItem::Single { pattern_idx: ind[k] },
    ));
    after.lemma_pass_of_patterns(before, ind);
    after.lemma_items_order_patterns(before, a.take(i));
    after.lemma_items_order_patterns(before, a.skip(i + 1));
}

impl<T> Project<T> {
    /// Puts the items at the given positions (taken once each, in arranger order) into a
    /// new group "Group N", where N is one more than the number of groups; the group
    /// holds their patterns in arranger order, plays once, has a random color, and takes
    /// the place of the first of them; it becomes the current item. Nothing changes when
    /// fewer than two positions are given.
    pub fn group_items(&mut self, indices: &[usize])
        requires
            indices@.len() >= 2 ==> forall|k: int|
                0 <= k < indices@.len() ==> #[trigger] indices@[k] < old(self).arranger@.len(),
            old(self).arranger@.len() < usize::MAX,
        ensures
            old(self).indices_valid() ==> final(self).indices_valid(),
            final(self).same_but_arranger(*old(self)),
            final(self).current_sub_pattern_idx == old(self).current_sub_pattern_idx,
            indices@.len() < 2 ==> final(self).arranger@ == old(self).arranger@
                && final(self).current_item_idx == old(self).current_item_idx,
            indices@.len() >= 2 ==> {
                let a = old(self).arranger@;
                let pos = grouping_pos(a, indices@);
                &&& final(self).current_item_idx == pos
                &&& grouped_from(a, indices@, final(self).arranger@)
                &&& final(self).arranger@[pos] matches ArrangerItem::Group {
                    name,
                    color,
                    repeat,
                    clone_id,
                    collapsed,
                    ..
                }
                &&& name@ == "Group "@ + crate::text::decimal(group_count(a) + 1)
                &&& color is Some
                &&& repeat == 1
                &&& clone_id is None
                &&& !collapsed
            },
    {
        if indices.len() < 2 {
            return ;
        }
        let n = self.arranger.len();
        let ghost a = self.arranger@;
        let ghost sel_spec = selection(a.len(), indices@);
        let mut sel: Vec<bool> = Vec::new();
        let mut pattern_indices: Vec<usize> = Vec::new();
        let mut groups: usize = 0;
        let mut i: usize = 0;
        while i < n
            invariant
                i <= n,
                n == a.len(),
                self.arranger@ == a,
                sel_spec == selection(a.len(), indices@),
                sel@ == sel_spec.take(i as int),
                pattern_indices@ == gathered(a.take(i as int), sel_spec),
                groups == group_count(a.take(i as int)),
                groups <= i,
            decreases n - i,
        {
            let s = contains_index(indices, i);
            if s {
                let mut ind = self.arranger[i].pattern_indices();
                pattern_indices.append(&mut ind);
            }
            let g = match &self.arranger[i] {
                ArrangerItem::Group { .. } => true,
                ArrangerItem::Single { .. } => false,
            };
            if g {
                groups = groups + 1;
            }
            sel.push(s);
            assert(a.take(i + 1).drop_last() =~= a.take(i as int));
            assert(a.take(i + 1).last() == a[i as int]);
            assert(sel_spec[i as int] == s);
            i = i + 1;
            assert(sel@ =~= sel_spec.take(i as int));
            assert(pattern_indices@ =~= gathered(a.take(i as int), sel_spec));
        }
        assert(a.take(n as int) =~= a);
        let insert_pos = least_of(indices);
        assert(sel@ =~= sel_spec);
        remove_flagged(&mut self.arranger, &sel);
        let mut name = String::from_str("Group ");
        crate::text::push_decimal(&mut name, (groups + 1) as u64);
        let group = ArrangerItem::Group {
            name,
            color: Some(PatternColor::random()),
            repeat: 1,
            pattern_indices,
            clone_id: None,
            collapsed: false,
        };
        let pos = if insert_pos < self.arranger.len() {
            insert_pos
        } else {
            self.arranger.len()
        };
        self.arranger.insert(pos, group);
        self.current_item_idx = pos;
        proof {
            reveal_strlit("Group ");
            assert(self.arranger@.remove(pos as int) =~= without(a, sel_spec));
            let n = self.patterns@.len();
            if old(self).indices_valid() {
                lemma_without_below(a, sel_spec, n);
                lemma_gathered_below(a, sel_spec, n);
                let w = without(a, sel_spec);
                let b = self.arranger@;
                assert forall|i: int, j: int|
                    0 <= i < b.len() && 0 <= j < item_indices(b[i]).len() implies #[trigger] item_indices(
                    b[i],
                )[j] < n by {
                    if i < pos {
                        assert(b[i] == w[i]);
                    } else if i > pos {
                        assert(b[i] == w[i - 1]);
                    } else {
                        assert(item_indices(b[i]) == gathered(a, sel_spec));
                    }
                }
            }
        }
    }
}

/// The smallest entry of a list is in it and is no larger than any of its entries.
pub proof fn lemma_least(s: Seq<usize>)
    requires
        s.len() >= 1,
    ensures
        s.contains(least(s)),
        forall|k: int| 0 <= k < s.len() ==> least(s) <= #[trigger] s[k],
    decreases s.len(),
{
    if s.len() > 1 {
        let d = s.drop_last();
        lemma_least(d);
        let w = choose|k: int| 0 <= k < d.len() && d[k] == least(d);
        assert(s[w] == least(d));
        assert(s[s.len() - 1] == s.last());
        assert forall|k: int| 0 <= k < s.len() implies least(s) <= #[trigger] s[k] by {
            if k < s.len() - 1 {
                assert(s[k] == d[k]);
            }
        }
    } else {
        assert(s[0] == least(s));
    }
}

/// Dropping a run of positions `lo..hi` leaves what comes before and after it.
pub proof fn lemma_without_run<A>(s: Seq<A>, lo: int, hi: int)
    requires
        lo <= hi <= s.len(),
        0 <= hi,
    ensures
        without(s, Seq::new(s.len(), |j: int| lo <= j < hi)) == s.take(if lo < 0 {
            0
        } else {
            lo
        }) + s.skip(hi),
    decreases s.len(),
{
    let m = Seq::new(s.len(), |j: int| lo <= j < hi);
    if s.len() == 0 {
        assert(s.take(0) + s.skip(hi) =~= Seq::<A>::empty());
    } else {
        let t = s.drop_first();
        let hi2 = if hi > 0 {
            hi - 1
        } else {
            0
        };
        if hi == 0 {
            lemma_without_run(t, -1, 0);
            assert(m.drop_first() =~= Seq::new(t.len(), |j: int| -1 <= j < 0));
            assert(s.take(0) + s.skip(0) =~= s);
            assert(t.take(0) + t.skip(0) =~= t);
            assert(s =~= seq![s[0]] + t);
        } else {
            lemma_without_run(t, lo - 1, hi - 1);
            assert(m.drop_first() =~= Seq::new(t.len(), |j: int| lo - 1 <= j < hi - 1));
            if lo > 0 {
                assert(s.take(lo) + s.skip(hi) =~= seq![s[0]] + (t.take(lo - 1) + t.skip(hi - 1)));
            } else {
                assert(s.take(0) + s.skip(hi) =~= t.take(0) + t.skip(hi - 1));
            }
        }
    }
}

/// The patterns gathered from a run `lo..hi` of single items of a prefix of the arranger.
proof fn lemma_gathered_run(a: Seq<ArrangerItem>, lo: int, hi: int, n: int)
    requires
        0 <= lo < hi <= a.len(),
        0 <= n <= a.len(),
        forall|j: int| lo <= j < hi ==> #[trigger] a[j] is Single,
    ensures
        singles(gathered(a.take(n), Seq::new(a.len(), |j: int| lo <= j < hi))) == a.subrange(
            lo,
            if n < lo {
                lo
            } else if n < hi {
                n
            } else {
                hi
            },
        ),
    decreases n,
{
    let m = Seq::new(a.len(), |j: int| lo <= j < hi);
    let e = if n < lo {
        lo
    } else if n < hi {
        n
    } else {
        hi
    };
    if n == 0 {
        assert(singles(Seq::<usize>::empty()) =~= a.subrange(lo, e));
    } else {
        lemma_gathered_run(a, lo, hi, n - 1);
        let p = a.take(n - 1);
        assert(a.take(n).drop_last() =~= p);
        assert(a.take(n).last() == a[n - 1]);
        let e1 = if n - 1 < lo {
            lo
        } else if n - 1 < hi {
            n - 1
        } else {
            hi
        };
        let g = gathered(p, m);
        if lo <= n - 1 < hi {
            assert(item_indices(a[n - 1]) == seq![a[n - 1]->pattern_idx]);
            assert(singles(g + seq![a[n - 1]->pattern_idx]) =~= singles(g) + seq![a[n - 1]]);
            assert(a.subrange(lo, e) =~= a.subrange(lo, e1) + seq![a[n - 1]]);
        } else {
            assert(g + Seq::<usize>::empty() =~= g);
        }
    }
}

/// Law: grouping a run of single items and then ungrouping the new group gives back the
/// arranger as it was.
pub proof fn lemma_group_then_ungroup(
    a: Seq<ArrangerItem>,
    indices: Seq<usize>,
    b: Seq<ArrangerItem>,
    lo: int,
    hi: int,
)
    requires
        indices.len() >= 2,
        a.len() <= usize::MAX,
        0 <= lo < hi <= a.len(),
        forall|k: int| 0 <= k < indices.len() ==> lo <= #[trigger] indices[k] < hi,
        forall|j: usize| lo <= j < hi ==> #[trigger] indices.contains(j),
        forall|j: int| lo <= j < hi ==> #[trigger] a[j] is Single,
        grouped_from(a, indices, b),
    ensures
        grouping_pos(a, indices) == lo,
        ungrouped(b, lo) == a,
{
    let run = Seq::new(a.len(), |j: int| lo <= j < hi);
    let sel = selection(a.len(), indices);
    assert(sel =~= run) by {
        assert forall|j: int| 0 <= j < a.len() implies sel[j] == run[j] by {
            let ju = j as usize;
            assert(ju == j);
            if indices.contains(ju) {
                let k = choose|k: int| 0 <= k < indices.len() && indices[k] == ju;
                assert(lo <= indices[k] < hi);
            }
            if lo <= j < hi {
                assert(indices.contains(ju));
            }
        }
    }
    lemma_without_run(a, lo, hi);
    let rest = without(a, sel);
    assert(rest == a.take(lo) + a.skip(hi));
    lemma_least(indices);
    assert(indices.contains(lo as usize));
    assert(indices.contains(lo as usize));
    let k0 = choose|k: int| 0 <= k < indices.len() && indices[k] == lo as usize;
    assert(least(indices) <= indices[k0]);
    let w = choose|k: int| 0 <= k < indices.len() && indices[k] == least(indices);
    assert(lo <= indices[w]);
    assert(least(indices) == lo);
    assert(grouping_pos(a, indices) == lo);
    lemma_gathered_run(a, lo, hi, a.len() as int);
    assert(a.take(a.len() as int) =~= a);
    let g = gathered(a, sel);
    assert(singles(g) == a.subrange(lo, hi));
    assert(item_indices(b[lo]) == g);
    assert(b.take(lo) =~= rest.take(lo));
    assert(b.skip(lo + 1) =~= rest.skip(lo));
    assert(rest.take(lo) =~= a.take(lo));
    assert(rest.skip(lo) =~= a.skip(hi));
    assert(ungrouped(b, lo) =~= a);
}

} // verus!
