//! The play order: a list of pattern numbers, one of them current, edited by selecting an
//! entry, pointing it at another pattern, appending an entry and deleting one.
use vstd::prelude::*;

verus! {

/// The entries of the play order and the one being edited.
pub struct OrderList {
    pub entries: Vec<usize>,
    pub current: usize,
}

/// Whether pattern `p` is one of `patterns` that no entry of `order` plays.
pub open spec fn unused(order: Seq<usize>, patterns: nat, p: nat) -> bool {
    p < patterns && !order.contains(p as usize)
}

/// The pattern number a new entry gets: the lowest unused pattern, else `patterns`, the
/// number of a pattern that is appended to the list.
pub open spec fn is_new_entry(order: Seq<usize>, patterns: nat, r: nat) -> bool {
    &&& r <= patterns
    &&& r < patterns ==> unused(order, patterns, r)
    &&& forall|q: nat| q < r ==> !#[trigger] unused(order, patterns, q)
}

/// The entries after pattern `p` has left the list: each number above `p` moves down.
pub open spec fn renumbered_without(s: Seq<usize>, p: usize) -> Seq<usize> {
    s.map_values(|x: usize| if x > p { (x - 1) as usize } else { x })
}

/// The number an entry had before pattern `removed` left the list.
pub open spec fn number_before(x: usize, removed: Option<usize>) -> int {
    match removed {
        Some(p) => if x >= p { x + 1 } else { x as int },
        None => x as int,
    }
}

impl OrderList {
    /// An order with one entry, pattern 0, which is current.
    pub fn new() -> (r: OrderList)
        ensures
            r.entries@ == seq![0usize],
            r.current == 0,
    {
        OrderList { entries: vec![0], current: 0 }
    }

    /// The list is not empty, the current entry is one of it, and each entry names one of
    /// `patterns` patterns.
    pub open spec fn wf(self, patterns: nat) -> bool {
        &&& self.entries.len() >= 1
        &&& self.current < self.entries.len()
        &&& forall|i: int| 0 <= i < self.entries.len() ==> self.entries@[i] < patterns
    }

    /// Makes entry `i` the current one.
    pub fn select(&mut self, i: usize)
        requires
            i < old(self).entries.len(),
        ensures
            final(self).entries@ == old(self).entries@,
            final(self).current == i,
    {
        self.current = i;
    }

    /// Points entry `i` at pattern `p`.
    pub fn set_pattern(&mut self, i: usize, p: usize)
        requires
            i < old(self).entries.len(),
        ensures
            final(self).entries@ == old(self).entries@.update(i as int, p),
            final(self).current == old(self).current,
            forall|n: nat| old(self).wf(n) && p < n ==> #[trigger] final(self).wf(n),
    {
        self.entries.set(i, p);
    }

    /// Whether some entry plays pattern `p`.
    pub fn plays(&self, p: usize) -> (r: bool)
        ensures
            r == self.entries@.contains(p),
    {
        let mut i: usize = 0;
        while i < self.entries.len()
            invariant
                i <= self.entries.len(),
                forall|j: int| 0 <= j < i ==> self.entries@[j] != p,
            decreases self.entries.len() - i,
        {
            if self.entries[i] == p {
                assert(self.entries@[i as int] == p);
                return true;
            }
            i += 1;
        }
        false
    }

    /// The lowest of `patterns` patterns that no entry plays, if there is one.
    pub fn first_unused(&self, patterns: usize) -> (r: Option<usize>)
        ensures
            match r {
                Some(p) => is_new_entry(self.entries@, patterns as nat, p as nat) && p
                    < patterns,
                None => is_new_entry(self.entries@, patterns as nat, patterns as nat),
            },
    {
        let mut p: usize = 0;
        while p < patterns
            invariant
                p <= patterns,
                forall|q: nat| q < p ==> !#[trigger] unused(self.entries@, patterns as nat, q),
            decreases patterns - p,
        {
            if !self.plays(p) {
                return Some(p);
            }
            p += 1;
        }
        None
    }

    /// Appends an entry that plays the lowest unused pattern, or a new pattern numbered
    /// `patterns` when every pattern is played, and makes it current. Returns the pattern
    /// number of the new entry; the caller creates that pattern when it equals `patterns`.
    pub fn add_entry(&mut self, patterns: usize) -> (r: usize)
        ensures
            is_new_entry(old(self).entries@, patterns as nat, r as nat),
            final(self).entries@ == old(self).entries@.push(r),
            final(self).current == old(self).entries.len(),
            old(self).wf(patterns as nat) ==> final(self).wf(
                if r == patterns { (patterns + 1) as nat } else { patterns as nat },
            ),
    {
        let r = match self.first_unused(patterns) {
            Some(p) => p,
            None => patterns,
        };
        let pos = self.entries.len();
        self.entries.push(r);
        self.current = pos;
        proof {
            let n: nat = if r == patterns { (patterns + 1) as nat } else { patterns as nat };
            if old(self).wf(patterns as nat) {
                assert forall|i: int| 0 <= i < self.entries.len() implies self.entries@[i] < n by {
                    if i < pos {
                        assert(self.entries@[i] == old(self).entries@[i]);
                    }
                }
            }
        }
        r
    }

    /// Deletes entry `idx`. When no other entry plays its pattern, that pattern leaves the
    /// list: the entries above it are renumbered down, and its number is returned for the
    /// caller to remove it. The current entry stays, or moves to the last one when it was
    /// past the end.
    pub fn remove_entry(&mut self, idx: usize) -> (r: Option<usize>)
        requires
            idx < old(self).entries.len(),
            old(self).entries.len() >= 2,
        ensures
            ({
                let removed = old(self).entries@[idx as int];
                let rest = old(self).entries@.remove(idx as int);
                &&& r == (if rest.contains(removed) { None } else { Some(removed) })
                &&& final(self).entries@ == (if rest.contains(removed) {
                    rest
                } else {
                    renumbered_without(rest, removed)
                })
                &&& final(self).current == (if old(self).current >= rest.len() {
                    (rest.len() - 1) as usize
                } else {
                    old(self).current
                })
            }),
    {
        let removed = self.entries[idx];
        self.entries.remove(idx);
        if self.current >= self.entries.len() {
            self.current = self.entries.len() - 1;
        }
        if self.plays(removed) {
            None
        } else {
            let ghost rest = self.entries@;
            let ghost cur = self.current;
            let mut i: usize = 0;
            while i < self.entries.len()
                invariant
                    self.current == cur,
                    self.entries.len() == rest.len(),
                    i <= rest.len(),
                    forall|j: int|
                        0 <= j < i ==> self.entries@[j] == renumbered_without(rest, removed)[j],
                    forall|j: int| i <= j < rest.len() ==> self.entries@[j] == rest[j],
                decreases rest.len() - i,
            {
                let x = self.entries[i];
                if x > removed {
                    self.entries.set(i, x - 1);
                }
                i += 1;
            }
            assert(self.entries@ =~= renumbered_without(rest, removed));
            Some(removed)
        }
    }
}

/// Deleting an entry keeps what every other entry plays: each remaining entry, taken back
/// to the numbering before the deletion, names the pattern that the same entry named
/// before.
pub proof fn lemma_remove_keeps_references(
    before: Seq<usize>,
    idx: int,
    after: Seq<usize>,
    removed: Option<usize>,
)
    requires
        0 <= idx < before.len(),
        removed == (if before.remove(idx).contains(before[idx]) {
            None::<usize>
        } else {
            Some(before[idx])
        }),
        after == (if before.remove(idx).contains(before[idx]) {
            before.remove(idx)
        } else {
            renumbered_without(before.remove(idx), before[idx])
        }),
    ensures
        after.len() == before.len() - 1,
        forall|j: int|
            0 <= j < after.len() ==> number_before(#[trigger] after[j], removed) == before.remove(
                idx,
            )[j],
{
    let rest = before.remove(idx);
    let p = before[idx];
    assert forall|j: int| 0 <= j < after.len() implies number_before(
        #[trigger] after[j],
        removed,
    ) == rest[j] by {
        if !rest.contains(p) {
            assert(rest[j] != p);
        }
    }
}

/// Deleting an entry keeps the order well formed over the patterns that are left: the
/// same patterns when another entry still plays the deleted one's pattern, one fewer when
/// that pattern left.
pub proof fn lemma_remove_keeps_wf(
    before: OrderList,
    after: OrderList,
    idx: int,
    patterns: nat,
    removed: Option<usize>,
)
    requires
        before.wf(patterns),
        0 <= idx < before.entries.len(),
        before.entries.len() >= 2,
        removed == (if before.entries@.remove(idx).contains(before.entries@[idx]) {
            None::<usize>
        } else {
            Some(before.entries@[idx])
        }),
        after.entries@ == (if before.entries@.remove(idx).contains(before.entries@[idx]) {
            before.entries@.remove(idx)
        } else {
            renumbered_without(before.entries@.remove(idx), before.entries@[idx])
        }),
        after.current == (if before.current >= before.entries@.remove(idx).len() {
            (before.entries@.remove(idx).len() - 1) as usize
        } else {
            before.current
        }),
    ensures
        after.wf(if removed is Some { (patterns - 1) as nat } else { patterns }),
{
    let rest = before.entries@.remove(idx);
    let p = before.entries@[idx];
    let n: nat = if removed is Some { (patterns - 1) as nat } else { patterns };
    assert forall|i: int| 0 <= i < after.entries.len() implies after.entries@[i] < n by {
        assert(rest[i] == before.entries@[if i < idx { i } else { i + 1 }]);
        if removed is Some {
            assert(rest[i] != p);
        }
    }
}

} // verus!
