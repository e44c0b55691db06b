//! Rearranging the arranger with the mouse: what a drop does, and the set of selected
//! entries.
use vstd::prelude::*;

verus! {

/// Where a drag starts or is over: an arranger entry, or a pattern inside a group.
#[derive(Debug, Clone, Copy, PartialEq, Eq, Structural)]
pub enum DragTarget {
    Item(usize),
    SubPattern(usize, usize),
}

/// A drag in progress: where it started and what it is over now.
#[derive(Debug, Clone, Copy, PartialEq, Eq, Structural)]
pub struct ArrangerDrag {
    pub from: DragTarget,
    pub current: DragTarget,
}

/// The change to the arrangement a drop asks for.
#[derive(Debug, Clone, Copy, PartialEq, Eq, Structural)]
pub enum DropMove {
    /// Nothing changes.
    Stay,
    /// An entry moves from one place to another.
    ReorderItem { from: usize, to: usize },
    /// An entry moves into a group, at a position among its patterns.
    IntoGroup { item: usize, group: usize, sub: usize },
    /// A pattern of a group becomes an entry of its own, at a place.
    OutOfGroup { group: usize, sub: usize, target: usize },
    /// A pattern moves within its group.
    ReorderSub { group: usize, from: usize, to: usize },
    /// A pattern moves from one group into another.
    BetweenGroups { from_group: usize, from_sub: usize, to_group: usize, to_sub: usize },
}

/// The change a drop from `from` onto `to` asks for: an entry dropped on another entry
/// moves to just before it (nothing changes when it is already just before it), and on a
/// group's pattern moves into that group; a group's pattern
/// dropped on an entry moves out to there, on another pattern of its group moves within
/// the group, and on a pattern of another group moves into that group. Dropping
/// something on itself changes nothing.
pub open spec fn drop_move_spec(from: DragTarget, to: DragTarget) -> DropMove {
    match (from, to) {
        (DragTarget::Item(f), DragTarget::Item(t)) => if f > t {
            DropMove::ReorderItem { from: f, to: t }
        } else if f + 1 < t {
            DropMove::ReorderItem { from: f, to: (t - 1) as usize }
        } else {
            DropMove::Stay
        },
        (DragTarget::Item(i), DragTarget::SubPattern(g, s)) => DropMove::IntoGroup { item: i, group: g, sub: s },
        (DragTarget::SubPattern(g, s), DragTarget::Item(t)) => DropMove::OutOfGroup { group: g, sub: s, target: t },
        (DragTarget::SubPattern(fg, fs), DragTarget::SubPattern(tg, ts)) => if fg == tg {
            if fs != ts {
                DropMove::ReorderSub { group: fg, from: fs, to: ts }
            } else {
                DropMove::Stay
            }
        } else {
            DropMove::BetweenGroups { from_group: fg, from_sub: fs, to_group: tg, to_sub: ts }
        },
    }
}

/// Law: dropping an entry or a group's pattern where it was picked up changes nothing.
pub proof fn lemma_drop_in_place(t: DragTarget)
    ensures
        drop_move_spec(t, t) == DropMove::Stay,
{
}

/// The change a drop asks for (see `drop_move_spec`).
pub fn drop_move(from: DragTarget, to: DragTarget) -> (r: DropMove)
    ensures
        r == drop_move_spec(from, to),
{
    match (from, to) {
        (DragTarget::Item(f), DragTarget::Item(t)) => {
            if f > t {
                DropMove::ReorderItem { from: f, to: t }
            } else if f < t && t - f > 1 {
                DropMove::ReorderItem { from: f, to: t - 1 }
            } else {
                DropMove::Stay
            }
        },
        (DragTarget::Item(i), DragTarget::SubPattern(g, s)) => DropMove::IntoGroup { item: i, group: g, sub: s },
        (DragTarget::SubPattern(g, s), DragTarget::Item(t)) => DropMove::OutOfGroup { group: g, sub: s, target: t },
        (DragTarget::SubPattern(fg, fs), DragTarget::SubPattern(tg, ts)) => {
            if fg == tg {
                if fs != ts {
                    DropMove::ReorderSub { group: fg, from: fs, to: ts }
                } else {
                    DropMove::Stay
                }
            } else {
                DropMove::BetweenGroups { from_group: fg, from_sub: fs, to_group: tg, to_sub: ts }
            }
        },
    }
}

impl ArrangerDrag {
    /// A drag that starts at `target` and is over it.
    pub fn start(target: DragTarget) -> (r: ArrangerDrag)
        ensures
            r.from == target,
            r.current == target,
    {
        ArrangerDrag { from: target, current: target }
    }

    /// The drag moves over `target`.
    pub fn hover(&mut self, target: DragTarget)
        ensures
            final(self).from == old(self).from,
            final(self).current == target,
    {
        self.current = target;
    }

    /// The change that dropping here asks for.
    pub fn finish(&self) -> (r: DropMove)
        ensures
            r == drop_move_spec(self.from, self.current),
    {
        drop_move(self.from, self.current)
    }
}

/// Whether an entry is not `idx`.
pub open spec fn other_than(idx: usize) -> spec_fn(usize) -> bool {
    |i: usize| i != idx
}

/// The selection after a click with Shift on entry `idx`: a selected entry leaves the
/// selection (every copy of it), another one joins it at the end.
pub open spec fn toggled(sel: Seq<usize>, idx: usize) -> Seq<usize> {
    if sel.contains(idx) {
        sel.filter(other_than(idx))
    } else {
        sel.push(idx)
    }
}

/// Adds entry `idx` to the selection or takes it out (see `toggled`).
pub fn toggle_selected(sel: &mut Vec<usize>, idx: usize)
    ensures
        final(sel)@ == toggled(old(sel)@, idx),
{
    let mut found = false;
    let mut i: usize = 0;
    while i < sel.len()
        invariant
            i <= sel@.len(),
            found == (exists|k: int| 0 <= k < i && old(sel)@[k] == idx),
            sel@ == old(sel)@,
        decreases sel@.len() - i,
    {
        if sel[i] == idx {
            found = true;
        }
        i = i + 1;
    }
    if !found {
        sel.push(idx);
        return;
    }
    let ghost s = old(sel)@;
    let mut kept: Vec<usize> = Vec::new();
    let mut j: usize = 0;
    while j < sel.len()
        invariant
            j <= sel@.len(),
            sel@ == s,
            kept@ == s.subrange(0, j as int).filter(other_than(idx)),
        decreases sel@.len() - j,
    {
        proof {
            let t = s.subrange(0, j + 1);
            assert(t.drop_last() =~= s.subrange(0, j as int));
            reveal(Seq::filter);
        }
        if sel[j] != idx {
            kept.push(sel[j]);
        }
        j = j + 1;
    }
    assert(s.subrange(0, s.len() as int) =~= s);
    assert(s.contains(idx));
    *sel = kept;
}

} // verus!
