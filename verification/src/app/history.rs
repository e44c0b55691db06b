//! Undo and redo: the states before each edit, newest last, and the states undone since.
use vstd::prelude::*;

verus! {

/// How many states the undo history keeps; the oldest goes when one more is saved.
pub const MAX_UNDO: usize = 100;

/// The undo history of an editor whose state is a `T`.
pub struct History<T> {
    pub undo: Vec<T>,
    pub redo: Vec<T>,
}

/// The stacks after `saved` is saved before an edit: it goes on top of the undo stack,
/// which drops its oldest state past `MAX_UNDO`, and the redo stack empties.
pub open spec fn after_save<T>(undo: Seq<T>, saved: T) -> Seq<T> {
    let pushed = undo.push(saved);
    if pushed.len() > MAX_UNDO {
        pushed.drop_first()
    } else {
        pushed
    }
}

/// The stacks and the state after an undo from state `cur`: the newest saved state comes
/// back, and `cur` goes on the redo stack; with nothing saved, nothing changes.
pub open spec fn after_undo<T>(undo: Seq<T>, redo: Seq<T>, cur: T) -> (Seq<T>, Seq<T>, T) {
    if undo.len() > 0 {
        (undo.drop_last(), redo.push(cur), undo.last())
    } else {
        (undo, redo, cur)
    }
}

/// The stacks and the state after a redo from state `cur`: the newest undone state comes
/// back, and `cur` goes on the undo stack; with nothing undone, nothing changes.
pub open spec fn after_redo<T>(undo: Seq<T>, redo: Seq<T>, cur: T) -> (Seq<T>, Seq<T>, T) {
    if redo.len() > 0 {
        (undo.push(cur), redo.drop_last(), redo.last())
    } else {
        (undo, redo, cur)
    }
}

impl<T> History<T> {
    /// An empty history.
    pub fn new() -> (r: History<T>)
        ensures
            r.undo@ == Seq::<T>::empty(),
            r.redo@ == Seq::<T>::empty(),
    {
        History { undo: Vec::new(), redo: Vec::new() }
    }

    /// The history holds at most `MAX_UNDO` states in all.
    pub open spec fn wf(self) -> bool {
        self.undo.len() + self.redo.len() <= MAX_UNDO
    }

    /// Saves `state`, the state before an edit (see `after_save`).
    pub fn save(&mut self, state: T)
        ensures
            final(self).undo@ == after_save(old(self).undo@, state),
            final(self).redo@ == Seq::<T>::empty(),
            old(self).wf() ==> final(self).wf(),
    {
        self.undo.push(state);
        if self.undo.len() > MAX_UNDO {
            self.undo.remove(0);
            assert(self.undo@ =~= old(self).undo@.push(state).drop_first());
        }
        self.redo.clear();
    }

    /// Undoes the last edit: `current` becomes the newest saved state (see `after_undo`).
    pub fn undo(&mut self, current: &mut T)
        ensures
            (final(self).undo@, final(self).redo@, *final(current)) == after_undo(
                old(self).undo@,
                old(self).redo@,
                *old(current),
            ),
            old(self).wf() ==> final(self).wf(),
    {
        if let Some(mut prev) = self.undo.pop() {
            std::mem::swap(current, &mut prev);
            self.redo.push(prev);
        }
    }

    /// Redoes the last undone edit: `current` becomes the newest undone state (see
    /// `after_redo`).
    pub fn redo(&mut self, current: &mut T)
        ensures
            (final(self).undo@, final(self).redo@, *final(current)) == after_redo(
                old(self).undo@,
                old(self).redo@,
                *old(current),
            ),
            old(self).wf() ==> final(self).wf(),
    {
        if let Some(mut next) = self.redo.pop() {
            std::mem::swap(current, &mut next);
            self.undo.push(next);
        }
    }

    /// Forgets every saved and undone state.
    pub fn clear(&mut self)
        ensures
            final(self).undo@ == Seq::<T>::empty(),
            final(self).redo@ == Seq::<T>::empty(),
    {
        self.undo.clear();
        self.redo.clear();
    }
}

/// A redo right after an undo brings back the state and both stacks as they were.
pub proof fn lemma_redo_after_undo<T>(undo: Seq<T>, redo: Seq<T>, cur: T)
    requires
        undo.len() > 0,
    ensures
        ({
            let (u, r, c) = after_undo(undo, redo, cur);
            after_redo(u, r, c) == (undo, redo, cur)
        }),
{
    let (u, r, c) = after_undo(undo, redo, cur);
    assert(u.push(c) =~= undo);
    assert(r.drop_last() =~= redo);
}

/// An undo right after a redo brings back the state and both stacks as they were.
pub proof fn lemma_undo_after_redo<T>(undo: Seq<T>, redo: Seq<T>, cur: T)
    requires
        redo.len() > 0,
    ensures
        ({
            let (u, r, c) = after_redo(undo, redo, cur);
            after_undo(u, r, c) == (undo, redo, cur)
        }),
{
    let (u, r, c) = after_redo(undo, redo, cur);
    assert(u.drop_last() =~= undo);
    assert(r.push(c) =~= redo);
}

/// Undoing right after saving a state brings that state back, whatever the editor did in
/// between, and the edited state can be redone.
pub proof fn lemma_undo_restores_saved<T>(undo: Seq<T>, saved: T, edited: T)
    ensures
        ({
            let (u, r, c) = after_undo(after_save(undo, saved), Seq::<T>::empty(), edited);
            &&& c == saved
            &&& r == seq![edited]
        }),
{
    let s = after_save(undo, saved);
    assert(s.len() > 0);
    assert(s.last() == saved);
    assert(Seq::<T>::empty().push(edited) =~= seq![edited]);
}

} // verus!
