//! Undo and redo: two stacks of labelled snapshots of the edit list.
use vstd::prelude::*;
use crate::edit::EditList;

verus! {

pub struct EditHistory<G> {
    undo_stack: Vec<(String, EditList<G>)>,
    redo_stack: Vec<(String, EditList<G>)>,
}

/// The contents of a history: the undo and redo stacks of labelled snapshots, oldest first.
pub struct HistoryView<G> {
    pub undo: Seq<(String, EditList<G>)>,
    pub redo: Seq<(String, EditList<G>)>,
}

impl<G> HistoryView<G> {
    pub open spec fn empty() -> Self {
        HistoryView { undo: Seq::empty(), redo: Seq::empty() }
    }

    /// The history after recording `state` under `label`.
    pub open spec fn pushed(self, label: String, state: EditList<G>) -> Self {
        HistoryView { undo: self.undo.push((label, state)), redo: Seq::empty() }
    }

    /// What undoing from `current` returns, and the history after it.
    pub open spec fn undone(self, current: EditList<G>) -> (Option<EditList<G>>, Self) {
        if self.undo.len() == 0 {
            (None, self)
        } else {
            (
                Some(self.undo.last().1),
                HistoryView {
                    undo: self.undo.drop_last(),
                    redo: self.redo.push((self.undo.last().0, current)),
                },
            )
        }
    }

    /// What redoing from `current` returns, and the history after it.
    pub open spec fn redone(self, current: EditList<G>) -> (Option<EditList<G>>, Self) {
        if self.redo.len() == 0 {
            (None, self)
        } else {
            (
                Some(self.redo.last().1),
                HistoryView {
                    undo: self.undo.push((self.redo.last().0, current)),
                    redo: self.redo.drop_last(),
                },
            )
        }
    }
}

impl<G> EditHistory<G> {
    pub closed spec fn view(&self) -> HistoryView<G> {
        HistoryView { undo: self.undo_stack@, redo: self.redo_stack@ }
    }

    /// An empty history.
    pub fn new() -> (h: Self)
        ensures
            h.view() == HistoryView::<G>::empty(),
    {
        let h = EditHistory { undo_stack: Vec::new(), redo_stack: Vec::new() };
        proof {
            assert(h.view().undo =~= Seq::<(String, EditList<G>)>::empty());
            assert(h.view().redo =~= Seq::<(String, EditList<G>)>::empty());
        }
        h
    }

    /// Records `state`, the edit list before an edit, under `label`; the redo stack is
    /// cleared.
    pub fn push(&mut self, label: String, state: EditList<G>)
        ensures
            final(self).view() == old(self).view().pushed(label, state),
    {
        self.undo_stack.push((label, state));
        self.redo_stack.clear();
        proof {
            assert(self.view().redo =~= Seq::<(String, EditList<G>)>::empty());
        }
    }

    /// Steps back: returns the most recent snapshot and moves `current` onto the redo stack
    /// under that snapshot's label. With nothing to undo, returns `None` and changes nothing.
    pub fn undo(&mut self, current: EditList<G>) -> (r: Option<EditList<G>>)
        ensures
            (r, final(self).view()) == old(self).view().undone(current),
    {
        match self.undo_stack.pop() {
            Some((label, prev)) => {
                self.redo_stack.push((label, current));
                Some(prev)
            },
            None => None,
        }
    }

    /// Steps forward again: returns the most recently undone state and moves `current` onto
    /// the undo stack under its label. With nothing to redo, returns `None` and changes
    /// nothing.
    pub fn redo(&mut self, current: EditList<G>) -> (r: Option<EditList<G>>)
        ensures
            (r, final(self).view()) == old(self).view().redone(current),
    {
        match self.redo_stack.pop() {
            Some((label, next)) => {
                self.undo_stack.push((label, current));
                Some(next)
            },
            None => None,
        }
    }

    /// The snapshot that `undo` would return.
    pub fn peek_undo(&self) -> (r: Option<&EditList<G>>)
        ensures
            self.view().undo.len() == 0 ==> r is None,
            self.view().undo.len() > 0 ==> (r matches Some(el) && *el == self.view().undo.last().1),
    {
        let n = self.undo_stack.len();
        if n == 0 {
            None
        } else {
            Some(&self.undo_stack[n - 1].1)
        }
    }

    /// The label of the edit that `undo` would take back.
    pub fn undo_label(&self) -> (r: Option<&str>)
        ensures
            self.view().undo.len() == 0 ==> r is None,
            self.view().undo.len() > 0 ==> (r matches Some(l) && l@ == self.view().undo.last().0@),
    {
        let n = self.undo_stack.len();
        if n == 0 {
            None
        } else {
            Some(self.undo_stack[n - 1].0.as_str())
        }
    }

    /// The label of the edit that `redo` would bring back.
    pub fn redo_label(&self) -> (r: Option<&str>)
        ensures
            self.view().redo.len() == 0 ==> r is None,
            self.view().redo.len() > 0 ==> (r matches Some(l) && l@ == self.view().redo.last().0@),
    {
        let n = self.redo_stack.len();
        if n == 0 {
            None
        } else {
            Some(self.redo_stack[n - 1].0.as_str())
        }
    }

    pub fn can_undo(&self) -> (r: bool)
        ensures
            r == (self.view().undo.len() > 0),
    {
        self.undo_stack.len() > 0
    }

    pub fn can_redo(&self) -> (r: bool)
        ensures
            r == (self.view().redo.len() > 0),
    {
        self.redo_stack.len() > 0
    }

    /// Forgets all history.
    pub fn clear(&mut self)
        ensures
            final(self).view() == HistoryView::<G>::empty(),
    {
        self.undo_stack.clear();
        self.redo_stack.clear();
        proof {
            assert(self.view().undo =~= Seq::<(String, EditList<G>)>::empty());
            assert(self.view().redo =~= Seq::<(String, EditList<G>)>::empty());
        }
    }
}

/// Undoing right after recording a snapshot gives that snapshot back, leaves the undo stack
/// as it was before, and puts the state that was current on the redo stack under the
/// snapshot's label.
pub proof fn law_undo_after_push<G>(h: HistoryView<G>, label: String, state: EditList<G>, current: EditList<G>)
    ensures
        h.pushed(label, state).undone(current) == (
            Some(state),
            HistoryView { undo: h.undo, redo: seq![(label, current)] },
        ),
{
    assert(h.pushed(label, state).undo.drop_last() =~= h.undo);
    assert(Seq::<(String, EditList<G>)>::empty().push((label, current)) =~= seq![(label, current)]);
}

/// Undo followed by redo hands back the state that was current and restores the history.
pub proof fn law_undo_then_redo<G>(h: HistoryView<G>, current: EditList<G>)
    requires
        h.undo.len() > 0,
    ensures
        h.undone(current).1.redone(h.undone(current).0.unwrap()) == (Some(current), h),
{
    let h1 = h.undone(current).1;
    assert(h1.redo.drop_last() =~= h.redo);
    assert(h1.undo.push((h.undo.last().0, h.undo.last().1)) =~= h.undo);
}

/// Redo followed by undo hands back the state that was current and restores the history.
pub proof fn law_redo_then_undo<G>(h: HistoryView<G>, current: EditList<G>)
    requires
        h.redo.len() > 0,
    ensures
        h.redone(current).1.undone(h.redone(current).0.unwrap()) == (Some(current), h),
{
    let h1 = h.redone(current).1;
    assert(h1.undo.drop_last() =~= h.undo);
    assert(h1.redo.push((h.redo.last().0, h.redo.last().1)) =~= h.redo);
}

/// Recording a new snapshot leaves nothing to redo.
pub proof fn law_push_clears_redo<G>(h: HistoryView<G>, label: String, state: EditList<G>, current: EditList<G>)
    ensures
        h.pushed(label, state).redone(current) == (None::<EditList<G>>, h.pushed(label, state)),
{
}

} // verus!
