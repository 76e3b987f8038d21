use vstd::prelude::*;
use std::collections::VecDeque;

verus! {

/// The number of states the history keeps, the current one included, is below this.
pub const HISTORY_LIMIT: usize = 40;

/// The undo history of an editor: the states, newest first, and the position of the
/// current one (0 when nothing was undone).
pub struct History<T> {
    pub states: VecDeque<T>,
    pub idx: usize,
}

/// The states after a snapshot of `current`: the undone states are dropped, `current`
/// goes in front, and the oldest state goes when the limit is reached.
pub open spec fn after_snapshot<T>(states: Seq<T>, idx: int, current: T) -> Seq<T> {
    let s = seq![current] + states.skip(idx);
    if s.len() >= HISTORY_LIMIT {
        s.drop_last()
    } else {
        s
    }
}

impl<T> History<T> {
    /// The position is that of a state, or 0 for an empty history.
    pub open spec fn wf(&self) -> bool {
        self.idx == 0 || self.idx < self.states@.len()
    }

    /// An empty history.
    pub fn new() -> (r: History<T>)
        ensures
            r.states@ == Seq::<T>::empty(),
            r.idx == 0,
            r.wf(),
    {
        History { states: VecDeque::new(), idx: 0 }
    }

    /// Forgets every state.
    pub fn clear(&mut self)
        ensures
            final(self).states@ == Seq::<T>::empty(),
            final(self).idx == 0,
    {
        self.states.clear();
        self.idx = 0;
    }

    /// Records `current` as the newest state: the states undone are dropped, so that
    /// nothing can be redone, and the oldest state goes when the limit is reached.
    pub fn snapshot(&mut self, current: T)
        requires
            old(self).wf(),
        ensures
            final(self).states@ == after_snapshot(old(self).states@, old(self).idx as int, current),
            final(self).idx == 0,
            final(self).wf(),
    {
        let ghost start = self.states@;
        let mut k: usize = 0;
        while k < self.idx
            invariant
                self.idx == old(self).idx,
                self.idx == 0 || self.idx < start.len(),
                k <= self.idx,
                self.states@ == start.skip(k as int),
            decreases self.idx - k,
        {
            self.states.pop_front();
            k = k + 1;
            assert(self.states@ =~= start.skip(k as int));
        }
        self.idx = 0;
        self.states.push_front(current);
        assert(self.states@ =~= seq![current] + start.skip(old(self).idx as int));
        if self.states.len() >= HISTORY_LIMIT {
            self.states.pop_back();
        }
    }

    /// Steps back to the state before the current one, if there is one, and gives it.
    pub fn undo(&mut self) -> (r: Option<&T>)
        requires
            old(self).wf(),
        ensures
            final(self).states@ == old(self).states@,
            final(self).wf(),
            old(self).idx + 1 < old(self).states@.len() ==> final(self).idx == old(self).idx + 1 && r == Some(
                &old(self).states@[old(self).idx + 1],
            ),
            !(old(self).idx + 1 < old(self).states@.len()) ==> final(self).idx == old(self).idx && r is None,
    {
        let n = self.states.len();
        if n > 0 && self.idx < n - 1 {
            self.idx = self.idx + 1;
            Some(&self.states[self.idx])
        } else {
            None
        }
    }

    /// Steps forward to the state an undo left, if there is one, and gives it.
    pub fn redo(&mut self) -> (r: Option<&T>)
        requires
            old(self).wf(),
        ensures
            final(self).states@ == old(self).states@,
            final(self).wf(),
            old(self).idx > 0 ==> final(self).idx == old(self).idx - 1 && r == Some(&old(self).states@[old(self).idx - 1]),
            old(self).idx == 0 ==> final(self).idx == 0 && r is None,
    {
        if self.idx == 0 {
            return None;
        }
        self.idx = self.idx - 1;
        Some(&self.states[self.idx])
    }
}

/// What an undo leaves: the position one further back, when there is a state there.
pub open spec fn undone(len: int, idx: int) -> int {
    if idx + 1 < len {
        idx + 1
    } else {
        idx
    }
}

/// What a redo leaves: the position one nearer, unless at the newest state.
pub open spec fn redone(idx: int) -> int {
    if idx > 0 {
        idx - 1
    } else {
        0
    }
}

/// A redo takes back an undo that did something.
pub proof fn law_redo_after_undo(len: int, idx: int)
    requires
        0 <= idx,
        idx + 1 < len,
    ensures
        redone(undone(len, idx)) == idx,
{
}

/// Right after a snapshot, an undo comes back to the state that was current before it,
/// when there was one and the limit did not drop it.
pub proof fn law_undo_after_snapshot<T>(states: Seq<T>, idx: int, current: T)
    requires
        0 <= idx < states.len(),
        states.len() - idx + 1 < HISTORY_LIMIT,
    ensures
        after_snapshot(states, idx, current)[0] == current,
        undone(after_snapshot(states, idx, current).len() as int, 0) == 1,
        after_snapshot(states, idx, current)[1] == states[idx],
{
}

} // verus!
