//! Positional storage for the state that a component keeps across renders.
use vstd::prelude::*;

verus! {

/// An append-only list of hook values with a read cursor. A render reads the
/// hooks in call order; between renders only the cursor moves back.
pub struct HookList<A> {
    pub vals: Vec<A>,
    pub idx: usize,
}

impl<A> HookList<A> {
    /// The stored values, oldest first.
    pub open spec fn values(&self) -> Seq<A> {
        self.vals@
    }

    /// The position that the next read returns.
    pub open spec fn cursor(&self) -> nat {
        self.idx as nat
    }

    /// The cursor never runs past the end.
    pub open spec fn wf(&self) -> bool {
        self.idx <= self.vals@.len()
    }

    /// An empty list with room for `capacity` hooks.
    pub fn new(capacity: usize) -> (list: HookList<A>)
        ensures
            list.values() == Seq::<A>::empty(),
            list.cursor() == 0,
            list.wf(),
    {
        HookList { vals: Vec::with_capacity(capacity), idx: 0 }
    }

    /// Hands out the hook under the cursor, to be read or updated in place,
    /// and moves the cursor on; `None` at the end, with the cursor unmoved.
    /// No hook is added or removed.
    pub fn next(&mut self) -> (hook: Option<&mut A>)
        requires
            old(self).wf(),
        ensures
            hook.is_some() == (old(self).cursor() < old(self).values().len()),
            hook.is_none() ==> final(self).values() == old(self).values() && final(self).cursor()
                == old(self).cursor(),
            hook matches Some(value) ==> *value == old(self).values()[old(self).cursor() as int],
            hook matches Some(value) ==> final(self).values() == old(self).values().update(
                old(self).cursor() as int,
                *final(value),
            ),
            hook matches Some(value) ==> final(self).cursor() == old(self).cursor() + 1,
            final(self).wf(),
    {
        if self.idx < self.vals.len() {
            let at = self.idx;
            self.idx = self.idx + 1;
            Some(&mut self.vals[at])
        } else {
            None
        }
    }

    /// Moves the cursor back to the first hook. The values stay.
    pub fn reset(&mut self)
        ensures
            final(self).values() == old(self).values(),
            final(self).cursor() == 0,
            final(self).wf(),
    {
        self.idx = 0;
    }

    /// Appends a hook.
    pub fn push_hook(&mut self, new: A)
        ensures
            final(self).values() == old(self).values().push(new),
            final(self).cursor() == old(self).cursor(),
            old(self).wf() ==> final(self).wf(),
    {
        self.vals.push(new);
    }

    /// The number of hooks.
    pub fn len(&self) -> (n: usize)
        ensures
            n == self.values().len(),
    {
        self.vals.len()
    }

    /// The cursor.
    pub fn cur_idx(&self) -> (i: usize)
        ensures
            i == self.cursor(),
    {
        self.idx
    }

    /// True when every hook has been read in this pass.
    pub fn at_end(&self) -> (b: bool)
        ensures
            b == (self.cursor() >= self.values().len()),
    {
        self.idx >= self.vals.len()
    }

    /// Drops every hook and rewinds the cursor.
    pub fn clear(&mut self)
        ensures
            final(self).values() == Seq::<A>::empty(),
            final(self).cursor() == 0,
            final(self).wf(),
    {
        self.vals.clear();
        self.idx = 0;
    }
}

} // verus!
