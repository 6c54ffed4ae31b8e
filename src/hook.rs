use vstd::prelude::*;
use crate::slot::Pointer;

verus! {

/// What a node type offers to be linked: mutable access to the link slot
/// embedded in it.
pub trait SListHook: Sized {
    type Pointer: Pointer;

    /// The node's embedded link slot.
    spec fn slot(&self) -> Self::Pointer;

    /// The same node with its link slot replaced by `p`, all else kept.
    spec fn with_slot(&self, p: Self::Pointer) -> Self;

    /// Replacing the slot by the one already there changes nothing, and the
    /// slot of a node with a replaced slot is the replacement.
    proof fn lemma_with_slot(&self, p: Self::Pointer)
        ensures
            self.with_slot(self.slot()) == *self,
            self.with_slot(p).slot() == p,
    ;

    /// The node's own link slot, to read.
    fn link(&self) -> (r: &Self::Pointer)
        ensures
            *r == self.slot(),
    ;

    /// The node's own link slot, to read or rewire.
    fn next(&mut self) -> (r: &mut Self::Pointer)
        ensures
            *r == old(self).slot(),
            *final(self) == old(self).with_slot(*final(r)),
    ;
}

/// The node that `node` links to, if any.
pub open spec fn link_of<T: SListHook>(node: T) -> Option<usize> {
    node.slot().target()
}

/// A value with a link slot attached, so that any payload can be linked.
pub struct Wrapped<T> {
    pub next: Option<usize>,
    pub t: T,
}

impl<T> Wrapped<T> {
    /// An unlinked node holding `t`.
    pub fn new(t: T) -> (r: Self)
        ensures
            r.next == None::<usize>,
            r.t == t,
    {
        Wrapped { next: None, t }
    }
}

impl<T> SListHook for Wrapped<T> {
    type Pointer = Option<usize>;

    open spec fn slot(&self) -> Option<usize> {
        self.next
    }

    open spec fn with_slot(&self, p: Option<usize>) -> Self {
        Wrapped { next: p, t: self.t }
    }

    proof fn lemma_with_slot(&self, p: Option<usize>) {
    }

    fn link(&self) -> (r: &Option<usize>) {
        &self.next
    }

    fn next(&mut self) -> (r: &mut Option<usize>) {
        &mut self.next
    }
}

} // verus!
