use vstd::prelude::*;

verus! {

/// A link slot: either empty or the index of the node it refers to, in a
/// node table that the caller owns.
pub trait Pointer: Sized {
    /// The node this slot refers to, if any.
    spec fn target(&self) -> Option<usize>;

    /// Empties the slot.
    fn term(&mut self)
        ensures
            final(self).target() == None::<usize>,
    ;

    /// Makes this slot refer to whatever `other` refers to.
    fn from(&mut self, other: &Self)
        ensures
            final(self).target() == other.target(),
    ;

    /// Points the slot at the node with index `node`.
    fn set(&mut self, node: usize)
        ensures
            final(self).target() == Some(node),
    ;

    /// A fresh, empty slot.
    fn empty() -> (r: Self)
        ensures
            r.target() == None::<usize>,
    ;

    /// The index of the node the slot refers to, if any.
    fn get(&self) -> (r: Option<usize>)
        ensures
            r == self.target(),
    ;
}

impl Pointer for Option<usize> {
    open spec fn target(&self) -> Option<usize> {
        *self
    }

    fn empty() -> (r: Self) {
        None
    }

    fn term(&mut self) {
        *self = None;
    }

    fn from(&mut self, other: &Self) {
        *self = *other;
    }

    fn set(&mut self, node: usize) {
        *self = Some(node);
    }

    fn get(&self) -> (r: Option<usize>) {
        *self
    }
}

} // verus!
