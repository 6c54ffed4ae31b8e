use vstd::prelude::*;
use crate::chain::{is_chain, lemma_indices_bounded, next_in, popped, pushed};
use crate::hook::{link_of, SListHook, Wrapped};
use crate::iter::{Iter, IterMut};
use crate::slot::Pointer;

verus! {

/// An intrusive singly linked list over the nodes of a table that the caller
/// owns. The list keeps only its length and its head slot; the nodes carry
/// the links.
pub struct SList<T: SListHook> {
    size: usize,
    head: T::Pointer,
    nodes: Ghost<Seq<usize>>,
}

impl<T: SListHook> View for SList<T> {
    type V = Seq<usize>;

    /// The indices of the list's nodes, from head to tail.
    closed spec fn view(&self) -> Seq<usize> {
        self.nodes@
    }
}

impl<T: SListHook> SList<T> {
    /// The length and the head slot agree with the node sequence.
    pub closed spec fn inv(&self) -> bool {
        &&& self.size as int == self.nodes@.len()
        &&& self.head.target() == (if self.nodes@.len() == 0 {
            None
        } else {
            Some(self.nodes@[0])
        })
    }

    /// The list is sound over the node table `pool`: its nodes, from the
    /// head slot on, form a chain there.
    pub open spec fn wf(&self, pool: Seq<T>) -> bool {
        self.inv() && is_chain(self@, pool)
    }

    /// An empty list.
    pub fn new() -> (r: Self)
        ensures
            r.inv(),
            r@ == Seq::<usize>::empty(),
    {
        SList { size: 0, head: T::Pointer::empty(), nodes: Ghost(Seq::empty()) }
    }

    /// The number of nodes in the list.
    pub fn size(&self) -> (r: usize)
        requires
            self.inv(),
        ensures
            r == self@.len(),
    {
        self.size
    }

    /// A shared walk over the list, from its head.
    pub fn iter<'a>(&self, pool: &'a Vec<T>) -> (r: Iter<'a, T>)
        requires
            self.wf(pool@),
        ensures
            r.inv(),
            r@ == self@,
            r.pool() == pool@,
    {
        Iter::start(pool, self.head.get(), self.nodes)
    }

    /// A mutable walk over the list, from its head.
    pub fn iter_mut<'a>(&self, pool: &'a mut Vec<T>) -> (r: IterMut<'a, T>)
        requires
            self.wf(old(pool)@),
        ensures
            r.inv(),
            r@ == self@,
            r.pool@ == old(pool)@,
            final(r.pool)@ == final(pool)@,
    {
        IterMut { pool, it: self.head.get(), rest: Ghost(self.nodes@) }
    }

    /// Links `pool[node]` in front of the list. The node's slot takes the old
    /// head, so a node pushed onto an empty list ends up terminated.
    pub fn push(&mut self, pool: &mut Vec<T>, node: usize)
        requires
            old(self).wf(old(pool)@),
            node < old(pool)@.len(),
            !old(self)@.contains(node),
        ensures
            final(self).wf(final(pool)@),
            final(self)@ == pushed(old(self)@, node),
            final(pool)@.len() == old(pool)@.len(),
            forall|i: int|
                0 <= i < old(pool)@.len() && i != node ==> final(pool)@[i] == old(pool)@[i],
            final(pool)@[node as int] == old(pool)@[node as int].with_slot(
                final(pool)@[node as int].slot(),
            ),
    {
        let ghost s = self@;
        let ghost p = pool@;
        proof {
            let a = s.to_set().insert(node);
            s.unique_seq_to_set();
            assert forall|x: usize| a.contains(x) implies x < pool.len() by {
                if x != node {
                    let k = choose|k: int| 0 <= k < s.len() && s[k] == x;
                    assert((s[k] as int) < p.len());
                }
            }
            lemma_indices_bounded(a, pool.len());
        }
        let n = &mut pool[node];
        let slot = n.next();
        proof {
            p[node as int].lemma_with_slot(*final(slot));
        }
        slot.from(&self.head);
        self.head.set(node);
        self.size = self.size + 1;
        self.nodes = Ghost(pushed(self.nodes@, node));
        proof {
            let s2 = pushed(s, node);
            assert forall|k: int| 0 <= k < s2.len() implies #[trigger] link_of(
                pool@[s2[k] as int],
            ) == next_in(s2, k) by {
                if k > 0 {
                    assert(s2[k] == s[k - 1]);
                }
            }
        }
    }

    /// Unlinks the head node and hands it out; `None` when the list is empty.
    /// The node's own slot is left as it was.
    pub fn pop<'a>(&mut self, pool: &'a mut Vec<T>) -> (r: Option<&'a mut T>)
        requires
            old(self).wf(old(pool)@),
        ensures
            final(self).wf(final(pool)@),
            final(self)@ == popped(old(self)@),
            old(self)@.len() == 0 <==> r.is_none(),
            old(self)@.len() == 0 ==> final(pool)@ == old(pool)@,
            old(self)@.len() > 0 ==> {
                &&& *r.unwrap() == old(pool)@[old(self)@[0] as int]
                &&& final(pool)@ == old(pool)@.update(old(self)@[0] as int, *final(r.unwrap()))
            },
    {
        let ghost s = self@;
        let ghost p = pool@;
        match self.head.get() {
            Some(i) => {
                let n = &mut pool[i];
                proof {
                    assert(s[0] == i);
                    (*n).lemma_with_slot((*n).slot());
                }
                let slot = n.next();
                self.head.from(slot);
                self.size = self.size - 1;
                self.nodes = Ghost(popped(self.nodes@));
                proof {
                    assert(link_of(p[s[0] as int]) == next_in(s, 0));
                }
                Some(n)
            },
            None => None,
        }
    }
}

/// What would provide the nodes of a list that owns them. It has no
/// operations yet.
pub trait Allocator {

}

/// A list meant to own its nodes, each a wrapped value, drawn from an
/// allocator. Only its layout is set down so far.
pub struct SList2<T, A: Allocator> {
    inner: SList<Wrapped<T>>,
    alloc: A,
}

} // verus!
