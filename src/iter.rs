use vstd::prelude::*;
use crate::chain::{is_chain, next_in, popped};
use crate::hook::{link_of, SListHook};
use crate::slot::Pointer;

verus! {

/// A forward walk over a chain of nodes, handing out shared references.
pub struct Iter<'a, T: SListHook> {
    pool: &'a Vec<T>,
    it: Option<usize>,
    rest: Ghost<Seq<usize>>,
}

impl<'a, T: SListHook> View for Iter<'a, T> {
    type V = Seq<usize>;

    /// The indices of the nodes still to come.
    closed spec fn view(&self) -> Seq<usize> {
        self.rest@
    }
}

impl<'a, T: SListHook> Iter<'a, T> {
    /// The shared walk that `m` becomes when downgraded.
    pub closed spec fn downgraded(m: IterMut<'a, T>) -> Self {
        Iter { pool: &*m.pool, it: m.it, rest: m.rest }
    }

    /// A walk over the chain `nodes` of `pool`, whose first node is `head`.
    pub(crate) fn start(pool: &'a Vec<T>, head: Option<usize>, nodes: Ghost<Seq<usize>>) -> (r: Self)
        requires
            head == (if nodes@.len() == 0 {
                None
            } else {
                Some(nodes@[0])
            }),
            is_chain(nodes@, pool@),
        ensures
            r.inv(),
            r@ == nodes@,
            r.pool() == pool@,
    {
        Iter { pool, it: head, rest: nodes }
    }

    /// The node table walked over.
    pub closed spec fn pool(&self) -> Seq<T> {
        self.pool@
    }

    /// The position agrees with the nodes still to come, which form a chain.
    pub closed spec fn inv(&self) -> bool {
        &&& self.it == (if self.rest@.len() == 0 {
            None
        } else {
            Some(self.rest@[0])
        })
        &&& is_chain(self.rest@, self.pool@)
    }

    /// The next node, and the walk moves past it; `None` at the end.
    pub fn next(&mut self) -> (r: Option<&'a T>)
        requires
            old(self).inv(),
        ensures
            final(self).inv(),
            final(self).pool() == old(self).pool(),
            final(self)@ == popped(old(self)@),
            old(self)@.len() == 0 <==> r.is_none(),
            old(self)@.len() > 0 ==> *r.unwrap() == old(self).pool()[old(self)@[0] as int],
    {
        match self.it {
            Some(i) => {
                let ghost s = self.rest@;
                let pool: &'a Vec<T> = self.pool;
                let node: &'a T = &pool[i];
                self.it = node.link().get();
                self.rest = Ghost(popped(self.rest@));
                proof {
                    assert(link_of(pool@[s[0] as int]) == next_in(s, 0));
                    assert forall|k: int| 0 <= k < self.rest@.len() implies #[trigger] link_of(
                        pool@[self.rest@[k] as int],
                    ) == next_in(self.rest@, k) by {
                        assert(self.rest@[k] == s[k + 1]);
                        assert(link_of(pool@[s[k + 1] as int]) == next_in(s, k + 1));
                    }
                }
                Some(node)
            },
            None => None,
        }
    }
}

/// A forward walk over a chain of nodes, lending out one mutable reference
/// at a time. Its fields are open so that contracts can speak of the table
/// as the walk leaves it.
pub struct IterMut<'a, T: SListHook> {
    /// The node table walked over.
    pub pool: &'a mut Vec<T>,
    /// The index of the next node, if any.
    pub it: Option<usize>,
    /// The indices of the nodes still to come.
    pub rest: Ghost<Seq<usize>>,
}

impl<'a, T: SListHook> View for IterMut<'a, T> {
    type V = Seq<usize>;

    /// The indices of the nodes still to come.
    open spec fn view(&self) -> Seq<usize> {
        self.rest@
    }
}

impl<'a, T: SListHook> IterMut<'a, T> {
    /// The node table walked over, as it stands now.
    pub open spec fn table(&self) -> Seq<T> {
        self.pool@
    }

    /// The position agrees with the nodes still to come, which form a chain.
    pub open spec fn inv(&self) -> bool {
        &&& self.it == (if self.rest@.len() == 0 {
            None
        } else {
            Some(self.rest@[0])
        })
        &&& is_chain(self.rest@, self.pool@)
    }

    /// Turns the walk into a shared one at the same position over the same
    /// table, which is left as it now stands.
    pub fn downgrade(self) -> (r: Iter<'a, T>)
        ensures
            r == Iter::<'a, T>::downgraded(self),
            final(self.pool)@ == self.table(),
    {
        Iter { pool: self.pool, it: self.it, rest: self.rest }
    }

    /// The next node, lent out until the next call, and the walk moves past
    /// it; `None` at the end. The walk stays sound as long as the node's
    /// slot is left as it was.
    pub fn next(&mut self) -> (r: Option<&mut T>)
        requires
            old(self).inv(),
        ensures
            final(final(self).pool)@ == final(old(self).pool)@,
            final(self)@ == popped(old(self)@),
            old(self)@.len() == 0 <==> r.is_none(),
            old(self)@.len() == 0 ==> final(self).pool@ == old(self).pool@,
            old(self)@.len() > 0 ==> {
                &&& *r.unwrap() == old(self).pool@[old(self)@[0] as int]
                &&& final(self).pool@ == old(self).pool@.update(
                    old(self)@[0] as int,
                    *final(r.unwrap()),
                )
            },
            old(self)@.len() > 0 && link_of(*final(r.unwrap())) == link_of(*r.unwrap())
                ==> final(self).inv(),
            old(self)@.len() == 0 ==> final(self).inv(),
    {
        match self.it {
            Some(i) => {
                let ghost s = self.rest@;
                let ghost p = self.pool@;
                let node = &mut self.pool[i];
                self.it = node.link().get();
                self.rest = Ghost(popped(self.rest@));
                proof {
                    assert(link_of(p[s[0] as int]) == next_in(s, 0));
                }
                Some(node)
            },
            None => None,
        }
    }
}

impl<'a, T: SListHook> From<IterMut<'a, T>> for Iter<'a, T> {
    /// Downgrades a mutable walk to a shared one at the same position.
    fn from(m: IterMut<'a, T>) -> (r: Self) {
        m.downgrade()
    }
}

impl<'a, T: SListHook> vstd::std_specs::convert::FromSpecImpl<IterMut<'a, T>> for Iter<'a, T> {
    open spec fn obeys_from_spec() -> bool {
        true
    }

    open spec fn from_spec(m: IterMut<'a, T>) -> Self {
        Iter::downgraded(m)
    }
}

/// A mutable walk downgraded to a shared one goes on from the same
/// position over the same table: the nodes still to come are the same, and
/// a sound walk stays sound.
pub proof fn lemma_downgrade<'a, T: SListHook>(m: IterMut<'a, T>)
    ensures
        Iter::<'a, T>::downgraded(m)@ == m@,
        Iter::<'a, T>::downgraded(m).pool() == m.table(),
        m.inv() ==> Iter::<'a, T>::downgraded(m).inv(),
{
}

} // verus!
