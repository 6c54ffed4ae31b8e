use vstd::prelude::*;
use crate::hook::{link_of, SListHook};

verus! {

/// The node that follows position `k` of the chain `s`, if any.
pub open spec fn next_in(s: Seq<usize>, k: int) -> Option<usize> {
    if k + 1 < s.len() {
        Some(s[k + 1])
    } else {
        None
    }
}

/// `s` is a chain of distinct nodes of `pool`, each linked to the next and
/// the last one to nothing.
pub open spec fn is_chain<T: SListHook>(s: Seq<usize>, pool: Seq<T>) -> bool {
    &&& s.no_duplicates()
    &&& forall|k: int| 0 <= k < s.len() ==> (#[trigger] s[k] as int) < pool.len()
    &&& forall|k: int|
        0 <= k < s.len() ==> #[trigger] link_of(pool[s[k] as int]) == next_in(s, k)
}

/// The chain after `node` is pushed in front of `s`.
pub open spec fn pushed(s: Seq<usize>, node: usize) -> Seq<usize> {
    seq![node] + s
}

/// The chain after its first node is taken off (nothing happens to an empty one).
pub open spec fn popped(s: Seq<usize>) -> Seq<usize> {
    if s.len() == 0 {
        s
    } else {
        s.drop_first()
    }
}

/// The chain after the nodes of `xs` are pushed onto `s`, first to last.
pub open spec fn pushed_all(s: Seq<usize>, xs: Seq<usize>) -> Seq<usize>
    decreases xs.len(),
{
    if xs.len() == 0 {
        s
    } else {
        pushed_all(pushed(s, xs[0]), xs.drop_first())
    }
}

/// The chain after `m` pops (or `m` steps of a walk) starting from `s`.
pub open spec fn popped_n(s: Seq<usize>, m: nat) -> Seq<usize>
    decreases m,
{
    if m == 0 {
        s
    } else {
        popped_n(popped(s), (m - 1) as nat)
    }
}

/// Popping `m` times removes the first `m` nodes, or all of them.
proof fn lemma_popped_n_skip(s: Seq<usize>, m: nat)
    ensures
        m <= s.len() ==> popped_n(s, m) == s.skip(m as int),
        m > s.len() ==> popped_n(s, m).len() == 0,
    decreases m,
{
    if m > 0 {
        lemma_popped_n_skip(popped(s), (m - 1) as nat);
        if 0 < s.len() && m <= s.len() {
            assert(popped(s).skip(m - 1) =~= s.skip(m as int));
        }
    }
}

/// Pushing the nodes of `xs` puts them in front of `s`, the last pushed first.
proof fn lemma_pushed_all_layout(s: Seq<usize>, xs: Seq<usize>)
    ensures
        pushed_all(s, xs).len() == s.len() + xs.len(),
        forall|i: int|
            0 <= i < xs.len() ==> #[trigger] pushed_all(s, xs)[i] == xs[xs.len() - 1 - i],
        forall|i: int|
            xs.len() <= i < xs.len() + s.len() ==> #[trigger] pushed_all(s, xs)[i] == s[i
                - xs.len()],
    decreases xs.len(),
{
    if xs.len() > 0 {
        let t = pushed(s, xs[0]);
        let ys = xs.drop_first();
        lemma_pushed_all_layout(t, ys);
        assert forall|i: int| 0 <= i < xs.len() implies #[trigger] pushed_all(s, xs)[i]
            == xs[xs.len() - 1 - i] by {
            if i < ys.len() {
                assert(pushed_all(t, ys)[i] == ys[ys.len() - 1 - i]);
            } else {
                assert(pushed_all(t, ys)[i] == t[i - ys.len()]);
            }
        }
        assert forall|i: int| xs.len() <= i < xs.len() + s.len() implies #[trigger] pushed_all(
            s,
            xs,
        )[i] == s[i - xs.len()] by {
            assert(pushed_all(t, ys)[i] == t[i - ys.len()]);
        }
    }
}

/// Last in, first out: after the nodes of `xs` are pushed onto a list
/// holding `s`, the `k`-th pop hands out the `k`-th node of `xs` counted
/// from the last one pushed, and after as many pops as pushes the list holds
/// `s` again.
pub proof fn lemma_lifo(s: Seq<usize>, xs: Seq<usize>, k: nat)
    requires
        k < xs.len(),
    ensures
        popped_n(pushed_all(s, xs), k)[0] == xs[xs.len() - 1 - k],
        popped_n(pushed_all(s, xs), xs.len()) == s,
{
    lemma_pushed_all_layout(s, xs);
    lemma_popped_n_skip(pushed_all(s, xs), k);
    lemma_popped_n_skip(pushed_all(s, xs), xs.len());
    assert(pushed_all(s, xs).skip(xs.len() as int) =~= s);
}

/// After `n` pushes and `m` pops (`m <= n`) on a new list, it holds
/// `n - m` nodes.
pub proof fn lemma_size_after(xs: Seq<usize>, m: nat)
    requires
        m <= xs.len(),
    ensures
        popped_n(pushed_all(Seq::empty(), xs), m).len() == xs.len() - m,
{
    lemma_pushed_all_layout(Seq::empty(), xs);
    lemma_popped_n_skip(pushed_all(Seq::empty(), xs), m);
}

/// Popping an empty list, any number of times, leaves it empty.
pub proof fn lemma_pop_empty(m: nat)
    ensures
        popped_n(Seq::empty(), m) == Seq::<usize>::empty(),
    decreases m,
{
    if m > 0 {
        lemma_pop_empty((m - 1) as nat);
    }
}

/// A walk over a list of `n` nodes meets them in the order in which pops
/// would take them off: its `k`-th step and the `k`-th pop both hand out
/// node `s[k]`, and both are done after exactly `n` steps.
pub proof fn lemma_walk_order(s: Seq<usize>, k: nat)
    ensures
        k < s.len() ==> popped_n(s, k)[0] == s[k as int],
        popped_n(s, s.len()).len() == 0,
{
    lemma_popped_n_skip(s, k);
    lemma_popped_n_skip(s, s.len());
}

/// A finite set of indices below `n` has at most `n` elements.
pub(crate) proof fn lemma_indices_bounded(a: Set<usize>, n: usize)
    requires
        a.finite(),
        forall|x: usize| a.contains(x) ==> x < n,
    ensures
        a.len() <= n,
    decreases n,
{
    if n == 0 {
        assert(a =~= Set::<usize>::empty());
    } else {
        let m = (n - 1) as usize;
        let b = a.remove(m);
        lemma_indices_bounded(b, m);
    }
}

} // verus!
