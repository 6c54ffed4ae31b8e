//! Intrusive singly linked lists. Nodes live in a table that the caller
//! owns and carry their own link slot; a list keeps only its length and the
//! slot of its head, and never allocates or frees a node. Links are indices
//! into the table.

mod chain;
mod hook;
mod iter;
mod list;
mod slot;

pub use chain::{
    is_chain, lemma_lifo, lemma_pop_empty, lemma_size_after, lemma_walk_order, next_in, popped,
    popped_n, pushed, pushed_all,
};
pub use hook::{link_of, SListHook, Wrapped};
pub use iter::{lemma_downgrade, Iter, IterMut};
pub use list::{Allocator, SList, SList2};
pub use slot::Pointer;
