//! An array-backed binary heap (priority queue) that supports both min-heap
//! and max-heap orderings through a pluggable comparison strategy.
//!
//! The heap keeps its elements in a dense array whose implicit binary tree
//! satisfies the heap property: no child outranks its parent, where
//! "outranks" is decided by the chosen [`order::Comparator`].  Elements are
//! inserted with [`heap::Heap::add`] and removed in priority order with
//! [`heap::Heap::next`], which yields `None` exactly when the heap is empty.

pub mod heap;
pub mod order;

pub use heap::Heap;
pub use heap::MaxHeap;
pub use heap::MinHeap;
pub use order::Comparator;
pub use order::MaxComparator;
pub use order::MinComparator;
