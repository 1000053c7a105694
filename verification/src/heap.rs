//! The heap itself: a dense array whose implicit binary tree keeps the heap
//! property, together with the min-heap / max-heap convenience constructors.

use vstd::prelude::*;

verus! {

use crate::order::Comparator;
use crate::order::MaxComparator;
use crate::order::MinComparator;

/// Index of the parent of the node at index `i` (the root sits at index 0).
pub open spec fn parent(i: int) -> int {
    (i - 1) / 2
}

/// The heap property: no node outranks its parent, so the root holds an
/// element of the highest priority.
pub open spec fn heap_property<T, C: Comparator<T>>(c: C, s: Seq<T>) -> bool {
    forall|i: int| 1 <= i < s.len() ==> !(#[trigger] c.ranks_above(s[i], s[parent(i)]))
}

/// The heap property everywhere except possibly on the edge from node `x`
/// up to its parent.
spec fn heap_except_node<T, C: Comparator<T>>(c: C, s: Seq<T>, x: int) -> bool {
    forall|i: int|
        1 <= i < s.len() && i != x ==> !(#[trigger] c.ranks_above(s[i], s[parent(i)]))
}

/// The heap property everywhere except possibly on the edges from the
/// children of node `x` up to `x`.
spec fn heap_except_children<T, C: Comparator<T>>(c: C, s: Seq<T>, x: int) -> bool {
    forall|i: int|
        1 <= i < s.len() && parent(i) != x ==> !(#[trigger] c.ranks_above(s[i], s[parent(i)]))
}

/// If node `x` has a parent, no child of `x` outranks that parent.
spec fn children_yield_above<T, C: Comparator<T>>(c: C, s: Seq<T>, x: int) -> bool {
    x >= 1 ==> forall|i: int|
        1 <= i < s.len() && parent(i) == x ==> !(#[trigger] c.ranks_above(s[i], s[parent(x)]))
}

/// Swapping two positions of a sequence keeps the multiset of its elements.
proof fn lemma_swap_preserves_multiset<T>(s: Seq<T>, i: int, j: int)
    requires
        0 <= i < s.len(),
        0 <= j < s.len(),
    ensures
        s.update(i, s[j]).update(j, s[i]).to_multiset() == s.to_multiset(),
{
    broadcast use vstd::seq_lib::group_to_multiset_ensures;

    let s1 = s.update(i, s[j]);
    let s2 = s1.update(j, s[i]);
    assert(s.to_multiset().count(s[i]) > 0);
    assert(s.to_multiset().count(s[j]) > 0);
    assert(s2.to_multiset() =~= s.to_multiset());
}

/// Swap the element at index `i` with the last element.
fn swap_tail<T>(v: &mut Vec<T>, i: usize)
    requires
        old(v).len() > 0,
        i < old(v).len(),
    ensures
        final(v)@ == old(v)@.update(i as int, old(v)@.last()).update(
            old(v)@.len() - 1,
            old(v)@[i as int],
        ),
{
    let x = v.swap_remove(i);
    v.push(x);
    proof {
        assert(v@ =~= old(v)@.update(i as int, old(v)@.last()).update(
            old(v)@.len() - 1,
            old(v)@[i as int],
        ));
    }
}

/// Swap the elements at indices `i` and `j`.
fn exchange<T>(v: &mut Vec<T>, i: usize, j: usize)
    requires
        i < old(v).len(),
        j < old(v).len(),
    ensures
        final(v)@ == old(v)@.update(i as int, old(v)@[j as int]).update(
            j as int,
            old(v)@[i as int],
        ),
{
    let ghost target = old(v)@.update(i as int, old(v)@[j as int]).update(
        j as int,
        old(v)@[i as int],
    );
    let last = v.len() - 1;
    if i == j {
        proof {
            assert(v@ =~= target);
        }
    } else if j == last {
        swap_tail(v, i);
        proof {
            assert(v@ =~= target);
        }
    } else if i == last {
        swap_tail(v, j);
        proof {
            assert(v@ =~= target);
        }
    } else {
        swap_tail(v, i);
        swap_tail(v, j);
        swap_tail(v, i);
        proof {
            assert(v@ =~= target);
        }
    }
}

/// An array-backed binary heap, ordered by the comparator `C`.
///
/// The elements occupy the array densely; the element at index `i` is the
/// parent of the elements at indices `2 * i + 1` and `2 * i + 2`.
pub struct Heap<T, C: Comparator<T>> {
    items: Vec<T>,
    comparator: C,
}

impl<T, C: Comparator<T>> View for Heap<T, C> {
    type V = Seq<T>;

    closed spec fn view(&self) -> Seq<T> {
        self.items@
    }
}

impl<T, C: Comparator<T>> Heap<T, C> {
    /// The comparison strategy this heap was built with.
    pub closed spec fn comparator(&self) -> C {
        self.comparator
    }

    /// The heap's invariant: the comparator's premise holds and the array
    /// satisfies the heap property.
    pub open spec fn well_formed(&self) -> bool {
        &&& self.comparator().reliable()
        &&& heap_property(self.comparator(), self@)
    }

    /// Create an empty heap that orders its elements by `comparator`.
    pub fn new(comparator: C) -> (h: Heap<T, C>)
        ensures
            h@ == Seq::<T>::empty(),
            h.comparator() == comparator,
            comparator.reliable() ==> h.well_formed(),
    {
        Heap { items: Vec::new(), comparator }
    }

    /// The number of elements currently in the heap.
    pub fn len(&self) -> (n: usize)
        ensures
            n == self@.len(),
    {
        self.items.len()
    }

    /// Does the heap hold no elements?
    pub fn is_empty(&self) -> (r: bool)
        ensures
            r == (self@.len() == 0),
    {
        self.len() == 0
    }

    /// Index of the parent of the node at index `idx`.
    fn parent_idx(&self, idx: usize) -> (p: usize)
        requires
            1 <= idx,
        ensures
            p == parent(idx as int),
    {
        (idx - 1) / 2
    }

    /// Restore the heap property after the element at index `idx` changed:
    /// while the element outranks its parent, swap it upward.
    fn heapify_up(&mut self, idx: usize)
        requires
            old(self).comparator().reliable(),
            idx < old(self)@.len(),
            heap_except_node(old(self).comparator(), old(self)@, idx as int),
            children_yield_above(old(self).comparator(), old(self)@, idx as int),
        ensures
            final(self).comparator() == old(self).comparator(),
            final(self)@.len() == old(self)@.len(),
            final(self)@.to_multiset() == old(self)@.to_multiset(),
            heap_property(final(self).comparator(), final(self)@),
        decreases idx,
    {
        let ghost c = self.comparator;
        let ghost s = self.items@;
        if idx == 0 {
            return;
        }
        let pidx = self.parent_idx(idx);
        let rs = self.comparator.outranks(&self.items[idx], &self.items[pidx]);
        if rs {
            let ghost v = s[idx as int];
            let ghost u = s[pidx as int];
            exchange(&mut self.items, idx, pidx);
            let ghost s2 = self.items@;
            proof {
                lemma_swap_preserves_multiset(s, idx as int, pidx as int);
                assert forall|i: int| 1 <= i < s2.len() && i != pidx implies !(c.ranks_above(
                    s2[i],
                    s2[parent(i)],
                )) by {
                    if i == idx {
                        c.lemma_asymmetric(v, u);
                    } else if parent(i) == idx {
                        assert(!c.ranks_above(s[i], s[parent(idx as int)]));
                    } else if parent(i) == pidx {
                        assert(!c.ranks_above(s[i], s[parent(i)]));
                        if c.ranks_above(s[i], v) {
                            c.lemma_transitive(s[i], v, u);
                        }
                    } else {
                        assert(!c.ranks_above(s[i], s[parent(i)]));
                    }
                }
                if pidx >= 1 {
                    let gp = parent(pidx as int);
                    assert forall|i: int|
                        1 <= i < s2.len() && parent(i) == pidx implies !(c.ranks_above(
                        s2[i],
                        s2[gp],
                    )) by {
                        assert(!c.ranks_above(u, s[gp]));
                        if i != idx {
                            assert(!c.ranks_above(s[i], s[parent(i)]));
                            c.lemma_blocked_transitive(s[i], u, s[gp]);
                        }
                    }
                }
            }
            self.heapify_up(pidx);
        } else {
            proof {
                assert forall|i: int| 1 <= i < s.len() implies !(c.ranks_above(
                    s[i],
                    s[parent(i)],
                )) by {
                    if i != idx {
                        assert(!c.ranks_above(s[i], s[parent(i)]));
                    }
                }
            }
        }
    }

    /// Does the node at index `idx` have at least one child?
    fn children_present(&self, idx: usize) -> (r: bool)
        requires
            idx < self@.len(),
        ensures
            r == (2 * idx + 1 < self@.len()),
    {
        idx < self.items.len() / 2
    }

    /// Index of the left child of the node at index `idx`.
    fn left_child_idx(&self, idx: usize) -> (l: usize)
        requires
            2 * idx + 1 < self@.len(),
        ensures
            l == 2 * idx + 1,
    {
        let n: usize = self.items.len();
        assert(2 * idx + 1 < n);
        idx * 2 + 1
    }

    /// Index of the right child of the node at index `idx`; it may lie just
    /// past the end of the heap when only the left child exists.
    fn right_child_idx(&self, idx: usize) -> (r: usize)
        requires
            2 * idx + 1 < self@.len(),
        ensures
            r == 2 * idx + 2,
    {
        let n: usize = self.items.len();
        assert(2 * idx + 2 <= n);
        self.left_child_idx(idx) + 1
    }

    /// Restore the heap property after the element at index `idx` changed:
    /// while a child outranks the element, swap the element downward with
    /// its highest-priority child (on a tie of the two children, the right
    /// one is chosen exactly when the left does not strictly outrank it).
    fn heapify_down(&mut self, idx: usize)
        requires
            old(self).comparator().reliable(),
            idx < old(self)@.len(),
            heap_except_children(old(self).comparator(), old(self)@, idx as int),
            children_yield_above(old(self).comparator(), old(self)@, idx as int),
        ensures
            final(self).comparator() == old(self).comparator(),
            final(self)@.len() == old(self)@.len(),
            final(self)@.to_multiset() == old(self)@.to_multiset(),
            heap_property(final(self).comparator(), final(self)@),
        decreases old(self)@.len() - idx,
    {
        let ghost c = self.comparator;
        let ghost s = self.items@;
        if !self.children_present(idx) {
            proof {
                assert forall|i: int| 1 <= i < s.len() implies !(c.ranks_above(
                    s[i],
                    s[parent(i)],
                )) by {
                    if parent(i) == idx {
                        assert(2 * idx + 1 <= i <= 2 * idx + 2);
                        assert(false);
                    } else {
                        assert(!c.ranks_above(s[i], s[parent(i)]));
                    }
                }
            }
            return;
        }
        let left = self.left_child_idx(idx);
        let right = self.right_child_idx(idx);
        let ghost v = s[idx as int];
        let ghost lv = s[left as int];
        if right >= self.items.len() {
            let rs = self.comparator.outranks(&self.items[left], &self.items[idx]);
            if rs {
                exchange(&mut self.items, idx, left);
                proof {
                    lemma_swap_preserves_multiset(s, idx as int, left as int);
                    self.lemma_after_downward_swap(s, idx as int, left as int);
                }
                self.heapify_down(left);
            } else {
                proof {
                    assert forall|i: int| 1 <= i < s.len() implies !(c.ranks_above(
                        s[i],
                        s[parent(i)],
                    )) by {
                        if parent(i) == idx {
                            assert(2 * idx + 1 <= i <= 2 * idx + 2);
                            assert(i == left);
                        } else {
                            assert(!c.ranks_above(s[i], s[parent(i)]));
                        }
                    }
                }
            }
            return;
        }
        let ghost rv = s[right as int];
        let rs = self.comparator.outranks(&self.items[left], &self.items[right]);
        if rs {
            let rs2 = self.comparator.outranks(&self.items[left], &self.items[idx]);
            if rs2 {
                exchange(&mut self.items, idx, left);
                proof {
                    lemma_swap_preserves_multiset(s, idx as int, left as int);
                    c.lemma_asymmetric(lv, rv);
                    self.lemma_after_downward_swap(s, idx as int, left as int);
                }
                self.heapify_down(left);
            } else {
                proof {
                    assert forall|i: int| 1 <= i < s.len() implies !(c.ranks_above(
                        s[i],
                        s[parent(i)],
                    )) by {
                        if parent(i) == idx {
                            assert(2 * idx + 1 <= i <= 2 * idx + 2);
                            if i == right {
                                if c.ranks_above(rv, v) {
                                    c.lemma_transitive(lv, rv, v);
                                }
                            }
                        } else {
                            assert(!c.ranks_above(s[i], s[parent(i)]));
                        }
                    }
                }
            }
        } else {
            let rs2 = self.comparator.outranks(&self.items[right], &self.items[idx]);
            if rs2 {
                exchange(&mut self.items, idx, right);
                proof {
                    lemma_swap_preserves_multiset(s, idx as int, right as int);
                    self.lemma_after_downward_swap(s, idx as int, right as int);
                }
                self.heapify_down(right);
            } else {
                proof {
                    assert forall|i: int| 1 <= i < s.len() implies !(c.ranks_above(
                        s[i],
                        s[parent(i)],
                    )) by {
                        if parent(i) == idx {
                            assert(2 * idx + 1 <= i <= 2 * idx + 2);
                            if i == left {
                                c.lemma_blocked_transitive(lv, rv, v);
                            }
                        } else {
                            assert(!c.ranks_above(s[i], s[parent(i)]));
                        }
                    }
                }
            }
        }
    }

    /// After swapping the element at `idx` with the child at `ch` that was
    /// chosen for outranking it (and, when a sibling exists, for not being
    /// outranked by that sibling), the heap property holds everywhere except
    /// possibly below `ch`, and no child of `ch` outranks its new parent.
    proof fn lemma_after_downward_swap(&self, s: Seq<T>, idx: int, ch: int)
        requires
            self.comparator().reliable(),
            0 <= idx < s.len(),
            ch == 2 * idx + 1 || ch == 2 * idx + 2,
            ch < s.len(),
            heap_except_children(self.comparator(), s, idx),
            children_yield_above(self.comparator(), s, idx),
            self.comparator().ranks_above(s[ch], s[idx]),
            ch + 1 < s.len() && ch == 2 * idx + 1 ==> !self.comparator().ranks_above(
                s[ch + 1],
                s[ch],
            ),
            ch == 2 * idx + 2 ==> !self.comparator().ranks_above(s[ch - 1], s[ch]),
            self@ == s.update(idx, s[ch]).update(ch, s[idx]),
        ensures
            heap_except_children(self.comparator(), self@, ch),
            children_yield_above(self.comparator(), self@, ch),
    {
        let c = self.comparator();
        let s2 = self@;
        let v = s[idx];
        let w = s[ch];
        c.lemma_asymmetric(w, v);
        assert forall|i: int| 1 <= i < s2.len() && parent(i) != ch implies !(c.ranks_above(
            s2[i],
            s2[parent(i)],
        )) by {
            if i == ch {
                assert(parent(ch) == idx);
            } else if i == idx {
                assert(!c.ranks_above(w, s[parent(idx)]));
            } else if parent(i) == idx {
                assert(2 * idx + 1 <= i <= 2 * idx + 2);
            } else {
                assert(!c.ranks_above(s[i], s[parent(i)]));
            }
        }
        assert forall|i: int| 1 <= i < s2.len() && parent(i) == ch implies !(c.ranks_above(
            s2[i],
            s2[parent(ch)],
        )) by {
            assert(!c.ranks_above(s[i], s[parent(i)]));
        }
    }

    /// Insert `value` into the heap, then restore the heap property by
    /// swapping it upward as far as its priority carries it.
    pub fn add(&mut self, value: T)
        requires
            old(self).well_formed(),
        ensures
            final(self).well_formed(),
            final(self).comparator() == old(self).comparator(),
            final(self)@.len() == old(self)@.len() + 1,
            final(self)@.to_multiset() == old(self)@.to_multiset().insert(value),
    {
        let ghost c = self.comparator;
        let ghost s = self.items@;
        self.items.push(value);
        let idx = self.items.len() - 1;
        proof {
            broadcast use vstd::seq_lib::group_to_multiset_ensures;

            let s1 = self.items@;
            assert forall|i: int| 1 <= i < s1.len() && i != idx implies !(c.ranks_above(
                s1[i],
                s1[parent(i)],
            )) by {
                assert(!c.ranks_above(s[i], s[parent(i)]));
            }
            assert forall|i: int|
                1 <= i < s1.len() && parent(i) == idx implies !(c.ranks_above(
                s1[i],
                s1[parent(idx as int)],
            )) by {
                assert(parent(i) < i);
                assert(false);
            }
        }
        self.heapify_up(idx);
    }

    /// Extract the highest-priority element, or signal emptiness.
    ///
    /// On a non-empty heap this removes and returns the root — an element
    /// that nothing left in the heap outranks, so repeated calls drain the
    /// heap in priority order.  On an empty heap it returns `None` and
    /// leaves the heap untouched, however often it is called.
    pub fn next(&mut self) -> (extracted: Option<T>)
        requires
            old(self).well_formed(),
        ensures
            final(self).well_formed(),
            final(self).comparator() == old(self).comparator(),
            old(self)@.len() == 0 ==> extracted is None && *final(self) == *old(self),
            old(self)@.len() > 0 ==> {
                &&& extracted == Some(old(self)@[0])
                &&& final(self)@.len() == old(self)@.len() - 1
                &&& final(self)@.to_multiset() == old(self)@.to_multiset().remove(old(self)@[0])
                &&& forall|i: int|
                    0 <= i < final(self)@.len() ==> !(#[trigger] old(self).comparator().ranks_above(
                        final(self)@[i],
                        old(self)@[0],
                    ))
            },
    {
        let ghost c = self.comparator;
        let ghost s = self.items@;
        if self.items.len() == 0 {
            return None;
        }
        proof {
            lemma_root_tops(c, s);
        }
        let last = self.items.len() - 1;
        exchange(&mut self.items, 0, last);
        let item = self.items.pop();
        proof {
            broadcast use vstd::seq_lib::group_to_multiset_ensures;

            let s1 = s.update(0, s[last as int]).update(last as int, s[0]);
            let s2 = self.items@;
            assert(s2 =~= s1.remove(last as int));
            lemma_swap_preserves_multiset(s, 0, last as int);
            assert(s2.to_multiset() == s.to_multiset().remove(s[0]));
            assert forall|i: int| 1 <= i < s2.len() && parent(i) != 0 implies !(c.ranks_above(
                s2[i],
                s2[parent(i)],
            )) by {
                assert(!c.ranks_above(s[i], s[parent(i)]));
            }
        }
        if self.items.len() > 0 {
            self.heapify_down(0);
        }
        proof {
            broadcast use vstd::seq_lib::group_to_multiset_ensures;

            let f = self.items@;
            assert forall|i: int| 0 <= i < f.len() implies !(c.ranks_above(f[i], s[0])) by {
                let x = f[i];
                assert(f.contains(x));
                assert(f.to_multiset().count(x) > 0);
                assert(s.to_multiset().count(x) > 0);
                assert(s.contains(x));
                let j = choose|j: int| 0 <= j < s.len() && s[j] == x;
                assert(!c.ranks_above(s[j], s[0]));
            }
        }
        item
    }
}

impl<T: Ord> Heap<T, MinComparator> {
    /// Create an empty min-heap: extraction yields the elements ascending.
    pub fn new_min() -> (h: Heap<T, MinComparator>)
        ensures
            h@ == Seq::<T>::empty(),
            h.comparator() == MinComparator,
            crate::order::lawful_order::<T>() ==> h.well_formed(),
    {
        Heap::new(MinComparator)
    }
}

impl<T: Ord> Heap<T, MaxComparator> {
    /// Create an empty max-heap: extraction yields the elements descending.
    pub fn new_max() -> (h: Heap<T, MaxComparator>)
        ensures
            h@ == Seq::<T>::empty(),
            h.comparator() == MaxComparator,
            crate::order::lawful_order::<T>() ==> h.well_formed(),
    {
        Heap::new(MaxComparator)
    }
}

/// In a heap no node outranks the root: the chain of "does not outrank"
/// edges from a node up to the root composes transitively.
proof fn lemma_node_below_root<T, C: Comparator<T>>(c: C, s: Seq<T>, i: int)
    requires
        c.reliable(),
        heap_property(c, s),
        0 <= i < s.len(),
    ensures
        !c.ranks_above(s[i], s[0]),
    decreases i,
{
    if i == 0 {
        if c.ranks_above(s[0], s[0]) {
            c.lemma_asymmetric(s[0], s[0]);
        }
    } else {
        assert(0 <= parent(i) < i);
        lemma_node_below_root(c, s, parent(i));
        assert(!c.ranks_above(s[i], s[parent(i)]));
        c.lemma_blocked_transitive(s[i], s[parent(i)], s[0]);
    }
}

/// Law (order preservation): in an array with the heap property no element
/// outranks the root, so the root holds an element of the highest priority
/// and repeated extraction yields the elements in priority order.
pub proof fn lemma_root_tops<T, C: Comparator<T>>(c: C, s: Seq<T>)
    requires
        c.reliable(),
        heap_property(c, s),
        s.len() > 0,
    ensures
        forall|i: int| 0 <= i < s.len() ==> !(#[trigger] c.ranks_above(s[i], s[0])),
{
    assert forall|i: int| 0 <= i < s.len() implies !(c.ranks_above(s[i], s[0])) by {
        lemma_node_below_root(c, s, i);
    }
}

/// Constructor shorthand for a min-heap over any totally ordered type.
pub struct MinHeap;

impl MinHeap {
    /// Create a new min-heap.
    pub fn new<T: Ord>() -> (h: Heap<T, MinComparator>)
        ensures
            h@ == Seq::<T>::empty(),
            h.comparator() == MinComparator,
            crate::order::lawful_order::<T>() ==> h.well_formed(),
    {
        Heap::new(MinComparator)
    }
}

/// Constructor shorthand for a max-heap over any totally ordered type.
pub struct MaxHeap;

impl MaxHeap {
    /// Create a new max-heap.
    pub fn new<T: Ord>() -> (h: Heap<T, MaxComparator>)
        ensures
            h@ == Seq::<T>::empty(),
            h.comparator() == MaxComparator,
            crate::order::lawful_order::<T>() ==> h.well_formed(),
    {
        Heap::new(MaxComparator)
    }
}

} // verus!
