//! Comparison strategies for the heap.
//!
//! A heap is parameterized by a [`Comparator`], a two-argument predicate that
//! decides which of two elements has the strictly higher priority.  The two
//! ready-made strategies, [`MinComparator`] and [`MaxComparator`], order any
//! type whose `partial_cmp` follows its specification; a user-defined
//! strategy implements [`Comparator`] directly.

use vstd::prelude::*;

verus! {

use core::cmp::Ordering;
use vstd::std_specs::cmp::PartialOrdSpec;

/// A comparison strategy: `ranks_above(a, b)` means "`a` has strictly higher
/// priority than `b`", so `a` belongs closer to the root of the heap.
///
/// The three lemmas require the relation to be a strict weak ordering
/// (asymmetric, transitive, and with transitive "does not outrank").  The
/// heap relies on these laws to keep the heap property through insertions
/// and extractions; a comparator that cannot supply them cannot be used with
/// a verified heap.  Every obligation is conditioned on `reliable`, the
/// strategy's own premise (for the ready-made strategies: that the element
/// type's comparison operators follow their specification).
pub trait Comparator<T>: Sized {
    /// The premise under which this strategy's executable comparison agrees
    /// with `ranks_above` and the ordering laws hold.
    spec fn reliable(&self) -> bool;

    /// The ordering relation this strategy decides: does `a` have strictly
    /// higher priority than `b`?
    spec fn ranks_above(&self, a: T, b: T) -> bool;

    /// Law: two elements never outrank each other.
    proof fn lemma_asymmetric(&self, a: T, b: T)
        requires
            self.reliable(),
            self.ranks_above(a, b),
        ensures
            !self.ranks_above(b, a),
    ;

    /// Law: outranking is transitive.
    proof fn lemma_transitive(&self, a: T, b: T, c: T)
        requires
            self.reliable(),
            self.ranks_above(a, b),
            self.ranks_above(b, c),
        ensures
            self.ranks_above(a, c),
    ;

    /// Law: "does not outrank" is transitive.
    proof fn lemma_blocked_transitive(&self, a: T, b: T, c: T)
        requires
            self.reliable(),
            !self.ranks_above(a, b),
            !self.ranks_above(b, c),
        ensures
            !self.ranks_above(a, c),
    ;

    /// Decide whether `a` has strictly higher priority than `b`.
    fn outranks(&self, a: &T, b: &T) -> (r: bool)
        requires
            self.reliable(),
        ensures
            r == self.ranks_above(*a, *b),
    ;
}

/// `T`'s `partial_cmp` specification describes a total preorder: every pair
/// of values compares `Some`, `Less` mirrors `Greater` under swapping the
/// arguments, "not greater" is transitive, and the executable comparison
/// operators follow the specification.  Primitive integer types satisfy all
/// of this by their specifications in `vstd`.
pub open spec fn lawful_order<T: PartialOrd>() -> bool {
    &&& T::obeys_partial_cmp_spec()
    &&& forall|a: T, b: T| (#[trigger] a.partial_cmp_spec(&b)) is Some
    &&& forall|a: T, b: T|
        ((#[trigger] a.partial_cmp_spec(&b)) == Some(Ordering::Less) <==> b.partial_cmp_spec(&a)
            == Some(Ordering::Greater))
    &&& forall|a: T, b: T, c: T|
        #![trigger a.partial_cmp_spec(&b), b.partial_cmp_spec(&c)]
        (a.partial_cmp_spec(&b) != Some(Ordering::Greater) && b.partial_cmp_spec(&c) != Some(
            Ordering::Greater,
        ) ==> a.partial_cmp_spec(&c) != Some(Ordering::Greater))
}

/// Under `lawful_order`, two values whose comparison is `Equal` in one
/// direction compare `Equal` in the other direction as well.
proof fn lemma_equal_flips<T: PartialOrd>(a: T, b: T)
    requires
        lawful_order::<T>(),
        a.partial_cmp_spec(&b) == Some(Ordering::Equal),
    ensures
        b.partial_cmp_spec(&a) == Some(Ordering::Equal),
{
    assert(b.partial_cmp_spec(&a) is Some);
    assert(b.partial_cmp_spec(&a) != Some(Ordering::Less));
    assert(b.partial_cmp_spec(&a) != Some(Ordering::Greater));
}

/// Orders elements ascending: the smaller element has the higher priority,
/// which makes the heap a min-heap.
#[derive(Clone, Copy)]
pub struct MinComparator;

impl<T: PartialOrd> Comparator<T> for MinComparator {
    open spec fn reliable(&self) -> bool {
        lawful_order::<T>()
    }

    open spec fn ranks_above(&self, a: T, b: T) -> bool {
        a.partial_cmp_spec(&b) == Some(Ordering::Less)
    }

    proof fn lemma_asymmetric(&self, a: T, b: T) {
        assert(b.partial_cmp_spec(&a) == Some(Ordering::Greater));
    }

    proof fn lemma_transitive(&self, a: T, b: T, c: T) {
        assert(a.partial_cmp_spec(&c) != Some(Ordering::Greater));
        if a.partial_cmp_spec(&c) == Some(Ordering::Equal) {
            lemma_equal_flips(a, c);
            assert(c.partial_cmp_spec(&a) != Some(Ordering::Greater));
            assert(a.partial_cmp_spec(&b) != Some(Ordering::Greater));
            assert(c.partial_cmp_spec(&b) != Some(Ordering::Greater));
            assert(c.partial_cmp_spec(&b) == Some(Ordering::Greater));
        }
        assert(a.partial_cmp_spec(&c) is Some);
    }

    proof fn lemma_blocked_transitive(&self, a: T, b: T, c: T) {
        assert(b.partial_cmp_spec(&a) != Some(Ordering::Greater));
        assert(c.partial_cmp_spec(&b) != Some(Ordering::Greater));
        assert(c.partial_cmp_spec(&a) != Some(Ordering::Greater));
    }

    fn outranks(&self, a: &T, b: &T) -> (r: bool) {
        *a < *b
    }
}

/// Orders elements descending: the larger element has the higher priority,
/// which makes the heap a max-heap.
#[derive(Clone, Copy)]
pub struct MaxComparator;

impl<T: PartialOrd> Comparator<T> for MaxComparator {
    open spec fn reliable(&self) -> bool {
        lawful_order::<T>()
    }

    open spec fn ranks_above(&self, a: T, b: T) -> bool {
        a.partial_cmp_spec(&b) == Some(Ordering::Greater)
    }

    proof fn lemma_asymmetric(&self, a: T, b: T) {
        assert(b.partial_cmp_spec(&a) == Some(Ordering::Less));
    }

    proof fn lemma_transitive(&self, a: T, b: T, c: T) {
        assert(b.partial_cmp_spec(&a) == Some(Ordering::Less));
        assert(c.partial_cmp_spec(&b) == Some(Ordering::Less));
        assert(c.partial_cmp_spec(&a) != Some(Ordering::Greater));
        if c.partial_cmp_spec(&a) == Some(Ordering::Equal) {
            lemma_equal_flips(c, a);
            assert(a.partial_cmp_spec(&c) != Some(Ordering::Greater));
            assert(c.partial_cmp_spec(&b) != Some(Ordering::Greater));
            assert(a.partial_cmp_spec(&b) != Some(Ordering::Greater));
        }
        assert(c.partial_cmp_spec(&a) is Some);
        assert(c.partial_cmp_spec(&a) == Some(Ordering::Less));
    }

    proof fn lemma_blocked_transitive(&self, a: T, b: T, c: T) {
        assert(a.partial_cmp_spec(&c) != Some(Ordering::Greater));
    }

    fn outranks(&self, a: &T, b: &T) -> (r: bool) {
        *a > *b
    }
}

} // verus!
