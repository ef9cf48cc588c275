//! A rope: a sequence kept in a binary tree, spliced by split and join.
use vstd::prelude::*;

use crate::error::RopeError;
use crate::tree::{derefs, Repr};
use crate::order::{cmp_elems, elems_eq, eq_elems, lex_cmp};
use crate::{delete_outcome, insert_outcome};
use core::cmp::Ordering;
use vstd::std_specs::cmp::{PartialEqSpec, PartialOrdSpec};

verus! {

/// A sequence of elements stored as a tree of contiguous runs.
///
/// Insertion and deletion split the tree at an index and join the pieces;
/// the tree is never rebalanced. Every edit consumes the rope and returns a
/// new one.
#[derive(Debug)]
pub struct Rope<T> {
    repr: Repr<T>,
}

impl<T> View for Rope<T> {
    type V = Seq<T>;

    /// The elements of the rope, in order.
    closed spec fn view(&self) -> Seq<T> {
        self.repr.flat()
    }
}

impl<T> Rope<T> {
    #[verifier::type_invariant]
    spec fn inv(&self) -> bool {
        self.repr.wf()
    }

    /// Returns an empty `Rope`.
    ///
    /// Computes in O(1).
    pub fn new() -> (r: Self)
        ensures
            r@ == Seq::<T>::empty(),
    {
        Self::of(Repr::new())
    }

    /// Returns the length of this `Rope`.
    ///
    /// Computes in O(1).
    pub fn len(&self) -> (n: usize)
        ensures
            n == self@.len(),
    {
        proof {
            use_type_invariant(self);
        }
        self.repr.len()
    }

    /// Returns whether this `Rope` is empty.
    ///
    /// Computes in O(1).
    pub fn is_empty(&self) -> (b: bool)
        ensures
            b <==> self@.len() == 0,
    {
        self.len() == 0
    }

    /// Inserts `xs` into the `Rope` starting at `i`.
    ///
    /// Fails iff `i > len`, reporting the length and `i`.
    pub fn insert(self, i: usize, xs: Vec<T>) -> (r: Result<Self, RopeError>)
        requires
            self@.len() + xs@.len() <= usize::MAX,
        ensures
            match r {
                Ok(rope) => insert_outcome(self@, i, xs@) == Ok::<Seq<T>, RopeError>(rope@),
                Err(e) => insert_outcome(self@, i, xs@) == Err::<Seq<T>, RopeError>(e),
            },
    {
        proof {
            use_type_invariant(&self);
        }
        let ghost s = self@;
        match self.repr.split(i) {
            Err(e) => Err(e),
            Ok((a, c)) => {
                let b = Repr::Leaf(xs);
                let bc = Repr::node(b, c);
                let r = Repr::node(a, bc);
                assert(r.flat() =~= crate::spliced(s, i as int, xs@));
                Ok(Self::of(r))
            },
        }
    }

    /// Deletes the `range` from this `Rope`.
    ///
    /// Fails iff `range.start > range.end` (an invalid range) or
    /// `range.end > len` (out of bounds, reporting the length and the first
    /// endpoint past it).
    pub fn delete(self, range: std::ops::Range<usize>) -> (r: Result<Self, RopeError>)
        ensures
            match r {
                Ok(rope) => delete_outcome(self@, range.start, range.end) == Ok::<Seq<T>, RopeError>(rope@),
                Err(e) => delete_outcome(self@, range.start, range.end) == Err::<Seq<T>, RopeError>(e),
            },
    {
        proof {
            use_type_invariant(&self);
        }
        let ghost s = self@;
        let start = range.start;
        let end = range.end;
        if start > end {
            return Err(RopeError::InvalidRange { start, end });
        }
        let n = self.repr.len();
        match self.repr.split(start) {
            Err(e) => Err(e),
            Ok((a, b)) => match b.split(end - start) {
                Err(_) => Err(RopeError::IndexOutOfBounds { len: n, index: end }),
                Ok((_, d)) => {
                    let r = Repr::node(a, d);
                    assert(r.flat() =~= crate::excised(s, start as int, end as int));
                    Ok(Self::of(r))
                },
            },
        }
    }

    /// Returns the elements of this `Rope`, borrowed, in order.
    ///
    /// Computes in O(n).
    pub fn to_vec(&self) -> (r: Vec<&T>)
        ensures
            derefs(r@) == self@,
    {
        proof {
            use_type_invariant(self);
        }
        self.repr.to_vec()
    }

    fn of(repr: Repr<T>) -> (r: Self)
        requires
            repr.wf(),
        ensures
            r@ == repr.flat(),
    {
        Self { repr }
    }
}

impl<T> Rope<T> {
    /// A rope built from `val` holds the elements of `val`.
    pub proof fn lemma_from(val: Vec<T>)
        ensures
            <Self as vstd::std_specs::convert::FromSpec<Vec<T>>>::obeys_from_spec(),
            <Self as vstd::std_specs::convert::FromSpec<Vec<T>>>::from_spec(val)@ == val@,
    {
    }
}

impl<T> From<Vec<T>> for Rope<T> {
    /// Wraps `val` as a single run, without copying.
    fn from(val: Vec<T>) -> Self {
        proof {
            assert(val@.len() == val.len());
        }
        Rope { repr: Repr::Leaf(val) }
    }
}

impl<T> vstd::std_specs::convert::FromSpecImpl<Vec<T>> for Rope<T> {
    open spec fn obeys_from_spec() -> bool {
        true
    }

    closed spec fn from_spec(val: Vec<T>) -> Self {
        Rope { repr: Repr::Leaf(val) }
    }
}

/// Two ropes are equal when their elements are, whatever the shapes of
/// their trees.
impl<T: PartialEq> PartialEq for Rope<T> {
    fn eq(&self, other: &Rope<T>) -> bool {
        eq_elems(&self.to_vec(), &other.to_vec())
    }
}

impl<T: PartialEq> vstd::std_specs::cmp::PartialEqSpecImpl for Rope<T> {
    open spec fn obeys_eq_spec() -> bool {
        T::obeys_eq_spec()
    }

    open spec fn eq_spec(&self, other: &Rope<T>) -> bool {
        elems_eq(self@, other@)
    }
}

impl<T: Eq> Eq for Rope<T> {
}

/// Ropes are ordered lexicographically by their elements.
impl<T: PartialOrd> PartialOrd for Rope<T> {
    fn partial_cmp(&self, other: &Rope<T>) -> Option<Ordering> {
        cmp_elems(&self.to_vec(), &other.to_vec())
    }
}

impl<T: PartialOrd> vstd::std_specs::cmp::PartialOrdSpecImpl for Rope<T> {
    open spec fn obeys_partial_cmp_spec() -> bool {
        T::obeys_partial_cmp_spec()
    }

    open spec fn partial_cmp_spec(&self, other: &Rope<T>) -> Option<Ordering> {
        lex_cmp(self@, other@)
    }
}

} // verus!
