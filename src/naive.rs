//! A rope kept as one flat vector: every edit costs time linear in the
//! length. It offers the operations of [`crate::Rope`] under the same
//! contracts and serves as a reference to compare against.
use vstd::prelude::*;

use crate::error::RopeError;
use crate::tree::derefs;
use crate::{delete_outcome, insert_outcome};

verus! {

/// A sequence of elements stored in one vector.
#[derive(Debug, Clone, PartialEq, Eq, PartialOrd, Ord)]
pub struct Rope<T> {
    repr: Vec<T>,
}

impl<T> View for Rope<T> {
    type V = Seq<T>;

    /// The elements of the rope, in order.
    closed spec fn view(&self) -> Seq<T> {
        self.repr@
    }
}

impl<T> Rope<T> {
    /// Returns an empty `Rope`.
    ///
    /// Computes in O(1).
    pub fn new() -> (r: Self)
        ensures
            r@ == Seq::<T>::empty(),
    {
        Self { repr: Vec::new() }
    }

    /// Returns the length of this `Rope`.
    ///
    /// Computes in O(1).
    pub fn len(&self) -> (n: usize)
        ensures
            n == self@.len(),
    {
        self.repr.len()
    }

    /// Returns whether this `Rope` is empty.
    ///
    /// Computes in O(1).
    pub fn is_empty(&self) -> (b: bool)
        ensures
            b <==> self@.len() == 0,
    {
        self.repr.is_empty()
    }

    /// Inserts `xs` into the `Rope` starting at `i`.
    ///
    /// Fails iff `i > len`, reporting the length and `i`.
    pub fn insert(self, i: usize, xs: Vec<T>) -> (r: Result<Self, RopeError>)
        requires
            self@.len() + xs@.len() <= usize::MAX,
        ensures
            match r {
                Ok(rope) => insert_outcome(self@, i, xs@) == Ok::<Seq<T>, RopeError>(rope@),
                Err(e) => insert_outcome(self@, i, xs@) == Err::<Seq<T>, RopeError>(e),
            },
    {
        let mut repr = self.repr;
        let mut xs = xs;
        let n = repr.len();
        if i > n {
            return Err(RopeError::IndexOutOfBounds { len: n, index: i });
        }
        let ghost s = repr@;
        let ghost ys = xs@;
        let mut end = repr.split_off(i);
        repr.append(&mut xs);
        repr.append(&mut end);
        assert(repr@ =~= crate::spliced(s, i as int, ys));
        Ok(Self { repr })
    }

    /// Removes the `range` from this `Rope`.
    ///
    /// Fails iff `range.start > range.end` (an invalid range) or
    /// `range.end > len` (out of bounds, reporting the length and the first
    /// endpoint past it).
    pub fn remove(self, range: std::ops::Range<usize>) -> (r: Result<Self, RopeError>)
        ensures
            match r {
                Ok(rope) => delete_outcome(self@, range.start, range.end) == Ok::<Seq<T>, RopeError>(rope@),
                Err(e) => delete_outcome(self@, range.start, range.end) == Err::<Seq<T>, RopeError>(e),
            },
    {
        let start = range.start;
        let end = range.end;
        if start > end {
            return Err(RopeError::InvalidRange { start, end });
        }
        let n = self.repr.len();
        if start > n {
            return Err(RopeError::IndexOutOfBounds { len: n, index: start });
        }
        if end > n {
            return Err(RopeError::IndexOutOfBounds { len: n, index: end });
        }
        let ghost s = self.repr@;
        let mut repr = self.repr;
        let mut removed = repr.split_off(start);
        let mut rest = removed.split_off(end - start);
        repr.append(&mut rest);
        assert(repr@ =~= crate::excised(s, start as int, end as int));
        Ok(Self { repr })
    }

    /// Returns the elements of this `Rope`, borrowed, in order.
    ///
    /// Computes in O(n).
    pub fn to_vec(&self) -> (r: Vec<&T>)
        ensures
            derefs(r@) == self@,
    {
        let mut ret: Vec<&T> = Vec::with_capacity(self.repr.len());
        let mut j: usize = 0;
        while j < self.repr.len()
            invariant
                j <= self@.len(),
                self@ == self.repr@,
                derefs(ret@) == self@.subrange(0, j as int),
            decreases self@.len() - j,
        {
            let ghost old_r = ret@;
            ret.push(&self.repr[j]);
            assert(derefs(ret@) =~= derefs(old_r).push(self@[j as int]));
            j = j + 1;
            assert(derefs(ret@) =~= self@.subrange(0, j as int));
        }
        assert(self@.subrange(0, j as int) =~= self@);
        ret
    }

    /// A rope built from `repr` holds the elements of `repr`.
    pub proof fn lemma_from(repr: Vec<T>)
        ensures
            <Self as vstd::std_specs::convert::FromSpec<Vec<T>>>::obeys_from_spec(),
            <Self as vstd::std_specs::convert::FromSpec<Vec<T>>>::from_spec(repr)@ == repr@,
    {
    }
}

impl<T> From<Vec<T>> for Rope<T> {
    /// Wraps `repr`, without copying.
    fn from(repr: Vec<T>) -> Self {
        Self { repr }
    }
}

impl<T> vstd::std_specs::convert::FromSpecImpl<Vec<T>> for Rope<T> {
    open spec fn obeys_from_spec() -> bool {
        true
    }

    closed spec fn from_spec(repr: Vec<T>) -> Self {
        Rope { repr }
    }
}

} // verus!
