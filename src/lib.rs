//! Ropes: sequences that support splicing at arbitrary positions.
//!
//! [`Rope`] keeps its elements in a binary tree whose leaves hold contiguous
//! runs; insertion and deletion split the tree at an index and join the
//! pieces again. [`naive::Rope`] offers the same operations on one flat
//! vector and serves as a reference to compare against.
use vstd::prelude::*;

pub mod error;
pub mod laws;
pub mod naive;
pub mod nawa;
pub mod order;
pub mod rope;
mod tree;

pub use error::RopeError;
pub use rope::Rope;
pub use tree::derefs;

verus! {

/// `s` with `xs` placed before index `i`.
pub open spec fn spliced<T>(s: Seq<T>, i: int, xs: Seq<T>) -> Seq<T> {
    s.subrange(0, i) + xs + s.subrange(i, s.len() as int)
}

/// `s` without the elements at positions `start` up to, not including, `end`.
pub open spec fn excised<T>(s: Seq<T>, start: int, end: int) -> Seq<T> {
    s.subrange(0, start) + s.subrange(end, s.len() as int)
}

/// The outcome that an insertion of `xs` before index `i` owes: the spliced
/// sequence, or an out-of-bounds error that reports the length and `i`.
pub open spec fn insert_outcome<T>(s: Seq<T>, i: usize, xs: Seq<T>) -> Result<Seq<T>, RopeError> {
    if i > s.len() {
        Err(RopeError::IndexOutOfBounds { len: s.len() as usize, index: i })
    } else {
        Ok(spliced(s, i as int, xs))
    }
}

/// The outcome that a deletion of `[start, end)` owes: a reversed range is
/// invalid; otherwise the first endpoint past the end is reported with the
/// length; otherwise the range is cut out.
pub open spec fn delete_outcome<T>(s: Seq<T>, start: usize, end: usize) -> Result<Seq<T>, RopeError> {
    if start > end {
        Err(RopeError::InvalidRange { start, end })
    } else if start > s.len() {
        Err(RopeError::IndexOutOfBounds { len: s.len() as usize, index: start })
    } else if end > s.len() {
        Err(RopeError::IndexOutOfBounds { len: s.len() as usize, index: end })
    } else {
        Ok(excised(s, start as int, end as int))
    }
}

} // verus!
