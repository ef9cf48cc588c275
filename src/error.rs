//! The ways an edit of a rope can be rejected.
use vstd::prelude::*;

verus! {

/// Why an insertion or a deletion was rejected.
#[derive(Debug, Clone, Copy, PartialEq, Eq, Structural)]
pub enum RopeError {
    /// An index or a range endpoint lies past the end of the rope.
    IndexOutOfBounds {
        /// The length of the rope at the time of the call.
        len: usize,
        /// The offending index or endpoint.
        index: usize,
    },
    /// A deletion range whose start lies after its end.
    InvalidRange {
        /// The start of the range.
        start: usize,
        /// The end of the range.
        end: usize,
    },
}

} // verus!
