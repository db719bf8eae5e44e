//! Why an invocation failed.

use vstd::prelude::*;

verus! {

/// The ways an invocation of the counter can fail; none leaves a partial write behind.
#[derive(Clone, Copy, Debug, PartialEq, Eq, Structural)]
pub enum CounterError {
    /// A mutating operation was invoked by a caller other than the owner.
    Unauthorized,
    /// The counter slot does not hold exactly eight bytes.
    MalformedState,
    /// An increment would leave the 64-bit range.
    ArithmeticOverflow,
}

} // verus!
