//! The closed set of failures a decode can report.

use vstd::prelude::*;

verus! {

/// Why a read from the wire failed.
///
/// Every failure aborts the current decode at once; no partial value is
/// returned and nothing is retried.
#[derive(Clone, Copy, Debug, PartialEq, Eq, Structural)]
pub enum WireError {
    /// The cursor ran out of bytes before the value was complete.
    UnexpectedEnd,
    /// A `VarInt`/`VarLong` continuation sequence exceeded its byte cap.
    TooLong,
    /// The accumulated bit shift of a `VarInt`/`VarLong` reached the type's
    /// bit width before a terminating byte.
    Overflow,
    /// A string length prefix decoded to a negative value.
    InvalidLength,
    /// String payload bytes were not valid UTF-8.
    InvalidEncoding,
}

} // verus!
