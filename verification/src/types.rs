//! The operation pair every wire-encodable type implements.

use vstd::prelude::*;

use crate::cursor::read_side;
use crate::cursor::write_side;
use crate::error::WireError;

verus! {

/// A value that can be read from and written to a byte cursor.
///
/// `Self::parse` is the mathematical decoder: the abstract value the front of
/// the stream denotes and the number of bytes it occupies, or the error a
/// decode reports and the number of bytes the failed attempt consumed.
/// `wire` is the mathematical encoder; `write` appends exactly those bytes
/// whenever `wire_fits` holds. `wire_fits` fails only for a `String` whose
/// byte length exceeds what the signed length prefix can carry; for every
/// other type it is always true and `write` is infallible.
pub trait DataType: Sized + View {
    /// The bytes this value puts on the wire.
    spec fn wire(self) -> Seq<u8>;

    /// Whether the value's encoding is representable at all.
    spec fn wire_fits(self) -> bool;

    /// The outcome of decoding one value from the front of `s`.
    spec fn parse(s: Seq<u8>) -> Result<(Self::V, nat), (WireError, nat)>;

    /// Decode one value from the front of the cursor, consuming exactly the
    /// bytes the value occupies, or report an error after consuming exactly
    /// the bytes the failed attempt read.
    fn read(buf: &mut bytes::Bytes) -> (r: Result<Self, WireError>)
        ensures
            (match Self::parse(read_side(*old(buf))) {
                Ok(p) => {
                    &&& r is Ok
                    &&& (r->Ok_0)@ == p.0
                    &&& read_side(*final(buf)) == read_side(*old(buf)).skip(p.1 as int)
                },
                Err(e) => {
                    &&& r is Err
                    &&& r->Err_0 == e.0
                    &&& read_side(*final(buf)) == read_side(*old(buf)).skip(e.1 as int)
                },
            }),
    ;

    /// Append this value's encoding to the end of the cursor.
    fn write(&self, buf: &mut bytes::BytesMut) -> (r: Result<(), WireError>)
        ensures
            self.wire_fits() ==> r is Ok && write_side(*final(buf)) == write_side(*old(buf))
                + self.wire(),
            !self.wire_fits() ==> r == Err::<(), WireError>(WireError::InvalidLength)
                && write_side(*final(buf)) == write_side(*old(buf)),
    ;
}

} // verus!
