//! The byte cursor the codecs run against.
//!
//! Reads consume the front of a `bytes::Bytes`; writes append to the end of a
//! `bytes::BytesMut`. Both are opaque to the verifier, so each is given a view
//! naming the bytes it currently holds, and the handful of cursor operations
//! the codecs use are trusted wrappers whose contracts are stated over those
//! views.

use vstd::prelude::*;

verus! {

#[verifier::external_type_specification]
#[verifier::external_body]
pub struct ExBytes(bytes::Bytes);

#[verifier::external_type_specification]
#[verifier::external_body]
pub struct ExBytesMut(bytes::BytesMut);

/// The bytes still to be read from a read cursor, front first.
pub uninterp spec fn read_side(buf: bytes::Bytes) -> Seq<u8>;

/// The bytes written to a write cursor so far, oldest first.
pub uninterp spec fn write_side(buf: bytes::BytesMut) -> Seq<u8>;

/// Relies on `bytes::Buf::remaining` for `Bytes`: the number of bytes
/// between the cursor position and the end of the buffer.
#[verifier::external_body]
pub(crate) fn remaining(buf: &bytes::Bytes) -> (n: usize)
    ensures
        n == read_side(*buf).len(),
{
    bytes::Buf::remaining(buf)
}

/// Relies on `bytes::Buf::get_u8` for `Bytes`: pops the front byte and
/// advances the cursor past it.
#[verifier::external_body]
pub(crate) fn get_u8(buf: &mut bytes::Bytes) -> (b: u8)
    requires
        read_side(*old(buf)).len() > 0,
    ensures
        b == read_side(*old(buf))[0],
        read_side(*final(buf)) == read_side(*old(buf)).skip(1),
{
    bytes::Buf::get_u8(buf)
}

/// Relies on `bytes::Buf::copy_to_slice` for `Bytes`: moves the next `n`
/// bytes out of the buffer and advances the cursor past them.
#[verifier::external_body]
pub(crate) fn take_bytes(buf: &mut bytes::Bytes, n: usize) -> (out: Vec<u8>)
    requires
        n <= read_side(*old(buf)).len(),
    ensures
        out@ == read_side(*old(buf)).take(n as int),
        read_side(*final(buf)) == read_side(*old(buf)).skip(n as int),
{
    let mut out = vec![0u8; n];
    bytes::Buf::copy_to_slice(buf, &mut out);
    out
}

/// Relies on `bytes::BufMut::put_u8` for `BytesMut`: appends one byte,
/// growing the buffer as needed.
#[verifier::external_body]
pub(crate) fn put_u8(buf: &mut bytes::BytesMut, b: u8)
    ensures
        write_side(*final(buf)) == write_side(*old(buf)).push(b),
{
    bytes::BufMut::put_u8(buf, b)
}

/// Relies on `bytes::BufMut::put_slice` for `BytesMut`: appends the given
/// bytes in order, growing the buffer as needed.
#[verifier::external_body]
pub(crate) fn put_bytes(buf: &mut bytes::BytesMut, data: &Vec<u8>)
    ensures
        write_side(*final(buf)) == write_side(*old(buf)) + data@,
{
    bytes::BufMut::put_slice(buf, data.as_slice())
}

} // verus!
