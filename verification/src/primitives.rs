//! Fixed-width primitive codecs and the length-prefixed string codec.
//!
//! Every numeric type goes on the wire in big-endian (network) byte order.
//! A string goes on the wire as its UTF-8 byte length encoded as a `VarInt`,
//! followed by the raw UTF-8 bytes.

use vstd::prelude::*;

use crate::cursor;
use crate::cursor::read_side;
use crate::cursor::write_side;
use crate::error::WireError;
use crate::types::DataType;
use crate::varint::varint_parse;
use crate::varint::varint_wire;
use crate::varint::VarInt;

verus! {

/// One byte on the wire: `0x00` for false, `0x01` for true.
pub open spec fn bool_wire(v: bool) -> Seq<u8> {
    seq![if v { 1u8 } else { 0u8 }]
}

/// A byte decodes to true exactly when it is nonzero.
pub open spec fn bool_parse(s: Seq<u8>) -> Result<(bool, nat), (WireError, nat)> {
    if s.len() < 1 {
        Err((WireError::UnexpectedEnd, 0))
    } else {
        Ok((s[0] != 0, 1))
    }
}

pub open spec fn u8_wire(v: u8) -> Seq<u8> {
    seq![v]
}

pub open spec fn u8_parse(s: Seq<u8>) -> Result<(u8, nat), (WireError, nat)> {
    if s.len() < 1 {
        Err((WireError::UnexpectedEnd, 0))
    } else {
        Ok((s[0], 1))
    }
}

pub open spec fn i8_wire(v: i8) -> Seq<u8> {
    seq![v as u8]
}

pub open spec fn i8_parse(s: Seq<u8>) -> Result<(i8, nat), (WireError, nat)> {
    if s.len() < 1 {
        Err((WireError::UnexpectedEnd, 0))
    } else {
        Ok((s[0] as i8, 1))
    }
}

/// The two big-endian bytes of `v`.
pub open spec fn u16_wire(v: u16) -> Seq<u8> {
    seq![(v >> 8) as u8, (v & 0xff) as u8]
}

/// The value of two big-endian bytes.
pub open spec fn be_u16(s: Seq<u8>) -> u16 {
    ((s[0] as u16) << 8) | (s[1] as u16)
}

pub open spec fn u16_parse(s: Seq<u8>) -> Result<(u16, nat), (WireError, nat)> {
    if s.len() < 2 {
        Err((WireError::UnexpectedEnd, 0))
    } else {
        Ok((be_u16(s), 2))
    }
}

pub open spec fn i16_wire(v: i16) -> Seq<u8> {
    u16_wire(v as u16)
}

pub open spec fn i16_parse(s: Seq<u8>) -> Result<(i16, nat), (WireError, nat)> {
    if s.len() < 2 {
        Err((WireError::UnexpectedEnd, 0))
    } else {
        Ok((be_u16(s) as i16, 2))
    }
}

/// The four big-endian bytes of `v`.
pub open spec fn u32_wire(v: u32) -> Seq<u8> {
    seq![(v >> 24) as u8, ((v >> 16) & 0xff) as u8, ((v >> 8) & 0xff) as u8, (v & 0xff) as u8]
}

/// The value of four big-endian bytes.
pub open spec fn be_u32(s: Seq<u8>) -> u32 {
    ((s[0] as u32) << 24) | ((s[1] as u32) << 16) | ((s[2] as u32) << 8) | (s[3] as u32)
}

pub open spec fn i32_wire(v: i32) -> Seq<u8> {
    u32_wire(v as u32)
}

pub open spec fn i32_parse(s: Seq<u8>) -> Result<(i32, nat), (WireError, nat)> {
    if s.len() < 4 {
        Err((WireError::UnexpectedEnd, 0))
    } else {
        Ok((be_u32(s) as i32, 4))
    }
}

/// The eight big-endian bytes of `v`.
pub open spec fn u64_wire(v: u64) -> Seq<u8> {
    seq![
        (v >> 56) as u8,
        ((v >> 48) & 0xff) as u8,
        ((v >> 40) & 0xff) as u8,
        ((v >> 32) & 0xff) as u8,
        ((v >> 24) & 0xff) as u8,
        ((v >> 16) & 0xff) as u8,
        ((v >> 8) & 0xff) as u8,
        (v & 0xff) as u8,
    ]
}

/// The value of eight big-endian bytes.
pub open spec fn be_u64(s: Seq<u8>) -> u64 {
    ((s[0] as u64) << 56) | ((s[1] as u64) << 48) | ((s[2] as u64) << 40) | ((s[3] as u64) << 32)
        | ((s[4] as u64) << 24) | ((s[5] as u64) << 16) | ((s[6] as u64) << 8) | (s[7] as u64)
}

pub open spec fn i64_wire(v: i64) -> Seq<u8> {
    u64_wire(v as u64)
}

pub open spec fn i64_parse(s: Seq<u8>) -> Result<(i64, nat), (WireError, nat)> {
    if s.len() < 8 {
        Err((WireError::UnexpectedEnd, 0))
    } else {
        Ok((be_u64(s) as i64, 8))
    }
}

impl DataType for bool {
    open spec fn wire(self) -> Seq<u8> {
        bool_wire(self)
    }

    open spec fn wire_fits(self) -> bool {
        true
    }

    open spec fn parse(s: Seq<u8>) -> Result<(bool, nat), (WireError, nat)> {
        bool_parse(s)
    }

    fn read(buf: &mut bytes::Bytes) -> (r: Result<bool, WireError>) {
        if cursor::remaining(buf) == 0 {
            return Err(WireError::UnexpectedEnd);
        }
        let b = cursor::get_u8(buf);
        Ok(b != 0)
    }

    fn write(&self, buf: &mut bytes::BytesMut) -> (r: Result<(), WireError>) {
        let ghost before = write_side(*buf);
        cursor::put_u8(buf, if *self { 1 } else { 0 });
        proof {
            assert(before.push(if *self { 1u8 } else { 0u8 }) =~= before + bool_wire(*self));
        }
        Ok(())
    }
}

impl DataType for u8 {
    open spec fn wire(self) -> Seq<u8> {
        u8_wire(self)
    }

    open spec fn wire_fits(self) -> bool {
        true
    }

    open spec fn parse(s: Seq<u8>) -> Result<(u8, nat), (WireError, nat)> {
        u8_parse(s)
    }

    fn read(buf: &mut bytes::Bytes) -> (r: Result<u8, WireError>) {
        if cursor::remaining(buf) == 0 {
            return Err(WireError::UnexpectedEnd);
        }
        Ok(cursor::get_u8(buf))
    }

    fn write(&self, buf: &mut bytes::BytesMut) -> (r: Result<(), WireError>) {
        let ghost before = write_side(*buf);
        cursor::put_u8(buf, *self);
        proof {
            assert(before.push(*self) =~= before + u8_wire(*self));
        }
        Ok(())
    }
}

impl DataType for i8 {
    open spec fn wire(self) -> Seq<u8> {
        i8_wire(self)
    }

    open spec fn wire_fits(self) -> bool {
        true
    }

    open spec fn parse(s: Seq<u8>) -> Result<(i8, nat), (WireError, nat)> {
        i8_parse(s)
    }

    fn read(buf: &mut bytes::Bytes) -> (r: Result<i8, WireError>) {
        if cursor::remaining(buf) == 0 {
            return Err(WireError::UnexpectedEnd);
        }
        let b = cursor::get_u8(buf);
        Ok(b as i8)
    }

    fn write(&self, buf: &mut bytes::BytesMut) -> (r: Result<(), WireError>) {
        let ghost before = write_side(*buf);
        cursor::put_u8(buf, *self as u8);
        proof {
            assert(before.push(*self as u8) =~= before + i8_wire(*self));
        }
        Ok(())
    }
}

impl DataType for u16 {
    open spec fn wire(self) -> Seq<u8> {
        u16_wire(self)
    }

    open spec fn wire_fits(self) -> bool {
        true
    }

    open spec fn parse(s: Seq<u8>) -> Result<(u16, nat), (WireError, nat)> {
        u16_parse(s)
    }

    fn read(buf: &mut bytes::Bytes) -> (r: Result<u16, WireError>) {
        let ghost s0 = read_side(*old(buf));
        if cursor::remaining(buf) < 2 {
            return Err(WireError::UnexpectedEnd);
        }
        let b0 = cursor::get_u8(buf);
        let b1 = cursor::get_u8(buf);
        proof {
            assert(s0.skip(1).skip(1) =~= s0.skip(2));
        }
        Ok(((b0 as u16) << 8) | (b1 as u16))
    }

    fn write(&self, buf: &mut bytes::BytesMut) -> (r: Result<(), WireError>) {
        let ghost before = write_side(*buf);
        let v = *self;
        cursor::put_u8(buf, (v >> 8) as u8);
        cursor::put_u8(buf, (v & 0xff) as u8);
        proof {
            assert(before.push((v >> 8) as u8).push((v & 0xff) as u8) =~= before + u16_wire(v));
        }
        Ok(())
    }
}

impl DataType for i16 {
    open spec fn wire(self) -> Seq<u8> {
        i16_wire(self)
    }

    open spec fn wire_fits(self) -> bool {
        true
    }

    open spec fn parse(s: Seq<u8>) -> Result<(i16, nat), (WireError, nat)> {
        i16_parse(s)
    }

    fn read(buf: &mut bytes::Bytes) -> (r: Result<i16, WireError>) {
        let ghost s0 = read_side(*old(buf));
        if cursor::remaining(buf) < 2 {
            return Err(WireError::UnexpectedEnd);
        }
        let b0 = cursor::get_u8(buf);
        let b1 = cursor::get_u8(buf);
        proof {
            assert(s0.skip(1).skip(1) =~= s0.skip(2));
        }
        Ok((((b0 as u16) << 8) | (b1 as u16)) as i16)
    }

    fn write(&self, buf: &mut bytes::BytesMut) -> (r: Result<(), WireError>) {
        let ghost before = write_side(*buf);
        let v = *self as u16;
        cursor::put_u8(buf, (v >> 8) as u8);
        cursor::put_u8(buf, (v & 0xff) as u8);
        proof {
            assert(before.push((v >> 8) as u8).push((v & 0xff) as u8) =~= before + i16_wire(
                *self,
            ));
        }
        Ok(())
    }
}

impl DataType for i32 {
    open spec fn wire(self) -> Seq<u8> {
        i32_wire(self)
    }

    open spec fn wire_fits(self) -> bool {
        true
    }

    open spec fn parse(s: Seq<u8>) -> Result<(i32, nat), (WireError, nat)> {
        i32_parse(s)
    }

    fn read(buf: &mut bytes::Bytes) -> (r: Result<i32, WireError>) {
        let ghost s0 = read_side(*old(buf));
        if cursor::remaining(buf) < 4 {
            return Err(WireError::UnexpectedEnd);
        }
        let b0 = cursor::get_u8(buf);
        let b1 = cursor::get_u8(buf);
        let b2 = cursor::get_u8(buf);
        let b3 = cursor::get_u8(buf);
        proof {
            assert(s0.skip(1).skip(1).skip(1).skip(1) =~= s0.skip(4));
            assert(s0.skip(1).skip(1).skip(1) =~= s0.skip(3));
            assert(s0.skip(1).skip(1) =~= s0.skip(2));
        }
        let v: u32 = ((b0 as u32) << 24) | ((b1 as u32) << 16) | ((b2 as u32) << 8) | (b3 as u32);
        Ok(v as i32)
    }

    fn write(&self, buf: &mut bytes::BytesMut) -> (r: Result<(), WireError>) {
        let ghost before = write_side(*buf);
        let v = *self as u32;
        cursor::put_u8(buf, (v >> 24) as u8);
        cursor::put_u8(buf, ((v >> 16) & 0xff) as u8);
        cursor::put_u8(buf, ((v >> 8) & 0xff) as u8);
        cursor::put_u8(buf, (v & 0xff) as u8);
        proof {
            assert(before.push((v >> 24) as u8).push(((v >> 16) & 0xff) as u8).push(
                ((v >> 8) & 0xff) as u8,
            ).push((v & 0xff) as u8) =~= before + i32_wire(*self));
        }
        Ok(())
    }
}

impl DataType for i64 {
    open spec fn wire(self) -> Seq<u8> {
        i64_wire(self)
    }

    open spec fn wire_fits(self) -> bool {
        true
    }

    open spec fn parse(s: Seq<u8>) -> Result<(i64, nat), (WireError, nat)> {
        i64_parse(s)
    }

    fn read(buf: &mut bytes::Bytes) -> (r: Result<i64, WireError>) {
        let ghost s0 = read_side(*old(buf));
        if cursor::remaining(buf) < 8 {
            return Err(WireError::UnexpectedEnd);
        }
        let b0 = cursor::get_u8(buf);
        let b1 = cursor::get_u8(buf);
        let b2 = cursor::get_u8(buf);
        let b3 = cursor::get_u8(buf);
        let b4 = cursor::get_u8(buf);
        let b5 = cursor::get_u8(buf);
        let b6 = cursor::get_u8(buf);
        let b7 = cursor::get_u8(buf);
        proof {
            assert(s0.skip(1).skip(1) =~= s0.skip(2));
            assert(s0.skip(2).skip(1) =~= s0.skip(3));
            assert(s0.skip(3).skip(1) =~= s0.skip(4));
            assert(s0.skip(4).skip(1) =~= s0.skip(5));
            assert(s0.skip(5).skip(1) =~= s0.skip(6));
            assert(s0.skip(6).skip(1) =~= s0.skip(7));
            assert(s0.skip(7).skip(1) =~= s0.skip(8));
        }
        let v: u64 = ((b0 as u64) << 56) | ((b1 as u64) << 48) | ((b2 as u64) << 40) | ((
        b3 as u64) << 32) | ((b4 as u64) << 24) | ((b5 as u64) << 16) | ((b6 as u64) << 8) | (
        b7 as u64);
        Ok(v as i64)
    }

    fn write(&self, buf: &mut bytes::BytesMut) -> (r: Result<(), WireError>) {
        let ghost before = write_side(*buf);
        let v = *self as u64;
        cursor::put_u8(buf, (v >> 56) as u8);
        cursor::put_u8(buf, ((v >> 48) & 0xff) as u8);
        cursor::put_u8(buf, ((v >> 40) & 0xff) as u8);
        cursor::put_u8(buf, ((v >> 32) & 0xff) as u8);
        cursor::put_u8(buf, ((v >> 24) & 0xff) as u8);
        cursor::put_u8(buf, ((v >> 16) & 0xff) as u8);
        cursor::put_u8(buf, ((v >> 8) & 0xff) as u8);
        cursor::put_u8(buf, (v & 0xff) as u8);
        proof {
            assert(before.push((v >> 56) as u8).push(((v >> 48) & 0xff) as u8).push(
                ((v >> 40) & 0xff) as u8,
            ).push(((v >> 32) & 0xff) as u8).push(((v >> 24) & 0xff) as u8).push(
                ((v >> 16) & 0xff) as u8,
            ).push(((v >> 8) & 0xff) as u8).push((v & 0xff) as u8) =~= before + i64_wire(*self));
        }
        Ok(())
    }
}

/// The UTF-8 encoding of a sequence of characters.
pub uninterp spec fn utf8_bytes(s: Seq<char>) -> Seq<u8>;

/// Whether `b` is the UTF-8 encoding of some character sequence.
pub open spec fn utf8_decodable(b: Seq<u8>) -> bool {
    exists|s: Seq<char>| utf8_bytes(s) == b
}

/// Relies on `String::from_utf8`: it succeeds exactly on valid UTF-8 and
/// returns the unique string those bytes encode.
#[verifier::external_body]
fn utf8_to_string(data: Vec<u8>) -> (r: Option<String>)
    ensures
        r is Some <==> utf8_decodable(data@),
        r is Some ==> utf8_bytes((r->Some_0)@) == data@,
        r is Some ==> forall|t: Seq<char>| utf8_bytes(t) == data@ ==> t == (r->Some_0)@,
{
    match String::from_utf8(data) {
        Ok(s) => Some(s),
        Err(_) => None,
    }
}

/// Relies on `str::as_bytes`: the UTF-8 encoding of the string's characters,
/// which is empty exactly for the empty string.
#[verifier::external_body]
fn string_to_bytes(s: &String) -> (r: Vec<u8>)
    ensures
        r@ == utf8_bytes(s@),
        s@.len() == 0 <==> r@.len() == 0,
{
    s.as_bytes().to_vec()
}

/// Whether the string's encoding is representable: its UTF-8 byte length
/// must fit the signed 32-bit length prefix.
pub open spec fn string_wire_fits(s: Seq<char>) -> bool {
    utf8_bytes(s).len() <= 0x7fffffff
}

/// The encoding: the UTF-8 byte length as a `VarInt`, then the raw bytes.
pub open spec fn string_wire(s: Seq<char>) -> Seq<u8> {
    varint_wire(utf8_bytes(s).len() as u32) + utf8_bytes(s)
}

/// The outcome of decoding a string from the front of `s`: a `VarInt` length
/// prefix, rejected if negative, then that many bytes of UTF-8 payload.
pub open spec fn string_parse(s: Seq<u8>) -> Result<(Seq<char>, nat), (WireError, nat)> {
    match varint_parse(s) {
        Err(e) => Err(e),
        Ok((v, n)) => if v.0 < 0 {
            Err((WireError::InvalidLength, n))
        } else if s.len() < n + v.0 {
            Err((WireError::UnexpectedEnd, n))
        } else {
            let payload = s.subrange(n as int, n + v.0);
            if utf8_decodable(payload) {
                Ok(((choose|t: Seq<char>| utf8_bytes(t) == payload), (n + v.0) as nat))
            } else {
                Err((WireError::InvalidEncoding, (n + v.0) as nat))
            }
        },
    }
}

impl DataType for String {
    open spec fn wire(self) -> Seq<u8> {
        string_wire(self@)
    }

    open spec fn wire_fits(self) -> bool {
        string_wire_fits(self@)
    }

    open spec fn parse(s: Seq<u8>) -> Result<(Seq<char>, nat), (WireError, nat)> {
        string_parse(s)
    }

    fn read(buf: &mut bytes::Bytes) -> (r: Result<String, WireError>) {
        let ghost s0 = read_side(*old(buf));
        let prefix = match <VarInt as DataType>::read(buf) {
            Ok(v) => v,
            Err(e) => {
                return Err(e);
            },
        };
        if prefix.0 < 0 {
            return Err(WireError::InvalidLength);
        }
        let ghost n = varint_parse(s0)->Ok_0.1;
        proof {
            crate::varint::lemma_varint_parse_consumed(s0);
        }
        let len = prefix.0 as usize;
        if cursor::remaining(buf) < len {
            return Err(WireError::UnexpectedEnd);
        }
        let payload = cursor::take_bytes(buf, len);
        proof {
            assert(payload@ =~= s0.subrange(n as int, n + prefix.0));
            assert(s0.skip(n as int).skip(len as int) =~= s0.skip(n + prefix.0));
        }
        match utf8_to_string(payload) {
            Some(st) => Ok(st),
            None => Err(WireError::InvalidEncoding),
        }
    }

    fn write(&self, buf: &mut bytes::BytesMut) -> (r: Result<(), WireError>) {
        let ghost before = write_side(*buf);
        let data = string_to_bytes(self);
        if data.len() > 0x7fffffff {
            return Err(WireError::InvalidLength);
        }
        let prefix = VarInt(data.len() as i32);
        match prefix.write(buf) {
            Ok(_) => {},
            Err(_) => {
                assert(false);
                return Err(WireError::InvalidLength);
            },
        }
        cursor::put_bytes(buf, &data);
        proof {
            assert((before + varint_wire(prefix.0 as u32)) + data@ =~= before + string_wire(
                self@,
            ));
        }
        Ok(())
    }
}

/// Decoding an encoding succeeds, consumes exactly the encoding, and yields
/// characters that encode to the very same bytes, so re-encoding the decoded
/// string reproduces the original output byte for byte.
pub proof fn lemma_string_reencode(s: Seq<char>, rest: Seq<u8>)
    requires
        string_wire_fits(s),
    ensures
        string_parse(string_wire(s) + rest) is Ok,
        string_parse(string_wire(s) + rest) matches Ok(p) ==> {
            &&& utf8_bytes(p.0) == utf8_bytes(s)
            &&& string_wire(p.0) == string_wire(s)
            &&& p.1 == string_wire(s).len()
        },
{
    let data = utf8_bytes(s);
    let dl: u32 = data.len() as u32;
    let len32: i32 = dl as i32;
    let w = string_wire(s) + rest;
    crate::varint::lemma_varint_round_trip(len32, data + rest);
    crate::varint::lemma_varint_size_is_wire_len(dl);
    assert(len32 >= 0 && (len32 as u32) == dl && len32 == dl) by (bit_vector)
        requires
            len32 == dl as i32,
            dl <= 0x7fffffff,
    ;
    assert(varint_wire(len32 as u32) + (data + rest) =~= w);
    let n = varint_parse(w)->Ok_0.1;
    assert(n == varint_wire(dl).len());
    assert(w.subrange(n as int, n + len32) =~= data);
    assert(utf8_decodable(data));
    let t0 = choose|t: Seq<char>| utf8_bytes(t) == data;
    assert(utf8_bytes(t0) == data);
}

/// Decoding an encoding yields the value back, whatever bytes follow it.
pub proof fn lemma_bool_round_trip(v: bool, rest: Seq<u8>)
    ensures
        bool_parse(bool_wire(v) + rest) == Ok::<(bool, nat), (WireError, nat)>((v, 1)),
{
}

/// Decoding an encoding yields the value back, whatever bytes follow it.
pub proof fn lemma_u8_round_trip(v: u8, rest: Seq<u8>)
    ensures
        u8_parse(u8_wire(v) + rest) == Ok::<(u8, nat), (WireError, nat)>((v, 1)),
{
}

/// Decoding an encoding yields the value back, whatever bytes follow it.
pub proof fn lemma_i8_round_trip(v: i8, rest: Seq<u8>)
    ensures
        i8_parse(i8_wire(v) + rest) == Ok::<(i8, nat), (WireError, nat)>((v, 1)),
{
    assert((v as u8) as i8 == v) by (bit_vector);
}

/// Decoding an encoding yields the value back, whatever bytes follow it.
pub proof fn lemma_u16_round_trip(v: u16, rest: Seq<u8>)
    ensures
        u16_parse(u16_wire(v) + rest) == Ok::<(u16, nat), (WireError, nat)>((v, 2)),
{
    let s = u16_wire(v) + rest;
    assert(s[0] == (v >> 8) as u8 && s[1] == (v & 0xff) as u8);
    assert((((v >> 8) as u8) as u16) << 8 | (((v & 0xff) as u8) as u16) == v) by (bit_vector);
}

/// Decoding an encoding yields the value back, whatever bytes follow it.
pub proof fn lemma_i16_round_trip(v: i16, rest: Seq<u8>)
    ensures
        i16_parse(i16_wire(v) + rest) == Ok::<(i16, nat), (WireError, nat)>((v, 2)),
{
    let u = v as u16;
    let s = i16_wire(v) + rest;
    assert(s[0] == (u >> 8) as u8 && s[1] == (u & 0xff) as u8);
    assert((((u >> 8) as u8) as u16) << 8 | (((u & 0xff) as u8) as u16) == u) by (bit_vector);
    assert((v as u16) as i16 == v) by (bit_vector);
}

/// Decoding an encoding yields the value back, whatever bytes follow it.
pub proof fn lemma_i32_round_trip(v: i32, rest: Seq<u8>)
    ensures
        i32_parse(i32_wire(v) + rest) == Ok::<(i32, nat), (WireError, nat)>((v, 4)),
{
    let u = v as u32;
    let s = i32_wire(v) + rest;
    assert(s[0] == (u >> 24) as u8 && s[1] == ((u >> 16) & 0xff) as u8 && s[2] == ((u >> 8)
        & 0xff) as u8 && s[3] == (u & 0xff) as u8);
    assert((((u >> 24) as u8) as u32) << 24 | ((((u >> 16) & 0xff) as u8) as u32) << 16 | ((((u
        >> 8) & 0xff) as u8) as u32) << 8 | (((u & 0xff) as u8) as u32) == u) by (bit_vector);
    assert((v as u32) as i32 == v) by (bit_vector);
}

/// Decoding an encoding yields the value back, whatever bytes follow it.
pub proof fn lemma_i64_round_trip(v: i64, rest: Seq<u8>)
    ensures
        i64_parse(i64_wire(v) + rest) == Ok::<(i64, nat), (WireError, nat)>((v, 8)),
{
    let u = v as u64;
    let s = i64_wire(v) + rest;
    assert(s[0] == (u >> 56) as u8 && s[1] == ((u >> 48) & 0xff) as u8 && s[2] == ((u >> 40)
        & 0xff) as u8 && s[3] == ((u >> 32) & 0xff) as u8 && s[4] == ((u >> 24) & 0xff) as u8 && s[5]
        == ((u >> 16) & 0xff) as u8 && s[6] == ((u >> 8) & 0xff) as u8 && s[7] == (u & 0xff) as u8);
    assert((((u >> 56) as u8) as u64) << 56 | ((((u >> 48) & 0xff) as u8) as u64) << 48 | ((((u
        >> 40) & 0xff) as u8) as u64) << 40 | ((((u >> 32) & 0xff) as u8) as u64) << 32 | ((((u
        >> 24) & 0xff) as u8) as u64) << 24 | ((((u >> 16) & 0xff) as u8) as u64) << 16 | ((((u
        >> 8) & 0xff) as u8) as u64) << 8 | (((u & 0xff) as u8) as u64) == u) by (bit_vector);
    assert((v as u64) as i64 == v) by (bit_vector);
}

} // verus!
