//! Variable-length encoding of 32-bit signed integers.

use vstd::prelude::*;

use crate::cursor;
use crate::cursor::read_side;
use crate::cursor::write_side;
use crate::error::WireError;
use crate::types::DataType;

verus! {

/// A 32-bit signed integer carried as 1 to 5 bytes: the unsigned bit pattern
/// is split into 7-bit groups, low group first, and every byte but the last
/// has its high (continuation) bit set.
#[derive(Debug, Clone, Copy, PartialEq, Eq, Structural)]
pub struct VarInt(pub i32);

/// The encoding of the bit pattern `u`: its 7-bit groups, low first,
/// continuation bit set on every byte but the last.
pub open spec fn varint_wire(u: u32) -> Seq<u8>
    decreases u,
        via varint_wire_decreases
{
    if u >> 7 == 0 {
        seq![(u & 0x7f) as u8]
    } else {
        seq![((u & 0x7f) | 0x80) as u8] + varint_wire(u >> 7)
    }
}

#[via_fn]
proof fn varint_wire_decreases(u: u32) {
    assert(u >> 7 != 0 ==> u >> 7 < u) by (bit_vector);
}

/// How many bytes the encoding of `u` occupies, computed by simulating the
/// shift loop rather than by taking the length of `varint_wire`.
pub open spec fn varint_size(u: u32) -> nat
    decreases u,
        via varint_size_decreases
{
    if u >> 7 == 0 {
        1
    } else {
        1 + varint_size(u >> 7)
    }
}

#[via_fn]
proof fn varint_size_decreases(u: u32) {
    assert(u >> 7 != 0 ==> u >> 7 < u) by (bit_vector);
}

/// One step of the decode loop: `i` bytes have been consumed so far (all with
/// their continuation bit set) and their payload bits sit in `acc`.
pub open spec fn varint_parse_at(s: Seq<u8>, i: nat, acc: u32) -> Result<
    (u32, nat),
    (WireError, nat),
>
    decreases 5 - i,
{
    if i >= s.len() {
        Err((WireError::UnexpectedEnd, i))
    } else {
        let b = s[i as int];
        let acc2 = acc | (((b & 0x7f) as u32) << ((7 * i) as u32));
        if b & 0x80 == 0 {
            Ok((acc2, i + 1))
        } else if i + 1 >= 5 {
            Err((WireError::TooLong, i + 1))
        } else if 7 * (i + 1) >= 32 {
            Err((WireError::Overflow, i + 1))
        } else {
            varint_parse_at(s, i + 1, acc2)
        }
    }
}

/// The outcome of decoding a `VarInt` from the front of `s`.
pub open spec fn varint_parse(s: Seq<u8>) -> Result<(VarInt, nat), (WireError, nat)> {
    match varint_parse_at(s, 0, 0) {
        Ok(p) => Ok((VarInt(p.0 as i32), p.1)),
        Err(e) => Err(e),
    }
}

impl View for VarInt {
    type V = VarInt;

    open spec fn view(&self) -> VarInt {
        *self
    }
}

impl VarInt {
    /// Wrap a value.
    pub fn new(value: i32) -> (v: Self)
        ensures
            v == VarInt(value),
    {
        Self(value)
    }

    /// The wrapped value.
    pub fn value(&self) -> (n: i32)
        ensures
            n == self.0,
    {
        self.0
    }

    /// The number of bytes `write` would produce, without encoding.
    pub fn encoded_size(&self) -> (n: usize)
        ensures
            n == varint_size(self.0 as u32),
            n == varint_wire(self.0 as u32).len(),
    {
        proof {
            lemma_varint_size_bounds(self.0 as u32);
            lemma_varint_size_is_wire_len(self.0 as u32);
        }
        let mut value: u32 = self.0 as u32;
        let mut size: usize = 1;
        while value >= 0x80
            invariant
                1 <= size <= 5,
                varint_size(self.0 as u32) <= 5,
                size + varint_size(value) == 1 + varint_size(self.0 as u32),
            decreases value,
        {
            assert(value >= 0x80 ==> value >> 7 != 0 && value >> 7 < value) by (bit_vector);
            assert(varint_size(value) == 1 + varint_size(value >> 7));
            value = value >> 7;
            size = size + 1;
        }
        proof {
            assert(value < 0x80 ==> value >> 7 == 0) by (bit_vector);
        }
        size
    }
}

impl Default for VarInt {
    /// The zero value.
    fn default() -> (v: Self)
        ensures
            v == VarInt(0),
    {
        VarInt(0)
    }
}

impl From<i32> for VarInt {
    fn from(value: i32) -> (v: Self) {
        VarInt(value)
    }
}

impl vstd::std_specs::convert::FromSpecImpl<i32> for VarInt {
    open spec fn obeys_from_spec() -> bool {
        true
    }

    open spec fn from_spec(value: i32) -> VarInt {
        VarInt(value)
    }
}

impl From<VarInt> for i32 {
    fn from(v: VarInt) -> (n: i32) {
        v.0
    }
}

impl vstd::std_specs::convert::FromSpecImpl<VarInt> for i32 {
    open spec fn obeys_from_spec() -> bool {
        true
    }

    open spec fn from_spec(v: VarInt) -> i32 {
        v.0
    }
}

impl From<usize> for VarInt {
    /// Keeps the low 32 bits of the count: a length prefix is a 32-bit
    /// quantity on the wire.
    fn from(value: usize) -> (v: Self) {
        VarInt(value as i32)
    }
}

impl vstd::std_specs::convert::FromSpecImpl<usize> for VarInt {
    open spec fn obeys_from_spec() -> bool {
        true
    }

    open spec fn from_spec(value: usize) -> VarInt {
        VarInt(value as i32)
    }
}

impl DataType for VarInt {
    open spec fn wire(self) -> Seq<u8> {
        varint_wire(self.0 as u32)
    }

    open spec fn wire_fits(self) -> bool {
        true
    }

    open spec fn parse(s: Seq<u8>) -> Result<(VarInt, nat), (WireError, nat)> {
        varint_parse(s)
    }

    fn read(buf: &mut bytes::Bytes) -> (r: Result<Self, WireError>) {
        let ghost s0 = read_side(*old(buf));
        let mut result: u32 = 0;
        let mut shift: u32 = 0;
        let mut bytes_read: usize = 0;
        loop
            invariant
                s0 == read_side(*old(buf)),
                bytes_read <= 4,
                bytes_read <= s0.len(),
                shift == 7 * bytes_read,
                read_side(*buf) == s0.skip(bytes_read as int),
                varint_parse_at(s0, 0, 0) == varint_parse_at(s0, bytes_read as nat, result),
            decreases 5 - bytes_read,
        {
            if cursor::remaining(buf) == 0 {
                return Err(WireError::UnexpectedEnd);
            }
            let ghost i = bytes_read as nat;
            let byte = cursor::get_u8(buf);
            proof {
                assert(s0.skip(i as int).skip(1) =~= s0.skip(i as int + 1));
            }
            result = result | (((byte & 0x7f) as u32) << shift);
            bytes_read = bytes_read + 1;
            if byte & 0x80 == 0 {
                return Ok(VarInt(result as i32));
            }
            shift = shift + 7;
            if bytes_read >= 5 {
                return Err(WireError::TooLong);
            }
            if shift >= 32 {
                return Err(WireError::Overflow);
            }
        }
    }

    fn write(&self, buf: &mut bytes::BytesMut) -> (r: Result<(), WireError>) {
        let mut value: u32 = self.0 as u32;
        while value >= 0x80
            invariant
                write_side(*buf) + varint_wire(value) == write_side(*old(buf)) + varint_wire(
                    self.0 as u32,
                ),
            decreases value,
        {
            assert(value >= 0x80 ==> value >> 7 != 0 && value >> 7 < value) by (bit_vector);
            let ghost before = write_side(*buf);
            cursor::put_u8(buf, ((value & 0x7f) | 0x80) as u8);
            proof {
                assert(before.push((((value & 0x7f) | 0x80) as u8)) + varint_wire(value >> 7)
                    =~= before + varint_wire(value));
            }
            value = value >> 7;
        }
        proof {
            assert(value < 0x80 ==> value >> 7 == 0 && ((value & 0x7f) as u8) == (
            value as u8)) by (bit_vector);
            assert(write_side(*buf).push((value as u8)) =~= write_side(*buf) + varint_wire(value));
        }
        cursor::put_u8(buf, value as u8);
        Ok(())
    }
}

/// At most five bytes, never fewer than one.
pub proof fn lemma_varint_size_bounds(u: u32)
    ensures
        1 <= varint_size(u) <= 5,
{
    varint_size_le(u, 5);
}

proof fn varint_size_le(u: u32, k: u32)
    requires
        1 <= k <= 5,
        k < 5 ==> u >> (7 * k) == 0,
    ensures
        varint_size(u) <= k,
    decreases k,
{
    if u >> 7 == 0 {
    } else {
        if k == 1 {
            assert(u >> 7 == 0);
        } else if k == 5 {
            assert((u >> 7) >> 28 == 0) by (bit_vector);
            varint_size_le(u >> 7, 4);
        } else if k == 2 {
            assert(u >> 14 == 0 ==> (u >> 7) >> 7 == 0) by (bit_vector);
            varint_size_le(u >> 7, 1);
        } else if k == 3 {
            assert(u >> 21 == 0 ==> (u >> 7) >> 14 == 0) by (bit_vector);
            varint_size_le(u >> 7, 2);
        } else {
            assert(u >> 28 == 0 ==> (u >> 7) >> 21 == 0) by (bit_vector);
            varint_size_le(u >> 7, 3);
        }
    }
}

/// The byte count `encoded_size` computes is the length of the encoding.
pub proof fn lemma_varint_size_is_wire_len(u: u32)
    ensures
        varint_size(u) == varint_wire(u).len(),
    decreases u,
{
    if u >> 7 == 0 {
    } else {
        assert(u >> 7 != 0 ==> u >> 7 < u) by (bit_vector);
        lemma_varint_size_is_wire_len(u >> 7);
    }
}

proof fn varint_parse_wire_at(s: Seq<u8>, u: u32, i: nat, acc: u32)
    requires
        i + varint_size(u) <= 5,
        i + varint_size(u) <= s.len(),
        s.subrange(i as int, (i + varint_size(u)) as int) == varint_wire(u),
    ensures
        varint_parse_at(s, i, acc) == Ok::<(u32, nat), (WireError, nat)>(
            ((acc | (u << ((7 * i) as u32))) as u32, (i + varint_size(u)) as nat),
        ),
    decreases varint_size(u),
{
    lemma_varint_size_is_wire_len(u);
    let sh: u32 = (7 * i) as u32;
    let b = s[i as int];
    assert(b == s.subrange(i as int, (i + varint_size(u)) as int)[0]);
    if u >> 7 == 0 {
        assert(b == (u & 0x7f) as u8);
        assert(b & 0x80 == 0 && (((b & 0x7f) as u32) << sh) == (u << sh)) by (bit_vector)
            requires
                b == (u & 0x7f) as u8,
                u >> 7 == 0,
        ;
    } else {
        lemma_varint_size_bounds(u >> 7);
        lemma_varint_size_is_wire_len(u >> 7);
        assert(b == ((u & 0x7f) | 0x80) as u8);
        assert(b & 0x80 != 0) by (bit_vector)
            requires
                b == ((u & 0x7f) | 0x80) as u8,
        ;
        let acc2 = acc | (((b & 0x7f) as u32) << sh);
        let w = varint_wire(u);
        let t = varint_size(u >> 7);
        assert forall|k: int| 0 <= k < t implies s.subrange(
            (i + 1) as int,
            ((i + 1) + t) as int,
        )[k] == varint_wire(u >> 7)[k] by {
            assert(s.subrange(i as int, (i + varint_size(u)) as int)[k + 1] == w[k + 1]);
            assert(w[k + 1] == varint_wire(u >> 7)[k]);
        }
        assert(s.subrange((i + 1) as int, ((i + 1) + varint_size(u >> 7)) as int) =~= varint_wire(
            u >> 7,
        ));
        varint_parse_wire_at(s, u >> 7, i + 1, acc2);
        assert((7 * (i + 1)) as u32 == sh + 7);
        assert((acc | (((((u & 0x7f) | 0x80) as u8) & 0x7f) as u32) << sh) | ((u >> 7) << (sh + 7))
            == acc | (u << sh)) by (bit_vector)
            requires
                sh <= 21,
        ;
    }
}

proof fn varint_parse_at_consumed(s: Seq<u8>, i: nat, acc: u32)
    requires
        i <= s.len(),
    ensures
        (match varint_parse_at(s, i, acc) {
            Ok(p) => i < p.1 <= s.len(),
            Err(e) => i <= e.1 <= s.len(),
        }),
    decreases 5 - i,
{
    if i >= s.len() {
    } else {
        let b = s[i as int];
        if b & 0x80 == 0 || i + 1 >= 5 || 7 * (i + 1) >= 32 {
        } else {
            varint_parse_at_consumed(s, i + 1, acc | (((b & 0x7f) as u32) << ((7 * i) as u32)));
        }
    }
}

/// A decode never consumes more bytes than the input holds, and a successful
/// one consumes at least one.
pub proof fn lemma_varint_parse_consumed(s: Seq<u8>)
    ensures
        (match varint_parse(s) {
            Ok(p) => 1 <= p.1 <= s.len(),
            Err(e) => e.1 <= s.len(),
        }),
{
    varint_parse_at_consumed(s, 0, 0);
}

/// Decoding an encoding yields the value back, whatever bytes follow it,
/// consuming exactly the encoding.
pub proof fn lemma_varint_round_trip(v: i32, rest: Seq<u8>)
    ensures
        varint_parse(varint_wire(v as u32) + rest) == Ok::<(VarInt, nat), (WireError, nat)>(
            (VarInt(v), varint_size(v as u32)),
        ),
{
    let u = v as u32;
    lemma_varint_size_bounds(u);
    lemma_varint_size_is_wire_len(u);
    let s = varint_wire(u) + rest;
    assert(s.subrange(0, varint_size(u) as int) =~= varint_wire(u));
    varint_parse_wire_at(s, u, 0, 0);
    assert((0u32 | (u << 0u32)) == u) by (bit_vector);
    assert((7 * 0) as u32 == 0u32);
    assert((v as u32) as i32 == v) by (bit_vector);
}

/// Re-encoding a decoded value reproduces the original bytes exactly.
pub proof fn lemma_varint_reencode(v: i32)
    ensures
        varint_parse(varint_wire(v as u32)) is Ok,
        varint_parse(varint_wire(v as u32)) matches Ok(p) ==> varint_wire(p.0.0 as u32)
            == varint_wire(v as u32),
{
    lemma_varint_round_trip(v, Seq::empty());
    assert(varint_wire(v as u32) + Seq::<u8>::empty() =~= varint_wire(v as u32));
}

} // verus!
