//! Variable-length encoding of 64-bit signed integers.

use vstd::prelude::*;

use crate::cursor;
use crate::cursor::read_side;
use crate::cursor::write_side;
use crate::error::WireError;
use crate::types::DataType;

verus! {

/// A 64-bit signed integer carried as 1 to 10 bytes: the unsigned bit pattern
/// is split into 7-bit groups, low group first, and every byte but the last
/// has its high (continuation) bit set.
#[derive(Debug, Clone, Copy, PartialEq, Eq, Structural)]
pub struct VarLong(pub i64);

/// The encoding of the bit pattern `u`: its 7-bit groups, low first,
/// continuation bit set on every byte but the last.
pub open spec fn varlong_wire(u: u64) -> Seq<u8>
    decreases u,
        via varlong_wire_decreases
{
    if u >> 7 == 0 {
        seq![(u & 0x7f) as u8]
    } else {
        seq![((u & 0x7f) | 0x80) as u8] + varlong_wire(u >> 7)
    }
}

#[via_fn]
proof fn varlong_wire_decreases(u: u64) {
    assert(u >> 7 != 0 ==> u >> 7 < u) by (bit_vector);
}

/// How many bytes the encoding of `u` occupies, computed by simulating the
/// shift loop rather than by taking the length of `varlong_wire`.
pub open spec fn varlong_size(u: u64) -> nat
    decreases u,
        via varlong_size_decreases
{
    if u >> 7 == 0 {
        1
    } else {
        1 + varlong_size(u >> 7)
    }
}

#[via_fn]
proof fn varlong_size_decreases(u: u64) {
    assert(u >> 7 != 0 ==> u >> 7 < u) by (bit_vector);
}

/// One step of the decode loop: `i` bytes have been consumed so far (all with
/// their continuation bit set) and their payload bits sit in `acc`.
pub open spec fn varlong_parse_at(s: Seq<u8>, i: nat, acc: u64) -> Result<
    (u64, nat),
    (WireError, nat),
>
    decreases 10 - i,
{
    if i >= s.len() {
        Err((WireError::UnexpectedEnd, i))
    } else {
        let b = s[i as int];
        let acc2 = acc | (((b & 0x7f) as u64) << ((7 * i) as u64));
        if b & 0x80 == 0 {
            Ok((acc2, i + 1))
        } else if i + 1 >= 10 {
            Err((WireError::TooLong, i + 1))
        } else if 7 * (i + 1) >= 64 {
            Err((WireError::Overflow, i + 1))
        } else {
            varlong_parse_at(s, i + 1, acc2)
        }
    }
}

/// The outcome of decoding a `VarLong` from the front of `s`.
pub open spec fn varlong_parse(s: Seq<u8>) -> Result<(VarLong, nat), (WireError, nat)> {
    match varlong_parse_at(s, 0, 0) {
        Ok(p) => Ok((VarLong(p.0 as i64), p.1)),
        Err(e) => Err(e),
    }
}

impl View for VarLong {
    type V = VarLong;

    open spec fn view(&self) -> VarLong {
        *self
    }
}

impl VarLong {
    /// Wrap a value.
    pub fn new(value: i64) -> (v: Self)
        ensures
            v == VarLong(value),
    {
        Self(value)
    }

    /// The wrapped value.
    pub fn value(&self) -> (n: i64)
        ensures
            n == self.0,
    {
        self.0
    }

    /// The number of bytes `write` would produce, without encoding.
    pub fn encoded_size(&self) -> (n: usize)
        ensures
            n == varlong_size(self.0 as u64),
            n == varlong_wire(self.0 as u64).len(),
    {
        proof {
            lemma_varlong_size_bounds(self.0 as u64);
            lemma_varlong_size_is_wire_len(self.0 as u64);
        }
        let mut value: u64 = self.0 as u64;
        let mut size: usize = 1;
        while value >= 0x80
            invariant
                1 <= size <= 10,
                varlong_size(self.0 as u64) <= 10,
                size + varlong_size(value) == 1 + varlong_size(self.0 as u64),
            decreases value,
        {
            assert(value >= 0x80 ==> value >> 7 != 0 && value >> 7 < value) by (bit_vector);
            assert(varlong_size(value) == 1 + varlong_size(value >> 7));
            value = value >> 7;
            size = size + 1;
        }
        proof {
            assert(value < 0x80 ==> value >> 7 == 0) by (bit_vector);
        }
        size
    }
}

impl Default for VarLong {
    /// The zero value.
    fn default() -> (v: Self)
        ensures
            v == VarLong(0),
    {
        VarLong(0)
    }
}

impl From<i64> for VarLong {
    fn from(value: i64) -> (v: Self) {
        VarLong(value)
    }
}

impl vstd::std_specs::convert::FromSpecImpl<i64> for VarLong {
    open spec fn obeys_from_spec() -> bool {
        true
    }

    open spec fn from_spec(value: i64) -> VarLong {
        VarLong(value)
    }
}

impl From<VarLong> for i64 {
    fn from(v: VarLong) -> (n: i64) {
        v.0
    }
}

impl vstd::std_specs::convert::FromSpecImpl<VarLong> for i64 {
    open spec fn obeys_from_spec() -> bool {
        true
    }

    open spec fn from_spec(v: VarLong) -> i64 {
        v.0
    }
}

impl DataType for VarLong {
    open spec fn wire(self) -> Seq<u8> {
        varlong_wire(self.0 as u64)
    }

    open spec fn wire_fits(self) -> bool {
        true
    }

    open spec fn parse(s: Seq<u8>) -> Result<(VarLong, nat), (WireError, nat)> {
        varlong_parse(s)
    }

    fn read(buf: &mut bytes::Bytes) -> (r: Result<Self, WireError>) {
        let ghost s0 = read_side(*old(buf));
        let mut result: u64 = 0;
        let mut shift: u64 = 0;
        let mut bytes_read: usize = 0;
        loop
            invariant
                s0 == read_side(*old(buf)),
                bytes_read <= 9,
                bytes_read <= s0.len(),
                shift == 7 * bytes_read,
                read_side(*buf) == s0.skip(bytes_read as int),
                varlong_parse_at(s0, 0, 0) == varlong_parse_at(s0, bytes_read as nat, result),
            decreases 10 - bytes_read,
        {
            if cursor::remaining(buf) == 0 {
                return Err(WireError::UnexpectedEnd);
            }
            let ghost i = bytes_read as nat;
            let byte = cursor::get_u8(buf);
            proof {
                assert(s0.skip(i as int).skip(1) =~= s0.skip(i as int + 1));
            }
            result = result | (((byte & 0x7f) as u64) << shift);
            bytes_read = bytes_read + 1;
            if byte & 0x80 == 0 {
                return Ok(VarLong(result as i64));
            }
            shift = shift + 7;
            if bytes_read >= 10 {
                return Err(WireError::TooLong);
            }
            if shift >= 64 {
                return Err(WireError::Overflow);
            }
        }
    }

    fn write(&self, buf: &mut bytes::BytesMut) -> (r: Result<(), WireError>) {
        let mut value: u64 = self.0 as u64;
        while value >= 0x80
            invariant
                write_side(*buf) + varlong_wire(value) == write_side(*old(buf)) + varlong_wire(
                    self.0 as u64,
                ),
            decreases value,
        {
            assert(value >= 0x80 ==> value >> 7 != 0 && value >> 7 < value) by (bit_vector);
            let ghost before = write_side(*buf);
            cursor::put_u8(buf, ((value & 0x7f) | 0x80) as u8);
            proof {
                assert(before.push((((value & 0x7f) | 0x80) as u8)) + varlong_wire(value >> 7)
                    =~= before + varlong_wire(value));
            }
            value = value >> 7;
        }
        proof {
            assert(value < 0x80 ==> value >> 7 == 0 && ((value & 0x7f) as u8) == (
            value as u8)) by (bit_vector);
            assert(write_side(*buf).push((value as u8)) =~= write_side(*buf) + varlong_wire(value));
        }
        cursor::put_u8(buf, value as u8);
        Ok(())
    }
}

/// At most ten bytes, never fewer than one.
pub proof fn lemma_varlong_size_bounds(u: u64)
    ensures
        1 <= varlong_size(u) <= 10,
{
    varlong_size_le(u, 10);
}

proof fn varlong_size_le(u: u64, k: u64)
    requires
        1 <= k <= 10,
        k < 10 ==> u >> (7 * k) == 0,
    ensures
        varlong_size(u) <= k,
    decreases k,
{
    if u >> 7 == 0 {
    } else {
        if k == 1 {
            assert(u >> 7 == 0);
        } else if k == 10 {
            assert((u >> 7) >> 63 == 0) by (bit_vector);
            varlong_size_le(u >> 7, 9);
        } else if k == 2 {
            assert(u >> 14 == 0 ==> (u >> 7) >> 7 == 0) by (bit_vector);
            varlong_size_le(u >> 7, 1);
        } else if k == 3 {
            assert(u >> 21 == 0 ==> (u >> 7) >> 14 == 0) by (bit_vector);
            varlong_size_le(u >> 7, 2);
        } else if k == 4 {
            assert(u >> 28 == 0 ==> (u >> 7) >> 21 == 0) by (bit_vector);
            varlong_size_le(u >> 7, 3);
        } else if k == 5 {
            assert(u >> 35 == 0 ==> (u >> 7) >> 28 == 0) by (bit_vector);
            varlong_size_le(u >> 7, 4);
        } else if k == 6 {
            assert(u >> 42 == 0 ==> (u >> 7) >> 35 == 0) by (bit_vector);
            varlong_size_le(u >> 7, 5);
        } else if k == 7 {
            assert(u >> 49 == 0 ==> (u >> 7) >> 42 == 0) by (bit_vector);
            varlong_size_le(u >> 7, 6);
        } else if k == 8 {
            assert(u >> 56 == 0 ==> (u >> 7) >> 49 == 0) by (bit_vector);
            varlong_size_le(u >> 7, 7);
        } else {
            assert(u >> 63 == 0 ==> (u >> 7) >> 56 == 0) by (bit_vector);
            varlong_size_le(u >> 7, 8);
        }
    }
}

/// The byte count `encoded_size` computes is the length of the encoding.
pub proof fn lemma_varlong_size_is_wire_len(u: u64)
    ensures
        varlong_size(u) == varlong_wire(u).len(),
    decreases u,
{
    if u >> 7 == 0 {
    } else {
        assert(u >> 7 != 0 ==> u >> 7 < u) by (bit_vector);
        lemma_varlong_size_is_wire_len(u >> 7);
    }
}

proof fn varlong_parse_wire_at(s: Seq<u8>, u: u64, i: nat, acc: u64)
    requires
        i + varlong_size(u) <= 10,
        i + varlong_size(u) <= s.len(),
        s.subrange(i as int, (i + varlong_size(u)) as int) == varlong_wire(u),
    ensures
        varlong_parse_at(s, i, acc) == Ok::<(u64, nat), (WireError, nat)>(
            ((acc | (u << ((7 * i) as u64))) as u64, (i + varlong_size(u)) as nat),
        ),
    decreases varlong_size(u),
{
    lemma_varlong_size_is_wire_len(u);
    let sh: u64 = (7 * i) as u64;
    let b = s[i as int];
    assert(b == s.subrange(i as int, (i + varlong_size(u)) as int)[0]);
    if u >> 7 == 0 {
        assert(b == (u & 0x7f) as u8);
        assert(b & 0x80 == 0 && (((b & 0x7f) as u64) << sh) == (u << sh)) by (bit_vector)
            requires
                b == (u & 0x7f) as u8,
                u >> 7 == 0,
        ;
    } else {
        lemma_varlong_size_bounds(u >> 7);
        lemma_varlong_size_is_wire_len(u >> 7);
        assert(b == ((u & 0x7f) | 0x80) as u8);
        assert(b & 0x80 != 0) by (bit_vector)
            requires
                b == ((u & 0x7f) | 0x80) as u8,
        ;
        let acc2 = acc | (((b & 0x7f) as u64) << sh);
        let w = varlong_wire(u);
        let t = varlong_size(u >> 7);
        assert forall|k: int| 0 <= k < t implies s.subrange(
            (i + 1) as int,
            ((i + 1) + t) as int,
        )[k] == varlong_wire(u >> 7)[k] by {
            assert(s.subrange(i as int, (i + varlong_size(u)) as int)[k + 1] == w[k + 1]);
            assert(w[k + 1] == varlong_wire(u >> 7)[k]);
        }
        assert(s.subrange((i + 1) as int, ((i + 1) + varlong_size(u >> 7)) as int) =~= varlong_wire(
            u >> 7,
        ));
        varlong_parse_wire_at(s, u >> 7, i + 1, acc2);
        assert((7 * (i + 1)) as u64 == sh + 7);
        assert((acc | (((((u & 0x7f) | 0x80) as u8) & 0x7f) as u64) << sh) | ((u >> 7) << (sh + 7))
            == acc | (u << sh)) by (bit_vector)
            requires
                sh <= 56,
        ;
    }
}

/// Decoding an encoding yields the value back, whatever bytes follow it,
/// consuming exactly the encoding.
pub proof fn lemma_varlong_round_trip(v: i64, rest: Seq<u8>)
    ensures
        varlong_parse(varlong_wire(v as u64) + rest) == Ok::<(VarLong, nat), (WireError, nat)>(
            (VarLong(v), varlong_size(v as u64)),
        ),
{
    let u = v as u64;
    lemma_varlong_size_bounds(u);
    lemma_varlong_size_is_wire_len(u);
    let s = varlong_wire(u) + rest;
    assert(s.subrange(0, varlong_size(u) as int) =~= varlong_wire(u));
    varlong_parse_wire_at(s, u, 0, 0);
    assert((0u64 | (u << 0u64)) == u) by (bit_vector);
    assert((7 * 0) as u64 == 0u64);
    assert((v as u64) as i64 == v) by (bit_vector);
}

/// Re-encoding a decoded value reproduces the original bytes exactly.
pub proof fn lemma_varlong_reencode(v: i64)
    ensures
        varlong_parse(varlong_wire(v as u64)) is Ok,
        varlong_parse(varlong_wire(v as u64)) matches Ok(p) ==> varlong_wire(p.0.0 as u64)
            == varlong_wire(v as u64),
{
    lemma_varlong_round_trip(v, Seq::empty());
    assert(varlong_wire(v as u64) + Seq::<u8>::empty() =~= varlong_wire(v as u64));
}

} // verus!
