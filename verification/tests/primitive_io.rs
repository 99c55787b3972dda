use bytes::Buf;
use bytes::Bytes;
use bytes::BytesMut;
use protocol::error::WireError;
use protocol::types::DataType;

fn encode<T: DataType>(v: T) -> Vec<u8> {
    let mut out = BytesMut::new();
    v.write(&mut out).unwrap();
    out.to_vec()
}

fn decode<T: DataType>(data: Vec<u8>) -> Result<T, WireError> {
    let mut buf = Bytes::from(data);
    T::read(&mut buf)
}

#[test]
fn bool_wire_bytes_are_canonical() {
    assert_eq!(encode(true), vec![0x01]);
    assert_eq!(encode(false), vec![0x00]);
}

#[test]
fn bool_decodes_any_nonzero_as_true() {
    assert_eq!(decode::<bool>(vec![0x00]).unwrap(), false);
    assert_eq!(decode::<bool>(vec![0x01]).unwrap(), true);
    assert_eq!(decode::<bool>(vec![0x02]).unwrap(), true);
    assert_eq!(decode::<bool>(vec![0xff]).unwrap(), true);
}

#[test]
fn bool_round_trip() {
    for v in [false, true] {
        assert_eq!(decode::<bool>(encode(v)).unwrap(), v);
    }
}

#[test]
fn u8_round_trip() {
    for v in [0u8, 1, 0x7f, 0x80, 0xff] {
        assert_eq!(encode(v), vec![v]);
        assert_eq!(decode::<u8>(vec![v]).unwrap(), v);
    }
}

#[test]
fn i8_round_trip() {
    for v in [0i8, 1, -1, i8::MIN, i8::MAX] {
        assert_eq!(decode::<i8>(encode(v)).unwrap(), v);
    }
    assert_eq!(encode(-1i8), vec![0xff]);
}

#[test]
fn u16_is_big_endian() {
    assert_eq!(encode(0x1234u16), vec![0x12, 0x34]);
    assert_eq!(decode::<u16>(vec![0x12, 0x34]).unwrap(), 0x1234);
}

#[test]
fn u16_round_trip() {
    for v in [0u16, 1, 0xff, 0x100, 0x1234, u16::MAX] {
        assert_eq!(decode::<u16>(encode(v)).unwrap(), v);
    }
}

#[test]
fn i16_round_trip() {
    for v in [0i16, 1, -1, 0x1234, i16::MIN, i16::MAX] {
        assert_eq!(decode::<i16>(encode(v)).unwrap(), v);
    }
    assert_eq!(encode(-2i16), vec![0xff, 0xfe]);
}

#[test]
fn i32_is_big_endian() {
    assert_eq!(encode(0x12345678i32), vec![0x12, 0x34, 0x56, 0x78]);
    assert_eq!(decode::<i32>(vec![0x12, 0x34, 0x56, 0x78]).unwrap(), 0x12345678);
}

#[test]
fn i32_fixed_round_trip() {
    for v in [0i32, 1, -1, 0x12345678, i32::MIN, i32::MAX] {
        assert_eq!(decode::<i32>(encode(v)).unwrap(), v);
    }
}

#[test]
fn i64_is_big_endian() {
    assert_eq!(
        encode(0x0102030405060708i64),
        vec![0x01, 0x02, 0x03, 0x04, 0x05, 0x06, 0x07, 0x08]
    );
}

#[test]
fn i64_fixed_round_trip() {
    for v in [0i64, 1, -1, 0x0102030405060708, i64::MIN, i64::MAX] {
        assert_eq!(decode::<i64>(encode(v)).unwrap(), v);
    }
}

#[test]
fn fixed_width_empty_buffer_unexpected_end() {
    assert_eq!(decode::<bool>(vec![]).unwrap_err(), WireError::UnexpectedEnd);
    assert_eq!(decode::<u8>(vec![]).unwrap_err(), WireError::UnexpectedEnd);
    assert_eq!(decode::<i8>(vec![]).unwrap_err(), WireError::UnexpectedEnd);
    assert_eq!(decode::<u16>(vec![]).unwrap_err(), WireError::UnexpectedEnd);
    assert_eq!(decode::<i16>(vec![]).unwrap_err(), WireError::UnexpectedEnd);
    assert_eq!(decode::<i32>(vec![]).unwrap_err(), WireError::UnexpectedEnd);
    assert_eq!(decode::<i64>(vec![]).unwrap_err(), WireError::UnexpectedEnd);
}

#[test]
fn fixed_width_short_buffer_unexpected_end() {
    assert_eq!(decode::<u16>(vec![0x01]).unwrap_err(), WireError::UnexpectedEnd);
    assert_eq!(decode::<i16>(vec![0x01]).unwrap_err(), WireError::UnexpectedEnd);
    assert_eq!(decode::<i32>(vec![0x01, 0x02, 0x03]).unwrap_err(), WireError::UnexpectedEnd);
    assert_eq!(
        decode::<i64>(vec![0x01, 0x02, 0x03, 0x04, 0x05, 0x06, 0x07]).unwrap_err(),
        WireError::UnexpectedEnd
    );
}

#[test]
fn short_read_consumes_nothing() {
    let mut buf = Bytes::from(vec![0x01, 0x02, 0x03]);
    assert_eq!(i32::read(&mut buf).unwrap_err(), WireError::UnexpectedEnd);
    assert_eq!(buf.remaining(), 3);
}

#[test]
fn fixed_width_reencode_is_byte_identical() {
    let first = encode(0x7fced123i32);
    let decoded: i32 = decode(first.clone()).unwrap();
    assert_eq!(encode(decoded), first);
    let first = encode(-40000i64);
    let decoded: i64 = decode(first.clone()).unwrap();
    assert_eq!(encode(decoded), first);
}

#[test]
fn consecutive_values_share_a_cursor() {
    let mut out = BytesMut::new();
    true.write(&mut out).unwrap();
    0x1234u16.write(&mut out).unwrap();
    (-9i32).write(&mut out).unwrap();
    let mut buf = Bytes::from(out.to_vec());
    assert_eq!(bool::read(&mut buf).unwrap(), true);
    assert_eq!(u16::read(&mut buf).unwrap(), 0x1234);
    assert_eq!(i32::read(&mut buf).unwrap(), -9);
    assert_eq!(buf.remaining(), 0);
}
