use bytes::Buf;
use bytes::Bytes;
use bytes::BytesMut;
use protocol::error::WireError;
use protocol::types::DataType;
use protocol::varlong::VarLong;

fn encode(v: i64) -> Vec<u8> {
    let mut out = BytesMut::new();
    VarLong(v).write(&mut out).unwrap();
    out.to_vec()
}

fn decode(data: Vec<u8>) -> Result<VarLong, WireError> {
    let mut buf = Bytes::from(data);
    VarLong::read(&mut buf)
}

#[test]
fn varlong_zero_is_one_zero_byte() {
    assert_eq!(encode(0), vec![0x00]);
    assert_eq!(decode(vec![0x00]).unwrap(), VarLong(0));
}

#[test]
fn varlong_minus_one_is_ten_bytes() {
    assert_eq!(
        encode(-1),
        vec![0xff, 0xff, 0xff, 0xff, 0xff, 0xff, 0xff, 0xff, 0xff, 0x01]
    );
}

#[test]
fn varlong_known_encodings() {
    assert_eq!(encode(1), vec![0x01]);
    assert_eq!(encode(127), vec![0x7f]);
    assert_eq!(encode(128), vec![0x80, 0x01]);
    assert_eq!(encode(300), vec![0xac, 0x02]);
    assert_eq!(
        encode(i64::MAX),
        vec![0xff, 0xff, 0xff, 0xff, 0xff, 0xff, 0xff, 0xff, 0x7f]
    );
    assert_eq!(
        encode(i64::MIN),
        vec![0x80, 0x80, 0x80, 0x80, 0x80, 0x80, 0x80, 0x80, 0x80, 0x01]
    );
}

#[test]
fn varlong_round_trip() {
    for v in [
        0,
        1,
        -1,
        127,
        128,
        300,
        (1i64 << 31) - 1,
        1i64 << 31,
        (1i64 << 56) - 1,
        1i64 << 56,
        i64::MAX,
        i64::MIN,
        i64::MIN + 1,
    ] {
        assert_eq!(decode(encode(v)).unwrap(), VarLong(v));
    }
}

#[test]
fn varlong_reencode_is_byte_identical() {
    for v in [0, -1, 300, i64::MAX, i64::MIN] {
        let first = encode(v);
        let decoded = decode(first.clone()).unwrap();
        assert_eq!(encode(decoded.0), first);
    }
}

#[test]
fn varlong_encoded_size_matches_write() {
    for v in [0, 1, -1, 127, 128, 16384, 1i64 << 42, i64::MAX, i64::MIN] {
        assert_eq!(VarLong(v).encoded_size(), encode(v).len());
    }
}

#[test]
fn varlong_eleven_continuations_too_long() {
    let r = decode(vec![
        0x80, 0x80, 0x80, 0x80, 0x80, 0x80, 0x80, 0x80, 0x80, 0x80, 0x01,
    ]);
    assert_eq!(r.unwrap_err(), WireError::TooLong);
}

#[test]
fn varlong_empty_buffer_unexpected_end() {
    assert_eq!(decode(vec![]).unwrap_err(), WireError::UnexpectedEnd);
}

#[test]
fn varlong_truncated_unexpected_end() {
    assert_eq!(decode(vec![0x80]).unwrap_err(), WireError::UnexpectedEnd);
}

#[test]
fn varlong_read_leaves_trailing_bytes() {
    let mut buf = Bytes::from(vec![0x80, 0x01, 0x42]);
    assert_eq!(VarLong::read(&mut buf).unwrap(), VarLong(128));
    assert_eq!(buf.remaining(), 1);
}

#[test]
fn varlong_accessors_and_conversions() {
    let v = VarLong::new(-77);
    assert_eq!(v.value(), -77);
    assert_eq!(VarLong::default(), VarLong(0));
    assert_eq!(VarLong::from(1i64 << 40), VarLong(1 << 40));
    assert_eq!(i64::from(VarLong(9)), 9);
}
