use bytes::Buf;
use bytes::Bytes;
use bytes::BytesMut;
use protocol::error::WireError;
use protocol::types::DataType;

fn encode(s: &str) -> Vec<u8> {
    let mut out = BytesMut::new();
    s.to_string().write(&mut out).unwrap();
    out.to_vec()
}

fn decode(data: Vec<u8>) -> Result<String, WireError> {
    let mut buf = Bytes::from(data);
    String::read(&mut buf)
}

#[test]
fn empty_string_is_single_zero_byte() {
    assert_eq!(encode(""), vec![0x00]);
    assert_eq!(decode(vec![0x00]).unwrap(), "");
}

#[test]
fn string_wire_is_length_prefix_then_utf8() {
    assert_eq!(encode("hi"), vec![0x02, b'h', b'i']);
    assert_eq!(encode("hello"), vec![0x05, b'h', b'e', b'l', b'l', b'o']);
}

#[test]
fn string_length_counts_bytes_not_chars() {
    let bytes = encode("h\u{e9}llo");
    assert_eq!(bytes[0], 6);
    assert_eq!(bytes.len(), 7);
    assert_eq!(decode(bytes).unwrap(), "h\u{e9}llo");
}

#[test]
fn string_round_trip() {
    for s in ["", "a", "hello world", "\u{1f600}\u{e9}\u{4e2d}", "line\nbreak"] {
        assert_eq!(decode(encode(s)).unwrap(), s);
    }
}

#[test]
fn string_reencode_is_byte_identical() {
    for s in ["", "abc", "\u{1f600} mixed \u{e9}"] {
        let first = encode(s);
        let decoded = decode(first.clone()).unwrap();
        let mut again = BytesMut::new();
        decoded.write(&mut again).unwrap();
        assert_eq!(again.to_vec(), first);
    }
}

#[test]
fn string_negative_length_invalid_length() {
    // A VarInt(-1) prefix followed by would-be payload bytes.
    let mut data = vec![0xff, 0xff, 0xff, 0xff, 0x0f];
    data.extend_from_slice(b"abc");
    let mut buf = Bytes::from(data);
    assert_eq!(String::read(&mut buf).unwrap_err(), WireError::InvalidLength);
    // The payload was not consumed, only the prefix.
    assert_eq!(buf.remaining(), 3);
}

#[test]
fn string_invalid_utf8_invalid_encoding() {
    // Length 1, then a lone continuation byte.
    assert_eq!(decode(vec![0x01, 0x80]).unwrap_err(), WireError::InvalidEncoding);
    // Length 2, then an overlong-looking pair.
    assert_eq!(decode(vec![0x02, 0xc0, 0x20]).unwrap_err(), WireError::InvalidEncoding);
}

#[test]
fn string_invalid_utf8_consumes_prefix_and_payload() {
    let mut buf = Bytes::from(vec![0x01, 0x80, 0x55]);
    assert_eq!(String::read(&mut buf).unwrap_err(), WireError::InvalidEncoding);
    assert_eq!(buf.remaining(), 1);
}

#[test]
fn string_short_payload_unexpected_end() {
    let mut buf = Bytes::from(vec![0x05, b'a', b'b', b'c']);
    assert_eq!(String::read(&mut buf).unwrap_err(), WireError::UnexpectedEnd);
    // The payload stays in place when the claimed length cannot be served.
    assert_eq!(buf.remaining(), 3);
}

#[test]
fn string_empty_buffer_unexpected_end() {
    assert_eq!(decode(vec![]).unwrap_err(), WireError::UnexpectedEnd);
}

#[test]
fn string_read_leaves_trailing_bytes() {
    let mut buf = Bytes::from(vec![0x01, b'x', 0x99]);
    assert_eq!(String::read(&mut buf).unwrap(), "x");
    assert_eq!(buf.remaining(), 1);
}
