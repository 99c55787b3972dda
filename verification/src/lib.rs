//! Wire codec for a length-prefixed binary network protocol.
//!
//! Values are encoded one at a time against a byte cursor: fixed-width
//! primitives in big-endian order, UTF-8 strings behind a `VarInt` byte-length
//! prefix, and the two variable-length integer encodings `VarInt` and
//! `VarLong` (7 payload bits per byte, high bit as continuation flag).

pub mod cursor;
pub mod error;
pub mod types;
pub mod varint;
pub mod varlong;
pub mod primitives;
