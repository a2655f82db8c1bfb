//! A positional binary codec for fixed-schema wire formats.
//!
//! A record is an ordered list of fields. Each field is a fixed-width
//! unsigned integer, a string, a sequence or a nested record, and each
//! variable-length field states how its size is framed on the wire. Encoding
//! concatenates the fields in order with no padding; decoding walks the same
//! schema over a cursor and borrows strings from the input instead of
//! copying them.
//!
//! `wire` defines the format as functions on byte sequences, `ser` and `de`
//! implement it and are proved against those definitions, and `laws` proves
//! what the format promises as a whole.

use vstd::prelude::*;

pub mod de;
pub mod error;
pub mod laws;
pub mod schema;
pub mod ser;
pub mod str_lv16;
pub mod str_lv32;
pub mod str_lv64;
pub mod str_lv8;
mod text;
pub mod value;
pub mod vec_lv16;
pub mod vec_lv16b;
pub mod vec_lv32;
pub mod vec_lv32b;
pub mod vec_lv64;
pub mod vec_lv64b;
pub mod vec_lv8;
pub mod vec_lv8b;
pub mod wire;

pub use de::{
    from_bytes, from_bytes_le, Deserializer, NumDe, PackedArray, PackedArrayByteSized,
    TlvStringVisitor, TlvVecVisitor,
};
pub use error::Error;
pub use laws::ByteOrder;
pub use schema::{DecodeMode, FieldCodec, FramingPolicy, Width};
pub use ser::{to_bytes, to_bytes_le, NumSer, Serializer};
pub use value::{Value, ValueModel};

verus! {

/// Little-endian byte order: the least significant byte comes first.
pub struct LittleEndian {}

} // verus!
