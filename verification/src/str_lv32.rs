//! Strings framed by a 32-bit byte length.

use vstd::prelude::*;

use crate::de::{Deserializer, NumDe, TlvStringVisitor};
use crate::error::{Error, Result};
use crate::schema::Width;
use crate::ser::{NumSer, Serializer};
use crate::wire::{decode_prefix_string, encode_prefix_string};

verus! {

/// Writes the UTF-8 byte length of `v` as a 32-bit integer, then the bytes.
/// A string too long for that integer is an overflow, and nothing is
/// written.
pub fn serialize<Endian: NumSer>(v: &str, s: &mut Serializer<Endian>) -> (r: Result<()>)
    ensures
        match encode_prefix_string::<Endian>(Width::W32, v@) {
            Ok(bytes) => r == Ok::<(), Error>(()) && final(s)@ == old(s)@ + bytes,
            Err(e) => r == Err::<(), Error>(e) && final(s)@ == old(s)@,
        },
{
    s.serialize_tlv_string(Width::W32, v)
}

/// Reads a 32-bit byte length, then that many bytes as an owned string. On a
/// failure nothing is read.
pub fn deserialize<'de, Endian: NumDe>(d: &mut Deserializer<'de, Endian>) -> (r: Result<String>)
    ensures
        match decode_prefix_string::<Endian>(Width::W32, old(d)@) {
            Ok((text, rest)) => r matches Ok(s) && s@ == text && final(d)@ == rest,
            Err((e, at)) => r matches Err(x) && x == e && final(d)@ == at,
        },
{
    let s = d.read_tlv_string(Width::W32)?;
    TlvStringVisitor.visit_borrowed_str(s)
}

} // verus!
