//! Sequences framed by a 64-bit element count.

use vstd::prelude::*;

use crate::de::{Deserializer, NumDe};
use crate::error::{Error, Result};
use crate::schema::{FieldCodec, Width};
use crate::ser::{NumSer, Serializer};
use crate::value::{all_borrow_text, models, Value};
use crate::wire::{decode_count_seq, encode_count_seq};

verus! {

/// Writes the number of elements of `v` as a 64-bit integer, then each
/// element under the codec `inner`. More elements than that integer can
/// count is an overflow.
pub fn serialize<Endian: NumSer>(
    v: &Vec<Value>,
    inner: &FieldCodec,
    s: &mut Serializer<Endian>,
) -> (r: Result<()>)
    ensures
        match encode_count_seq::<Endian>(Width::W64, *inner, models(v@)) {
            Ok(bytes) => r == Ok::<(), Error>(()) && final(s)@ == old(s)@ + bytes,
            Err(e) => r == Err::<(), Error>(e) && old(s)@.is_prefix_of(final(s)@),
        },
{
    s.serialize_counted(Width::W64, inner, v)
}

/// Reads a 64-bit element count, then exactly that many elements under the
/// codec `inner`.
pub fn deserialize<'de, Endian: NumDe>(
    d: &mut Deserializer<'de, Endian>,
    inner: &FieldCodec,
) -> (r: Result<Vec<Value<'de>>>)
    ensures
        match decode_count_seq::<Endian>(Width::W64, *inner, old(d)@) {
            Ok((items, rest)) => {
                &&& r matches Ok(v)
                &&& models(v@) == items
                &&& all_borrow_text(v@)
                &&& final(d)@ == rest
            },
            Err((e, at)) => r matches Err(x) && x == e && final(d)@ == at,
        },
        final(d)@.is_suffix_of(old(d)@),
{
    d.deserialize_counted(Width::W64, inner)
}

} // verus!
