//! Sequences framed by a 16-bit byte budget.

use vstd::prelude::*;

use crate::de::{Deserializer, NumDe};
use crate::error::{Error, Result};
use crate::schema::{FieldCodec, Width};
use crate::ser::{NumSer, Serializer};
use crate::value::{all_borrow_text, models, Value};
use crate::wire::{decode_budget_seq, encode_budget_seq};

verus! {

/// Writes the byte length of all the elements of `v` together as a 16-bit
/// integer, then each element under the codec `inner`. More bytes than that
/// integer can say is an overflow, and nothing is written.
pub fn serialize<Endian: NumSer>(
    v: &Vec<Value>,
    inner: &FieldCodec,
    s: &mut Serializer<Endian>,
) -> (r: Result<()>)
    ensures
        match encode_budget_seq::<Endian>(Width::W16, *inner, models(v@)) {
            Ok(bytes) => r == Ok::<(), Error>(()) && final(s)@ == old(s)@ + bytes,
            Err(e) => r == Err::<(), Error>(e) && final(s)@ == old(s)@,
        },
{
    s.serialize_budgeted(Width::W16, inner, v)
}

/// Reads a 16-bit byte budget, then elements under the codec `inner` until
/// the budget is used up.
pub fn deserialize<'de, Endian: NumDe>(
    d: &mut Deserializer<'de, Endian>,
    inner: &FieldCodec,
) -> (r: Result<Vec<Value<'de>>>)
    ensures
        match decode_budget_seq::<Endian>(Width::W16, *inner, old(d)@) {
            Ok((items, rest)) => {
                &&& r matches Ok(v)
                &&& models(v@) == items
                &&& all_borrow_text(v@)
                &&& final(d)@ == rest
            },
            Err((e, at)) => r matches Err(x) && x == e && final(d)@ == at,
        },
        final(d)@.is_suffix_of(old(d)@),
{
    d.deserialize_budgeted(Width::W16, inner)
}

} // verus!
