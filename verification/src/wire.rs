//! The wire format as mathematics: what each codec turns a value into, and
//! what it reads back from a byte sequence.

use vstd::prelude::*;
use vstd::utf8::{decode_utf8, encode_utf8, valid_utf8};

use crate::de::NumDe;
use crate::error::{Error, Result};
use crate::schema::{DecodeMode, FieldCodec, FramingPolicy, Width};
use crate::ser::NumSer;
use crate::value::ValueModel;

verus! {

/// What a read from the front of an input comes to: the value read and the
/// input that follows it, or the failure and the input that was left when
/// the read stopped.
pub type Read<T> = core::result::Result<(T, Seq<u8>), (Error, Seq<u8>)>;

/// The read that gives `value` and leaves `rest`.
pub open spec fn reads<T>(value: T, rest: Seq<u8>) -> Read<T> {
    Ok((value, rest))
}

/// The read that fails with `error` and stops with `at` left.
pub open spec fn fails<T>(error: Error, at: Seq<u8>) -> Read<T> {
    Err((error, at))
}

/// A read that succeeded, as it comes out when `extra` follows its input:
/// the same value, with `extra` after what was left.
pub open spec fn followed_by<T>(read: Read<T>, extra: Seq<u8>) -> Read<T> {
    match read {
        Ok((value, rest)) => Ok((value, rest + extra)),
        Err(stop) => Err(stop),
    }
}

/// The bytes of a length or count `n` written at the given width.
pub open spec fn size_wire<E: NumSer>(width: Width, n: nat) -> Seq<u8> {
    match width {
        Width::W8 => seq![n as u8],
        Width::W16 => E::u16_wire(n as u16),
        Width::W32 => E::u32_wire(n as u32),
        Width::W64 => E::u64_wire(n as u64),
    }
}

/// The bytes of a string under a length prefix: its UTF-8 byte length, then
/// its UTF-8 bytes. A string longer than the prefix can say is an overflow.
pub open spec fn encode_prefix_string<E: NumSer>(width: Width, text: Seq<char>) -> Result<Seq<u8>> {
    let payload = encode_utf8(text);
    if payload.len() > width.limit() {
        Err(Error::Overflow)
    } else {
        Ok(size_wire::<E>(width, payload.len()) + payload)
    }
}

/// The bytes of one value under one codec, or the failure that stops the
/// encoding. A value that is not of the codec's kind has no encoding.
pub open spec fn encode_model<E: NumSer>(codec: FieldCodec, value: ValueModel) -> Result<Seq<u8>>
    decreases codec, 0nat,
{
    match (codec, value) {
        (FieldCodec::Primitive(Width::W8), ValueModel::U8(v)) => Ok(seq![v]),
        (FieldCodec::Primitive(Width::W16), ValueModel::U16(v)) => Ok(E::u16_wire(v)),
        (FieldCodec::Primitive(Width::W32), ValueModel::U32(v)) => Ok(E::u32_wire(v)),
        (FieldCodec::Primitive(Width::W64), ValueModel::U64(v)) => Ok(E::u64_wire(v)),
        (FieldCodec::NullString, ValueModel::Str(text)) => Ok(encode_utf8(text) + seq![0u8]),
        (FieldCodec::PrefixString(width), ValueModel::Str(text)) => encode_prefix_string::<E>(
            width,
            text,
        ),
        (FieldCodec::CountSeq(width, inner), ValueModel::List(items)) => encode_count_seq::<E>(
            width,
            *inner,
            items,
        ),
        (FieldCodec::BudgetSeq(width, inner), ValueModel::List(items)) => encode_budget_seq::<E>(
            width,
            *inner,
            items,
        ),
        (FieldCodec::Nested(fields), ValueModel::Record(values)) => encode_fields::<E>(
            fields@,
            values,
            0,
        ),
        _ => Err(Error::UnsupportedShape),
    }
}

/// The bytes of a sequence under a count prefix: the number of elements,
/// then the elements. More elements than the prefix can count is an overflow.
pub open spec fn encode_count_seq<E: NumSer>(
    width: Width,
    inner: FieldCodec,
    items: Seq<ValueModel>,
) -> Result<Seq<u8>>
    decreases inner, items.len() + 2,
{
    if items.len() > width.limit() {
        Err(Error::Overflow)
    } else {
        match encode_items::<E>(inner, items, 0) {
            Ok(payload) => Ok(size_wire::<E>(width, items.len()) + payload),
            Err(e) => Err(e),
        }
    }
}

/// The bytes of a sequence under a byte budget: the byte length of all the
/// elements together, then the elements. More bytes than the prefix can say
/// is an overflow.
pub open spec fn encode_budget_seq<E: NumSer>(
    width: Width,
    inner: FieldCodec,
    items: Seq<ValueModel>,
) -> Result<Seq<u8>>
    decreases inner, items.len() + 2,
{
    match encode_items::<E>(inner, items, 0) {
        Ok(payload) => if payload.len() > width.limit() {
            Err(Error::Overflow)
        } else {
            Ok(size_wire::<E>(width, payload.len()) + payload)
        },
        Err(e) => Err(e),
    }
}

/// The bytes of the elements `items[from..]`, each under the codec `inner`,
/// one after the other. The first element that fails stops the encoding.
pub open spec fn encode_items<E: NumSer>(
    inner: FieldCodec,
    items: Seq<ValueModel>,
    from: nat,
) -> Result<Seq<u8>>
    decreases inner, items.len() - from + 1,
{
    if from >= items.len() {
        Ok(Seq::empty())
    } else {
        match encode_model::<E>(inner, items[from as int]) {
            Err(e) => Err(e),
            Ok(head) => match encode_items::<E>(inner, items, from + 1) {
                Err(e) => Err(e),
                Ok(tail) => Ok(head + tail),
            },
        }
    }
}

/// The bytes of the record fields `values[from..]`, each under its own codec
/// `fields[from..]`, one after the other with nothing between them. A record
/// with more or fewer values than fields has no encoding.
pub open spec fn encode_fields<E: NumSer>(
    fields: Seq<FieldCodec>,
    values: Seq<ValueModel>,
    from: nat,
) -> Result<Seq<u8>>
    decreases fields, fields.len() - from,
{
    if fields.len() != values.len() {
        Err(Error::UnsupportedShape)
    } else if from >= fields.len() {
        Ok(Seq::empty())
    } else {
        match encode_model::<E>(fields[from as int], values[from as int]) {
            Err(e) => Err(e),
            Ok(head) => match encode_fields::<E>(fields, values, from + 1) {
                Err(e) => Err(e),
                Ok(tail) => Ok(head + tail),
            },
        }
    }
}

/// The length or count that the first bytes of `bytes` hold at the given
/// width.
pub open spec fn size_value<E: NumDe>(width: Width, bytes: Seq<u8>) -> nat {
    match width {
        Width::W8 => bytes[0] as nat,
        Width::W16 => E::u16_value(bytes) as nat,
        Width::W32 => E::u32_value(bytes) as nat,
        Width::W64 => E::u64_value(bytes) as nat,
    }
}

/// Reads a length or count of the given width from the front of the input:
/// the number and the input that follows it. Fewer bytes than the width
/// needs is an end of input, and nothing is read.
pub open spec fn decode_size<E: NumDe>(width: Width, input: Seq<u8>) -> Read<nat> {
    if input.len() < width.size() {
        Err((Error::UnexpectedEndOfInput, input))
    } else {
        Ok(
            (
                size_value::<E>(width, input.take(width.size() as int)),
                input.skip(width.size() as int),
            ),
        )
    }
}

/// Reads a fixed-width integer from the front of the input. Fewer bytes
/// than the width needs is an end of input, and nothing is read.
pub open spec fn decode_primitive<E: NumDe>(
    width: Width,
    input: Seq<u8>,
) -> Read<ValueModel> {
    if input.len() < width.size() {
        Err((Error::UnexpectedEndOfInput, input))
    } else {
        let bytes = input.take(width.size() as int);
        let rest = input.skip(width.size() as int);
        match width {
            Width::W8 => Ok((ValueModel::U8(bytes[0]), rest)),
            Width::W16 => Ok((ValueModel::U16(E::u16_value(bytes)), rest)),
            Width::W32 => Ok((ValueModel::U32(E::u32_value(bytes)), rest)),
            Width::W64 => Ok((ValueModel::U64(E::u64_value(bytes)), rest)),
        }
    }
}

/// Whether `at` is where the first zero byte of the input stands.
pub open spec fn is_terminator_at(input: Seq<u8>, at: int) -> bool {
    &&& 0 <= at < input.len()
    &&& input[at] == 0
    &&& forall|j: int| 0 <= j < at ==> input[j] != 0
}

/// Where the first zero byte of the input stands, if it has one.
pub open spec fn terminator_index(input: Seq<u8>) -> int {
    choose|at: int| is_terminator_at(input, at)
}

/// The first zero byte of an input stands in one place only.
pub proof fn lemma_terminator_unique(input: Seq<u8>, at: int)
    requires
        is_terminator_at(input, at),
    ensures
        input.contains(0u8),
        terminator_index(input) == at,
{
    let chosen = terminator_index(input);
    assert(is_terminator_at(input, chosen));
    if chosen < at {
        assert(input[chosen] != 0);
    } else if at < chosen {
        assert(input[at] != 0);
    }
}

/// An input that holds a zero byte has a first one.
pub proof fn lemma_terminator_exists(input: Seq<u8>)
    requires
        input.contains(0u8),
    ensures
        is_terminator_at(input, terminator_index(input)),
    decreases input.len(),
{
    let i = choose|i: int| 0 <= i < input.len() && input[i] == 0u8;
    if exists|j: int| 0 <= j < i && input[j] == 0u8 {
        let j = choose|j: int| 0 <= j < i && input[j] == 0u8;
        let shorter = input.take(i);
        assert(shorter[j] == 0u8);
        lemma_terminator_exists(shorter);
        let at = terminator_index(shorter);
        assert(forall|k: int| 0 <= k < at ==> input[k] == shorter[k]);
        assert(is_terminator_at(input, at));
    } else {
        assert(is_terminator_at(input, i));
    }
}

/// Reads a null-terminated string from the front of the input: the text
/// before the first zero byte, and the input after that byte. Input without
/// a zero byte has no terminator; bytes before it that are not UTF-8 are
/// invalid text. On either failure nothing is read.
pub open spec fn decode_null_string(input: Seq<u8>) -> Read<Seq<char>> {
    if !input.contains(0u8) {
        Err((Error::InvalidTerminator, input))
    } else {
        let at = terminator_index(input);
        let payload = input.take(at);
        if !valid_utf8(payload) {
            Err((Error::InvalidText, input))
        } else {
            Ok((decode_utf8(payload), input.skip(at + 1)))
        }
    }
}

/// Reads a length-prefixed string from the front of the input: the length,
/// then that many bytes as text, and the input that follows them. A length
/// beyond what remains exceeds the buffer; a payload that is not UTF-8 is
/// invalid text. On a failure nothing is read, not even the length.
pub open spec fn decode_prefix_string<E: NumDe>(
    width: Width,
    input: Seq<u8>,
) -> Read<Seq<char>> {
    match decode_size::<E>(width, input) {
        Err(stop) => Err(stop),
        Ok((n, rest)) => {
            if n > rest.len() {
                Err((Error::LengthExceedsBuffer, input))
            } else if !valid_utf8(rest.take(n as int)) {
                Err((Error::InvalidText, input))
            } else {
                Ok((decode_utf8(rest.take(n as int)), rest.skip(n as int)))
            }
        },
    }
}

/// Reads one value under one codec from the front of the input: the value
/// and the input that follows it, or the failure that stops the decoding
/// and the input that was left when it stopped.
pub open spec fn decode_model<E: NumDe>(
    codec: FieldCodec,
    input: Seq<u8>,
) -> Read<ValueModel>
    decreases codec, 0nat,
{
    match codec {
        FieldCodec::Primitive(width) => decode_primitive::<E>(width, input),
        FieldCodec::NullString => match decode_null_string(input) {
            Ok((text, rest)) => Ok((ValueModel::Str(text), rest)),
            Err(stop) => Err(stop),
        },
        FieldCodec::PrefixString(width) => match decode_prefix_string::<E>(width, input) {
            Ok((text, rest)) => Ok((ValueModel::Str(text), rest)),
            Err(stop) => Err(stop),
        },
        FieldCodec::CountSeq(width, inner) => match decode_count_seq::<E>(width, *inner, input) {
            Ok((items, rest)) => Ok((ValueModel::List(items), rest)),
            Err(stop) => Err(stop),
        },
        FieldCodec::BudgetSeq(width, inner) => match decode_budget_seq::<E>(width, *inner, input) {
            Ok((items, rest)) => Ok((ValueModel::List(items), rest)),
            Err(stop) => Err(stop),
        },
        FieldCodec::Nested(fields) => match decode_fields::<E>(fields@, input, 0) {
            Ok((values, rest)) => Ok((ValueModel::Record(values), rest)),
            Err(stop) => Err(stop),
        },
    }
}

/// Reads a count-prefixed sequence: the count, then exactly that many
/// elements.
pub open spec fn decode_count_seq<E: NumDe>(
    width: Width,
    inner: FieldCodec,
    input: Seq<u8>,
) -> Read<Seq<ValueModel>>
    decreases inner, 2nat,
{
    match decode_size::<E>(width, input) {
        Err(stop) => Err(stop),
        Ok((count, rest)) => decode_items::<E>(inner, rest, count),
    }
}

/// Reads `count` elements one after the other, each under the codec `inner`.
/// The first element that fails stops the decoding where it stopped itself.
pub open spec fn decode_items<E: NumDe>(
    inner: FieldCodec,
    input: Seq<u8>,
    count: nat,
) -> Read<Seq<ValueModel>>
    decreases inner, 1nat, count,
{
    if count == 0 {
        Ok((Seq::empty(), input))
    } else {
        match decode_model::<E>(inner, input) {
            Err(stop) => Err(stop),
            Ok((head, rest)) => match decode_items::<E>(inner, rest, (count - 1) as nat) {
                Err(stop) => Err(stop),
                Ok((tail, rest)) => Ok((seq![head] + tail, rest)),
            },
        }
    }
}

/// Reads a byte budget of the given width from the front of the input: the
/// budget and the input that follows it. A budget beyond what remains of the
/// input exceeds the buffer, and nothing is read.
pub open spec fn decode_budget<E: NumDe>(width: Width, input: Seq<u8>) -> Read<nat> {
    match decode_size::<E>(width, input) {
        Err(stop) => Err(stop),
        Ok((budget, rest)) => if budget > rest.len() {
            Err((Error::LengthExceedsBuffer, input))
        } else {
            Ok((budget, rest))
        },
    }
}

/// Reads a budget-prefixed sequence: the byte budget, then elements until
/// the budget is used up.
pub open spec fn decode_budget_seq<E: NumDe>(
    width: Width,
    inner: FieldCodec,
    input: Seq<u8>,
) -> Read<Seq<ValueModel>>
    decreases inner, 2nat,
{
    match decode_budget::<E>(width, input) {
        Err(stop) => Err(stop),
        Ok((budget, rest)) => decode_within::<E>(inner, rest, budget),
    }
}

/// Reads elements under the codec `inner` until `budget` bytes are used up.
/// An element that takes more bytes than the budget has left, or none at
/// all, is a budget mismatch, found after that element was read.
pub open spec fn decode_within<E: NumDe>(
    inner: FieldCodec,
    input: Seq<u8>,
    budget: nat,
) -> Read<Seq<ValueModel>>
    decreases inner, 1nat, budget,
{
    if budget == 0 {
        Ok((Seq::empty(), input))
    } else {
        match decode_model::<E>(inner, input) {
            Err(stop) => Err(stop),
            Ok((head, rest)) => {
                let used = input.len() - rest.len();
                if used <= 0 || used > budget {
                    Err((Error::BudgetMismatch, rest))
                } else {
                    match decode_within::<E>(inner, rest, (budget - used) as nat) {
                        Err(stop) => Err(stop),
                        Ok((tail, rest)) => Ok((seq![head] + tail, rest)),
                    }
                }
            },
        }
    }
}

/// Reads the record fields `fields[from..]` one after the other, each under
/// its own codec and each starting where the one before it ended.
pub open spec fn decode_fields<E: NumDe>(
    fields: Seq<FieldCodec>,
    input: Seq<u8>,
    from: nat,
) -> Read<Seq<ValueModel>>
    decreases fields, fields.len() - from,
{
    if from >= fields.len() {
        Ok((Seq::empty(), input))
    } else {
        match decode_model::<E>(fields[from as int], input) {
            Err(stop) => Err(stop),
            Ok((head, rest)) => match decode_fields::<E>(fields, rest, from + 1) {
                Err(stop) => Err(stop),
                Ok((tail, rest)) => Ok((seq![head] + tail, rest)),
            },
        }
    }
}

/// Reads one field under a framing policy: a string, or a sequence whose
/// elements are under the codec `inner`.
pub open spec fn decode_framed<E: NumDe>(
    policy: FramingPolicy,
    inner: FieldCodec,
    input: Seq<u8>,
) -> Read<ValueModel> {
    match policy {
        FramingPolicy::PrefixString(width) => decode_model::<E>(
            FieldCodec::PrefixString(width),
            input,
        ),
        FramingPolicy::CountSeq(width) => decode_model::<E>(
            FieldCodec::CountSeq(width, Box::new(inner)),
            input,
        ),
        FramingPolicy::BudgetSeq(width) => decode_model::<E>(
            FieldCodec::BudgetSeq(width, Box::new(inner)),
            input,
        ),
    }
}

/// Reads one value under one codec from a whole buffer. In strict mode
/// input left over after the value is trailing bytes; in lenient mode it is
/// ignored.
pub open spec fn decode_whole<E: NumDe>(
    codec: FieldCodec,
    input: Seq<u8>,
    mode: DecodeMode,
) -> Result<ValueModel> {
    match decode_model::<E>(codec, input) {
        Err((e, _)) => Err(e),
        Ok((value, rest)) => if mode == DecodeMode::Strict && rest.len() > 0 {
            Err(Error::TrailingBytes)
        } else {
            Ok(value)
        },
    }
}

} // verus!
