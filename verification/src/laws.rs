//! What holds of the wire format as a whole: decoding reads back what
//! encoding wrote, more input after a value changes nothing but what is left
//! over, counts and budgets frame the same bytes, and the first failing field
//! decides how a record fails.

use vstd::arithmetic::div_mod::lemma_div_denominator;
use vstd::prelude::*;
use vstd::utf8::{
    char_is_scalar, encode_scalar, encode_utf8, encode_utf8_decode_utf8, encode_utf8_valid_utf8,
    valid_utf8,
};

use crate::de::NumDe;
use crate::error::Error;
use crate::schema::{DecodeMode, FieldCodec, Width};
use crate::ser::NumSer;
use crate::value::ValueModel;
use crate::wire::{
    decode_budget_seq, decode_count_seq, decode_fields, decode_items, decode_model,
    decode_null_string, decode_prefix_string, decode_primitive, decode_size, decode_whole,
    decode_within, encode_budget_seq, encode_count_seq, encode_fields, encode_items, encode_model,
    encode_prefix_string, fails, followed_by, is_terminator_at, lemma_terminator_exists,
    lemma_terminator_unique, reads, size_wire, terminator_index,
};
use crate::LittleEndian;

verus! {

/// A byte order whose reader undoes its writer.
pub trait ByteOrder: NumSer + NumDe {
    /// A 16-bit integer takes two bytes, and they read back as the integer.
    proof fn lemma_u16_reads_back(v: u16)
        ensures
            Self::u16_wire(v).len() == 2,
            Self::u16_value(Self::u16_wire(v)) == v,
    ;

    /// A 32-bit integer takes four bytes, and they read back as the integer.
    proof fn lemma_u32_reads_back(v: u32)
        ensures
            Self::u32_wire(v).len() == 4,
            Self::u32_value(Self::u32_wire(v)) == v,
    ;

    /// A 64-bit integer takes eight bytes, and they read back as the
    /// integer.
    proof fn lemma_u64_reads_back(v: u64)
        ensures
            Self::u64_wire(v).len() == 8,
            Self::u64_value(Self::u64_wire(v)) == v,
    ;
}

impl ByteOrder for LittleEndian {
    proof fn lemma_u16_reads_back(v: u16) {
    }

    proof fn lemma_u32_reads_back(v: u32) {
    }

    proof fn lemma_u64_reads_back(v: u64) {
        let q1 = v as int / 0x100;
        let q2 = q1 / 0x100;
        let q3 = q2 / 0x100;
        let q4 = q3 / 0x100;
        let q5 = q4 / 0x100;
        let q6 = q5 / 0x100;
        let q7 = q6 / 0x100;
        assert(q2 == v as int / 0x1_0000) by {
            lemma_div_denominator(v as int, 0x100, 0x100);
        }
        assert(q3 == v as int / 0x100_0000) by {
            lemma_div_denominator(v as int, 0x1_0000, 0x100);
        }
        assert(q4 == v as int / 0x1_0000_0000) by {
            lemma_div_denominator(v as int, 0x100_0000, 0x100);
        }
        assert(q5 == v as int / 0x100_0000_0000) by {
            lemma_div_denominator(v as int, 0x1_0000_0000, 0x100);
        }
        assert(q6 == v as int / 0x1_0000_0000_0000) by {
            lemma_div_denominator(v as int, 0x100_0000_0000, 0x100);
        }
        assert(q7 == v as int / 0x100_0000_0000_0000) by {
            lemma_div_denominator(v as int, 0x1_0000_0000_0000, 0x100);
        }
        let wire = Self::u64_wire(v);
        assert(wire[0] == v as int % 256);
        assert(wire[1] == q1 % 256);
        assert(wire[2] == q2 % 256);
        assert(wire[3] == q3 % 256);
        assert(wire[4] == q4 % 256);
        assert(wire[5] == q5 % 256);
        assert(wire[6] == q6 % 256);
        assert(wire[7] == q7);
    }
}

/// The UTF-8 bytes of a character hold a zero byte only when the character
/// is the null character.
pub proof fn lemma_zero_byte_of_char(c: char)
    ensures
        encode_scalar(c as u32).contains(0u8) <==> c == '\0',
{
    let scalar = c as u32;
    let bytes = encode_scalar(scalar);
    char_is_scalar(c);
    assert(scalar <= 0x7F ==> ((scalar & 0x7F) as u8 == 0 <==> scalar == 0)) by (bit_vector);
    assert(forall|x: u8| 0x80u8 | x != 0) by (bit_vector);
    assert(forall|x: u8| 0xC0u8 | x != 0) by (bit_vector);
    assert(forall|x: u8| 0xE0u8 | x != 0) by (bit_vector);
    assert(forall|x: u8| 0xF0u8 | x != 0) by (bit_vector);
    if c == '\0' {
        assert(bytes[0] == 0u8);
    } else {
        assert(scalar != 0);
        assert forall|i: int| 0 <= i < bytes.len() implies bytes[i] != 0u8 by {}
    }
}

/// The UTF-8 bytes of a text hold a zero byte only when the text holds the
/// null character.
pub proof fn lemma_zero_byte_of_text(text: Seq<char>)
    ensures
        encode_utf8(text).contains(0u8) <==> text.contains('\0'),
    decreases text.len(),
{
    if text.len() > 0 {
        let head = encode_scalar(text[0] as u32);
        let tail = encode_utf8(text.drop_first());
        lemma_zero_byte_of_char(text[0]);
        lemma_zero_byte_of_text(text.drop_first());
        if text.contains('\0') {
            let i = choose|i: int| 0 <= i < text.len() && text[i] == '\0';
            if i == 0 {
                let j = choose|j: int| 0 <= j < head.len() && head[j] == 0u8;
                assert((head + tail)[j] == 0u8);
            } else {
                assert(text.drop_first()[i - 1] == '\0');
                let j = choose|j: int| 0 <= j < tail.len() && tail[j] == 0u8;
                assert((head + tail)[head.len() + j] == 0u8);
            }
        }
        if (head + tail).contains(0u8) {
            let j = choose|j: int| 0 <= j < (head + tail).len() && (head + tail)[j] == 0u8;
            if j < head.len() {
                assert(head[j] == 0u8);
                assert(text[0] == '\0');
            } else {
                assert(tail[j - head.len()] == 0u8);
                let i = choose|i: int|
                    0 <= i < text.drop_first().len() && text.drop_first()[i] == '\0';
                assert(text[i + 1] == '\0');
            }
        }
    }
}

/// Whether a value can be told apart from what follows it on the wire. Two
/// framings cannot carry every value: a null-terminated string ends at its
/// first null character, and a byte budget cannot account for an element
/// that takes no bytes.
pub open spec fn unambiguous<E: NumSer>(codec: FieldCodec, value: ValueModel) -> bool
    decreases codec, 0nat,
{
    match (codec, value) {
        (FieldCodec::NullString, ValueModel::Str(text)) => !text.contains('\0'),
        (FieldCodec::CountSeq(_, inner), ValueModel::List(items)) => forall|i: int|
            0 <= i < items.len() ==> unambiguous::<E>(*inner, #[trigger] items[i]),
        (FieldCodec::BudgetSeq(_, inner), ValueModel::List(items)) => forall|i: int|
            0 <= i < items.len() ==> {
                &&& unambiguous::<E>(*inner, #[trigger] items[i])
                &&& encode_model::<E>(*inner, items[i]) matches Ok(bytes) ==> bytes.len() > 0
            },
        (FieldCodec::Nested(fields), ValueModel::Record(values)) => forall|i: int|
            0 <= i < fields@.len() && i < values.len() ==> unambiguous::<E>(
                #[trigger] fields@[i],
                values[i],
            ),
        _ => true,
    }
}

/// A length that fits its width reads back from its bytes, and the input
/// after it is what followed those bytes.
pub proof fn lemma_size_reads_back<E: ByteOrder>(width: Width, n: nat, rest: Seq<u8>)
    requires
        n <= width.limit(),
    ensures
        size_wire::<E>(width, n).len() == width.size(),
        decode_size::<E>(width, size_wire::<E>(width, n) + rest) == reads(n, rest),
{
    let wire = size_wire::<E>(width, n);
    match width {
        Width::W8 => {},
        Width::W16 => {
            E::lemma_u16_reads_back(n as u16);
        },
        Width::W32 => {
            E::lemma_u32_reads_back(n as u32);
        },
        Width::W64 => {
            E::lemma_u64_reads_back(n as u64);
        },
    }
    assert((wire + rest).take(width.size() as int) =~= wire);
    assert((wire + rest).skip(width.size() as int) =~= rest);
}

/// An integer reads back from its bytes, whatever follows them.
pub proof fn lemma_primitive_reads_back<E: ByteOrder>(
    width: Width,
    value: ValueModel,
    rest: Seq<u8>,
)
    requires
        encode_model::<E>(FieldCodec::Primitive(width), value) is Ok,
    ensures
        decode_primitive::<E>(
            width,
            encode_model::<E>(FieldCodec::Primitive(width), value)->Ok_0 + rest,
        ) == reads(value, rest),
{
    let bytes = encode_model::<E>(FieldCodec::Primitive(width), value)->Ok_0;
    match value {
        ValueModel::U16(v) => {
            E::lemma_u16_reads_back(v);
        },
        ValueModel::U32(v) => {
            E::lemma_u32_reads_back(v);
        },
        ValueModel::U64(v) => {
            E::lemma_u64_reads_back(v);
        },
        _ => {},
    }
    assert(bytes.len() == width.size());
    assert((bytes + rest).take(width.size() as int) =~= bytes);
    assert((bytes + rest).skip(width.size() as int) =~= rest);
}

/// A string without a null character reads back from its null-terminated
/// bytes, whatever follows them.
pub proof fn lemma_null_string_reads_back(text: Seq<char>, rest: Seq<u8>)
    requires
        !text.contains('\0'),
    ensures
        decode_null_string(encode_utf8(text) + seq![0u8] + rest) == reads(text, rest),
{
    let payload = encode_utf8(text);
    let input = payload + seq![0u8] + rest;
    let at = payload.len() as int;
    lemma_zero_byte_of_text(text);
    assert(input[at] == 0u8);
    assert forall|j: int| 0 <= j < at implies input[j] != 0u8 by {
        assert(input[j] == payload[j]);
        assert(payload.contains(payload[j]));
    }
    assert(is_terminator_at(input, at));
    lemma_terminator_unique(input, at);
    assert(input.take(at) =~= payload);
    assert(input.skip(at + 1) =~= rest);
    encode_utf8_valid_utf8(text);
    encode_utf8_decode_utf8(text);
}

/// A string that fits its prefix reads back from its length-prefixed bytes,
/// whatever follows them.
pub proof fn lemma_prefix_string_reads_back<E: ByteOrder>(
    width: Width,
    text: Seq<char>,
    rest: Seq<u8>,
)
    requires
        encode_prefix_string::<E>(width, text) is Ok,
    ensures
        decode_prefix_string::<E>(width, encode_prefix_string::<E>(width, text)->Ok_0 + rest)
            == reads(text, rest),
{
    let payload = encode_utf8(text);
    let prefix = size_wire::<E>(width, payload.len());
    lemma_size_reads_back::<E>(width, payload.len(), payload + rest);
    assert((prefix + payload) + rest =~= prefix + (payload + rest));
    assert((payload + rest).take(payload.len() as int) =~= payload);
    assert((payload + rest).skip(payload.len() as int) =~= rest);
    encode_utf8_valid_utf8(text);
    encode_utf8_decode_utf8(text);
}

/// Decoding the bytes of an unambiguous value, with anything after them,
/// gives the value back and leaves what came after.
pub proof fn lemma_reads_back<E: ByteOrder>(codec: FieldCodec, value: ValueModel, rest: Seq<u8>)
    requires
        unambiguous::<E>(codec, value),
        encode_model::<E>(codec, value) is Ok,
    ensures
        decode_model::<E>(codec, encode_model::<E>(codec, value)->Ok_0 + rest)
            == reads(value, rest),
    decreases codec, 0nat,
{
    match (codec, value) {
        (FieldCodec::Primitive(width), _) => {
            lemma_primitive_reads_back::<E>(width, value, rest);
        },
        (FieldCodec::NullString, ValueModel::Str(text)) => {
            lemma_null_string_reads_back(text, rest);
        },
        (FieldCodec::PrefixString(width), ValueModel::Str(text)) => {
            lemma_prefix_string_reads_back::<E>(width, text, rest);
        },
        (FieldCodec::CountSeq(width, inner), ValueModel::List(items)) => {
            lemma_count_seq_reads_back::<E>(width, *inner, items, rest);
        },
        (FieldCodec::BudgetSeq(width, inner), ValueModel::List(items)) => {
            lemma_budget_seq_reads_back::<E>(width, *inner, items, rest);
        },
        (FieldCodec::Nested(fields), ValueModel::Record(values)) => {
            lemma_fields_read_back::<E>(fields@, values, 0, rest);
            assert(values.skip(0) =~= values);
        },
        _ => {},
    }
}

/// A sequence of unambiguous elements reads back from its count-prefixed
/// bytes, whatever follows them.
pub proof fn lemma_count_seq_reads_back<E: ByteOrder>(
    width: Width,
    inner: FieldCodec,
    items: Seq<ValueModel>,
    rest: Seq<u8>,
)
    requires
        forall|i: int| 0 <= i < items.len() ==> unambiguous::<E>(inner, #[trigger] items[i]),
        encode_count_seq::<E>(width, inner, items) is Ok,
    ensures
        decode_count_seq::<E>(
            width,
            inner,
            encode_count_seq::<E>(width, inner, items)->Ok_0 + rest,
        ) == reads(items, rest),
    decreases inner, items.len() + 2,
{
    let payload = encode_items::<E>(inner, items, 0)->Ok_0;
    let prefix = size_wire::<E>(width, items.len());
    lemma_size_reads_back::<E>(width, items.len(), payload + rest);
    assert((prefix + payload) + rest =~= prefix + (payload + rest));
    lemma_items_read_back::<E>(inner, items, 0, rest);
    assert(items.skip(0) =~= items);
}

/// A sequence of unambiguous elements, none of them empty on the wire, reads
/// back from its budget-prefixed bytes, whatever follows them.
pub proof fn lemma_budget_seq_reads_back<E: ByteOrder>(
    width: Width,
    inner: FieldCodec,
    items: Seq<ValueModel>,
    rest: Seq<u8>,
)
    requires
        forall|i: int|
            0 <= i < items.len() ==> {
                &&& unambiguous::<E>(inner, #[trigger] items[i])
                &&& encode_model::<E>(inner, items[i]) matches Ok(bytes) ==> bytes.len() > 0
            },
        encode_budget_seq::<E>(width, inner, items) is Ok,
    ensures
        decode_budget_seq::<E>(
            width,
            inner,
            encode_budget_seq::<E>(width, inner, items)->Ok_0 + rest,
        ) == reads(items, rest),
    decreases inner, items.len() + 2,
{
    let payload = encode_items::<E>(inner, items, 0)->Ok_0;
    let prefix = size_wire::<E>(width, payload.len());
    lemma_size_reads_back::<E>(width, payload.len(), payload + rest);
    assert((prefix + payload) + rest =~= prefix + (payload + rest));
    lemma_budget_reads_back::<E>(inner, items, 0, rest);
    assert(items.skip(0) =~= items);
}

/// Decoding as many elements as were encoded gives the elements back.
pub proof fn lemma_items_read_back<E: ByteOrder>(
    inner: FieldCodec,
    items: Seq<ValueModel>,
    from: nat,
    rest: Seq<u8>,
)
    requires
        from <= items.len(),
        forall|i: int| 0 <= i < items.len() ==> unambiguous::<E>(inner, #[trigger] items[i]),
        encode_items::<E>(inner, items, from) is Ok,
    ensures
        decode_items::<E>(
            inner,
            encode_items::<E>(inner, items, from)->Ok_0 + rest,
            (items.len() - from) as nat,
        ) == reads(items.skip(from as int), rest),
    decreases inner, items.len() - from + 1,
{
    let bytes = encode_items::<E>(inner, items, from)->Ok_0;
    if from >= items.len() {
        assert(bytes + rest =~= rest);
        assert(items.skip(from as int) =~= Seq::<ValueModel>::empty());
    } else {
        let head = encode_model::<E>(inner, items[from as int])->Ok_0;
        let tail = encode_items::<E>(inner, items, from + 1)->Ok_0;
        lemma_reads_back::<E>(inner, items[from as int], tail + rest);
        lemma_items_read_back::<E>(inner, items, from + 1, rest);
        assert(bytes + rest =~= head + (tail + rest));
        let next = from as int + 1;
        assert(seq![items[from as int]] + items.skip(next) =~= items.skip(from as int));
    }
}

/// Decoding within the byte length of the encoded elements gives the
/// elements back, when none of them is empty on the wire.
pub proof fn lemma_budget_reads_back<E: ByteOrder>(
    inner: FieldCodec,
    items: Seq<ValueModel>,
    from: nat,
    rest: Seq<u8>,
)
    requires
        from <= items.len(),
        forall|i: int|
            0 <= i < items.len() ==> {
                &&& unambiguous::<E>(inner, #[trigger] items[i])
                &&& encode_model::<E>(inner, items[i]) matches Ok(bytes) ==> bytes.len() > 0
            },
        encode_items::<E>(inner, items, from) is Ok,
    ensures
        decode_within::<E>(
            inner,
            encode_items::<E>(inner, items, from)->Ok_0 + rest,
            encode_items::<E>(inner, items, from)->Ok_0.len(),
        ) == reads(items.skip(from as int), rest),
    decreases inner, items.len() - from + 1,
{
    let bytes = encode_items::<E>(inner, items, from)->Ok_0;
    if from >= items.len() {
        assert(bytes + rest =~= rest);
        assert(items.skip(from as int) =~= Seq::<ValueModel>::empty());
    } else {
        let head = encode_model::<E>(inner, items[from as int])->Ok_0;
        let tail = encode_items::<E>(inner, items, from + 1)->Ok_0;
        assert(unambiguous::<E>(inner, items[from as int]));
        lemma_reads_back::<E>(inner, items[from as int], tail + rest);
        lemma_budget_reads_back::<E>(inner, items, from + 1, rest);
        assert(bytes + rest =~= head + (tail + rest));
        let next = from as int + 1;
        assert(seq![items[from as int]] + items.skip(next) =~= items.skip(from as int));
    }
}

/// Decoding the fields of a record in order gives the field values back.
pub proof fn lemma_fields_read_back<E: ByteOrder>(
    fields: Seq<FieldCodec>,
    values: Seq<ValueModel>,
    from: nat,
    rest: Seq<u8>,
)
    requires
        from <= fields.len(),
        forall|i: int|
            0 <= i < fields.len() && i < values.len() ==> unambiguous::<E>(
                #[trigger] fields[i],
                values[i],
            ),
        encode_fields::<E>(fields, values, from) is Ok,
    ensures
        decode_fields::<E>(fields, encode_fields::<E>(fields, values, from)->Ok_0 + rest, from)
            == reads(values.skip(from as int), rest),
    decreases fields, fields.len() - from,
{
    let bytes = encode_fields::<E>(fields, values, from)->Ok_0;
    if from >= fields.len() {
        assert(bytes + rest =~= rest);
        assert(values.skip(from as int) =~= Seq::<ValueModel>::empty());
    } else {
        let head = encode_model::<E>(fields[from as int], values[from as int])->Ok_0;
        let tail = encode_fields::<E>(fields, values, from + 1)->Ok_0;
        lemma_reads_back::<E>(fields[from as int], values[from as int], tail + rest);
        lemma_fields_read_back::<E>(fields, values, from + 1, rest);
        assert(bytes + rest =~= head + (tail + rest));
        let next = from as int + 1;
        assert(seq![values[from as int]] + values.skip(next) =~= values.skip(from as int));
    }
}

/// Round trip: an unambiguous value that encodes decodes, in strict mode,
/// from exactly its bytes to itself.
pub proof fn lemma_round_trip<E: ByteOrder>(codec: FieldCodec, value: ValueModel)
    requires
        unambiguous::<E>(codec, value),
    ensures
        encode_model::<E>(codec, value) matches Ok(bytes) ==> {
            decode_whole::<E>(codec, bytes, DecodeMode::Strict) == Ok::<_, Error>(value)
        },
{
    if let Ok(bytes) = encode_model::<E>(codec, value) {
        lemma_reads_back::<E>(codec, value, Seq::empty());
        assert(bytes + Seq::<u8>::empty() =~= bytes);
    }
}

/// A length that was read is read again, with the same input after it, when
/// more input follows.
pub proof fn lemma_size_extends<E: NumDe>(width: Width, input: Seq<u8>, extra: Seq<u8>)
    requires
        decode_size::<E>(width, input) is Ok,
    ensures
        decode_size::<E>(width, input + extra) == followed_by(
            decode_size::<E>(width, input),
            extra,
        ),
{
    let n = width.size() as int;
    assert((input + extra).take(n) =~= input.take(n));
    assert((input + extra).skip(n) =~= input.skip(n) + extra);
}

/// A decode that succeeded succeeds again when more input follows: it gives
/// the same value and leaves the added input after what it left before.
pub proof fn lemma_decode_extends<E: NumDe>(codec: FieldCodec, input: Seq<u8>, extra: Seq<u8>)
    requires
        decode_model::<E>(codec, input) is Ok,
    ensures
        decode_model::<E>(codec, input + extra) == followed_by(
            decode_model::<E>(codec, input),
            extra,
        ),
    decreases codec, 0nat,
{
    let longer = input + extra;
    match codec {
        FieldCodec::Primitive(width) => {
            let n = width.size() as int;
            assert(longer.take(n) =~= input.take(n));
            assert(longer.skip(n) =~= input.skip(n) + extra);
        },
        FieldCodec::NullString => {
            lemma_terminator_exists(input);
            let at = terminator_index(input);
            assert(is_terminator_at(longer, at));
            lemma_terminator_unique(longer, at);
            assert(longer.take(at) =~= input.take(at));
            assert(longer.skip(at + 1) =~= input.skip(at + 1) + extra);
        },
        FieldCodec::PrefixString(width) => {
            lemma_size_extends::<E>(width, input, extra);
            let (n, rest) = decode_size::<E>(width, input)->Ok_0;
            assert((rest + extra).take(n as int) =~= rest.take(n as int));
            assert((rest + extra).skip(n as int) =~= rest.skip(n as int) + extra);
        },
        FieldCodec::CountSeq(width, inner) => {
            lemma_size_extends::<E>(width, input, extra);
            let (count, rest) = decode_size::<E>(width, input)->Ok_0;
            lemma_items_extend::<E>(*inner, rest, count, extra);
        },
        FieldCodec::BudgetSeq(width, inner) => {
            lemma_size_extends::<E>(width, input, extra);
            let (budget, rest) = decode_size::<E>(width, input)->Ok_0;
            lemma_budget_extends::<E>(*inner, rest, budget, extra);
        },
        FieldCodec::Nested(fields) => {
            lemma_fields_extend::<E>(fields@, input, 0, extra);
        },
    }
}

/// Elements that were read by count are read again when more input follows.
pub proof fn lemma_items_extend<E: NumDe>(
    inner: FieldCodec,
    input: Seq<u8>,
    count: nat,
    extra: Seq<u8>,
)
    requires
        decode_items::<E>(inner, input, count) is Ok,
    ensures
        decode_items::<E>(inner, input + extra, count) == followed_by(
            decode_items::<E>(inner, input, count),
            extra,
        ),
    decreases inner, 1nat, count,
{
    if count > 0 {
        lemma_decode_extends::<E>(inner, input, extra);
        let (head, rest) = decode_model::<E>(inner, input)->Ok_0;
        lemma_items_extend::<E>(inner, rest, (count - 1) as nat, extra);
    }
}

/// Elements that were read within a budget are read again when more input
/// follows.
pub proof fn lemma_budget_extends<E: NumDe>(
    inner: FieldCodec,
    input: Seq<u8>,
    budget: nat,
    extra: Seq<u8>,
)
    requires
        decode_within::<E>(inner, input, budget) is Ok,
    ensures
        decode_within::<E>(inner, input + extra, budget) == followed_by(
            decode_within::<E>(inner, input, budget),
            extra,
        ),
    decreases inner, 1nat, budget,
{
    if budget > 0 {
        lemma_decode_extends::<E>(inner, input, extra);
        let (head, rest) = decode_model::<E>(inner, input)->Ok_0;
        let used = input.len() - rest.len();
        lemma_budget_extends::<E>(inner, rest, (budget - used) as nat, extra);
    }
}

/// Record fields that were read are read again when more input follows.
pub proof fn lemma_fields_extend<E: NumDe>(
    fields: Seq<FieldCodec>,
    input: Seq<u8>,
    from: nat,
    extra: Seq<u8>,
)
    requires
        decode_fields::<E>(fields, input, from) is Ok,
    ensures
        decode_fields::<E>(fields, input + extra, from) == followed_by(
            decode_fields::<E>(fields, input, from),
            extra,
        ),
    decreases fields, fields.len() - from,
{
    if from < fields.len() {
        lemma_decode_extends::<E>(fields[from as int], input, extra);
        let (head, rest) = decode_model::<E>(fields[from as int], input)->Ok_0;
        lemma_fields_extend::<E>(fields, rest, from + 1, extra);
    }
}

/// Trailing bytes: when a buffer decodes with nothing left over, the same
/// buffer with more bytes after it fails in strict mode and gives the same
/// value in lenient mode.
pub proof fn lemma_trailing_bytes<E: NumDe>(codec: FieldCodec, input: Seq<u8>, extra: Seq<u8>)
    requires
        decode_whole::<E>(codec, input, DecodeMode::Strict) is Ok,
        extra.len() > 0,
    ensures
        decode_whole::<E>(codec, input + extra, DecodeMode::Strict)
            == Err::<ValueModel, Error>(Error::TrailingBytes),
        decode_whole::<E>(codec, input + extra, DecodeMode::Lenient)
            == decode_whole::<E>(codec, input, DecodeMode::Strict),
{
    lemma_decode_extends::<E>(codec, input, extra);
}

/// Prefix-width boundary: a string whose UTF-8 bytes number at most
/// `2^W - 1` encodes under width `W` and decodes to itself; one byte more,
/// and any longer string, fails to encode with an overflow.
pub proof fn lemma_prefix_width_boundary<E: ByteOrder>(width: Width, text: Seq<char>)
    ensures
        encode_utf8(text).len() <= width.limit() ==> {
            &&& encode_prefix_string::<E>(width, text) matches Ok(bytes)
            &&& decode_prefix_string::<E>(width, bytes)
                == reads(text, Seq::<u8>::empty())
        },
        encode_utf8(text).len() > width.limit() ==> {
            encode_prefix_string::<E>(width, text) == Err::<Seq<u8>, Error>(Error::Overflow)
        },
{
    if encode_utf8(text).len() <= width.limit() {
        lemma_prefix_string_reads_back::<E>(width, text, Seq::empty());
        let bytes = encode_prefix_string::<E>(width, text)->Ok_0;
        assert(bytes + Seq::<u8>::empty() =~= bytes);
    }
}

/// The number of bytes that every value of a codec takes, for the codecs
/// that have one: the integers, and records made of such fields.
pub open spec fn fixed_size(codec: FieldCodec) -> Option<nat>
    decreases codec, 0nat,
{
    match codec {
        FieldCodec::Primitive(width) => Some(width.size()),
        FieldCodec::Nested(fields) => fixed_size_of_fields(fields@, 0),
        _ => None,
    }
}

/// The number of bytes that the fields `fields[from..]` take together, when
/// each of them has a fixed size.
pub open spec fn fixed_size_of_fields(fields: Seq<FieldCodec>, from: nat) -> Option<nat>
    decreases fields, fields.len() - from,
{
    if from >= fields.len() {
        Some(0)
    } else {
        match (fixed_size(fields[from as int]), fixed_size_of_fields(fields, from + 1)) {
            (Some(head), Some(tail)) => Some(head + tail),
            _ => None,
        }
    }
}

/// A value of a fixed-size codec takes that many bytes and is unambiguous.
pub proof fn lemma_fixed_size<E: ByteOrder>(codec: FieldCodec, value: ValueModel)
    requires
        fixed_size(codec) is Some,
    ensures
        unambiguous::<E>(codec, value),
        encode_model::<E>(codec, value) matches Ok(bytes) ==> {
            bytes.len() == fixed_size(codec)->0
        },
    decreases codec, 0nat,
{
    match (codec, value) {
        (FieldCodec::Primitive(_), ValueModel::U16(v)) => {
            E::lemma_u16_reads_back(v);
        },
        (FieldCodec::Primitive(_), ValueModel::U32(v)) => {
            E::lemma_u32_reads_back(v);
        },
        (FieldCodec::Primitive(_), ValueModel::U64(v)) => {
            E::lemma_u64_reads_back(v);
        },
        (FieldCodec::Nested(fields), ValueModel::Record(values)) => {
            lemma_fixed_size_of_fields::<E>(fields@, values, 0);
        },
        _ => {},
    }
}

/// The values of fixed-size fields take the fields' sizes together and are
/// unambiguous.
pub proof fn lemma_fixed_size_of_fields<E: ByteOrder>(
    fields: Seq<FieldCodec>,
    values: Seq<ValueModel>,
    from: nat,
)
    requires
        fixed_size_of_fields(fields, from) is Some,
    ensures
        forall|i: int|
            from <= i < fields.len() && i < values.len() ==> unambiguous::<E>(
                #[trigger] fields[i],
                values[i],
            ),
        encode_fields::<E>(fields, values, from) matches Ok(bytes) ==> {
            bytes.len() == fixed_size_of_fields(fields, from)->0
        },
    decreases fields, fields.len() - from,
{
    if from < fields.len() {
        lemma_fixed_size_of_fields::<E>(fields, values, from + 1);
        if from < values.len() {
            lemma_fixed_size::<E>(fields[from as int], values[from as int]);
        }
        assert forall|i: int|
            from <= i < fields.len() && i < values.len() implies unambiguous::<E>(
            #[trigger] fields[i],
            values[i],
        ) by {
            if i > from {
                assert(from + 1 <= i);
            }
        }
    }
}

/// Elements of `size` bytes each take `size` bytes per element together.
pub proof fn lemma_fixed_size_of_items<E: ByteOrder>(
    inner: FieldCodec,
    items: Seq<ValueModel>,
    from: nat,
)
    requires
        fixed_size(inner) is Some,
        from <= items.len(),
    ensures
        encode_items::<E>(inner, items, from) matches Ok(bytes) ==> {
            bytes.len() == fixed_size(inner)->0 * (items.len() - from)
        },
    decreases items.len() - from,
{
    let size = fixed_size(inner)->0;
    if from < items.len() {
        lemma_fixed_size::<E>(inner, items[from as int]);
        lemma_fixed_size_of_items::<E>(inner, items, from + 1);
        assert(size + size * (items.len() - from - 1) == size * (items.len() - from))
            by (nonlinear_arith);
    } else {
        assert(size * 0 == 0) by (nonlinear_arith);
    }
}

/// Count against budget: for elements of one fixed size that is not zero,
/// the count-prefixed and the budget-prefixed encodings of a sequence hold
/// the same bytes after their prefixes, the prefixes hold the number of
/// elements and that number times the element size, and both encodings
/// decode to the sequence.
pub proof fn lemma_count_and_budget_agree<E: ByteOrder>(
    width: Width,
    inner: FieldCodec,
    items: Seq<ValueModel>,
)
    requires
        fixed_size(inner) matches Some(size) && size > 0,
        encode_count_seq::<E>(width, inner, items) is Ok,
        encode_budget_seq::<E>(width, inner, items) is Ok,
    ensures
        ({
            let counted = encode_count_seq::<E>(width, inner, items)->Ok_0;
            let budgeted = encode_budget_seq::<E>(width, inner, items)->Ok_0;
            let prefix = width.size() as int;
            &&& counted.len() == budgeted.len()
            &&& counted.skip(prefix) == budgeted.skip(prefix)
            &&& counted.take(prefix) == size_wire::<E>(width, items.len())
            &&& budgeted.take(prefix) == size_wire::<E>(
                width,
                (fixed_size(inner)->0 * items.len()) as nat,
            )
            &&& decode_count_seq::<E>(width, inner, counted)
                == reads(items, Seq::<u8>::empty())
            &&& decode_budget_seq::<E>(width, inner, budgeted)
                == decode_count_seq::<E>(width, inner, counted)
        }),
{
    let payload = encode_items::<E>(inner, items, 0)->Ok_0;
    let counted = encode_count_seq::<E>(width, inner, items)->Ok_0;
    let budgeted = encode_budget_seq::<E>(width, inner, items)->Ok_0;
    let prefix = width.size() as int;
    let empty = Seq::<u8>::empty();
    lemma_fixed_size_of_items::<E>(inner, items, 0);
    assert forall|i: int| 0 <= i < items.len() implies {
        &&& unambiguous::<E>(inner, #[trigger] items[i])
        &&& encode_model::<E>(inner, items[i]) matches Ok(bytes) ==> bytes.len() > 0
    } by {
        lemma_fixed_size::<E>(inner, items[i]);
    }
    lemma_size_reads_back::<E>(width, items.len(), payload);
    lemma_size_reads_back::<E>(width, payload.len(), payload);
    lemma_items_read_back::<E>(inner, items, 0, empty);
    lemma_budget_reads_back::<E>(inner, items, 0, empty);
    assert(payload + empty =~= payload);
    assert(items.skip(0) =~= items);
    assert(counted.skip(prefix) =~= payload);
    assert(budgeted.skip(prefix) =~= payload);
    assert(counted.take(prefix) =~= size_wire::<E>(width, items.len()));
    assert(budgeted.take(prefix) =~= size_wire::<E>(width, payload.len()));
}

/// Fail fast: when the fields before `at` decode and field `at` fails, the
/// record fails with that field's failure and stops where that field
/// stopped, whatever fields come after it.
pub proof fn lemma_failed_field_stops_record<E: NumDe>(
    fields: Seq<FieldCodec>,
    input: Seq<u8>,
    from: nat,
    at: nat,
)
    requires
        from <= at < fields.len(),
        decode_fields::<E>(fields.take(at as int), input, from) matches Ok((_, reached))
            && decode_model::<E>(fields[at as int], reached) is Err,
    ensures
        ({
            let reached = decode_fields::<E>(fields.take(at as int), input, from)->Ok_0.1;
            let failure = decode_model::<E>(fields[at as int], reached)->Err_0;
            decode_fields::<E>(fields, input, from) == fails::<Seq<ValueModel>>(
                failure.0,
                failure.1,
            )
        }),
    decreases at - from,
{
    let before = fields.take(at as int);
    if from < at {
        assert(before[from as int] == fields[from as int]);
        let rest = decode_model::<E>(fields[from as int], input)->Ok_0.1;
        lemma_failed_field_stops_record::<E>(fields, rest, from + 1, at);
    }
}

/// Malformed text: a length-prefixed string field whose payload lies within
/// the input and is not UTF-8 fails the record with invalid text and stops
/// where that field began: no later field is read, whatever fields come
/// after it.
pub proof fn lemma_invalid_text_stops_record<E: NumDe>(
    fields: Seq<FieldCodec>,
    input: Seq<u8>,
    at: nat,
)
    requires
        at < fields.len(),
        fields[at as int] is PrefixString,
        decode_fields::<E>(fields.take(at as int), input, 0) is Ok,
        ({
            let reached = decode_fields::<E>(fields.take(at as int), input, 0)->Ok_0.1;
            &&& decode_size::<E>(fields[at as int]->PrefixString_0, reached) matches Ok(
                (n, payload),
            )
            &&& n <= payload.len()
            &&& !valid_utf8(payload.take(n as int))
        }),
    ensures
        decode_fields::<E>(fields, input, 0) == fails::<Seq<ValueModel>>(
            Error::InvalidText,
            decode_fields::<E>(fields.take(at as int), input, 0)->Ok_0.1,
        ),
{
    lemma_failed_field_stops_record::<E>(fields, input, 0, at);
}

} // verus!
