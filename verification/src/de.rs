//! Decoding: the byte order of integers and the cursor over borrowed input.

use core::marker::PhantomData;
use std::borrow::Cow;
use vstd::prelude::*;
use vstd::slice::slice_subrange;
use vstd::utf8::encode_utf8_decode_utf8;

use crate::error::{Error, Result};
use crate::schema::{DecodeMode, FieldCodec, FramingPolicy, Width};
use crate::text::str_from_utf8;
use crate::value::{
    all_borrow_text, borrows_text, lemma_view_of_elements, models, Value, ValueModel,
};
use crate::wire::{
    decode_budget, decode_budget_seq, decode_count_seq, decode_fields, decode_framed,
    decode_items, decode_model, decode_null_string, decode_prefix_string, decode_size,
    decode_whole, decode_within, lemma_terminator_unique, Read,
};
use crate::LittleEndian;

verus! {

/// A byte order for reading multi-byte integers.
pub trait NumDe {
    /// The 16-bit integer that two bytes hold in this order.
    spec fn u16_value(bytes: Seq<u8>) -> u16;

    /// The 32-bit integer that four bytes hold in this order.
    spec fn u32_value(bytes: Seq<u8>) -> u32;

    /// The 64-bit integer that eight bytes hold in this order.
    spec fn u64_value(bytes: Seq<u8>) -> u64;

    /// Reads a 16-bit integer from its two bytes.
    fn deserialize_u16(v: [u8; 2]) -> (value: u16)
        ensures
            value == Self::u16_value(v@),
    ;

    /// Reads a 32-bit integer from its four bytes.
    fn deserialize_u32(v: [u8; 4]) -> (value: u32)
        ensures
            value == Self::u32_value(v@),
    ;

    /// Reads a 64-bit integer from its eight bytes.
    fn deserialize_u64(v: [u8; 8]) -> (value: u64)
        ensures
            value == Self::u64_value(v@),
    ;
}

impl NumDe for LittleEndian {
    open spec fn u16_value(bytes: Seq<u8>) -> u16 {
        (bytes[0] + 0x100 * bytes[1]) as u16
    }

    open spec fn u32_value(bytes: Seq<u8>) -> u32 {
        (bytes[0] + 0x100 * bytes[1] + 0x1_0000 * bytes[2] + 0x100_0000 * bytes[3]) as u32
    }

    open spec fn u64_value(bytes: Seq<u8>) -> u64 {
        (bytes[0] + 0x100 * bytes[1] + 0x1_0000 * bytes[2] + 0x100_0000 * bytes[3] + 0x1_0000_0000
            * bytes[4] + 0x100_0000_0000 * bytes[5] + 0x1_0000_0000_0000 * bytes[6]
            + 0x100_0000_0000_0000 * bytes[7]) as u64
    }

    fn deserialize_u16(v: [u8; 2]) -> (value: u16) {
        v[0] as u16 + 0x100 * (v[1] as u16)
    }

    fn deserialize_u32(v: [u8; 4]) -> (value: u32) {
        v[0] as u32 + 0x100 * (v[1] as u32) + 0x1_0000 * (v[2] as u32) + 0x100_0000 * (v[3] as u32)
    }

    fn deserialize_u64(v: [u8; 8]) -> (value: u64) {
        v[0] as u64 + 0x100 * (v[1] as u64) + 0x1_0000 * (v[2] as u64) + 0x100_0000 * (v[3] as u64)
            + 0x1_0000_0000 * (v[4] as u64) + 0x100_0000_0000 * (v[5] as u64) + 0x1_0000_0000_0000
            * (v[6] as u64) + 0x100_0000_0000_0000 * (v[7] as u64)
    }
}

/// The cursor of one decode call: a borrowed view of the input that has
/// not been read yet. It only ever shrinks from the front.
pub struct Deserializer<'de, Endian: NumDe> {
    input: &'de [u8],
    endian: PhantomData<Endian>,
}

impl<'de, Endian: NumDe> View for Deserializer<'de, Endian> {
    type V = Seq<u8>;

    /// The input that has not been read yet.
    closed spec fn view(&self) -> Seq<u8> {
        self.input@
    }
}

impl<'de, Endian: NumDe> Deserializer<'de, Endian> {
    /// A cursor at the start of `input`.
    pub fn from_bytes(input: &'de [u8]) -> (d: Self)
        ensures
            d@ == input@,
    {
        Deserializer { input, endian: PhantomData }
    }

    /// The number of bytes that have not been read yet.
    pub fn remaining(&self) -> (n: usize)
        ensures
            n == self@.len(),
    {
        self.input.len()
    }

    /// Succeeds when the whole input has been read; input left over is
    /// trailing bytes.
    pub fn end(&self) -> (r: Result<()>)
        ensures
            self@.len() == 0 ==> r == Ok::<(), Error>(()),
            self@.len() > 0 ==> r == Err::<(), Error>(Error::TrailingBytes),
    {
        if self.input.len() == 0 {
            Ok(())
        } else {
            Err(Error::TrailingBytes)
        }
    }

    /// Takes the next `n` bytes off the front of the input.
    fn take(&mut self, n: usize) -> (bytes: &'de [u8])
        requires
            n <= old(self)@.len(),
        ensures
            bytes@ == old(self)@.take(n as int),
            final(self)@ == old(self)@.skip(n as int),
            final(self)@.is_suffix_of(old(self)@),
    {
        let input = self.input;
        self.input = slice_subrange(input, n, input.len());
        slice_subrange(input, 0, n)
    }

    /// Borrows the next `len` raw bytes from the input as they are. With
    /// fewer bytes left nothing is read.
    pub fn deserialize_bytes(&mut self, len: usize) -> (r: Result<&'de [u8]>)
        ensures
            len <= old(self)@.len() ==> {
                &&& r matches Ok(bytes)
                &&& bytes@ == old(self)@.take(len as int)
                &&& final(self)@ == old(self)@.skip(len as int)
            },
            len > old(self)@.len() ==> {
                &&& r matches Err(e)
                &&& e == Error::UnexpectedEndOfInput
                &&& final(self)@ == old(self)@
            },
            final(self)@.is_suffix_of(old(self)@),
    {
        if len > self.input.len() {
            return Err(Error::UnexpectedEndOfInput);
        }
        Ok(self.take(len))
    }

    /// Reads one byte. With no input left nothing is read.
    pub fn deserialize_u8(&mut self) -> (r: Result<u8>)
        ensures
            old(self)@.len() >= 1 ==> {
                &&& r == Ok::<u8, Error>(old(self)@[0])
                &&& final(self)@ == old(self)@.skip(1)
            },
            old(self)@.len() < 1 ==> {
                &&& r == Err::<u8, Error>(Error::UnexpectedEndOfInput)
                &&& final(self)@ == old(self)@
            },
            final(self)@.is_suffix_of(old(self)@),
    {
        if self.input.len() < 1 {
            return Err(Error::UnexpectedEndOfInput);
        }
        let bytes = self.take(1);
        Ok(bytes[0])
    }

    /// Reads a 16-bit integer in the configured byte order. With fewer than
    /// two bytes left nothing is read.
    pub fn deserialize_u16(&mut self) -> (r: Result<u16>)
        ensures
            old(self)@.len() >= 2 ==> {
                &&& r == Ok::<u16, Error>(Endian::u16_value(old(self)@.take(2)))
                &&& final(self)@ == old(self)@.skip(2)
            },
            old(self)@.len() < 2 ==> {
                &&& r == Err::<u16, Error>(Error::UnexpectedEndOfInput)
                &&& final(self)@ == old(self)@
            },
            final(self)@.is_suffix_of(old(self)@),
    {
        if self.input.len() < 2 {
            return Err(Error::UnexpectedEndOfInput);
        }
        let bytes = self.take(2);
        let array = [bytes[0], bytes[1]];
        assert(array@ =~= bytes@);
        Ok(Endian::deserialize_u16(array))
    }

    /// Reads a 32-bit integer in the configured byte order. With fewer than
    /// four bytes left nothing is read.
    pub fn deserialize_u32(&mut self) -> (r: Result<u32>)
        ensures
            old(self)@.len() >= 4 ==> {
                &&& r == Ok::<u32, Error>(Endian::u32_value(old(self)@.take(4)))
                &&& final(self)@ == old(self)@.skip(4)
            },
            old(self)@.len() < 4 ==> {
                &&& r == Err::<u32, Error>(Error::UnexpectedEndOfInput)
                &&& final(self)@ == old(self)@
            },
            final(self)@.is_suffix_of(old(self)@),
    {
        if self.input.len() < 4 {
            return Err(Error::UnexpectedEndOfInput);
        }
        let bytes = self.take(4);
        let array = [bytes[0], bytes[1], bytes[2], bytes[3]];
        assert(array@ =~= bytes@);
        Ok(Endian::deserialize_u32(array))
    }

    /// Reads a 64-bit integer in the configured byte order. With fewer than
    /// eight bytes left nothing is read.
    pub fn deserialize_u64(&mut self) -> (r: Result<u64>)
        ensures
            old(self)@.len() >= 8 ==> {
                &&& r == Ok::<u64, Error>(Endian::u64_value(old(self)@.take(8)))
                &&& final(self)@ == old(self)@.skip(8)
            },
            old(self)@.len() < 8 ==> {
                &&& r == Err::<u64, Error>(Error::UnexpectedEndOfInput)
                &&& final(self)@ == old(self)@
            },
            final(self)@.is_suffix_of(old(self)@),
    {
        if self.input.len() < 8 {
            return Err(Error::UnexpectedEndOfInput);
        }
        let bytes = self.take(8);
        let array = [
            bytes[0],
            bytes[1],
            bytes[2],
            bytes[3],
            bytes[4],
            bytes[5],
            bytes[6],
            bytes[7],
        ];
        assert(array@ =~= bytes@);
        Ok(Endian::deserialize_u64(array))
    }

    /// Reads a length or count of the given width. On a failure nothing is
    /// read.
    pub fn read_size(&mut self, width: Width) -> (r: Result<u64>)
        ensures
            match decode_size::<Endian>(width, old(self)@) {
                Ok((n, rest)) => {
                    &&& n <= u64::MAX
                    &&& r == Ok::<u64, Error>(n as u64)
                    &&& final(self)@ == rest
                },
                Err((e, at)) => r == Err::<u64, Error>(e) && final(self)@ == at,
            },
            final(self)@.is_suffix_of(old(self)@),
    {
        match width {
            Width::W8 => {
                let v = self.deserialize_u8()?;
                Ok(v as u64)
            },
            Width::W16 => {
                let v = self.deserialize_u16()?;
                Ok(v as u64)
            },
            Width::W32 => {
                let v = self.deserialize_u32()?;
                Ok(v as u64)
            },
            Width::W64 => self.deserialize_u64(),
        }
    }

    /// Reads a byte budget of the given width. A budget beyond what is left
    /// of the input exceeds the buffer. On a failure nothing is read.
    pub fn read_budget(&mut self, width: Width) -> (r: Result<u64>)
        ensures
            match decode_budget::<Endian>(width, old(self)@) {
                Ok((n, rest)) => {
                    &&& n <= u64::MAX
                    &&& r == Ok::<u64, Error>(n as u64)
                    &&& final(self)@ == rest
                },
                Err((e, at)) => r == Err::<u64, Error>(e) && final(self)@ == at,
            },
            final(self)@.is_suffix_of(old(self)@),
    {
        let start = self.input;
        let budget = self.read_size(width)?;
        if budget > self.input.len() as u64 {
            self.input = start;
            return Err(Error::LengthExceedsBuffer);
        }
        Ok(budget)
    }

    /// Reads a null-terminated string and borrows it from the input: the
    /// text before the first zero byte. The cursor moves past that byte. On
    /// a failure nothing is read.
    pub fn deserialize_str(&mut self) -> (r: Result<&'de str>)
        ensures
            match decode_null_string(old(self)@) {
                Ok((text, rest)) => r matches Ok(s) && s@ == text && final(self)@ == rest,
                Err((e, at)) => r matches Err(x) && x == e && final(self)@ == at,
            },
            final(self)@.is_suffix_of(old(self)@),
    {
        let input = self.input;
        let mut i: usize = 0;
        while i < input.len() && input[i] != 0
            invariant
                i <= input@.len(),
                forall|j: int| 0 <= j < i ==> input@[j] != 0,
            decreases input@.len() - i,
        {
            i += 1;
        }
        if i == input.len() {
            return Err(Error::InvalidTerminator);
        }
        proof {
            lemma_terminator_unique(input@, i as int);
        }
        match str_from_utf8(slice_subrange(input, 0, i)) {
            None => Err(Error::InvalidText),
            Some(s) => {
                proof {
                    encode_utf8_decode_utf8(s@);
                }
                self.input = slice_subrange(input, i + 1, input.len());
                Ok(s)
            },
        }
    }

    /// Reads a null-terminated string into an owned copy.
    pub fn deserialize_string(&mut self) -> (r: Result<String>)
        ensures
            match decode_null_string(old(self)@) {
                Ok((text, rest)) => r matches Ok(s) && s@ == text && final(self)@ == rest,
                Err((e, at)) => r matches Err(x) && x == e && final(self)@ == at,
            },
            final(self)@.is_suffix_of(old(self)@),
    {
        let s = self.deserialize_str()?;
        TlvStringVisitor.visit_borrowed_str(s)
    }

    /// Reads a length-prefixed string and borrows it from the input: the
    /// length at the given width, then that many bytes as text. On a failure
    /// nothing is read.
    pub fn read_tlv_string(&mut self, width: Width) -> (r: Result<&'de str>)
        ensures
            match decode_prefix_string::<Endian>(width, old(self)@) {
                Ok((text, rest)) => r matches Ok(s) && s@ == text && final(self)@ == rest,
                Err((e, at)) => r matches Err(x) && x == e && final(self)@ == at,
            },
            final(self)@.is_suffix_of(old(self)@),
    {
        let start = self.input;
        let len = self.read_size(width)?;
        if len > self.input.len() as u64 {
            self.input = start;
            return Err(Error::LengthExceedsBuffer);
        }
        let payload = self.take(len as usize);
        match str_from_utf8(payload) {
            None => {
                self.input = start;
                Err(Error::InvalidText)
            },
            Some(s) => {
                proof {
                    encode_utf8_decode_utf8(s@);
                }
                Ok(s)
            },
        }
    }
}

impl<'de, Endian: NumDe> Deserializer<'de, Endian> {
    /// Reads one value under its codec. The strings of the value are
    /// borrowed from the input, not copied. The cursor moves past the bytes
    /// of the value; on a failure it stands where the read stopped.
    pub fn deserialize_element(&mut self, codec: &FieldCodec) -> (r: Result<Value<'de>>)
        ensures
            match decode_model::<Endian>(*codec, old(self)@) {
                Ok((value, rest)) => {
                    &&& r matches Ok(v)
                    &&& v@ == value
                    &&& borrows_text(v)
                    &&& final(self)@ == rest
                },
                Err((e, at)) => r matches Err(x) && x == e && final(self)@ == at,
            },
            final(self)@.is_suffix_of(old(self)@),
        decreases *codec, 0nat,
    {
        match codec {
            FieldCodec::Primitive(Width::W8) => {
                let v = self.deserialize_u8()?;
                Ok(Value::U8(v))
            },
            FieldCodec::Primitive(Width::W16) => {
                let v = self.deserialize_u16()?;
                Ok(Value::U16(v))
            },
            FieldCodec::Primitive(Width::W32) => {
                let v = self.deserialize_u32()?;
                Ok(Value::U32(v))
            },
            FieldCodec::Primitive(Width::W64) => {
                let v = self.deserialize_u64()?;
                Ok(Value::U64(v))
            },
            FieldCodec::NullString => {
                let s = self.deserialize_str()?;
                Ok(Value::Str(Cow::Borrowed(s)))
            },
            FieldCodec::PrefixString(width) => {
                let s = self.read_tlv_string(*width)?;
                Ok(Value::Str(Cow::Borrowed(s)))
            },
            FieldCodec::CountSeq(width, inner) => {
                let items = self.deserialize_counted(*width, inner)?;
                let value = Value::List(items);
                proof {
                    lemma_view_of_elements(value);
                }
                Ok(value)
            },
            FieldCodec::BudgetSeq(width, inner) => {
                let items = self.deserialize_budgeted(*width, inner)?;
                let value = Value::List(items);
                proof {
                    lemma_view_of_elements(value);
                }
                Ok(value)
            },
            FieldCodec::Nested(fields) => {
                let values = self.deserialize_struct(fields)?;
                let value = Value::Record(values);
                proof {
                    lemma_view_of_elements(value);
                }
                Ok(value)
            },
        }
    }

    /// Reads one field under the framing policy that `name` declares: a
    /// length-prefixed string, or a sequence whose elements are under the
    /// codec `inner`. A name that declares no policy is an unsupported shape,
    /// and nothing is read.
    pub fn deserialize_tuple_struct(
        &mut self,
        name: &str,
        inner: &FieldCodec,
    ) -> (r: Result<Value<'de>>)
        ensures
            match FramingPolicy::named(name@) {
                Some(policy) => match decode_framed::<Endian>(policy, *inner, old(self)@) {
                    Ok((value, rest)) => {
                        &&& r matches Ok(v)
                        &&& v@ == value
                        &&& borrows_text(v)
                        &&& final(self)@ == rest
                    },
                    Err((e, at)) => r matches Err(x) && x == e && final(self)@ == at,
                },
                None => {
                    &&& r matches Err(x)
                    &&& x == Error::UnsupportedShape
                    &&& final(self)@ == old(self)@
                },
            },
            final(self)@.is_suffix_of(old(self)@),
    {
        match FramingPolicy::from_name(name) {
            Some(FramingPolicy::PrefixString(width)) => {
                let s = self.read_tlv_string(width)?;
                Ok(Value::Str(Cow::Borrowed(s)))
            },
            Some(FramingPolicy::CountSeq(width)) => {
                let items = self.deserialize_counted(width, inner)?;
                let value = Value::List(items);
                proof {
                    lemma_view_of_elements(value);
                }
                Ok(value)
            },
            Some(FramingPolicy::BudgetSeq(width)) => {
                let items = self.deserialize_budgeted(width, inner)?;
                let value = Value::List(items);
                proof {
                    lemma_view_of_elements(value);
                }
                Ok(value)
            },
            None => Err(Error::UnsupportedShape),
        }
    }

    /// Reads a count-prefixed sequence: the count at the given width, then
    /// exactly that many elements under the codec `inner`.
    pub fn deserialize_counted(
        &mut self,
        width: Width,
        inner: &FieldCodec,
    ) -> (r: Result<Vec<Value<'de>>>)
        ensures
            match decode_count_seq::<Endian>(width, *inner, old(self)@) {
                Ok((items, rest)) => {
                    &&& r matches Ok(v)
                    &&& models(v@) == items
                    &&& all_borrow_text(v@)
                    &&& final(self)@ == rest
                },
                Err((e, at)) => r matches Err(x) && x == e && final(self)@ == at,
            },
            final(self)@.is_suffix_of(old(self)@),
        decreases *inner, 2nat,
    {
        let count = self.read_size(width)?;
        TlvVecVisitor::new(inner).visit_seq(self, PackedArray::new(count))
    }

    /// Reads a budget-prefixed sequence: the byte budget at the given width,
    /// then elements under the codec `inner` until the budget is used up. A
    /// budget beyond what is left of the input exceeds the buffer.
    pub fn deserialize_budgeted(
        &mut self,
        width: Width,
        inner: &FieldCodec,
    ) -> (r: Result<Vec<Value<'de>>>)
        ensures
            match decode_budget_seq::<Endian>(width, *inner, old(self)@) {
                Ok((items, rest)) => {
                    &&& r matches Ok(v)
                    &&& models(v@) == items
                    &&& all_borrow_text(v@)
                    &&& final(self)@ == rest
                },
                Err((e, at)) => r matches Err(x) && x == e && final(self)@ == at,
            },
            final(self)@.is_suffix_of(old(self)@),
        decreases *inner, 2nat,
    {
        let budget = self.read_budget(width)?;
        TlvVecVisitor::new(inner).visit_seq_byte_sized(self, PackedArrayByteSized::new(budget))
    }

    /// Reads the fields of a record in declaration order, each under its
    /// own codec and each starting where the one before it ended.
    pub fn deserialize_struct(&mut self, fields: &Vec<FieldCodec>) -> (r: Result<Vec<Value<'de>>>)
        ensures
            match decode_fields::<Endian>(fields@, old(self)@, 0) {
                Ok((values, rest)) => {
                    &&& r matches Ok(v)
                    &&& models(v@) == values
                    &&& all_borrow_text(v@)
                    &&& final(self)@ == rest
                },
                Err((e, at)) => r matches Err(x) && x == e && final(self)@ == at,
            },
            final(self)@.is_suffix_of(old(self)@),
        decreases fields, 0nat,
    {
        let mut values: Vec<Value<'de>> = Vec::new();
        let mut i: usize = 0;
        while i < fields.len()
            invariant
                i <= fields.len(),
                self@.is_suffix_of(old(self)@),
                all_borrow_text(values@),
                decode_fields::<Endian>(fields@, old(self)@, 0) == then_read(
                    models(values@),
                    decode_fields::<Endian>(fields@, self@, i as nat),
                ),
            decreases fields.len() - i,
        {
            let ghost done = models(values@);
            let value = match self.deserialize_element(&fields[i]) {
                Ok(value) => value,
                Err(e) => {
                    return Err(e);
                },
            };
            proof {
                match decode_fields::<Endian>(fields@, self@, (i + 1) as nat) {
                    Ok((tail, rest)) => {
                        assert(done + (seq![value@] + tail) =~= (done + seq![value@]) + tail);
                    },
                    Err(_) => {},
                }
                assert(models(values@.push(value)) =~= done + seq![value@]);
            }
            values.push(value);
            i += 1;
        }
        assert(models(values@) + Seq::<ValueModel>::empty() =~= models(values@));
        Ok(values)
    }
}

/// What a run of reads comes to when `done` has been read so far and the
/// reads still to come give `coming`: all the values in order, or the failure
/// that stops them.
spec fn then_read(done: Seq<ValueModel>, coming: Read<Seq<ValueModel>>) -> Read<Seq<ValueModel>> {
    match coming {
        Ok((tail, rest)) => Ok((done + tail, rest)),
        Err(stop) => Err(stop),
    }
}

/// The state of a count-prefixed sequence while it is read: how many
/// elements are still owed.
pub struct PackedArray {
    count: u64,
}

impl PackedArray {
    /// The number of elements still owed.
    pub closed spec fn owed(&self) -> nat {
        self.count as nat
    }

    /// The state before the first of `count` elements.
    pub fn new(count: u64) -> (seq: Self)
        ensures
            seq.owed() == count,
    {
        PackedArray { count }
    }

    /// Says whether another element is to be read, and if so takes it off
    /// the count.
    pub fn next_element(&mut self) -> (more: bool)
        ensures
            more == (old(self).owed() > 0),
            more ==> final(self).owed() == old(self).owed() - 1,
            !more ==> final(self).owed() == 0,
    {
        if self.count == 0 {
            false
        } else {
            self.count -= 1;
            true
        }
    }
}

/// The state of a budget-prefixed sequence while it is read: how many bytes
/// of the budget are left.
pub struct PackedArrayByteSized {
    bytes: u64,
}

impl PackedArrayByteSized {
    /// The number of bytes left of the budget.
    pub closed spec fn left(&self) -> nat {
        self.bytes as nat
    }

    /// The state before the first element of a budget of `bytes`.
    pub fn new(bytes: u64) -> (seq: Self)
        ensures
            seq.left() == bytes,
    {
        PackedArrayByteSized { bytes }
    }

    /// Says whether another element is to be read: whether any of the budget
    /// is left.
    pub fn has_next(&self) -> (more: bool)
        ensures
            more == (self.left() > 0),
    {
        self.bytes > 0
    }

    /// Takes one element off the budget, measured on the cursor: it held
    /// `before` bytes when the element began and `after` when it ended. An
    /// element that took no bytes, or more than the budget has left, is a
    /// budget mismatch and leaves the budget as it was.
    pub fn account(&mut self, before: usize, after: usize) -> (r: Result<()>)
        ensures
            0 < before - after <= old(self).left() ==> {
                &&& r == Ok::<(), Error>(())
                &&& final(self).left() == old(self).left() - (before - after)
            },
            !(0 < before - after <= old(self).left()) ==> {
                &&& r == Err::<(), Error>(Error::BudgetMismatch)
                &&& final(self).left() == old(self).left()
            },
    {
        if after >= before {
            return Err(Error::BudgetMismatch);
        }
        let used = (before - after) as u64;
        if used > self.bytes {
            return Err(Error::BudgetMismatch);
        }
        self.bytes -= used;
        Ok(())
    }
}

/// Collects the elements of a framed sequence, each read under one element
/// codec.
pub struct TlvVecVisitor<'a> {
    inner: &'a FieldCodec,
}

impl<'a> TlvVecVisitor<'a> {
    /// The codec of the elements.
    pub closed spec fn element(&self) -> FieldCodec {
        *self.inner
    }

    /// A collector of elements under the codec `inner`.
    pub fn new(inner: &'a FieldCodec) -> (visitor: Self)
        ensures
            visitor.element() == *inner,
    {
        TlvVecVisitor { inner }
    }

    /// Reads the elements that `seq` still owes, one for each count.
    pub fn visit_seq<'de, Endian: NumDe>(
        &self,
        de: &mut Deserializer<'de, Endian>,
        seq: PackedArray,
    ) -> (r: Result<Vec<Value<'de>>>)
        ensures
            match decode_items::<Endian>(self.element(), old(de)@, seq.owed()) {
                Ok((items, rest)) => {
                    &&& r matches Ok(v)
                    &&& models(v@) == items
                    &&& all_borrow_text(v@)
                    &&& final(de)@ == rest
                },
                Err((e, at)) => r matches Err(x) && x == e && final(de)@ == at,
            },
            final(de)@.is_suffix_of(old(de)@),
        decreases self.element(), 1nat,
    {
        let mut owed = seq;
        let mut items: Vec<Value<'de>> = Vec::new();
        loop
            invariant
                de@.is_suffix_of(old(de)@),
                all_borrow_text(items@),
                decode_items::<Endian>(self.element(), old(de)@, seq.owed()) == then_read(
                    models(items@),
                    decode_items::<Endian>(self.element(), de@, owed.owed()),
                ),
            ensures
                all_borrow_text(items@),
                decode_items::<Endian>(self.element(), old(de)@, seq.owed()) == then_read(
                    models(items@),
                    Ok((Seq::empty(), de@)),
                ),
            decreases owed.owed(),
        {
            let ghost done = models(items@);
            if !owed.next_element() {
                assert(done + Seq::<ValueModel>::empty() =~= done);
                break;
            }
            let item = match de.deserialize_element(self.inner) {
                Ok(item) => item,
                Err(e) => {
                    return Err(e);
                },
            };
            proof {
                match decode_items::<Endian>(self.element(), de@, owed.owed()) {
                    Ok((tail, rest)) => {
                        assert(done + (seq![item@] + tail) =~= (done + seq![item@]) + tail);
                    },
                    Err(_) => {},
                }
                assert(models(items@.push(item)) =~= done + seq![item@]);
            }
            items.push(item);
        }
        Ok(items)
    }

    /// Reads elements until the budget of `seq` is used up: each element's
    /// bytes are measured on the cursor and taken off the budget.
    pub fn visit_seq_byte_sized<'de, Endian: NumDe>(
        &self,
        de: &mut Deserializer<'de, Endian>,
        seq: PackedArrayByteSized,
    ) -> (r: Result<Vec<Value<'de>>>)
        ensures
            match decode_within::<Endian>(self.element(), old(de)@, seq.left()) {
                Ok((items, rest)) => {
                    &&& r matches Ok(v)
                    &&& models(v@) == items
                    &&& all_borrow_text(v@)
                    &&& final(de)@ == rest
                },
                Err((e, at)) => r matches Err(x) && x == e && final(de)@ == at,
            },
            final(de)@.is_suffix_of(old(de)@),
        decreases self.element(), 1nat,
    {
        let mut budget = seq;
        let mut items: Vec<Value<'de>> = Vec::new();
        while budget.has_next()
            invariant
                de@.is_suffix_of(old(de)@),
                all_borrow_text(items@),
                decode_within::<Endian>(self.element(), old(de)@, seq.left()) == then_read(
                    models(items@),
                    decode_within::<Endian>(self.element(), de@, budget.left()),
                ),
            decreases budget.left(),
        {
            let ghost done = models(items@);
            let before = de.remaining();
            let item = match de.deserialize_element(self.inner) {
                Ok(item) => item,
                Err(e) => {
                    return Err(e);
                },
            };
            match budget.account(before, de.remaining()) {
                Ok(()) => {},
                Err(e) => {
                    return Err(e);
                },
            }
            proof {
                match decode_within::<Endian>(self.element(), de@, budget.left()) {
                    Ok((tail, rest)) => {
                        assert(done + (seq![item@] + tail) =~= (done + seq![item@]) + tail);
                    },
                    Err(_) => {},
                }
                assert(models(items@.push(item)) =~= done + seq![item@]);
            }
            items.push(item);
        }
        assert(models(items@) + Seq::<ValueModel>::empty() =~= models(items@));
        Ok(items)
    }
}

/// Turns a string borrowed from the input into an owned value.
pub struct TlvStringVisitor;

impl TlvStringVisitor {
    /// An owned copy of the borrowed text.
    pub fn visit_borrowed_str(self, value: &str) -> (r: Result<String>)
        ensures
            r matches Ok(s) && s@ == value@,
    {
        Ok(value.to_owned())
    }
}

/// Decodes one value under its codec from a whole buffer, in the byte order
/// `Endian`. The mode says whether input left over after the value is a
/// failure. The strings of the value are borrowed from the buffer; `to_owned`
/// on the value makes a copy that outlives it.
pub fn from_bytes<'a, Endian: NumDe>(
    codec: &FieldCodec,
    b: &'a [u8],
    mode: DecodeMode,
) -> (r: Result<Value<'a>>)
    ensures
        match decode_whole::<Endian>(*codec, b@, mode) {
            Ok(value) => r matches Ok(v) && v@ == value && borrows_text(v),
            Err(e) => r matches Err(x) && x == e,
        },
{
    let mut deserializer = Deserializer::<Endian>::from_bytes(b);
    let t = deserializer.deserialize_element(codec)?;
    match mode {
        DecodeMode::Strict => {
            deserializer.end()?;
        },
        DecodeMode::Lenient => {},
    }
    Ok(t)
}

/// Decodes one value under its codec from a whole buffer, little-endian. The
/// strings of the value are borrowed from the buffer.
pub fn from_bytes_le<'a>(
    codec: &FieldCodec,
    b: &'a [u8],
    mode: DecodeMode,
) -> (r: Result<Value<'a>>)
    ensures
        match decode_whole::<LittleEndian>(*codec, b@, mode) {
            Ok(value) => r matches Ok(v) && v@ == value && borrows_text(v),
            Err(e) => r matches Err(x) && x == e,
        },
{
    from_bytes::<LittleEndian>(codec, b, mode)
}

} // verus!
