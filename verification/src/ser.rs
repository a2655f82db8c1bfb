//! Encoding: the byte order of integers and the append-only output buffer.

use core::marker::PhantomData;
use vstd::prelude::*;
use vstd::utf8::encode_utf8;

use crate::error::{Error, Result};
use crate::schema::{FieldCodec, Width};
use crate::value::{lemma_view_of_elements, models, text_of, Value};
use crate::wire::{
    encode_budget_seq, encode_count_seq, encode_fields, encode_items, encode_model,
    encode_prefix_string, size_wire,
};
use crate::LittleEndian;

verus! {

/// A byte order for writing multi-byte integers.
pub trait NumSer {
    /// The bytes of a 16-bit integer in this order.
    spec fn u16_wire(v: u16) -> Seq<u8>;

    /// The bytes of a 32-bit integer in this order.
    spec fn u32_wire(v: u32) -> Seq<u8>;

    /// The bytes of a 64-bit integer in this order.
    spec fn u64_wire(v: u64) -> Seq<u8>;

    /// Lays a 16-bit integer out in this order.
    fn serialize_u16(v: u16) -> (bytes: [u8; 2])
        ensures
            bytes@ == Self::u16_wire(v),
    ;

    /// Lays a 32-bit integer out in this order.
    fn serialize_u32(v: u32) -> (bytes: [u8; 4])
        ensures
            bytes@ == Self::u32_wire(v),
    ;

    /// Lays a 64-bit integer out in this order.
    fn serialize_u64(v: u64) -> (bytes: [u8; 8])
        ensures
            bytes@ == Self::u64_wire(v),
    ;
}

impl NumSer for LittleEndian {
    open spec fn u16_wire(v: u16) -> Seq<u8> {
        seq![(v % 256) as u8, (v / 256) as u8]
    }

    open spec fn u32_wire(v: u32) -> Seq<u8> {
        seq![
            (v % 256) as u8,
            (v / 0x100 % 256) as u8,
            (v / 0x1_0000 % 256) as u8,
            (v / 0x100_0000) as u8,
        ]
    }

    open spec fn u64_wire(v: u64) -> Seq<u8> {
        seq![
            (v % 256) as u8,
            (v / 0x100 % 256) as u8,
            (v / 0x1_0000 % 256) as u8,
            (v / 0x100_0000 % 256) as u8,
            (v / 0x1_0000_0000 % 256) as u8,
            (v / 0x100_0000_0000 % 256) as u8,
            (v / 0x1_0000_0000_0000 % 256) as u8,
            (v / 0x100_0000_0000_0000) as u8,
        ]
    }

    fn serialize_u16(v: u16) -> (bytes: [u8; 2]) {
        let bytes = [(v % 256) as u8, (v / 256) as u8];
        assert(bytes@ =~= Self::u16_wire(v));
        bytes
    }

    fn serialize_u32(v: u32) -> (bytes: [u8; 4]) {
        let bytes = [
            (v % 256) as u8,
            (v / 0x100 % 256) as u8,
            (v / 0x1_0000 % 256) as u8,
            (v / 0x100_0000) as u8,
        ];
        assert(bytes@ =~= Self::u32_wire(v));
        bytes
    }

    fn serialize_u64(v: u64) -> (bytes: [u8; 8]) {
        let bytes = [
            (v % 256) as u8,
            (v / 0x100 % 256) as u8,
            (v / 0x1_0000 % 256) as u8,
            (v / 0x100_0000 % 256) as u8,
            (v / 0x1_0000_0000 % 256) as u8,
            (v / 0x100_0000_0000 % 256) as u8,
            (v / 0x1_0000_0000_0000 % 256) as u8,
            (v / 0x100_0000_0000_0000) as u8,
        ];
        assert(bytes@ =~= Self::u64_wire(v));
        bytes
    }
}

/// What a run of writes comes to when `written` has been written so far and
/// the writes still to come give `coming`: all the bytes in order, or the
/// failure that stops them.
spec fn then_written(written: Seq<u8>, coming: Result<Seq<u8>>) -> Result<Seq<u8>> {
    match coming {
        Ok(tail) => Ok(written + tail),
        Err(e) => Err(e),
    }
}

/// The output buffer of one encode call: bytes are appended in field order
/// and never rewritten.
pub struct Serializer<Endian: NumSer> {
    output: Vec<u8>,
    endian: PhantomData<Endian>,
}

impl<Endian: NumSer> View for Serializer<Endian> {
    type V = Seq<u8>;

    /// The bytes written so far.
    closed spec fn view(&self) -> Seq<u8> {
        self.output@
    }
}

impl<Endian: NumSer> Serializer<Endian> {
    /// An empty output buffer.
    pub fn new() -> (s: Self)
        ensures
            s@ == Seq::<u8>::empty(),
    {
        Serializer { output: Vec::new(), endian: PhantomData }
    }

    /// Hands the written bytes over.
    pub fn into_bytes(self) -> (bytes: Vec<u8>)
        ensures
            bytes@ == self@,
    {
        self.output
    }

    /// Appends one byte.
    pub fn serialize_u8(&mut self, v: u8)
        ensures
            final(self)@ == old(self)@ + seq![v],
    {
        self.output.push(v);
        assert(self.output@ =~= old(self).output@ + seq![v]);
    }

    /// Appends a 16-bit integer in the configured byte order.
    pub fn serialize_u16(&mut self, v: u16)
        ensures
            final(self)@ == old(self)@ + Endian::u16_wire(v),
    {
        let bytes = Endian::serialize_u16(v);
        self.serialize_bytes(bytes.as_slice());
    }

    /// Appends a 32-bit integer in the configured byte order.
    pub fn serialize_u32(&mut self, v: u32)
        ensures
            final(self)@ == old(self)@ + Endian::u32_wire(v),
    {
        let bytes = Endian::serialize_u32(v);
        self.serialize_bytes(bytes.as_slice());
    }

    /// Appends a 64-bit integer in the configured byte order.
    pub fn serialize_u64(&mut self, v: u64)
        ensures
            final(self)@ == old(self)@ + Endian::u64_wire(v),
    {
        let bytes = Endian::serialize_u64(v);
        self.serialize_bytes(bytes.as_slice());
    }

    /// Appends raw payload bytes as they are.
    pub fn serialize_bytes(&mut self, v: &[u8])
        ensures
            final(self)@ == old(self)@ + v@,
    {
        self.output.extend_from_slice(v);
        assert(self.output@ =~= old(self).output@ + v@);
    }

    /// Appends a string in the default framing: its UTF-8 bytes, then one
    /// zero byte.
    pub fn serialize_str(&mut self, v: &str)
        ensures
            final(self)@ == old(self)@ + encode_utf8(v@) + seq![0u8],
    {
        self.serialize_bytes(v.as_bytes());
        self.serialize_u8(0);
    }

    /// Appends a length or count at the given width. A number that the width
    /// cannot hold is an overflow, and nothing is written.
    pub fn serialize_size(&mut self, width: Width, n: usize) -> (r: Result<()>)
        ensures
            n <= width.limit() ==> {
                &&& r == Ok::<(), Error>(())
                &&& final(self)@ == old(self)@ + size_wire::<Endian>(width, n as nat)
            },
            n > width.limit() ==> {
                &&& r == Err::<(), Error>(Error::Overflow)
                &&& final(self)@ == old(self)@
            },
    {
        let size = width.check(n)?;
        match width {
            Width::W8 => self.serialize_u8(size as u8),
            Width::W16 => self.serialize_u16(size as u16),
            Width::W32 => self.serialize_u32(size as u32),
            Width::W64 => self.serialize_u64(size),
        }
        Ok(())
    }

    /// Appends a string under a length prefix: its UTF-8 byte length at the
    /// given width, then its UTF-8 bytes, with no terminator. A string that
    /// is too long for the width is an overflow, and nothing is written.
    pub fn serialize_tlv_string(&mut self, width: Width, v: &str) -> (r: Result<()>)
        ensures
            match encode_prefix_string::<Endian>(width, v@) {
                Ok(bytes) => r == Ok::<(), Error>(()) && final(self)@ == old(self)@ + bytes,
                Err(e) => r == Err::<(), Error>(e) && final(self)@ == old(self)@,
            },
    {
        let payload = v.as_bytes();
        self.serialize_size(width, payload.len())?;
        self.serialize_bytes(payload);
        assert(self@ =~= old(self)@ + (size_wire::<Endian>(width, payload@.len()) + payload@));
        Ok(())
    }

    /// Appends one value under its codec. On a failure the buffer keeps what
    /// it held and may have grown by a partial encoding.
    pub fn serialize_element(&mut self, codec: &FieldCodec, value: &Value) -> (r: Result<()>)
        ensures
            match encode_model::<Endian>(*codec, value@) {
                Ok(bytes) => r == Ok::<(), Error>(()) && final(self)@ == old(self)@ + bytes,
                Err(e) => r == Err::<(), Error>(e) && old(self)@.is_prefix_of(final(self)@),
            },
        decreases *codec, 0nat,
    {
        proof {
            lemma_view_of_elements(*value);
        }
        match (codec, value) {
            (FieldCodec::Primitive(Width::W8), Value::U8(v)) => {
                self.serialize_u8(*v);
                Ok(())
            },
            (FieldCodec::Primitive(Width::W16), Value::U16(v)) => {
                self.serialize_u16(*v);
                Ok(())
            },
            (FieldCodec::Primitive(Width::W32), Value::U32(v)) => {
                self.serialize_u32(*v);
                Ok(())
            },
            (FieldCodec::Primitive(Width::W64), Value::U64(v)) => {
                self.serialize_u64(*v);
                Ok(())
            },
            (FieldCodec::NullString, Value::Str(text)) => {
                self.serialize_str(text_of(text));
                assert(self@ =~= old(self)@ + (encode_utf8(text@) + seq![0u8]));
                Ok(())
            },
            (FieldCodec::PrefixString(width), Value::Str(text)) => self.serialize_tlv_string(
                *width,
                text_of(text),
            ),
            (FieldCodec::CountSeq(width, inner), Value::List(items)) => self.serialize_counted(
                *width,
                inner,
                items,
            ),
            (FieldCodec::BudgetSeq(width, inner), Value::List(items)) => self.serialize_budgeted(
                *width,
                inner,
                items,
            ),
            (FieldCodec::Nested(fields), Value::Record(values)) => self.serialize_struct(
                fields,
                values,
            ),
            _ => Err(Error::UnsupportedShape),
        }
    }

    /// Appends the elements of a sequence one after the other, each under
    /// the codec `inner`, with no framing.
    pub fn serialize_seq(&mut self, inner: &FieldCodec, items: &Vec<Value>) -> (r: Result<()>)
        ensures
            match encode_items::<Endian>(*inner, models(items@), 0) {
                Ok(bytes) => r == Ok::<(), Error>(()) && final(self)@ == old(self)@ + bytes,
                Err(e) => r == Err::<(), Error>(e) && old(self)@.is_prefix_of(final(self)@),
            },
        decreases *inner, 1nat,
    {
        let ghost all = models(items@);
        let ghost mut written: Seq<u8> = Seq::empty();
        let mut i: usize = 0;
        while i < items.len()
            invariant
                i <= items.len(),
                all == models(items@),
                self@ == old(self)@ + written,
                encode_items::<Endian>(*inner, all, 0) == then_written(
                    written,
                    encode_items::<Endian>(*inner, all, i as nat),
                ),
            decreases items.len() - i,
        {
            match self.serialize_element(inner, &items[i]) {
                Ok(()) => {},
                Err(e) => {
                    return Err(e);
                },
            }
            proof {
                let head = encode_model::<Endian>(*inner, all[i as int])->Ok_0;
                assert(self@ =~= old(self)@ + (written + head));
                match encode_items::<Endian>(*inner, all, (i + 1) as nat) {
                    Ok(tail) => {
                        assert(written + (head + tail) =~= (written + head) + tail);
                    },
                    Err(_) => {},
                }
                written = written + head;
            }
            i += 1;
        }
        assert(self@ =~= old(self)@ + (written + Seq::<u8>::empty()));
        Ok(())
    }

    /// Appends a sequence under a count prefix: the number of elements at
    /// the given width, then the elements.
    pub fn serialize_counted(
        &mut self,
        width: Width,
        inner: &FieldCodec,
        items: &Vec<Value>,
    ) -> (r: Result<()>)
        ensures
            match encode_count_seq::<Endian>(width, *inner, models(items@)) {
                Ok(bytes) => r == Ok::<(), Error>(()) && final(self)@ == old(self)@ + bytes,
                Err(e) => r == Err::<(), Error>(e) && old(self)@.is_prefix_of(final(self)@),
            },
        decreases *inner, 2nat,
    {
        self.serialize_size(width, items.len())?;
        let ghost prefix = size_wire::<Endian>(width, items@.len());
        match self.serialize_seq(inner, items) {
            Ok(()) => {
                let ghost payload = encode_items::<Endian>(*inner, models(items@), 0)->Ok_0;
                assert(self@ =~= old(self)@ + (prefix + payload));
                Ok(())
            },
            Err(e) => Err(e),
        }
    }

    /// Appends a sequence under a byte budget: the byte length of all the
    /// elements together at the given width, then the elements.
    pub fn serialize_budgeted(
        &mut self,
        width: Width,
        inner: &FieldCodec,
        items: &Vec<Value>,
    ) -> (r: Result<()>)
        ensures
            match encode_budget_seq::<Endian>(width, *inner, models(items@)) {
                Ok(bytes) => r == Ok::<(), Error>(()) && final(self)@ == old(self)@ + bytes,
                Err(e) => r == Err::<(), Error>(e) && final(self)@ == old(self)@,
            },
        decreases *inner, 2nat,
    {
        let mut scratch = Serializer::<Endian>::new();
        scratch.serialize_seq(inner, items)?;
        let payload = scratch.into_bytes();
        assert(payload@ =~= encode_items::<Endian>(*inner, models(items@), 0)->Ok_0);
        self.serialize_size(width, payload.len())?;
        self.serialize_bytes(payload.as_slice());
        assert(self@ =~= old(self)@ + (size_wire::<Endian>(width, payload@.len()) + payload@));
        Ok(())
    }

    /// Appends the fields of a record in declaration order, each under its
    /// own codec, with nothing between them.
    pub fn serialize_struct(
        &mut self,
        fields: &Vec<FieldCodec>,
        values: &Vec<Value>,
    ) -> (r: Result<()>)
        ensures
            match encode_fields::<Endian>(fields@, models(values@), 0) {
                Ok(bytes) => r == Ok::<(), Error>(()) && final(self)@ == old(self)@ + bytes,
                Err(e) => r == Err::<(), Error>(e) && old(self)@.is_prefix_of(final(self)@),
            },
        decreases fields, 0nat,
    {
        if fields.len() != values.len() {
            return Err(Error::UnsupportedShape);
        }
        let ghost all = models(values@);
        let ghost mut written: Seq<u8> = Seq::empty();
        let mut i: usize = 0;
        while i < fields.len()
            invariant
                i <= fields.len(),
                fields.len() == values.len(),
                all == models(values@),
                self@ == old(self)@ + written,
                encode_fields::<Endian>(fields@, all, 0) == then_written(
                    written,
                    encode_fields::<Endian>(fields@, all, i as nat),
                ),
            decreases fields.len() - i,
        {
            match self.serialize_element(&fields[i], &values[i]) {
                Ok(()) => {},
                Err(e) => {
                    return Err(e);
                },
            }
            proof {
                let head = encode_model::<Endian>(fields@[i as int], all[i as int])->Ok_0;
                assert(self@ =~= old(self)@ + (written + head));
                match encode_fields::<Endian>(fields@, all, (i + 1) as nat) {
                    Ok(tail) => {
                        assert(written + (head + tail) =~= (written + head) + tail);
                    },
                    Err(_) => {},
                }
                written = written + head;
            }
            i += 1;
        }
        assert(self@ =~= old(self)@ + (written + Seq::<u8>::empty()));
        Ok(())
    }
}

/// Encodes one value under its codec into a fresh buffer, in the byte order
/// `Endian`.
pub fn to_bytes<Endian: NumSer>(codec: &FieldCodec, value: &Value) -> (r: Result<Vec<u8>>)
    ensures
        match encode_model::<Endian>(*codec, value@) {
            Ok(bytes) => r matches Ok(out) && out@ == bytes,
            Err(e) => r == Err::<Vec<u8>, Error>(e),
        },
{
    let mut serializer = Serializer::<Endian>::new();
    match serializer.serialize_element(codec, value) {
        Ok(()) => {
            let out = serializer.into_bytes();
            assert(out@ =~= encode_model::<Endian>(*codec, value@)->Ok_0);
            Ok(out)
        },
        Err(e) => Err(e),
    }
}

/// Encodes one value under its codec into a fresh buffer, little-endian.
pub fn to_bytes_le(codec: &FieldCodec, value: &Value) -> (r: Result<Vec<u8>>)
    ensures
        match encode_model::<LittleEndian>(*codec, value@) {
            Ok(bytes) => r matches Ok(out) && out@ == bytes,
            Err(e) => r == Err::<Vec<u8>, Error>(e),
        },
{
    to_bytes::<LittleEndian>(codec, value)
}

} // verus!
