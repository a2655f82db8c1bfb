//! The values that a schema encodes, and their mathematical model.

use std::borrow::Cow;
use vstd::prelude::*;

verus! {

/// A value in memory: what a field holds before encoding or after decoding.
/// A string is either owned or borrowed from a buffer that lives for `'a`.
#[derive(Debug, PartialEq, Eq)]
pub enum Value<'a> {
    /// An 8-bit unsigned integer.
    U8(u8),
    /// A 16-bit unsigned integer.
    U16(u16),
    /// A 32-bit unsigned integer.
    U32(u32),
    /// A 64-bit unsigned integer.
    U64(u64),
    /// A string.
    Str(Cow<'a, str>),
    /// The elements of a sequence, in order.
    List(Vec<Value<'a>>),
    /// The fields of a record, in declaration order.
    Record(Vec<Value<'a>>),
}

/// The model of a `Value`: strings are character sequences, and sequences
/// and records are sequences of models.
pub enum ValueModel {
    /// An 8-bit unsigned integer.
    U8(u8),
    /// A 16-bit unsigned integer.
    U16(u16),
    /// A 32-bit unsigned integer.
    U32(u32),
    /// A 64-bit unsigned integer.
    U64(u64),
    /// The characters of a string.
    Str(Seq<char>),
    /// The elements of a sequence, in order.
    List(Seq<ValueModel>),
    /// The fields of a record, in declaration order.
    Record(Seq<ValueModel>),
}

/// The text of a string, owned or borrowed.
pub fn text_of<'b>(text: &'b Cow<'_, str>) -> (s: &'b str)
    ensures
        s@ == text@,
{
    match text {
        Cow::Borrowed(borrowed) => borrowed,
        Cow::Owned(owned) => owned.as_str(),
    }
}

/// The model of a value, by recursion over its structure.
pub open spec fn model_of(value: Value<'_>) -> ValueModel
    decreases value,
{
    match value {
        Value::U8(v) => ValueModel::U8(v),
        Value::U16(v) => ValueModel::U16(v),
        Value::U32(v) => ValueModel::U32(v),
        Value::U64(v) => ValueModel::U64(v),
        Value::Str(s) => ValueModel::Str(s@),
        Value::List(items) => ValueModel::List(
            Seq::new(
                items@.len(),
                |i: int|
                    if 0 <= i < items@.len() {
                        model_of(items@[i])
                    } else {
                        ValueModel::U8(0)
                    },
            ),
        ),
        Value::Record(fields) => ValueModel::Record(
            Seq::new(
                fields@.len(),
                |i: int|
                    if 0 <= i < fields@.len() {
                        model_of(fields@[i])
                    } else {
                        ValueModel::U8(0)
                    },
            ),
        ),
    }
}

impl<'a> View for Value<'a> {
    type V = ValueModel;

    open spec fn view(&self) -> ValueModel {
        model_of(*self)
    }
}

/// Whether the value is zero-copy: each of its strings is borrowed, none is
/// an owned copy.
pub open spec fn borrows_text(value: Value<'_>) -> bool
    decreases value,
{
    match value {
        Value::Str(text) => text is Borrowed,
        Value::List(items) => forall|i: int|
            0 <= i < items@.len() ==> borrows_text(#[trigger] items@[i]),
        Value::Record(fields) => forall|i: int|
            0 <= i < fields@.len() ==> borrows_text(#[trigger] fields@[i]),
        _ => true,
    }
}

/// Whether each value of a run is zero-copy.
pub open spec fn all_borrow_text(values: Seq<Value<'_>>) -> bool {
    forall|i: int| 0 <= i < values.len() ==> borrows_text(#[trigger] values[i])
}

/// Whether the value owns each of its strings, and so borrows from no
/// buffer.
pub open spec fn owns_text(value: Value<'_>) -> bool
    decreases value,
{
    match value {
        Value::Str(text) => text is Owned,
        Value::List(items) => forall|i: int|
            0 <= i < items@.len() ==> owns_text(#[trigger] items@[i]),
        Value::Record(fields) => forall|i: int|
            0 <= i < fields@.len() ==> owns_text(#[trigger] fields@[i]),
        _ => true,
    }
}

/// The models of a run of values, element by element.
pub open spec fn models(values: Seq<Value<'_>>) -> Seq<ValueModel> {
    values.map_values(|v: Value<'_>| v@)
}

/// The view of a sequence or a record is the models of its elements.
pub proof fn lemma_view_of_elements(value: Value<'_>)
    ensures
        value matches Value::List(items) ==> value@ == ValueModel::List(models(items@)),
        value matches Value::Record(fields) ==> value@ == ValueModel::Record(models(fields@)),
{
    match value {
        Value::List(items) => {
            assert(value@->List_0 =~= models(items@));
        },
        Value::Record(fields) => {
            assert(value@->Record_0 =~= models(fields@));
        },
        _ => {},
    }
}

impl<'a> Value<'a> {
    /// A copy of the value that owns its strings: it holds the same data and
    /// borrows from no buffer.
    pub fn to_owned(&self) -> (copy: Value<'static>)
        ensures
            copy@ == self@,
            owns_text(copy),
        decreases self, 0nat,
    {
        match self {
            Value::U8(v) => Value::U8(*v),
            Value::U16(v) => Value::U16(*v),
            Value::U32(v) => Value::U32(*v),
            Value::U64(v) => Value::U64(*v),
            Value::Str(text) => Value::Str(Cow::Owned(text_of(text).to_owned())),
            Value::List(items) => {
                let copy = Value::List(Self::to_owned_all(items));
                proof {
                    lemma_view_of_elements(copy);
                    lemma_view_of_elements(*self);
                }
                copy
            },
            Value::Record(fields) => {
                let copy = Value::Record(Self::to_owned_all(fields));
                proof {
                    lemma_view_of_elements(copy);
                    lemma_view_of_elements(*self);
                }
                copy
            },
        }
    }

    /// Owned copies of a run of values, in order.
    fn to_owned_all(values: &Vec<Value<'a>>) -> (copies: Vec<Value<'static>>)
        ensures
            models(copies@) == models(values@),
            forall|i: int| 0 <= i < copies@.len() ==> owns_text(#[trigger] copies@[i]),
        decreases values, 1nat,
    {
        let mut copies: Vec<Value<'static>> = Vec::new();
        let mut i: usize = 0;
        while i < values.len()
            invariant
                i <= values.len(),
                copies@.len() == i,
                forall|j: int| 0 <= j < i ==> (#[trigger] copies@[j])@ == values@[j]@,
                forall|j: int| 0 <= j < i ==> owns_text(#[trigger] copies@[j]),
            decreases values.len() - i,
        {
            let copy = values[i].to_owned();
            copies.push(copy);
            i += 1;
        }
        assert(models(copies@) =~= models(values@));
        copies
    }
}

} // verus!
