//! The failures of an encode or decode call.

use vstd::prelude::*;

verus! {

/// The result of a codec operation.
pub type Result<T> = core::result::Result<T, Error>;

/// Why an encode or decode call stopped.
#[derive(Clone, Copy, Debug, PartialEq, Eq, Structural)]
pub enum Error {
    /// A fixed-width read found fewer bytes than it needs.
    UnexpectedEndOfInput,
    /// A string payload is not valid UTF-8.
    InvalidText,
    /// A null-terminated string has no terminator before the input ends.
    InvalidTerminator,
    /// A length or byte budget names more bytes than remain in the input.
    LengthExceedsBuffer,
    /// A byte budget does not end on an element boundary.
    BudgetMismatch,
    /// The value has no encoding under the codec it was paired with.
    UnsupportedShape,
    /// Strict decoding finished with input left over.
    TrailingBytes,
    /// A length does not fit the prefix width chosen for it.
    Overflow,
}

impl Error {
    /// The text that `message` returns for each failure.
    pub open spec fn message_text(self) -> Seq<char> {
        match self {
            Error::UnexpectedEndOfInput => "unexpected end of input"@,
            Error::InvalidText => "string payload is not valid UTF-8"@,
            Error::InvalidTerminator => "expected end of null-terminated string"@,
            Error::LengthExceedsBuffer => "length exceeds remaining input"@,
            Error::BudgetMismatch => "byte budget does not end on an element boundary"@,
            Error::UnsupportedShape => "value does not match its codec"@,
            Error::TrailingBytes => "unexpected trailing bytes"@,
            Error::Overflow => "length does not fit its prefix width"@,
        }
    }

    /// A short description of the failure.
    pub fn message(&self) -> (text: &'static str)
        ensures
            text@ == self.message_text(),
    {
        match self {
            Error::UnexpectedEndOfInput => "unexpected end of input",
            Error::InvalidText => "string payload is not valid UTF-8",
            Error::InvalidTerminator => "expected end of null-terminated string",
            Error::LengthExceedsBuffer => "length exceeds remaining input",
            Error::BudgetMismatch => "byte budget does not end on an element boundary",
            Error::UnsupportedShape => "value does not match its codec",
            Error::TrailingBytes => "unexpected trailing bytes",
            Error::Overflow => "length does not fit its prefix width",
        }
    }
}

} // verus!
