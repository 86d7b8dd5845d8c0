//! The ways in which an image can be rejected.

use vstd::prelude::*;

verus! {

/// Why an image is not accepted for rewriting.
#[derive(Debug, Clone, Copy, PartialEq, Eq, Structural)]
pub enum FormatError {
    /// The image is shorter than the trailer it must end with.
    TooShort,
    /// The image ends with bytes other than the expected placeholder trailer.
    MagicMismatch,
}

impl FormatError {
    /// The text shown for this error.
    pub open spec fn message_text(self) -> Seq<char> {
        match self {
            FormatError::TooShort => "invalid ELF file; it is shorter than the magic string"@,
            FormatError::MagicMismatch => "invalid ELF file; the magic string doesn't match"@,
        }
    }

    /// Describes the error in words.
    pub fn message(&self) -> (text: &'static str)
        ensures
            text@ == self.message_text(),
    {
        match self {
            FormatError::TooShort => "invalid ELF file; it is shorter than the magic string",
            FormatError::MagicMismatch => "invalid ELF file; the magic string doesn't match",
        }
    }
}

} // verus!
