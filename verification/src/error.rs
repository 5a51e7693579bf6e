//! Why a text is not an identifier.

use crate::text::{decimal, push_decimal};
use vstd::prelude::*;
use vstd::string::StringExecFns;

verus! {

/// The four ways in which parsing an identifier fails.
#[derive(Debug, Clone, Copy, PartialEq, Eq)]
pub enum Error {
    /// The text does not have the length of an identifier of the type.
    InvalidLength,
    /// The text does not begin with the prefix of the type.
    InvalidPrefix,
    /// The byte after the prefix is not the separator.
    InvalidFormat,
    /// The suffix holds this byte, which is not of the alphabet.
    InvalidSuffixChar(u8),
}

impl Error {
    /// The message of the error; the offending byte is given as a decimal
    /// number.
    pub open spec fn message(self) -> Seq<char> {
        match self {
            Error::InvalidLength => "Invalid length"@,
            Error::InvalidPrefix => "Invalid prefix"@,
            Error::InvalidFormat => "Invalid format"@,
            Error::InvalidSuffixChar(byte) => "Invalid suffix character: "@ + decimal(byte as nat),
        }
    }

    /// Renders the message of the error.
    pub fn to_string(&self) -> (rendered: String)
        ensures
            rendered@ == self.message(),
    {
        match self {
            Error::InvalidLength => String::from_str("Invalid length"),
            Error::InvalidPrefix => String::from_str("Invalid prefix"),
            Error::InvalidFormat => String::from_str("Invalid format"),
            Error::InvalidSuffixChar(byte) => {
                let mut rendered = String::from_str("Invalid suffix character: ");
                push_decimal(&mut rendered, *byte as usize);
                rendered
            },
        }
    }
}

} // verus!
