//! What can go wrong when a value is decoded.

use vstd::prelude::*;

verus! {

/// Why a value could not be decoded.
#[derive(Clone, Copy, Debug, PartialEq, Eq, Structural)]
pub enum DeserializeError {
    /// A byte string began with the reserved length byte 255.
    NotAString,
    /// No variant of the type has the constructor ID that was read.
    NoVariant,
    /// The input ended before the value did.
    IoError,
    /// A string held a zero byte.
    NulError,
    /// A string was not UTF-8.
    Utf8Error,
}

impl DeserializeError {
    /// The text of the error.
    pub open spec fn text(&self) -> Seq<char> {
        match self {
            DeserializeError::NotAString => "The data is not a string."@,
            DeserializeError::NoVariant => "No suitable variant found."@,
            DeserializeError::IoError => "failed to fill whole buffer"@,
            DeserializeError::NulError => "nul byte found in provided data"@,
            DeserializeError::Utf8Error => "invalid utf-8 sequence"@,
        }
    }

    /// The text of the error, as a string.
    pub fn message(&self) -> (s: String)
        ensures
            s@ == self.text(),
    {
        match self {
            DeserializeError::NotAString => "The data is not a string.".to_owned(),
            DeserializeError::NoVariant => "No suitable variant found.".to_owned(),
            DeserializeError::IoError => "failed to fill whole buffer".to_owned(),
            DeserializeError::NulError => "nul byte found in provided data".to_owned(),
            DeserializeError::Utf8Error => "invalid utf-8 sequence".to_owned(),
        }
    }
}

} // verus!
