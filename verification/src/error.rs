//! What can stop a cipher command before it produces output.

use vstd::prelude::*;

verus! {

/// The command line asked for something that cannot be run.
#[derive(Clone, Copy, Debug, PartialEq, Eq, Structural)]
pub enum UsageError {
    /// An encrypt and a decrypt directive were given together.
    ConflictingDirectives,
    /// The cipher needs key material and none was given.
    MissingKeyMaterial,
}

/// The cipher cannot work on the key material or the text it was handed.
#[derive(Clone, Copy, Debug, PartialEq, Eq, Structural)]
pub enum CipherOperationError {
    /// The text holds a character that the cipher has no rule for.
    UnsupportedText,
    /// The affine multiplier shares a factor with the alphabet size.
    NotCoprime,
    /// The pad has fewer bytes than the text.
    PadTooShort,
    /// The pad would turn the text into bytes that are no text.
    PadOutOfRange,
    /// The Playfair key holds a character that cannot enter the key square.
    UnsupportedKey,
    /// A Playfair pair can only be undone by wrapping around the key square.
    WrapAroundPair,
}

/// Why a command produced no output.
#[derive(Clone, Copy, Debug, PartialEq, Eq, Structural)]
pub enum DispatchError {
    /// The command was rejected before any input was looked at.
    Usage(UsageError),
    /// The cipher rejected the key material or the input.
    CipherOperation(CipherOperationError),
}

// The lines that tell the user about each error.

pub const CONFLICTING_DIRECTIVES: &'static str =
    "usage: --encrypt and --decrypt are opposite directives, give only one";

pub const MISSING_KEY_MATERIAL: &'static str = "usage: the cipher needs key material";

pub const UNSUPPORTED_TEXT: &'static str =
    "cipher: the text holds a character outside the cipher's alphabet";

pub const NOT_COPRIME: &'static str =
    "cipher: the multiplier a must share no factor with the alphabet size 26";

pub const PAD_TOO_SHORT: &'static str = "cipher: the pad is shorter than the text";

pub const PAD_OUT_OF_RANGE: &'static str =
    "cipher: the last pad byte must be below 128 for the result to be text";

pub const UNSUPPORTED_KEY: &'static str =
    "cipher: the key may hold ASCII characters only and no upper-case letter";

pub const WRAP_AROUND_PAIR: &'static str =
    "cipher: a pair of the text lies on the first row or column of the key square";

impl UsageError {
    /// The line that tells the user about this error.
    pub open spec fn message_text(self) -> Seq<char> {
        match self {
            UsageError::ConflictingDirectives => CONFLICTING_DIRECTIVES@,
            UsageError::MissingKeyMaterial => MISSING_KEY_MATERIAL@,
        }
    }

    pub fn message(&self) -> (line: String)
        ensures
            line@ == self.message_text(),
    {
        match self {
            UsageError::ConflictingDirectives => CONFLICTING_DIRECTIVES.to_owned(),
            UsageError::MissingKeyMaterial => MISSING_KEY_MATERIAL.to_owned(),
        }
    }
}

impl CipherOperationError {
    /// The line that tells the user about this error.
    pub open spec fn message_text(self) -> Seq<char> {
        match self {
            CipherOperationError::UnsupportedText => UNSUPPORTED_TEXT@,
            CipherOperationError::NotCoprime => NOT_COPRIME@,
            CipherOperationError::PadTooShort => PAD_TOO_SHORT@,
            CipherOperationError::PadOutOfRange => PAD_OUT_OF_RANGE@,
            CipherOperationError::UnsupportedKey => UNSUPPORTED_KEY@,
            CipherOperationError::WrapAroundPair => WRAP_AROUND_PAIR@,
        }
    }

    pub fn message(&self) -> (line: String)
        ensures
            line@ == self.message_text(),
    {
        match self {
            CipherOperationError::UnsupportedText => UNSUPPORTED_TEXT.to_owned(),
            CipherOperationError::NotCoprime => NOT_COPRIME.to_owned(),
            CipherOperationError::PadTooShort => PAD_TOO_SHORT.to_owned(),
            CipherOperationError::PadOutOfRange => PAD_OUT_OF_RANGE.to_owned(),
            CipherOperationError::UnsupportedKey => UNSUPPORTED_KEY.to_owned(),
            CipherOperationError::WrapAroundPair => WRAP_AROUND_PAIR.to_owned(),
        }
    }
}

impl DispatchError {
    /// The line that tells the user about this error: that of the error inside.
    pub open spec fn message_text(self) -> Seq<char> {
        match self {
            DispatchError::Usage(e) => e.message_text(),
            DispatchError::CipherOperation(e) => e.message_text(),
        }
    }

    pub fn message(&self) -> (line: String)
        ensures
            line@ == self.message_text(),
    {
        match self {
            DispatchError::Usage(e) => e.message(),
            DispatchError::CipherOperation(e) => e.message(),
        }
    }
}

} // verus!
