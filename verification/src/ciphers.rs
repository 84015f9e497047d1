//! The cipher operations, each behind a contract of its own, and the one
//! entry through which a command reaches them.

use crate::directive::Direction;
use crate::error::CipherOperationError;
use vstd::prelude::*;

pub mod affine;
pub mod atbash;
pub mod caesar;
pub mod otp;
pub mod playfair;
pub mod playfair_laws;
pub mod rot13;

verus! {

/// A cipher together with its key material.
#[derive(Clone, Debug, PartialEq, Eq)]
pub enum Cipher {
    Atbash,
    /// The letter at place `v` goes to place `a * v + b`, modulo 26.
    Affine { a: i32, b: i32 },
    Caesar { shift: u8 },
    Rot13,
    Playfair { key: String },
    OneTimePad { pad: Vec<u8> },
}

/// The text of a cipher's result, or its error, with the text viewed.
pub open spec fn text_view(r: Result<String, CipherOperationError>) -> Result<
    Seq<char>,
    CipherOperationError,
> {
    match r {
        Ok(text) => Ok(text@),
        Err(e) => Err(e),
    }
}

/// What a cipher makes of a text in the given direction.
pub open spec fn transformed(cipher: Cipher, direction: Direction, text: Seq<char>) -> Result<
    Seq<char>,
    CipherOperationError,
> {
    match cipher {
        Cipher::Atbash => atbash::applied(direction, text),
        Cipher::Affine { a, b } => affine::applied(direction, a as int, b as int, text),
        Cipher::Caesar { shift } => Ok(caesar::applied(direction, shift, text)),
        Cipher::Rot13 => Ok(rot13::rotated(text)),
        Cipher::Playfair { key } => playfair::applied(direction, key@, text),
        Cipher::OneTimePad { pad } => otp::applied(pad@, text),
    }
}

impl Cipher {
    /// The cipher has the key material it needs: every cipher but a
    /// one-time pad without a single byte.
    pub open spec fn has_key_material(self) -> bool {
        match self {
            Cipher::OneTimePad { pad } => pad@.len() > 0,
            _ => true,
        }
    }

    /// Tells whether the cipher has the key material it needs.
    pub fn key_material_present(&self) -> (b: bool)
        ensures
            b == self.has_key_material(),
    {
        match self {
            Cipher::OneTimePad { pad } => pad.len() > 0,
            _ => true,
        }
    }
}

/// Runs one operation of one cipher on `input`: the text that the cipher
/// makes of it, or the reason why the cipher cannot work on the key
/// material or the text.
pub fn invoke(cipher: &Cipher, direction: Direction, input: &str) -> (r: Result<
    String,
    CipherOperationError,
>)
    ensures
        text_view(r) == transformed(*cipher, direction, input@),
{
    match cipher {
        Cipher::Atbash => atbash::apply(direction, input),
        Cipher::Affine { a, b } => affine::apply(direction, *a, *b, input),
        Cipher::Caesar { shift } => Ok(caesar::apply(direction, *shift, input)),
        Cipher::Rot13 => Ok(rot13::apply(direction, input)),
        Cipher::Playfair { key } => playfair::apply(direction, key.as_str(), input),
        Cipher::OneTimePad { pad } => otp::apply(direction, pad, input),
    }
}

} // verus!
