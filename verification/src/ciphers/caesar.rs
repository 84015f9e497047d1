//! The Caesar cipher: every letter moves a fixed number of places along the
//! alphabet.

use crate::alphabet::{lemma_shifted_back, shifted};
use crate::directive::Direction;
use vstd::prelude::*;

verus! {

/// The ciphertext of `text`: each letter moved `shift` places onward.
pub open spec fn encrypted(text: Seq<char>, shift: u8) -> Seq<char> {
    shifted(text, shift as int)
}

/// The plaintext of `text`: each letter moved on by what `shift` leaves of a
/// full turn of the alphabet.
pub open spec fn decrypted(text: Seq<char>, shift: u8) -> Seq<char> {
    shifted(text, 26 - shift as int % 26)
}

/// What the cipher makes of `text` in the given direction.
pub open spec fn applied(direction: Direction, shift: u8, text: Seq<char>) -> Seq<char> {
    match direction {
        Direction::Encrypt => encrypted(text, shift),
        Direction::Decrypt => decrypted(text, shift),
    }
}

/// Calls `cryptoys::historical::caesar::encrypt`. Its source maps the text
/// character by character: a letter `A` to `Z` or `a` to `z` moves `shift`
/// places within its case, modulo 26, and every other character stays. It
/// cannot fail.
#[verifier::external_body]
pub(crate) fn call_encrypt(text: &str, shift: u8) -> (out: String)
    ensures
        out@ == encrypted(text@, shift),
{
    cryptoys::historical::caesar::encrypt(text, shift).to_string()
}

/// Calls `cryptoys::historical::caesar::decrypt`. Its source encrypts with
/// the shift `26 - shift % 26`.
#[verifier::external_body]
pub(crate) fn call_decrypt(text: &str, shift: u8) -> (out: String)
    ensures
        out@ == decrypted(text@, shift),
{
    cryptoys::historical::caesar::decrypt(text, shift)
}

/// Runs the Caesar cipher on `input` in the given direction. Every text and
/// every shift is accepted.
pub fn apply(direction: Direction, shift: u8, input: &str) -> (out: String)
    ensures
        out@ == applied(direction, shift, input@),
{
    match direction {
        Direction::Encrypt => call_encrypt(input, shift),
        Direction::Decrypt => call_decrypt(input, shift),
    }
}

/// Decrypting what was encrypted with the same shift gives the text back,
/// for every text and every shift.
pub proof fn round_trip(text: Seq<char>, shift: u8)
    ensures
        decrypted(encrypted(text, shift), shift) == text,
{
    lemma_shifted_back(text, shift as int, 26 - shift as int % 26);
}

} // verus!
