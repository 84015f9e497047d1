//! ROT13: the Caesar cipher with the shift fixed at half the alphabet, which
//! makes it its own inverse.

use crate::alphabet::{lemma_shifted_back, shifted};
use crate::directive::Direction;
use vstd::prelude::*;

verus! {

/// What ROT13 makes of `text`, in either direction: each letter moved
/// thirteen places onward.
pub open spec fn rotated(text: Seq<char>) -> Seq<char> {
    shifted(text, 13)
}

/// Calls `cryptoys::historical::rot13::encrypt`. Its source maps the text
/// character by character: a letter moves 13 places within its case, modulo
/// 26, and every other character stays. It cannot fail.
#[verifier::external_body]
pub(crate) fn call_encrypt(text: &str) -> (out: String)
    ensures
        out@ == rotated(text@),
{
    cryptoys::historical::rot13::encrypt(text).to_string()
}

/// Calls `cryptoys::historical::rot13::decrypt`. Its source is the Caesar
/// encryption with shift 13.
#[verifier::external_body]
pub(crate) fn call_decrypt(text: &str) -> (out: String)
    ensures
        out@ == rotated(text@),
{
    cryptoys::historical::rot13::decrypt(text)
}

/// Runs ROT13 on `input` in the given direction. Every text is accepted.
pub fn apply(direction: Direction, input: &str) -> (out: String)
    ensures
        out@ == rotated(input@),
{
    match direction {
        Direction::Encrypt => call_encrypt(input),
        Direction::Decrypt => call_decrypt(input),
    }
}

/// Applying ROT13 twice gives the text back, for every text.
pub proof fn round_trip(text: Seq<char>)
    ensures
        rotated(rotated(text)) == text,
{
    lemma_shifted_back(text, 13, 13);
}

} // verus!
