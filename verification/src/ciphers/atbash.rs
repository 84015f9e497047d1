//! The Atbash cipher: the alphabet turned end for end.

use crate::alphabet::{
    all_upper, is_letter, lemma_substituted_identity, lemma_substituted_twice,
    lemma_substituted_upper, substituted,
};
use crate::ciphers::text_view;
use crate::directive::Direction;
use crate::error::CipherOperationError;
use vstd::prelude::*;
use vstd::utf8::is_ascii_chars;

verus! {

/// The place of the letter that stands for the letter at place `v`: as far
/// from the end of the alphabet as `v` is from its start.
pub open spec fn mirror(v: int) -> int {
    25 - v
}

/// What Atbash makes of a text, in either direction: the letters of the
/// text, each replaced by its mirror letter in upper case.
pub open spec fn mirrored(text: Seq<char>) -> Seq<char> {
    substituted(text, |v: int| mirror(v))
}

/// `c` is a letter or a blank.
pub open spec fn is_letter_or_blank(c: char) -> bool {
    is_letter(c) || c == ' '
}

/// Every character of the text is a letter or a blank.
pub open spec fn letters_and_blanks(text: Seq<char>) -> bool {
    forall|i: int| 0 <= i < text.len() ==> is_letter_or_blank(#[trigger] text[i])
}

/// The texts that the cipher works on. Encryption takes any ASCII text and
/// passes over what is no letter; decryption has a rule for letters and
/// blanks only.
pub open spec fn accepts(direction: Direction, text: Seq<char>) -> bool {
    match direction {
        Direction::Encrypt => is_ascii_chars(text),
        Direction::Decrypt => letters_and_blanks(text),
    }
}

/// What the cipher makes of `text` in the given direction.
pub open spec fn applied(direction: Direction, text: Seq<char>) -> Result<
    Seq<char>,
    CipherOperationError,
> {
    if accepts(direction, text) {
        Ok(mirrored(text))
    } else {
        Err(CipherOperationError::UnsupportedText)
    }
}

/// Calls `cryptoys::historical::atbash::encrypt`. Its source lower-cases the
/// text, drops what is not alphabetic, looks each remaining character up
/// among `a` to `z` (and panics on a letter from outside them, which an
/// ASCII text does not hold), replaces place `v` by place `25 - v` and
/// returns the letters in upper case.
#[verifier::external_body]
pub(crate) fn call_encrypt(text: &str) -> (out: String)
    requires
        is_ascii_chars(text@),
    ensures
        out@ == mirrored(text@),
{
    cryptoys::historical::atbash::encrypt(text).to_string()
}

/// Calls `cryptoys::historical::atbash::decrypt`. Its source lower-cases the
/// text, drops the blanks and looks every remaining character up among `a`
/// to `z` (and panics on any other), then replaces place `v` by place
/// `25 - v` and returns the letters in upper case.
#[verifier::external_body]
pub(crate) fn call_decrypt(text: &str) -> (out: String)
    requires
        letters_and_blanks(text@),
    ensures
        out@ == mirrored(text@),
{
    cryptoys::historical::atbash::decrypt(text)
}

/// Tells whether every character of the text is a letter or a blank.
pub fn only_letters_and_blanks(text: &str) -> (b: bool)
    ensures
        b == letters_and_blanks(text@),
{
    let mut ok = true;
    for c in it: text.chars()
        invariant
            it.seq() == text@,
            ok == (forall|j: int| 0 <= j < it.index() ==> is_letter_or_blank(#[trigger] text@[j])),
    {
        if !(('A' <= c && c <= 'Z') || ('a' <= c && c <= 'z') || c == ' ') {
            ok = false;
        }
    }
    ok
}

/// Runs Atbash on `input` in the given direction, or says why the text
/// cannot be worked on.
pub fn apply(direction: Direction, input: &str) -> (r: Result<String, CipherOperationError>)
    ensures
        text_view(r) == applied(direction, input@),
{
    match direction {
        Direction::Encrypt => {
            if input.is_ascii() {
                Ok(call_encrypt(input))
            } else {
                Err(CipherOperationError::UnsupportedText)
            }
        },
        Direction::Decrypt => {
            if only_letters_and_blanks(input) {
                Ok(call_decrypt(input))
            } else {
                Err(CipherOperationError::UnsupportedText)
            }
        },
    }
}

/// Atbash turns every ASCII text into upper-case letters, which it accepts
/// for decryption.
pub proof fn lemma_ciphertext_accepted(text: Seq<char>)
    ensures
        all_upper(mirrored(text)),
        letters_and_blanks(mirrored(text)),
{
    lemma_substituted_upper(text, |v: int| mirror(v));
}

/// Decrypting what was encrypted gives the letters of the text in upper
/// case, for every text.
pub proof fn round_trip_letters(text: Seq<char>)
    ensures
        mirrored(mirrored(text)) == substituted(text, |v: int| v),
{
    lemma_substituted_twice(text, |v: int| mirror(v), |v: int| mirror(v), |v: int| v);
}

/// Decrypting what was encrypted gives the text back, for every text of the
/// cipher's alphabet, the upper-case letters.
pub proof fn round_trip(text: Seq<char>)
    requires
        all_upper(text),
    ensures
        applied(Direction::Encrypt, text) == Ok::<Seq<char>, CipherOperationError>(mirrored(text)),
        applied(Direction::Decrypt, mirrored(text)) == Ok::<Seq<char>, CipherOperationError>(text),
{
    lemma_ciphertext_accepted(text);
    round_trip_letters(text);
    lemma_substituted_identity(text);
}

} // verus!
