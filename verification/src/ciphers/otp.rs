//! The one-time pad of this library: every byte of the text is combined
//! with the pad by exclusive or. The pad must be at least as long as the
//! text; the byte that is combined with each byte of the text is the last
//! one of the pad.

use crate::ciphers::text_view;
use crate::directive::Direction;
use crate::error::CipherOperationError;
use vstd::prelude::*;
use vstd::string::StringSliceAdditionalSpecFns;
use vstd::utf8::is_ascii_chars;

verus! {

/// What the pad makes of one character of an ASCII text: the character
/// whose byte is the exclusive or of the character's byte and the last byte
/// of the pad, and the character zero under an empty pad.
pub open spec fn combine(pad: Seq<u8>, c: char) -> char {
    if pad.len() == 0 {
        '\0'
    } else {
        ((c as u8) ^ pad.last()) as char
    }
}

/// What the pad makes of a text, in either direction.
pub open spec fn combined(pad: Seq<u8>, text: Seq<char>) -> Seq<char> {
    text.map_values(|c: char| combine(pad, c))
}

/// The pads under which an ASCII text stays ASCII: the last byte is below
/// 128.
pub open spec fn keeps_ascii(pad: Seq<u8>) -> bool {
    pad.len() > 0 ==> pad.last() < 128
}

/// The pad can be combined with the text: the text is empty, which every
/// pad leaves empty, or the pad keeps it ASCII.
pub open spec fn combines(pad: Seq<u8>, text: Seq<char>) -> bool {
    text.len() == 0 || keeps_ascii(pad)
}

/// What the cipher makes of `text`, in either direction: an error for a
/// text that is not ASCII, for a pad shorter than the text and for a pad
/// that would turn the text into bytes that are no text, in this order;
/// the combined text otherwise.
pub open spec fn applied(pad: Seq<u8>, text: Seq<char>) -> Result<Seq<char>, CipherOperationError> {
    if !is_ascii_chars(text) {
        Err(CipherOperationError::UnsupportedText)
    } else if pad.len() < text.len() {
        Err(CipherOperationError::PadTooShort)
    } else if !combines(pad, text) {
        Err(CipherOperationError::PadOutOfRange)
    } else {
        Ok(combined(pad, text))
    }
}

/// Calls `cryptoys::key::otp::encrypt`. Its source replaces every byte of
/// the text by its exclusive or with the last byte of the pad, or by zero
/// under an empty pad, and turns the bytes into a string (and panics where
/// they are not UTF-8, which bytes below 128 always are, and no bytes at
/// all).
#[verifier::external_body]
pub(crate) fn call_encrypt(pad: &Vec<u8>, text: &str) -> (out: String)
    requires
        is_ascii_chars(text@),
        combines(pad@, text@),
    ensures
        out@ == combined(pad@, text@),
{
    cryptoys::key::otp::encrypt(pad.clone(), text).to_string()
}

/// Calls `cryptoys::key::otp::decrypt`. Its source does to the ciphertext
/// what the encryption does to the plaintext.
#[verifier::external_body]
pub(crate) fn call_decrypt(pad: &Vec<u8>, text: &str) -> (out: String)
    requires
        is_ascii_chars(text@),
        combines(pad@, text@),
    ensures
        out@ == combined(pad@, text@),
{
    cryptoys::key::otp::decrypt(pad.clone(), text)
}

/// Runs the one-time pad on `input` in the given direction, or says why the
/// pad or the text cannot be worked on.
pub fn apply(direction: Direction, pad: &Vec<u8>, input: &str) -> (r: Result<
    String,
    CipherOperationError,
>)
    ensures
        text_view(r) == applied(pad@, input@),
{
    if !input.is_ascii() {
        return Err(CipherOperationError::UnsupportedText);
    }
    proof {
        vstd::string::is_ascii_spec_bytes(input);
        assert(input.spec_bytes().len() == input@.len());
    }
    let length = input.as_bytes().len();
    if pad.len() < length {
        Err(CipherOperationError::PadTooShort)
    } else if length > 0 && pad[pad.len() - 1] >= 128 {
        Err(CipherOperationError::PadOutOfRange)
    } else {
        match direction {
            Direction::Encrypt => Ok(call_encrypt(pad, input)),
            Direction::Decrypt => Ok(call_decrypt(pad, input)),
        }
    }
}

/// Combining an ASCII character twice with the same byte below 128 gives
/// the character back, and the character in between is ASCII.
pub proof fn lemma_combine_twice(pad: Seq<u8>, c: char)
    requires
        pad.len() > 0,
        pad.last() < 128,
        c <= '\u{7f}',
    ensures
        combine(pad, c) <= '\u{7f}',
        combine(pad, combine(pad, c)) == c,
{
    let k = pad.last();
    let x = c as u8;
    assert(x < 128 && k < 128 ==> (x ^ k) < 128 && ((x ^ k) ^ k) == x) by (bit_vector);
}

/// Decrypting what was encrypted under the same pad gives the text back,
/// for every ASCII text and every pad that is long enough and keeps the
/// text ASCII; the empty text comes back under every pad.
pub proof fn round_trip(pad: Seq<u8>, text: Seq<char>)
    requires
        is_ascii_chars(text),
        text.len() <= pad.len(),
        combines(pad, text),
    ensures
        applied(pad, text) == Ok::<Seq<char>, CipherOperationError>(combined(pad, text)),
        applied(pad, combined(pad, text)) == Ok::<Seq<char>, CipherOperationError>(text),
{
    let cipher = combined(pad, text);
    assert forall|i: int| 0 <= i < text.len() implies #[trigger] cipher[i] <= '\u{7f}'
        && combine(pad, cipher[i]) == text[i] by {
        lemma_combine_twice(pad, text[i]);
    }
    assert(combined(pad, cipher) =~= text);
}

} // verus!
