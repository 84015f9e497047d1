//! What holds of every command, whatever the text.

use crate::alphabet::all_upper;
use crate::ciphers::{
    affine, atbash, caesar, otp, playfair, playfair_laws, rot13, transformed, Cipher,
};
use crate::directive::{planned, Direction, PlanView, Sink, SourceView};
use crate::error::{CipherOperationError, DispatchError, UsageError};
use crate::logic::outcome;
use vstd::prelude::*;
use vstd::utf8::is_ascii_chars;

verus! {

/// The key material is valid for the cipher and long enough for the text.
pub open spec fn key_valid(cipher: Cipher, text: Seq<char>) -> bool {
    match cipher {
        Cipher::Affine { a, .. } => affine::coprime_with_alphabet(a as int),
        Cipher::Playfair { key } => playfair::key_supported(key@),
        Cipher::OneTimePad { pad } => text.len() <= pad@.len() && otp::combines(pad@, text),
        _ => true,
    }
}

/// The text is written in the alphabet of the cipher, so that it can come
/// back: upper-case letters for Atbash and the affine cipher, which return
/// nothing else; any characters for the Caesar cipher and ROT13, which pass
/// over what is no letter; ASCII characters for the one-time pad. Playfair
/// returns lower-case letters and drops every `a`, and reads its own
/// ciphertext pair by pair: its texts are those of `comes_back`.
pub open spec fn in_alphabet(cipher: Cipher, text: Seq<char>) -> bool {
    match cipher {
        Cipher::Atbash => all_upper(text),
        Cipher::Affine { .. } => all_upper(text),
        Cipher::Caesar { .. } => true,
        Cipher::Rot13 => true,
        Cipher::Playfair { key } => playfair_laws::comes_back(text, key@),
        Cipher::OneTimePad { .. } => is_ascii_chars(text),
    }
}

/// Encrypting a text and decrypting the result with the same key material
/// gives the text back: for every cipher, every valid key material and
/// every text of the cipher's alphabet, the empty text among them.
pub proof fn round_trip(cipher: Cipher, text: Seq<char>)
    requires
        key_valid(cipher, text),
        in_alphabet(cipher, text),
    ensures
        transformed(cipher, Direction::Encrypt, text) is Ok,
        transformed(cipher, Direction::Decrypt, transformed(cipher, Direction::Encrypt, text)->Ok_0)
            == Ok::<Seq<char>, CipherOperationError>(text),
{
    match cipher {
        Cipher::Atbash => atbash::round_trip(text),
        Cipher::Affine { a, b } => affine::round_trip(text, a as int, b as int),
        Cipher::Caesar { shift } => caesar::round_trip(text, shift),
        Cipher::Rot13 => rot13::round_trip(text),
        Cipher::Playfair { key } => playfair_laws::round_trip(text, key@),
        Cipher::OneTimePad { pad } => otp::round_trip(pad@, text),
    }
}

/// The empty text comes back from every cipher under every valid key
/// material.
pub proof fn empty_text_round_trip(cipher: Cipher)
    requires
        key_valid(cipher, Seq::empty()),
    ensures
        transformed(cipher, Direction::Encrypt, Seq::empty()) == Ok::<
            Seq<char>,
            CipherOperationError,
        >(Seq::empty()),
        transformed(cipher, Direction::Decrypt, Seq::empty()) == Ok::<
            Seq<char>,
            CipherOperationError,
        >(Seq::empty()),
{
    let empty = Seq::<char>::empty();
    if let Cipher::Playfair { key } = cipher {
        playfair_laws::lemma_empty_comes_back(key@);
    }
    round_trip(cipher, empty);
    match cipher {
        Cipher::Atbash => {
            assert(atbash::mirrored(empty) =~= empty);
        },
        Cipher::Affine { a, b } => {
            assert(affine::encrypted(empty, a as int, b as int) =~= empty);
        },
        Cipher::Caesar { shift } => {
            assert(caesar::encrypted(empty, shift) =~= empty);
        },
        Cipher::Rot13 => {
            assert(rot13::rotated(empty) =~= empty);
        },
        Cipher::Playfair { key } => {},
        Cipher::OneTimePad { pad } => {
            assert(otp::combined(pad@, empty) =~= empty);
        },
    }
}

/// A command with both directives is a usage error, for every cipher and
/// whatever the two paths and the text are: nothing is planned to be read
/// or written.
pub proof fn conflicting_directives_rejected(
    encrypt: Seq<char>,
    decrypt: Seq<char>,
    cipher: Cipher,
    input: Seq<char>,
)
    ensures
        planned(Some(encrypt), Some(decrypt)) == Err::<PlanView, UsageError>(
            UsageError::ConflictingDirectives,
        ),
        outcome(Some(encrypt), Some(decrypt), cipher, input) matches Err(DispatchError::Usage(_)),
{
}

/// A command without a directive reads standard input, encrypts it with
/// its own cipher and writes to standard output. Where the cipher
/// succeeds, what is written is its result and a line feed.
pub proof fn default_path_encrypts_stdin(cipher: Cipher, input: Seq<char>)
    requires
        cipher.has_key_material(),
    ensures
        planned(None, None) == Ok::<PlanView, UsageError>(
            (PlanView {
                direction: Direction::Encrypt,
                source: SourceView::Stdin,
                sink: Sink::Stdout,
            }),
        ),
        outcome(None, None, cipher, input) == (match transformed(cipher, Direction::Encrypt, input) {
            Ok(text) => Ok((Sink::Stdout, text.push('\n'))),
            Err(e) => Err(DispatchError::CipherOperation(e)),
        }),
{
}

/// The affine cipher with a multiplier that is not coprime with the
/// alphabet size gives the error for it, in either direction and whatever
/// the text is.
pub proof fn affine_not_coprime_rejected(direction: Direction, a: i32, b: i32, text: Seq<char>)
    requires
        !affine::coprime_with_alphabet(a as int),
    ensures
        transformed((Cipher::Affine { a, b }), direction, text) == Err::<
            Seq<char>,
            CipherOperationError,
        >(CipherOperationError::NotCoprime),
{
}

/// The one-time pad with a pad shorter than the text gives an error, in
/// either direction: the one for the short pad where the text is ASCII.
pub proof fn short_pad_rejected(direction: Direction, pad: Vec<u8>, text: Seq<char>)
    requires
        pad@.len() < text.len(),
    ensures
        transformed((Cipher::OneTimePad { pad }), direction, text) is Err,
        is_ascii_chars(text) ==> transformed((Cipher::OneTimePad { pad }), direction, text) == Err::<
            Seq<char>,
            CipherOperationError,
        >(CipherOperationError::PadTooShort),
{
}

} // verus!
