//! The affine cipher: the letter at place `v` becomes the letter at place
//! `a * v + b`, counted modulo 26.

use crate::alphabet::{
    all_upper, lemma_substituted_identity, lemma_substituted_twice, lemma_substituted_upper,
    substituted,
};
use crate::ciphers::text_view;
use crate::directive::Direction;
use crate::error::CipherOperationError;
use vstd::arithmetic::div_mod::{
    lemma_add_mod_noop, lemma_mul_mod_noop_left, lemma_mul_mod_noop_right, lemma_small_mod,
    lemma_sub_mod_noop, lemma_sub_mod_noop_right,
};
use vstd::arithmetic::mul::lemma_mul_is_associative;
use vstd::prelude::*;
use vstd::utf8::is_ascii_chars;

verus! {

/// `d` divides both `x` and `y`.
pub open spec fn divides_both(d: int, x: int, y: int) -> bool {
    x % d == 0 && y % d == 0
}

/// No number above one divides both `a` and the alphabet size 26.
pub open spec fn coprime_with_alphabet(a: int) -> bool {
    forall|d: int| 1 < d ==> !#[trigger] divides_both(d, a, 26)
}

/// `x` is below 26 and undoes the multiplication by `a` modulo 26.
pub open spec fn is_inverse(a: int, x: int) -> bool {
    0 <= x < 26 && (a * x) % 26 == 1
}

/// The inverse of `a` modulo 26, which exists where `a` is coprime with 26.
pub open spec fn inverse(a: int) -> int {
    choose|x: int| is_inverse(a, x)
}

/// The place that encryption gives for the letter at place `v`.
pub open spec fn forward(a: int, b: int, v: int) -> int {
    (a * v + b) % 26
}

/// The place that decryption gives for the letter at place `v`.
pub open spec fn backward(a: int, b: int, v: int) -> int {
    (inverse(a) * (v - b)) % 26
}

/// The ciphertext of `text`: its letters, each moved to the place that
/// `forward` gives, in upper case.
pub open spec fn encrypted(text: Seq<char>, a: int, b: int) -> Seq<char> {
    substituted(text, |v: int| forward(a, b, v))
}

/// The plaintext of `text`: its letters, each moved to the place that
/// `backward` gives, in upper case.
pub open spec fn decrypted(text: Seq<char>, a: int, b: int) -> Seq<char> {
    substituted(text, |v: int| backward(a, b, v))
}

/// The coefficients with which the outside functions reckon without a
/// negative or an overflowing value in `i32`: encryption forms `a * v + b`
/// and decryption `x * (v - b)` for places `v` and an inverse `x` below 26.
/// Every pair that was reduced modulo 26 is among them, given that `a` is
/// coprime with 26.
pub open spec fn in_range(a: int, b: int) -> bool {
    &&& 0 < a
    &&& 0 <= b
    &&& 25 * a + b <= i32::MAX
    &&& 25 * b <= i32::MAX
}

/// What the cipher makes of `text` in the given direction: an error for a
/// multiplier that is not coprime with 26 and for a text that is not ASCII,
/// in this order; the transformed text otherwise. Every pair of integers
/// with a coprime `a` is a key.
pub open spec fn applied(direction: Direction, a: int, b: int, text: Seq<char>) -> Result<
    Seq<char>,
    CipherOperationError,
> {
    if !coprime_with_alphabet(a) {
        Err(CipherOperationError::NotCoprime)
    } else if !is_ascii_chars(text) {
        Err(CipherOperationError::UnsupportedText)
    } else {
        match direction {
            Direction::Encrypt => Ok(encrypted(text, a, b)),
            Direction::Decrypt => Ok(decrypted(text, a, b)),
        }
    }
}

/// Calls `cryptoys::historical::affine::encrypt`. Its source lower-cases the
/// text, drops what is not alphabetic, looks each remaining character up
/// among `a` to `z` (and panics on a letter from outside them), replaces
/// place `v` by `(a * v + b) % 26` in `i32` (and panics where that is
/// negative or overflows) and returns the letters in upper case.
#[verifier::external_body]
pub(crate) fn call_encrypt(text: &str, a: i32, b: i32) -> (out: String)
    requires
        is_ascii_chars(text@),
        in_range(a as int, b as int),
    ensures
        out@ == encrypted(text@, a as int, b as int),
{
    cryptoys::historical::affine::encrypt(text, a, b).to_string()
}

/// Calls `cryptoys::historical::affine::decrypt`. Its source takes the
/// inverse `x` of `a` modulo 26 from `modinverse::modinverse` (and panics
/// where there is none), treats the text as the encryption does and replaces
/// place `v` by `x * (v - b)` modulo 26, brought to `0..26`.
#[verifier::external_body]
pub(crate) fn call_decrypt(text: &str, a: i32, b: i32) -> (out: String)
    requires
        is_ascii_chars(text@),
        coprime_with_alphabet(a as int),
        in_range(a as int, b as int),
    ensures
        out@ == decrypted(text@, a as int, b as int),
{
    cryptoys::historical::affine::decrypt(text, a, b)
}

/// The only numbers above one that divide 26 are 2, 13 and 26.
proof fn lemma_divisors_of_alphabet(d: int)
    requires
        1 < d,
        26int % d == 0,
    ensures
        d == 2 || d == 13 || d == 26,
{
    if d > 26 {
        lemma_small_mod(26, d as nat);
    } else {
        let n = d as u8;
        assert(2 <= n <= 26 && 26u8 % n == 0 ==> n == 2 || n == 13 || n == 26) by (bit_vector);
    }
}

/// A number is coprime with 26 exactly when neither 2 nor 13 divides it.
pub proof fn lemma_coprime_by_primes(a: int)
    ensures
        coprime_with_alphabet(a) <==> (a % 2 != 0 && a % 13 != 0),
{
    if coprime_with_alphabet(a) {
        assert(!divides_both(2, a, 26));
        assert(!divides_both(13, a, 26));
    }
    if a % 2 != 0 && a % 13 != 0 {
        assert forall|d: int| 1 < d implies !#[trigger] divides_both(d, a, 26) by {
            if divides_both(d, a, 26) {
                lemma_divisors_of_alphabet(d);
            }
        }
    }
}

/// Tells whether `a` is coprime with the alphabet size.
pub fn is_coprime_with_alphabet(a: i32) -> (b: bool)
    ensures
        b == coprime_with_alphabet(a as int),
{
    proof {
        lemma_coprime_by_primes(a as int);
    }
    let size: i64 = if a < 0 {
        -(a as i64)
    } else {
        a as i64
    };
    size % 2 != 0 && size % 13 != 0
}

/// The coefficient `x` reduced modulo 26: the number in `0..26` that
/// differs from `x` by a multiple of 26.
pub fn reduced(x: i32) -> (r: i32)
    ensures
        r == (x as int) % 26,
{
    let r = x % 26;
    if r < 0 {
        r + 26
    } else {
        r
    }
}

/// Runs the affine cipher on `input` in the given direction, or says why the
/// multiplier or the text cannot be worked on. The coefficients are handed
/// on reduced modulo 26, which changes no letter of the result and keeps
/// the reckoning small.
pub fn apply(direction: Direction, a: i32, b: i32, input: &str) -> (r: Result<
    String,
    CipherOperationError,
>)
    ensures
        text_view(r) == applied(direction, a as int, b as int, input@),
{
    if !is_coprime_with_alphabet(a) {
        Err(CipherOperationError::NotCoprime)
    } else if !input.is_ascii() {
        Err(CipherOperationError::UnsupportedText)
    } else {
        let small_a = reduced(a);
        let small_b = reduced(b);
        proof {
            lemma_reduced_key(input@, a as int, b as int);
        }
        match direction {
            Direction::Encrypt => Ok(call_encrypt(input, small_a, small_b)),
            Direction::Decrypt => Ok(call_decrypt(input, small_a, small_b)),
        }
    }
}

/// A multiplier that is coprime with 26 has an inverse modulo 26.
pub proof fn lemma_inverse_exists(a: int)
    requires
        coprime_with_alphabet(a),
    ensures
        is_inverse(a, inverse(a)),
{
    lemma_coprime_by_primes(a);
    let r = a % 26;
    let x: int = if r == 1 {
        1
    } else if r == 3 {
        9
    } else if r == 5 {
        21
    } else if r == 7 {
        15
    } else if r == 9 {
        3
    } else if r == 11 {
        19
    } else if r == 15 {
        7
    } else if r == 17 {
        23
    } else if r == 19 {
        11
    } else if r == 21 {
        5
    } else if r == 23 {
        17
    } else {
        25
    };
    assert((r * x) % 26 == 1);
    lemma_mul_mod_noop_left(a, x, 26);
    assert(is_inverse(a, x));
}

/// A multiplier has at most one inverse modulo 26.
pub proof fn lemma_inverse_unique(a: int, x: int, y: int)
    requires
        is_inverse(a, x),
        is_inverse(a, y),
    ensures
        x == y,
{
    // x is x * (a * y) and y is (x * a) * y, modulo 26
    lemma_mul_mod_noop_right(x, a * y, 26);
    assert((x * (a * y)) % 26 == x);
    assert(x * a == a * x) by (nonlinear_arith);
    lemma_mul_mod_noop_left(x * a, y, 26);
    assert(((x * a) * y) % 26 == y);
    lemma_mul_is_associative(x, a, y);
}

/// Reducing the coefficients modulo 26 changes neither whether the key is
/// valid nor what either direction makes of a text, and brings the key into
/// the range of the outside functions.
pub proof fn lemma_reduced_key(text: Seq<char>, a: int, b: int)
    requires
        coprime_with_alphabet(a),
    ensures
        coprime_with_alphabet(a % 26),
        in_range(a % 26, b % 26),
        encrypted(text, a % 26, b % 26) == encrypted(text, a, b),
        decrypted(text, a % 26, b % 26) == decrypted(text, a, b),
{
    let ra = a % 26;
    let rb = b % 26;
    lemma_coprime_by_primes(a);
    lemma_coprime_by_primes(ra);
    lemma_inverse_exists(a);
    lemma_inverse_exists(ra);
    let x = inverse(a);
    assert(is_inverse(a, inverse(ra))) by {
        lemma_mul_mod_noop_left(a, inverse(ra), 26);
    }
    lemma_inverse_unique(a, x, inverse(ra));
    assert forall|v: int| #[trigger] forward(ra, rb, v) == forward(a, b, v) by {
        lemma_mul_mod_noop_left(a, v, 26);
        lemma_add_mod_noop(ra * v, rb, 26);
        lemma_add_mod_noop(a * v, b, 26);
    }
    assert forall|v: int| #[trigger] backward(ra, rb, v) == backward(a, b, v) by {
        lemma_sub_mod_noop_right(v, b, 26);
        lemma_mul_mod_noop_right(x, v - rb, 26);
        lemma_mul_mod_noop_right(x, v - b, 26);
    }
    assert(encrypted(text, ra, rb) =~= encrypted(text, a, b));
    assert(decrypted(text, ra, rb) =~= decrypted(text, a, b));
}

/// Decryption undoes encryption on every place of the alphabet, and
/// encryption stays within the alphabet.
pub proof fn lemma_backward_forward(a: int, b: int, v: int)
    requires
        coprime_with_alphabet(a),
    ensures
        0 <= forward(a, b, v) < 26,
        backward(a, b, forward(a, b, v)) == v % 26,
{
    lemma_inverse_exists(a);
    let x = inverse(a);
    let e = forward(a, b, v);
    // e - b is a * v, modulo 26
    lemma_sub_mod_noop(a * v + b, b, 26);
    assert((e - b % 26) % 26 == (a * v) % 26);
    lemma_sub_mod_noop(e, b, 26);
    assert((e - b) % 26 == (a * v) % 26);
    // so x * (e - b) is x * a * v, which is v, modulo 26
    lemma_mul_mod_noop_right(x, e - b, 26);
    lemma_mul_mod_noop_right(x, a * v, 26);
    assert((x * (e - b)) % 26 == (x * (a * v)) % 26);
    lemma_mul_is_associative(x, a, v);
    assert(x * a == a * x) by (nonlinear_arith);
    lemma_mul_mod_noop_left(x * a, v, 26);
    assert((x * (a * v)) % 26 == (1 * v) % 26);
}

/// Decrypting what was encrypted with the same valid coefficients gives the
/// letters of the text in upper case, for every text.
pub proof fn round_trip_letters(text: Seq<char>, a: int, b: int)
    requires
        coprime_with_alphabet(a),
    ensures
        decrypted(encrypted(text, a, b), a, b) == substituted(text, |v: int| v),
{
    assert forall|v: int| 0 <= v < 26 implies 0 <= #[trigger] forward(a, b, v) < 26 && backward(
        a,
        b,
        forward(a, b, v),
    ) == v by {
        lemma_backward_forward(a, b, v);
    }
    lemma_substituted_twice(
        text,
        |v: int| forward(a, b, v),
        |v: int| backward(a, b, v),
        |v: int| v,
    );
}

/// Decrypting what was encrypted with the same valid coefficients gives the
/// text back, for every text of the cipher's alphabet, the upper-case
/// letters.
pub proof fn round_trip(text: Seq<char>, a: int, b: int)
    requires
        coprime_with_alphabet(a),
        all_upper(text),
    ensures
        applied(Direction::Encrypt, a, b, text) == Ok::<Seq<char>, CipherOperationError>(
            encrypted(text, a, b),
        ),
        applied(Direction::Decrypt, a, b, encrypted(text, a, b)) == Ok::<
            Seq<char>,
            CipherOperationError,
        >(text),
{
    assert forall|v: int| 0 <= v < 26 implies 0 <= #[trigger] forward(a, b, v) < 26 by {
        lemma_backward_forward(a, b, v);
    }
    lemma_substituted_upper(text, |v: int| forward(a, b, v));
    round_trip_letters(text, a, b);
    lemma_substituted_identity(text);
}

} // verus!
