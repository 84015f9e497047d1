//! The twenty-six letter alphabet that the letter ciphers work on.

use vstd::prelude::*;

verus! {

/// `c` is one of `A` to `Z`.
pub open spec fn is_upper(c: char) -> bool {
    'A' <= c <= 'Z'
}

/// `c` is one of `a` to `z`.
pub open spec fn is_lower(c: char) -> bool {
    'a' <= c <= 'z'
}

/// `c` is a letter of the alphabet, in either case.
pub open spec fn is_letter(c: char) -> bool {
    is_upper(c) || is_lower(c)
}

/// The place of a letter in the alphabet: `0` for `a` and `A`, `25` for `z` and `Z`.
pub open spec fn letter_index(c: char) -> int
    recommends
        is_letter(c),
{
    if is_upper(c) {
        c as int - 'A' as int
    } else {
        c as int - 'a' as int
    }
}

/// The upper-case letter at place `i` of the alphabet.
pub open spec fn upper_letter(i: int) -> char
    recommends
        0 <= i < 26,
{
    ((i + 'A' as int) as u8) as char
}

/// The lower-case letter at place `i` of the alphabet.
pub open spec fn lower_letter(i: int) -> char
    recommends
        0 <= i < 26,
{
    ((i + 'a' as int) as u8) as char
}

/// A letter moved `k` places along the alphabet, keeping its case and
/// starting over after the last letter; any other character as it is.
pub open spec fn shift_letter(c: char, k: int) -> char {
    if is_upper(c) {
        upper_letter((letter_index(c) + k) % 26)
    } else if is_lower(c) {
        lower_letter((letter_index(c) + k) % 26)
    } else {
        c
    }
}

/// A text with each of its letters moved `k` places along the alphabet.
pub open spec fn shifted(text: Seq<char>, k: int) -> Seq<char> {
    text.map_values(|c: char| shift_letter(c, k))
}

/// What a letter-substitution cipher makes of a text: the letters of the
/// text in their order, each replaced by the upper-case letter at the place
/// that `rule` gives for its own place. Characters that are no letters are
/// left out.
pub open spec fn substituted(text: Seq<char>, rule: spec_fn(int) -> int) -> Seq<char> {
    text.filter(|c: char| is_letter(c)).map_values(|c: char| upper_letter(rule(letter_index(c))))
}

/// Every character of the text is an upper-case letter.
pub open spec fn all_upper(text: Seq<char>) -> bool {
    forall|i: int| 0 <= i < text.len() ==> is_upper(#[trigger] text[i])
}

/// Moving a letter `k` places and then `m` places, where `k + m` is a
/// multiple of the alphabet size, gives the letter back.
pub proof fn lemma_shift_back(c: char, k: int, m: int)
    requires
        (k + m) % 26 == 0,
    ensures
        shift_letter(shift_letter(c, k), m) == c,
{
}

/// Shifting a text and then shifting it by what is left of a full turn of the
/// alphabet gives the text back.
pub proof fn lemma_shifted_back(text: Seq<char>, k: int, m: int)
    requires
        (k + m) % 26 == 0,
    ensures
        shifted(shifted(text, k), m) == text,
{
    assert forall|i: int| 0 <= i < text.len() implies shifted(shifted(text, k), m)[i]
        == text[i] by {
        lemma_shift_back(text[i], k, m);
    }
    assert(shifted(shifted(text, k), m) =~= text);
}

/// Filtering keeps a sequence as it is when every element passes.
pub proof fn lemma_filter_all<A>(s: Seq<A>, pred: spec_fn(A) -> bool)
    requires
        forall|i: int| 0 <= i < s.len() ==> pred(#[trigger] s[i]),
    ensures
        s.filter(pred) == s,
    decreases s.len(),
{
    reveal(Seq::filter);
    if s.len() > 0 {
        lemma_filter_all(s.drop_last(), pred);
        assert(s.drop_last().push(s.last()) =~= s);
    }
}

/// A substitution whose rule stays within the alphabet gives upper-case
/// letters only, one for each letter of the text.
pub proof fn lemma_substituted_upper(text: Seq<char>, rule: spec_fn(int) -> int)
    requires
        forall|v: int| 0 <= v < 26 ==> 0 <= #[trigger] rule(v) < 26,
    ensures
        all_upper(substituted(text, rule)),
        substituted(text, rule).len() == text.filter(|c: char| is_letter(c)).len(),
{
    let letters = text.filter(|c: char| is_letter(c));
    assert forall|i: int| 0 <= i < letters.len() implies is_upper(
        #[trigger] substituted(text, rule)[i],
    ) by {
        text.lemma_filter_pred(|c: char| is_letter(c), i);
        let v = letter_index(letters[i]);
        assert(0 <= rule(v) < 26);
    }
}

/// Substituting by one rule and then by a second is substituting by the two
/// rules in a row, where the first rule stays within the alphabet.
pub proof fn lemma_substituted_twice(
    text: Seq<char>,
    first: spec_fn(int) -> int,
    second: spec_fn(int) -> int,
    both: spec_fn(int) -> int,
)
    requires
        forall|v: int| 0 <= v < 26 ==> 0 <= #[trigger] first(v) < 26,
        forall|v: int| 0 <= v < 26 ==> second(first(v)) == #[trigger] both(v),
    ensures
        substituted(substituted(text, first), second) == substituted(text, both),
{
    let letters = text.filter(|c: char| is_letter(c));
    let once = substituted(text, first);
    lemma_substituted_upper(text, first);
    lemma_filter_all(once, |c: char| is_letter(c));
    assert forall|i: int| 0 <= i < letters.len() implies #[trigger] substituted(once, second)[i]
        == substituted(text, both)[i] by {
        text.lemma_filter_pred(|c: char| is_letter(c), i);
        let v = letter_index(letters[i]);
        assert(0 <= first(v) < 26);
        assert(letter_index(upper_letter(first(v))) == first(v));
        assert(second(first(v)) == both(v));
    }
    assert(substituted(once, second) =~= substituted(text, both));
}

/// Substituting each letter by itself leaves a text of upper-case letters
/// as it is.
pub proof fn lemma_substituted_identity(text: Seq<char>)
    requires
        all_upper(text),
    ensures
        substituted(text, |v: int| v) == text,
{
    lemma_filter_all(text, |c: char| is_letter(c));
    assert(substituted(text, |v: int| v) =~= text);
}

} // verus!
