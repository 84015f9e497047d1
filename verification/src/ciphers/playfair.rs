//! The Playfair cipher: the letters of the text are taken two by two and
//! each pair is replaced by way of a square of five by five letters, which
//! the key fills.

use crate::alphabet::{is_letter, is_lower, is_upper, letter_index, lower_letter, upper_letter};
use crate::ciphers::text_view;
use crate::directive::Direction;
use crate::error::CipherOperationError;
use vstd::prelude::*;
use vstd::utf8::is_ascii_chars;

verus! {

/// The keys that fill the square with the twenty-five letters it is made
/// for: ASCII characters, no upper-case letter among them. A letter in
/// upper case, or one from beyond ASCII, would take a cell of its own and
/// leave a letter of the alphabet without one.
pub open spec fn key_supported(key: Seq<char>) -> bool {
    forall|i: int| 0 <= i < key.len() ==> #[trigger] key[i] <= '\u{7f}' && !is_upper(key[i])
}

/// `c` has a cell in the square: a lower-case letter other than `j`.
pub open spec fn has_cell(c: char) -> bool {
    is_lower(c) && c != 'j'
}

/// The characters of `s` that have a cell, each where it first occurs.
pub open spec fn first_occurrences(s: Seq<char>) -> Seq<char>
    decreases s.len(),
{
    if s.len() == 0 {
        Seq::empty()
    } else {
        place(first_occurrences(s.drop_last()), s.last())
    }
}

/// The square after `c` was offered to it: `c` takes the next cell if it
/// has one and is not in the square yet.
pub open spec fn place(square: Seq<char>, c: char) -> Seq<char> {
    if has_cell(c) && !square.contains(c) {
        square.push(c)
    } else {
        square
    }
}

/// The letters `a` to `z`.
pub open spec fn lower_alphabet() -> Seq<char> {
    Seq::new(26, |i: int| lower_letter(i))
}

/// The square that a key fills, row by row: the letters of the key and
/// after them the rest of the alphabet, each where it first occurs.
pub open spec fn key_square(key: Seq<char>) -> Seq<char> {
    first_occurrences(key + lower_alphabet())
}

/// A letter in lower case; any other character as it is.
pub open spec fn to_lower(c: char) -> char {
    if is_upper(c) {
        lower_letter(letter_index(c))
    } else {
        c
    }
}

/// The letters of a text, in lower case.
pub open spec fn lower_letters(text: Seq<char>) -> Seq<char> {
    text.filter(|c: char| is_letter(c)).map_values(|c: char| to_lower(c))
}

/// What the first `n` of the letters become before they are paired: `j`
/// becomes `i`, and any other letter that the same letter follows is
/// followed by the filler `a`.
pub open spec fn spaced(letters: Seq<char>, n: int) -> Seq<char>
    decreases n,
{
    if n <= 0 {
        Seq::empty()
    } else {
        let before = spaced(letters, n - 1);
        let c = letters[n - 1];
        if c == 'j' {
            before.push('i')
        } else if n < letters.len() && letters[n] == c {
            before.push(c).push('a')
        } else {
            before.push(c)
        }
    }
}

/// The letters of a text as they are paired: spaced, and filled up with
/// one more `a` where their number is odd. The pairs are the letters at
/// `0` and `1`, at `2` and `3`, and so on.
pub open spec fn paired(text: Seq<char>) -> Seq<char> {
    let letters = lower_letters(text);
    let stream = spaced(letters, letters.len() as int);
    if stream.len() % 2 == 1 {
        stream.push('a')
    } else {
        stream
    }
}

/// Undoing a pair in the cells `i` and `j`, counted row by row, steps off
/// the square: the pair shares a column and one of the two is in the top
/// row, or it shares a row only and one of the two is in the left column.
pub open spec fn wraps(i: int, j: int) -> bool {
    if i % 5 == j % 5 {
        i / 5 == 0 || j / 5 == 0
    } else if i / 5 == j / 5 {
        i % 5 == 0 || j % 5 == 0
    } else {
        false
    }
}

/// The pair at `k` of the paired letters can be undone without stepping
/// off the square.
pub open spec fn pair_undoable(square: Seq<char>, pairs: Seq<char>, k: int) -> bool {
    !wraps(square.index_of(pairs[2 * k]), square.index_of(pairs[2 * k + 1]))
}

/// Every pair of the text can be undone under the key.
pub open spec fn undoable(text: Seq<char>, key: Seq<char>) -> bool {
    forall|k: int|
        0 <= k && 2 * k + 1 < paired(text).len() ==> #[trigger] pair_undoable(
            key_square(key),
            paired(text),
            k,
        )
}

/// The cell whose letter replaces the letter in cell `i`, paired with the
/// letter in cell `j`, when encrypting: one row down in a shared column,
/// one column to the right in a shared row, both starting over at the
/// edge; otherwise the cell in the row of `i` and the column of `j`.
pub open spec fn cell_onward(i: int, j: int) -> int {
    if i % 5 == j % 5 {
        (i + 5) % 25
    } else if i / 5 == j / 5 {
        i - i % 5 + (i % 5 + 1) % 5
    } else {
        i - i % 5 + j % 5
    }
}

/// The cell whose letter replaces the letter in cell `i`, paired with the
/// letter in cell `j`, when decrypting a pair that does not wrap: one row
/// up in a shared column, one column to the left in a shared row; otherwise
/// the cell in the row of `i` and the column of `j`.
pub open spec fn cell_back(i: int, j: int) -> int {
    if i % 5 == j % 5 {
        i - 5
    } else if i / 5 == j / 5 {
        i - 1
    } else {
        i - i % 5 + j % 5
    }
}

/// The place of the letter that the letter at place `n` is paired with.
pub open spec fn partner(n: int) -> int {
    if n % 2 == 0 {
        n + 1
    } else {
        n - 1
    }
}

/// The paired letters, each replaced by the letter in the cell that `step`
/// gives for its own cell and the cell of its partner.
pub open spec fn replaced(
    square: Seq<char>,
    pairs: Seq<char>,
    step: spec_fn(int, int) -> int,
) -> Seq<char> {
    Seq::new(
        pairs.len(),
        |n: int| square[step(square.index_of(pairs[n]), square.index_of(pairs[partner(n)]))],
    )
}

/// A lower-case letter in upper case; any other character as it is.
pub open spec fn to_upper(c: char) -> char {
    if is_lower(c) {
        upper_letter(letter_index(c))
    } else {
        c
    }
}

/// The paired letters of `text`, each replaced as the encryption does.
pub open spec fn moved_onward(text: Seq<char>, key: Seq<char>) -> Seq<char> {
    replaced(key_square(key), paired(text), |i: int, j: int| cell_onward(i, j))
}

/// The paired letters of `text`, each replaced as the decryption does.
pub open spec fn moved_back(text: Seq<char>, key: Seq<char>) -> Seq<char> {
    replaced(key_square(key), paired(text), |i: int, j: int| cell_back(i, j))
}

/// The ciphertext of `text` under `key`: the paired letters, each replaced
/// by way of the square, in upper case.
pub open spec fn encrypted(text: Seq<char>, key: Seq<char>) -> Seq<char> {
    moved_onward(text, key).map_values(|c: char| to_upper(c))
}

/// The plaintext of `text` under `key`, where every pair can be undone: the
/// paired letters, each replaced by way of the square, in lower case and
/// without any `a`, which may be a filler.
pub open spec fn decrypted(text: Seq<char>, key: Seq<char>) -> Seq<char> {
    moved_back(text, key).filter(|c: char| c != 'a')
}

/// What the cipher makes of `text` in the given direction: an error for a
/// key that is not supported, for a text that is not ASCII and, when
/// decrypting, for a pair that cannot be undone, in this order; the
/// replaced letters otherwise.
pub open spec fn applied(direction: Direction, key: Seq<char>, text: Seq<char>) -> Result<
    Seq<char>,
    CipherOperationError,
> {
    if !key_supported(key) {
        Err(CipherOperationError::UnsupportedKey)
    } else if !is_ascii_chars(text) {
        Err(CipherOperationError::UnsupportedText)
    } else {
        match direction {
            Direction::Encrypt => Ok(encrypted(text, key)),
            Direction::Decrypt => if undoable(text, key) {
                Ok(decrypted(text, key))
            } else {
                Err(CipherOperationError::WrapAroundPair)
            },
        }
    }
}

/// Calls `cryptoys::historical::playfair::encrypt`. Its source fills the
/// square as `key_square` says, provided that the key holds no alphabetic
/// character but `a` to `z`; it pairs the letters of the text as `paired`
/// says and looks each of them up in the square (and panics on a letter
/// from outside `a` to `z`, which an ASCII text does not hold). A pair in
/// one column moves one row down, a pair in one row one column to the
/// right, both modulo 5; any other pair swaps its columns. The letters
/// come back in upper case.
#[verifier::external_body]
pub(crate) fn call_encrypt(text: &str, key: &str) -> (out: String)
    requires
        is_ascii_chars(text@),
        key_supported(key@),
    ensures
        out@ == encrypted(text@, key@),
{
    cryptoys::historical::playfair::encrypt(text, key)
}

/// Calls `cryptoys::historical::playfair::decrypt`. Its source fills the
/// square and pairs the letters as the encryption does. For a pair in one
/// column it subtracts one from both row numbers, for a pair in one row
/// from both column numbers, in `u8` (and panics below zero); any other
/// pair swaps its columns. Of the letters it drops every `a`.
#[verifier::external_body]
pub(crate) fn call_decrypt(text: &str, key: &str) -> (out: String)
    requires
        is_ascii_chars(text@),
        key_supported(key@),
        undoable(text@, key@),
    ensures
        out@ == decrypted(text@, key@),
{
    cryptoys::historical::playfair::decrypt(text, key)
}

/// Tells whether the key is supported.
pub fn is_key_supported(key: &str) -> (b: bool)
    ensures
        b == key_supported(key@),
{
    let mut ok = true;
    for c in it: key.chars()
        invariant
            it.seq() == key@,
            ok == (forall|j: int|
                0 <= j < it.index() ==> #[trigger] key@[j] <= '\u{7f}' && !is_upper(key@[j])),
    {
        if c > '\u{7f}' || ('A' <= c && c <= 'Z') {
            ok = false;
        }
    }
    ok
}

/// The cell of `c` in the square, counted row by row, if it has one there.
pub fn find_cell(square: &Vec<char>, c: char) -> (cell: Option<usize>)
    ensures
        cell matches Some(i) ==> i < square@.len() && square@[i as int] == c,
        cell is None ==> !square@.contains(c),
{
    let mut i: usize = 0;
    while i < square.len()
        invariant
            i <= square@.len(),
            forall|j: int| 0 <= j < i ==> square@[j] != c,
        decreases square@.len() - i,
    {
        if square[i] == c {
            return Some(i);
        }
        i += 1;
    }
    None
}

/// Offers `c` to the square.
fn offer(square: &mut Vec<char>, c: char)
    ensures
        final(square)@ == place(old(square)@, c),
{
    if 'a' <= c && c <= 'z' && c != 'j' && find_cell(square, c).is_none() {
        square.push(c);
    }
}

/// The square that the key fills.
pub fn square_of(key: &str) -> (square: Vec<char>)
    ensures
        square@ == key_square(key@),
{
    let mut square: Vec<char> = Vec::new();
    for c in it: key.chars()
        invariant
            it.seq() == key@,
            square@ == first_occurrences(key@.take(it.index())),
    {
        proof {
            let n = it.index();
            assert(key@.take(n + 1).drop_last() =~= key@.take(n));
        }
        offer(&mut square, c);
    }
    assert(key@.take(key@.len() as int) =~= key@);
    assert(key@ + lower_alphabet().take(0) =~= key@);
    let mut i: u8 = 0;
    while i < 26
        invariant
            i <= 26,
            square@ == first_occurrences(key@ + lower_alphabet().take(i as int)),
        decreases 26 - i,
    {
        proof {
            let longer = key@ + lower_alphabet().take(i + 1);
            assert(longer.drop_last() =~= key@ + lower_alphabet().take(i as int));
            assert(longer.last() == lower_letter(i as int));
        }
        offer(&mut square, (i + 97) as char);
        i += 1;
    }
    assert(lower_alphabet().take(26) =~= lower_alphabet());
    square
}

/// The letters of the text, in lower case.
pub fn letters_of(text: &str) -> (letters: Vec<char>)
    ensures
        letters@ == lower_letters(text@),
{
    let mut letters: Vec<char> = Vec::new();
    for c in it: text.chars()
        invariant
            it.seq() == text@,
            letters@ == lower_letters(text@.take(it.index())),
    {
        proof {
            let n = it.index();
            reveal(Seq::filter);
            assert(text@.take(n + 1).drop_last() =~= text@.take(n));
            assert(text@.take(n + 1).last() == c);
            if is_letter(c) {
                assert(lower_letters(text@.take(n + 1)) =~= lower_letters(text@.take(n)).push(
                    to_lower(c),
                ));
            }
        }
        if 'A' <= c && c <= 'Z' {
            letters.push(((c as u8) + 32) as char);
        } else if 'a' <= c && c <= 'z' {
            letters.push(c);
        }
    }
    assert(text@.take(text@.len() as int) =~= text@);
    letters
}

/// The letters of the text as they are paired.
pub fn pairs_of(text: &str) -> (pairs: Vec<char>)
    ensures
        pairs@ == paired(text@),
{
    let letters = letters_of(text);
    let mut pairs: Vec<char> = Vec::new();
    let mut n: usize = 0;
    while n < letters.len()
        invariant
            n <= letters@.len(),
            pairs@ == spaced(letters@, n as int),
        decreases letters@.len() - n,
    {
        let c = letters[n];
        if c == 'j' {
            pairs.push('i');
        } else {
            pairs.push(c);
            if n + 1 < letters.len() && letters[n + 1] == c {
                pairs.push('a');
            }
        }
        n += 1;
    }
    if pairs.len() % 2 == 1 {
        pairs.push('a');
    }
    pairs
}

/// The characters that `place` puts into a square are not in it yet.
pub proof fn lemma_first_occurrences_distinct(s: Seq<char>)
    ensures
        first_occurrences(s).no_duplicates(),
    decreases s.len(),
{
    if s.len() > 0 {
        lemma_first_occurrences_distinct(s.drop_last());
    }
}

/// A character with a cell that occurs in `s` occurs among its first
/// occurrences.
proof fn lemma_first_occurrences_complete(s: Seq<char>, c: char)
    requires
        has_cell(c),
        s.contains(c),
    ensures
        first_occurrences(s).contains(c),
    decreases s.len(),
{
    let i = choose|i: int| 0 <= i < s.len() && s[i] == c;
    let before = first_occurrences(s.drop_last());
    if i < s.len() - 1 {
        assert(s.drop_last()[i] == c);
        lemma_first_occurrences_complete(s.drop_last(), c);
        let j = choose|j: int| 0 <= j < before.len() && before[j] == c;
        assert(place(before, s.last())[j] == c);
    } else if !before.contains(c) {
        assert(before.push(c)[before.len() as int] == c);
    } else {
        let j = choose|j: int| 0 <= j < before.len() && before[j] == c;
        assert(place(before, s.last())[j] == c);
    }
}

/// The square of every key holds every letter that has a cell.
pub proof fn lemma_square_complete(key: Seq<char>, c: char)
    requires
        has_cell(c),
    ensures
        key_square(key).contains(c),
{
    let whole = key + lower_alphabet();
    assert(whole[key.len() + letter_index(c)] == c);
    lemma_first_occurrences_complete(whole, c);
}

/// What the letters of a text become before they are paired has a cell,
/// each of them.
proof fn lemma_spaced_have_cells(letters: Seq<char>, n: int, i: int)
    requires
        0 <= n <= letters.len(),
        forall|m: int| 0 <= m < letters.len() ==> is_lower(#[trigger] letters[m]),
        0 <= i < spaced(letters, n).len(),
    ensures
        has_cell(spaced(letters, n)[i]),
    decreases n,
{
    if n > 0 {
        let before = spaced(letters, n - 1);
        if i < before.len() {
            lemma_spaced_have_cells(letters, n - 1, i);
        } else {
            assert(is_lower(letters[n - 1]));
        }
    }
}

/// The paired letters of every text come two by two, and the square of
/// every key holds each of them.
pub proof fn lemma_pairs_in_square(text: Seq<char>, key: Seq<char>)
    ensures
        paired(text).len() % 2 == 0,
        forall|i: int|
            0 <= i < paired(text).len() ==> key_square(key).contains(#[trigger] paired(text)[i]),
{
    let letters = lower_letters(text);
    let kept = text.filter(|c: char| is_letter(c));
    assert forall|m: int| 0 <= m < letters.len() implies is_lower(#[trigger] letters[m]) by {
        text.lemma_filter_pred(|c: char| is_letter(c), m);
        assert(is_letter(kept[m]));
    }
    let stream = spaced(letters, letters.len() as int);
    assert forall|i: int| 0 <= i < paired(text).len() implies key_square(key).contains(
        #[trigger] paired(text)[i],
    ) by {
        if i < stream.len() {
            lemma_spaced_have_cells(letters, letters.len() as int, i);
        }
        lemma_square_complete(key, paired(text)[i]);
    }
}

/// Tells whether every pair of the text can be undone under the key.
pub fn can_undo(text: &str, key: &str) -> (b: bool)
    ensures
        b == undoable(text@, key@),
{
    let square = square_of(key);
    let pairs = pairs_of(text);
    proof {
        lemma_first_occurrences_distinct(key@ + lower_alphabet());
        lemma_pairs_in_square(text@, key@);
    }
    let n = pairs.len();
    let mut at: usize = 0;
    while at < n
        invariant
            square@ == key_square(key@),
            square@.no_duplicates(),
            pairs@ == paired(text@),
            forall|i: int| 0 <= i < pairs@.len() ==> square@.contains(#[trigger] pairs@[i]),
            n == pairs@.len(),
            n % 2 == 0,
            at % 2 == 0,
            at <= n,
            forall|m: int| 0 <= m && 2 * m < at ==> #[trigger] pair_undoable(square@, pairs@, m),
        decreases n - at,
    {
        let ghost k = at as int / 2;
        assert(square@.contains(pairs@[at as int]) && square@.contains(pairs@[at + 1]));
        let i = find_cell(&square, pairs[at]).unwrap();
        let j = find_cell(&square, pairs[at + 1]).unwrap();
        assert(square@.index_of(pairs@[2 * k]) == i);
        assert(square@.index_of(pairs@[2 * k + 1]) == j);
        let steps_off = if i % 5 == j % 5 {
            i / 5 == 0 || j / 5 == 0
        } else if i / 5 == j / 5 {
            i % 5 == 0 || j % 5 == 0
        } else {
            false
        };
        if steps_off {
            assert(!pair_undoable(square@, pairs@, k));
            return false;
        }
        assert(pair_undoable(square@, pairs@, k));
        at += 2;
    }
    true
}

/// Runs the Playfair cipher on `input` in the given direction, or says why
/// the key or the text cannot be worked on.
pub fn apply(direction: Direction, key: &str, input: &str) -> (r: Result<
    String,
    CipherOperationError,
>)
    ensures
        text_view(r) == applied(direction, key@, input@),
{
    if !is_key_supported(key) {
        Err(CipherOperationError::UnsupportedKey)
    } else if !input.is_ascii() {
        Err(CipherOperationError::UnsupportedText)
    } else {
        match direction {
            Direction::Encrypt => Ok(call_encrypt(input, key)),
            Direction::Decrypt => {
                if can_undo(input, key) {
                    Ok(call_decrypt(input, key))
                } else {
                    Err(CipherOperationError::WrapAroundPair)
                }
            },
        }
    }
}

} // verus!
