//! Why a text comes back from the Playfair cipher, and which texts do.

use crate::alphabet::{is_letter, is_upper, letter_index, lemma_filter_all, lower_letter};
use crate::ciphers::playfair::{
    applied, cell_back, cell_onward, encrypted, first_occurrences, has_cell,
    key_square, key_supported, lemma_first_occurrences_distinct, lemma_pairs_in_square,
    lemma_square_complete, lower_alphabet, lower_letters, moved_back, moved_onward,
    pair_undoable, paired, partner, spaced, to_lower, undoable, wraps,
};
use crate::directive::Direction;
use crate::error::CipherOperationError;
use vstd::prelude::*;

verus! {

/// Every character of the text is a lower-case letter other than `a`,
/// which the decryption drops, and `j`, which the encryption turns into
/// `i`.
pub open spec fn plain(text: Seq<char>) -> bool {
    forall|i: int| 0 <= i < text.len() ==> has_cell(#[trigger] text[i]) && text[i] != 'a'
}

/// No letter of the text is followed by the same letter.
pub open spec fn no_repeat(text: Seq<char>) -> bool {
    forall|n: int| 0 <= n && n + 1 < text.len() ==> #[trigger] text[n] != text[n + 1]
}

/// The texts that come back from the cipher under a key: plain texts whose
/// ciphertext pairs again as it was written, which it does where no letter
/// of it is followed by the same letter, and can be undone pair by pair.
pub open spec fn comes_back(text: Seq<char>, key: Seq<char>) -> bool {
    &&& plain(text)
    &&& no_repeat(encrypted(text, key))
    &&& undoable(encrypted(text, key), key)
}

/// Every character among the first occurrences has a cell.
proof fn lemma_first_occurrences_have_cells(s: Seq<char>)
    ensures
        forall|i: int|
            0 <= i < first_occurrences(s).len() ==> has_cell(#[trigger] first_occurrences(s)[i]),
    decreases s.len(),
{
    if s.len() > 0 {
        lemma_first_occurrences_have_cells(s.drop_last());
        let before = first_occurrences(s.drop_last());
        assert forall|i: int| 0 <= i < first_occurrences(s).len() implies has_cell(
            #[trigger] first_occurrences(s)[i],
        ) by {
            if i < before.len() {
                assert(first_occurrences(s)[i] == before[i]);
            }
        }
    }
}

/// The first `n` letters of the alphabet fill as many cells, less the one
/// that `j` does not get.
proof fn lemma_alphabet_cells(n: int)
    requires
        0 <= n <= 26,
    ensures
        first_occurrences(lower_alphabet().take(n)).len() == (if n <= 9 {
            n
        } else {
            n - 1
        }),
        forall|i: int|
            0 <= i < first_occurrences(lower_alphabet().take(n)).len() ==> letter_index(
                #[trigger] first_occurrences(lower_alphabet().take(n))[i],
            ) < n,
    decreases n,
{
    if n > 0 {
        lemma_alphabet_cells(n - 1);
        lemma_first_occurrences_have_cells(lower_alphabet().take(n - 1));
        assert(lower_alphabet().take(n).drop_last() =~= lower_alphabet().take(n - 1));
        assert(lower_alphabet().take(n).last() == lower_letter(n - 1));
    }
}

/// The square of every key has twenty-five cells, each with a letter of
/// its own, and holds every letter but `j`.
pub proof fn lemma_square(key: Seq<char>)
    ensures
        key_square(key).len() == 25,
        key_square(key).no_duplicates(),
        forall|i: int| 0 <= i < 25 ==> has_cell(#[trigger] key_square(key)[i]),
        forall|i: int| 0 <= i < 25 ==> key_square(key).index_of(#[trigger] key_square(key)[i]) == i,
{
    let square = key_square(key);
    let base = key_square(Seq::empty());
    lemma_first_occurrences_distinct(key + lower_alphabet());
    lemma_first_occurrences_distinct(Seq::<char>::empty() + lower_alphabet());
    lemma_first_occurrences_have_cells(key + lower_alphabet());
    lemma_first_occurrences_have_cells(Seq::<char>::empty() + lower_alphabet());
    assert forall|c: char| square.contains(c) <==> base.contains(c) by {
        if has_cell(c) {
            lemma_square_complete(key, c);
            lemma_square_complete(Seq::empty(), c);
        }
    }
    assert(square.to_set() =~= base.to_set());
    square.unique_seq_to_set();
    base.unique_seq_to_set();
    assert(Seq::<char>::empty() + lower_alphabet() =~= lower_alphabet().take(26));
    lemma_alphabet_cells(26);
}

/// Undoing a pair steps off the square for the one letter exactly when it
/// does for the other.
pub proof fn lemma_wraps_symmetric(i: int, j: int)
    ensures
        wraps(i, j) == wraps(j, i),
{
}

/// The cell in row `r` and column `c` of the square.
spec fn cell(r: int, c: int) -> int {
    5 * r + c
}

/// A pair that was moved onward and does not wrap moves back to where it
/// was, spelled out by rows and columns.
proof fn lemma_back_onward_by_rows(ri: int, ci: int, rj: int, cj: int)
    requires
        0 <= ri < 5,
        0 <= ci < 5,
        0 <= rj < 5,
        0 <= cj < 5,
    ensures
        0 <= cell_onward(cell(ri, ci), cell(rj, cj)) < 25,
        !wraps(cell_onward(cell(ri, ci), cell(rj, cj)), cell_onward(cell(rj, cj), cell(ri, ci)))
            ==> cell_back(
            cell_onward(cell(ri, ci), cell(rj, cj)),
            cell_onward(cell(rj, cj), cell(ri, ci)),
        ) == cell(ri, ci),
{
    let i = cell(ri, ci);
    let j = cell(rj, cj);
    assert(i % 5 == ci && i / 5 == ri);
    assert(j % 5 == cj && j / 5 == rj);
    let next_ri = if ri == 4 {
        0
    } else {
        ri + 1
    };
    let next_rj = if rj == 4 {
        0
    } else {
        rj + 1
    };
    let next_ci = if ci == 4 {
        0
    } else {
        ci + 1
    };
    let next_cj = if cj == 4 {
        0
    } else {
        cj + 1
    };
    if ci == cj {
        assert(cell_onward(i, j) == cell(next_ri, ci));
        assert(cell_onward(j, i) == cell(next_rj, cj));
        assert(cell(next_ri, ci) % 5 == ci && cell(next_ri, ci) / 5 == next_ri);
        assert(cell(next_rj, cj) % 5 == cj && cell(next_rj, cj) / 5 == next_rj);
    } else if ri == rj {
        assert((ci + 1) % 5 == next_ci && (cj + 1) % 5 == next_cj);
        assert(cell_onward(i, j) == cell(ri, next_ci));
        assert(cell_onward(j, i) == cell(rj, next_cj));
        assert(cell(ri, next_ci) % 5 == next_ci && cell(ri, next_ci) / 5 == ri);
        assert(cell(rj, next_cj) % 5 == next_cj && cell(rj, next_cj) / 5 == rj);
    } else {
        assert(cell_onward(i, j) == cell(ri, cj));
        assert(cell_onward(j, i) == cell(rj, ci));
        assert(cell(ri, cj) % 5 == cj && cell(ri, cj) / 5 == ri);
        assert(cell(rj, ci) % 5 == ci && cell(rj, ci) / 5 == rj);
    }
}

/// A pair that was moved onward and does not wrap moves back to where it
/// was.
pub proof fn lemma_back_onward(i: int, j: int)
    requires
        0 <= i < 25,
        0 <= j < 25,
    ensures
        0 <= cell_onward(i, j) < 25,
        !wraps(cell_onward(i, j), cell_onward(j, i)) ==> cell_back(
            cell_onward(i, j),
            cell_onward(j, i),
        ) == i,
{
    assert(i == cell(i / 5, i % 5) && j == cell(j / 5, j % 5));
    lemma_back_onward_by_rows(i / 5, i % 5, j / 5, j % 5);
}

/// Letters that have cells, none followed by itself, are paired as they
/// stand.
proof fn lemma_spaced_as_it_stands(letters: Seq<char>, n: int)
    requires
        0 <= n <= letters.len(),
        forall|i: int| 0 <= i < letters.len() ==> has_cell(#[trigger] letters[i]),
        no_repeat(letters),
    ensures
        spaced(letters, n) == letters.take(n),
    decreases n,
{
    if n > 0 {
        lemma_spaced_as_it_stands(letters, n - 1);
        assert(has_cell(letters[n - 1]));
        if n < letters.len() {
            assert(letters[n - 1] != letters[n - 1 + 1]);
        }
        assert(letters.take(n - 1).push(letters[n - 1]) =~= letters.take(n));
    }
}

/// What a plain text becomes before it is paired is the text with fillers:
/// without any `a` it is the text again.
proof fn lemma_spaced_without_fillers(text: Seq<char>, n: int)
    requires
        0 <= n <= text.len(),
        plain(text),
    ensures
        spaced(text, n).filter(|c: char| c != 'a') == text.take(n),
    decreases n,
{
    reveal(Seq::filter);
    let keep = |c: char| c != 'a';
    if n > 0 {
        lemma_spaced_without_fillers(text, n - 1);
        let before = spaced(text, n - 1);
        let c = text[n - 1];
        assert(has_cell(c) && c != 'a');
        assert(before.push(c).drop_last() =~= before);
        assert(before.push(c).filter(keep) =~= before.filter(keep).push(c));
        assert(before.push(c).push('a').drop_last() =~= before.push(c));
        assert(before.push(c).push('a').filter(keep) =~= before.push(c).filter(keep));
        assert(text.take(n - 1).push(c) =~= text.take(n));
    } else {
        assert(text.take(0) =~= Seq::<char>::empty());
    }
}

/// The paired letters of a plain text, without any `a`, are the text.
proof fn lemma_paired_without_fillers(text: Seq<char>)
    requires
        plain(text),
    ensures
        lower_letters(text) == text,
        paired(text).filter(|c: char| c != 'a') == text,
{
    reveal(Seq::filter);
    let keep = |c: char| c != 'a';
    assert forall|i: int| 0 <= i < text.len() implies is_letter(#[trigger] text[i]) by {
        assert(has_cell(text[i]));
    }
    lemma_filter_all(text, |c: char| is_letter(c));
    assert(lower_letters(text) =~= text) by {
        assert forall|i: int| 0 <= i < text.len() implies to_lower(#[trigger] text[i])
            == text[i] by {
            assert(has_cell(text[i]));
        }
    }
    lemma_spaced_without_fillers(text, text.len() as int);
    assert(text.take(text.len() as int) =~= text);
    let stream = spaced(text, text.len() as int);
    assert(stream.push('a').drop_last() =~= stream);
}

/// The ciphertext of any text is made of upper-case letters, one for each
/// paired letter, and stands for the letters that the square gave.
proof fn lemma_ciphertext_letters(text: Seq<char>, key: Seq<char>)
    ensures
        encrypted(text, key).len() == paired(text).len(),
        vstd::utf8::is_ascii_chars(encrypted(text, key)),
        lower_letters(encrypted(text, key)) == moved_onward(text, key),
        forall|n: int|
            0 <= n < paired(text).len() ==> has_cell(#[trigger] moved_onward(text, key)[n]),
{
    let square = key_square(key);
    let pairs = paired(text);
    let moved = moved_onward(text, key);
    let secret = encrypted(text, key);
    lemma_square(key);
    lemma_pairs_in_square(text, key);
    assert forall|n: int| 0 <= n < pairs.len() implies has_cell(#[trigger] moved[n]) by {
        let m = partner(n);
        assert(0 <= m < pairs.len());
        assert(square.contains(pairs[n]) && square.contains(pairs[m]));
        lemma_back_onward(square.index_of(pairs[n]), square.index_of(pairs[m]));
    }
    assert forall|n: int| 0 <= n < secret.len() implies is_upper(#[trigger] secret[n]) && to_lower(
        secret[n],
    ) == moved[n] by {
        assert(has_cell(moved[n]));
    }
    lemma_filter_all(secret, |c: char| is_letter(c));
    assert(lower_letters(secret) =~= moved);
}

/// The ciphertext of a text that comes back pairs as it was written.
proof fn lemma_ciphertext_pairs(text: Seq<char>, key: Seq<char>)
    requires
        no_repeat(encrypted(text, key)),
    ensures
        paired(encrypted(text, key)) == moved_onward(text, key),
        paired(encrypted(text, key)).len() == paired(text).len(),
{
    let moved = moved_onward(text, key);
    let secret = encrypted(text, key);
    lemma_ciphertext_letters(text, key);
    lemma_pairs_in_square(text, key);
    assert(no_repeat(moved)) by {
        assert forall|n: int| 0 <= n && n + 1 < moved.len() implies #[trigger] moved[n] != moved[n
            + 1] by {
            assert(secret[n] != secret[n + 1]);
        }
    }
    lemma_spaced_as_it_stands(moved, moved.len() as int);
    assert(moved.take(moved.len() as int) =~= moved);
}

/// The letter at `n` of a ciphertext that can be undone moves back to the
/// paired letter that it stands for.
proof fn lemma_moves_back(text: Seq<char>, key: Seq<char>, n: int)
    requires
        paired(encrypted(text, key)) == moved_onward(text, key),
        undoable(encrypted(text, key), key),
        0 <= n < paired(text).len(),
    ensures
        moved_back(encrypted(text, key), key)[n] == paired(text)[n],
{
    let square = key_square(key);
    let pairs = paired(text);
    let moved = moved_onward(text, key);
    lemma_square(key);
    lemma_pairs_in_square(text, key);
    let m = partner(n);
    let k = n / 2;
    assert(0 <= m < pairs.len());
    assert(square.contains(pairs[n]) && square.contains(pairs[m]));
    let i = square.index_of(pairs[n]);
    let j = square.index_of(pairs[m]);
    lemma_back_onward(i, j);
    lemma_back_onward(j, i);
    assert(moved[n] == square[cell_onward(i, j)]);
    assert(moved[m] == square[cell_onward(j, i)]);
    assert(square.index_of(moved[n]) == cell_onward(i, j));
    assert(square.index_of(moved[m]) == cell_onward(j, i));
    assert(0 <= k && 2 * k + 1 < moved.len());
    assert(pair_undoable(square, moved, k));
    lemma_wraps_symmetric(cell_onward(i, j), cell_onward(j, i));
    assert(!wraps(cell_onward(i, j), cell_onward(j, i)));
    assert(square[i] == pairs[n]);
}

/// The empty text comes back under every key, as the empty text.
pub proof fn lemma_empty_comes_back(key: Seq<char>)
    ensures
        comes_back(Seq::empty(), key),
        encrypted(Seq::empty(), key) == Seq::<char>::empty(),
{
    reveal(Seq::filter);
    let empty = Seq::<char>::empty();
    assert(lower_letters(empty) =~= empty);
    assert(paired(empty) =~= empty);
    assert(encrypted(empty, key) =~= empty);
}

/// Decrypting what was encrypted under the same supported key gives the
/// text back, for every text that comes back: a plain text whose
/// ciphertext repeats no letter and can be undone pair by pair.
pub proof fn round_trip(text: Seq<char>, key: Seq<char>)
    requires
        key_supported(key),
        comes_back(text, key),
    ensures
        applied(Direction::Encrypt, key, text) == Ok::<Seq<char>, CipherOperationError>(
            encrypted(text, key),
        ),
        applied(Direction::Decrypt, key, encrypted(text, key)) == Ok::<
            Seq<char>,
            CipherOperationError,
        >(text),
{
    let secret = encrypted(text, key);
    lemma_ciphertext_letters(text, key);
    lemma_ciphertext_pairs(text, key);
    lemma_paired_without_fillers(text);
    assert(vstd::utf8::is_ascii_chars(text)) by {
        assert forall|i: int| 0 <= i < text.len() implies #[trigger] text[i] <= '\u{7f}' by {
            assert(has_cell(text[i]));
        }
    }
    assert forall|n: int| 0 <= n < paired(text).len() implies #[trigger] moved_back(secret, key)[n]
        == paired(text)[n] by {
        lemma_moves_back(text, key, n);
    }
    assert(moved_back(secret, key) =~= paired(text));
}

} // verus!
