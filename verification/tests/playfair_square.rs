use cipher_dispatch::ciphers::playfair::{can_undo, find_cell, pairs_of, square_of};
use cipher_dispatch::ciphers::{invoke, Cipher};
use cipher_dispatch::directive::Direction;
use cipher_dispatch::error::CipherOperationError;

const KEYS: [&str; 6] =
    ["", "world", "monarchy", "playfair example", "zyxwvutsrqponmlkjihgfedcba", "key 42, no jokes!"];

const TEXTS: [&str; 8] = [
    "",
    "hello",
    "Hide the gold in the tree stump",
    "Meet me at noon, Jim",
    "aa",
    "balloon",
    "x",
    "The quick brown fox jumps over the lazy dog\n",
];

fn onward(i: usize, j: usize) -> usize {
    if i % 5 == j % 5 {
        (i + 5) % 25
    } else if i / 5 == j / 5 {
        i - i % 5 + (i % 5 + 1) % 5
    } else {
        i - i % 5 + j % 5
    }
}

fn back(i: usize, j: usize) -> usize {
    if i % 5 == j % 5 {
        i - 5
    } else if i / 5 == j / 5 {
        i - 1
    } else {
        i - i % 5 + j % 5
    }
}

fn replaced(text: &str, key: &str, step: fn(usize, usize) -> usize) -> String {
    let square = square_of(key);
    let pairs = pairs_of(text);
    let mut out = String::new();
    for n in 0..pairs.len() {
        let partner = if n % 2 == 0 { n + 1 } else { n - 1 };
        let i = find_cell(&square, pairs[n]).unwrap();
        let j = find_cell(&square, pairs[partner]).unwrap();
        out.push(square[step(i, j)]);
    }
    out
}

fn playfair(key: &str) -> Cipher {
    Cipher::Playfair { key: key.to_string() }
}

#[test]
fn playfair_square_has_twenty_five_cells_for_every_key() {
    for key in KEYS {
        assert_eq!(square_of(key).len(), 25);
    }
}

#[test]
fn playfair_encryption_replaces_by_way_of_the_square() {
    for key in KEYS {
        for text in TEXTS {
            let expected = replaced(text, key, onward).to_uppercase();
            assert_eq!(invoke(&playfair(key), Direction::Encrypt, text), Ok(expected));
        }
    }
}

#[test]
fn playfair_decryption_replaces_by_way_of_the_square() {
    let letters = "abcdefghijklmnopqrstuvwxyz";
    for key in KEYS {
        for first in letters.chars() {
            for second in letters.chars() {
                let pair: String = [first, second].iter().collect();
                let result = invoke(&playfair(key), Direction::Decrypt, &pair);
                if can_undo(&pair, key) {
                    let expected: String =
                        replaced(&pair, key, back).chars().filter(|c| *c != 'a').collect();
                    assert_eq!(result, Ok(expected));
                } else {
                    assert_eq!(result, Err(CipherOperationError::WrapAroundPair));
                }
            }
        }
    }
}

#[test]
fn playfair_decryption_of_longer_texts_replaces_by_way_of_the_square() {
    let mut served = 0;
    for key in KEYS {
        for text in TEXTS {
            let secret = invoke(&playfair(key), Direction::Encrypt, text).unwrap();
            for candidate in [text, secret.as_str()] {
                if can_undo(candidate, key) {
                    let expected: String =
                        replaced(candidate, key, back).chars().filter(|c| *c != 'a').collect();
                    assert_eq!(invoke(&playfair(key), Direction::Decrypt, candidate), Ok(expected));
                    served += 1;
                }
            }
        }
    }
    assert!(served > 10);
}

#[test]
fn playfair_round_trip_on_a_text_that_comes_back() {
    // no a, no j, and the ciphertext KBWEDR neither repeats a letter nor wraps
    let secret = invoke(&playfair("world"), Direction::Encrypt, "hello").unwrap();
    assert_eq!(secret, "KBWEDR");
    assert!(can_undo(&secret, "world"));
    assert_eq!(invoke(&playfair("world"), Direction::Decrypt, &secret), Ok("hello".to_string()));
}

#[test]
fn playfair_round_trip_on_texts_that_come_back() {
    // plain texts: lower-case letters without a and without j
    let texts = ["", "hello", "model", "thequickbrownfox", "stop", "keepitshut", "ii"];
    let mut came_back = 0;
    for key in KEYS {
        for text in texts {
            let secret = invoke(&playfair(key), Direction::Encrypt, text).unwrap();
            let repeats = secret.as_bytes().windows(2).any(|w| w[0] == w[1]);
            if !repeats && can_undo(&secret, key) {
                assert_eq!(invoke(&playfair(key), Direction::Decrypt, &secret), Ok(text.to_string()));
                came_back += 1;
            }
        }
    }
    assert!(came_back > 6);
}

#[test]
fn playfair_text_with_an_a_or_a_j_does_not_come_back() {
    // the square of the empty key is the alphabet without j, row by row
    let lost = invoke(&playfair(""), Direction::Encrypt, "ha").unwrap();
    assert_eq!(lost, "FC");
    assert_eq!(invoke(&playfair(""), Direction::Decrypt, &lost), Ok("h".to_string()));
    let turned = invoke(&playfair(""), Direction::Encrypt, "joy").unwrap();
    assert_eq!(turned, "OTVD");
    assert_eq!(invoke(&playfair(""), Direction::Decrypt, &turned), Ok("ioy".to_string()));
}

#[test]
fn playfair_ciphertext_on_the_edge_of_the_square_is_refused() {
    // z and y end the last row, so their ciphertext starts it
    let secret = invoke(&playfair(""), Direction::Encrypt, "lazy").unwrap();
    assert_eq!(secret, "QFVZ");
    assert!(!can_undo(&secret, ""));
    assert_eq!(
        invoke(&playfair(""), Direction::Decrypt, &secret),
        Err(CipherOperationError::WrapAroundPair)
    );
}
