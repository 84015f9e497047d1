use cipher_dispatch::ciphers::affine::{is_coprime_with_alphabet, reduced};
use cipher_dispatch::ciphers::atbash::only_letters_and_blanks;
use cipher_dispatch::ciphers::playfair::{can_undo, find_cell, pairs_of, square_of};
use cipher_dispatch::ciphers::{invoke, Cipher};
use cipher_dispatch::directive::Direction;
use cipher_dispatch::error::CipherOperationError;

fn ok(text: &str) -> Result<String, CipherOperationError> {
    Ok(text.to_string())
}

fn gcd(x: i64, y: i64) -> i64 {
    if y == 0 {
        x.abs()
    } else {
        gcd(y, x % y)
    }
}

#[test]
fn caesar_encrypts_by_the_shift() {
    let cipher = Cipher::Caesar { shift: 3 };
    assert_eq!(invoke(&cipher, Direction::Encrypt, "Hello World!"), ok("Khoor Zruog!"));
}

#[test]
fn caesar_decrypts_by_the_shift() {
    let cipher = Cipher::Caesar { shift: 3 };
    assert_eq!(invoke(&cipher, Direction::Decrypt, "Khoor Zruog!"), ok("Hello World!"));
}

#[test]
fn caesar_shift_beyond_the_alphabet_wraps() {
    let cipher = Cipher::Caesar { shift: 255 };
    // 255 = 9 * 26 + 21
    assert_eq!(invoke(&cipher, Direction::Encrypt, "az"), ok("vu"));
    assert_eq!(invoke(&cipher, Direction::Decrypt, "vu"), ok("az"));
}

#[test]
fn caesar_shift_zero_and_full_turn_change_nothing() {
    for shift in [0u8, 26, 52] {
        let cipher = Cipher::Caesar { shift };
        assert_eq!(invoke(&cipher, Direction::Encrypt, "Abc xyZ"), ok("Abc xyZ"));
        assert_eq!(invoke(&cipher, Direction::Decrypt, "Abc xyZ"), ok("Abc xyZ"));
    }
}

#[test]
fn caesar_keeps_what_is_no_letter() {
    let cipher = Cipher::Caesar { shift: 1 };
    assert_eq!(invoke(&cipher, Direction::Encrypt, "a1 \u{e9}\n"), ok("b1 \u{e9}\n"));
}

#[test]
fn caesar_round_trip_on_every_shift() {
    let text = "The quick brown fox, 42 times!\n";
    for shift in 0..=255u8 {
        let cipher = Cipher::Caesar { shift };
        let secret = invoke(&cipher, Direction::Encrypt, text).unwrap();
        assert_eq!(invoke(&cipher, Direction::Decrypt, &secret), ok(text));
    }
}

#[test]
fn rot13_encrypts() {
    assert_eq!(invoke(&Cipher::Rot13, Direction::Encrypt, "Hello World!"), ok("Uryyb Jbeyq!"));
}

#[test]
fn rot13_decrypts() {
    assert_eq!(invoke(&Cipher::Rot13, Direction::Decrypt, "Uryyb Jbeyq!"), ok("Hello World!"));
}

#[test]
fn rot13_twice_is_identity() {
    let text = "Pack my box with five dozen liquor jugs.";
    let once = invoke(&Cipher::Rot13, Direction::Encrypt, text).unwrap();
    assert_eq!(invoke(&Cipher::Rot13, Direction::Encrypt, &once), ok(text));
}

#[test]
fn empty_text_round_trips() {
    let ciphers = [
        Cipher::Atbash,
        Cipher::Affine { a: 5, b: 8 },
        Cipher::Caesar { shift: 7 },
        Cipher::Rot13,
        Cipher::OneTimePad { pad: vec![1] },
    ];
    for cipher in ciphers {
        assert_eq!(invoke(&cipher, Direction::Encrypt, ""), ok(""));
        assert_eq!(invoke(&cipher, Direction::Decrypt, ""), ok(""));
    }
}

#[test]
fn atbash_encrypts_the_alphabet() {
    assert_eq!(
        invoke(&Cipher::Atbash, Direction::Encrypt, "abcdefghijklmnopqrstuvwxyz"),
        ok("ZYXWVUTSRQPONMLKJIHGFEDCBA")
    );
}

#[test]
fn atbash_decrypts_the_alphabet() {
    assert_eq!(
        invoke(&Cipher::Atbash, Direction::Decrypt, "ZYXWVUTSRQPONMLKJIHGFEDCBA"),
        ok("ABCDEFGHIJKLMNOPQRSTUVWXYZ")
    );
}

#[test]
fn atbash_encryption_drops_what_is_no_letter() {
    assert_eq!(invoke(&Cipher::Atbash, Direction::Encrypt, "Hello, World 42!\n"), ok("SVOOLDLIOW"));
}

#[test]
fn atbash_decryption_takes_letters_and_blanks_only() {
    assert_eq!(invoke(&Cipher::Atbash, Direction::Decrypt, "SVOOL DLIOW"), ok("HELLOWORLD"));
    assert_eq!(
        invoke(&Cipher::Atbash, Direction::Decrypt, "SVOOL\n"),
        Err(CipherOperationError::UnsupportedText)
    );
    assert_eq!(
        invoke(&Cipher::Atbash, Direction::Decrypt, "SVOOL1"),
        Err(CipherOperationError::UnsupportedText)
    );
}

#[test]
fn atbash_rejects_text_outside_ascii() {
    assert_eq!(
        invoke(&Cipher::Atbash, Direction::Encrypt, "na\u{ef}ve"),
        Err(CipherOperationError::UnsupportedText)
    );
    assert_eq!(
        invoke(&Cipher::Atbash, Direction::Decrypt, "na\u{ef}ve"),
        Err(CipherOperationError::UnsupportedText)
    );
}

#[test]
fn atbash_round_trip_on_upper_case_letters() {
    let text = "ATTACKATDAWN";
    let secret = invoke(&Cipher::Atbash, Direction::Encrypt, text).unwrap();
    assert_eq!(secret, "ZGGZXPZGWZDM");
    assert_eq!(invoke(&Cipher::Atbash, Direction::Decrypt, &secret), ok(text));
}

#[test]
fn affine_encrypts() {
    let cipher = Cipher::Affine { a: 5, b: 8 };
    assert_eq!(invoke(&cipher, Direction::Encrypt, "AFFINE cipher"), ok("IHHWVCSWFRCP"));
}

#[test]
fn affine_decrypts() {
    let cipher = Cipher::Affine { a: 5, b: 8 };
    assert_eq!(invoke(&cipher, Direction::Decrypt, "IHHWVCSWFRCP"), ok("AFFINECIPHER"));
}

#[test]
fn affine_round_trip_on_every_small_key() {
    let text = "THEQUICKBROWNFOXJUMPSOVERTHELAZYDOG";
    for a in [1, 3, 5, 7, 9, 11, 15, 17, 19, 21, 23, 25, 27, 29] {
        for b in [0, 1, 13, 25, 26, 1000] {
            let cipher = Cipher::Affine { a, b };
            let secret = invoke(&cipher, Direction::Encrypt, text).unwrap();
            assert_eq!(invoke(&cipher, Direction::Decrypt, &secret), ok(text));
        }
    }
}

#[test]
fn affine_rejects_a_multiplier_that_is_not_coprime() {
    for a in [0, 2, 4, 13, 26, 39, -2, -13, i32::MIN, 2147483646] {
        for direction in [Direction::Encrypt, Direction::Decrypt] {
            let cipher = Cipher::Affine { a, b: 8 };
            assert_eq!(invoke(&cipher, direction, "HELLO"), Err(CipherOperationError::NotCoprime));
            assert_eq!(invoke(&cipher, direction, ""), Err(CipherOperationError::NotCoprime));
        }
    }
}

#[test]
fn affine_takes_every_pair_of_integers_with_a_coprime_multiplier() {
    let text = "THEQUICKBROWNFOXJUMPSOVERTHELAZYDOG";
    let pairs = [
        (-5, 125),
        (-1, 0),
        (5, -1),
        (-25, -26),
        (i32::MAX, 0),
        (i32::MAX, i32::MAX),
        (i32::MIN + 1, i32::MIN),
        (85899347, 0),
        (1, 85899346),
        (5, i32::MAX),
    ];
    for (a, b) in pairs {
        let cipher = Cipher::Affine { a, b };
        let secret = invoke(&cipher, Direction::Encrypt, text).unwrap();
        assert_eq!(invoke(&cipher, Direction::Decrypt, &secret), ok(text));
    }
}

#[test]
fn affine_coefficients_count_modulo_the_alphabet_size() {
    // -5 is 21 and 125 is 21, modulo 26
    let text = "Affine cipher";
    let small = Cipher::Affine { a: 21, b: 21 };
    let secret = invoke(&small, Direction::Encrypt, text).unwrap();
    assert_eq!(secret, "VWWHIBLHYMBO");
    for (a, b) in [(-5, 125), (47, -5), (21 + 26 * 1000, 21 - 26 * 1000)] {
        let cipher = Cipher::Affine { a, b };
        assert_eq!(invoke(&cipher, Direction::Encrypt, text), ok(&secret));
        assert_eq!(invoke(&cipher, Direction::Decrypt, &secret), ok("AFFINECIPHER"));
    }
}

#[test]
fn affine_reduced_is_the_remainder_from_zero_up() {
    assert_eq!(reduced(0), 0);
    assert_eq!(reduced(25), 25);
    assert_eq!(reduced(26), 0);
    assert_eq!(reduced(125), 21);
    assert_eq!(reduced(-5), 21);
    assert_eq!(reduced(-26), 0);
    assert_eq!(reduced(-27), 25);
    assert_eq!(reduced(i32::MAX), 23);
    assert_eq!(reduced(i32::MIN), 2);
}

#[test]
fn affine_rejects_text_outside_ascii() {
    let cipher = Cipher::Affine { a: 5, b: 8 };
    assert_eq!(
        invoke(&cipher, Direction::Encrypt, "caf\u{e9}"),
        Err(CipherOperationError::UnsupportedText)
    );
}

#[test]
fn one_time_pad_encrypts_with_the_last_byte() {
    let cipher = Cipher::OneTimePad { pad: vec![1, 3, 3, 7, 7] };
    assert_eq!(invoke(&cipher, Direction::Encrypt, "Hello"), ok("Obkkh"));
}

#[test]
fn one_time_pad_decrypts_with_the_last_byte() {
    let cipher = Cipher::OneTimePad { pad: vec![1, 3, 3, 7, 7] };
    assert_eq!(invoke(&cipher, Direction::Decrypt, "Obkkh"), ok("Hello"));
}

#[test]
fn one_time_pad_rejects_a_short_pad() {
    let cipher = Cipher::OneTimePad { pad: vec![1, 3, 3, 7] };
    for direction in [Direction::Encrypt, Direction::Decrypt] {
        assert_eq!(invoke(&cipher, direction, "Hello"), Err(CipherOperationError::PadTooShort));
    }
    let none = Cipher::OneTimePad { pad: vec![] };
    assert_eq!(invoke(&none, Direction::Encrypt, "x"), Err(CipherOperationError::PadTooShort));
    assert_eq!(invoke(&none, Direction::Encrypt, ""), ok(""));
}

#[test]
fn one_time_pad_takes_a_pad_as_long_as_the_text() {
    let cipher = Cipher::OneTimePad { pad: vec![9, 9, 9, 9, 32] };
    assert_eq!(invoke(&cipher, Direction::Encrypt, "Hello"), ok("hELLO"));
    assert_eq!(invoke(&cipher, Direction::Decrypt, "hELLO"), ok("Hello"));
}

#[test]
fn one_time_pad_takes_the_empty_text_under_every_pad() {
    for pad in [vec![], vec![0], vec![200], vec![1, 2, 128], vec![255; 9]] {
        let cipher = Cipher::OneTimePad { pad };
        assert_eq!(invoke(&cipher, Direction::Encrypt, ""), ok(""));
        assert_eq!(invoke(&cipher, Direction::Decrypt, ""), ok(""));
    }
}

#[test]
fn one_time_pad_rejects_a_last_byte_above_ascii() {
    let cipher = Cipher::OneTimePad { pad: vec![1, 2, 128] };
    assert_eq!(invoke(&cipher, Direction::Encrypt, "abc"), Err(CipherOperationError::PadOutOfRange));
    assert_eq!(invoke(&cipher, Direction::Decrypt, "a"), Err(CipherOperationError::PadOutOfRange));
    let fine = Cipher::OneTimePad { pad: vec![200, 255, 127] };
    let secret = invoke(&fine, Direction::Encrypt, "abc").unwrap();
    assert_eq!(secret, "\u{1e}\u{1d}\u{1c}");
    assert_eq!(invoke(&fine, Direction::Decrypt, &secret), ok("abc"));
}

#[test]
fn one_time_pad_rejects_text_outside_ascii() {
    let cipher = Cipher::OneTimePad { pad: vec![1, 2, 3, 4, 5, 6, 7, 8] };
    assert_eq!(
        invoke(&cipher, Direction::Encrypt, "caf\u{e9}"),
        Err(CipherOperationError::UnsupportedText)
    );
    let short = Cipher::OneTimePad { pad: vec![1] };
    assert_eq!(
        invoke(&short, Direction::Encrypt, "caf\u{e9}"),
        Err(CipherOperationError::UnsupportedText)
    );
}

#[test]
fn playfair_encrypts() {
    let cipher = Cipher::Playfair { key: "world".to_string() };
    assert_eq!(invoke(&cipher, Direction::Encrypt, "hello"), ok("KBWEDR"));
}

#[test]
fn playfair_decrypts() {
    let cipher = Cipher::Playfair { key: "world".to_string() };
    assert_eq!(invoke(&cipher, Direction::Decrypt, "KBWEDR"), ok("hello"));
}

#[test]
fn playfair_rejects_a_key_with_upper_case_or_beyond_ascii() {
    for key in ["World", "w\u{f6}rld", "A"] {
        let cipher = Cipher::Playfair { key: key.to_string() };
        for direction in [Direction::Encrypt, Direction::Decrypt] {
            assert_eq!(invoke(&cipher, direction, "hello"), Err(CipherOperationError::UnsupportedKey));
        }
    }
}

#[test]
fn playfair_takes_keys_with_blanks_digits_and_repeats() {
    for key in ["", "playfair example", "key 42!", "jjj", "abcdefghijklmnopqrstuvwxyz"] {
        let cipher = Cipher::Playfair { key: key.to_string() };
        let secret = invoke(&cipher, Direction::Encrypt, "Meet me at noon, Jim").unwrap();
        assert_eq!(secret.len() % 2, 0);
        assert!(secret.chars().all(|c| c.is_ascii_uppercase()));
    }
}

#[test]
fn playfair_rejects_text_outside_ascii() {
    let cipher = Cipher::Playfair { key: "world".to_string() };
    assert_eq!(
        invoke(&cipher, Direction::Encrypt, "h\u{e9}llo"),
        Err(CipherOperationError::UnsupportedText)
    );
}

#[test]
fn playfair_decryption_rejects_a_pair_on_the_first_column_of_its_row() {
    // the square of "world" begins with the row w o r l d
    let cipher = Cipher::Playfair { key: "world".to_string() };
    assert_eq!(invoke(&cipher, Direction::Decrypt, "wo"), Err(CipherOperationError::WrapAroundPair));
    assert_eq!(invoke(&cipher, Direction::Decrypt, "OR"), ok("wo"));
}

#[test]
fn playfair_decryption_rejects_a_pair_on_the_first_row_of_its_column() {
    // below w stand a, g, n, u
    let cipher = Cipher::Playfair { key: "world".to_string() };
    assert_eq!(invoke(&cipher, Direction::Decrypt, "wg"), Err(CipherOperationError::WrapAroundPair));
    assert_eq!(invoke(&cipher, Direction::Decrypt, "gn"), ok("g"));
    assert_eq!(invoke(&cipher, Direction::Decrypt, "kbwg"), Err(CipherOperationError::WrapAroundPair));
}

#[test]
fn playfair_decryption_of_every_pair_answers_without_a_panic() {
    let cipher = Cipher::Playfair { key: "monarchy".to_string() };
    let letters = "abcdefghijklmnopqrstuvwxyz";
    let mut undone = 0;
    let mut refused = 0;
    for first in letters.chars() {
        for second in letters.chars() {
            let pair: String = [first, second].iter().collect();
            match invoke(&cipher, Direction::Decrypt, &pair) {
                Ok(_) => undone += 1,
                Err(e) => {
                    assert_eq!(e, CipherOperationError::WrapAroundPair);
                    refused += 1;
                }
            }
        }
    }
    assert_eq!(undone + refused, 26 * 26);
    assert!(undone > 0);
    assert!(refused > 0);
}

#[test]
fn key_material_is_missing_only_for_an_empty_pad() {
    assert!(!Cipher::OneTimePad { pad: vec![] }.key_material_present());
    assert!(Cipher::OneTimePad { pad: vec![0] }.key_material_present());
    assert!(Cipher::Playfair { key: String::new() }.key_material_present());
    assert!(Cipher::Atbash.key_material_present());
}

#[test]
fn playfair_square_holds_the_key_first_and_then_the_alphabet() {
    let square: String = square_of("playfair example").into_iter().collect();
    assert_eq!(square, "playfirexmbcdghknoqstuvwz");
    let plain: String = square_of("").into_iter().collect();
    assert_eq!(plain, "abcdefghiklmnopqrstuvwxyz");
    let jay: String = square_of("jazz 42").into_iter().collect();
    assert_eq!(jay, "azbcdefghiklmnopqrstuvwxy");
}

#[test]
fn playfair_pairs_space_doubles_and_fill_up() {
    let pairs = |text: &str| -> String { pairs_of(text).into_iter().collect() };
    assert_eq!(pairs("key!jl"), "keyila");
    assert_eq!(pairs("hello"), "helalo");
    assert_eq!(pairs("Hello World"), "helaloworlda");
    assert_eq!(pairs("jj"), "ii");
    assert_eq!(pairs("aa"), "aaaa");
    assert_eq!(pairs("x"), "xa");
    assert_eq!(pairs(""), "");
    assert_eq!(pairs("12 \n"), "");
}

#[test]
fn playfair_cells_are_counted_row_by_row() {
    let square = square_of("world");
    assert_eq!(find_cell(&square, 'w'), Some(0));
    assert_eq!(find_cell(&square, 'd'), Some(4));
    assert_eq!(find_cell(&square, 'a'), Some(5));
    assert_eq!(find_cell(&square, 'z'), Some(24));
    assert_eq!(find_cell(&square, 'j'), None);
    assert_eq!(find_cell(&square, 'W'), None);
}

#[test]
fn playfair_can_undo_tells_wrapping_pairs() {
    assert!(can_undo("KBWEDR", "world"));
    assert!(can_undo("", "world"));
    assert!(!can_undo("wo", "world"));
    assert!(!can_undo("wg", "world"));
    assert!(!can_undo("ow", "world"));
    assert!(can_undo("bc", "world"));
    assert!(!can_undo("ab", "world"));
}

#[test]
fn affine_coprime_test_agrees_with_the_greatest_common_divisor() {
    for a in -100..=100 {
        assert_eq!(is_coprime_with_alphabet(a), gcd(a as i64, 26) == 1);
    }
    assert!(is_coprime_with_alphabet(i32::MAX));
    assert!(!is_coprime_with_alphabet(i32::MIN));
}

#[test]
fn atbash_letters_and_blanks_test() {
    assert!(only_letters_and_blanks(""));
    assert!(only_letters_and_blanks("Ab c Z"));
    assert!(!only_letters_and_blanks("Ab-c"));
    assert!(!only_letters_and_blanks("\u{e9}"));
    assert!(!only_letters_and_blanks("a\tb"));
}
