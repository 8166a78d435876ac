use profanity::text::{
    lower_hex_char, pad_field, push_decimal, push_hex16, push_spaces, to_chars, upper_hex_char,
};
use profanity::utils::{
    bytes_to_hex_str, checksum_with_hash, decode_hex_chars, hex_char_to_u8,
    hex_char_to_u8_unchecked, hex_str_to_bytes, is_hex_char, to_checksum_address, to_hex_char,
};

fn address_of(hex: &str) -> [u8; 20] {
    let bytes = hex_str_to_bytes(hex);
    let mut address = [0u8; 20];
    address.copy_from_slice(&bytes);
    address
}

#[test]
fn hex_digit_characters_upper_and_lower() {
    let upper: Vec<char> = (0u8..16).map(to_hex_char).collect();
    assert_eq!(upper.iter().collect::<String>(), "0123456789ABCDEF");
    let lower: Vec<char> = (0u8..16).map(lower_hex_char).collect();
    assert_eq!(lower.iter().collect::<String>(), "0123456789abcdef");
    assert_eq!(upper_hex_char(11), 'B');
}

#[test]
fn is_hex_char_accepts_exactly_the_digits() {
    for c in "0123456789abcdefABCDEF".chars() {
        assert!(is_hex_char(c), "{c}");
    }
    for c in ['g', 'G', '/', ':', '@', '`', ' ', 'x', '+', '-', '\u{e9}', '\u{20ac}', '\u{1f600}'] {
        assert!(!is_hex_char(c), "{c}");
    }
}

#[test]
fn hex_char_values() {
    assert_eq!(hex_char_to_u8_unchecked('0'), 0);
    assert_eq!(hex_char_to_u8_unchecked('9'), 9);
    assert_eq!(hex_char_to_u8_unchecked('a'), 10);
    assert_eq!(hex_char_to_u8_unchecked('f'), 15);
    assert_eq!(hex_char_to_u8_unchecked('A'), 10);
    assert_eq!(hex_char_to_u8_unchecked('F'), 15);
    assert_eq!(hex_char_to_u8_unchecked('z'), 0);
    assert_eq!(hex_char_to_u8_unchecked('\u{20ac}'), 0);
    assert_eq!(hex_char_to_u8('c'), Some(12));
    assert_eq!(hex_char_to_u8('C'), Some(12));
    assert_eq!(hex_char_to_u8('7'), Some(7));
    assert_eq!(hex_char_to_u8('g'), None);
    assert_eq!(hex_char_to_u8('\u{e9}'), None);
}

#[test]
fn hex_str_to_bytes_pairs_digits() {
    assert_eq!(hex_str_to_bytes(""), Vec::<u8>::new());
    assert_eq!(hex_str_to_bytes("00"), vec![0x00]);
    assert_eq!(hex_str_to_bytes("ff"), vec![0xff]);
    assert_eq!(hex_str_to_bytes("DeadBEEF"), vec![0xde, 0xad, 0xbe, 0xef]);
    assert_eq!(hex_str_to_bytes("0123456789abcdef"), vec![1, 0x23, 0x45, 0x67, 0x89, 0xab, 0xcd, 0xef]);
}

#[test]
fn hex_str_to_bytes_drops_an_unpaired_last_digit() {
    assert_eq!(hex_str_to_bytes("a"), Vec::<u8>::new());
    assert_eq!(hex_str_to_bytes("abc"), vec![0xab]);
}

#[test]
fn decode_hex_chars_starts_where_told() {
    let chars = to_chars("0x1f2e");
    assert_eq!(decode_hex_chars(&chars, 2), vec![0x1f, 0x2e]);
    assert_eq!(decode_hex_chars(&chars, 6), Vec::<u8>::new());
    assert_eq!(decode_hex_chars(&chars, 4), vec![0x2e]);
}

#[test]
fn bytes_to_hex_str_is_upper_case() {
    assert_eq!(bytes_to_hex_str(&[]), "");
    assert_eq!(bytes_to_hex_str(&[0x00, 0x0f, 0xf0, 0xab, 0x9c]), "000FF0AB9C");
    assert_eq!(bytes_to_hex_str(&[0xde, 0xad, 0xbe, 0xef]), "DEADBEEF");
}

#[test]
fn hex_round_trip_on_concrete_bytes() {
    let bytes: Vec<u8> = (0u16..256).map(|b| b as u8).collect();
    let text = bytes_to_hex_str(&bytes);
    assert_eq!(text.len(), 512);
    assert_eq!(hex_str_to_bytes(&text), bytes);
}

#[test]
fn to_chars_keeps_every_character() {
    assert_eq!(to_chars(""), Vec::<char>::new());
    assert_eq!(to_chars("a\u{20ac}b"), vec!['a', '\u{20ac}', 'b']);
}

#[test]
fn checksum_address_known_vectors() {
    for expected in [
        "5aAeb6053F3E94C9b9A09f33669435E7Ef1BeAed",
        "fB6916095ca1df60bB79Ce92cE3Ea74c37c5d359",
        "dbF03B407c01E7cD3CBea99509d93f8DDDC8C6FB",
        "D1220A0cf47c7B9Be7A2E6BA89F429762e7b9aDb",
    ] {
        assert_eq!(to_checksum_address(&address_of(expected)), expected);
    }
}

#[test]
fn checksum_address_more_values() {
    assert_eq!(to_checksum_address(&[0u8; 20]), "0000000000000000000000000000000000000000");
    assert_eq!(to_checksum_address(&[0xab; 20]), "ABaBaBaBABabABabAbAbABAbABabababaBaBABaB");
    let mut rising = [0u8; 20];
    for (i, byte) in rising.iter_mut().enumerate() {
        *byte = 0xa0 + i as u8;
    }
    assert_eq!(to_checksum_address(&rising), "a0A1A2a3A4A5a6a7a8a9AaaBaCADAeAfb0B1b2b3");
}

#[test]
fn checksum_with_hash_follows_the_digest() {
    let address = [0xab; 20];
    assert_eq!(
        checksum_with_hash(&address, &[0x00; 32]),
        "abababababababababababababababababababab"
    );
    assert_eq!(
        checksum_with_hash(&address, &[0xff; 32]),
        "ABABABABABABABABABABABABABABABABABABABAB"
    );
    // 0x8 in the high half only: the first letter of each byte goes up.
    assert_eq!(
        checksum_with_hash(&address, &[0x87; 20]),
        "AbAbAbAbAbAbAbAbAbAbAbAbAbAbAbAbAbAbAbAb"
    );
    assert_eq!(
        checksum_with_hash(&address, &[0x78; 20]),
        "aBaBaBaBaBaBaBaBaBaBaBaBaBaBaBaBaBaBaBaB"
    );
    // Digits have no case, whatever the digest says.
    assert_eq!(
        checksum_with_hash(&[0x12; 20], &[0xff; 20]),
        "1212121212121212121212121212121212121212"
    );
}

#[test]
fn push_decimal_exact_digits() {
    for (n, expected) in [
        (0u128, "0"),
        (9, "9"),
        (10, "10"),
        (99, "99"),
        (100, "100"),
        (1234567890, "1234567890"),
        (u64::MAX as u128, "18446744073709551615"),
        (u128::MAX, "340282366920938463463374607431768211455"),
    ] {
        let mut s = String::from("n=");
        let count = push_decimal(&mut s, n);
        assert_eq!(s, format!("n={expected}"));
        assert_eq!(count, expected.len());
    }
}

#[test]
fn push_spaces_and_pad_field() {
    let mut s = String::from("ab");
    push_spaces(&mut s, 3);
    assert_eq!(s, "ab   ");
    push_spaces(&mut s, 0);
    assert_eq!(s, "ab   ");

    let mut s = String::from("x:7");
    pad_field(&mut s, 1, 4);
    assert_eq!(s, "x:7   ");
    let mut s = String::from("x:1234");
    pad_field(&mut s, 4, 4);
    assert_eq!(s, "x:1234");
    let mut s = String::from("x:12345");
    pad_field(&mut s, 5, 4);
    assert_eq!(s, "x:12345");
    let mut s = String::new();
    pad_field(&mut s, 0, 2);
    assert_eq!(s, "  ");
}

#[test]
fn push_hex16_pads_with_zeros() {
    for (x, expected) in [
        (0u64, "0000000000000000"),
        (1, "0000000000000001"),
        (0xabc, "0000000000000abc"),
        (0x0123456789abcdef, "0123456789abcdef"),
        (u64::MAX, "ffffffffffffffff"),
        (0x8000000000000000, "8000000000000000"),
    ] {
        let mut s = String::from(">");
        push_hex16(&mut s, x);
        assert_eq!(s, format!(">{expected}"));
        assert_eq!(&s[1..], format!("{x:016x}"));
    }
}
