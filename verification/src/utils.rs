//! Hexadecimal text: digits, byte strings, and the checksummed form of an
//! address.

use sha3::Digest;
use vstd::prelude::*;

use crate::text::{lower_hex_char, lower_hex_digit, to_chars, upper_hex_char, upper_hex_digit};

verus! {

/// Whether `c` is one of `0-9`, `a-f`, `A-F`.
pub open spec fn is_hex_digit(c: char) -> bool {
    ('0' <= c && c <= '9') || ('a' <= c && c <= 'f') || ('A' <= c && c <= 'F')
}

/// The value of a hexadecimal digit; 0 for any other character.
pub open spec fn hex_digit_value(c: char) -> u8 {
    if '0' <= c && c <= '9' {
        (c as u32 - 48) as u8
    } else if 'a' <= c && c <= 'f' {
        (c as u32 - 87) as u8
    } else if 'A' <= c && c <= 'F' {
        (c as u32 - 55) as u8
    } else {
        0
    }
}

/// Whether every character of `s` is a hexadecimal digit.
pub open spec fn all_hex_digits(s: Seq<char>) -> bool {
    forall|i: int| 0 <= i < s.len() ==> is_hex_digit(#[trigger] s[i])
}

/// The values of the characters of `s`, each by `hex_digit_value`.
pub open spec fn hex_digit_values(s: Seq<char>) -> Seq<u8> {
    Seq::new(s.len(), |i: int| hex_digit_value(s[i]))
}

/// The half-byte of `bytes` at position `i`, the high half of each byte first.
pub open spec fn nibble_at(bytes: Seq<u8>, i: int) -> u8
    recommends
        0 <= i < 2 * bytes.len(),
{
    if i % 2 == 0 {
        bytes[i / 2] / 16
    } else {
        bytes[i / 2] % 16
    }
}

/// The bytes that a text of hexadecimal digits stands for: each pair of
/// digits is one byte, high digit first. A last digit without a partner is
/// left out.
pub open spec fn decode_hex(hex: Seq<char>) -> Seq<u8> {
    Seq::new(
        hex.len() / 2,
        |i: int| (hex_digit_value(hex[2 * i]) * 16 + hex_digit_value(hex[2 * i + 1])) as u8,
    )
}

/// `bytes` as upper-case hexadecimal text, two digits for each byte.
pub open spec fn encode_hex_upper(bytes: Seq<u8>) -> Seq<char> {
    Seq::new(2 * bytes.len(), |i: int| upper_hex_digit(nibble_at(bytes, i)))
}

/// The ASCII codes of `bytes` written as lower-case hexadecimal text.
pub open spec fn lower_hex_ascii(bytes: Seq<u8>) -> Seq<u8> {
    Seq::new(2 * bytes.len(), |i: int| lower_hex_digit(nibble_at(bytes, i)) as u8)
}

/// The mixed-case text of `address` under the digest `hash`: hexadecimal
/// digits, a letter in upper case exactly where the half-byte of `hash` at
/// the same position is 8 or more.
pub open spec fn checksum_text(address: Seq<u8>, hash: Seq<u8>) -> Seq<char> {
    Seq::new(
        2 * address.len(),
        |i: int|
            {
                let n = nibble_at(address, i);
                if n > 9 && nibble_at(hash, i) > 7 {
                    upper_hex_digit(n)
                } else {
                    lower_hex_digit(n)
                }
            },
    )
}

/// The Keccak-256 digest of `data`.
pub uninterp spec fn keccak256(data: Seq<u8>) -> Seq<u8>;

/// `Keccak256::digest` of the sha3 crate: the result is the Keccak-256 digest
/// of `data`, which is 32 bytes long.
#[verifier::external_body]
fn keccak256_digest(data: &[u8]) -> (hash: Vec<u8>)
    ensures
        hash@ == keccak256(data@),
        hash@.len() == 32,
{
    sha3::Keccak256::digest(data).to_vec()
}

/// The upper-case character of the hexadecimal digit `c`.
pub fn to_hex_char(c: u8) -> (r: char)
    requires
        c < 16,
    ensures
        r == upper_hex_digit(c),
{
    upper_hex_char(c)
}

/// Whether `c` is a hexadecimal digit, in either case.
pub fn is_hex_char(c: char) -> (r: bool)
    ensures
        r == is_hex_digit(c),
{
    ('0' <= c && c <= '9') || ('a' <= c && c <= 'f') || ('A' <= c && c <= 'F')
}

/// The value of the hexadecimal digit `c`, and 0 where `c` is none.
pub fn hex_char_to_u8_unchecked(c: char) -> (r: u8)
    ensures
        r == hex_digit_value(c),
        r < 16,
{
    if '0' <= c && c <= '9' {
        ((c as u32) - 48) as u8
    } else if 'a' <= c && c <= 'f' {
        ((c as u32) - 87) as u8
    } else if 'A' <= c && c <= 'F' {
        ((c as u32) - 55) as u8
    } else {
        0
    }
}

/// The value of the hexadecimal digit `c`; `None` where `c` is no such digit.
pub fn hex_char_to_u8(c: char) -> (r: Option<u8>)
    ensures
        r == if is_hex_digit(c) {
            Some(hex_digit_value(c))
        } else {
            None
        },
{
    if is_hex_char(c) {
        Some(hex_char_to_u8_unchecked(c))
    } else {
        None
    }
}

/// Decodes the hexadecimal digits of `chars` from `start` on into bytes, two
/// digits to a byte.
pub fn decode_hex_chars(chars: &Vec<char>, start: usize) -> (bytes: Vec<u8>)
    requires
        start <= chars@.len(),
    ensures
        bytes@ == decode_hex(chars@.skip(start as int)),
{
    let ghost hex = chars@.skip(start as int);
    let mut bytes: Vec<u8> = Vec::new();
    let mut i: usize = start;
    while i < chars.len() && i + 1 < chars.len()
        invariant
            hex == chars@.skip(start as int),
            start <= i <= chars.len(),
            (i - start) % 2 == 0,
            bytes@ == decode_hex(hex).take((i - start) / 2),
        decreases chars.len() - i,
    {
        let high = hex_char_to_u8_unchecked(chars[i]);
        let low = hex_char_to_u8_unchecked(chars[i + 1]);
        bytes.push(high * 16 + low);
        proof {
            let d = decode_hex(hex);
            let k = (i - start) / 2;
            assert(hex[2 * k] == chars@[i as int]);
            assert(hex[2 * k + 1] == chars@[i + 1]);
            assert(d.take(k + 1) =~= d.take(k).push(d[k]));
        }
        i += 2;
    }
    proof {
        let d = decode_hex(hex);
        assert(d.take((i - start) / 2) =~= d);
    }
    bytes
}

/// Decodes hexadecimal text into bytes, two digits to a byte. A last digit
/// without a partner is left out.
pub fn hex_str_to_bytes(hex: &str) -> (bytes: Vec<u8>)
    requires
        all_hex_digits(hex@),
    ensures
        bytes@ == decode_hex(hex@),
{
    let chars = to_chars(hex);
    proof {
        assert(chars@.skip(0) =~= hex@);
    }
    decode_hex_chars(&chars, 0)
}

/// Writes `bytes` as upper-case hexadecimal text.
pub fn bytes_to_hex_str(bytes: &[u8]) -> (hex: String)
    ensures
        hex@ == encode_hex_upper(bytes@),
{
    let mut hex = String::new();
    let mut i: usize = 0;
    while i < bytes.len()
        invariant
            i <= bytes.len(),
            hex@ == encode_hex_upper(bytes@).take(2 * i),
        decreases bytes.len() - i,
    {
        let byte = bytes[i];
        let high: u8 = byte >> 4;
        let low: u8 = byte & 0xF;
        assert(high == byte / 16 && low == byte % 16) by (bit_vector)
            requires
                high == byte >> 4,
                low == byte & 0xF,
        ;
        hex.push(to_hex_char(high));
        hex.push(to_hex_char(low));
        proof {
            let e = encode_hex_upper(bytes@);
            assert(e.take(2 * i + 2) =~= e.take(2 * i).push(e[2 * i]).push(e[2 * i + 1]));
        }
        i += 1;
    }
    proof {
        let e = encode_hex_upper(bytes@);
        assert(e.take(2 * i) =~= e);
    }
    hex
}

/// The ASCII codes of `bytes` written as lower-case hexadecimal text.
fn lower_hex_bytes(bytes: &[u8]) -> (ascii: Vec<u8>)
    ensures
        ascii@ == lower_hex_ascii(bytes@),
{
    let mut ascii: Vec<u8> = Vec::new();
    let mut i: usize = 0;
    while i < bytes.len()
        invariant
            i <= bytes.len(),
            ascii@ == lower_hex_ascii(bytes@).take(2 * i),
        decreases bytes.len() - i,
    {
        let byte = bytes[i];
        let high: u8 = byte >> 4;
        let low: u8 = byte & 0xF;
        assert(high == byte / 16 && low == byte % 16) by (bit_vector)
            requires
                high == byte >> 4,
                low == byte & 0xF,
        ;
        ascii.push(lower_hex_char(high) as u8);
        ascii.push(lower_hex_char(low) as u8);
        proof {
            let e = lower_hex_ascii(bytes@);
            assert(e.take(2 * i + 2) =~= e.take(2 * i).push(e[2 * i]).push(e[2 * i + 1]));
        }
        i += 1;
    }
    proof {
        let e = lower_hex_ascii(bytes@);
        assert(e.take(2 * i) =~= e);
    }
    ascii
}

/// The half-byte of `bytes` at position `i`, the high half of each byte first.
fn nibble(bytes: &[u8], i: usize) -> (n: u8)
    requires
        i < 2 * bytes@.len(),
    ensures
        n == nibble_at(bytes@, i as int),
        n < 16,
{
    let byte = bytes[i / 2];
    if i % 2 == 0 {
        byte / 16
    } else {
        byte % 16
    }
}

/// Writes `address` in mixed case under a digest that is already computed:
/// a letter is in upper case exactly where the half-byte of `hash` at the
/// same position is 8 or more.
pub fn checksum_with_hash(address: &[u8; 20], hash: &[u8]) -> (text: String)
    requires
        hash@.len() >= 20,
    ensures
        text@ == checksum_text(address@, hash@),
{
    let mut text = String::new();
    let mut i: usize = 0;
    while i < 40
        invariant
            i <= 40,
            hash@.len() >= 20,
            text@ == checksum_text(address@, hash@).take(i as int),
        decreases 40 - i,
    {
        let n = nibble(address.as_slice(), i);
        let c = if n > 9 && nibble(hash, i) > 7 {
            upper_hex_char(n)
        } else {
            lower_hex_char(n)
        };
        text.push(c);
        proof {
            let t = checksum_text(address@, hash@);
            assert(t.take(i + 1) =~= t.take(i as int).push(t[i as int]));
        }
        i += 1;
    }
    proof {
        let t = checksum_text(address@, hash@);
        assert(t.take(40) =~= t);
    }
    text
}

/// Writes `address` as forty hexadecimal digits in mixed case. The case of
/// the letters is a checksum: the digest is taken over the ASCII codes of the
/// lower-case text.
pub fn to_checksum_address(address: &[u8; 20]) -> (text: String)
    ensures
        text@ == checksum_text(address@, keccak256(lower_hex_ascii(address@))),
        text@.len() == 40,
{
    let ascii = lower_hex_bytes(address.as_slice());
    let hash = keccak256_digest(ascii.as_slice());
    checksum_with_hash(address, hash.as_slice())
}

/// A hexadecimal digit written in upper or lower case reads back as itself.
pub proof fn lemma_hex_digit_round_trip(n: u8)
    requires
        n < 16,
    ensures
        is_hex_digit(upper_hex_digit(n)),
        is_hex_digit(lower_hex_digit(n)),
        hex_digit_value(upper_hex_digit(n)) == n,
        hex_digit_value(lower_hex_digit(n)) == n,
{
}

/// Bytes written as hexadecimal text decode to the same bytes.
pub proof fn lemma_hex_round_trip(bytes: Seq<u8>)
    ensures
        all_hex_digits(encode_hex_upper(bytes)),
        decode_hex(encode_hex_upper(bytes)) == bytes,
{
    let e = encode_hex_upper(bytes);
    assert forall|i: int| 0 <= i < e.len() implies is_hex_digit(#[trigger] e[i]) by {
        lemma_hex_digit_round_trip(nibble_at(bytes, i));
    }
    assert forall|i: int| 0 <= i < bytes.len() implies decode_hex(e)[i] == bytes[i] by {
        lemma_hex_digit_round_trip(nibble_at(bytes, 2 * i));
        lemma_hex_digit_round_trip(nibble_at(bytes, 2 * i + 1));
    }
    assert(decode_hex(e) =~= bytes);
}

} // verus!
