//! Building the text of report lines: decimal and hexadecimal numbers and
//! padding, each with the exact characters it produces.

use vstd::prelude::*;

verus! {

/// `String::push` of std: the string afterwards is the string before with
/// `ch` appended as its last character.
pub assume_specification[ String::push ](s: &mut String, ch: char)
    ensures
        final(s)@ == old(s)@.push(ch),
;

/// The character of a decimal digit.
pub open spec fn decimal_digit(d: nat) -> char
    recommends
        d < 10,
{
    ((48 + d) as u8) as char
}

/// The decimal text of `n`, without sign, padding or leading zeros.
pub open spec fn decimal_text(n: nat) -> Seq<char>
    decreases n,
{
    if n < 10 {
        seq![decimal_digit(n)]
    } else {
        decimal_text(n / 10).push(decimal_digit(n % 10))
    }
}

/// `count` spaces.
pub open spec fn spaces(count: nat) -> Seq<char> {
    Seq::new(count, |i: int| ' ')
}

/// `text` followed by as many spaces as it takes to reach `width` characters;
/// `text` itself where it is that long already.
pub open spec fn pad_right(text: Seq<char>, width: nat) -> Seq<char> {
    if text.len() >= width {
        text
    } else {
        text + spaces((width - text.len()) as nat)
    }
}

/// The lower-case character of a hexadecimal digit.
pub open spec fn lower_hex_digit(n: u8) -> char
    recommends
        n < 16,
{
    if n < 10 {
        ((48 + n) as u8) as char
    } else {
        ((87 + n) as u8) as char
    }
}

/// The upper-case character of a hexadecimal digit.
pub open spec fn upper_hex_digit(n: u8) -> char
    recommends
        n < 16,
{
    if n < 10 {
        ((48 + n) as u8) as char
    } else {
        ((55 + n) as u8) as char
    }
}

/// The hexadecimal digit of `x` at position `i`, counted from the most
/// significant of its sixteen.
pub open spec fn hex_digit_of(x: u64, i: int) -> u8
    recommends
        0 <= i < 16,
{
    ((x >> ((60 - 4 * i) as u64)) & 0xF) as u8
}

/// `x` as sixteen lower-case hexadecimal digits, leading zeros included.
pub open spec fn hex16_text(x: u64) -> Seq<char> {
    Seq::new(16, |i: int| lower_hex_digit(hex_digit_of(x, i)))
}

/// Ten to the power `k`.
spec fn pow10(k: nat) -> nat
    decreases k,
{
    if k == 0 {
        1
    } else {
        10 * pow10((k - 1) as nat)
    }
}

/// Dropping the last digit of `rest` leaves room for one more power of ten.
proof fn lemma_pow10_step(rest: nat, k: nat)
    requires
        rest >= 10,
        rest * pow10(k) <= u128::MAX,
        k <= 38,
    ensures
        (rest / 10) * pow10(k + 1) <= u128::MAX,
        k + 1 <= 38,
        k + 1 == 38 ==> rest / 10 < 10,
{
    let q = rest / 10;
    assert(pow10(k + 1) == 10 * pow10(k));
    assert(q * (10 * pow10(k)) == (q * 10) * pow10(k)) by (nonlinear_arith);
    assert((q * 10) * pow10(k) <= rest * pow10(k)) by (nonlinear_arith)
        requires
            q * 10 <= rest,
    ;
    lemma_pow10_38();
    if k >= 37 {
        lemma_pow10_monotone(37, k);
        assert(10 * pow10(k) >= 10 * pow10(37));
        assert(pow10(k) >= 1);
        if k == 38 || q >= 10 {
            if k == 38 {
                assert(rest * pow10(38) >= 10 * pow10(38)) by (nonlinear_arith)
                    requires
                        rest >= 10,
                        pow10(38) >= 0,
                ;
            } else {
                assert(rest >= 100);
                assert(rest * pow10(37) >= 100 * pow10(37)) by (nonlinear_arith)
                    requires
                        rest >= 100,
                        pow10(37) >= 0,
                ;
            }
        }
    }
}

/// Powers of ten grow with the exponent.
proof fn lemma_pow10_monotone(a: nat, b: nat)
    requires
        a <= b,
    ensures
        pow10(a) <= pow10(b),
        pow10(a) >= 1,
    decreases b,
{
    if b > a {
        lemma_pow10_monotone(a, (b - 1) as nat);
    } else if a > 0 {
        lemma_pow10_monotone((a - 1) as nat, (a - 1) as nat);
    }
}

/// The values of the two powers of ten next to the largest `u128`.
proof fn lemma_pow10_38()
    ensures
        pow10(37) == 10000000000000000000000000000000000000,
        pow10(38) == 100000000000000000000000000000000000000,
        pow10(38) <= u128::MAX < 10 * pow10(38),
{
    reveal_with_fuel(pow10, 40);
}

/// The lower-case hexadecimal digit character of `n`.
pub fn lower_hex_char(n: u8) -> (c: char)
    requires
        n < 16,
    ensures
        c == lower_hex_digit(n),
{
    if n < 10 {
        (48 + n) as char
    } else {
        (87 + n) as char
    }
}

/// The upper-case hexadecimal digit character of `n`.
pub fn upper_hex_char(n: u8) -> (c: char)
    requires
        n < 16,
    ensures
        c == upper_hex_digit(n),
{
    if n < 10 {
        (48 + n) as char
    } else {
        (55 + n) as char
    }
}

/// The characters of `s`, one by one.
pub fn to_chars(s: &str) -> (chars: Vec<char>)
    ensures
        chars@ == s@,
{
    let mut chars: Vec<char> = Vec::new();
    for c in it: s.chars()
        invariant
            it.seq() == s@,
            chars@ == s@.take(it.index() as int),
    {
        chars.push(c);
        proof {
            assert(s@.take(it.index() + 1) =~= s@.take(it.index() as int).push(c));
        }
    }
    proof {
        assert(s@.take(s@.len() as int) =~= s@);
    }
    chars
}

/// Appends the decimal text of `n` to `s` and returns how many characters
/// that was.
pub fn push_decimal(s: &mut String, n: u128) -> (count: usize)
    ensures
        final(s)@ == old(s)@ + decimal_text(n as nat),
        count == decimal_text(n as nat).len(),
        1 <= count <= 39,
{
    // Digits come out least significant first; `digits` holds them in that
    // order and is then read backwards.
    let mut digits: Vec<char> = Vec::new();
    let mut rest: u128 = n;
    proof {
        assert(pow10(0) == 1);
        assert(digits@.reverse() =~= Seq::<char>::empty());
        assert(decimal_text(n as nat) + Seq::<char>::empty() =~= decimal_text(n as nat));
    }
    while rest >= 10
        invariant
            decimal_text(rest as nat) + digits@.reverse() == decimal_text(n as nat),
            digits@.len() <= 38,
            digits@.len() == 38 ==> rest < 10,
            rest * pow10(digits@.len()) <= u128::MAX,
        decreases rest,
    {
        let d: u8 = (rest % 10) as u8;
        let c: char = (48 + d) as char;
        proof {
            let before = digits@;
            let after = digits@.push(c);
            assert(after.reverse() =~= seq![c] + before.reverse());
            assert(decimal_text(rest as nat) == decimal_text((rest / 10) as nat).push(c));
            assert(decimal_text((rest / 10) as nat) + after.reverse() =~= decimal_text(rest as nat)
                + before.reverse());
            lemma_pow10_step(rest as nat, before.len());
        }
        digits.push(c);
        rest = rest / 10;
    }
    let first: char = (48 + (rest as u8)) as char;
    proof {
        assert(decimal_text(rest as nat) == seq![first]);
    }
    s.push(first);
    let ghost start = s@;
    let mut i: usize = digits.len();
    while i > 0
        invariant
            i <= digits.len(),
            s@ == start + digits@.reverse().take(digits.len() - i),
        decreases i,
    {
        i -= 1;
        s.push(digits[i]);
        proof {
            let r = digits@.reverse();
            let k = digits.len() - i;
            assert(r.take(k as int) =~= r.take(k - 1).push(r[k - 1]));
            assert(r[k - 1] == digits@[i as int]);
        }
    }
    proof {
        let r = digits@.reverse();
        assert(r.take(digits.len() as int) =~= r);
        assert(start + r =~= old(s)@ + (seq![first] + r));
    }
    digits.len() + 1
}

/// Appends `count` spaces to `s`.
pub fn push_spaces(s: &mut String, count: usize)
    ensures
        final(s)@ == old(s)@ + spaces(count as nat),
{
    let mut n: usize = 0;
    proof {
        assert(old(s)@ + spaces(0) =~= old(s)@);
    }
    while n < count
        invariant
            n <= count,
            s@ == old(s)@ + spaces(n as nat),
        decreases count - n,
    {
        s.push(' ');
        proof {
            assert(spaces((n + 1) as nat) =~= spaces(n as nat).push(' '));
        }
        n += 1;
    }
}

/// Pads a field that was just written at the end of `s` and is `used`
/// characters long: appends the spaces that bring it to `width` characters.
pub fn pad_field(s: &mut String, used: usize, width: usize)
    requires
        used <= old(s)@.len(),
    ensures
        final(s)@ == old(s)@.take(old(s)@.len() - used) + pad_right(
            old(s)@.skip(old(s)@.len() - used),
            width as nat,
        ),
{
    proof {
        let from = old(s)@.len() - used;
        assert(old(s)@ =~= old(s)@.take(from) + old(s)@.skip(from));
    }
    if used < width {
        push_spaces(s, width - used);
        proof {
            let from = old(s)@.len() - used;
            let field = old(s)@.skip(from);
            assert(s@ =~= old(s)@.take(from) + (field + spaces((width - used) as nat)));
        }
    }
}

/// Appends `x` as sixteen lower-case hexadecimal digits.
pub fn push_hex16(s: &mut String, x: u64)
    ensures
        final(s)@ == old(s)@ + hex16_text(x),
{
    let mut i: usize = 0;
    while i < 16
        invariant
            i <= 16,
            s@ == old(s)@ + hex16_text(x).take(i as int),
        decreases 16 - i,
    {
        let shift: u64 = 60 - 4 * (i as u64);
        let d: u64 = (x >> shift) & 0xF;
        assert(d < 16) by (bit_vector)
            requires
                d == (x >> shift) & 0xF,
        ;
        s.push(lower_hex_char(d as u8));
        proof {
            let t = hex16_text(x);
            assert(t.take(i + 1) =~= t.take(i as int).push(t[i as int]));
        }
        i += 1;
    }
    proof {
        assert(hex16_text(x).take(16) =~= hex16_text(x));
    }
}

} // verus!
