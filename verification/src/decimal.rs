//! Decimal digits: what a run of them is worth, and how a number is
//! written with them.

use crate::text::push_char;
use vstd::prelude::*;

verus! {

/// Whether a character is one of the ten digits.
pub open spec fn is_digit(c: char) -> bool {
    '0' <= c && c <= '9'
}

/// The worth of one digit.
pub open spec fn digit_value(c: char) -> nat {
    (c as int - '0' as int) as nat
}

/// The digit that is worth `d`.
pub open spec fn digit_char(d: nat) -> char {
    ('0' as int + d) as char
}

/// Whether a text holds digits only.
pub open spec fn all_digits(text: Seq<char>) -> bool {
    forall|i: int| 0 <= i < text.len() ==> is_digit(#[trigger] text[i])
}

/// The number that a run of digits writes, the empty run counting as zero.
pub open spec fn digits_value(digits: Seq<char>) -> nat
    decreases digits.len(),
{
    if digits.len() == 0 {
        0
    } else {
        digits_value(digits.drop_last()) * 10 + digit_value(digits.last())
    }
}

/// Ten to a power.
pub open spec fn power_of_ten(exponent: nat) -> nat
    decreases exponent,
{
    if exponent == 0 {
        1
    } else {
        10 * power_of_ten((exponent - 1) as nat)
    }
}

/// A number written in decimal, without leading zeros.
pub open spec fn decimal_text(n: nat) -> Seq<char>
    decreases n,
{
    if n < 10 {
        seq![digit_char(n)]
    } else {
        decimal_text(n / 10).push(digit_char(n % 10))
    }
}

/// A power of ten is at least one.
pub proof fn lemma_power_of_ten_positive(exponent: nat)
    ensures
        power_of_ten(exponent) > 0,
    decreases exponent,
{
    if exponent > 0 {
        lemma_power_of_ten_positive((exponent - 1) as nat);
    }
}

/// A run of digits followed by another is worth the first, shifted by the
/// length of the second, plus the second.
pub proof fn lemma_digits_value_concat(left: Seq<char>, right: Seq<char>)
    ensures
        digits_value(left + right) == digits_value(left) * power_of_ten(right.len())
            + digits_value(right),
    decreases right.len(),
{
    if right.len() == 0 {
        assert(left + right =~= left);
        assert(digits_value(left) * 1 == digits_value(left));
    } else {
        let shorter = right.drop_last();
        lemma_digits_value_concat(left, shorter);
        assert((left + right).drop_last() =~= left + shorter);
        assert((left + right).last() == right.last());
        let p = power_of_ten(shorter.len()) as int;
        let l = digits_value(left) as int;
        let s = digits_value(shorter) as int;
        let d = digit_value(right.last()) as int;
        assert(power_of_ten(right.len()) == 10 * p);
        assert(digits_value(right) == s * 10 + d);
        assert(digits_value(left + right) == (l * p + s) * 10 + d);
        assert((l * p + s) * 10 == l * (10 * p) + s * 10) by (nonlinear_arith);
    }
}

/// The worth of a digit, `None` for any other character.
pub fn digit_of(c: char) -> (d: Option<u8>)
    ensures
        match d {
            Some(v) => is_digit(c) && v as nat == digit_value(c),
            None => !is_digit(c),
        },
{
    match c {
        '0' => Some(0),
        '1' => Some(1),
        '2' => Some(2),
        '3' => Some(3),
        '4' => Some(4),
        '5' => Some(5),
        '6' => Some(6),
        '7' => Some(7),
        '8' => Some(8),
        '9' => Some(9),
        _ => None,
    }
}

/// The digit that is worth `d`.
pub fn digit_to_char(d: u8) -> (c: char)
    requires
        d < 10,
    ensures
        c == digit_char(d as nat),
{
    match d {
        0 => '0',
        1 => '1',
        2 => '2',
        3 => '3',
        4 => '4',
        5 => '5',
        6 => '6',
        7 => '7',
        8 => '8',
        _ => '9',
    }
}

/// Writes a number in decimal.
pub fn decimal_string(n: u64) -> (text: String)
    ensures
        text@ == decimal_text(n as nat),
    decreases n,
{
    if n < 10 {
        let mut text = String::new();
        push_char(&mut text, digit_to_char(n as u8));
        assert(text@ =~= seq![digit_char(n as nat)]);
        text
    } else {
        let mut text = decimal_string(n / 10);
        push_char(&mut text, digit_to_char((n % 10) as u8));
        text
    }
}

/// The characters that a row of bytes stands for, byte by byte.
pub open spec fn byte_text(bytes: Seq<u8>) -> Seq<char> {
    bytes.map_values(|b: u8| b as char)
}

/// What is left of a number without the plus sign before it.
pub open spec fn unsigned_digits(bytes: Seq<u8>) -> Seq<char> {
    if bytes.len() > 0 && bytes[0] == 43 {
        byte_text(bytes.skip(1))
    } else {
        byte_text(bytes)
    }
}

/// The number that bytes write: one or more digits, with or without a plus
/// sign before them, worth no more than `u64::MAX`.
pub open spec fn unsigned_value(bytes: Seq<u8>) -> Option<u64> {
    let digits = unsigned_digits(bytes);
    if digits.len() > 0 && all_digits(digits) && digits_value(digits) <= u64::MAX {
        Some(digits_value(digits) as u64)
    } else {
        None
    }
}

/// The beginning of a run of digits is worth no more than the run.
pub proof fn lemma_digits_value_grows(digits: Seq<char>, length: int)
    requires
        0 <= length <= digits.len(),
    ensures
        digits_value(digits.take(length)) <= digits_value(digits),
{
    let front = digits.take(length);
    let back = digits.skip(length);
    assert(front + back =~= digits);
    lemma_digits_value_concat(front, back);
    lemma_power_of_ten_positive(back.len());
    assert(digits_value(front) * power_of_ten(back.len()) >= digits_value(front))
        by (nonlinear_arith)
        requires
            power_of_ten(back.len()) >= 1,
    ;
}

/// Reads a number written in decimal digits.
pub fn parse_unsigned(bytes: &[u8]) -> (number: Option<u64>)
    ensures
        number == unsigned_value(bytes@),
{
    let n = bytes.len();
    let start: usize = if n > 0 && bytes[0] == 43 {
        1
    } else {
        0
    };
    let ghost digits = unsigned_digits(bytes@);
    assert(digits =~= byte_text(bytes@.skip(start as int)));
    assert(digits.len() == n - start);
    if start == n {
        return None;
    }
    let mut value: u64 = 0;
    let mut i: usize = start;
    assert(digits.take(0) =~= Seq::<char>::empty());
    while i < n
        invariant
            start <= i <= n == bytes.len(),
            digits == unsigned_digits(bytes@),
            digits == byte_text(bytes@.skip(start as int)),
            digits.len() == n - start,
            all_digits(digits.take(i - start)),
            value as nat == digits_value(digits.take(i - start)),
        decreases n - i,
    {
        let b = bytes[i];
        assert(digits[i - start] == b as char);
        if b < 48 || b > 57 {
            assert(!is_digit(digits[i - start]));
            return None;
        }
        let d: u64 = (b - 48) as u64;
        let ghost longer = digits.take(i + 1 - start);
        assert(longer.drop_last() =~= digits.take(i - start));
        assert(longer.last() == b as char);
        assert(digit_value(b as char) == d);
        assert(all_digits(longer)) by {
            assert forall|k: int| 0 <= k < longer.len() implies is_digit(#[trigger] longer[k]) by {
                if k < longer.len() - 1 {
                    assert(digits.take(i - start)[k] == longer[k]);
                }
            }
        }
        if value > (u64::MAX - d) / 10 {
            proof {
                assert(digits_value(longer) > u64::MAX);
                lemma_digits_value_grows(digits, i + 1 - start);
            }
            return None;
        }
        value = value * 10 + d;
        i += 1;
    }
    assert(digits.take(n - start) =~= digits);
    Some(value)
}

} // verus!
