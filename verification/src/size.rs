//! Sizes as the service writes them for people ("1.1GB"), read as a number
//! of bytes.

use crate::decimal::{
    all_digits, digit_of, digit_value, digits_value, is_digit, lemma_digits_value_concat,
    lemma_power_of_ten_positive, power_of_ten,
};
use crate::text::chars_of;
use vstd::arithmetic::div_mod::{lemma_div_denominator, lemma_hoist_over_denominator};
use vstd::prelude::*;

verus! {

/// Why a size could not be read.
#[derive(Clone, Copy, Debug, PartialEq, Eq, Structural)]
pub enum SizeError {
    /// The text is not a number, a unit and at most one `B`.
    Shape,
    /// The number has no digit, or more than one decimal point.
    Number,
    /// The unit is none of K, M and G.
    Unit,
}

/// Whether a character may stand in the number of a size.
pub open spec fn is_number_char(c: char) -> bool {
    is_digit(c) || c == '.'
}

/// Whether a character is a unit: kilo, mega or giga, in either case.
pub open spec fn is_unit(c: char) -> bool {
    c == 'G' || c == 'g' || c == 'M' || c == 'm' || c == 'K' || c == 'k'
}

/// Whether a character is the `B` that may end a size.
pub open spec fn is_byte_mark(c: char) -> bool {
    c == 'B' || c == 'b'
}

/// How many bytes one of a unit holds: binary multiples.
pub open spec fn multiplier(unit: char) -> nat {
    if unit == 'K' || unit == 'k' {
        1024
    } else if unit == 'M' || unit == 'm' {
        1024 * 1024
    } else {
        1024 * 1024 * 1024
    }
}

/// The pattern of a size: a number, a unit, and at most one `B`.
pub const SIZE_PATTERN: &'static str = "^([0-9.]+)([GgMmKk])[Bb]?$";

/// A text without the `B` at its end, where it has one.
pub open spec fn without_byte_mark(text: Seq<char>) -> Seq<char> {
    if text.len() > 0 && is_byte_mark(text.last()) {
        text.drop_last()
    } else {
        text
    }
}

/// The number and the unit of a size, `None` where the text has another
/// shape. The number is one or more digits and points; the unit one letter.
pub open spec fn size_parts(text: Seq<char>) -> Option<(Seq<char>, Seq<char>)> {
    let core = without_byte_mark(text);
    if core.len() >= 2 && is_unit(core.last()) && (forall|i: int|
        0 <= i < core.len() - 1 ==> is_number_char(#[trigger] core[i])) {
        Some((core.drop_last(), seq![core.last()]))
    } else {
        None
    }
}

/// Where the first decimal point of a number stands; its length where it
/// has none.
pub open spec fn point_index(number: Seq<char>) -> int
    decreases number.len(),
{
    if number.len() == 0 || number[0] == '.' {
        0
    } else {
        1 + point_index(number.drop_first())
    }
}

/// What stands before the decimal point.
pub open spec fn whole_digits(number: Seq<char>) -> Seq<char> {
    number.subrange(0, point_index(number))
}

/// What stands behind the decimal point.
pub open spec fn fraction_digits(number: Seq<char>) -> Seq<char> {
    let point = point_index(number);
    if point < number.len() {
        number.subrange(point + 1, number.len() as int)
    } else {
        Seq::empty()
    }
}

/// Digits with at most one decimal point among them, and at least one digit.
pub open spec fn is_decimal_number(number: Seq<char>) -> bool {
    &&& all_digits(whole_digits(number))
    &&& all_digits(fraction_digits(number))
    &&& whole_digits(number).len() + fraction_digits(number).len() > 0
}

/// The number times the unit, rounded down to whole bytes.
pub open spec fn exact_bytes(number: Seq<char>, unit: char) -> nat {
    (digits_value(whole_digits(number) + fraction_digits(number)) * multiplier(unit))
        / power_of_ten(fraction_digits(number).len())
}

/// The bytes that a number and a unit stand for; what does not fit is
/// `u64::MAX`.
pub open spec fn bytes_of_parts(number: Seq<char>, unit: Seq<char>) -> Result<u64, SizeError> {
    if !is_decimal_number(number) {
        Err(SizeError::Number)
    } else if unit.len() != 1 || !is_unit(unit[0]) {
        Err(SizeError::Unit)
    } else {
        let exact = exact_bytes(number, unit[0]);
        Ok(
            if exact > u64::MAX {
                u64::MAX
            } else {
                exact as u64
            },
        )
    }
}

/// The bytes that a size text stands for.
pub open spec fn size_in_bytes(text: Seq<char>) -> Result<u64, SizeError> {
    match size_parts(text) {
        None => Err(SizeError::Shape),
        Some((number, unit)) => bytes_of_parts(number, unit),
    }
}

/// The first point of a number stands where a point stands and none stands
/// before it.
proof fn lemma_point_index(number: Seq<char>, point: int)
    requires
        0 <= point <= number.len(),
        forall|j: int| 0 <= j < point ==> number[j] != '.',
        point < number.len() ==> number[point] == '.',
    ensures
        point_index(number) == point,
    decreases number.len(),
{
    if number.len() == 0 || number[0] == '.' {
    } else {
        let rest = number.drop_first();
        assert forall|j: int| 0 <= j < point - 1 implies rest[j] != '.' by {
            assert(rest[j] == number[j + 1]);
        }
        lemma_point_index(rest, point - 1);
    }
}

/// `regex::Regex::new` and `regex::Regex::captures`, for the pattern of a
/// size: anchored at both ends, a first group of one or more digits and
/// points, a second group of one unit letter, then at most one `B` or `b`.
/// No unit letter is a digit, a point or a `B`, so a text matches in one way
/// at most, and the two groups are what `size_parts` gives.
#[verifier::external_body]
fn size_captures(pattern: &str, text: &str) -> (parts: Option<(String, String)>)
    requires
        pattern@ == SIZE_PATTERN@,
    ensures
        match parts {
            Some((number, unit)) => size_parts(text@) == Some((number@, unit@)),
            None => size_parts(text@) is None,
        },
{
    regex::Regex::new(pattern).unwrap().captures(text).map(
        |found| (found[1].to_string(), found[2].to_string()),
    )
}

/// How many bytes one of a unit holds, `None` for what is no unit.
fn unit_multiplier(unit: &str) -> (m: Option<u128>)
    ensures
        match m {
            Some(v) => unit@.len() == 1 && is_unit(unit@[0]) && v as nat == multiplier(unit@[0]),
            None => unit@.len() != 1 || !is_unit(unit@[0]),
        },
{
    let letters = chars_of(unit);
    if letters.len() != 1 {
        return None;
    }
    match letters[0] {
        'K' | 'k' => Some(1024),
        'M' | 'm' => Some(1048576),
        'G' | 'g' => Some(1073741824),
        _ => None,
    }
}

/// Whether every character from `from` up to `to` is a digit.
fn digits_between(chars: &Vec<char>, from: usize, to: usize) -> (ok: bool)
    requires
        from <= to <= chars.len(),
    ensures
        ok == all_digits(chars@.subrange(from as int, to as int)),
{
    let mut i: usize = from;
    while i < to
        invariant
            from <= i <= to <= chars.len(),
            all_digits(chars@.subrange(from as int, i as int)),
        decreases to - i,
    {
        if digit_of(chars[i]).is_none() {
            assert(chars@.subrange(from as int, to as int)[i - from] == chars@[i as int]);
            return false;
        }
        assert forall|k: int| 0 <= k < i + 1 - from implies is_digit(
            #[trigger] chars@.subrange(from as int, i + 1)[k],
        ) by {
            if k < i - from {
                assert(chars@.subrange(from as int, i as int)[k] == chars@[from + k]);
            }
        }
        i += 1;
    }
    true
}

/// The bytes that a number and a unit stand for: the number times 1024,
/// 1024² or 1024³, rounded down.
pub fn size_from_parts(number: &str, unit: &str) -> (r: Result<u64, SizeError>)
    ensures
        r == bytes_of_parts(number@, unit@),
{
    let chars = chars_of(number);
    let n = chars.len();
    let mut point: usize = 0;
    while point < n && chars[point] != '.'
        invariant
            point <= n == chars.len(),
            forall|j: int| 0 <= j < point ==> chars@[j] != '.',
        decreases n - point,
    {
        point += 1;
    }
    proof {
        lemma_point_index(number@, point as int);
    }
    let fraction_start: usize = if point < n {
        point + 1
    } else {
        n
    };
    let ghost whole = whole_digits(number@);
    let ghost fraction = fraction_digits(number@);
    assert(whole == chars@.subrange(0, point as int));
    assert(fraction =~= chars@.subrange(fraction_start as int, n as int));
    if !digits_between(&chars, 0, point) || !digits_between(&chars, fraction_start, n) || point + (n
        - fraction_start) == 0 {
        return Err(SizeError::Number);
    }
    let m: u128 = match unit_multiplier(unit) {
        None => {
            return Err(SizeError::Unit);
        },
        Some(v) => v,
    };
    let ghost unit_letter = unit@[0];
    let limit: u128 = 18446744073709551616;
    let mut sum: u128 = 0;
    let mut i: usize = 0;
    while i < point
        invariant
            i <= point <= n == chars.len(),
            all_digits(chars@.subrange(0, point as int)),
            limit == 18446744073709551616,
            sum <= limit,
            sum as nat == if digits_value(chars@.subrange(0, i as int)) < limit {
                digits_value(chars@.subrange(0, i as int))
            } else {
                limit as nat
            },
        decreases point - i,
    {
        assert(chars@.subrange(0, point as int)[i as int] == chars@[i as int]);
        let d: u128 = match digit_of(chars[i]) {
            Some(v) => v as u128,
            None => 0,
        };
        assert(chars@.subrange(0, i + 1).drop_last() =~= chars@.subrange(0, i as int));
        assert(chars@.subrange(0, i + 1).last() == chars@[i as int]);
        let next: u128 = sum * 10 + d;
        sum = if next < limit {
            next
        } else {
            limit
        };
        i += 1;
    }
    let mut carry: u128 = 0;
    let mut j: usize = n;
    assert(chars@.subrange(n as int, n as int) =~= Seq::<char>::empty());
    assert(digits_value(Seq::<char>::empty()) == 0);
    assert(0 * m == 0);
    assert(power_of_ten(0) == 1);
    while j > fraction_start
        invariant
            fraction_start <= j <= n == chars.len(),
            all_digits(chars@.subrange(fraction_start as int, n as int)),
            m as nat == multiplier(unit_letter),
            is_unit(unit_letter),
            carry < m,
            carry as int == (digits_value(chars@.subrange(j as int, n as int)) * m) / (power_of_ten(
                (n - j) as nat,
            ) as int),
        decreases j,
    {
        j -= 1;
        assert(chars@.subrange(fraction_start as int, n as int)[j - fraction_start] == chars@[j as int]);
        let d: u128 = match digit_of(chars[j]) {
            Some(v) => v as u128,
            None => 0,
        };
        proof {
            let tail = chars@.subrange(j + 1, n as int);
            let longer = chars@.subrange(j as int, n as int);
            let head = seq![chars@[j as int]];
            assert(longer =~= head + tail);
            assert(head.drop_last() =~= Seq::<char>::empty());
            assert(digits_value(head.drop_last()) == 0);
            assert(digits_value(head) == digit_value(chars@[j as int]));
            lemma_digits_value_concat(head, tail);
            let p = power_of_ten(tail.len()) as int;
            lemma_power_of_ten_positive(tail.len());
            let f = digits_value(tail) as int;
            let x = f * m;
            let dm = d * m;
            assert(x >= 0) by (nonlinear_arith)
                requires
                    x == f * m,
                    f >= 0,
                    m >= 0,
            ;
            assert(digits_value(longer) * m == dm * p + x) by (nonlinear_arith)
                requires
                    digits_value(longer) == d * p + f,
                    x == f * m,
                    dm == d * m,
            ;
            assert(power_of_ten((n - j) as nat) == p * 10);
            lemma_hoist_over_denominator(x, dm, p as nat);
            assert(dm * p + x >= 0) by (nonlinear_arith)
                requires
                    dm >= 0,
                    p > 0,
                    x >= 0,
            ;
            lemma_div_denominator(dm * p + x, p, 10);
            assert(dm <= 9 * m) by (nonlinear_arith)
                requires
                    dm == d * m,
                    d <= 9,
                    m >= 0,
            ;
        }
        carry = (d * m + carry) / 10;
    }
    proof {
        lemma_digits_value_concat(whole, fraction);
        let p = power_of_ten(fraction.len()) as int;
        lemma_power_of_ten_positive(fraction.len());
        let w = digits_value(whole) as int;
        let f = digits_value(fraction) as int;
        let x = f * m;
        let wm = w * m;
        assert(digits_value(whole + fraction) * m == x + wm * p) by (nonlinear_arith)
            requires
                digits_value(whole + fraction) == w * p + f,
                x == f * m,
                wm == w * m,
        ;
        lemma_hoist_over_denominator(x, wm, p as nat);
        assert(exact_bytes(number@, unit_letter) == carry + wm);
        assert(w >= limit ==> wm >= limit) by (nonlinear_arith)
            requires
                wm == w * m,
                m >= 1,
                limit >= 0,
        ;
        assert(sum * m <= limit * m) by (nonlinear_arith)
            requires
                sum <= limit,
                m >= 0,
        ;
    }
    let total: u128 = sum * m + carry;
    if total > u64::MAX as u128 {
        Ok(u64::MAX)
    } else {
        Ok(total as u64)
    }
}

/// Reads a size such as `1.1GB`, `1125MB` or `11532.6K` as a number of
/// bytes.
pub fn parse_size(text: &str) -> (r: Result<u64, SizeError>)
    ensures
        r == size_in_bytes(text@),
{
    match size_captures(SIZE_PATTERN, text) {
        None => Err(SizeError::Shape),
        Some((number, unit)) => size_from_parts(number.as_str(), unit.as_str()),
    }
}

} // verus!
