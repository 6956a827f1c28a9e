//! Balances that arrive as fractional numbers: as the bits of a double, or as
//! decimal text. Both are brought to a whole number of credits in integer
//! arithmetic.

use vstd::prelude::*;
use vstd::arithmetic::div_mod::lemma_div_denominator;
use vstd::string::StringSliceAdditionalSpecFns;
use crate::text::{all_digits, digits_value, is_digit};

verus! {

/// `2` to the power `k`.
pub open spec fn two_to(k: nat) -> nat
    decreases k,
{
    if k == 0 {
        1
    } else {
        2 * two_to((k - 1) as nat)
    }
}

/// The sign bit of a double: set for negative numbers.
pub open spec fn float_negative(bits: u64) -> bool {
    bits >= 0x8000_0000_0000_0000
}

/// The exponent field of a double.
pub open spec fn float_exponent(bits: u64) -> int {
    ((bits as int) / 0x10_0000_0000_0000) % 0x800
}

/// The fraction field of a double.
pub open spec fn float_fraction(bits: u64) -> int {
    (bits as int) % 0x10_0000_0000_0000
}

/// The double is not a number.
pub open spec fn float_is_nan(bits: u64) -> bool {
    float_exponent(bits) == 0x7ff && float_fraction(bits) != 0
}

/// A number, or the mark that it is too large for 32 bits.
pub open spec fn saturated(n: int) -> u32 {
    if n > u32::MAX {
        u32::MAX
    } else {
        n as u32
    }
}

/// The magnitude of a finite double, rounded to the nearest whole number,
/// halves away from zero. A normal double is `(2^52 + fraction)` times `2`
/// to the power `exponent - 1075`; anything smaller rounds to zero.
pub open spec fn float_magnitude_rounded(bits: u64) -> nat {
    let exponent = float_exponent(bits);
    let mantissa = 0x10_0000_0000_0000 + float_fraction(bits);
    if exponent == 0 {
        0
    } else if exponent >= 1075 {
        (mantissa * two_to((exponent - 1075) as nat)) as nat
    } else {
        ((mantissa / (two_to((1074 - exponent) as nat) as int) + 1) / 2) as nat
    }
}

/// The magnitude of a finite double with its fraction cut off.
pub open spec fn float_magnitude_truncated(bits: u64) -> nat {
    let exponent = float_exponent(bits);
    let mantissa = 0x10_0000_0000_0000 + float_fraction(bits);
    if exponent == 0 {
        0
    } else if exponent >= 1075 {
        (mantissa * two_to((exponent - 1075) as nat)) as nat
    } else {
        (mantissa / (two_to((1075 - exponent) as nat) as int)) as nat
    }
}

/// The credits that a double stands for when it is rounded: zero for a
/// negative number and for what is not a number, the largest value for
/// anything too large, else the nearest whole number.
pub open spec fn float_rounded(bits: u64) -> u32 {
    if float_negative(bits) || float_is_nan(bits) {
        0
    } else if float_exponent(bits) == 0x7ff {
        u32::MAX
    } else {
        saturated(float_magnitude_rounded(bits) as int)
    }
}

/// The credits that a double stands for when its fraction is cut off.
pub open spec fn float_truncated(bits: u64) -> u32 {
    if float_negative(bits) || float_is_nan(bits) {
        0
    } else if float_exponent(bits) == 0x7ff {
        u32::MAX
    } else {
        saturated(float_magnitude_truncated(bits) as int)
    }
}

/// The magnitude of a finite double, as a number: nothing for a double
/// smaller than any normal one, else `(2^52 + fraction)` times `2` to the
/// power `exponent - 1075`.
pub open spec fn float_magnitude(bits: u64) -> real {
    let exponent = float_exponent(bits);
    let mantissa = 0x10_0000_0000_0000 + float_fraction(bits);
    if exponent == 0 {
        0real
    } else if exponent >= 1075 {
        (mantissa * two_to((exponent - 1075) as nat)) as real
    } else {
        mantissa as real / two_to((1075 - exponent) as nat) as real
    }
}

/// What rounding and cutting off mean for a double that is a number, of a
/// magnitude of a normal double or nothing: the rounded magnitude is the
/// whole number nearest to the magnitude, the upper one where two are
/// equally near; the truncated magnitude is the largest whole number that
/// is not above the magnitude.
pub proof fn lemma_float_magnitudes(bits: u64)
    requires
        float_exponent(bits) != 0x7ff,
    ensures
        2real * float_magnitude_rounded(bits) as real - 1real <= 2real * float_magnitude(bits),
        2real * float_magnitude(bits) < 2real * float_magnitude_rounded(bits) as real + 1real,
        float_magnitude_truncated(bits) as real <= float_magnitude(bits),
        float_magnitude(bits) < float_magnitude_truncated(bits) as real + 1real,
{
    let exponent = float_exponent(bits);
    let mantissa = 0x10_0000_0000_0000 + float_fraction(bits);
    if 0 < exponent < 1075 {
        let half = two_to((1074 - exponent) as nat) as int;
        let whole = two_to((1075 - exponent) as nat) as int;
        lemma_two_to_positive((1074 - exponent) as nat);
        assert(whole == 2 * half);
        let t = mantissa / half;
        let r = mantissa % half;
        let rounded = (t + 1) / 2;
        let q = mantissa / whole;
        let p = mantissa % whole;
        assert(mantissa == t * half + r && 0 <= r < half) by (nonlinear_arith)
            requires
                half > 0,
                t == mantissa / half,
                r == mantissa % half,
        ;
        assert(mantissa == q * whole + p && 0 <= p < whole) by (nonlinear_arith)
            requires
                whole > 0,
                q == mantissa / whole,
                p == mantissa % whole,
        ;
        assert((2 * rounded - 1) * half <= mantissa < (2 * rounded + 1) * half)
            by (nonlinear_arith)
            requires
                mantissa == t * half + r,
                0 <= r < half,
                t == 2 * rounded || t == 2 * rounded - 1,
        ;
        let v = float_magnitude(bits);
        let m = mantissa as real;
        let w = whole as real;
        assert(v * w == m) by (nonlinear_arith)
            requires
                v == m / w,
                w > 0real,
        ;
        assert(((2 * rounded - 1) * half) as real == (2real * rounded as real - 1real)
            * half as real) by (nonlinear_arith);
        assert(((2 * rounded + 1) * half) as real == (2real * rounded as real + 1real)
            * half as real) by (nonlinear_arith);
        assert((q * whole) as real == q as real * w) by (nonlinear_arith)
            requires
                w == whole as real,
        ;
        assert(w == 2real * half as real);
        assert(2real * rounded as real - 1real <= 2real * v < 2real * rounded as real + 1real)
            by (nonlinear_arith)
            requires
                v * w == m,
                w == 2real * half as real,
                half as real > 0real,
                (2real * rounded as real - 1real) * half as real <= m,
                m < (2real * rounded as real + 1real) * half as real,
        ;
        assert(q as real <= v < q as real + 1real) by (nonlinear_arith)
            requires
                v * w == m,
                w > 0real,
                q as real * w <= m,
                m < q as real * w + w,
        ;
    }
}

/// `2` to any power is positive.
proof fn lemma_two_to_positive(k: nat)
    ensures
        two_to(k) >= 1,
    decreases k,
{
    if k > 0 {
        lemma_two_to_positive((k - 1) as nat);
    }
}

/// Halves `value` `times` times.
fn halve(value: u64, times: u64) -> (rest: u64)
    ensures
        rest == (value as int) / (two_to(times as nat) as int),
        rest <= value,
{
    let mut rest: u64 = value;
    let mut done: u64 = 0;
    assert(two_to(0) == 1);
    while done < times && rest > 0
        invariant
            done <= times,
            rest <= value,
            rest == (value as int) / (two_to(done as nat) as int),
        decreases times - done,
    {
        proof {
            lemma_two_to_positive(done as nat);
            lemma_div_denominator(value as int, two_to(done as nat) as int, 2);
            assert(two_to(done as nat) * 2 == two_to((done + 1) as nat));
        }
        rest = rest / 2;
        done = done + 1;
    }
    proof {
        if done < times {
            lemma_halved_to_nothing(value as int, done as nat, times as nat);
        }
    }
    rest
}

/// What is nothing after some halvings is nothing after more.
proof fn lemma_halved_to_nothing(value: int, done: nat, times: nat)
    requires
        0 <= value,
        done <= times,
        value / (two_to(done) as int) == 0,
    ensures
        value / (two_to(times) as int) == 0,
    decreases times - done,
{
    if done < times {
        lemma_two_to_positive(done);
        lemma_div_denominator(value, two_to(done) as int, 2);
        assert(two_to(done) * 2 == two_to(done + 1));
        lemma_halved_to_nothing(value, done + 1, times);
    }
}

/// The credits that the double with the given bits stands for, rounded.
pub fn round_float_bits(bits: u64) -> (credits: u32)
    ensures
        credits == float_rounded(bits),
{
    let exponent: u64 = (bits / 0x10_0000_0000_0000) % 0x800;
    let fraction: u64 = bits % 0x10_0000_0000_0000;
    if bits >= 0x8000_0000_0000_0000 {
        return 0;
    }
    if exponent == 0x7ff {
        return if fraction == 0 {
            0xffff_ffff
        } else {
            0
        };
    }
    if exponent == 0 {
        return 0;
    }
    let mantissa: u64 = 0x10_0000_0000_0000 + fraction;
    if exponent >= 1075 {
        proof {
            let scale = two_to((exponent - 1075) as nat);
            lemma_two_to_positive((exponent - 1075) as nat);
            assert(mantissa * scale >= mantissa) by (nonlinear_arith)
                requires
                    scale >= 1,
                    mantissa >= 0,
            ;
        }
        return 0xffff_ffff;
    }
    let whole: u64 = (halve(mantissa, 1074 - exponent) + 1) / 2;
    if whole > 0xffff_ffff {
        0xffff_ffff
    } else {
        whole as u32
    }
}

/// The credits that the double with the given bits stands for, with its
/// fraction cut off.
pub fn truncate_float_bits(bits: u64) -> (credits: u32)
    ensures
        credits == float_truncated(bits),
{
    let exponent: u64 = (bits / 0x10_0000_0000_0000) % 0x800;
    let fraction: u64 = bits % 0x10_0000_0000_0000;
    if bits >= 0x8000_0000_0000_0000 {
        return 0;
    }
    if exponent == 0x7ff {
        return if fraction == 0 {
            0xffff_ffff
        } else {
            0
        };
    }
    if exponent == 0 {
        return 0;
    }
    let mantissa: u64 = 0x10_0000_0000_0000 + fraction;
    if exponent >= 1075 {
        proof {
            let scale = two_to((exponent - 1075) as nat);
            lemma_two_to_positive((exponent - 1075) as nat);
            assert(mantissa * scale >= mantissa) by (nonlinear_arith)
                requires
                    scale >= 1,
                    mantissa >= 0,
            ;
        }
        return 0xffff_ffff;
    }
    let whole: u64 = halve(mantissa, 1075 - exponent);
    if whole > 0xffff_ffff {
        0xffff_ffff
    } else {
        whole as u32
    }
}

/// The index of the first point in `s`, or the length of `s` without one.
pub open spec fn dot_index(s: Seq<u8>) -> int
    decreases s.len(),
{
    if s.len() == 0 {
        0
    } else if s[0] == 46 {
        0
    } else {
        1 + dot_index(s.drop_first())
    }
}

/// The text starts with a minus sign.
pub open spec fn has_minus(s: Seq<u8>) -> bool {
    s.len() > 0 && s[0] == 45
}

/// What is left of `s` behind a leading sign, if it has one.
pub open spec fn behind_sign(s: Seq<u8>) -> Seq<u8> {
    if s.len() > 0 && (s[0] == 43 || s[0] == 45) {
        s.subrange(1, s.len() as int)
    } else {
        s
    }
}

/// What stands before the point.
pub open spec fn whole_digits(s: Seq<u8>) -> Seq<u8> {
    behind_sign(s).subrange(0, dot_index(behind_sign(s)))
}

/// What stands behind the point; nothing without a point.
pub open spec fn fraction_digits(s: Seq<u8>) -> Seq<u8> {
    let body = behind_sign(s);
    if dot_index(body) < body.len() {
        body.subrange(dot_index(body) + 1, body.len() as int)
    } else {
        Seq::empty()
    }
}

/// The text is a decimal number: an optional sign, digits, and optionally a
/// point and more digits, with at least one digit in all.
pub open spec fn is_decimal(s: Seq<u8>) -> bool {
    &&& all_digits(whole_digits(s))
    &&& all_digits(fraction_digits(s))
    &&& whole_digits(s).len() + fraction_digits(s).len() > 0
}

/// The fraction of the number is a half or more.
pub open spec fn rounds_up(s: Seq<u8>) -> bool {
    fraction_digits(s).len() > 0 && fraction_digits(s)[0] >= 53
}

/// `10` to the power `k`.
pub open spec fn ten_to(k: nat) -> nat
    decreases k,
{
    if k == 0 {
        1
    } else {
        10 * ten_to((k - 1) as nat)
    }
}

/// The digits behind the point denote their value over `10` to the power
/// of their number. The first of them bounds that: the value lies from the
/// first digit's tenths up to, but not at, the next tenth.
pub proof fn lemma_first_digit_bounds(digits: Seq<u8>)
    requires
        digits.len() > 0,
        all_digits(digits),
    ensures
        (digits[0] - 48) * ten_to((digits.len() - 1) as nat) <= digits_value(digits),
        digits_value(digits) < (digits[0] - 48 + 1) * ten_to((digits.len() - 1) as nat),
    decreases digits.len(),
{
    let n = digits.len();
    let first = digits[0] - 48;
    if n == 1 {
        assert(digits.drop_last().len() == 0);
        assert(digits_value(digits.drop_last()) == 0);
        assert(digits.last() == digits[0]);
        assert(ten_to(0) == 1);
        assert(first * 1 == first && (first + 1) * 1 == first + 1) by (nonlinear_arith);
    } else {
        let front = digits.drop_last();
        assert(all_digits(front)) by {
            assert forall|i: int| 0 <= i < front.len() implies is_digit(#[trigger] front[i]) by {
                assert(front[i] == digits[i]);
            }
        }
        lemma_first_digit_bounds(front);
        assert(front[0] == digits[0]);
        assert(is_digit(digits[n - 1]));
        let scale = ten_to((n - 2) as nat) as int;
        let value = digits_value(front) as int;
        let last = digits.last() - 48;
        assert(ten_to((n - 1) as nat) == 10 * scale);
        assert(first * (10 * scale) <= value * 10 + last && value * 10 + last < (first + 1) * (10
            * scale)) by (nonlinear_arith)
            requires
                first * scale <= value,
                value < (first + 1) * scale,
                0 <= last <= 9,
        ;
    }
}

/// A decimal number is rounded up exactly when its fraction is a half or
/// more: when twice the value of the digits behind the point is at least
/// `10` to the power of their number.
pub proof fn lemma_rounds_up_from_half(s: Seq<u8>)
    requires
        is_decimal(s),
        fraction_digits(s).len() > 0,
    ensures
        rounds_up(s) <==> 2 * digits_value(fraction_digits(s)) >= ten_to(fraction_digits(s).len()),
{
    let digits = fraction_digits(s);
    lemma_first_digit_bounds(digits);
    let scale = ten_to((digits.len() - 1) as nat) as int;
    let first = digits[0] - 48;
    let value = digits_value(digits) as int;
    assert(is_digit(digits[0]));
    assert(ten_to(digits.len()) == 10 * scale);
    lemma_ten_to_positive((digits.len() - 1) as nat);
    assert(first >= 5 ==> 2 * value >= 10 * scale) by (nonlinear_arith)
        requires
            first * scale <= value,
            scale >= 1,
    ;
    assert(first <= 4 ==> 2 * value < 10 * scale) by (nonlinear_arith)
        requires
            value < (first + 1) * scale,
            scale >= 1,
    ;
}

/// `10` to any power is positive.
proof fn lemma_ten_to_positive(k: nat)
    ensures
        ten_to(k) >= 1,
    decreases k,
{
    if k > 0 {
        lemma_ten_to_positive((k - 1) as nat);
    }
}

/// The credits that a decimal number stands for with its fraction cut off:
/// zero for a negative number, the largest value for anything too large.
pub open spec fn decimal_truncated(s: Seq<u8>) -> Option<u32> {
    if !is_decimal(s) {
        None
    } else if has_minus(s) {
        Some(0)
    } else {
        Some(saturated(digits_value(whole_digits(s)) as int))
    }
}

/// The credits that a decimal number stands for when it is rounded to the
/// nearest whole number, halves away from zero.
pub open spec fn decimal_rounded(s: Seq<u8>) -> Option<u32> {
    if !is_decimal(s) {
        None
    } else if has_minus(s) {
        Some(0)
    } else {
        Some(
            saturated(
                digits_value(whole_digits(s)) + if rounds_up(s) {
                    1int
                } else {
                    0int
                },
            ),
        )
    }
}

/// Reads `bytes[from..to]` as digits: their value, or `2^32` where it is
/// that or more; none where a byte is no digit.
fn read_digits(bytes: &[u8], from: usize, to: usize) -> (value: Option<u64>)
    requires
        from <= to <= bytes.len(),
    ensures
        value is Some <==> all_digits(bytes@.subrange(from as int, to as int)),
        value matches Some(v) ==> v == if digits_value(bytes@.subrange(from as int, to as int))
            >= 0x1_0000_0000 {
            0x1_0000_0000
        } else {
            digits_value(bytes@.subrange(from as int, to as int))
        },
{
    let ghost digits = bytes@.subrange(from as int, to as int);
    let mut value: u64 = 0;
    let mut i: usize = from;
    while i < to
        invariant
            from <= i <= to <= bytes.len(),
            digits == bytes@.subrange(from as int, to as int),
            all_digits(digits.subrange(0, i - from)),
            value <= 0x1_0000_0000,
            value == if digits_value(digits.subrange(0, i - from)) >= 0x1_0000_0000 {
                0x1_0000_0000
            } else {
                digits_value(digits.subrange(0, i - from))
            },
        decreases to - i,
    {
        let b = bytes[i];
        proof {
            assert(digits[i - from] == b);
            assert(digits.subrange(0, i - from + 1).drop_last() =~= digits.subrange(0, i - from));
        }
        if b < 48 || b > 57 {
            return None;
        }
        proof {
            assert forall|j: int| 0 <= j < i - from + 1 implies is_digit(
                #[trigger] digits.subrange(0, i - from + 1)[j],
            ) by {
                if j < i - from {
                    assert(digits.subrange(0, i - from)[j] == digits[j]);
                }
            }
        }
        let next: u64 = value * 10 + (b - 48) as u64;
        value = if next >= 0x1_0000_0000 {
            0x1_0000_0000
        } else {
            next
        };
        i = i + 1;
    }
    proof {
        assert(digits.subrange(0, i - from) =~= digits);
    }
    Some(value)
}

/// Reads a decimal number: whether it is negative, the digits before the
/// point as a value of at most `2^32`, and whether its fraction is a half
/// or more.
fn read_decimal(bytes: &[u8]) -> (parts: Option<(bool, u64, bool)>)
    ensures
        parts is Some <==> is_decimal(bytes@),
        parts matches Some((negative, whole, up)) ==> {
            &&& negative == has_minus(bytes@)
            &&& up == rounds_up(bytes@)
            &&& whole == if digits_value(whole_digits(bytes@)) >= 0x1_0000_0000 {
                0x1_0000_0000
            } else {
                digits_value(whole_digits(bytes@))
            }
        },
{
    let n = bytes.len();
    let negative = n > 0 && bytes[0] == 45;
    let from: usize = if n > 0 && (bytes[0] == 43 || bytes[0] == 45) {
        1
    } else {
        0
    };
    let ghost body = behind_sign(bytes@);
    proof {
        assert(body =~= bytes@.subrange(from as int, n as int));
    }
    let mut dot: usize = from;
    proof {
        assert(body.subrange(0, body.len() as int) =~= body);
    }
    while dot < n && bytes[dot] != 46
        invariant
            from <= dot <= n,
            n == bytes.len(),
            body == bytes@.subrange(from as int, n as int),
            dot_index(body) == (dot - from) + dot_index(
                body.subrange(dot - from, body.len() as int),
            ),
        decreases n - dot,
    {
        proof {
            let rest = body.subrange(dot - from, body.len() as int);
            assert(rest[0] == bytes@[dot as int]);
            assert(rest.drop_first() =~= body.subrange(dot - from + 1, body.len() as int));
        }
        dot = dot + 1;
    }
    proof {
        let rest = body.subrange(dot - from, body.len() as int);
        if dot < n {
            assert(rest[0] == bytes@[dot as int]);
        }
        assert(dot_index(body) == dot - from);
        assert(whole_digits(bytes@) =~= bytes@.subrange(from as int, dot as int));
        if dot < n {
            assert(fraction_digits(bytes@) =~= bytes@.subrange(dot + 1, n as int));
        }
    }
    let whole = match read_digits(bytes, from, dot) {
        Some(v) => v,
        None => {
            return None;
        },
    };
    let mut up = false;
    let mut fraction_len: usize = 0;
    if dot < n {
        if read_digits(bytes, dot + 1, n).is_none() {
            return None;
        }
        fraction_len = n - dot - 1;
        up = fraction_len > 0 && bytes[dot + 1] >= 53;
    }
    if dot - from + fraction_len == 0 {
        return None;
    }
    Some((negative, whole, up))
}

/// Reads the credits out of a decimal number, cutting its fraction off.
pub fn parse_decimal_truncated(text: &str) -> (credits: Option<u32>)
    ensures
        credits == decimal_truncated(text.spec_bytes()),
{
    match read_decimal(text.as_bytes()) {
        Some((negative, whole, _)) => {
            if negative {
                Some(0)
            } else if whole > 0xffff_ffff {
                Some(0xffff_ffff)
            } else {
                Some(whole as u32)
            }
        },
        None => None,
    }
}

/// Reads the credits out of a decimal number, rounding it to the nearest
/// whole number.
pub fn parse_decimal_rounded(text: &str) -> (credits: Option<u32>)
    ensures
        credits == decimal_rounded(text.spec_bytes()),
{
    match read_decimal(text.as_bytes()) {
        Some((negative, whole, up)) => {
            let rounded: u64 = if up {
                whole + 1
            } else {
                whole
            };
            if negative {
                Some(0)
            } else if rounded > 0xffff_ffff {
                Some(0xffff_ffff)
            } else {
                Some(rounded as u32)
            }
        },
        None => None,
    }
}

} // verus!
