//! Text as bytes: searching, reading decimal numbers, and writing them.

use vstd::prelude::*;
use vstd::string::{StrSliceExecFns, StringExecFns, StringSliceAdditionalSpecFns};
use crate::ratio::{lemma_quotient, Ratio};

verus! {

/// `needle` stands in `haystack` at index `at`.
pub open spec fn occurs_at(haystack: Seq<u8>, needle: Seq<u8>, at: int) -> bool {
    &&& 0 <= at
    &&& at + needle.len() <= haystack.len()
    &&& haystack.subrange(at, at + needle.len()) == needle
}

/// `at` is the first index from `from` on at which `needle` stands.
pub open spec fn first_occurrence(haystack: Seq<u8>, needle: Seq<u8>, from: int, at: int) -> bool {
    &&& from <= at
    &&& occurs_at(haystack, needle, at)
    &&& forall|j: int| from <= j < at ==> !occurs_at(haystack, needle, j)
}

/// The first index from `from` on at which `needle` stands in `haystack`.
pub open spec fn index_of(haystack: Seq<u8>, needle: Seq<u8>, from: int) -> Option<int>
    decreases haystack.len() - from,
{
    if from < 0 || from + needle.len() > haystack.len() {
        None
    } else if occurs_at(haystack, needle, from) {
        Some(from)
    } else if from >= haystack.len() {
        None
    } else {
        index_of(haystack, needle, from + 1)
    }
}

/// `needle` stands somewhere in `haystack`.
pub open spec fn contains_bytes(haystack: Seq<u8>, needle: Seq<u8>) -> bool {
    exists|at: int| occurs_at(haystack, needle, at)
}

/// Whether `needle` stands in `haystack` at index `at`.
fn matches_at(haystack: &[u8], needle: &[u8], at: usize) -> (found: bool)
    requires
        at + needle.len() <= haystack.len(),
    ensures
        found == occurs_at(haystack@, needle@, at as int),
{
    let mut k: usize = 0;
    while k < needle.len()
        invariant
            k <= needle.len(),
            at + needle.len() <= haystack.len(),
            forall|j: int| 0 <= j < k ==> haystack@[at + j] == needle@[j],
        decreases needle.len() - k,
    {
        if haystack[at + k] != needle[k] {
            proof {
                assert(haystack@.subrange(at as int, at + needle.len())[k as int] == haystack@[at
                    + k]);
            }
            return false;
        }
        k = k + 1;
    }
    proof {
        assert(haystack@.subrange(at as int, at + needle.len()) =~= needle@);
    }
    true
}

/// The first index from `from` on at which `needle` stands in `haystack`.
pub fn find_bytes(haystack: &[u8], needle: &[u8], from: usize) -> (found: Option<usize>)
    ensures
        found matches Some(at) ==> first_occurrence(haystack@, needle@, from as int, at as int),
        found is None ==> forall|j: int| from <= j ==> !occurs_at(haystack@, needle@, j),
        match found {
            Some(at) => index_of(haystack@, needle@, from as int) == Some(at as int),
            None => index_of(haystack@, needle@, from as int) is None,
        },
{
    if needle.len() > haystack.len() || from > haystack.len() - needle.len() {
        return None;
    }
    let last: usize = haystack.len() - needle.len();
    let mut at: usize = from;
    while at < last
        invariant
            from <= at <= last,
            last == haystack.len() - needle.len(),
            forall|j: int| from <= j < at ==> !occurs_at(haystack@, needle@, j),
            index_of(haystack@, needle@, from as int) == index_of(haystack@, needle@, at as int),
        decreases last - at,
    {
        if matches_at(haystack, needle, at) {
            return Some(at);
        }
        at = at + 1;
    }
    if matches_at(haystack, needle, at) {
        Some(at)
    } else {
        assert(index_of(haystack@, needle@, at + 1) is None);
        None
    }
}

/// Whether `needle` stands somewhere in `haystack`.
pub fn bytes_contain(haystack: &[u8], needle: &[u8]) -> (found: bool)
    ensures
        found == contains_bytes(haystack@, needle@),
{
    match find_bytes(haystack, needle, 0) {
        Some(at) => {
            assert(occurs_at(haystack@, needle@, at as int));
            true
        },
        None => false,
    }
}

/// The byte is a decimal digit.
pub open spec fn is_digit(b: u8) -> bool {
    48 <= b <= 57
}

/// Every byte is a decimal digit.
pub open spec fn all_digits(s: Seq<u8>) -> bool {
    forall|i: int| 0 <= i < s.len() ==> is_digit(#[trigger] s[i])
}

/// The number that a series of decimal digits denotes.
pub open spec fn digits_value(s: Seq<u8>) -> nat
    decreases s.len(),
{
    if s.len() == 0 {
        0
    } else {
        digits_value(s.drop_last()) * 10 + (s.last() - 48) as nat
    }
}

/// The number that `s` denotes where it is one or more decimal digits and
/// the number is at most `max`.
pub open spec fn unsigned_value(s: Seq<u8>, max: nat) -> Option<nat> {
    if s.len() > 0 && all_digits(s) && digits_value(s) <= max {
        Some(digits_value(s))
    } else {
        None
    }
}

/// The bytes of `s` that are not commas, in order.
pub open spec fn without_commas(s: Seq<u8>) -> Seq<u8> {
    s.filter(|b: u8| b != 44)
}

/// What is left of `s` behind a leading plus sign, if it has one.
pub open spec fn behind_plus(s: Seq<u8>) -> Seq<u8> {
    if s.len() > 0 && s[0] == 43 {
        s.subrange(1, s.len() as int)
    } else {
        s
    }
}

/// The balance that a text denotes once its thousands separators are taken
/// out: an optional plus sign and one or more digits, of a value that fits
/// 32 bits.
pub open spec fn number_string_value(s: Seq<u8>) -> Option<u32> {
    match unsigned_value(behind_plus(without_commas(s)), u32::MAX as nat) {
        Some(v) => Some(v as u32),
        None => None,
    }
}

/// The value of a series of digits is at least the value of each prefix.
proof fn lemma_digits_value_grows(s: Seq<u8>, k: int)
    requires
        0 <= k <= s.len(),
        all_digits(s),
    ensures
        digits_value(s.subrange(0, k)) <= digits_value(s),
    decreases s.len() - k,
{
    if k < s.len() {
        lemma_digits_value_grows(s, k + 1);
        assert(s.subrange(0, k + 1).drop_last() =~= s.subrange(0, k));
        assert(is_digit(s[k]));
    } else {
        assert(s.subrange(0, k) =~= s);
    }
}

/// Reads `digits[from..]` as one or more decimal digits of a value at most
/// `max`.
pub fn parse_digits(digits: &[u8], from: usize, max: u64) -> (value: Option<u64>)
    requires
        from <= digits.len(),
    ensures
        value == match unsigned_value(
            digits@.subrange(from as int, digits.len() as int),
            max as nat,
        ) {
            Some(v) => Some(v as u64),
            None => None,
        },
{
    let ghost body = digits@.subrange(from as int, digits.len() as int);
    if from == digits.len() {
        return None;
    }
    let mut value: u128 = 0;
    let mut i: usize = from;
    while i < digits.len()
        invariant
            from <= i <= digits.len(),
            body == digits@.subrange(from as int, digits.len() as int),
            all_digits(body.subrange(0, i - from)),
            value == digits_value(body.subrange(0, i - from)),
            value <= max,
        decreases digits.len() - i,
    {
        let b = digits[i];
        proof {
            assert(body[i - from] == b);
            assert(body.subrange(0, i - from + 1).drop_last() =~= body.subrange(0, i - from));
        }
        if b < 48 || b > 57 {
            return None;
        }
        let next: u128 = value * 10 + (b - 48) as u128;
        proof {
            assert forall|j: int| 0 <= j < i - from + 1 implies is_digit(
                #[trigger] body.subrange(0, i - from + 1)[j],
            ) by {
                if j < i - from {
                    assert(body.subrange(0, i - from)[j] == body[j]);
                }
            }
        }
        if next > max as u128 {
            proof {
                if all_digits(body) {
                    lemma_digits_value_grows(body, i - from + 1);
                }
            }
            return None;
        }
        value = next;
        i = i + 1;
    }
    proof {
        assert(body.subrange(0, i - from) =~= body);
    }
    Some(value as u64)
}

/// Reads a balance out of a captured number: commas are dropped, a leading
/// plus sign is allowed, and what remains must be digits of a value that
/// fits 32 bits.
pub fn parse_number_string(s: &str) -> (value: Option<u32>)
    ensures
        value == number_string_value(s.spec_bytes()),
{
    let bytes = s.as_bytes();
    let mut kept: Vec<u8> = Vec::new();
    let mut i: usize = 0;
    while i < bytes.len()
        invariant
            i <= bytes.len(),
            kept@ == without_commas(bytes@.subrange(0, i as int)),
        decreases bytes.len() - i,
    {
        proof {
            reveal(Seq::filter);
            assert(bytes@.subrange(0, i + 1).drop_last() =~= bytes@.subrange(0, i as int));
        }
        if bytes[i] != 44 {
            kept.push(bytes[i]);
        }
        i = i + 1;
    }
    proof {
        assert(bytes@.subrange(0, i as int) =~= bytes@);
    }
    let from: usize = if kept.len() > 0 && kept[0] == 43 {
        1
    } else {
        0
    };
    proof {
        if from == 0 {
            assert(kept@.subrange(0, kept@.len() as int) =~= kept@);
        }
    }
    match parse_digits(kept.as_slice(), from, 0xffff_ffff) {
        Some(v) => Some(v as u32),
        None => None,
    }
}

/// The character of a decimal digit.
pub open spec fn digit_char(d: nat) -> char {
    if d == 0 {
        '0'
    } else if d == 1 {
        '1'
    } else if d == 2 {
        '2'
    } else if d == 3 {
        '3'
    } else if d == 4 {
        '4'
    } else if d == 5 {
        '5'
    } else if d == 6 {
        '6'
    } else if d == 7 {
        '7'
    } else if d == 8 {
        '8'
    } else {
        '9'
    }
}

/// A number in decimal, without leading zeros.
pub open spec fn decimal_digits(n: nat) -> Seq<char>
    decreases n,
{
    if n < 10 {
        seq![digit_char(n)]
    } else {
        decimal_digits(n / 10).push(digit_char(n % 10))
    }
}

/// A fraction rounded to tenths, counted in tenths; a fraction half-way
/// between two tenths goes to the even one.
pub open spec fn rounded_tenths(r: Ratio) -> nat {
    let scaled = 10 * r.num;
    let whole = scaled / (r.den as int);
    let rest = scaled % (r.den as int);
    if 2 * rest > r.den || (2 * rest == r.den && whole % 2 == 1) {
        (whole + 1) as nat
    } else {
        whole as nat
    }
}

/// The tenths that a fraction is rounded to are the nearest: they differ
/// from the fraction by no more than half a tenth, which is to say that
/// twenty times the fraction differs from twice the tenths by no more than
/// one.
pub proof fn lemma_rounded_tenths_nearest(r: Ratio)
    requires
        r.wf(),
    ensures
        -r.den <= 2 * (10 * r.num - rounded_tenths(r) * r.den) <= r.den,
        20real * r.value() >= 2real * rounded_tenths(r) as real - 1real,
        20real * r.value() <= 2real * rounded_tenths(r) as real + 1real,
{
    let scaled = 10 * r.num;
    let den = r.den as int;
    let whole = scaled / den;
    let rest = scaled % den;
    let t = rounded_tenths(r) as int;
    assert(scaled == whole * den + rest && 0 <= rest < den) by (nonlinear_arith)
        requires
            den > 0,
            whole == scaled / den,
            rest == scaled % den,
    ;
    assert(t * den == whole * den + (t - whole) * den) by (nonlinear_arith);
    assert(t == whole || t == whole + 1);
    assert((t - whole) * den == if t == whole {
        0
    } else {
        den
    }) by (nonlinear_arith)
        requires
            t == whole || t == whole + 1,
    ;
    let v = r.value();
    let d = r.den as real;
    let n = r.num as real;
    lemma_quotient(n, d, 0real);
    assert((t * den) as real == (t as real) * d) by (nonlinear_arith)
        requires
            d == den as real,
    ;
    assert((10 * r.num) as real == 10real * n);
    assert(-d <= 2real * (10real * n - (t as real) * d) <= d);
    assert(2real * (t as real) - 1real <= 20real * v <= 2real * (t as real) + 1real)
        by (nonlinear_arith)
        requires
            d > 0real,
            v * d == n,
            -d <= 2real * (10real * n - (t as real) * d) <= d,
    ;
}

/// A fraction in decimal with one digit behind the point.
pub open spec fn tenths_digits(r: Ratio) -> Seq<char> {
    decimal_digits(rounded_tenths(r) / 10) + seq!['.'] + seq![digit_char(rounded_tenths(r) % 10)]
}

/// The text of one decimal digit.
fn digit_text(d: u8) -> (s: &'static str)
    requires
        d < 10,
    ensures
        s@ == seq![digit_char(d as nat)],
{
    proof {
        reveal_strlit("0");
        reveal_strlit("1");
        reveal_strlit("2");
        reveal_strlit("3");
        reveal_strlit("4");
        reveal_strlit("5");
        reveal_strlit("6");
        reveal_strlit("7");
        reveal_strlit("8");
        reveal_strlit("9");
    }
    let s = if d == 0 {
        "0"
    } else if d == 1 {
        "1"
    } else if d == 2 {
        "2"
    } else if d == 3 {
        "3"
    } else if d == 4 {
        "4"
    } else if d == 5 {
        "5"
    } else if d == 6 {
        "6"
    } else if d == 7 {
        "7"
    } else if d == 8 {
        "8"
    } else {
        "9"
    };
    proof {
        assert(s@ =~= seq![digit_char(d as nat)]);
    }
    s
}

/// Writes a number in decimal.
pub fn decimal_text(n: u128) -> (text: String)
    ensures
        text@ == decimal_digits(n as nat),
    decreases n,
{
    if n < 10 {
        String::from_str(digit_text(n as u8))
    } else {
        let mut text = decimal_text(n / 10);
        text.append(digit_text((n % 10) as u8));
        proof {
            assert(decimal_digits((n / 10) as nat) + seq![digit_char((n % 10) as nat)]
                =~= decimal_digits(n as nat));
        }
        text
    }
}

/// The largest numerator that `tenths_text` takes.
pub const MAX_RENDERED: u128 = 0x0fff_ffff_ffff_ffff_ffff_ffff_ffff_ffff;

/// Writes a fraction in decimal, rounded to one digit behind the point.
pub fn tenths_text(r: Ratio) -> (text: String)
    requires
        r.wf(),
        r.num <= MAX_RENDERED,
    ensures
        text@ == tenths_digits(r),
{
    let scaled: u128 = 10 * r.num;
    let whole: u128 = scaled / r.den;
    let rest: u128 = scaled % r.den;
    let up: bool = rest > r.den - rest || (rest == r.den - rest && whole % 2 == 1);
    proof {
        assert(whole <= scaled) by (nonlinear_arith)
            requires
                whole == scaled / r.den,
                r.den >= 1,
        ;
    }
    let tenths: u128 = if up {
        whole + 1
    } else {
        whole
    };
    assert(tenths == rounded_tenths(r));
    let mut text = decimal_text(tenths / 10);
    text.append(".");
    text.append(digit_text((tenths % 10) as u8));
    proof {
        reveal_strlit(".");
        assert("."@ =~= seq!['.']);
    }
    text
}

/// The positive number that a text denotes: an optional plus sign and one
/// or more digits, of a value from 1 up to the largest signed 64-bit number.
pub open spec fn positive_value(s: Seq<u8>) -> Option<i64> {
    match unsigned_value(behind_plus(s), i64::MAX as nat) {
        Some(v) => if v > 0 {
            Some(v as i64)
        } else {
            None
        },
        None => None,
    }
}

/// Reads a positive number.
pub fn parse_positive(s: &str) -> (value: Option<i64>)
    ensures
        value == positive_value(s.spec_bytes()),
{
    let bytes = s.as_bytes();
    let from: usize = if bytes.len() > 0 && bytes[0] == 43 {
        1
    } else {
        0
    };
    proof {
        if from == 0 {
            assert(bytes@.subrange(0, bytes@.len() as int) =~= bytes@);
        }
    }
    match parse_digits(bytes, from, 0x7fff_ffff_ffff_ffff) {
        Some(v) => if v > 0 {
            Some(v as i64)
        } else {
            None
        },
        None => None,
    }
}

/// The number that a text denotes: an optional sign and one or more digits,
/// of a value within 64 bits.
pub open spec fn signed_value(s: Seq<u8>) -> Option<i64> {
    if s.len() > 0 && s[0] == 45 {
        match unsigned_value(s.subrange(1, s.len() as int), 0x8000_0000_0000_0000) {
            Some(v) => Some((-v) as i64),
            None => None,
        }
    } else {
        match unsigned_value(behind_plus(s), i64::MAX as nat) {
            Some(v) => Some(v as i64),
            None => None,
        }
    }
}

/// Reads a number with an optional sign.
pub fn parse_signed(s: &str) -> (value: Option<i64>)
    ensures
        value == signed_value(s.spec_bytes()),
{
    let bytes = s.as_bytes();
    if bytes.len() > 0 && bytes[0] == 45 {
        match parse_digits(bytes, 1, 0x8000_0000_0000_0000) {
            Some(v) => Some((-(v as i128)) as i64),
            None => None,
        }
    } else {
        let from: usize = if bytes.len() > 0 && bytes[0] == 43 {
            1
        } else {
            0
        };
        proof {
            if from == 0 {
                assert(bytes@.subrange(0, bytes@.len() as int) =~= bytes@);
            }
        }
        match parse_digits(bytes, from, 0x7fff_ffff_ffff_ffff) {
            Some(v) => Some(v as i64),
            None => None,
        }
    }
}

/// What stands in a text before its first `T`: the whole text without one.
pub open spec fn before_time(s: Seq<char>) -> Seq<char>
    decreases s.len(),
{
    if s.len() == 0 || s[0] == 'T' {
        Seq::empty()
    } else {
        seq![s[0]] + before_time(s.drop_first())
    }
}

/// The date of a timestamp in ISO form: what stands before the `T`.
pub fn date_part(text: &str) -> (date: String)
    ensures
        date@ == before_time(text@),
{
    let n = text.unicode_len();
    let mut i: usize = 0;
    proof {
        assert(text@.subrange(0, 0) =~= Seq::<char>::empty());
        assert(text@.subrange(0, text@.len() as int) =~= text@);
    }
    while i < n && text.get_char(i) != 'T'
        invariant
            i <= n,
            n == text@.len(),
            before_time(text@) == text@.subrange(0, i as int) + before_time(
                text@.subrange(i as int, n as int),
            ),
        decreases n - i,
    {
        proof {
            let rest = text@.subrange(i as int, n as int);
            assert(rest[0] == text@[i as int]);
            assert(rest.drop_first() =~= text@.subrange(i + 1, n as int));
            assert(text@.subrange(0, i as int) + seq![rest[0]] =~= text@.subrange(0, i + 1));
        }
        i = i + 1;
    }
    proof {
        let rest = text@.subrange(i as int, n as int);
        if i < n {
            assert(rest[0] == text@[i as int]);
        }
        assert(before_time(rest) =~= Seq::<char>::empty());
        assert(text@.subrange(0, i as int) + Seq::<char>::empty() =~= text@.subrange(0, i as int));
    }
    String::from_str(text.substring_char(0, i))
}

} // verus!
