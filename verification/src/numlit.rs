//! Numeric literal arithmetic: parsing raw digit text in a declared radix
//! into a signed integer, the admissible interval of an n-bit field, and the
//! rendering of bounds back into the notation a literal was written in.

use vstd::arithmetic::power2::{lemma2_to64, lemma_pow2_strictly_increases, pow2};
use vstd::prelude::*;

use crate::chars::{chars_of_str, push_char};
use crate::tokens::NumberLiteralFormat;

verus! {

/// The value of one digit character, hex digits included; `None` for
/// anything that is no digit at all.
pub open spec fn digit_val(c: char) -> Option<int> {
    match c {
        '0' => Some(0),
        '1' => Some(1),
        '2' => Some(2),
        '3' => Some(3),
        '4' => Some(4),
        '5' => Some(5),
        '6' => Some(6),
        '7' => Some(7),
        '8' => Some(8),
        '9' => Some(9),
        'a' => Some(10),
        'b' => Some(11),
        'c' => Some(12),
        'd' => Some(13),
        'e' => Some(14),
        'f' => Some(15),
        'A' => Some(10),
        'B' => Some(11),
        'C' => Some(12),
        'D' => Some(13),
        'E' => Some(14),
        'F' => Some(15),
        _ => None,
    }
}

/// Whether `c` is a valid digit in the given radix.
pub open spec fn is_radix_digit(c: char, radix: int) -> bool {
    digit_val(c) is Some && digit_val(c)->Some_0 < radix
}

/// The value of an unsigned digit string in the given radix.
pub open spec fn digits_value(s: Seq<char>, radix: int) -> int
    decreases s.len(),
{
    if s.len() == 0 {
        0
    } else {
        digits_value(s.drop_last(), radix) * radix + digit_val(s.last())->Some_0
    }
}

/// Whether every character of a string is a valid digit in the radix.
pub open spec fn all_radix_digits(s: Seq<char>, radix: int) -> bool {
    forall|m: int| 0 <= m < s.len() ==> is_radix_digit(s[m], radix)
}

/// Radix parsing of a whole literal: an optional leading sign, then at least
/// one digit, all valid in the radix; anything else does not parse.
pub open spec fn parse_radix(s: Seq<char>, radix: int) -> Option<int> {
    if s.len() == 0 {
        None
    } else {
        let neg = s[0] == '-';
        let ds = if s[0] == '-' || s[0] == '+' {
            s.drop_first()
        } else {
            s
        };
        if ds.len() == 0 || !all_radix_digits(ds, radix) {
            None
        } else if neg {
            Some(-digits_value(ds, radix))
        } else {
            Some(digits_value(ds, radix))
        }
    }
}

/// The radix a literal format declares.
pub open spec fn radix_of(format: NumberLiteralFormat) -> int {
    match format {
        NumberLiteralFormat::Hex => 16,
        NumberLiteralFormat::Decimal => 10,
    }
}

/// The lower end of an n-bit field's admissible interval.
pub open spec fn field_min(sign_extend: bool, bits: nat) -> int
    recommends
        bits >= 1,
{
    if sign_extend {
        -(pow2((bits - 1) as nat) as int)
    } else {
        0
    }
}

/// The upper end of an n-bit field's admissible interval.
pub open spec fn field_max(sign_extend: bool, bits: nat) -> int
    recommends
        bits >= 1,
{
    if sign_extend {
        pow2((bits - 1) as nat) - 1
    } else {
        pow2(bits) - 1
    }
}

/// The value of a valid digit string is never negative.
proof fn lemma_digits_value_nonneg(s: Seq<char>, radix: int)
    requires
        radix >= 2,
        forall|m: int| 0 <= m < s.len() ==> is_radix_digit(s[m], radix),
    ensures
        digits_value(s, radix) >= 0,
    decreases s.len(),
{
    if s.len() > 0 {
        lemma_digits_value_nonneg(s.drop_last(), radix);
    }
}

/// Appending digits never shrinks the value of a valid digit string.
proof fn lemma_digits_value_push(s: Seq<char>, radix: int, c: char)
    requires
        radix >= 2,
        forall|m: int| 0 <= m < s.len() ==> is_radix_digit(s[m], radix),
        is_radix_digit(c, radix),
    ensures
        digits_value(s.push(c), radix) >= digits_value(s, radix),
        digits_value(s.push(c), radix) == digits_value(s, radix) * radix + digit_val(c)->Some_0,
    decreases s.len(),
{
    lemma_digits_value_nonneg(s, radix);
    assert(s.push(c).drop_last() =~= s);
    assert(s.push(c).last() == c);
    assert(digits_value(s, radix) * radix >= digits_value(s, radix)) by (nonlinear_arith)
        requires
            digits_value(s, radix) >= 0,
            radix >= 2,
    ;
}

/// Executable form of [`digit_val`].
fn digit_value(c: char) -> (r: Option<u8>)
    ensures
        match r {
            Some(d) => digit_val(c) == Some(d as int),
            None => digit_val(c) is None,
        },
{
    match c {
        '0' => Some(0),
        '1' => Some(1),
        '2' => Some(2),
        '3' => Some(3),
        '4' => Some(4),
        '5' => Some(5),
        '6' => Some(6),
        '7' => Some(7),
        '8' => Some(8),
        '9' => Some(9),
        'a' => Some(10),
        'b' => Some(11),
        'c' => Some(12),
        'd' => Some(13),
        'e' => Some(14),
        'f' => Some(15),
        'A' => Some(10),
        'B' => Some(11),
        'C' => Some(12),
        'D' => Some(13),
        'E' => Some(14),
        'F' => Some(15),
        _ => None,
    }
}

/// Parses the raw digit text in the given radix and compares the value with
/// the interval `[lo, hi]`: yields nothing when the text does not parse,
/// otherwise whether the value falls outside the interval.
pub(crate) fn literal_outside_interval(text: &str, radix: u32, lo: i64, hi: i64) -> (r: Option<bool>)
    requires
        radix == 10 || radix == 16,
        -0x4000_0000_0000_0000 <= lo as int <= hi as int <= 0x4000_0000_0000_0000,
    ensures
        match parse_radix(text@, radix as int) {
            Some(v) => r == Some(v < lo as int || v > hi as int),
            None => r is None,
        },
{
    let ghost s = text@;
    let v = chars_of_str(text);
    let n = v.len();
    if n == 0 {
        return None;
    }
    let c0 = v[0];
    let (neg, start): (bool, usize) = if c0 == '-' {
        (true, 1)
    } else if c0 == '+' {
        (false, 1)
    } else {
        (false, 0)
    };
    if start == n {
        proof {
            if !(s[0] == '-' || s[0] == '+') {
            } else {
                assert(s.drop_first().len() == 0);
            }
        }
        return None;
    }
    let ghost ds = if s[0] == '-' || s[0] == '+' {
        s.drop_first()
    } else {
        s
    };
    proof {
        assert(ds =~= s.subrange(start as int, n as int));
    }
    let cap: i128 = 0x8000_0000_0000_0000;
    let mut acc: i128 = 0;
    let mut big = false;
    let mut m = start;
    while m < n
        invariant
            s == text@,
            start <= m <= n == s.len(),
            v@ == s,
            0 < n,
            start < n,
            radix == 10 || radix == 16,
            cap == 0x8000_0000_0000_0000,
            (s[0] == '-' || s[0] == '+') ==> start == 1 && neg == (s[0] == '-'),
            !(s[0] == '-' || s[0] == '+') ==> start == 0 && !neg,
            ds == s.subrange(start as int, n as int),
            ds == (if s[0] == '-' || s[0] == '+' {
                s.drop_first()
            } else {
                s
            }),
            forall|q: int| start <= q < m ==> is_radix_digit(s[q], radix as int),
            0 <= acc <= cap * 16,
            !big ==> acc == digits_value(s.subrange(start as int, m as int), radix as int),
            big ==> digits_value(s.subrange(start as int, m as int), radix as int) >= cap,
        decreases n - m,
    {
        let d = match digit_value(v[m]) {
            Some(d) => d,
            None => {
                proof {
                    assert(ds[(m - start) as int] == s[m as int]);
                    assert(0 <= m - start < ds.len());
                    assert(!is_radix_digit(ds[(m - start) as int], radix as int));
                    assert(!all_radix_digits(ds, radix as int));
                    assert(parse_radix(s, radix as int) is None);
                }
                return None;
            },
        };
        if (d as u32) >= radix {
            proof {
                assert(ds[(m - start) as int] == s[m as int]);
                assert(0 <= m - start < ds.len());
                assert(!is_radix_digit(ds[(m - start) as int], radix as int));
                assert(!all_radix_digits(ds, radix as int));
                assert(parse_radix(s, radix as int) is None);
            }
            return None;
        }
        proof {
            assert(is_radix_digit(s[m as int], radix as int));
            assert(s.subrange(start as int, (m + 1) as int) =~= s.subrange(
                start as int,
                m as int,
            ).push(s[m as int]));
            lemma_digits_value_push(
                s.subrange(start as int, m as int),
                radix as int,
                s[m as int],
            );
            lemma_digits_value_nonneg(s.subrange(start as int, m as int), radix as int);
        }
        if acc >= cap {
            big = true;
        } else {
            acc = acc * (radix as i128) + (d as i128);
        }
        m = m + 1;
    }
    proof {
        assert(s.subrange(start as int, n as int) =~= ds);
        assert(all_radix_digits(ds, radix as int));
        lemma_digits_value_nonneg(ds, radix as int);
    }
    if big {
        // The magnitude exceeds every admissible interval this library asks
        // about, on either side of zero.
        Some(true)
    } else {
        let val: i128 = if neg {
            -acc
        } else {
            acc
        };
        Some(val < lo as i128 || val > hi as i128)
    }
}

/// One decimal digit character.
pub open spec fn dec_digit_char(d: int) -> char {
    if d == 0 {
        '0'
    } else if d == 1 {
        '1'
    } else if d == 2 {
        '2'
    } else if d == 3 {
        '3'
    } else if d == 4 {
        '4'
    } else if d == 5 {
        '5'
    } else if d == 6 {
        '6'
    } else if d == 7 {
        '7'
    } else if d == 8 {
        '8'
    } else {
        '9'
    }
}

/// One upper-case hex digit character.
pub open spec fn hex_digit_char(d: int) -> char {
    if d < 10 {
        dec_digit_char(d)
    } else if d == 10 {
        'A'
    } else if d == 11 {
        'B'
    } else if d == 12 {
        'C'
    } else if d == 13 {
        'D'
    } else if d == 14 {
        'E'
    } else {
        'F'
    }
}

/// The decimal rendering of an unsigned value, most significant digit first.
pub open spec fn dec_digits(n: nat) -> Seq<char>
    decreases n,
{
    if n < 10 {
        seq![dec_digit_char(n as int)]
    } else {
        dec_digits(n / 10) + seq![dec_digit_char((n % 10) as int)]
    }
}

/// The upper-case hex rendering of an unsigned value.
pub open spec fn hex_digits(n: nat) -> Seq<char>
    decreases n,
{
    if n < 16 {
        seq![hex_digit_char(n as int)]
    } else {
        hex_digits(n / 16) + seq![hex_digit_char((n % 16) as int)]
    }
}

fn dec_char(d: u64) -> (c: char)
    requires
        d < 10,
    ensures
        c == dec_digit_char(d as int),
{
    if d == 0 {
        '0'
    } else if d == 1 {
        '1'
    } else if d == 2 {
        '2'
    } else if d == 3 {
        '3'
    } else if d == 4 {
        '4'
    } else if d == 5 {
        '5'
    } else if d == 6 {
        '6'
    } else if d == 7 {
        '7'
    } else if d == 8 {
        '8'
    } else {
        '9'
    }
}

fn hex_char(d: u64) -> (c: char)
    requires
        d < 16,
    ensures
        c == hex_digit_char(d as int),
{
    if d < 10 {
        dec_char(d)
    } else if d == 10 {
        'A'
    } else if d == 11 {
        'B'
    } else if d == 12 {
        'C'
    } else if d == 13 {
        'D'
    } else if d == 14 {
        'E'
    } else {
        'F'
    }
}

/// The decimal rendering of `n`, as a string.
pub(crate) fn to_dec_string(n: u64) -> (s: String)
    ensures
        s@ == dec_digits(n as nat),
    decreases n,
{
    if n < 10 {
        let mut s = String::new();
        push_char(&mut s, dec_char(n));
        proof {
            assert(s@ =~= dec_digits(n as nat));
        }
        s
    } else {
        let mut s = to_dec_string(n / 10);
        push_char(&mut s, dec_char(n % 10));
        proof {
            assert(s@ =~= dec_digits((n / 10) as nat) + seq![
                dec_digit_char((n % 10) as int),
            ]);
        }
        s
    }
}

/// The upper-case hex rendering of `n`, as a string.
pub(crate) fn to_hex_string(n: u64) -> (s: String)
    ensures
        s@ == hex_digits(n as nat),
    decreases n,
{
    if n < 16 {
        let mut s = String::new();
        push_char(&mut s, hex_char(n));
        proof {
            assert(s@ =~= hex_digits(n as nat));
        }
        s
    } else {
        let mut s = to_hex_string(n / 16);
        push_char(&mut s, hex_char(n % 16));
        proof {
            assert(s@ =~= hex_digits((n / 16) as nat) + seq![
                hex_digit_char((n % 16) as int),
            ]);
        }
        s
    }
}

/// An interval bound rendered in the notation of the given literal format:
/// the radix marker, a minus sign for negative values, then the magnitude in
/// the radix (hex upper-case).
pub open spec fn bound_text(format: NumberLiteralFormat, v: int) -> Seq<char> {
    let sign = if v < 0 {
        seq!['-']
    } else {
        Seq::<char>::empty()
    };
    let mag = if v < 0 {
        -v
    } else {
        v
    };
    match format {
        NumberLiteralFormat::Hex => seq!['x'] + sign + hex_digits(mag as nat),
        NumberLiteralFormat::Decimal => seq!['#'] + sign + dec_digits(mag as nat),
    }
}

/// Renders an interval bound as [`bound_text`] does.
pub(crate) fn bound_string(format: NumberLiteralFormat, v: i64) -> (s: String)
    requires
        v > i64::MIN,
    ensures
        s@ == bound_text(format, v as int),
{
    let mut s = String::new();
    match format {
        NumberLiteralFormat::Hex => push_char(&mut s, 'x'),
        NumberLiteralFormat::Decimal => push_char(&mut s, '#'),
    }
    if v < 0 {
        push_char(&mut s, '-');
    }
    let mag: u64 = if v < 0 {
        (-v) as u64
    } else {
        v as u64
    };
    let digits = match format {
        NumberLiteralFormat::Hex => to_hex_string(mag),
        NumberLiteralFormat::Decimal => to_dec_string(mag),
    };
    let r = s.concat(digits.as_str());
    proof {
        assert(r@ =~= bound_text(format, v as int));
    }
    r
}

/// Two raised to the given power, as a machine integer.
pub(crate) fn pow2_i64(e: u32) -> (r: i64)
    requires
        e <= 62,
    ensures
        r == pow2(e as nat),
{
    proof {
        lemma2_to64();
    }
    let mut r: i64 = 1;
    let mut j: u32 = 0;
    while j < e
        invariant
            j <= e <= 62,
            r == pow2(j as nat),
        decreases e - j,
    {
        proof {
            if (j as nat) < 62 {
                lemma_pow2_strictly_increases(j as nat, 62);
            }
            lemma2_to64();
            vstd::arithmetic::power2::lemma2_to64_rest();
            assert(pow2((j + 1) as nat) == pow2(j as nat) * 2) by {
                vstd::arithmetic::power2::lemma_pow2_unfold((j + 1) as nat);
            }
        }
        r = r * 2;
        j = j + 1;
    }
    r
}

} // verus!
