//! The conversion service: parsing decimal and hexadecimal numerals as
//! signed 64-bit integers, and formatting the results back as strings.

use vstd::prelude::*;

verus! {

/// The single domain error: a numeral string failed to parse as a signed
/// 64-bit integer in the expected base.
#[derive(Clone, Copy, Debug, PartialEq, Eq, Structural)]
pub enum ParseError {
    /// The input string was empty.
    Empty,
    /// A character was not a digit of the expected base, or the input was
    /// only a sign.
    InvalidDigit,
    /// The value exceeds `i64::MAX`.
    PosOverflow,
    /// The value is below `i64::MIN`.
    NegOverflow,
}

/// Whether `c` is a digit of the given base (10 or 16). Base 16 accepts
/// both lower- and upper-case letters.
pub open spec fn is_digit(c: char, radix: int) -> bool {
    ('0' as int <= c as int <= '9' as int)
    || (radix == 16 && 'a' as int <= c as int <= 'f' as int)
    || (radix == 16 && 'A' as int <= c as int <= 'F' as int)
}

/// The numeric value of a digit character; 0 for a non-digit.
pub open spec fn digit_value(c: char, radix: int) -> int {
    if '0' as int <= c as int <= '9' as int {
        c as int - '0' as int
    } else if radix == 16 && 'a' as int <= c as int <= 'f' as int {
        c as int - 'a' as int + 10
    } else if radix == 16 && 'A' as int <= c as int <= 'F' as int {
        c as int - 'A' as int + 10
    } else {
        0
    }
}

/// Every character of `s` is a digit of the given base.
pub open spec fn all_digits(s: Seq<char>, radix: int) -> bool {
    forall|j: int| 0 <= j < s.len() ==> is_digit(s[j], radix)
}

/// The value of a digit string read in the given base.
pub open spec fn magnitude(s: Seq<char>, radix: int) -> int
    decreases s.len(),
{
    if s.len() == 0 {
        0
    } else {
        magnitude(s.drop_last(), radix) * radix + digit_value(s.last(), radix)
    }
}

/// The numeral starts with a minus sign.
pub open spec fn is_negative(s: Seq<char>) -> bool {
    s.len() > 0 && s[0] == '-'
}

/// The numeral starts with a sign character.
pub open spec fn has_sign(s: Seq<char>) -> bool {
    s.len() > 0 && (s[0] == '-' || s[0] == '+')
}

/// The digits of the numeral, after any leading sign.
pub open spec fn digits_part(s: Seq<char>) -> Seq<char> {
    if has_sign(s) {
        s.skip(1)
    } else {
        s
    }
}

/// What parsing `s` as a signed 64-bit integer in the given base yields:
/// an optional sign followed by at least one digit, rejected exactly when
/// the string is empty, a character is no digit of the base, or the value
/// falls outside `i64`'s range.
pub open spec fn spec_parse_i64(s: Seq<char>, radix: int) -> Result<i64, ParseError> {
    if s.len() == 0 {
        Err(ParseError::Empty)
    } else if digits_part(s).len() == 0 || !all_digits(digits_part(s), radix) {
        Err(ParseError::InvalidDigit)
    } else {
        let m = magnitude(digits_part(s), radix);
        if is_negative(s) {
            if m > 0x8000_0000_0000_0000 {
                Err(ParseError::NegOverflow)
            } else {
                Ok((-m) as i64)
            }
        } else {
            if m > 0x7FFF_FFFF_FFFF_FFFF {
                Err(ParseError::PosOverflow)
            } else {
                Ok(m as i64)
            }
        }
    }
}

/// The numeric value of a digit character of the given base, or `None`
/// where `c` is no such digit.
fn digit_of(c: char, radix: u64) -> (r: Option<u64>)
    requires
        radix == 10 || radix == 16,
    ensures
        (match r {
            Some(d) => is_digit(c, radix as int) && d == digit_value(c, radix as int),
            None => !is_digit(c, radix as int),
        }),
{
    let v: u32 = c as u32;
    if 48 <= v && v <= 57 {
        Some((v - 48) as u64)
    } else if radix == 16 && 97 <= v && v <= 102 {
        Some((v - 97 + 10) as u64)
    } else if radix == 16 && 65 <= v && v <= 70 {
        Some((v - 65 + 10) as u64)
    } else {
        None
    }
}

proof fn lemma_magnitude_nonneg(s: Seq<char>, radix: int)
    requires
        radix >= 2,
    ensures
        magnitude(s, radix) >= 0,
    decreases s.len(),
{
    if s.len() > 0 {
        lemma_magnitude_nonneg(s.drop_last(), radix);
        assert(magnitude(s.drop_last(), radix) * radix >= 0) by (nonlinear_arith)
            requires
                magnitude(s.drop_last(), radix) >= 0,
                radix >= 2,
        ;
    }
}

proof fn lemma_magnitude_take_succ(s: Seq<char>, radix: int, k: int)
    requires
        0 <= k < s.len(),
    ensures
        magnitude(s.take(k + 1), radix)
            == magnitude(s.take(k), radix) * radix + digit_value(s[k], radix),
{
    assert(s.take(k + 1).drop_last() =~= s.take(k));
    assert(s.take(k + 1).last() == s[k]);
}

/// A digit string's value only grows as further digits are appended.
proof fn lemma_magnitude_take_le(s: Seq<char>, radix: int, k: int)
    requires
        0 <= k <= s.len(),
        radix >= 2,
    ensures
        magnitude(s.take(k), radix) <= magnitude(s, radix),
    decreases s.len() - k,
{
    if k == s.len() {
        assert(s.take(k) =~= s);
    } else {
        lemma_magnitude_take_succ(s, radix, k);
        lemma_magnitude_nonneg(s.take(k), radix);
        assert(magnitude(s.take(k), radix) * radix >= magnitude(s.take(k), radix))
            by (nonlinear_arith)
            requires
                magnitude(s.take(k), radix) >= 0,
                radix >= 2,
        ;
        lemma_magnitude_take_le(s, radix, k + 1);
    }
}

/// Parses `s` as a signed 64-bit integer in the given base, reporting
/// exactly the failure that `spec_parse_i64` assigns to `s`.
fn parse_i64_radix(s: &str, radix: u64) -> (r: Result<i64, ParseError>)
    requires
        radix == 10 || radix == 16,
    ensures
        r == spec_parse_i64(s@, radix as int),
{
    let len: usize = s.unicode_len();
    if len == 0 {
        return Err(ParseError::Empty);
    }
    let c0: char = s.get_char(0);
    let neg: bool = c0 == '-';
    let signed: bool = c0 == '-' || c0 == '+';
    let start: usize = if signed { 1 } else { 0 };
    let ghost ds: Seq<char> = digits_part(s@);
    proof {
        assert(ds =~= s@.skip(start as int));
    }
    if start == len {
        return Err(ParseError::InvalidDigit);
    }

    // First pass: every character after the sign must be a digit.
    let mut i: usize = start;
    while i < len
        invariant
            radix == 10 || radix == 16,
            start <= i <= len,
            start < len,
            start <= 1,
            len == s@.len(),
            ds == s@.skip(start as int),
            ds == digits_part(s@),
            forall|j: int| 0 <= j < i - start ==> is_digit(ds[j], radix as int),
        decreases len - i,
    {
        let c = s.get_char(i);
        if digit_of(c, radix).is_none() {
            proof {
                assert(ds[i - start] == s@[i as int]);
                assert(!is_digit(ds[i - start], radix as int));
                assert(!all_digits(ds, radix as int));
            }
            return Err(ParseError::InvalidDigit);
        }
        i += 1;
    }
    proof {
        assert(all_digits(ds, radix as int));
    }

    // Second pass: accumulate the value, watching the `i64` bound.
    let bound: u64 = if neg {
        0x8000_0000_0000_0000
    } else {
        0x7FFF_FFFF_FFFF_FFFF
    };
    let mut m: u64 = 0;
    let mut i: usize = start;
    while i < len
        invariant
            radix == 10 || radix == 16,
            start <= i <= len,
            start < len,
            start <= 1,
            len == s@.len(),
            ds == s@.skip(start as int),
            ds == digits_part(s@),
            neg == is_negative(s@),
            all_digits(ds, radix as int),
            bound == (if neg { 0x8000_0000_0000_0000u64 } else { 0x7FFF_FFFF_FFFF_FFFFu64 }),
            m as int == magnitude(ds.take(i - start), radix as int),
            m <= bound,
        decreases len - i,
    {
        let c = s.get_char(i);
        proof {
            assert(ds[i - start] == s@[i as int]);
        }
        let d: u64 = digit_of(c, radix).unwrap();
        let t: u128 = (m as u128) * (radix as u128) + (d as u128);
        proof {
            lemma_magnitude_take_succ(ds, radix as int, i - start);
        }
        if t > bound as u128 {
            proof {
                lemma_magnitude_take_le(ds, radix as int, i - start + 1);
            }
            return Err(
                if neg {
                    ParseError::NegOverflow
                } else {
                    ParseError::PosOverflow
                },
            );
        }
        m = t as u64;
        i += 1;
    }
    proof {
        assert(ds.take((len - start) as int) =~= ds);
    }
    let v: i64 = if neg {
        if m == 0x8000_0000_0000_0000 {
            i64::MIN
        } else {
            -(m as i64)
        }
    } else {
        m as i64
    };
    Ok(v)
}

/// The character for a digit value, upper case for 10 through 15.
pub open spec fn digit_char(d: int) -> char {
    if d == 0 { '0' }
    else if d == 1 { '1' }
    else if d == 2 { '2' }
    else if d == 3 { '3' }
    else if d == 4 { '4' }
    else if d == 5 { '5' }
    else if d == 6 { '6' }
    else if d == 7 { '7' }
    else if d == 8 { '8' }
    else if d == 9 { '9' }
    else if d == 10 { 'A' }
    else if d == 11 { 'B' }
    else if d == 12 { 'C' }
    else if d == 13 { 'D' }
    else if d == 14 { 'E' }
    else { 'F' }
}

/// The base-10 digit string of a non-negative value, without leading
/// zeros (a single `'0'` for zero).
pub open spec fn to_digits10(n: int) -> Seq<char>
    decreases n,
{
    if n < 10 {
        seq![digit_char(if n < 0 { 0 } else { n })]
    } else {
        to_digits10(n / 10) + seq![digit_char(n % 10)]
    }
}

/// The base-16 digit string of a non-negative value, upper case, without
/// leading zeros (a single `'0'` for zero).
pub open spec fn to_digits16(n: int) -> Seq<char>
    decreases n,
{
    if n < 16 {
        seq![digit_char(if n < 0 { 0 } else { n })]
    } else {
        to_digits16(n / 16) + seq![digit_char(n % 16)]
    }
}

/// The single-character string for a digit value.
fn digit_str(d: u64) -> (r: &'static str)
    requires
        d < 16,
    ensures
        r@ == seq![digit_char(d as int)],
{
    proof {
        reveal_strlit("0");
        reveal_strlit("1");
        reveal_strlit("2");
        reveal_strlit("3");
        reveal_strlit("4");
        reveal_strlit("5");
        reveal_strlit("6");
        reveal_strlit("7");
        reveal_strlit("8");
        reveal_strlit("9");
        reveal_strlit("A");
        reveal_strlit("B");
        reveal_strlit("C");
        reveal_strlit("D");
        reveal_strlit("E");
        reveal_strlit("F");
    }
    if d == 0 { "0" }
    else if d == 1 { "1" }
    else if d == 2 { "2" }
    else if d == 3 { "3" }
    else if d == 4 { "4" }
    else if d == 5 { "5" }
    else if d == 6 { "6" }
    else if d == 7 { "7" }
    else if d == 8 { "8" }
    else if d == 9 { "9" }
    else if d == 10 { "A" }
    else if d == 11 { "B" }
    else if d == 12 { "C" }
    else if d == 13 { "D" }
    else if d == 14 { "E" }
    else { "F" }
}

/// Formats a value in base 10.
fn fmt_u64_dec(n: u64) -> (s: String)
    ensures
        s@ == to_digits10(n as int),
    decreases n,
{
    if n < 10 {
        String::from_str(digit_str(n))
    } else {
        let rest = fmt_u64_dec(n / 10);
        rest.concat(digit_str(n % 10))
    }
}

/// Formats a value in upper-case base 16.
fn fmt_u64_hex(n: u64) -> (s: String)
    ensures
        s@ == to_digits16(n as int),
    decreases n,
{
    if n < 16 {
        String::from_str(digit_str(n))
    } else {
        let rest = fmt_u64_hex(n / 16);
        rest.concat(digit_str(n % 16))
    }
}

/// The unsigned 64-bit value with the same bit pattern as `v`: the
/// two's-complement reading that upper-case hex formatting shows.
pub open spec fn i64_bits(v: i64) -> int {
    if v >= 0 {
        v as int
    } else {
        v as int + 0x1_0000_0000_0000_0000
    }
}

/// The base-10 string of a signed value: a minus sign before the
/// magnitude where it is negative.
pub open spec fn spec_dec_string(v: int) -> Seq<char> {
    if v < 0 {
        seq!['-'] + to_digits10(-v)
    } else {
        to_digits10(v)
    }
}

/// What `decimal_to_hex` yields on a decimal numeral: the upper-case hex
/// form of its two's-complement bits, or the parse failure.
pub open spec fn spec_decimal_to_hex(s: Seq<char>) -> Result<Seq<char>, ParseError> {
    match spec_parse_i64(s, 10) {
        Ok(v) => Ok(to_digits16(i64_bits(v))),
        Err(e) => Err(e),
    }
}

/// What `hex_to_decimal` yields on a hexadecimal numeral: the signed
/// base-10 form of its value, or the parse failure.
pub open spec fn spec_hex_to_decimal(s: Seq<char>) -> Result<Seq<char>, ParseError> {
    match spec_parse_i64(s, 16) {
        Ok(v) => Ok(spec_dec_string(v as int)),
        Err(e) => Err(e),
    }
}

/// Parses a base-10 signed 64-bit numeral and formats its value in
/// upper-case hexadecimal; a negative value formats as the hex form of
/// its two's-complement bit pattern, with no minus sign.
pub fn decimal_to_hex(value: &str) -> (r: Result<String, ParseError>)
    ensures
        (match spec_decimal_to_hex(value@) {
            Ok(h) => r matches Ok(s) && s@ == h,
            Err(e) => r matches Err(e2) && e2 == e,
        }),
{
    match parse_i64_radix(value, 10) {
        Err(e) => Err(e),
        Ok(v) => {
            let bits: u64 = if v >= 0 {
                v as u64
            } else {
                u64::MAX - ((-(v + 1)) as u64)
            };
            proof {
                assert(bits as int == i64_bits(v));
            }
            Ok(fmt_u64_hex(bits))
        },
    }
}

/// Parses a base-16 signed 64-bit numeral (an optional sign followed by
/// hex digits, no `0x` prefix) and formats its value in base 10, with a
/// leading minus sign where it is negative.
pub fn hex_to_decimal(value: &str) -> (r: Result<String, ParseError>)
    ensures
        (match spec_hex_to_decimal(value@) {
            Ok(d) => r matches Ok(s) && s@ == d,
            Err(e) => r matches Err(e2) && e2 == e,
        }),
{
    match parse_i64_radix(value, 16) {
        Err(e) => Err(e),
        Ok(v) => {
            if v >= 0 {
                Ok(fmt_u64_dec(v as u64))
            } else {
                let mag: u64 = ((-(v + 1)) as u64) + 1;
                proof {
                    assert(mag as int == -(v as int));
                    reveal_strlit("-");
                    assert("-"@ =~= seq!['-']);
                }
                let out = String::from_str("-").concat(fmt_u64_dec(mag).as_str());
                proof {
                    assert(out@ =~= spec_dec_string(v as int));
                }
                Ok(out)
            }
        },
    }
}

/// `to_digits16` emits at least one character, each a hex digit, and
/// reading them back in base 16 recovers the value.
proof fn lemma_to_digits16_value(n: int)
    requires
        n >= 0,
    ensures
        to_digits16(n).len() >= 1,
        all_digits(to_digits16(n), 16),
        magnitude(to_digits16(n), 16) == n,
    decreases n,
{
    if n < 16 {
        let s = to_digits16(n);
        assert(s == seq![digit_char(n)]);
        assert(s.drop_last() =~= Seq::<char>::empty());
        assert(magnitude(Seq::<char>::empty(), 16) == 0);
        assert(s.last() == digit_char(n));
        assert(digit_value(digit_char(n), 16) == n);
    } else {
        lemma_to_digits16_value(n / 16);
        let a = to_digits16(n / 16);
        let c = digit_char(n % 16);
        assert((a + seq![c]).drop_last() =~= a);
        assert((a + seq![c]).last() == c);
        assert(digit_value(c, 16) == n % 16);
        assert(magnitude(a + seq![c], 16) == (n / 16) * 16 + n % 16);
        assert forall|j: int| 0 <= j < (a + seq![c]).len() implies is_digit(
            (a + seq![c])[j],
            16,
        ) by {
            if j < a.len() {
                assert((a + seq![c])[j] == a[j]);
            } else {
                assert((a + seq![c])[j] == c);
            }
        }
    }
}

/// Converting a non-negative decimal numeral to hexadecimal and back
/// yields that value's canonical decimal string; where the input already
/// is canonical (no leading zeros, no sign), it yields the input itself.
pub proof fn lemma_hex_decimal_round_trip(x: Seq<char>)
    requires
        spec_parse_i64(x, 10) matches Ok(v) && v >= 0,
    ensures
        spec_decimal_to_hex(x) matches Ok(h) && spec_hex_to_decimal(h) matches Ok(d)
            && d == to_digits10(spec_parse_i64(x, 10)->Ok_0 as int),
        x == to_digits10(spec_parse_i64(x, 10)->Ok_0 as int) ==> spec_hex_to_decimal(
            spec_decimal_to_hex(x)->Ok_0,
        ) == Ok::<Seq<char>, ParseError>(x),
{
    let v = spec_parse_i64(x, 10)->Ok_0;
    assert(i64_bits(v) == v as int);
    let h = to_digits16(v as int);
    lemma_to_digits16_value(v as int);
    assert(is_digit(h[0], 16));
    assert(h[0] != '-' && h[0] != '+');
    assert(!has_sign(h));
    assert(digits_part(h) == h);
    assert(spec_parse_i64(h, 16) == Ok::<i64, ParseError>(v));
}

} // verus!
