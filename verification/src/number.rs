//! Decimal integers: reading them as `str::parse` does for `i64` and `u32`,
//! and writing them as `Display` does for unsigned integers.

use vstd::prelude::*;

verus! {

/// ASCII decimal digit.
pub open spec fn is_digit(c: char) -> bool {
    '0' <= c && c <= '9'
}

/// Value of a decimal digit.
pub open spec fn digit_value(c: char) -> nat {
    (c as int - '0' as int) as nat
}

/// Every character of `s` is a decimal digit.
pub open spec fn all_digits(s: Seq<char>) -> bool {
    forall|i: int| 0 <= i < s.len() ==> is_digit(#[trigger] s[i])
}

/// Value of a string of decimal digits, most significant first.
pub open spec fn digits_value(s: Seq<char>) -> nat
    decreases s.len(),
{
    if s.len() == 0 {
        0
    } else {
        digits_value(s.drop_last()) * 10 + digit_value(s.last())
    }
}

/// The digits after an optional leading `+`, and, when `signed`, an
/// optional leading `-`.
pub open spec fn unsigned_part(s: Seq<char>, signed: bool) -> Seq<char> {
    if s.len() > 0 && (s[0] == '+' || (signed && s[0] == '-')) {
        s.drop_first()
    } else {
        s
    }
}

/// What `s.parse::<i64>()` gives, with `None` for any error: an optional
/// sign, then one or more decimal digits and nothing else, and a value in
/// range.
pub open spec fn parse_i64_spec(s: Seq<char>) -> Option<i64> {
    let digits = unsigned_part(s, true);
    let magnitude = digits_value(digits) as int;
    let value = if s.len() > 0 && s[0] == '-' {
        -magnitude
    } else {
        magnitude
    };
    if digits.len() > 0 && all_digits(digits) && i64::MIN <= value <= i64::MAX {
        Some(value as i64)
    } else {
        None
    }
}

/// What `s.parse::<u32>()` gives, with `None` for any error: an optional
/// `+`, then one or more decimal digits and nothing else, and a value in
/// range.
pub open spec fn parse_u32_spec(s: Seq<char>) -> Option<u32> {
    let digits = unsigned_part(s, false);
    if digits.len() > 0 && all_digits(digits) && digits_value(digits) <= u32::MAX {
        Some(digits_value(digits) as u32)
    } else {
        None
    }
}

/// The digit character for `d < 10`.
pub open spec fn digit_char(d: nat) -> char {
    ('0' as int + d) as char
}

/// Decimal representation of `n`, without leading zeros, as `Display`
/// writes an unsigned integer.
pub open spec fn decimal(n: nat) -> Seq<char>
    decreases n,
{
    if n < 10 {
        seq![digit_char(n)]
    } else {
        decimal(n / 10).push(digit_char(n % 10))
    }
}

/// A longer digit string is worth at least as much as its prefix.
pub proof fn lemma_digits_value_prefix(s: Seq<char>, k: int)
    requires
        0 <= k <= s.len(),
    ensures
        digits_value(s.take(k)) <= digits_value(s),
    decreases s.len() - k,
{
    if k < s.len() {
        lemma_digits_value_prefix(s, k + 1);
        assert(s.take(k + 1).drop_last() =~= s.take(k));
    } else {
        assert(s.take(k) =~= s);
    }
}

/// `decimal(n)` is a non-empty digit string worth `n`.
pub proof fn lemma_decimal_digits(n: nat)
    ensures
        decimal(n).len() > 0,
        all_digits(decimal(n)),
        digits_value(decimal(n)) == n,
        decimal(n)[0] != '+' && decimal(n)[0] != '-',
    decreases n,
{
    let c = digit_char(n % 10);
    assert((c as int) == '0' as int + n % 10);
    assert(digit_value(c) == n % 10);
    assert(decimal(n).last() == c);
    assert(digits_value(decimal(n)) == digits_value(decimal(n).drop_last()) * 10 + digit_value(c));
    if n >= 10 {
        lemma_decimal_digits(n / 10);
        let d = decimal(n / 10);
        assert(decimal(n).drop_last() =~= d);
        assert(decimal(n)[0] == d[0]);
        assert((n / 10) * 10 + n % 10 == n);
    } else {
        assert(decimal(n).drop_last() =~= Seq::<char>::empty());
    }
}

/// Reading what is written gives the number back: `decimal` and
/// `parse_u32_spec` are inverse on every `u32`.
pub proof fn lemma_parse_u32_of_decimal(n: u32)
    ensures
        parse_u32_spec(decimal(n as nat)) == Some(n),
{
    lemma_decimal_digits(n as nat);
}

/// Reading what is written gives the number back: `decimal` and
/// `parse_i64_spec` agree on every non-negative `i64`.
pub proof fn lemma_parse_i64_of_decimal(n: i64)
    requires
        n >= 0,
    ensures
        parse_i64_spec(decimal(n as nat)) == Some(n),
{
    lemma_decimal_digits(n as nat);
}

/// How `Display` writes an `i64`: a `-` before the digits of a negative
/// number.
pub open spec fn signed_decimal(n: int) -> Seq<char> {
    if n < 0 {
        seq!['-'] + decimal((-n) as nat)
    } else {
        decimal(n as nat)
    }
}

/// Reading what is written gives the number back: `signed_decimal` and
/// `parse_i64_spec` agree on every `i64`, negative ones included; the text
/// is non-empty, its last character is a digit, and it holds no whitespace
/// or line break.
pub proof fn lemma_parse_i64_of_signed_decimal(n: i64)
    ensures
        parse_i64_spec(signed_decimal(n as int)) == Some(n),
        signed_decimal(n as int).len() > 0,
        is_digit(signed_decimal(n as int).last()),
        forall|j: int|
            0 <= j < signed_decimal(n as int).len() ==> (#[trigger] signed_decimal(n as int)[j]
                == '-' || is_digit(signed_decimal(n as int)[j])),
{
    if n < 0 {
        let d = decimal((-n) as nat);
        let s = signed_decimal(n as int);
        lemma_decimal_digits((-n) as nat);
        assert(s.drop_first() =~= d);
        assert(s.last() == d.last());
        assert forall|j: int| 0 <= j < s.len() implies (#[trigger] s[j] == '-' || is_digit(s[j])) by {
            if j > 0 {
                assert(s[j] == d[j - 1]);
            }
        }
    } else {
        lemma_decimal_digits(n as nat);
        lemma_parse_i64_of_decimal(n);
    }
}

/// Scans the digits of `v[start..end]`; `Some(m)` is their value when all
/// are digits and the value is at most `limit`, `None` otherwise.
fn scan_digits(v: &Vec<char>, start: usize, end: usize, limit: u64) -> (r: Option<u64>)
    requires
        start <= end <= v@.len(),
        limit >= 9,
    ensures
        ({
            let s = v@.subrange(start as int, end as int);
            match r {
                Some(m) => all_digits(s) && digits_value(s) == m && m <= limit,
                None => !all_digits(s) || digits_value(s) > limit,
            }
        }),
{
    let ghost s = v@.subrange(start as int, end as int);
    let mut acc: u64 = 0;
    let mut i: usize = start;
    while i < end
        invariant
            start <= i <= end <= v@.len(),
            s == v@.subrange(start as int, end as int),
            all_digits(s.take(i - start)),
            digits_value(s.take(i - start)) == acc,
            acc <= limit,
            limit >= 9,
        decreases end - i,
    {
        let c: char = v[i];
        assert(s[i - start] == c);
        if !('0' <= c && c <= '9') {
            return None;
        }
        let d: u64 = (c as u32 - '0' as u32) as u64;
        assert(d <= 9 && d == digit_value(c));
        assert(s.take(i - start + 1).drop_last() =~= s.take(i - start));
        assert(s.take(i - start + 1).last() == c);
        if acc > (limit - d) / 10 {
            proof {
                assert(digits_value(s.take(i - start + 1)) == acc * 10 + d);
                assert(acc * 10 + d > limit) by (nonlinear_arith)
                    requires
                        acc > (limit - d) / 10,
                        d <= limit || d > limit,
                        d <= 9,
                ;
                lemma_digits_value_prefix(s, i - start + 1);
            }
            return None;
        }
        assert(acc * 10 + d <= limit) by (nonlinear_arith)
            requires
                acc <= (limit - d) / 10,
                d <= limit,
        ;
        acc = acc * 10 + d;
        i = i + 1;
        assert(all_digits(s.take(i - start))) by {
            assert forall|j: int| 0 <= j < i - start implies is_digit(
                #[trigger] s.take(i - start)[j],
            ) by {
                if j < i - start - 1 {
                    assert(s.take(i - start)[j] == s.take(i - start - 1)[j]);
                }
            }
        }
    }
    assert(s.take(end - start) =~= s);
    Some(acc)
}

/// `v[start..end].parse::<i64>().ok()`.
pub fn parse_i64_range(v: &Vec<char>, start: usize, end: usize) -> (r: Option<i64>)
    requires
        start <= end <= v@.len(),
    ensures
        r == parse_i64_spec(v@.subrange(start as int, end as int)),
{
    let ghost s = v@.subrange(start as int, end as int);
    let negative = start < end && v[start] == '-';
    let d0: usize = if start < end && (v[start] == '+' || v[start] == '-') {
        start + 1
    } else {
        start
    };
    assert(unsigned_part(s, true) =~= v@.subrange(d0 as int, end as int));
    if d0 == end {
        return None;
    }
    let limit: u64 = if negative {
        9223372036854775808
    } else {
        9223372036854775807
    };
    match scan_digits(v, d0, end, limit) {
        Some(m) => {
            if negative {
                if m == 9223372036854775808 {
                    Some(-9223372036854775808i64)
                } else {
                    Some(-(m as i64))
                }
            } else {
                Some(m as i64)
            }
        },
        None => None,
    }
}

/// `v[start..end].parse::<u32>().ok()`.
pub fn parse_u32_range(v: &Vec<char>, start: usize, end: usize) -> (r: Option<u32>)
    requires
        start <= end <= v@.len(),
    ensures
        r == parse_u32_spec(v@.subrange(start as int, end as int)),
{
    let ghost s = v@.subrange(start as int, end as int);
    let d0: usize = if start < end && v[start] == '+' {
        start + 1
    } else {
        start
    };
    assert(unsigned_part(s, false) =~= v@.subrange(d0 as int, end as int));
    if d0 == end {
        return None;
    }
    match scan_digits(v, d0, end, 4294967295) {
        Some(m) => Some(m as u32),
        None => None,
    }
}

/// `s.parse::<i64>().ok()`.
pub fn parse_i64(s: &str) -> (r: Option<i64>)
    ensures
        r == parse_i64_spec(s@),
{
    let v = crate::text::chars_of(s);
    assert(v@.subrange(0, v@.len() as int) =~= v@);
    parse_i64_range(&v, 0, v.len())
}

/// `s.parse::<u32>().ok()`.
pub fn parse_u32(s: &str) -> (r: Option<u32>)
    ensures
        r == parse_u32_spec(s@),
{
    let v = crate::text::chars_of(s);
    assert(v@.subrange(0, v@.len() as int) =~= v@);
    parse_u32_range(&v, 0, v.len())
}

/// Appends the decimal digits of `n` to `out`.
pub fn push_decimal(out: &mut Vec<char>, n: u64)
    ensures
        final(out)@ == old(out)@ + decimal(n as nat),
    decreases n,
{
    if n >= 10 {
        push_decimal(out, n / 10);
    }
    let d: u8 = (n % 10) as u8;
    let c: char = (48u8 + d) as char;
    assert(c == digit_char((n % 10) as nat));
    out.push(c);
    proof {
        if n < 10 {
            assert(old(out)@ + decimal(n as nat) =~= old(out)@.push(c));
        } else {
            assert(old(out)@ + decimal(n as nat) =~= (old(out)@ + decimal((n / 10) as nat)).push(c));
        }
    }
}

/// `n.to_string()` for an unsigned integer.
pub fn decimal_string(n: u64) -> (s: String)
    ensures
        s@ == decimal(n as nat),
{
    let mut v: Vec<char> = Vec::new();
    push_decimal(&mut v, n);
    assert(v@ =~= decimal(n as nat));
    crate::text::string_from_chars(v.as_slice())
}

} // verus!
