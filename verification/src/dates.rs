//! Reading the start and end of a backtest period.

use vstd::prelude::*;

use crate::text::chars_of;

verus! {

pub open spec fn is_digit(c: char) -> bool {
    '0' as int <= c as int <= '9' as int
}

pub open spec fn digit_value(c: char) -> int {
    c as int - '0' as int
}

/// The number that a string of decimal digits writes.
pub open spec fn decimal_value(s: Seq<char>) -> int
    decreases s.len(),
{
    if s.len() == 0 {
        0
    } else {
        decimal_value(s.drop_last()) * 10 + digit_value(s.last())
    }
}

pub open spec fn all_digits(s: Seq<char>) -> bool {
    forall|i: int| 0 <= i < s.len() ==> is_digit(#[trigger] s[i])
}

/// Whether `s` starts with a sign.
pub open spec fn signed(s: Seq<char>) -> bool {
    s.len() > 0 && (s[0] == '-' || s[0] == '+')
}

/// The digits of `s` after its sign, if it has one.
pub open spec fn unsigned_part(s: Seq<char>) -> Seq<char> {
    if signed(s) {
        s.drop_first()
    } else {
        s
    }
}

/// A decimal integer as Rust's `i64::from_str` reads it: an optional `+`
/// or `-`, then one or more ASCII digits, the value within the range of
/// `i64`.
pub open spec fn spec_parse_i64(s: Seq<char>) -> Option<i64> {
    let digits = unsigned_part(s);
    if digits.len() > 0 && all_digits(digits) {
        let v = if s[0] == '-' {
            -decimal_value(digits)
        } else {
            decimal_value(digits)
        };
        if i64::MIN <= v <= i64::MAX {
            Some(v as i64)
        } else {
            None
        }
    } else {
        None
    }
}

proof fn lemma_decimal_nonneg(s: Seq<char>)
    requires
        all_digits(s),
    ensures
        decimal_value(s) >= 0,
    decreases s.len(),
{
    if s.len() > 0 {
        assert(is_digit(s[s.len() - 1]));
        lemma_decimal_nonneg(s.drop_last());
    }
}

/// A prefix of a digit string never writes a larger number than the whole.
proof fn lemma_decimal_prefix(s: Seq<char>, k: int)
    requires
        all_digits(s),
        0 <= k <= s.len(),
    ensures
        decimal_value(s.take(k)) <= decimal_value(s),
    decreases s.len() - k,
{
    if k < s.len() {
        lemma_decimal_prefix(s, k + 1);
        assert(s.take(k + 1).drop_last() =~= s.take(k));
        assert(is_digit(s[k]));
        lemma_decimal_nonneg(s.take(k));
    } else {
        assert(s.take(k) =~= s);
    }
}

/// Reads a decimal integer; see [`spec_parse_i64`].
pub fn parse_i64(s: &str) -> (r: Option<i64>)
    ensures
        r == spec_parse_i64(s@),
{
    let cs = chars_of(s);
    let n = cs.len();
    if n == 0 {
        return None;
    }
    let neg = cs[0] == '-';
    let start: usize = if cs[0] == '-' || cs[0] == '+' { 1 } else { 0 };
    let ghost digits = unsigned_part(s@);
    assert(digits =~= s@.subrange(start as int, n as int));
    if start == n {
        return None;
    }
    let mut acc: i64 = 0;
    let mut i: usize = start;
    while i < n
        invariant
            cs@ == s@,
            n == s@.len(),
            start <= i <= n,
            neg == (s@[0] == '-'),
            digits == s@.subrange(start as int, n as int),
            digits == unsigned_part(s@),
            all_digits(digits.take(i - start)),
            acc == if neg {
                -decimal_value(digits.take(i - start))
            } else {
                decimal_value(digits.take(i - start))
            },
        decreases n - i,
    {
        let c = cs[i];
        assert(digits[i - start] == c);
        if !('0' <= c && c <= '9') {
            assert(!is_digit(digits[i - start]));
            return None;
        }
        let d = (c as u32 - '0' as u32) as i64;
        let ghost before = digits.take(i - start);
        let ghost after = digits.take(i - start + 1);
        assert(after.drop_last() =~= before);
        assert(all_digits(after));
        assert(decimal_value(after) == decimal_value(before) * 10 + d);
        proof {
            lemma_decimal_nonneg(before);
        }
        let next = if neg {
            match acc.checked_mul(10) {
                Some(t) => t.checked_sub(d),
                None => None,
            }
        } else {
            match acc.checked_mul(10) {
                Some(t) => t.checked_add(d),
                None => None,
            }
        };
        match next {
            Some(v) => {
                acc = v;
            },
            None => {
                proof {
                    if all_digits(digits) {
                        lemma_decimal_prefix(digits, i - start + 1);
                        if neg {
                            assert(-decimal_value(after) < i64::MIN);
                        } else {
                            assert(decimal_value(after) > i64::MAX);
                        }
                    }
                }
                return None;
            },
        }
        i = i + 1;
    }
    assert(digits.take(n - start) =~= digits);
    Some(acc)
}

/// Why a date could not be read.
#[derive(Clone, Copy, Debug, PartialEq, Eq, Structural)]
pub enum DateError {
    InvalidDate,
}

/// The Unix time in milliseconds of midnight UTC on the `%Y-%m-%d` date
/// that chrono reads from `s`, if it reads one.
pub uninterp spec fn spec_calendar_millis(s: Seq<char>) -> Option<i64>;

/// Calls `chrono::NaiveDate::parse_from_str(s, "%Y-%m-%d")`, then, on a
/// date, `and_hms_opt(0, 0, 0)`, `and_utc()` and `timestamp_millis()`.
/// Claimed: the result depends on the text of `s` alone; a parse error
/// gives `None`.  What chrono accepts as a date is not stated.
#[verifier::external_body]
fn calendar_millis(s: &str) -> (r: Option<i64>)
    ensures
        r == spec_calendar_millis(s@),
{
    match chrono::NaiveDate::parse_from_str(s, "%Y-%m-%d") {
        Ok(d) => match d.and_hms_opt(0, 0, 0) {
            Some(t) => Some(t.and_utc().timestamp_millis()),
            None => None,
        },
        Err(_) => None,
    }
}

/// A date given as whole Unix seconds counts in milliseconds; any other
/// text is read as a `%Y-%m-%d` calendar date at midnight UTC.
pub open spec fn spec_parse_date(s: Seq<char>) -> Result<i64, DateError> {
    match spec_parse_i64(s) {
        Some(secs) => Ok((secs * 1000) as i64),
        None => match spec_calendar_millis(s) {
            Some(ms) => Ok(ms),
            None => Err(DateError::InvalidDate),
        },
    }
}

/// Reads a period bound in milliseconds; see [`spec_parse_date`].  Seconds
/// whose millisecond count leaves `i64` are left out.
pub fn parse_date(s: &str) -> (r: Result<i64, DateError>)
    requires
        spec_parse_i64(s@) matches Some(secs) ==> i64::MIN <= secs * 1000 <= i64::MAX,
    ensures
        r == spec_parse_date(s@),
        spec_parse_i64(s@) matches Some(secs) ==> r == Ok::<i64, DateError>((secs * 1000) as i64),
{
    match parse_i64(s) {
        Some(secs) => Ok(secs * 1000),
        None => match calendar_millis(s) {
            Some(ms) => Ok(ms),
            None => Err(DateError::InvalidDate),
        },
    }
}

} // verus!
