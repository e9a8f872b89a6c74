//! Conversions at the time and formatting boundary.
use vstd::prelude::*;

verus! {

/// The instant a timestamp string denotes, in milliseconds since the epoch,
/// `None` when the string does not parse: what chrono's RFC 3339 parsing
/// returns, a function of the characters alone.
pub uninterp spec fn ts_of(s: Seq<char>) -> Option<i64>;

/// Relies on chrono's `FromStr` for `DateTime<Utc>` (relaxed RFC 3339) and on
/// `DateTime::timestamp_millis`: the parsed instant depends on the characters
/// alone, a parse failure is an `Err`, and neither call panics.
#[verifier::external_body]
pub fn parse_to_date_time(s: &str) -> (r: Option<i64>)
    ensures
        r == ts_of(s@),
{
    match s.parse::<chrono::DateTime<chrono::Utc>>() {
        Ok(dt) => Some(dt.timestamp_millis()),
        Err(_) => None,
    }
}

/// Relies on chrono's `Utc::now` and `DateTime::timestamp_millis`: some
/// instant, in milliseconds since the epoch; nothing is assumed of its value.
#[verifier::external_body]
pub(crate) fn now_ts() -> i64 {
    chrono::Utc::now().timestamp_millis()
}

/// The character of one decimal digit.
pub open spec fn digit_char(d: nat) -> char
    recommends
        d < 10,
{
    ((48 + d) as u8) as char
}

/// The decimal digits of a natural number, most significant first.
pub open spec fn dec_digits(n: nat) -> Seq<char>
    decreases n,
{
    if n < 10 {
        seq![digit_char(n)]
    } else {
        dec_digits(n / 10).push(digit_char(n % 10))
    }
}

/// The decimal representation of an integer: its digits, preceded by `-` for
/// a negative number.
pub open spec fn dec_str_of(n: int) -> Seq<char> {
    if n < 0 {
        seq!['-'] + dec_digits((-n) as nat)
    } else {
        dec_digits(n as nat)
    }
}

/// Relies on `i64`'s `Display` implementation, through `ToString`: the
/// decimal representation, with a leading `-` for a negative number.
#[verifier::external_body]
pub(crate) fn i64_to_string(n: i64) -> (s: String)
    ensures
        s@ == dec_str_of(n as int),
{
    n.to_string()
}

/// An integer clamped into the `i64` range.
pub open spec fn clamp_i64(x: int) -> i64 {
    if x < i64::MIN {
        i64::MIN
    } else if x > i64::MAX {
        i64::MAX
    } else {
        x as i64
    }
}

/// `a - b`, clamped into the `i64` range.
pub fn saturating_sub_i64(a: i64, b: i64) -> (r: i64)
    ensures
        r == clamp_i64(a - b),
{
    if b >= 0 {
        if a >= i64::MIN + b {
            a - b
        } else {
            i64::MIN
        }
    } else {
        if a <= i64::MAX + b {
            a - b
        } else {
            i64::MAX
        }
    }
}

/// A minute count as milliseconds, clamped into the `i64` range.
pub fn minutes_to_millis(m: i64) -> (r: i64)
    ensures
        r == clamp_i64(m * 60000),
{
    let wide: i128 = (m as i128) * 60000;
    if wide > i64::MAX as i128 {
        i64::MAX
    } else if wide < i64::MIN as i128 {
        i64::MIN
    } else {
        wide as i64
    }
}

} // verus!
