//! Clock access and decimal rendering of integers.

use vstd::prelude::*;

verus! {

/// Relies on chrono's `Utc::now` and `DateTime::timestamp_millis`: the current
/// time, in milliseconds since the Unix epoch. Nothing is known of the value.
/// `Utc::now` panics when the system clock reads a time before the epoch.
#[verifier::external_body]
pub(crate) fn now_millis() -> i64 {
    chrono::Utc::now().timestamp_millis()
}

/// Relies on `String::push`: the char is appended at the end.
#[verifier::external_body]
pub(crate) fn push_char(s: &mut String, c: char)
    ensures
        final(s)@ == old(s)@.push(c),
{
    s.push(c)
}

/// The text that chrono's `Display` gives for the UTC instant `millis`
/// milliseconds after the Unix epoch, or `None` where chrono has no such
/// instant.
pub uninterp spec fn utc_datetime_text(millis: i64) -> Option<Seq<char>>;

/// Relies on chrono's `DateTime::from_timestamp_millis` (`None` outside the
/// range of dates it supports) and on the `Display` of `DateTime<Utc>`.
#[verifier::external_body]
fn utc_datetime(millis: i64) -> (r: Option<String>)
    ensures
        r is Some == utc_datetime_text(millis) is Some,
        r is Some ==> r->0@ == utc_datetime_text(millis)->0,
{
    match chrono::DateTime::from_timestamp_millis(millis) {
        Some(t) => Some(t.to_string()),
        None => None,
    }
}

/// How a server time is written for clients: as a UTC date and time where
/// chrono can write it, else as the number of milliseconds.
pub open spec fn server_time_text(millis: i64) -> Seq<char> {
    match utc_datetime_text(millis) {
        Some(t) => t,
        None => signed_decimal(millis as int),
    }
}

/// Writes a server time for clients.
pub fn server_time_to_string(millis: i64) -> (r: String)
    ensures
        r@ == server_time_text(millis),
{
    match utc_datetime(millis) {
        Some(t) => t,
        None => signed_decimal_string(millis),
    }
}

/// The character of a decimal digit.
pub open spec fn digit_char(d: nat) -> char {
    seq!['0', '1', '2', '3', '4', '5', '6', '7', '8', '9'][d as int]
}

/// The decimal representation of a natural number, without leading zeros.
pub open spec fn decimal(n: nat) -> Seq<char>
    decreases n,
{
    if n < 10 {
        seq![digit_char(n)]
    } else {
        decimal(n / 10).push(digit_char(n % 10))
    }
}

/// The decimal representation of an integer, with a leading `-` when negative.
pub open spec fn signed_decimal(n: int) -> Seq<char> {
    if n < 0 {
        seq!['-'] + decimal((-n) as nat)
    } else {
        decimal(n as nat)
    }
}

fn digit(d: u64) -> (c: char)
    requires
        d < 10,
    ensures
        c == digit_char(d as nat),
{
    if d == 0 {
        '0'
    } else if d == 1 {
        '1'
    } else if d == 2 {
        '2'
    } else if d == 3 {
        '3'
    } else if d == 4 {
        '4'
    } else if d == 5 {
        '5'
    } else if d == 6 {
        '6'
    } else if d == 7 {
        '7'
    } else if d == 8 {
        '8'
    } else {
        '9'
    }
}

/// Appends the decimal representation of `n` to `s`.
pub fn push_decimal(s: &mut String, n: u64)
    ensures
        final(s)@ == old(s)@ + decimal(n as nat),
    decreases n,
{
    if n >= 10 {
        push_decimal(s, n / 10);
    }
    push_char(s, digit(n % 10));
    proof {
        if n < 10 {
            assert(old(s)@ + decimal(n as nat) =~= old(s)@.push(digit_char(n as nat)));
        } else {
            assert(old(s)@ + decimal(n as nat) =~= (old(s)@ + decimal((n / 10) as nat)).push(
                digit_char((n % 10) as nat),
            ));
        }
    }
}

/// The decimal representation of a signed integer.
pub fn signed_decimal_string(n: i64) -> (r: String)
    ensures
        r@ == signed_decimal(n as int),
{
    let mut s = String::new();
    if n < 0 {
        push_char(&mut s, '-');
        let m: u64 = (-(n as i128)) as u64;
        push_decimal(&mut s, m);
        assert(s@ =~= seq!['-'] + decimal((-n) as nat));
    } else {
        push_decimal(&mut s, n as u64);
        assert(s@ =~= decimal(n as nat));
    }
    s
}

/// The current time, in milliseconds since the Unix epoch, in decimal.
pub fn current_time_millis_as_string() -> (r: String)
    ensures
        exists|t: i64| r@ == signed_decimal(t as int),
{
    let t = now_millis();
    signed_decimal_string(t)
}

} // verus!
