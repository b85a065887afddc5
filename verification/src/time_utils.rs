use vstd::prelude::*;

use crate::decimal::{i64_to_string, int_dec};
use crate::security::string_push;
use std::str::FromStr;

verus! {

/// The timestamp an RFC 3339 string names, in whole seconds since the
/// epoch, or nothing where the string does not parse.  The timestamp is a
/// pure function of the text; nothing further is assumed of which strings
/// parse.
pub uninterp spec fn rfc3339_secs_of(s: Seq<char>) -> Option<i64>;

/// Relies on chrono's RFC 3339 parsing for `DateTime<Utc>`: the outcome
/// depends on the text alone, and any timestamp the library can represent
/// stays within thirteen decimal digits of seconds.
#[verifier::external_body]
pub fn parse_rfc3339(s: &str) -> (r: Option<i64>)
    ensures
        r == rfc3339_secs_of(s@),
        r matches Some(t) ==> -10000000000000 < t < 10000000000000,
{
    chrono::DateTime::<chrono::Utc>::from_str(s).ok().map(|dt| dt.timestamp())
}

/// Relies on chrono's clock and RFC 3339 rendering: whatever instant the
/// clock reads, the rendered timestamp parses back.
#[verifier::external_body]
pub fn create_timestamp() -> (r: String)
    ensures
        rfc3339_secs_of(r@) is Some,
{
    chrono::Utc::now().to_rfc3339()
}

/// Truncating division by a positive constant, the way the machine
/// divides signed integers.
pub open spec fn tdiv(a: int, b: int) -> int
    recommends
        b > 0,
{
    if a >= 0 {
        a / b
    } else {
        -((-a) / b)
    }
}

/// The `P<days>DT<hours>H<minutes>M<seconds>S` rendering of a duration in
/// seconds, every field truncated toward zero so that a negative duration
/// carries negative fields.
pub open spec fn duration_text(secs: int) -> Seq<char> {
    seq!['P'] + int_dec(tdiv(secs, 86400)) + seq!['D', 'T'] + int_dec(
        if secs >= 0 {
            (secs / 3600) % 24
        } else {
            -(((-secs) / 3600) % 24)
        },
    ) + seq!['H'] + int_dec(
        if secs >= 0 {
            (secs / 60) % 60
        } else {
            -(((-secs) / 60) % 60)
        },
    ) + seq!['M'] + int_dec(
        if secs >= 0 {
            secs % 60
        } else {
            -((-secs) % 60)
        },
    ) + seq!['S']
}

/// Renders a duration in seconds as `P<d>DT<h>H<m>M<s>S`.
pub fn format_duration(duration_secs: i64) -> (r: String)
    requires
        duration_secs > i64::MIN,
    ensures
        r@ == duration_text(duration_secs as int),
{
    let negative = duration_secs < 0;
    let mag: i64 = if negative {
        -duration_secs
    } else {
        duration_secs
    };
    let days = mag / 86400;
    let hours = (mag / 3600) % 24;
    let minutes = (mag / 60) % 60;
    let seconds = mag % 60;
    let mut r = String::new();
    string_push(&mut r, 'P');
    let days_text = i64_to_string(
        if negative {
            -days
        } else {
            days
        },
    );
    r.append(days_text.as_str());
    string_push(&mut r, 'D');
    string_push(&mut r, 'T');
    let hours_text = i64_to_string(
        if negative {
            -hours
        } else {
            hours
        },
    );
    r.append(hours_text.as_str());
    string_push(&mut r, 'H');
    let minutes_text = i64_to_string(
        if negative {
            -minutes
        } else {
            minutes
        },
    );
    r.append(minutes_text.as_str());
    string_push(&mut r, 'M');
    let seconds_text = i64_to_string(
        if negative {
            -seconds
        } else {
            seconds
        },
    );
    r.append(seconds_text.as_str());
    string_push(&mut r, 'S');
    proof {
        assert(r@ =~= duration_text(duration_secs as int));
    }
    r
}

/// The difference between two RFC 3339 timestamps, rendered as
/// `P<d>DT<h>H<m>M<s>S` at whole-second precision, or nothing where
/// either timestamp does not parse.
pub fn calculate_difference(start: &str, end: &str) -> (r: Option<String>)
    ensures
        match (rfc3339_secs_of(start@), rfc3339_secs_of(end@)) {
            (Option::Some(a), Option::Some(b)) => r matches Some(t) && t@ == duration_text(
                b - a,
            ),
            _ => r is None,
        },
{
    let start_secs = match parse_rfc3339(start) {
        Some(t) => t,
        None => {
            return None;
        },
    };
    let end_secs = match parse_rfc3339(end) {
        Some(t) => t,
        None => {
            return None;
        },
    };
    Some(format_duration(end_secs - start_secs))
}

} // verus!
