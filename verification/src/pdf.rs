use vstd::prelude::*;

use crate::decimal::{
    dec_seq_pad, dec_val, is_dec_digit, parse_digits_u64, u64_to_string_pad,
};
use crate::security::string_push;
use chrono::Datelike;

verus! {

/// A stored duration: calendar months and days, and a sub-day remainder in
/// microseconds, mirroring the relational store's interval values.
pub struct Interval {
    pub months: i32,
    pub days: i32,
    pub microseconds: i64,
}

/// A calendar date of the proleptic Gregorian calendar.
pub struct Date {
    pub year: i32,
    pub month: u8,
    pub day: u8,
}

/// The Gregorian leap-year rule.
pub open spec fn is_leap_year(y: int) -> bool {
    (y % 4 == 0 && y % 100 != 0) || y % 400 == 0
}

/// Days in a month of the proleptic Gregorian calendar.
pub open spec fn days_in_month(y: int, m: int) -> int
    recommends
        1 <= m <= 12,
{
    if m == 2 {
        if is_leap_year(y) {
            29
        } else {
            28
        }
    } else if m == 4 || m == 6 || m == 9 || m == 11 {
        30
    } else {
        31
    }
}

/// Whether year, month and day name a real calendar date.
pub open spec fn valid_date(y: int, m: int, d: int) -> bool {
    1 <= m <= 12 && 1 <= d && d <= days_in_month(y, m)
}

impl Date {
    /// A well-formed date is a real calendar date within the year range
    /// the calendar library can represent.
    pub open spec fn wf(&self) -> bool {
        valid_date(self.year as int, self.month as int, self.day as int) && -262143 <= self.year
            <= 262142
    }

    /// Builds a date after checking that it exists in the calendar.
    pub fn new(year: i32, month: u8, day: u8) -> (r: Option<Date>)
        ensures
            r matches Some(d) ==> d.year == year && d.month == month && d.day == day && d.wf(),
            r is Some <==> (valid_date(year as int, month as int, day as int) && -262143 <= year
                <= 262142),
    {
        if year < -262143 || year > 262142 || month < 1 || month > 12 || day < 1 {
            return None;
        }
        let leap = (year % 4 == 0 && year % 100 != 0) || year % 400 == 0;
        let limit: u8 = if month == 2 {
            if leap {
                29
            } else {
                28
            }
        } else if month == 4 || month == 6 || month == 9 || month == 11 {
            30
        } else {
            31
        };
        if day > limit {
            return None;
        }
        Some(Date { year, month, day })
    }
}

/// The weekday of a calendar date, numbered from Monday as 0 to Sunday
/// as 6.  The weekday is a pure function of the date; nothing further is
/// assumed about its value beyond its range.
pub uninterp spec fn weekday_index(y: int, m: int, d: int) -> int;

/// Relies on chrono::NaiveDate: the weekday of a valid in-range date is a
/// pure function of the date, numbered 0 to 6 from Monday.
#[verifier::external_body]
fn weekday_from_ymd(year: i32, month: u8, day: u8) -> (r: u32)
    requires
        valid_date(year as int, month as int, day as int),
        -262143 <= year <= 262142,
    ensures
        r == weekday_index(year as int, month as int, day as int),
        r < 7,
{
    chrono::NaiveDate::from_ymd_opt(year, month as u32, day as u32)
        .unwrap()
        .weekday()
        .num_days_from_monday()
}

/// The German two-letter abbreviation for a weekday numbered from Monday.
pub open spec fn weekday_abbrev(w: int) -> Seq<char> {
    if w == 0 {
        "Mo"@
    } else if w == 1 {
        "Di"@
    } else if w == 2 {
        "Mi"@
    } else if w == 3 {
        "Do"@
    } else if w == 4 {
        "Fr"@
    } else if w == 5 {
        "Sa"@
    } else {
        "So"@
    }
}

/// The German two-letter abbreviation of the date's weekday.
pub fn get_weekday_abbreviation(date: &Date) -> (r: String)
    requires
        date.wf(),
    ensures
        r@ == weekday_abbrev(weekday_index(date.year as int, date.month as int, date.day as int)),
{
    let w = weekday_from_ymd(date.year, date.month, date.day);
    match w {
        0 => "Mo".to_owned(),
        1 => "Di".to_owned(),
        2 => "Mi".to_owned(),
        3 => "Do".to_owned(),
        4 => "Fr".to_owned(),
        5 => "Sa".to_owned(),
        _ => "So".to_owned(),
    }
}

/// Adds two stored durations field by field.
pub fn add_durations(d1: &Interval, d2: &Interval) -> (r: Interval)
    requires
        i32::MIN <= d1.months + d2.months <= i32::MAX,
        i32::MIN <= d1.days + d2.days <= i32::MAX,
        i64::MIN <= d1.microseconds + d2.microseconds <= i64::MAX,
    ensures
        r.months == d1.months + d2.months,
        r.days == d1.days + d2.days,
        r.microseconds == d1.microseconds + d2.microseconds,
{
    Interval {
        months: d1.months + d2.months,
        days: d1.days + d2.days,
        microseconds: d1.microseconds + d2.microseconds,
    }
}

/// An `HH:MM` clock rendering: both fields zero-padded to two digits, the
/// hours growing past two digits when they must.
pub open spec fn clock_text(hours: nat, minutes: nat) -> Seq<char> {
    dec_seq_pad(hours, 2) + seq![':'] + dec_seq_pad(minutes, 2)
}

/// Renders a count of minutes as `HH:MM`.
pub fn format_minutes_as_time(minutes: u64) -> (r: String)
    ensures
        r@ == clock_text((minutes / 60) as nat, (minutes % 60) as nat),
{
    let mut r = u64_to_string_pad(minutes / 60, 2);
    string_push(&mut r, ':');
    let mm = u64_to_string_pad(minutes % 60, 2);
    r.append(mm.as_str());
    proof {
        assert(r@ =~= clock_text((minutes / 60) as nat, (minutes % 60) as nat));
    }
    r
}

/// Renders the sub-day part of a stored duration as `HH:MM`, ignoring its
/// month and day fields.
pub fn format_duration(interval: &Interval) -> (r: String)
    requires
        interval.microseconds >= 0,
    ensures
        r@ == clock_text(
            (interval.microseconds / 1000000 / 3600) as nat,
            ((interval.microseconds / 1000000 % 3600) / 60) as nat,
        ),
{
    let total_seconds = interval.microseconds / 1_000_000;
    let hours = total_seconds / 3600;
    let minutes = (total_seconds % 3600) / 60;
    let mut r = u64_to_string_pad(hours as u64, 2);
    string_push(&mut r, ':');
    let mm = u64_to_string_pad(minutes as u64, 2);
    r.append(mm.as_str());
    proof {
        assert(r@ =~= clock_text(
            (interval.microseconds / 1000000 / 3600) as nat,
            ((interval.microseconds / 1000000 % 3600) / 60) as nat,
        ));
    }
    r
}

/// The value of one part of an `HH:MM` string: the digits' value where the
/// part is a non-empty all-digit string whose value fits, and zero
/// otherwise.
pub open spec fn time_part_val(p: Seq<char>) -> nat {
    if p.len() >= 1 && (forall|j: int| 0 <= j < p.len() ==> is_dec_digit(#[trigger] p[j]))
        && dec_val(p) <= u64::MAX {
        dec_val(p)
    } else {
        0
    }
}

/// The minute count an `HH:MM` string stands for, before the overflow cut.
pub open spec fn time_value(h: Seq<char>, m: Seq<char>) -> nat {
    time_part_val(h) * 60 + time_part_val(m)
}

/// Parses an `HH:MM` string into minutes.  A string without exactly one
/// colon counts zero; a part that is not a number counts zero; a total
/// beyond the `u64` range counts zero.
pub fn parse_time_to_minutes(time_str: &str) -> (r: u64)
    ensures
        (forall|k: int| 0 <= k < time_str@.len() ==> time_str@[k] != ':') ==> r == 0,
        (exists|k1: int, k2: int|
            0 <= k1 < k2 < time_str@.len() && time_str@[k1] == ':' && time_str@[k2] == ':') ==> r
            == 0,
        (forall|k: int|
            (0 <= k < time_str@.len() && time_str@[k] == ':' && (forall|j: int|
                0 <= j < time_str@.len() && j != k ==> time_str@[j] != ':')) ==> r == (
            if time_value(time_str@.take(k), time_str@.skip(k + 1)) <= u64::MAX {
                time_value(time_str@.take(k), time_str@.skip(k + 1))
            } else {
                0nat
            })),
{
    let len = time_str.unicode_len();
    let mut colon: Option<usize> = None;
    let mut i: usize = 0;
    while i < len
        invariant
            i <= len,
            len == time_str@.len(),
            match colon {
                Option::Some(k) => k < i && time_str@[k as int] == ':' && (forall|j: int|
                    0 <= j < i && j != k ==> time_str@[j] != ':'),
                Option::None => forall|j: int| 0 <= j < i ==> time_str@[j] != ':',
            },
        decreases len - i,
    {
        if time_str.get_char(i) == ':' {
            match colon {
                Some(first) => {
                    proof {
                        assert(0 <= first < i < time_str@.len() && time_str@[first as int] == ':'
                            && time_str@[i as int] == ':');
                    }
                    return 0;
                },
                None => {
                    colon = Some(i);
                },
            }
        }
        i = i + 1;
    }
    let k = match colon {
        Some(k) => k,
        None => {
            return 0;
        },
    };
    let hours_str = time_str.substring_char(0, k);
    let minutes_str = time_str.substring_char(k + 1, len);
    proof {
        assert(hours_str@ =~= time_str@.take(k as int));
        assert(minutes_str@ =~= time_str@.skip(k + 1));
    }
    let hours: u64 = match parse_digits_u64(hours_str) {
        Some(v) => v,
        None => 0,
    };
    let minutes: u64 = match parse_digits_u64(minutes_str) {
        Some(v) => v,
        None => 0,
    };
    proof {
        assert(hours == time_part_val(time_str@.take(k as int)));
        assert(minutes == time_part_val(time_str@.skip(k + 1)));
    }
    if hours > (u64::MAX - minutes) / 60 {
        proof {
            assert(hours * 60 + minutes > u64::MAX) by (nonlinear_arith)
                requires
                    hours > (u64::MAX - minutes) / 60,
                    minutes <= u64::MAX,
            ;
        }
        return 0;
    }
    proof {
        assert(hours * 60 + minutes <= u64::MAX) by (nonlinear_arith)
            requires
                hours <= (u64::MAX - minutes) / 60,
                minutes <= u64::MAX,
        ;
    }
    hours * 60 + minutes
}

/// Whether a month string is of the accepted `YYYY-MM` shape: at least
/// seven characters, digits in the year and month positions.
pub open spec fn month_input_ok(s: Seq<char>) -> bool {
    s.len() >= 7 && (forall|j: int| 0 <= j < 4 ==> is_dec_digit(#[trigger] s[j])) && (forall|
        j: int,
    |
        5 <= j < 7 ==> is_dec_digit(#[trigger] s[j]))
}

/// The `YYYY-MM` rendering of the month after the given one: December
/// rolls over into January of the next year, and any other month value is
/// simply counted one up.
pub open spec fn next_month_text(s: Seq<char>) -> Seq<char> {
    let y = dec_val(s.subrange(0, 4));
    let m = dec_val(s.subrange(5, 7));
    let new_month: nat = if m == 12 {
        1
    } else {
        m + 1
    };
    let new_year: nat = if m == 12 {
        y + 1
    } else {
        y
    };
    dec_seq_pad(new_year, 4) + seq!['-'] + dec_seq_pad(new_month, 2)
}

/// Steps a `YYYY-MM` month string forward by one month, rejecting input
/// whose year or month positions are not digits.
pub fn add_month(given_month: &str) -> (r: Option<String>)
    ensures
        r is Some <==> month_input_ok(given_month@),
        r matches Some(t) ==> t@ == next_month_text(given_month@),
{
    let len = given_month.unicode_len();
    if len < 7 {
        return None;
    }
    let year_str = given_month.substring_char(0, 4);
    let month_str = given_month.substring_char(5, 7);
    proof {
        assert(year_str@ =~= given_month@.subrange(0, 4));
        assert(month_str@ =~= given_month@.subrange(5, 7));
    }
    let year: u64 = match parse_digits_u64(year_str) {
        Some(v) => v,
        None => {
            proof {
                if month_input_ok(given_month@) {
                    assert(forall|j: int|
                        0 <= j < 4 ==> #[trigger] year_str@[j] == given_month@[j]);
                    crate::decimal::lemma_dec_val_lt_pow10(year_str@);
                    crate::decimal::lemma_pow10_unfold_small();
                    assert(false);
                }
            }
            return None;
        },
    };
    let month: u64 = match parse_digits_u64(month_str) {
        Some(v) => v,
        None => {
            proof {
                if month_input_ok(given_month@) {
                    assert(forall|j: int|
                        0 <= j < 2 ==> #[trigger] month_str@[j] == given_month@[j + 5]);
                    crate::decimal::lemma_dec_val_lt_pow10(month_str@);
                    crate::decimal::lemma_pow10_unfold_small();
                    assert(false);
                }
            }
            return None;
        },
    };
    proof {
        crate::decimal::lemma_pow10_unfold_small();
        crate::decimal::lemma_dec_val_lt_pow10(year_str@);
        crate::decimal::lemma_dec_val_lt_pow10(month_str@);
    }
    let new_month: u64 = if month == 12 {
        1
    } else {
        month + 1
    };
    let new_year: u64 = if month == 12 {
        year + 1
    } else {
        year
    };
    let mut r = u64_to_string_pad(new_year, 4);
    string_push(&mut r, '-');
    let mm = u64_to_string_pad(new_month, 2);
    r.append(mm.as_str());
    proof {
        assert(r@ =~= next_month_text(given_month@));
        assert forall|j: int| 0 <= j < 4 implies is_dec_digit(#[trigger] given_month@[j]) by {
            assert(given_month@[j] == year_str@[j]);
        }
        assert forall|j: int| 5 <= j < 7 implies is_dec_digit(#[trigger] given_month@[j]) by {
            assert(given_month@[j] == month_str@[j - 5]);
        }
        assert(month_input_ok(given_month@));
    }
    Some(r)
}

/// Cuts a string down to at most `max_length` characters, marking a cut
/// with a trailing ellipsis; shorter input passes through unchanged.
pub fn truncate_string(input: &str, max_length: usize) -> (r: String)
    ensures
        input@.len() > max_length ==> r@ == input@.take(max_length as int) + "..."@,
        input@.len() <= max_length ==> r@ == input@,
{
    let len = input.unicode_len();
    if len > max_length {
        let prefix = input.substring_char(0, max_length);
        let mut r = prefix.to_owned();
        r.append("...");
        proof {
            assert(r@ =~= input@.take(max_length as int) + "..."@);
        }
        r
    } else {
        input.to_owned()
    }
}

} // verus!
