//! A calendar date with a time of day, ordered chronologically.
//!
//! The registry's stores record timestamps and the rate-limit response
//! formats one; both need nothing of a time zone, so a timestamp is held as
//! plain calendar fields, always in UTC.

use vstd::prelude::*;

use crate::text::{chars_to_string, dec2_of, dec_of, push_dec2_u64, push_dec_u64, push_str_chars};

verus! {

/// A UTC timestamp as plain calendar fields.
#[derive(PartialEq, Eq, Structural, Clone, Copy, Debug)]
pub struct DateTime {
    pub year: u64,
    pub month: u64,
    pub day: u64,
    pub hour: u64,
    pub minute: u64,
    pub second: u64,
}

impl DateTime {
    /// A plausible calendar timestamp; years are kept to four digits so that
    /// the formatted forms have a fixed shape.
    pub open spec fn wf(self) -> bool {
        &&& 1000 <= self.year <= 9999
        &&& 1 <= self.month <= 12
        &&& 1 <= self.day <= 31
        &&& self.hour < 24
        &&& self.minute < 60
        &&& self.second < 60
    }

    pub fn new(year: u64, month: u64, day: u64, hour: u64, minute: u64, second: u64) -> (r:
        DateTime)
        requires
            1000 <= year <= 9999,
            1 <= month <= 12,
            1 <= day <= 31,
            hour < 24,
            minute < 60,
            second < 60,
        ensures
            r == (DateTime { year, month, day, hour, minute, second }),
            r.wf(),
    {
        DateTime { year, month, day, hour, minute, second }
    }
}

/// Strict chronological order on timestamps: field by field, most significant
/// first.
pub open spec fn dt_lt(a: DateTime, b: DateTime) -> bool {
    if a.year != b.year {
        a.year < b.year
    } else if a.month != b.month {
        a.month < b.month
    } else if a.day != b.day {
        a.day < b.day
    } else if a.hour != b.hour {
        a.hour < b.hour
    } else if a.minute != b.minute {
        a.minute < b.minute
    } else {
        a.second < b.second
    }
}

/// Non-strict chronological order.
pub open spec fn dt_le(a: DateTime, b: DateTime) -> bool {
    dt_lt(a, b) || a == b
}

impl DateTime {
    /// True when `self` is strictly earlier than `other`.
    pub fn is_before(&self, other: &DateTime) -> (r: bool)
        ensures
            r == dt_lt(*self, *other),
    {
        if self.year != other.year {
            self.year < other.year
        } else if self.month != other.month {
            self.month < other.month
        } else if self.day != other.day {
            self.day < other.day
        } else if self.hour != other.hour {
            self.hour < other.hour
        } else if self.minute != other.minute {
            self.minute < other.minute
        } else {
            self.second < other.second
        }
    }
}

/// Days from the calendar epoch used for weekday arithmetic (counted from
/// 0000-03-01 of the proleptic Gregorian calendar, so every count is
/// non-negative for the years `wf` admits).
pub open spec fn civil_days(year: nat, month: nat, day: nat) -> int {
    let y: int = if month <= 2 {
        year - 1
    } else {
        year as int
    };
    let era: int = y / 400;
    let yoe: int = y - era * 400;
    let mp: int = if month > 2 {
        month - 3
    } else {
        (month + 9) as int
    };
    let doy: int = (153 * mp + 2) / 5 + day - 1;
    let doe: int = yoe * 365 + yoe / 4 - yoe / 100 + doy;
    era * 146097 + doe
}

/// Weekday of a date, with 0 standing for Wednesday, 1 for Thursday, and so
/// on through the week (the residue of `civil_days` modulo 7).
pub open spec fn weekday_of(year: nat, month: nat, day: nat) -> int {
    civil_days(year, month, day) % 7
}

/// The weekday of the date, as `weekday_of` numbers it.
pub fn weekday(dt: &DateTime) -> (r: u64)
    requires
        dt.wf(),
    ensures
        r == weekday_of(dt.year as nat, dt.month as nat, dt.day as nat),
        r < 7,
{
    let y: u64 = if dt.month <= 2 {
        dt.year - 1
    } else {
        dt.year
    };
    let era: u64 = y / 400;
    let yoe: u64 = y - era * 400;
    let mp: u64 = if dt.month > 2 {
        dt.month - 3
    } else {
        dt.month + 9
    };
    let doy: u64 = (153 * mp + 2) / 5 + dt.day - 1;
    let doe: u64 = yoe * 365 + yoe / 4 - yoe / 100 + doy;
    let dd: u64 = era * 146097 + doe;
    dd % 7
}

/// Three-letter English abbreviation for the weekday numbering of
/// `weekday_of`.
pub open spec fn weekday_abbrev(w: int) -> Seq<char> {
    if w == 0 {
        "Wed"@
    } else if w == 1 {
        "Thu"@
    } else if w == 2 {
        "Fri"@
    } else if w == 3 {
        "Sat"@
    } else if w == 4 {
        "Sun"@
    } else if w == 5 {
        "Mon"@
    } else {
        "Tue"@
    }
}

/// Three-letter English abbreviation for a month number.
pub open spec fn month_abbrev(m: int) -> Seq<char> {
    if m == 1 {
        "Jan"@
    } else if m == 2 {
        "Feb"@
    } else if m == 3 {
        "Mar"@
    } else if m == 4 {
        "Apr"@
    } else if m == 5 {
        "May"@
    } else if m == 6 {
        "Jun"@
    } else if m == 7 {
        "Jul"@
    } else if m == 8 {
        "Aug"@
    } else if m == 9 {
        "Sep"@
    } else if m == 10 {
        "Oct"@
    } else if m == 11 {
        "Nov"@
    } else {
        "Dec"@
    }
}

/// The timestamp in the fixed-length HTTP date shape used by `Retry-After`
/// headers: weekday, day of month, month, year, then the time, all in GMT.
pub open spec fn http_date_of(dt: DateTime) -> Seq<char> {
    weekday_abbrev(weekday_of(dt.year as nat, dt.month as nat, dt.day as nat)) + ", "@ + dec2_of(
        dt.day as nat,
    ) + " "@ + month_abbrev(dt.month as int) + " "@ + dec_of(dt.year as nat) + " "@ + dec2_of(
        dt.hour as nat,
    ) + ":"@ + dec2_of(dt.minute as nat) + ":"@ + dec2_of(dt.second as nat) + " GMT"@
}

fn push_weekday_abbrev(out: &mut Vec<char>, w: u64)
    requires
        w < 7,
    ensures
        final(out)@ == old(out)@ + weekday_abbrev(w as int),
{
    match w {
        0 => push_str_chars(out, "Wed"),
        1 => push_str_chars(out, "Thu"),
        2 => push_str_chars(out, "Fri"),
        3 => push_str_chars(out, "Sat"),
        4 => push_str_chars(out, "Sun"),
        5 => push_str_chars(out, "Mon"),
        _ => push_str_chars(out, "Tue"),
    }
}

fn push_month_abbrev(out: &mut Vec<char>, m: u64)
    requires
        1 <= m <= 12,
    ensures
        final(out)@ == old(out)@ + month_abbrev(m as int),
{
    match m {
        1 => push_str_chars(out, "Jan"),
        2 => push_str_chars(out, "Feb"),
        3 => push_str_chars(out, "Mar"),
        4 => push_str_chars(out, "Apr"),
        5 => push_str_chars(out, "May"),
        6 => push_str_chars(out, "Jun"),
        7 => push_str_chars(out, "Jul"),
        8 => push_str_chars(out, "Aug"),
        9 => push_str_chars(out, "Sep"),
        10 => push_str_chars(out, "Oct"),
        11 => push_str_chars(out, "Nov"),
        _ => push_str_chars(out, "Dec"),
    }
}

/// Formats the timestamp as an HTTP date.
pub fn http_date(dt: &DateTime) -> (r: String)
    requires
        dt.wf(),
    ensures
        r@ == http_date_of(*dt),
{
    let mut out: Vec<char> = Vec::new();
    let w = weekday(dt);
    push_weekday_abbrev(&mut out, w);
    push_str_chars(&mut out, ", ");
    push_dec2_u64(&mut out, dt.day);
    push_str_chars(&mut out, " ");
    push_month_abbrev(&mut out, dt.month);
    push_str_chars(&mut out, " ");
    push_dec_u64(&mut out, dt.year);
    push_str_chars(&mut out, " ");
    push_dec2_u64(&mut out, dt.hour);
    push_str_chars(&mut out, ":");
    push_dec2_u64(&mut out, dt.minute);
    push_str_chars(&mut out, ":");
    push_dec2_u64(&mut out, dt.second);
    push_str_chars(&mut out, " GMT");
    assert(out@ =~= http_date_of(*dt));
    chars_to_string(&out)
}

} // verus!
