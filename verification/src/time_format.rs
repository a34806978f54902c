//! How message times are written: how long ago for recent messages, the
//! local clock time or date for older ones, and the date of a day separator.

use vstd::prelude::*;
use crate::text::{chars_of, concat_str, push_char, string_of};
use chrono::{Datelike, TimeZone, Timelike};

verus! {

/// The decimal digits of `n`.
pub open spec fn decimal(n: nat) -> Seq<char>
    decreases n,
{
    if n < 10 {
        seq![(48 + n) as char]
    } else {
        decimal(n / 10).push((48 + n % 10) as char)
    }
}

/// The decimal text of a signed number.
pub open spec fn signed_decimal(n: int) -> Seq<char> {
    if n < 0 { seq!['-'] + decimal((-n) as nat) } else { decimal(n as nat) }
}

/// The decimal text of `n`.
pub fn decimal_string(n: u64) -> (r: String)
    ensures
        r@ == decimal(n as nat),
    decreases n,
{
    let d = ((48 + n % 10) as u8) as char;
    if n < 10 {
        let mut v: Vec<char> = Vec::new();
        v.push(d);
        assert(v@ =~= seq![d]);
        string_of(v.as_slice())
    } else {
        let head = decimal_string(n / 10);
        let mut v = chars_of(head.as_str());
        v.push(d);
        string_of(v.as_slice())
    }
}

/// The decimal text of a signed number.
pub fn signed_decimal_string(n: i64) -> (r: String)
    ensures
        r@ == signed_decimal(n as int),
{
    if n < 0 {
        let m: u64 = if n == i64::MIN { 0x8000_0000_0000_0000u64 } else { (-n) as u64 };
        let d = decimal_string(m);
        proof {
            reveal_strlit("-");
            assert("-"@ =~= seq!['-']);
        }
        concat_str("-", d.as_str())
    } else {
        decimal_string(n as u64)
    }
}

/// The earliest and latest seconds since the epoch that `chrono` can turn
/// into a date: its dates run from January 1st of year -262143 to
/// December 31st of year 262142.
pub open spec fn chrono_in_range(ts: int) -> bool {
    -8334601228800 <= ts <= 8210266876799
}

/// Whether `chrono` can give a date for `ts` (see `chrono_in_range`).
pub fn timestamp_in_range(ts: i64) -> (r: bool)
    ensures
        r == chrono_in_range(ts as int),
{
    -8334601228800i64 <= ts && ts <= 8210266876799i64
}

/// The English name of a month (1 to 12).
pub open spec fn month_name(month: u32) -> Seq<char> {
    if month == 1 { "January"@ }
    else if month == 2 { "February"@ }
    else if month == 3 { "March"@ }
    else if month == 4 { "April"@ }
    else if month == 5 { "May"@ }
    else if month == 6 { "June"@ }
    else if month == 7 { "July"@ }
    else if month == 8 { "August"@ }
    else if month == 9 { "September"@ }
    else if month == 10 { "October"@ }
    else if month == 11 { "November"@ }
    else { "December"@ }
}

/// Whether `y` is a leap year of the proleptic Gregorian calendar.
pub open spec fn is_leap_year(y: int) -> bool {
    y % 4 == 0 && (y % 100 != 0 || y % 400 == 0)
}

/// The number of days of month `m` (1 to 12) of year `y`.
pub open spec fn days_in_month(y: int, m: int) -> int {
    if m == 2 {
        if is_leap_year(y) { 29 } else { 28 }
    } else if m == 4 || m == 6 || m == 9 || m == 11 {
        30
    } else {
        31
    }
}

/// The number of days of year `y` before month `m` (1 to 12).
pub open spec fn days_before_month(y: int, m: int) -> int {
    let common: int = if m == 1 { 0 } else if m == 2 { 31 } else if m == 3 { 59 } else if m == 4 { 90 }
        else if m == 5 { 120 } else if m == 6 { 151 } else if m == 7 { 181 } else if m == 8 { 212 }
        else if m == 9 { 243 } else if m == 10 { 273 } else if m == 11 { 304 } else { 334 };
    common + if m > 2 && is_leap_year(y) { 1int } else { 0int }
}

/// The number of a date counted from January 1st of year 1, which is day
/// 1, in the proleptic Gregorian calendar (January 1st, 1970 is day
/// 719163).
pub open spec fn day_number(y: int, m: int, d: int) -> int {
    let p = y - 1;
    p * 365 + p / 4 - p / 100 + p / 400 + days_before_month(y, m) + d
}

/// A moment read out in a time zone: its day counted from January 1st of
/// year 1 (that day is 1), its date, its hour, minute and second, the
/// zone's offset from UTC in seconds at that moment, and the English name
/// of its month.
pub struct LocalTime {
    pub days: i32,
    pub year: i32,
    pub month: u32,
    pub day: u32,
    pub hour: u32,
    pub minute: u32,
    pub second: u32,
    pub offset: i32,
    pub month_name: String,
}

impl LocalTime {
    /// The parts lie in their ranges and the name is that of the month.
    pub open spec fn wf(&self) -> bool {
        &&& 1 <= self.month <= 12
        &&& 1 <= self.day <= 31
        &&& self.hour < 24
        &&& self.minute < 60
        &&& self.second < 60
        &&& -86400 < self.offset < 86400
        &&& self.month_name@ == month_name(self.month)
    }
}

/// `t` is the local time of `ts` (seconds since the epoch) in a zone whose
/// offset is `t.offset`: its date is a real date whose number is `t.days`,
/// and its date and time of day are those of `ts + t.offset` seconds.
pub open spec fn is_local_time_of(t: LocalTime, ts: int) -> bool {
    &&& t.wf()
    &&& t.day <= days_in_month(t.year as int, t.month as int)
    &&& t.days == day_number(t.year as int, t.month as int, t.day as int)
    &&& (t.days - 719163) * 86400 + t.hour * 3600 + t.minute * 60 + t.second == ts + t.offset
}

/// `chrono`'s `Local.timestamp_opt(ts, 0).single()`, read out with
/// `num_days_from_ce`, `year`, `month`, `day`, `hour`, `minute`, `second`,
/// the offset's `local_minus_utc` and the `%B` month name. `timestamp_opt`
/// gives a single time exactly when `DateTime::from_timestamp` accepts
/// `ts` (see `chrono_in_range`); that time is `ts` plus the zone's offset
/// at `ts`, a `FixedOffset` of less than a day, read in the proleptic
/// Gregorian calendar. Which offset the machine's time zone has is not
/// stated: it depends on the machine.
#[verifier::external_body]
fn local_time(ts: i64) -> (r: Option<LocalTime>)
    ensures
        r is Some <==> chrono_in_range(ts as int),
        r matches Some(t) ==> is_local_time_of(t, ts as int),
{
    match chrono::Local.timestamp_opt(ts, 0).single() {
        Some(dt) => Some(LocalTime {
            days: dt.num_days_from_ce(),
            year: dt.year(),
            month: dt.month(),
            day: dt.day(),
            hour: dt.hour(),
            minute: dt.minute(),
            second: dt.second(),
            offset: dt.offset().local_minus_utc(),
            month_name: dt.format("%B").to_string(),
        }),
        None => None,
    }
}

/// The two decimal digits of `n` (below 100), with a leading zero.
pub open spec fn two_digits(n: nat) -> Seq<char> {
    seq![(48 + n / 10) as char, (48 + n % 10) as char]
}

/// `9:39 PM`: the hour on a twelve-hour clock, the minute in two digits,
/// and AM or PM.
pub open spec fn clock_text(hour: u32, minute: u32) -> Seq<char> {
    let h: nat = if hour % 12 == 0 { 12 } else { (hour % 12) as nat };
    decimal(h) + ":"@ + two_digits(minute as nat) + (if hour < 12 { " AM"@ } else { " PM"@ })
}

/// `6/16/25`: the month, the day and the last two digits of the year.
pub open spec fn short_date_text(month: u32, day: u32, year: i32) -> Seq<char> {
    decimal(month as nat) + "/"@ + decimal(day as nat) + "/"@ + two_digits((year as int % 100) as nat)
}

/// The time text of a message sent less than five minutes ago (or later
/// than now): `just now` under a minute, else the whole minutes.
pub open spec fn recent_text(elapsed: int) -> Seq<char> {
    if elapsed < 60 {
        "just now"@
    } else if elapsed < 120 {
        "1 minute ago"@
    } else {
        decimal((elapsed / 60) as nat) + " minutes ago"@
    }
}

/// The time text of a message sent `elapsed` seconds ago at local time
/// `t`, when today is local day `today`: how long ago under five minutes,
/// else the clock time, after `Yesterday, ` for a message of the day
/// before, or after the short date for an older one.
pub open spec fn message_time_text(elapsed: int, t: LocalTime, today: int) -> Seq<char> {
    if elapsed < 300 {
        recent_text(elapsed)
    } else if t.days == today {
        clock_text(t.hour, t.minute)
    } else if t.days + 1 == today {
        "Yesterday, "@ + clock_text(t.hour, t.minute)
    } else {
        short_date_text(t.month, t.day, t.year) + ", "@ + clock_text(t.hour, t.minute)
    }
}

/// The time text of a message given the local time of its timestamp
/// (`None` when it has none): `unknown`, or `message_time_text`.
pub open spec fn timestamp_text(elapsed: int, local: Option<LocalTime>, today: int) -> Seq<char> {
    match local {
        None => "unknown"@,
        Some(t) => message_time_text(elapsed, t, today),
    }
}

/// The two digits of `n` (below 100).
fn two_digit_string(n: u32) -> (r: String)
    requires
        n < 100,
    ensures
        r@ == two_digits(n as nat),
{
    let mut r = String::new();
    push_char(&mut r, ((48 + n / 10) as u8) as char);
    push_char(&mut r, ((48 + n % 10) as u8) as char);
    assert(r@ =~= two_digits(n as nat));
    r
}

/// The clock text of an hour and minute (see `clock_text`).
pub fn clock_string(hour: u32, minute: u32) -> (r: String)
    requires
        minute < 100,
    ensures
        r@ == clock_text(hour, minute),
{
    let h: u32 = if hour % 12 == 0 { 12 } else { hour % 12 };
    let a = decimal_string(h as u64);
    let b = concat_str(a.as_str(), ":");
    let m = two_digit_string(minute);
    let c = concat_str(b.as_str(), m.as_str());
    let r = if hour < 12 { concat_str(c.as_str(), " AM") } else { concat_str(c.as_str(), " PM") };
    r
}

/// The short date of a month, day and year (see `short_date_text`).
pub fn short_date_string(month: u32, day: u32, year: i32) -> (r: String)
    ensures
        r@ == short_date_text(month, day, year),
{
    let shifted: u64 = (year as i64 + 2_200_000_000i64) as u64;
    let yy: u32 = (shifted % 100) as u32;
    assert(yy as int == year as int % 100);
    let a = decimal_string(month as u64);
    let b = concat_str(a.as_str(), "/");
    let d = decimal_string(day as u64);
    let c = concat_str(b.as_str(), d.as_str());
    let e = concat_str(c.as_str(), "/");
    let y = two_digit_string(yy);
    concat_str(e.as_str(), y.as_str())
}

/// The time text of a message sent at `ts` when it is `now` (seconds since
/// the epoch), given the local time of `ts` and the local day of `now`
/// (see `timestamp_text`).
pub fn format_timestamp_with(ts: i64, now: i64, local: &Option<LocalTime>, today: i32) -> (r: String)
    requires
        local matches Some(t) ==> t.wf(),
    ensures
        r@ == timestamp_text(now - ts, *local, today as int),
{
    match local {
        None => "unknown".to_string(),
        Some(t) => {
            let elapsed: i128 = now as i128 - ts as i128;
            if elapsed < 60 {
                "just now".to_string()
            } else if elapsed < 120 {
                "1 minute ago".to_string()
            } else if elapsed < 300 {
                let m = decimal_string((elapsed / 60) as u64);
                concat_str(m.as_str(), " minutes ago")
            } else {
                let clock = clock_string(t.hour, t.minute);
                if t.days == today {
                    clock
                } else if t.days as i64 + 1 == today as i64 {
                    concat_str("Yesterday, ", clock.as_str())
                } else {
                    let date = short_date_string(t.month, t.day, t.year);
                    let a = concat_str(date.as_str(), ", ");
                    concat_str(a.as_str(), clock.as_str())
                }
            }
        },
    }
}

/// The time text of a message sent at `ts` when it is `now` (seconds since
/// the epoch), Discord-style: `just now` or `2 minutes ago` under five
/// minutes, else `9:39 PM` for today, `Yesterday, 9:39 PM`, or
/// `6/16/25, 8:30 AM` for older messages, all in local time; `unknown`
/// when `ts` has no date.
pub fn format_message_timestamp(ts: i64, now: i64) -> (r: String)
    requires
        chrono_in_range(now as int),
    ensures
        !chrono_in_range(ts as int) ==> r@ == "unknown"@,
        chrono_in_range(ts as int) && now - ts < 300 ==> r@ == recent_text(now - ts),
        chrono_in_range(ts as int) ==> exists|t: LocalTime, n: LocalTime|
            is_local_time_of(t, ts as int) && is_local_time_of(n, now as int)
            && r@ == #[trigger] message_time_text(now - ts, t, n.days as int),
{
    let local = local_time(ts);
    let here = local_time(now);
    let today = match &here {
        Some(n) => n.days,
        None => 0,
    };
    let r = format_timestamp_with(ts, now, &local, today);
    proof {
        if chrono_in_range(ts as int) {
            let t = local->0;
            let n = here->0;
            assert(r@ == message_time_text(now - ts, t, n.days as int));
        }
    }
    r
}

/// The ordinal suffix of a day of the month.
pub open spec fn day_suffix(day: u32) -> Seq<char> {
    if day == 1 || day == 21 || day == 31 {
        "st"@
    } else if day == 2 || day == 22 {
        "nd"@
    } else if day == 3 || day == 23 {
        "rd"@
    } else {
        "th"@
    }
}

/// A day separator: `June 16th, 2025`.
pub open spec fn date_delimiter_text(month: Seq<char>, day: u32, year: i32) -> Seq<char> {
    month + " "@ + decimal(day as nat) + day_suffix(day) + ", "@ + signed_decimal(year as int)
}

/// A day separator for the month name, day and year (see
/// `date_delimiter_text`).
pub fn format_date_delimiter_with(month: &str, day: u32, year: i32) -> (r: String)
    ensures
        r@ == date_delimiter_text(month@, day, year),
{
    let suffix = if day == 1 || day == 21 || day == 31 {
        "st"
    } else if day == 2 || day == 22 {
        "nd"
    } else if day == 3 || day == 23 {
        "rd"
    } else {
        "th"
    };
    let a = concat_str(month, " ");
    let d = decimal_string(day as u64);
    let b = concat_str(a.as_str(), d.as_str());
    let c = concat_str(b.as_str(), suffix);
    let e = concat_str(c.as_str(), ", ");
    let y = signed_decimal_string(year as i64);
    concat_str(e.as_str(), y.as_str())
}

/// The day separator of the local date of `ts` (such as
/// `June 16th, 2025`), or `?` when `ts` has no date.
pub fn format_date_delimiter(ts: i64) -> (r: String)
    ensures
        !chrono_in_range(ts as int) ==> r@ == "?"@,
        chrono_in_range(ts as int) ==> exists|t: LocalTime| is_local_time_of(t, ts as int)
            && r@ == #[trigger] date_delimiter_text(month_name(t.month), t.day, t.year),
{
    match local_time(ts) {
        Some(t) => {
            let r = format_date_delimiter_with(t.month_name.as_str(), t.day, t.year);
            assert(r@ == date_delimiter_text(month_name(t.month), t.day, t.year));
            r
        },
        None => "?".to_string(),
    }
}

} // verus!
