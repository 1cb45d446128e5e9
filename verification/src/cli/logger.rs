//! The lines that a helper writes to its own log, with the date and time of each.

use vstd::prelude::*;

use crate::paths::{self, join_path2};
use crate::text::chars::{cat3, cat5};
use crate::text::number::{self, padded_text};
use crate::text::search;

verus! {

/// How serious an entry is.
#[derive(Debug, Clone, Copy, PartialEq, Eq, Structural)]
pub enum LogLevel {
    Info,
    Warn,
    Error,
}

/// A day of the Gregorian calendar.
pub struct Date {
    pub year: int,
    pub month: int,
    pub day: int,
}

/// A year with a 29th of February.
pub open spec fn is_leap(year: int) -> bool {
    year % 4 == 0 && (year % 100 != 0 || year % 400 == 0)
}

/// The number of days of a month.
pub open spec fn month_len(year: int, month: int) -> int {
    if month == 2 {
        if is_leap(year) {
            29
        } else {
            28
        }
    } else if month == 4 || month == 6 || month == 9 || month == 11 {
        30
    } else {
        31
    }
}

/// A day that the calendar has.
pub open spec fn is_date(date: Date) -> bool {
    &&& 0 <= date.year
    &&& 1 <= date.month <= 12
    &&& 1 <= date.day <= month_len(date.year, date.month)
}

/// The day after `date`.
pub open spec fn next_date(date: Date) -> Date {
    if date.day < month_len(date.year, date.month) {
        Date { day: date.day + 1, ..date }
    } else if date.month < 12 {
        Date { month: date.month + 1, day: 1, ..date }
    } else {
        Date { year: date.year + 1, month: 1, day: 1 }
    }
}

/// The day that is `n` days after the first of January 1970.
pub open spec fn date_of(n: nat) -> Date
    decreases n,
{
    if n == 0 {
        Date { year: 1970, month: 1, day: 1 }
    } else {
        next_date(date_of((n - 1) as nat))
    }
}

/// How a level is written.
pub open spec fn level_name(level: LogLevel) -> Seq<char> {
    match level {
        LogLevel::Info => "INFO"@,
        LogLevel::Warn => "WARN"@,
        LogLevel::Error => "ERROR"@,
    }
}

/// The date and the time of day of the second `now` of Unix time.
pub open spec fn timestamp(now: u64) -> Seq<char> {
    let date = date_of((now / 86400) as nat);
    let second = (now % 86400) as int;
    number::padded(date.year as nat, 4) + "-"@ + number::padded(date.month as nat, 2) + "-"@
        + number::padded(date.day as nat, 2) + "T"@ + number::padded((second / 3600) as nat, 2)
        + ":"@ + number::padded((second % 3600 / 60) as nat, 2) + ":"@ + number::padded(
        (second % 60) as nat,
        2,
    )
}

/// The line for an entry.
pub open spec fn log_line(level: LogLevel, msg: Seq<char>, now: u64) -> Seq<char> {
    "["@ + timestamp(now) + "Z] ["@ + level_name(level) + ("] "@ + msg + "\n"@)
}

/// The days before March of `year`, counted from the first of March of the year 0.
spec fn year_start(year: int) -> int {
    365 * year + year / 4 - year / 100 + year / 400
}

/// The days before a month, counted from the first of March; March is month 0.
spec fn month_start(month: int) -> int {
    (153 * month + 2) / 5
}

/// The days from the first of March of the year 0 to `date`.
spec fn day_number(date: Date) -> int {
    let year = if date.month <= 2 {
        date.year - 1
    } else {
        date.year
    };
    let month = if date.month <= 2 {
        date.month + 9
    } else {
        date.month - 3
    };
    year_start(year) + month_start(month) + date.day - 1
}

/// A year that begins in March has 366 days if its February belongs to a leap year.
proof fn lemma_year_len(year: int)
    ensures
        year_start(year + 1) == year_start(year) + if is_leap(year + 1) {
            366int
        } else {
            365int
        },
{
    let y = year + 1;
    assert(y / 4 == year / 4 + if y % 4 == 0 {
        1int
    } else {
        0int
    });
    assert(y / 100 == year / 100 + if y % 100 == 0 {
        1int
    } else {
        0int
    });
    assert(y / 400 == year / 400 + if y % 400 == 0 {
        1int
    } else {
        0int
    });
}

/// The day after a day is a day, and its number is the next one.
proof fn lemma_next_date(date: Date)
    requires
        is_date(date),
    ensures
        is_date(next_date(date)),
        day_number(next_date(date)) == day_number(date) + 1,
{
    lemma_year_len(date.year - 1);
    let m = date.month;
    assert(m == 1 || m == 2 || m == 3 || m == 4 || m == 5 || m == 6 || m == 7 || m == 8 || m == 9
        || m == 10 || m == 11 || m == 12);
}

/// The number of the day that is `n` days after the first of January 1970.
proof fn lemma_date_of(n: nat)
    ensures
        is_date(date_of(n)),
        day_number(date_of(n)) == n + 719468,
    decreases n,
{
    if n > 0 {
        lemma_date_of((n - 1) as nat);
        lemma_next_date(date_of((n - 1) as nat));
    }
}

/// Later years start later.
proof fn lemma_year_start_grows(a: int, b: int)
    requires
        a < b,
    ensures
        year_start(a) + 365 <= year_start(b),
    decreases b - a,
{
    lemma_year_len(b - 1);
    if a < b - 1 {
        lemma_year_start_grows(a, b - 1);
    }
}

/// Days with the same number are the same day.
proof fn lemma_day_number_injective(a: Date, b: Date)
    requires
        is_date(a),
        is_date(b),
        day_number(a) == day_number(b),
    ensures
        a == b,
{
    let ya = if a.month <= 2 {
        a.year - 1
    } else {
        a.year
    };
    let yb = if b.month <= 2 {
        b.year - 1
    } else {
        b.year
    };
    lemma_year_len(ya);
    lemma_year_len(yb);
    let m = a.month;
    let k = b.month;
    assert(m == 1 || m == 2 || m == 3 || m == 4 || m == 5 || m == 6 || m == 7 || m == 8 || m == 9
        || m == 10 || m == 11 || m == 12);
    assert(k == 1 || k == 2 || k == 3 || k == 4 || k == 5 || k == 6 || k == 7 || k == 8 || k == 9
        || k == 10 || k == 11 || k == 12);
    lemma_day_in_year(a);
    lemma_day_in_year(b);
    if ya < yb {
        if ya + 1 < yb {
            lemma_year_start_grows(ya + 1, yb);
        }
    } else if yb < ya {
        if yb + 1 < ya {
            lemma_year_start_grows(yb + 1, ya);
        }
    }
    assert(ya == yb);
}

/// A day lies in the year, from March on, that it is counted in.
proof fn lemma_day_in_year(date: Date)
    requires
        is_date(date),
    ensures
        ({
            let year = if date.month <= 2 {
                date.year - 1
            } else {
                date.year
            };
            year_start(year) <= day_number(date) < year_start(year + 1)
        }),
{
    let year = if date.month <= 2 {
        date.year - 1
    } else {
        date.year
    };
    lemma_year_len(year);
    let m = date.month;
    assert(m == 1 || m == 2 || m == 3 || m == 4 || m == 5 || m == 6 || m == 7 || m == 8 || m == 9
        || m == 10 || m == 11 || m == 12);
}

/// The year of a cycle of 400 years that a day of the cycle lies in, and the day in
/// that year, both from March on.
proof fn lemma_year_of_cycle(doe: int)
    requires
        0 <= doe < 146097,
    ensures
        ({
            let yoe = (doe - doe / 1460 + doe / 36524 - doe / 146096) / 365;
            let doy = doe - (365 * yoe + yoe / 4 - yoe / 100);
            &&& 0 <= yoe < 400
            &&& 0 <= doy < 366
            &&& doy == 365 ==> is_leap(yoe + 1)
        }),
{
    let yoe = (doe - doe / 1460 + doe / 36524 - doe / 146096) / 365;
    let c = yoe / 100;
    let q = yoe / 4;
    assert(c == 0 || c == 1 || c == 2 || c == 3 || c == 4);
}

/// The month and the day of the month of a day of a year, from March on.
proof fn lemma_month_of_year(doy: int)
    requires
        0 <= doy < 366,
    ensures
        ({
            let mp = (5 * doy + 2) / 153;
            &&& 0 <= mp < 12
            &&& 1 <= doy - month_start(mp) + 1
            &&& mp < 11 ==> doy < month_start(mp + 1)
        }),
{
    let mp = (5 * doy + 2) / 153;
    assert(mp == 0 || mp == 1 || mp == 2 || mp == 3 || mp == 4 || mp == 5 || mp == 6 || mp == 7
        || mp == 8 || mp == 9 || mp == 10 || mp == 11);
}

/// The date of a day of a year, both from March on; `mp` is the month, March being 0.
spec fn civil_date(year: int, doy: int, mp: int) -> Date {
    let month = if mp < 10 {
        mp + 3
    } else {
        mp - 9
    };
    Date {
        year: if month <= 2 {
            year + 1
        } else {
            year
        },
        month,
        day: doy - month_start(mp) + 1,
    }
}

/// The date of a day of a year is a date, and its number is that of the day.
proof fn lemma_civil_date(year: int, doy: int, mp: int)
    requires
        0 <= year,
        0 <= doy < 366,
        doy == 365 ==> is_leap(year + 1),
        mp == (5 * doy + 2) / 153,
    ensures
        is_date(civil_date(year, doy, mp)),
        day_number(civil_date(year, doy, mp)) == year_start(year) + doy,
{
    lemma_month_of_year(doy);
    assert(mp == 0 || mp == 1 || mp == 2 || mp == 3 || mp == 4 || mp == 5 || mp == 6 || mp == 7
        || mp == 8 || mp == 9 || mp == 10 || mp == 11);
}

/// A cycle of 400 years has 146097 days, and the leap years of each cycle are the same.
proof fn lemma_cycle(era: int, yoe: int)
    requires
        0 <= yoe < 400,
    ensures
        year_start(yoe + era * 400) == era * 146097 + 365 * yoe + yoe / 4 - yoe / 100,
        is_leap(yoe + era * 400 + 1) == is_leap(yoe + 1),
{
    let y = yoe + era * 400;
    assert(y / 4 == era * 100 + yoe / 4);
    assert(y / 100 == era * 4 + yoe / 100);
    assert(y / 400 == era);
    assert((y + 1) % 4 == (yoe + 1) % 4);
    assert((y + 1) % 100 == (yoe + 1) % 100);
    assert((y + 1) % 400 == (yoe + 1) % 400);
}

/// The day that is `days` days after the first of January 1970, as a year, a month
/// and a day.
fn civil_from_days(days: u64) -> (r: (u64, u64, u64))
    requires
        days <= 0x1_0000_0000_0000,
    ensures
        ({
            let date = date_of(days as nat);
            r.0 == date.year && r.1 == date.month && r.2 == date.day
        }),
{
    let z: u64 = days + 719468;
    let era: u64 = z / 146097;
    let doe: u64 = z % 146097;
    let yoe: u64 = (doe - doe / 1460 + doe / 36524 - doe / 146096) / 365;
    proof {
        lemma_year_of_cycle(doe as int);
        lemma_cycle(era as int, yoe as int);
    }
    let y: u64 = yoe + era * 400;
    let doy: u64 = doe - (365 * yoe + yoe / 4 - yoe / 100);
    let mp: u64 = (5 * doy + 2) / 153;
    proof {
        lemma_month_of_year(doy as int);
        lemma_civil_date(y as int, doy as int, mp as int);
        lemma_date_of(days as nat);
        lemma_day_number_injective(
            civil_date(y as int, doy as int, mp as int),
            date_of(days as nat),
        );
    }
    let d: u64 = doy - (153 * mp + 2) / 5 + 1;
    let m: u64 = if mp < 10 {
        mp + 3
    } else {
        mp - 9
    };
    let year: u64 = if m <= 2 {
        y + 1
    } else {
        y
    };
    (year, m, d)
}

impl LogLevel {
    /// How a level is written.
    pub fn as_str(&self) -> (r: &'static str)
        ensures
            r@ == level_name(*self),
    {
        match self {
            LogLevel::Info => "INFO",
            LogLevel::Warn => "WARN",
            LogLevel::Error => "ERROR",
        }
    }
}

/// The date and the time of day of the second `now` of Unix time.
pub fn timestamp_text(now: u64) -> (r: String)
    ensures
        r@ == timestamp(now),
{
    let (year, month, day) = civil_from_days(now / 86400);
    let second: u64 = now % 86400;
    let mut s = padded_text(year, 4);
    s.append("-");
    s.append(padded_text(month, 2).as_str());
    s.append("-");
    s.append(padded_text(day, 2).as_str());
    s.append("T");
    s.append(padded_text(second / 3600, 2).as_str());
    s.append(":");
    s.append(padded_text((second % 3600) / 60, 2).as_str());
    s.append(":");
    s.append(padded_text(second % 60, 2).as_str());
    s
}

/// The line for an entry of the time `now`.
pub fn log(level: LogLevel, msg: &str, now: u64) -> (r: String)
    ensures
        r@ == log_line(level, msg@, now),
{
    let time = timestamp_text(now);
    let tail = cat3("] ", msg, "\n");
    cat5("[", time.as_str(), "Z] [", level.as_str(), tail.as_str())
}

/// The line for an entry that records what was done.
pub fn info(msg: &str, now: u64) -> (r: String)
    ensures
        r@ == log_line(LogLevel::Info, msg@, now),
{
    log(LogLevel::Info, msg, now)
}

/// The line for an entry that records what can be mended.
pub fn warn(msg: &str, now: u64) -> (r: String)
    ensures
        r@ == log_line(LogLevel::Warn, msg@, now),
{
    log(LogLevel::Warn, msg, now)
}

/// The line for an entry that records what failed.
pub fn error(msg: &str, now: u64) -> (r: String)
    ensures
        r@ == log_line(LogLevel::Error, msg@, now),
{
    log(LogLevel::Error, msg, now)
}

/// The path of the log.
pub fn log_path(config_dir: &str) -> (r: String)
    ensures
        r@ == paths::join2(config_dir@, "logs"@, "helper.log"@),
{
    join_path2(config_dir, "logs", "helper.log")
}

/// The calendar begins with the first of January 1970, each day is followed by the next
/// one of the same month, by the first of the next month or by the first of the next year,
/// and after 146097 days it repeats itself, 400 years later.
pub proof fn lemma_calendar(n: nat)
    ensures
        date_of(0) == (Date { year: 1970, month: 1, day: 1 }),
        ({
            let (date, next, later) = (date_of(n), date_of(n + 1), date_of(n + 146097));
            &&& is_date(date)
            &&& next.day == date.day + 1 && next.month == date.month && next.year == date.year
                || next.day == 1 && next.month == date.month + 1 && next.year == date.year
                || next.day == 1 && next.month == 1 && date.month == 12 && date.day == 31
                && next.year == date.year + 1
            &&& date.day < 28 ==> next.day == date.day + 1
            &&& later.year == date.year + 400 && later.month == date.month && later.day == date.day
        }),
{
    lemma_date_of(n);
    lemma_later_cycle(n);
    let date = date_of(n);
    assert(date_of(n + 1) == next_date(date));
}

/// The day 400 years later.
proof fn lemma_later_cycle(n: nat)
    ensures
        date_of(n + 146097) == (Date { year: date_of(n).year + 400, ..date_of(n) }),
{
    lemma_date_of(n);
    lemma_date_of(n + 146097);
    let date = date_of(n);
    let later = Date { year: date.year + 400, ..date };
    lemma_leap_cycle(date.year);
    lemma_start_cycle(date.year);
    lemma_start_cycle(date.year - 1);
    assert(is_date(later));
    assert(day_number(later) == day_number(date) + 146097);
    lemma_day_number_injective(later, date_of(n + 146097));
}

/// The leap years repeat themselves after 400 years.
proof fn lemma_leap_cycle(year: int)
    ensures
        is_leap(year + 400) == is_leap(year),
{
    assert((year + 400) % 4 == year % 4);
    assert((year + 400) % 100 == year % 100);
    assert((year + 400) % 400 == year % 400);
}

/// 400 years have 146097 days.
proof fn lemma_start_cycle(year: int)
    ensures
        year_start(year + 400) == year_start(year) + 146097,
{
    assert((year + 400) / 4 == year / 4 + 100);
    assert((year + 400) / 100 == year / 100 + 4);
    assert((year + 400) / 400 == year / 400 + 1);
}

/// A year has 365 days, and 366 if it is divisible by 4; one that is divisible by 100 has
/// 366 only if it is divisible by 400.
pub proof fn lemma_year_days(year: int)
    ensures
        ({
            let days = month_len(year, 1) + month_len(year, 2) + month_len(year, 3) + month_len(
                year,
                4,
            ) + month_len(year, 5) + month_len(year, 6) + month_len(year, 7) + month_len(year, 8)
                + month_len(year, 9) + month_len(year, 10) + month_len(year, 11) + month_len(
                year,
                12,
            );
            &&& year % 4 != 0 ==> days == 365
            &&& year % 4 == 0 && year % 100 != 0 ==> days == 366
            &&& year % 100 == 0 && year % 400 != 0 ==> days == 365
            &&& year % 400 == 0 ==> days == 366
        }),
{
}

/// The time of day is written as hours, minutes and seconds, behind the date as year,
/// month and day.
pub proof fn lemma_timestamp(now: u64, days: nat, hour: nat, minute: nat, second: nat)
    requires
        hour < 24 && minute < 60 && second < 60,
        now == days * 86400 + hour * 3600 + minute * 60 + second,
    ensures
        ({
            let date = date_of(days);
            timestamp(now) == number::padded(date.year as nat, 4) + "-"@ + number::padded(
                date.month as nat,
                2,
            ) + "-"@ + number::padded(date.day as nat, 2) + "T"@ + number::padded(hour, 2) + ":"@
                + number::padded(minute, 2) + ":"@ + number::padded(second, 2)
        }),
{
    assert(now / 86400 == days);
    assert(now % 86400 == hour * 3600 + minute * 60 + second);
}

/// An entry is one line: the time in brackets, the level in brackets, and the message.
pub proof fn lemma_log_line(level: LogLevel, msg: Seq<char>, now: u64)
    ensures
        search::begins(log_line(level, msg, now), "["@ + timestamp(now) + "Z] ["@),
        search::ends(log_line(level, msg, now), "] "@ + msg + "\n"@),
        level == LogLevel::Info ==> search::begins(
            log_line(level, msg, now),
            "["@ + timestamp(now) + "Z] ["@ + "INFO"@ + "] "@ + msg,
        ),
        level == LogLevel::Warn ==> search::begins(
            log_line(level, msg, now),
            "["@ + timestamp(now) + "Z] ["@ + "WARN"@ + "] "@ + msg,
        ),
        level == LogLevel::Error ==> search::begins(
            log_line(level, msg, now),
            "["@ + timestamp(now) + "Z] ["@ + "ERROR"@ + "] "@ + msg,
        ),
{
    let line = log_line(level, msg, now);
    let head = "["@ + timestamp(now) + "Z] ["@;
    let tail = "] "@ + msg + "\n"@;
    assert(line =~= head + (level_name(level) + tail));
    search::lemma_ends_joined(head, level_name(level) + tail);
    assert(line =~= (head + level_name(level)) + tail);
    search::lemma_ends_joined(head + level_name(level), tail);
    let whole = head + level_name(level) + "] "@ + msg;
    assert(line =~= whole + "\n"@);
    search::lemma_ends_joined(whole, "\n"@);
}

} // verus!
