use vstd::prelude::*;

verus! {

/// How many 100-nanosecond intervals a day has.
pub const TICKS_PER_DAY: u64 = 864_000_000_000;

/// Whether `year` is a leap year of the Gregorian calendar.
pub open spec fn is_leap_year(year: int) -> bool {
    year % 4 == 0 && (year % 100 != 0 || year % 400 == 0)
}

/// How many days `year` has.
pub open spec fn days_in_year(year: int) -> int {
    if is_leap_year(year) {
        366
    } else {
        365
    }
}

/// How many days the month `month` of `year` has; months count from 1.
pub open spec fn days_in_month(year: int, month: int) -> int {
    if month == 2 {
        if is_leap_year(year) {
            29
        } else {
            28
        }
    } else if month == 4 || month == 6 || month == 9 || month == 11 {
        30
    } else {
        31
    }
}

/// How many days lie between 1601-01-01 and the first day of `year`.
pub open spec fn days_before_year(year: int) -> int
    decreases year - 1601,
{
    if year <= 1601 {
        0
    } else {
        days_before_year(year - 1) + days_in_year(year - 1)
    }
}

/// How many days of `year` lie before the first day of its month `month`.
pub open spec fn days_before_month(year: int, month: int) -> int
    decreases month,
{
    if month <= 1 {
        0
    } else {
        days_before_month(year, month - 1) + days_in_month(year, month - 1)
    }
}

/// Whether `year`, `month` and `day` name a day of the calendar, not before
/// 1601.
pub open spec fn is_date(year: int, month: int, day: int) -> bool {
    year >= 1601 && 1 <= month <= 12 && 1 <= day <= days_in_month(year, month)
}

/// How many days lie between 1601-01-01 and the given day.
pub open spec fn day_number(year: int, month: int, day: int) -> int {
    days_before_year(year) + days_before_month(year, month) + day - 1
}

/// A point in time of the calendar, to the microsecond, in universal time.
#[derive(Debug, Clone, Copy, PartialEq, Eq, Structural)]
pub struct DateTime {
    pub year: u32,
    pub month: u8,
    pub day: u8,
    pub hour: u8,
    pub minute: u8,
    pub second: u8,
    pub microsecond: u32,
}

/// Whether `year` is a leap year.
fn leap_year(year: u32) -> (r: bool)
    ensures
        r == is_leap_year(year as int),
{
    year % 4 == 0 && (year % 100 != 0 || year % 400 == 0)
}

/// How many days `year` has.
fn year_length(year: u32) -> (r: u64)
    ensures
        r == days_in_year(year as int),
{
    if leap_year(year) {
        366
    } else {
        365
    }
}

/// How many days the month `month` of `year` has.
fn month_length(year: u32, month: u8) -> (r: u64)
    ensures
        r == days_in_month(year as int, month as int),
{
    if month == 2 {
        if leap_year(year) {
            29
        } else {
            28
        }
    } else if month == 4 || month == 6 || month == 9 || month == 11 {
        30
    } else {
        31
    }
}

/// The months of a year make up the year.
proof fn lemma_months_fill_year(year: int)
    ensures
        days_before_month(year, 13) == days_in_year(year),
{
    reveal_with_fuel(days_before_month, 14);
}

/// The point in time that lies `ticks` 100-nanosecond intervals after the
/// start of the year 1601: the day with that many whole days before it, and
/// the time of that day.
pub fn filetime_parts(ticks: u64) -> (r: DateTime)
    ensures
        is_date(r.year as int, r.month as int, r.day as int),
        day_number(r.year as int, r.month as int, r.day as int) == ticks / TICKS_PER_DAY,
        r.hour == (ticks / 36_000_000_000) % 24,
        r.minute == (ticks / 600_000_000) % 60,
        r.second == (ticks / 10_000_000) % 60,
        r.microsecond == (ticks / 10) % 1_000_000,
{
    let days: u64 = ticks / TICKS_PER_DAY;
    let mut year: u32 = 1601;
    let mut left: u64 = days;
    while left >= year_length(year)
        invariant
            days == ticks / TICKS_PER_DAY,
            year >= 1601,
            left <= days,
            days_before_year(year as int) + left == days,
            365 * (year - 1601) <= days - left,
        decreases left,
    {
        left = left - year_length(year);
        year = year + 1;
    }
    let mut month: u8 = 1;
    proof {
        lemma_months_fill_year(year as int);
    }
    while left >= month_length(year, month)
        invariant
            1 <= month <= 12,
            days_before_month(year as int, month as int) + left < days_in_year(year as int),
            days_before_year(year as int) + days_before_month(year as int, month as int) + left
                == days,
            days_before_month(year as int, 13) == days_in_year(year as int),
        decreases 12 - month,
    {
        proof {
            if month == 12 {
                assert(days_before_month(year as int, 13) == days_before_month(year as int, 12)
                    + days_in_month(year as int, 12));
            }
        }
        left = left - month_length(year, month);
        month = month + 1;
    }
    DateTime {
        year,
        month,
        day: (left + 1) as u8,
        hour: ((ticks / 36_000_000_000) % 24) as u8,
        minute: ((ticks / 600_000_000) % 60) as u8,
        second: ((ticks / 10_000_000) % 60) as u8,
        microsecond: ((ticks / 10) % 1_000_000) as u32,
    }
}

} // verus!
