use chrono::Datelike;
use vstd::prelude::*;

use crate::errors::TodoError;

verus! {

/// A year, month and day as a caller hands them in, not yet checked.
pub type UncheckedDate = (u16, u8, u8);

/// Day number of 1970-01-01, counted from 0000-01-01.
pub const EPOCH_DAY_NUMBER: u64 = 719528;

/// Day number of 65535-12-31, the last day a `Date` can hold.
pub const MAX_DAY_NUMBER: u64 = 23936531;

pub const MILLIS_PER_DAY: u64 = 86400000;

/// The last instant, in milliseconds since 1970-01-01 UTC, that falls on a
/// day a `Date` can hold.
pub const MAX_TIMESTAMP_MILLIS: u64 = 2005949145599999;

/// A day of the proleptic Gregorian calendar.
#[derive(Debug, Clone, Copy, PartialEq, Eq, Structural)]
pub struct Date {
    pub year: u16,
    pub month: u8,
    pub day: u8,
}

#[derive(Debug, Clone, Copy, PartialEq, Eq, Structural)]
pub enum DayOfWeek {
    Sun,
    Mon,
    Tue,
    Wed,
    Thu,
    Fri,
    Sat,
}

pub open spec fn is_leap_year(y: int) -> bool {
    y % 4 == 0 && (y % 100 != 0 || y % 400 == 0)
}

pub open spec fn days_in_month(y: int, m: int) -> int {
    if m == 2 {
        if is_leap_year(y) { 29 } else { 28 }
    } else if m == 4 || m == 6 || m == 9 || m == 11 {
        30
    } else {
        31
    }
}

pub open spec fn days_in_year(y: int) -> int {
    if is_leap_year(y) { 366 } else { 365 }
}

/// Days from 0000-01-01 up to January 1st of year `y >= 0`.
pub open spec fn days_before_year(y: int) -> int {
    365 * y + (y + 3) / 4 - (y + 99) / 100 + (y + 399) / 400
}

/// Days from January 1st of year `y` up to the first day of month `m`.
pub open spec fn days_before_month(y: int, m: int) -> int {
    let base: int = if m <= 1 {
        0
    } else if m == 2 {
        31
    } else if m == 3 {
        59
    } else if m == 4 {
        90
    } else if m == 5 {
        120
    } else if m == 6 {
        151
    } else if m == 7 {
        181
    } else if m == 8 {
        212
    } else if m == 9 {
        243
    } else if m == 10 {
        273
    } else if m == 11 {
        304
    } else {
        334
    };
    if m > 2 && is_leap_year(y) { base + 1 } else { base }
}

/// The day number of the day on which the instant `millis` (milliseconds
/// since 1970-01-01 UTC) falls.
pub open spec fn day_number_at(millis: int) -> int {
    EPOCH_DAY_NUMBER + millis / (MILLIS_PER_DAY as int)
}

impl DayOfWeek {
    /// The weekday `i` days after a Sunday, for `0 <= i < 7`.
    pub open spec fn from_index(i: int) -> DayOfWeek {
        if i == 0 {
            DayOfWeek::Sun
        } else if i == 1 {
            DayOfWeek::Mon
        } else if i == 2 {
            DayOfWeek::Tue
        } else if i == 3 {
            DayOfWeek::Wed
        } else if i == 4 {
            DayOfWeek::Thu
        } else if i == 5 {
            DayOfWeek::Fri
        } else {
            DayOfWeek::Sat
        }
    }

    pub open spec fn index(self) -> int {
        match self {
            DayOfWeek::Sun => 0,
            DayOfWeek::Mon => 1,
            DayOfWeek::Tue => 2,
            DayOfWeek::Wed => 3,
            DayOfWeek::Thu => 4,
            DayOfWeek::Fri => 5,
            DayOfWeek::Sat => 6,
        }
    }
}

impl Date {
    pub open spec fn of(u: UncheckedDate) -> Date {
        Date { year: u.0, month: u.1, day: u.2 }
    }

    /// The triple names a real day of the Gregorian calendar.
    pub open spec fn is_valid(self) -> bool {
        1 <= self.month <= 12 && 1 <= self.day <= days_in_month(self.year as int, self.month as int)
    }

    /// Days since 0000-01-01; chronological order of valid dates is the
    /// order of their day numbers.
    pub open spec fn day_number(self) -> int {
        days_before_year(self.year as int) + days_before_month(self.year as int, self.month as int)
            + self.day - 1
    }

    /// The weekday, where 0000-01-01 is a Saturday.
    pub open spec fn weekday(self) -> DayOfWeek {
        DayOfWeek::from_index((self.day_number() + 6) % 7)
    }

    /// The valid date `n` days after this one (before it, for negative `n`).
    pub open spec fn shifted(self, n: int) -> Date {
        choose|r: Date| r.is_valid() && r.day_number() == self.day_number() + n
    }
}

/// Relies on chrono's `NaiveDate::from_ymd_opt`: it gives a date exactly when
/// the triple is a day of the proleptic Gregorian calendar (every `u16` year
/// lies in its range).
#[verifier::external_body]
fn ymd_exists(year: u16, month: u8, day: u8) -> (r: bool)
    ensures
        r == (Date { year, month, day }).is_valid(),
{
    chrono::NaiveDate::from_ymd_opt(year as i32, month as u32, day as u32).is_some()
}

/// Relies on chrono's `Datelike::weekday` for `NaiveDate`: the proleptic
/// Gregorian weekday.
#[verifier::external_body]
fn weekday_of_valid(date: Date) -> (r: DayOfWeek)
    requires
        date.is_valid(),
    ensures
        r == date.weekday(),
{
    let d = chrono::NaiveDate::from_ymd_opt(date.year as i32, date.month as u32, date.day as u32);
    match d.unwrap().weekday() {
        chrono::Weekday::Mon => DayOfWeek::Mon,
        chrono::Weekday::Tue => DayOfWeek::Tue,
        chrono::Weekday::Wed => DayOfWeek::Wed,
        chrono::Weekday::Thu => DayOfWeek::Thu,
        chrono::Weekday::Fri => DayOfWeek::Fri,
        chrono::Weekday::Sat => DayOfWeek::Sat,
        chrono::Weekday::Sun => DayOfWeek::Sun,
    }
}

/// Relies on chrono's `DateTime::from_timestamp` and `date_naive`: the UTC
/// calendar day of the instant `secs` seconds after 1970-01-01 00:00.
#[verifier::external_body]
fn utc_day_of(secs: i64) -> (r: Date)
    requires
        0 <= secs,
        EPOCH_DAY_NUMBER + secs / 86400 <= MAX_DAY_NUMBER,
    ensures
        r.is_valid(),
        r.day_number() == EPOCH_DAY_NUMBER + secs / 86400,
{
    let d = chrono::DateTime::from_timestamp(secs, 0).unwrap().date_naive();
    Date { year: d.year() as u16, month: d.month() as u8, day: d.day() as u8 }
}

/// Relies on chrono's `NaiveDate::checked_add_days`: the date `days` days later.
#[verifier::external_body]
fn days_later(date: Date, days: u64) -> (r: Date)
    requires
        date.is_valid(),
        date.day_number() + days <= MAX_DAY_NUMBER,
    ensures
        r.is_valid(),
        r.day_number() == date.day_number() + days,
{
    let d = chrono::NaiveDate::from_ymd_opt(date.year as i32, date.month as u32, date.day as u32);
    let d = d.unwrap().checked_add_days(chrono::Days::new(days)).unwrap();
    Date { year: d.year() as u16, month: d.month() as u8, day: d.day() as u8 }
}

/// Relies on chrono's `NaiveDate::checked_sub_days`: the date `days` days earlier.
#[verifier::external_body]
fn days_earlier(date: Date, days: u64) -> (r: Date)
    requires
        date.is_valid(),
        days <= date.day_number(),
    ensures
        r.is_valid(),
        r.day_number() == date.day_number() - days,
{
    let d = chrono::NaiveDate::from_ymd_opt(date.year as i32, date.month as u32, date.day as u32);
    let d = d.unwrap().checked_sub_days(chrono::Days::new(days)).unwrap();
    Date { year: d.year() as u16, month: d.month() as u8, day: d.day() as u8 }
}

impl Date {
    /// The UTC calendar day on which an instant, in milliseconds since
    /// 1970-01-01 00:00 UTC, falls.
    pub fn from_timestamp(timestamp_milis: u64) -> (r: Date)
        requires
            timestamp_milis <= MAX_TIMESTAMP_MILLIS,
        ensures
            r.is_valid(),
            r.day_number() == day_number_at(timestamp_milis as int),
    {
        let secs = timestamp_milis / 1000;
        proof {
            vstd::arithmetic::div_mod::lemma_div_denominator(timestamp_milis as int, 1000, 86400);
        }
        utc_day_of(secs as i64)
    }

    /// Checks a caller's triple: the date it names, or `InvalidDate`.
    pub fn from_unchecked(date: UncheckedDate) -> (r: Result<Date, TodoError>)
        ensures
            Date::of(date).is_valid() ==> r == Ok::<Date, TodoError>(Date::of(date)),
            !Date::of(date).is_valid() ==> r == Err::<Date, TodoError>(TodoError::InvalidDate),
    {
        if ymd_exists(date.0, date.1, date.2) {
            Ok(Date { year: date.0, month: date.1, day: date.2 })
        } else {
            Err(TodoError::InvalidDate)
        }
    }

    pub fn to_unchecked(&self) -> (r: UncheckedDate)
        ensures
            r == (self.year, self.month, self.day),
    {
        (self.year, self.month, self.day)
    }

    /// The weekday of a valid date; `InvalidDate` for any other triple.
    pub fn day_of_week(&self) -> (r: Result<DayOfWeek, TodoError>)
        ensures
            self.is_valid() ==> r == Ok::<DayOfWeek, TodoError>(self.weekday()),
            !self.is_valid() ==> r == Err::<DayOfWeek, TodoError>(TodoError::InvalidDate),
    {
        if ymd_exists(self.year, self.month, self.day) {
            Ok(weekday_of_valid(*self))
        } else {
            Err(TodoError::InvalidDate)
        }
    }

    fn days_since_origin(&self) -> (r: i64)
        ensures
            r == self.day_number(),
    {
        let y = self.year as i64;
        let m = self.month;
        let leap = y % 4 == 0 && (y % 100 != 0 || y % 400 == 0);
        let base: i64 = if m <= 1 {
            0
        } else if m == 2 {
            31
        } else if m == 3 {
            59
        } else if m == 4 {
            90
        } else if m == 5 {
            120
        } else if m == 6 {
            151
        } else if m == 7 {
            181
        } else if m == 8 {
            212
        } else if m == 9 {
            243
        } else if m == 10 {
            273
        } else if m == 11 {
            304
        } else {
            334
        };
        let adj: i64 = if m > 2 && leap { 1 } else { 0 };
        365 * y + (y + 3) / 4 - (y + 99) / 100 + (y + 399) / 400 + base + adj + self.day as i64 - 1
    }

    /// How many days `self` lies after `other` (negative when before):
    /// chronological order, exact across month and year ends.
    pub fn compare(&self, other: Date) -> (r: i32)
        ensures
            r == self.day_number() - other.day_number(),
    {
        let a = self.days_since_origin();
        let b = other.days_since_origin();
        (a - b) as i32
    }

    /// The date `days` days later.
    pub fn add_days(&self, days: u64) -> (r: Date)
        requires
            self.is_valid(),
            self.day_number() + days <= MAX_DAY_NUMBER,
        ensures
            r == self.shifted(days as int),
            r.is_valid(),
            r.day_number() == self.day_number() + days,
    {
        let r = days_later(*self, days);
        proof {
            lemma_shifted(*self, days as int, r);
        }
        r
    }

    /// The date `days` days earlier.
    pub fn subtract_days(&self, days: u64) -> (r: Date)
        requires
            self.is_valid(),
            days <= self.day_number(),
        ensures
            r == self.shifted(-(days as int)),
            r.is_valid(),
            r.day_number() == self.day_number() - days,
    {
        let r = days_earlier(*self, days);
        proof {
            lemma_shifted(*self, -(days as int), r);
        }
        r
    }
}

proof fn lemma_shifted(d: Date, n: int, r: Date)
    requires
        r.is_valid(),
        r.day_number() == d.day_number() + n,
    ensures
        d.shifted(n) == r,
{
    let c = d.shifted(n);
    assert(r.is_valid() && r.day_number() == d.day_number() + n);
    lemma_day_number_injective(c, r);
}

/// The day after `d` in the calendar.
pub open spec fn next_day(d: Date) -> Date {
    if (d.day as int) < days_in_month(d.year as int, d.month as int) {
        Date { year: d.year, month: d.month, day: (d.day + 1) as u8 }
    } else if d.month < 12 {
        Date { year: d.year, month: (d.month + 1) as u8, day: 1 }
    } else {
        Date { year: (d.year + 1) as u16, month: 1, day: 1 }
    }
}

proof fn lemma_next_day(d: Date)
    requires
        d.is_valid(),
        d.day_number() < MAX_DAY_NUMBER,
    ensures
        next_day(d).is_valid(),
        next_day(d).day_number() == d.day_number() + 1,
{
    if (d.day as int) >= days_in_month(d.year as int, d.month as int) && d.month >= 12 {
        if d.year == 65535 {
            assert(d.day_number() == MAX_DAY_NUMBER);
        }
        lemma_year_step(d.year as int);
    }
}

/// Every day number from 0000-01-01 to 65535-12-31 is that of a valid date.
pub proof fn lemma_day_number_reached(k: int)
    requires
        0 <= k <= MAX_DAY_NUMBER,
    ensures
        exists|d: Date| d.is_valid() && d.day_number() == k,
    decreases k,
{
    if k == 0 {
        let d = Date { year: 0, month: 1, day: 1 };
        assert(d.is_valid() && d.day_number() == 0);
    } else {
        lemma_day_number_reached(k - 1);
        let d = choose|d: Date| d.is_valid() && d.day_number() == k - 1;
        lemma_next_day(d);
        let e = next_day(d);
        assert(e.is_valid() && e.day_number() == k);
    }
}

/// Going `n` days forward and then `n` days back gives the date one started
/// from, whenever the date `n` days later is one a `Date` can hold.
pub proof fn lemma_add_subtract_round_trip(d: Date, n: nat)
    requires
        d.is_valid(),
        d.day_number() + n <= MAX_DAY_NUMBER,
    ensures
        d.shifted(n as int).shifted(-n) == d,
{
    lemma_day_number_reached(d.day_number() + n);
    let later = d.shifted(n as int);
    lemma_shifted(later, -n, d);
}

proof fn lemma_year_step(y: int)
    requires
        y >= 0,
    ensures
        days_before_year(y + 1) == days_before_year(y) + days_in_year(y),
{
    assert((y + 4) / 4 - (y + 3) / 4 == if y % 4 == 0 { 1int } else { 0 });
    assert((y + 100) / 100 - (y + 99) / 100 == if y % 100 == 0 { 1int } else { 0 });
    assert((y + 400) / 400 - (y + 399) / 400 == if y % 400 == 0 { 1int } else { 0 });
    assert(y % 400 == 0 ==> y % 100 == 0 && y % 4 == 0);
    assert(y % 100 == 0 ==> y % 4 == 0);
}

proof fn lemma_years_monotone(a: int, b: int)
    requires
        0 <= a <= b,
    ensures
        days_before_year(a) <= days_before_year(b),
    decreases b - a,
{
    if a < b {
        lemma_years_monotone(a, b - 1);
        lemma_year_step(b - 1);
    }
}

proof fn lemma_months_ordered(y: int, m1: int, d1: int, m2: int, d2: int)
    requires
        1 <= m1 < m2 <= 12,
        1 <= d1 <= days_in_month(y, m1),
        1 <= d2,
    ensures
        days_before_month(y, m1) + d1 < days_before_month(y, m2) + d2,
{
}

proof fn lemma_within_year(d: Date)
    requires
        d.is_valid(),
    ensures
        days_before_year(d.year as int) <= d.day_number(),
        d.day_number() < days_before_year(d.year as int) + days_in_year(d.year as int),
{
}

/// Valid dates in calendar order have increasing day numbers.
pub proof fn lemma_day_number_order(a: Date, b: Date)
    requires
        a.is_valid(),
        b.is_valid(),
        a.year < b.year || (a.year == b.year && a.month < b.month) || (a.year == b.year && a.month
            == b.month && a.day < b.day),
    ensures
        a.day_number() < b.day_number(),
{
    if a.year < b.year {
        lemma_within_year(a);
        lemma_within_year(b);
        lemma_year_step(a.year as int);
        lemma_years_monotone(a.year + 1, b.year as int);
    } else if a.month < b.month {
        lemma_months_ordered(a.year as int, a.month as int, a.day as int, b.month as int, b.day as int);
    }
}

/// Two valid dates with the same day number are the same date.
pub proof fn lemma_day_number_injective(a: Date, b: Date)
    requires
        a.is_valid(),
        b.is_valid(),
        a.day_number() == b.day_number(),
    ensures
        a == b,
{
    if a.year != b.year || a.month != b.month || a.day != b.day {
        if a.year < b.year || (a.year == b.year && a.month < b.month) || (a.year == b.year
            && a.month == b.month && a.day < b.day) {
            lemma_day_number_order(a, b);
        } else {
            lemma_day_number_order(b, a);
        }
    }
}

} // verus!
