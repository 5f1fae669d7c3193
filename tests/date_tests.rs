use todo_notes::date::{MAX_TIMESTAMP_MILLIS};
use todo_notes::{Date, DayOfWeek, TodoError};

fn date(y: u16, m: u8, d: u8) -> Date {
    Date::from_unchecked((y, m, d)).expect("valid date")
}

#[test]
fn from_unchecked_accepts_real_days() {
    assert_eq!(Date::from_unchecked((2024, 2, 29)), Ok(Date { year: 2024, month: 2, day: 29 }));
    assert_eq!(Date::from_unchecked((2000, 2, 29)), Ok(Date { year: 2000, month: 2, day: 29 }));
    assert_eq!(Date::from_unchecked((0, 2, 29)), Ok(Date { year: 0, month: 2, day: 29 }));
    assert_eq!(Date::from_unchecked((65535, 12, 31)), Ok(Date { year: 65535, month: 12, day: 31 }));
}

#[test]
fn from_unchecked_rejects_invalid_days() {
    assert_eq!(Date::from_unchecked((2023, 2, 29)), Err(TodoError::InvalidDate));
    assert_eq!(Date::from_unchecked((1900, 2, 29)), Err(TodoError::InvalidDate));
    assert_eq!(Date::from_unchecked((2024, 2, 30)), Err(TodoError::InvalidDate));
    assert_eq!(Date::from_unchecked((2024, 13, 1)), Err(TodoError::InvalidDate));
    assert_eq!(Date::from_unchecked((2024, 0, 1)), Err(TodoError::InvalidDate));
    assert_eq!(Date::from_unchecked((2024, 4, 31)), Err(TodoError::InvalidDate));
    assert_eq!(Date::from_unchecked((2024, 1, 0)), Err(TodoError::InvalidDate));
}

#[test]
fn weekdays_follow_the_gregorian_calendar() {
    assert_eq!(date(2024, 6, 10).day_of_week(), Ok(DayOfWeek::Mon));
    assert_eq!(date(1970, 1, 1).day_of_week(), Ok(DayOfWeek::Thu));
    assert_eq!(date(2000, 2, 29).day_of_week(), Ok(DayOfWeek::Tue));
    assert_eq!(date(0, 1, 1).day_of_week(), Ok(DayOfWeek::Sat));
    assert_eq!(date(2024, 6, 9).day_of_week(), Ok(DayOfWeek::Sun));
    let bad = Date { year: 2023, month: 2, day: 29 };
    assert_eq!(bad.day_of_week(), Err(TodoError::InvalidDate));
}

#[test]
fn compare_is_exact_across_month_and_year_ends() {
    assert_eq!(date(2024, 1, 31).compare(date(2024, 2, 1)), -1);
    assert_eq!(date(2024, 3, 1).compare(date(2024, 2, 28)), 2);
    assert_eq!(date(2023, 3, 1).compare(date(2023, 2, 28)), 1);
    assert_eq!(date(2024, 1, 1).compare(date(2023, 12, 31)), 1);
    assert_eq!(date(2024, 6, 10).compare(date(2024, 6, 10)), 0);
    assert_eq!(date(2025, 1, 1).compare(date(2024, 1, 1)), 366);
    // 30 April against 1 May: an approximate day count would call these equal.
    assert_eq!(date(2024, 4, 30).compare(date(2024, 5, 1)), -1);
}

#[test]
fn add_and_subtract_days_cross_boundaries() {
    assert_eq!(date(2023, 12, 31).add_days(1), date(2024, 1, 1));
    assert_eq!(date(2024, 2, 28).add_days(1), date(2024, 2, 29));
    assert_eq!(date(2023, 2, 28).add_days(1), date(2023, 3, 1));
    assert_eq!(date(2024, 1, 1).subtract_days(1), date(2023, 12, 31));
    assert_eq!(date(2024, 3, 1).subtract_days(1), date(2024, 2, 29));
    assert_eq!(date(2024, 6, 10).add_days(7), date(2024, 6, 17));
    assert_eq!(date(65535, 12, 30).add_days(1), date(65535, 12, 31));
    assert_eq!(date(0, 1, 2).subtract_days(1), date(0, 1, 1));
    assert_eq!(date(2024, 6, 10).add_days(0), date(2024, 6, 10));
}

#[test]
fn add_then_subtract_returns_the_start() {
    let starts = [date(2024, 6, 10), date(2023, 12, 31), date(2000, 2, 29), date(0, 1, 1)];
    for d in starts.iter() {
        for n in [0u64, 1, 28, 365, 366, 1000, 146097] {
            assert_eq!(d.add_days(n).subtract_days(n), *d);
        }
    }
}

#[test]
fn timestamps_map_to_utc_days() {
    assert_eq!(Date::from_timestamp(0), date(1970, 1, 1));
    assert_eq!(Date::from_timestamp(1717977600000), date(2024, 6, 10));
    assert_eq!(Date::from_timestamp(1717977599999), date(2024, 6, 9));
    assert_eq!(Date::from_timestamp(86400000 - 1), date(1970, 1, 1));
    assert_eq!(Date::from_timestamp(MAX_TIMESTAMP_MILLIS), date(65535, 12, 31));
}

#[test]
fn to_unchecked_gives_the_triple() {
    assert_eq!(date(2024, 6, 10).to_unchecked(), (2024, 6, 10));
}
