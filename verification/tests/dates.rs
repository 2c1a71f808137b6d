use ascents::date::CalendarDate;
use time::{Date, Month};

fn text_of(year: i32, month: u8, day: u8) -> String {
    CalendarDate::new(year, month, day).unwrap().to_text()
}

fn read(text: &str) -> Option<(i32, u8, u8)> {
    CalendarDate::from_text(text).map(|date| (date.year(), date.month(), date.day()))
}

#[test]
fn dates_are_written_in_ten_characters() {
    assert_eq!(text_of(2023, 1, 1), "2023-01-01");
    assert_eq!(text_of(2022, 12, 31), "2022-12-31");
    assert_eq!(text_of(1999, 10, 9), "1999-10-09");
    assert_eq!(text_of(987, 6, 5), "0987-06-05");
    assert_eq!(text_of(7, 11, 20), "0007-11-20");
    assert_eq!(text_of(0, 1, 1), "0000-01-01");
    assert_eq!(text_of(9999, 12, 31), "9999-12-31");
}

#[test]
fn negative_years_are_written_behind_a_minus() {
    assert_eq!(text_of(-1, 1, 1), "-0001-01-01");
    assert_eq!(text_of(-44, 3, 15), "-0044-03-15");
    assert_eq!(text_of(-9999, 12, 31), "-9999-12-31");
}

#[test]
fn dates_are_read_from_their_text() {
    assert_eq!(read("2023-01-01"), Some((2023, 1, 1)));
    assert_eq!(read("0000-01-01"), Some((0, 1, 1)));
    assert_eq!(read("9999-12-31"), Some((9999, 12, 31)));
    assert_eq!(read("2024-02-29"), Some((2024, 2, 29)));
    assert_eq!(read("2000-02-29"), Some((2000, 2, 29)));
    assert_eq!(read("-0044-03-15"), Some((-44, 3, 15)));
    assert_eq!(read("-9999-01-01"), Some((-9999, 1, 1)));
}

#[test]
fn a_sign_before_the_year_is_read() {
    assert_eq!(read("+2023-01-01"), Some((2023, 1, 1)));
    assert_eq!(read("+0000-01-01"), Some((0, 1, 1)));
    assert_eq!(read("-0000-01-01"), Some((0, 1, 1)));
    assert_eq!(read("-0004-02-29"), Some((-4, 2, 29)));
    assert_eq!(read("--2023-01-01"), None);
    assert_eq!(read("+-2023-01-01"), None);
    assert_eq!(read("+"), None);
    assert_eq!(read("-"), None);
}

#[test]
fn texts_that_write_no_date_are_refused() {
    for text in [
        "", "2023", "2023-01", "2023-1-1", "2023-01-1", "2023-1-01", "23-01-01", "02023-01-01",
        "+02023-01-01", "12345-01-01", "2023-01-01 ", " 2023-01-01", "2023-01-01\n", "2023-01-01x",
        "2023/01/01", "2023-01-01-", "2023-00-10", "2023-13-01", "2023-01-00", "2023-01-32",
        "2023-04-31", "2023-02-29", "1900-02-29", "2100-02-29", "2023-02-30", "abcd-ef-gh",
        "２０２３-01-01", "2023-٠1-01", "2023-01-0１",
    ] {
        assert_eq!(read(text), None, "{text:?}");
    }
}

#[test]
fn only_days_of_the_calendar_are_dates() {
    assert!(CalendarDate::new(2023, 2, 28).is_some());
    assert!(CalendarDate::new(2023, 2, 29).is_none());
    assert!(CalendarDate::new(2024, 2, 29).is_some());
    assert!(CalendarDate::new(1900, 2, 29).is_none());
    assert!(CalendarDate::new(2000, 2, 29).is_some());
    assert!(CalendarDate::new(-4, 2, 29).is_some());
    assert!(CalendarDate::new(-100, 2, 29).is_none());
    assert!(CalendarDate::new(-400, 2, 29).is_some());
    assert!(CalendarDate::new(2023, 0, 1).is_none());
    assert!(CalendarDate::new(2023, 13, 1).is_none());
    assert!(CalendarDate::new(2023, 1, 0).is_none());
    assert!(CalendarDate::new(2023, 4, 31).is_none());
    assert!(CalendarDate::new(2023, 12, 31).is_some());
    assert!(CalendarDate::new(10000, 1, 1).is_none());
    assert!(CalendarDate::new(-10000, 1, 1).is_none());
    assert!(CalendarDate::new(9999, 12, 31).is_some());
    assert!(CalendarDate::new(-9999, 1, 1).is_some());
    assert!(CalendarDate::new(i32::MAX, 1, 1).is_none());
    assert!(CalendarDate::new(i32::MIN, 1, 1).is_none());
}

#[test]
fn the_calendar_is_that_of_the_time_crate() {
    let years = [-9999, -2001, -2000, -401, -400, -101, -100, -5, -4, -1, 0, 1, 4, 100, 400, 1900,
        1999, 2000, 2023, 2024, 2100, 9996, 9999];
    for year in years {
        for month in 0..=13u8 {
            for day in 0..=32u8 {
                let theirs = Month::try_from(month)
                    .ok()
                    .and_then(|month| Date::from_calendar_date(year, month, day).ok());
                let ours = CalendarDate::new(year, month, day);
                assert_eq!(ours.is_some(), theirs.is_some(), "{year} {month} {day}");
            }
        }
    }
    assert!(Date::from_calendar_date(10000, Month::January, 1).is_err());
    assert!(Date::from_calendar_date(-10000, Month::January, 1).is_err());
}

#[test]
fn a_written_date_is_read_back() {
    for year in [-9999, -1000, -44, -1, 0, 1, 9, 10, 99, 100, 999, 1000, 2023, 2024, 9999] {
        for month in 1..=12u8 {
            for day in 1..=31u8 {
                if let Some(date) = CalendarDate::new(year, month, day) {
                    let text = date.to_text();
                    assert_eq!(text.chars().count(), if year < 0 { 11 } else { 10 });
                    assert_eq!(CalendarDate::from_text(&text), Some(date), "{text}");
                }
            }
        }
    }
}
