use portfolio_pulse::dates::CalendarDate;

#[test]
fn only_days_that_exist_are_dates() {
    assert!(CalendarDate::new(2024, 2, 29).is_some());
    assert!(CalendarDate::new(2023, 2, 29).is_none());
    assert!(CalendarDate::new(1900, 2, 29).is_none());
    assert!(CalendarDate::new(2000, 2, 29).is_some());
    assert!(CalendarDate::new(2024, 4, 31).is_none());
    assert!(CalendarDate::new(2024, 4, 30).is_some());
    assert!(CalendarDate::new(2024, 12, 31).is_some());
    assert!(CalendarDate::new(2024, 13, 1).is_none());
    assert!(CalendarDate::new(2024, 0, 1).is_none());
    assert!(CalendarDate::new(2024, 1, 0).is_none());
    assert!(CalendarDate::new(2024, 1, 32).is_none());
    assert!(CalendarDate::new(-4, 2, 29).is_some());
    assert!(CalendarDate::new(-1, 2, 29).is_none());
    assert!(CalendarDate::new(0, 2, 29).is_some());
    assert!(CalendarDate::new(262142, 12, 31).is_some());
    assert!(CalendarDate::new(262143, 1, 1).is_none());
    assert!(CalendarDate::new(-262143, 1, 1).is_some());
    assert!(CalendarDate::new(-262144, 12, 31).is_none());
}

#[test]
fn a_date_exists_exactly_where_chrono_has_it() {
    for year in [-262144, -262143, -401, -400, -101, -100, -5, -4, -1, 0, 1, 4, 100, 400, 1900,
        2000, 2023, 2024, 2100, 9999, 10000, 262142, 262143]
    {
        for month in 0..=13u32 {
            for day in 0..=32u32 {
                let ours = CalendarDate::new(year, month, day);
                let theirs = chrono::NaiveDate::from_ymd_opt(year, month, day);
                assert_eq!(ours.is_some(), theirs.is_some(), "{}-{}-{}", year, month, day);
            }
        }
    }
}

#[test]
fn a_date_has_year_month_and_day() {
    let date = CalendarDate::new(2024, 1, 15).unwrap();
    assert_eq!(date.year(), 2024);
    assert_eq!(date.month(), 1);
    assert_eq!(date.day(), 15);
    date.check();
    assert_eq!(date, CalendarDate::new(2024, 1, 15).unwrap());
    assert_ne!(date, CalendarDate::new(2024, 1, 16).unwrap());
}

#[test]
fn dates_are_ordered_by_year_then_month_then_day() {
    let d = |y, m, d| CalendarDate::new(y, m, d).unwrap();
    assert!(d(2023, 12, 31).is_before(&d(2024, 1, 1)));
    assert!(d(2024, 1, 31).is_before(&d(2024, 2, 1)));
    assert!(d(2024, 2, 1).is_before(&d(2024, 2, 2)));
    assert!(!d(2024, 2, 2).is_before(&d(2024, 2, 2)));
    assert!(!d(2024, 2, 2).is_before(&d(2024, 2, 1)));
    assert!(!d(2024, 1, 1).is_before(&d(2023, 12, 31)));
    assert!(d(-1, 12, 31).is_before(&d(0, 1, 1)));
}

#[test]
fn a_date_is_written_as_its_midnight_in_utc() {
    let d = |y, m, d| CalendarDate::new(y, m, d).unwrap();
    assert_eq!(d(2024, 1, 15).to_rfc3339(), "2024-01-15T00:00:00+00:00");
    assert_eq!(d(1999, 12, 31).to_rfc3339(), "1999-12-31T00:00:00+00:00");
    assert_eq!(d(0, 1, 1).to_rfc3339(), "0000-01-01T00:00:00+00:00");
    assert_eq!(d(987, 6, 5).to_rfc3339(), "0987-06-05T00:00:00+00:00");
    assert_eq!(d(9999, 12, 31).to_rfc3339(), "9999-12-31T00:00:00+00:00");
    assert_eq!(d(10000, 1, 1).to_rfc3339(), "+10000-01-01T00:00:00+00:00");
    assert_eq!(d(-1, 1, 1).to_rfc3339(), "-0001-01-01T00:00:00+00:00");
}

#[test]
fn dates_are_read_under_a_format() {
    let d = |y, m, d| CalendarDate::new(y, m, d);
    assert_eq!(CalendarDate::parse_from_str("2024-01-15", "%Y-%m-%d"), d(2024, 1, 15));
    assert_eq!(CalendarDate::parse_from_str("2024-1-5", "%Y-%m-%d"), d(2024, 1, 5));
    assert_eq!(CalendarDate::parse_from_str("15/01/2024", "%d/%m/%Y"), d(2024, 1, 15));
    assert_eq!(CalendarDate::parse_from_str("2024-02-30", "%Y-%m-%d"), None);
    assert_eq!(CalendarDate::parse_from_str("2024-01-15x", "%Y-%m-%d"), None);
    assert_eq!(CalendarDate::parse_from_str("", "%Y-%m-%d"), None);
    assert_eq!(CalendarDate::parse_from_str("2024-01-15", "%Q"), None);
    assert_eq!(CalendarDate::parse_from_str("2024-01-15", ""), None);
}

#[test]
fn the_utc_date_of_a_moment_is_read() {
    let d = |y, m, d| CalendarDate::new(y, m, d);
    assert_eq!(CalendarDate::parse_from_rfc3339("2024-01-15T00:00:00Z"), d(2024, 1, 15));
    assert_eq!(CalendarDate::parse_from_rfc3339("2024-01-15T23:30:00-02:00"), d(2024, 1, 16));
    assert_eq!(CalendarDate::parse_from_rfc3339("2024-01-15T00:30:00+02:00"), d(2024, 1, 14));
    assert_eq!(CalendarDate::parse_from_rfc3339("2024-01-15"), None);
    assert_eq!(CalendarDate::parse_from_rfc3339("2024-1-15T00:00:00Z"), None);
    assert_eq!(CalendarDate::parse_from_rfc3339("2024-02-30T00:00:00Z"), None);
    assert_eq!(CalendarDate::parse_from_rfc3339(""), None);
}

#[test]
fn a_moment_of_utc_is_written_to_the_second_with_a_zero_offset() {
    for year in [0, 1, 99, 100, 999, 1000, 1970, 2024, 9999] {
        for (month, day) in [(1u32, 1u32), (2, 28), (6, 15), (10, 9), (12, 31)] {
            for (hour, minute, second) in [(0u32, 0u32, 0u32), (9, 5, 7), (12, 30, 0), (23, 59, 59)] {
                let written = chrono::NaiveDate::from_ymd_opt(year, month, day)
                    .unwrap()
                    .and_hms_opt(hour, minute, second)
                    .unwrap()
                    .and_utc()
                    .to_rfc3339();
                let expected = format!(
                    "{:04}-{:02}-{:02}T{:02}:{:02}:{:02}+00:00",
                    year, month, day, hour, minute, second
                );
                assert_eq!(written, expected);
            }
        }
    }
}

#[test]
fn every_day_of_some_years_is_written_as_chrono_writes_it() {
    for year in [-1, 0, 1900, 2000, 2023, 2024, 9999, 10000] {
        for month in 1..=12u32 {
            for day in 1..=31u32 {
                if let Some(date) = CalendarDate::new(year, month, day) {
                    let theirs = chrono::NaiveDate::from_ymd_opt(year, month, day)
                        .unwrap()
                        .and_hms_opt(0, 0, 0)
                        .unwrap()
                        .and_utc()
                        .to_rfc3339();
                    assert_eq!(date.to_rfc3339(), theirs);
                }
            }
        }
    }
}

#[test]
fn a_day_of_publication_is_a_date_of_ten_characters() {
    let moment = |day: &str| CalendarDate::parse_from_rfc3339(&format!("{}T00:00:00Z", day));
    assert_eq!(moment("2024-01-15"), CalendarDate::new(2024, 1, 15));
    assert_eq!(moment("0001-01-01"), CalendarDate::new(1, 1, 1));
    assert_eq!(moment("2024-1-15"), None);
    assert_eq!(moment("24-01-15"), None);
    assert_eq!(moment("2024-01-15 "), None);
    assert_eq!(moment(" 2024-01-15"), None);
    assert_eq!(moment("2024-01-15T10:00:00+08:00"), None);
    assert_eq!(moment("2024/01/15"), None);
    assert_eq!(moment("２０２４-01-15"), None);
    assert_eq!(moment(""), None);
}
