use activity_graph::calendar::{year_layout, CommitDate};

#[test]
fn layout_of_a_common_year_that_starts_on_sunday() {
    let layout = year_layout(2023).unwrap();
    assert_eq!(layout.weekday_offset, 6);
    assert_eq!(layout.last_day, 371);
    assert_eq!(layout.last_week, 53);
}

#[test]
fn layout_of_a_leap_year_that_starts_on_monday() {
    let layout = year_layout(2024).unwrap();
    assert_eq!(layout.weekday_offset, 0);
    assert_eq!(layout.last_day, 366);
    assert_eq!(layout.last_week, 52);
}

#[test]
fn layout_follows_the_gregorian_leap_years() {
    assert_eq!(year_layout(1900).unwrap().last_day - year_layout(1900).unwrap().weekday_offset, 365);
    assert_eq!(year_layout(2000).unwrap().last_day - year_layout(2000).unwrap().weekday_offset, 366);
    assert_eq!(year_layout(2100).unwrap().last_day - year_layout(2100).unwrap().weekday_offset, 365);
    assert_eq!(year_layout(-4).unwrap().last_day - year_layout(-4).unwrap().weekday_offset, 366);
    // 1970 starts on a Thursday
    assert_eq!(year_layout(1970).unwrap().weekday_offset, 3);
}

#[test]
fn every_year_has_the_days_of_the_leap_year_rule() {
    for year in -2000..3000 {
        let layout = year_layout(year).unwrap();
        let leap = year % 4 == 0 && (year % 100 != 0 || year % 400 == 0);
        assert_eq!(layout.last_day - layout.weekday_offset, if leap { 366 } else { 365 });
        assert!(layout.weekday_offset < 7);
        assert_eq!(layout.last_week, layout.last_day / 7);
    }
}

#[test]
fn years_outside_the_calendar_have_no_layout() {
    assert!(year_layout(262142).is_some());
    assert!(year_layout(262143).is_none());
    assert!(year_layout(-262143).is_some());
    assert!(year_layout(-262144).is_none());
    assert!(year_layout(i32::MAX).is_none());
    assert!(year_layout(i32::MIN).is_none());
}

#[test]
fn a_date_is_read_with_its_numbers() {
    let date = CommitDate::parse("2024-03-01 12:30:45 +0000").unwrap();
    assert_eq!(date.get_year(), 2024);
    assert_eq!(date.get_ordinal0(), 60);
    assert_eq!(date.get_second(), 12 * 3600 + 30 * 60 + 45);
    assert_eq!(date.get_nanosecond(), 0);
}

#[test]
fn a_date_is_converted_to_utc() {
    let date = CommitDate::parse("2024-01-01 00:30:00 +0100").unwrap();
    assert_eq!(date.get_year(), 2023);
    assert_eq!(date.get_ordinal0(), 364);
    assert_eq!(date.get_second(), 23 * 3600 + 30 * 60);
    assert_eq!(Some(date), CommitDate::parse("2023-12-31T23:30:00Z"));
}

#[test]
fn what_is_no_date_is_refused() {
    assert!(CommitDate::parse("").is_none());
    assert!(CommitDate::parse("yesterday").is_none());
    assert!(CommitDate::parse("2024-02-30 00:00:00 +0000").is_none());
    assert!(CommitDate::parse("2024-03-01 12:30:45").is_none());
}

#[test]
fn a_date_is_made_from_numbers_that_exist() {
    let date = CommitDate::new(2024, 365, 86399, 999_999_999).unwrap();
    assert_eq!(Some(date), CommitDate::parse("2024-12-31T23:59:59.999999999Z"));
    assert!(CommitDate::new(2023, 365, 0, 0).is_none());
    assert!(CommitDate::new(2023, 364, 0, 0).is_some());
    assert!(CommitDate::new(2023, 0, 86400, 0).is_none());
    assert!(CommitDate::new(2023, 0, 0, 2_000_000_000).is_none());
    assert!(CommitDate::new(2023, 0, 0, 1_999_999_999).is_some());
    assert!(CommitDate::new(262143, 0, 0, 0).is_none());
}

#[test]
fn dates_are_ordered_by_year_day_second_and_nanosecond() {
    let early = CommitDate::new(2023, 364, 86399, 5).unwrap();
    let late = CommitDate::new(2024, 0, 0, 0).unwrap();
    assert!(early.is_before(&late));
    assert!(!late.is_before(&early));
    assert!(!early.is_before(&early));
    let a = CommitDate::new(2024, 10, 100, 7).unwrap();
    let b = CommitDate::new(2024, 10, 100, 8).unwrap();
    let c = CommitDate::new(2024, 10, 101, 0).unwrap();
    let d = CommitDate::new(2024, 11, 0, 0).unwrap();
    assert!(a.is_before(&b) && b.is_before(&c) && c.is_before(&d));
    assert!(!d.is_before(&a));
}
