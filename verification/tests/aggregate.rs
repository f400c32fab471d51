use activity_graph::aggregate::gather_years;
use activity_graph::calendar::CommitDate;
use activity_graph::model::{ProjectMetadata, Year};
use activity_graph::order::sort_positions;

fn source(name: &str) -> ProjectMetadata {
    ProjectMetadata::new(name.to_string(), format!("/repos/{}", name))
}

fn at(text: &str) -> CommitDate {
    CommitDate::parse(text).unwrap()
}

fn real_days(year: &Year) -> usize {
    year.days().iter().filter(|day| !day.is_filler()).count()
}

fn shown(years: &[Year]) -> usize {
    years.iter().map(|y| y.days().iter().map(|d| d.commit_count()).sum::<usize>()).sum()
}

#[test]
fn no_events_give_no_grids() {
    assert!(gather_years(Vec::new()).is_empty());
}

#[test]
fn events_around_new_year_are_shown_in_both_grids() {
    let repo = source("repo1");
    let years = gather_years(vec![
        (at("2023-12-31T23:00:00Z"), repo.clone()),
        (at("2024-01-01T01:00:00Z"), repo.clone()),
    ]);
    assert_eq!(years.len(), 2);
    assert_eq!(years[0].year(), 2023);
    assert_eq!(years[1].year(), 2024);
    // 2023 starts on a Sunday: December 31 is slot 364 + 6 = 370, a Sunday
    // in week 52, while the year's last week is 371 / 7 = 53.
    let dec31 = 6 * 53 + 52;
    assert_eq!(years[0].days()[dec31].commits(), &vec![repo.clone()]);
    assert!(!years[0].days()[dec31].is_filler());
    assert!(years[1].days()[6 * 53].commits().is_empty());
    // 2024 starts on a Monday: January 1 is slot 0, shown again in the last
    // column of 2023.
    assert_eq!(years[1].days()[0].commits(), &vec![repo.clone()]);
    assert_eq!(years[0].days()[52].commits(), &vec![repo.clone()]);
    assert_eq!(shown(&years), 3);
}

#[test]
fn a_grid_has_seven_rows_of_fifty_three_cells() {
    let years = gather_years(vec![(at("2021-06-15T12:00:00Z"), source("a"))]);
    assert_eq!(years.len(), 1);
    assert_eq!(years[0].days().len(), 7 * 53);
}

#[test]
fn a_common_year_has_365_real_days() {
    let years = gather_years(vec![(at("2023-03-01T00:00:00Z"), source("a"))]);
    assert_eq!(real_days(&years[0]), 365);
    let years = gather_years(vec![(at("2021-03-01T00:00:00Z"), source("a"))]);
    assert_eq!(real_days(&years[0]), 365);
}

#[test]
fn a_leap_year_has_366_real_days() {
    let years = gather_years(vec![(at("2024-03-01T00:00:00Z"), source("a"))]);
    assert_eq!(real_days(&years[0]), 366);
    let years = gather_years(vec![(at("2000-03-01T00:00:00Z"), source("a"))]);
    assert_eq!(real_days(&years[0]), 366);
}

#[test]
fn a_leap_year_that_starts_on_sunday_loses_its_last_day() {
    // 2012 starts on a Sunday and has 366 days: slots 6 to 371, one more
    // than the grid has.
    let repo = source("a");
    let years = gather_years(vec![
        (at("2012-12-30T10:00:00Z"), repo.clone()),
        (at("2012-12-31T10:00:00Z"), repo.clone()),
    ]);
    assert_eq!(years.len(), 1);
    assert_eq!(real_days(&years[0]), 365);
    assert_eq!(shown(&years), 1);
    assert_eq!(years[0].days()[6 * 53 + 52].commits(), &vec![repo]);
}

#[test]
fn filler_cells_lie_before_january_first_and_after_december() {
    // 2025 starts on a Wednesday: slots 0 and 1 come before January 1, and
    // the year ends at slot 2 + 365 = 367.
    let years = gather_years(vec![(at("2025-05-05T00:00:00Z"), source("a"))]);
    let days = years[0].days();
    assert!(days[0].is_filler());
    assert!(days[53].is_filler());
    assert!(!days[2 * 53].is_filler());
    // slot 366 is weekday 2 of week 52, the last real day; slot 367 is not.
    assert!(!days[2 * 53 + 52].is_filler());
    assert!(days[3 * 53 + 52].is_filler());
    assert!(days[6 * 53 + 52].is_filler());
    assert!(!days[6 * 53 + 51].is_filler());
}

#[test]
fn an_event_in_the_last_week_is_shown_in_the_next_year_too() {
    // 2024 starts on a Monday and has 366 days: its last week is 366 / 7 =
    // 52, and December 31 is slot 365, a Tuesday in week 52.
    let old = source("old");
    let new = source("new");
    let years = gather_years(vec![
        (at("2025-02-01T00:00:00Z"), new.clone()),
        (at("2024-12-31T08:00:00Z"), old.clone()),
    ]);
    assert_eq!(years.len(), 2);
    assert_eq!(years[0].days()[53 + 52].commits(), &vec![old.clone()]);
    assert_eq!(years[1].days()[53].commits(), &vec![old.clone()]);
    // the duplicate stands in a filler cell of 2025, which starts on a
    // Wednesday
    assert!(years[1].days()[53].is_filler());
    assert_eq!(shown(&years), 3);
}

#[test]
fn without_a_next_year_nothing_is_duplicated() {
    let years = gather_years(vec![(at("2024-12-31T08:00:00Z"), source("a"))]);
    assert_eq!(years.len(), 1);
    assert_eq!(shown(&years), 1);
}

#[test]
fn years_without_events_get_grids_too() {
    let years = gather_years(vec![
        (at("2022-07-01T00:00:00Z"), source("b")),
        (at("2019-07-01T00:00:00Z"), source("a")),
    ]);
    let numbers: Vec<i32> = years.iter().map(|y| y.year()).collect();
    assert_eq!(numbers, vec![2019, 2020, 2021, 2022]);
    assert_eq!(shown(&years[1..3]), 0);
    assert_eq!(real_days(&years[1]), 366);
}

#[test]
fn events_of_one_day_are_listed_by_time_and_then_as_given() {
    let a = source("a");
    let b = source("b");
    let c = source("c");
    let d = source("d");
    let years = gather_years(vec![
        (at("2021-06-15T12:00:00Z"), a.clone()),
        (at("2021-06-15T09:00:00Z"), b.clone()),
        (at("2021-06-15T12:00:00Z"), c.clone()),
        (at("2021-06-15T09:00:00Z"), d.clone()),
    ]);
    // 2021 starts on a Friday; June 15 is day 165 from 0, slot 169: weekday
    // 1 of week 24.
    assert_eq!(years[0].days()[53 + 24].commits(), &vec![b, d, a, c]);
}

#[test]
fn positions_are_sorted_by_time_and_stable() {
    let events = vec![
        (at("2021-06-15T12:00:00Z"), source("a")),
        (at("2020-01-01T00:00:00Z"), source("b")),
        (at("2021-06-15T12:00:00Z"), source("c")),
        (at("2021-06-15T11:59:59Z"), source("d")),
        (at("2020-01-01T00:00:00Z"), source("e")),
    ];
    assert_eq!(sort_positions(&events), vec![1, 4, 3, 0, 2]);
    assert_eq!(sort_positions(&Vec::new()), Vec::<usize>::new());
}
