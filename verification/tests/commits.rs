use activity_graph::aggregate::gather_years;
use activity_graph::calendar::CommitDate;
use activity_graph::commits::{find_dates, git_log_args, lines};
use activity_graph::generate_years;
use activity_graph::model::ProjectMetadata;

fn source(name: &str) -> ProjectMetadata {
    ProjectMetadata::new(name.to_string(), format!("/repos/{}", name))
}

#[test]
fn the_log_is_asked_for_all_commits_with_their_dates() {
    assert_eq!(git_log_args(None), vec!["log", "--all", "--format=format:%ai", "--date=iso8601"]);
}

#[test]
fn the_log_is_restricted_to_an_author() {
    assert_eq!(
        git_log_args(Some(&"A. U. Thor".to_string())),
        vec!["log", "--all", "--format=format:%ai", "--date=iso8601", "--author=A. U. Thor"]
    );
}

#[test]
fn lines_are_split_as_the_standard_library_splits_them() {
    for text in [
        "",
        "\n",
        "a",
        "a\n",
        "a\nb",
        "a\r\nb\r\n",
        "a\rb\n",
        "a\r",
        "\r\n",
        "\r",
        "a\n\nb\n\n",
        "a\r\r\nb",
        "gr\u{fc}n\n\u{2593}\r\n",
    ] {
        let expected: Vec<String> = text.lines().map(|line| line.to_string()).collect();
        assert_eq!(lines(text), expected, "for {:?}", text);
    }
}

#[test]
fn dates_are_read_line_by_line() {
    let a = source("a");
    let b = source("b");
    let logs = vec![
        (a.clone(), "2021-03-01 10:00:00 +0200\nnot a date\n\n2020-12-31 23:59:59 -0100".to_string()),
        (b.clone(), String::new()),
        (b.clone(), "2021-03-01 08:00:00 +0000\r\n".to_string()),
    ];
    let found = find_dates(&logs);
    assert_eq!(
        found,
        vec![
            (CommitDate::parse("2021-03-01T08:00:00Z").unwrap(), a.clone()),
            (CommitDate::parse("2021-01-01T00:59:59Z").unwrap(), a.clone()),
            (CommitDate::parse("2021-03-01T08:00:00Z").unwrap(), b.clone()),
        ]
    );
    assert!(find_dates(&Vec::new()).is_empty());
}

#[test]
fn years_are_generated_from_logs() {
    let a = source("a");
    let logs = vec![(a.clone(), "2021-03-01 10:00:00 +0200\n2020-03-01 10:00:00 +0200\n".to_string())];
    let years = generate_years(&logs);
    let expected = gather_years(find_dates(&logs));
    assert_eq!(years.len(), 2);
    assert_eq!(expected.len(), 2);
    for (year, other) in years.iter().zip(expected.iter()) {
        assert_eq!(year.year(), other.year());
        for (day, other_day) in year.days().iter().zip(other.days().iter()) {
            assert_eq!(day.is_filler(), other_day.is_filler());
            assert_eq!(day.commits(), other_day.commits());
        }
    }
    assert_eq!(years[0].year(), 2020);
    // 2021 starts on a Friday; March 1 is day 59 from 0, slot 63: weekday 0
    // of week 9.
    assert_eq!(years[1].days()[9].commits(), &vec![a]);
    assert!(generate_years(&Vec::new()).is_empty());
}
