//! Calendar facts about whole years, and the dates that events carry.
//!
//! What a year looks like (the weekday it starts on, how many days it has)
//! and what a line of text means as a date is decided by `chrono`. The
//! functions here that call it are marked as trusted; everything built on top
//! of them is proved.

use vstd::prelude::*;

verus! {

/// Number of week columns in a year grid.
pub const WEEKS: usize = 53;

/// Number of cells in a year grid: seven weekdays in each week column.
pub const GRID_CELLS: usize = 371;

/// The earliest year that `chrono` represents.
pub const MIN_YEAR: i32 = -262143;

/// The latest year that `chrono` represents.
pub const MAX_YEAR: i32 = 262142;

/// Number of seconds in a day.
pub const SECONDS_PER_DAY: u32 = 86400;

/// Exclusive bound of a nanosecond field; values from one billion upwards
/// denote a leap second.
pub const NANOSECOND_BOUND: u32 = 2000000000;

/// Whether `year` lies in the range of years that `chrono` represents.
pub open spec fn year_in_range(year: int) -> bool {
    MIN_YEAR <= year <= MAX_YEAR
}

/// The leap-year rule of the proleptic Gregorian calendar.
pub open spec fn is_leap_year(year: int) -> bool {
    year % 4 == 0 && (year % 100 != 0 || year % 400 == 0)
}

/// Number of days in `year`.
pub open spec fn days_in_year(year: int) -> int {
    if is_leap_year(year) {
        366
    } else {
        365
    }
}

/// The weekday on which `chrono` places January 1 of `year`, counted from
/// Monday as 0.
pub uninterp spec fn first_weekday(year: int) -> int;

/// What `chrono` reads out of a line of text as a date and time in UTC:
/// the year, the day of the year counted from 0, the second of the day and
/// the nanosecond, or `None` where it rejects the line.
pub uninterp spec fn parsed_date(line: Seq<char>) -> Option<(int, int, int, int)>;

/// The offset-adjusted number of day slots that `year` takes up in its grid:
/// the slots before January 1 and the days of the year itself.
pub open spec fn last_day(year: int) -> int {
    first_weekday(year) + days_in_year(year)
}

/// `last_day` rounded down to whole weeks.
pub open spec fn last_week(year: int) -> int {
    last_day(year) / 7
}

/// Calls `chrono::NaiveDate::from_ymd_opt(year, 1, 1)` and takes the date's
/// `weekday().num_days_from_monday()`.
///
/// Trusted: for a year in chrono's range the date exists, its weekday
/// depends on the year alone and is numbered 0 (Monday) to 6 (Sunday); for
/// any other year chrono returns no date.
#[verifier::external_body]
fn new_year_weekday(year: i32) -> (r: Option<u32>)
    ensures
        r.is_some() <==> year_in_range(year as int),
        r matches Some(weekday) ==> weekday == first_weekday(year as int) && weekday < 7,
{
    match chrono::NaiveDate::from_ymd_opt(year, 1, 1) {
        Some(date) => Some(chrono::Datelike::weekday(&date).num_days_from_monday()),
        None => None,
    }
}

/// Calls `chrono::NaiveDate::from_ymd_opt(year, 12, 31)` and takes the
/// date's `ordinal()`.
///
/// Trusted: for a year in chrono's range the date exists and its ordinal is
/// the number of days of the year under the Gregorian leap-year rule; for any
/// other year chrono returns no date.
#[verifier::external_body]
fn last_ordinal(year: i32) -> (r: Option<u32>)
    ensures
        r.is_some() <==> year_in_range(year as int),
        r matches Some(days) ==> days == days_in_year(year as int),
{
    match chrono::NaiveDate::from_ymd_opt(year, 12, 31) {
        Some(date) => Some(chrono::Datelike::ordinal(&date)),
        None => None,
    }
}

/// How a year sits in its grid.
#[derive(Clone, Copy, Debug)]
pub struct YearLayout {
    /// Weekday of January 1, counted from Monday as 0.
    pub weekday_offset: u32,
    /// First slot after the year's final day.
    pub last_day: u32,
    /// Week column of `last_day`.
    pub last_week: u32,
}

/// The layout of `year`, or `None` when the year lies outside the
/// calendar's range.
pub fn year_layout(year: i32) -> (r: Option<YearLayout>)
    ensures
        r.is_some() <==> year_in_range(year as int),
        r matches Some(l) ==> {
            &&& l.weekday_offset == first_weekday(year as int)
            &&& l.weekday_offset < 7
            &&& l.last_day == last_day(year as int)
            &&& l.last_week == last_week(year as int)
        },
{
    match (new_year_weekday(year), last_ordinal(year)) {
        (Some(weekday_offset), Some(days)) => {
            let last_day: u32 = weekday_offset + days;
            Some(YearLayout { weekday_offset, last_day, last_week: last_day / 7 })
        },
        _ => None,
    }
}

/// The date and time of an event, in UTC.
///
/// A value always denotes a day that exists: the year is one that the
/// calendar represents and the day lies within it.
#[derive(Clone, Copy, Debug, PartialEq, Eq)]
pub struct CommitDate {
    year: i32,
    ordinal0: u32,
    second: u32,
    nanosecond: u32,
}

/// Whether the four numbers describe a date and time that exists.
pub open spec fn valid_date(year: int, ordinal0: int, second: int, nanosecond: int) -> bool {
    &&& year_in_range(year)
    &&& 0 <= ordinal0 < days_in_year(year)
    &&& 0 <= second < SECONDS_PER_DAY
    &&& 0 <= nanosecond < NANOSECOND_BOUND
}

/// Calls `str::parse::<chrono::DateTime<chrono::Utc>>` and reads the year,
/// `ordinal0()`, `num_seconds_from_midnight()` and `nanosecond()` of what
/// came back.
///
/// Trusted: whether chrono accepts the line, and the four numbers it reads
/// out of it, depend on the line alone; the numbers describe a date that
/// exists in chrono's calendar.
#[verifier::external_body]
fn parse_utc(line: &str) -> (r: Option<CommitDate>)
    ensures
        r.is_some() <==> parsed_date(line@).is_some(),
        r matches Some(d) ==> parsed_date(line@) == Some(d@) && valid_date(d@.0, d@.1, d@.2, d@.3),
{
    match line.parse::<chrono::DateTime<chrono::Utc>>() {
        Ok(t) => Some(
            CommitDate {
                year: chrono::Datelike::year(&t),
                ordinal0: chrono::Datelike::ordinal0(&t),
                second: chrono::Timelike::num_seconds_from_midnight(&t),
                nanosecond: chrono::Timelike::nanosecond(&t),
            },
        ),
        Err(_) => None,
    }
}

impl View for CommitDate {
    type V = (int, int, int, int);

    /// The year, the day of the year from 0, the second of the day and the
    /// nanosecond.
    open spec fn view(&self) -> (int, int, int, int) {
        (self.year(), self.ordinal0(), self.second(), self.nanosecond())
    }
}

impl CommitDate {
    #[verifier::type_invariant]
    spec fn well_formed(self) -> bool {
        valid_date(
            self.year as int,
            self.ordinal0 as int,
            self.second as int,
            self.nanosecond as int,
        )
    }

    /// The calendar year.
    pub closed spec fn year(self) -> int {
        self.year as int
    }

    /// The day of the year, counted from 0.
    pub closed spec fn ordinal0(self) -> int {
        self.ordinal0 as int
    }

    /// The second of the day.
    pub closed spec fn second(self) -> int {
        self.second as int
    }

    /// The nanosecond within the second.
    pub closed spec fn nanosecond(self) -> int {
        self.nanosecond as int
    }

    /// The date that the four numbers describe.
    pub closed spec fn from_view(numbers: (int, int, int, int)) -> CommitDate {
        CommitDate {
            year: numbers.0 as i32,
            ordinal0: numbers.1 as u32,
            second: numbers.2 as u32,
            nanosecond: numbers.3 as u32,
        }
    }

    /// A date is what its four numbers describe.
    pub proof fn lemma_from_view(self)
        ensures
            CommitDate::from_view(self@) == self,
    {
    }

    /// Whether `self` is strictly earlier than `other`.
    pub open spec fn precedes(self, other: CommitDate) -> bool {
        let (y1, o1, s1, n1) = self@;
        let (y2, o2, s2, n2) = other@;
        y1 < y2 || (y1 == y2 && (o1 < o2 || (o1 == o2 && (s1 < s2 || (s1 == s2 && n1 < n2)))))
    }

    /// The slot of the date in the flattened grid of its year: the day of the
    /// year moved by the weekday on which the year starts.
    pub open spec fn slot(self) -> int {
        self.ordinal0() + first_weekday(self.year())
    }

    /// The weekday row of the date, Monday being 0.
    pub open spec fn weekday_index(self) -> int {
        self.slot() % 7
    }

    /// The week column of the date within its year.
    pub open spec fn week_index(self) -> int {
        self.slot() / 7
    }

    /// Makes a date from its four numbers; `None` unless they describe a date
    /// and time that exists.
    pub fn new(year: i32, ordinal0: u32, second: u32, nanosecond: u32) -> (r: Option<CommitDate>)
        ensures
            r.is_some() <==> valid_date(
                year as int,
                ordinal0 as int,
                second as int,
                nanosecond as int,
            ),
            r matches Some(d) ==> d@ == (
                year as int,
                ordinal0 as int,
                second as int,
                nanosecond as int,
            ),
    {
        match last_ordinal(year) {
            Some(days) => {
                if ordinal0 < days && second < SECONDS_PER_DAY && nanosecond < NANOSECOND_BOUND {
                    Some(CommitDate { year, ordinal0, second, nanosecond })
                } else {
                    None
                }
            },
            None => None,
        }
    }

    /// Reads a date and time with its offset, such as
    /// `2012-12-12 12:12:12 +0000`, and converts it to UTC.
    pub fn parse(line: &str) -> (r: Option<CommitDate>)
        ensures
            r.is_some() <==> parsed_date(line@).is_some(),
            r matches Some(d) ==> parsed_date(line@) == Some(d@),
    {
        parse_utc(line)
    }

    /// The calendar year.
    pub fn get_year(&self) -> (r: i32)
        ensures
            r == self.year(),
            year_in_range(r as int),
    {
        proof {
            use_type_invariant(self);
        }
        self.year
    }

    /// The day of the year, counted from 0.
    pub fn get_ordinal0(&self) -> (r: u32)
        ensures
            r == self.ordinal0(),
            r < days_in_year(self.year()),
    {
        proof {
            use_type_invariant(self);
        }
        self.ordinal0
    }

    /// The second of the day.
    pub fn get_second(&self) -> (r: u32)
        ensures
            r == self.second(),
    {
        self.second
    }

    /// The nanosecond within the second.
    pub fn get_nanosecond(&self) -> (r: u32)
        ensures
            r == self.nanosecond(),
    {
        self.nanosecond
    }

    /// Whether `self` is strictly earlier than `other`.
    pub fn is_before(&self, other: &CommitDate) -> (r: bool)
        ensures
            r == self.precedes(*other),
    {
        if self.year != other.year {
            self.year < other.year
        } else if self.ordinal0 != other.ordinal0 {
            self.ordinal0 < other.ordinal0
        } else if self.second != other.second {
            self.second < other.second
        } else {
            self.nanosecond < other.nanosecond
        }
    }
}

} // verus!
