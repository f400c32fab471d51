//! The calendar aggregation: events are bucketed into one grid per year.
//!
//! Each year is laid out as 53 week columns of 7 weekdays. January 1 sits in
//! week 0 on its own weekday, so a year's first and last columns are shared
//! with the neighbouring years; events that fall into such a column are shown
//! in both grids.

use crate::calendar::{
    days_in_year, first_weekday, last_day, last_week, year_in_range, year_layout, CommitDate, YearLayout,
    GRID_CELLS, WEEKS,
};
use crate::model::{GridCell, ProjectMetadata, Year, YearGrid};
use crate::order::{
    comes_before, lemma_order_covers, lemma_sort_order_exists, positions, sort_order, sort_positions, sorted,
    Event,
};
use vstd::prelude::*;
use vstd::relations::injective_on;
use vstd::set_lib::{lemma_int_range, lemma_map_size, set_int_range};

verus! {

/// Where the cell of weekday `weekday` in week `week` stands in a grid.
pub open spec fn cell_index(weekday: int, week: int) -> int {
    weekday * WEEKS as int + week
}

/// Whether an event dated `date` is shown in cell `cell` of the grid of
/// `year`.
///
/// An event whose week lies beyond the last column is shown nowhere. Every
/// other event is shown on its own day; one in the final week of its year is
/// shown again in the first column of the next year, and one in the first
/// week is shown again in the last column of the year before.
pub open spec fn lands_in(date: CommitDate, year: int, cell: int) -> bool {
    let weekday = date.weekday_index();
    let week = date.week_index();
    week < WEEKS && {
        ||| year == date.year() && cell == cell_index(weekday, week)
        ||| year == date.year() + 1 && week == last_week(date.year()) && cell == cell_index(
            weekday,
            0,
        )
        ||| year == date.year() - 1 && week == 0 && cell == cell_index(weekday, WEEKS - 1)
    }
}

/// The sources of those of `events` that are shown in cell `cell` of the grid
/// of `year`, in the order of `events`.
pub open spec fn cell_events(events: Seq<Event>, year: int, cell: int) -> Seq<ProjectMetadata> {
    events.filter(|e: Event| lands_in(e.0, year, cell)).map_values(|e: Event| e.1)
}

/// The slot in the flattened year that cell `cell` stands for.
pub open spec fn slot_of_cell(cell: int) -> int {
    (cell % WEEKS as int) * 7 + cell / WEEKS as int
}

/// Whether cell `cell` of the grid of `year` lies before January 1 or after
/// the year's final day.
pub open spec fn is_filler(year: int, cell: int) -> bool {
    slot_of_cell(cell) < first_weekday(year) || slot_of_cell(cell) >= last_day(year)
}

/// The grid of `year` for events that are given in the order of consumption.
pub open spec fn year_grid(events: Seq<Event>, year: int) -> YearGrid {
    YearGrid {
        year,
        cells: Seq::new(
            GRID_CELLS as nat,
            |c: int| GridCell { filler: is_filler(year, c), events: cell_events(events, year, c) },
        ),
    }
}

/// The grids that a collection of events yields: none for no events, else
/// one for each year from that of the earliest event to that of the latest.
pub open spec fn aggregate(events: Seq<Event>) -> Seq<YearGrid> {
    if events.len() == 0 {
        Seq::empty()
    } else {
        let consumed = sorted(events);
        let first_year = consumed.first().0.year();
        let last_year = consumed.last().0.year();
        Seq::new((last_year - first_year + 1) as nat, |k: int| year_grid(consumed, first_year + k))
    }
}

/// The mathematical content of a list of grids.
pub open spec fn grids(years: Seq<Year>) -> Seq<YearGrid> {
    years.map_values(|y: Year| y@)
}

/// Taking one more event into account appends its source to the cells in
/// which it is shown and changes no other cell.
pub proof fn lemma_cell_events_step(events: Seq<Event>, k: int, year: int, cell: int)
    requires
        0 <= k < events.len(),
    ensures
        cell_events(events.take(k + 1), year, cell) == if lands_in(events[k].0, year, cell) {
            cell_events(events.take(k), year, cell).push(events[k].1)
        } else {
            cell_events(events.take(k), year, cell)
        },
{
    let shown = |e: Event| lands_in(e.0, year, cell);
    let source = |e: Event| e.1;
    assert(events.take(k + 1) =~= events.take(k).push(events[k]));
    events.take(k).lemma_filter_push(events[k], shown);
    if lands_in(events[k].0, year, cell) {
        assert(events.take(k).filter(shown).push(events[k]).map_values(source) =~= events.take(
            k,
        ).filter(shown).map_values(source).push(events[k].1));
    }
}

/// No events are shown anywhere before any is taken into account.
pub proof fn lemma_cell_events_none(events: Seq<Event>, year: int, cell: int)
    ensures
        cell_events(events.take(0), year, cell) == Seq::<ProjectMetadata>::empty(),
{
    let shown = |e: Event| lands_in(e.0, year, cell);
    assert(events.take(0) =~= Seq::<Event>::empty());
    Seq::<Event>::empty().lemma_filter_len(shown);
    assert(cell_events(events.take(0), year, cell) =~= Seq::<ProjectMetadata>::empty());
}

/// The cells of `grid` that stand for real days of its year.
pub open spec fn real_cells(grid: YearGrid) -> Set<int> {
    Set::new(|c: int| 0 <= c < grid.cells.len() && !grid.cells[c].filler)
}

/// Whether the calendar gives January 1 of `year` one of the seven weekdays.
pub open spec fn starts_on_weekday(year: int) -> bool {
    0 <= first_weekday(year) < 7
}

/// Whether the days of `year` fit into the 371 slots of a grid when the year
/// starts on its weekday. A leap year that starts on a Sunday does not.
pub open spec fn fits_grid(year: int) -> bool {
    starts_on_weekday(year) && last_day(year) <= GRID_CELLS
}

/// Day count: in the grid of a year that fits it, as many cells stand for
/// real days as the year has days, 365 in a common year and 366 in a leap
/// year, whatever the events are.
pub proof fn lemma_day_count(events: Seq<Event>, year: int)
    ensures
        fits_grid(year) ==> real_cells(year_grid(events, year)).finite() && real_cells(
            year_grid(events, year),
        ).len() == days_in_year(year),
{
    if fits_grid(year) {
        let grid = year_grid(events, year);
        let slots = set_int_range(first_weekday(year), last_day(year));
        let cell_of = |slot: int| (slot % 7) * (WEEKS as int) + slot / 7;
        lemma_int_range(first_weekday(year), last_day(year));
        assert(slots.map(cell_of) =~= real_cells(grid)) by {
            assert forall|c: int| real_cells(grid).contains(c) implies slots.map(cell_of).contains(
                c,
            ) by {
                let slot = slot_of_cell(c);
                assert(slots.contains(slot));
                assert(cell_of(slot) == c);
            }
            assert forall|c: int| slots.map(cell_of).contains(c) implies real_cells(grid).contains(
                c,
            ) by {
                let slot = choose|slot: int| slots.contains(slot) && c == cell_of(slot);
                assert(slot_of_cell(c) == slot);
            }
        }
        assert(injective_on(cell_of, slots)) by {
            assert forall|a: int, b: int|
                slots.contains(a) && slots.contains(b) && #[trigger] cell_of(a) == #[trigger] cell_of(
                    b,
                ) implies a == b by {
                assert(slot_of_cell(cell_of(a)) == a);
                assert(slot_of_cell(cell_of(b)) == b);
            }
        }
        lemma_map_size(slots, real_cells(grid), cell_of);
    }
}

/// Every event stands somewhere in the order of consumption.
pub proof fn lemma_sorted_holds(events: Seq<Event>, i: int)
    requires
        0 <= i < events.len(),
    ensures
        sorted(events).contains(events[i]),
{
    lemma_sort_order_exists(events);
    lemma_order_covers(events, sort_order(events), i);
    let k = choose|k: int| 0 <= k < sort_order(events).len() && sort_order(events)[k] == i;
    assert(sorted(events)[k] == events[i]);
}

/// A cell lists the source of every event that is shown in it.
pub proof fn lemma_cell_lists(events: Seq<Event>, event: Event, year: int, cell: int)
    requires
        events.contains(event),
        lands_in(event.0, year, cell),
    ensures
        cell_events(events, year, cell).contains(event.1),
{
    let shown = |e: Event| lands_in(e.0, year, cell);
    let k = choose|k: int| 0 <= k < events.len() && events[k] == event;
    events.lemma_filter_contains(shown, k);
    let kept = events.filter(shown);
    let m = choose|m: int| 0 <= m < kept.len() && kept[m] == event;
    assert(kept.map_values(|e: Event| e.1)[m] == event.1);
}

/// The years of all events lie between the year of the first and the year
/// of the last that is consumed.
pub proof fn lemma_year_bounds(events: Seq<Event>, i: int)
    requires
        0 <= i < events.len(),
    ensures
        sorted(events).first().0.year() <= events[i].0.year() <= sorted(events).last().0.year(),
{
    lemma_sort_order_exists(events);
    lemma_order_covers(events, sort_order(events), i);
    let k = choose|k: int| 0 <= k < sort_order(events).len() && sort_order(events)[k] == i;
    assert(sorted(events)[k] == events[i]);
    lemma_sorted_years(events, 0, k);
    lemma_sorted_years(events, k, events.len() - 1);
}

/// Nothing is lost but what the grid has no column for: the grid of an
/// event's year lists the event on its own day, unless the day lies in a week
/// beyond the last column.
pub proof fn lemma_event_shown(events: Seq<Event>, i: int)
    requires
        0 <= i < events.len(),
    ensures
        ({
            let date = events[i].0;
            let own = date.year() - sorted(events).first().0.year();
            &&& 0 <= own < aggregate(events).len()
            &&& aggregate(events)[own].year == date.year()
            &&& 0 <= date.week_index() < WEEKS && 0 <= date.weekday_index() < 7
                ==> aggregate(events)[own].cells[cell_index(
                date.weekday_index(),
                date.week_index(),
            )].events.contains(events[i].1)
        }),
{
    let date = events[i].0;
    lemma_year_bounds(events, i);
    if 0 <= date.week_index() < WEEKS && 0 <= date.weekday_index() < 7 {
        lemma_sorted_holds(events, i);
        lemma_cell_lists(
            sorted(events),
            events[i],
            date.year(),
            cell_index(date.weekday_index(), date.week_index()),
        );
    }
}

/// Boundary duplication: an event that lands in the final week column of its
/// year is also listed in the grid of the next year, if there is one, in the
/// first column at the same weekday.
pub proof fn lemma_boundary_duplication(events: Seq<Event>, i: int)
    requires
        0 <= i < events.len(),
    ensures
        ({
            let date = events[i].0;
            let next = date.year() + 1 - sorted(events).first().0.year();
            date.week_index() == last_week(date.year()) && date.week_index() < WEEKS && 0 <= next
                < aggregate(events).len() && 0 <= date.weekday_index() < 7 ==> {
                &&& aggregate(events)[next].year == date.year() + 1
                &&& aggregate(events)[next].cells[cell_index(
                    date.weekday_index(),
                    0,
                )].events.contains(events[i].1)
            }
        }),
{
    let date = events[i].0;
    let next = date.year() + 1 - sorted(events).first().0.year();
    if date.week_index() == last_week(date.year()) && date.week_index() < WEEKS && 0 <= next
        < aggregate(events).len() && 0 <= date.weekday_index() < 7 {
        lemma_sorted_holds(events, i);
        lemma_cell_lists(
            sorted(events),
            events[i],
            date.year() + 1,
            cell_index(date.weekday_index(), 0),
        );
    }
}

/// The other side of the boundary: an event that lands in the first week
/// column of its year is also listed in the grid of the year before, if there
/// is one, in the last column at the same weekday.
pub proof fn lemma_backward_duplication(events: Seq<Event>, i: int)
    requires
        0 <= i < events.len(),
    ensures
        ({
            let date = events[i].0;
            let previous = date.year() - 1 - sorted(events).first().0.year();
            date.week_index() == 0 && 0 <= previous < aggregate(events).len() && 0
                <= date.weekday_index() < 7 ==> {
                &&& aggregate(events)[previous].year == date.year() - 1
                &&& aggregate(events)[previous].cells[cell_index(
                    date.weekday_index(),
                    WEEKS - 1,
                )].events.contains(events[i].1)
            }
        }),
{
    let date = events[i].0;
    let previous = date.year() - 1 - sorted(events).first().0.year();
    if date.week_index() == 0 && 0 <= previous < aggregate(events).len() && 0
        <= date.weekday_index() < 7 {
        lemma_sorted_holds(events, i);
        lemma_cell_lists(
            sorted(events),
            events[i],
            date.year() - 1,
            cell_index(date.weekday_index(), WEEKS - 1),
        );
    }
}

/// The grid of `year` once the first `upto` of the consumed events are placed;
/// its filler cells are marked if `marked` says so.
pub open spec fn partial_grid(consumed: Seq<Event>, upto: int, year: int, marked: bool) -> YearGrid {
    YearGrid {
        year,
        cells: Seq::new(
            GRID_CELLS as nat,
            |c: int|
                GridCell {
                    filler: marked && is_filler(year, c),
                    events: cell_events(consumed.take(upto), year, c),
                },
        ),
    }
}

/// The grids `before` with `source` appended to cell `cell` of grid `g`.
pub open spec fn shown(before: Seq<YearGrid>, g: int, cell: int, source: ProjectMetadata) -> Seq<
    YearGrid,
> {
    before.update(
        g,
        YearGrid {
            year: before[g].year,
            cells: before[g].cells.update(
                cell,
                GridCell {
                    filler: before[g].cells[cell].filler,
                    events: before[g].cells[cell].events.push(source),
                },
            ),
        },
    )
}

/// The grids `before` with `event`, which belongs to the year of grid `g`,
/// placed in every cell that shows it.
pub open spec fn placed(before: Seq<YearGrid>, event: Event, g: int) -> Seq<YearGrid> {
    let weekday = event.0.weekday_index();
    let week = event.0.week_index();
    if week >= WEEKS {
        before
    } else {
        let next = if week == last_week(event.0.year()) && g + 1 < before.len() {
            shown(before, g + 1, cell_index(weekday, 0), event.1)
        } else {
            before
        };
        let previous = if week == 0 && g > 0 {
            shown(next, g - 1, cell_index(weekday, WEEKS - 1), event.1)
        } else {
            next
        };
        shown(previous, g, cell_index(weekday, week), event.1)
    }
}

/// Placing the next consumed event takes the grids from the state after
/// `cursor` events to the state after `cursor + 1`.
proof fn lemma_placed(
    consumed: Seq<Event>,
    cursor: int,
    first_year: int,
    g: int,
    before: Seq<YearGrid>,
)
    requires
        0 <= cursor < consumed.len(),
        0 <= g < before.len(),
        consumed[cursor].0.year() == first_year + g,
        0 <= first_weekday(first_year + g) < 7,
        0 <= consumed[cursor].0.ordinal0(),
        forall|j: int|
            0 <= j < before.len() ==> #[trigger] before[j] == partial_grid(
                consumed,
                cursor,
                first_year + j,
                j < g,
            ),
    ensures
        placed(before, consumed[cursor], g).len() == before.len(),
        forall|j: int|
            0 <= j < before.len() ==> #[trigger] placed(before, consumed[cursor], g)[j]
                == partial_grid(consumed, cursor + 1, first_year + j, j < g),
{
    let event = consumed[cursor];
    let after = placed(before, event, g);
    let weekday = event.0.weekday_index();
    let week = event.0.week_index();
    assert(0 <= weekday < 7);
    assert(0 <= week);
    assert forall|j: int| 0 <= j < before.len() implies #[trigger] after[j] == partial_grid(
        consumed,
        cursor + 1,
        first_year + j,
        j < g,
    ) by {
        let want = partial_grid(consumed, cursor + 1, first_year + j, j < g);
        assert(before[j] == partial_grid(consumed, cursor, first_year + j, j < g));
        assert forall|c: int| 0 <= c < GRID_CELLS implies #[trigger] after[j].cells[c]
            == want.cells[c] by {
            lemma_cell_events_step(consumed, cursor, first_year + j, c);
        }
        assert(after[j].cells =~= want.cells);
    }
}

/// Years do not decrease along the order of consumption.
proof fn lemma_sorted_years(events: Seq<Event>, a: int, b: int)
    requires
        0 <= a <= b < events.len(),
    ensures
        sorted(events)[a].0.year() <= sorted(events)[b].0.year(),
{
    lemma_sort_order_exists(events);
    let order = sort_order(events);
    if a < b {
        assert(comes_before(events, order[a], order[b]));
    }
}

/// Appends `source` to cell `cell` of grid `g`.
fn show(years: &mut Vec<Year>, g: usize, cell: usize, source: ProjectMetadata)
    requires
        g < old(years).len(),
        cell < GRID_CELLS,
    ensures
        final(years).len() == old(years).len(),
        grids(final(years)@) == shown(grids(old(years)@), g as int, cell as int, source),
{
    years[g].add_commit(cell, source);
    assert(grids(final(years)@) =~= shown(grids(old(years)@), g as int, cell as int, source));
}

/// Marks the cells of grid `g` that lie outside the year laid out by
/// `layout`.
fn mark_fillers(years: &mut Vec<Year>, g: usize, layout: YearLayout, Ghost(year): Ghost<int>)
    requires
        g < old(years).len(),
        old(years)[g as int]@.cells.len() == GRID_CELLS,
        layout.weekday_offset == first_weekday(year),
        layout.last_day == last_day(year),
        forall|c: int| 0 <= c < GRID_CELLS ==> !(#[trigger] old(years)[g as int]@.cells[c]).filler,
    ensures
        final(years).len() == old(years).len(),
        forall|j: int|
            0 <= j < old(years).len() && j != g ==> (#[trigger] final(years)[j])@ == old(
                years,
            )[j]@,
        final(years)[g as int]@.year == old(years)[g as int]@.year,
        final(years)[g as int]@.cells.len() == GRID_CELLS,
        forall|c: int|
            0 <= c < GRID_CELLS ==> #[trigger] final(years)[g as int]@.cells[c] == (GridCell {
                filler: is_filler(year, c),
                events: old(years)[g as int]@.cells[c].events,
            }),
{
    let mut cell: usize = 0;
    while cell < GRID_CELLS
        invariant
            cell <= GRID_CELLS,
            g < years.len(),
            years.len() == old(years).len(),
            layout.weekday_offset == first_weekday(year),
            layout.last_day == last_day(year),
            forall|j: int|
                0 <= j < old(years).len() && j != g ==> (#[trigger] years[j])@ == old(years)[j]@,
            years[g as int]@.year == old(years)[g as int]@.year,
            years[g as int]@.cells.len() == GRID_CELLS,
            forall|c: int|
                0 <= c < cell ==> #[trigger] years[g as int]@.cells[c] == (GridCell {
                    filler: is_filler(year, c),
                    events: old(years)[g as int]@.cells[c].events,
                }),
            forall|c: int|
                cell <= c < GRID_CELLS ==> #[trigger] years[g as int]@.cells[c] == old(
                    years,
                )[g as int]@.cells[c],
            forall|c: int|
                0 <= c < GRID_CELLS ==> !(#[trigger] old(years)[g as int]@.cells[c]).filler,
        decreases GRID_CELLS - cell,
    {
        let slot: u32 = ((cell % WEEKS) * 7 + cell / WEEKS) as u32;
        if slot < layout.weekday_offset || slot >= layout.last_day {
            years[g].mark_filler(cell);
        }
        cell = cell + 1;
    }
}

/// The year of the event that is consumed at place `k`.
fn year_at(events: &Vec<Event>, order: &Vec<usize>, k: usize) -> (r: i32)
    requires
        k < order.len(),
        order[k as int] < events.len(),
    ensures
        r == events[order[k as int] as int].0.year(),
        year_in_range(r as int),
{
    events[order[k]].0.get_year()
}

/// Buckets events into one grid per calendar year, from the year of the
/// earliest event to that of the latest.
///
/// The events may come in any order; they are consumed by ascending time,
/// events of the same instant in the order given. Each cell lists the sources
/// of the events shown in it in that order, and is marked as filler if it
/// lies outside the days of its year.
pub fn gather_years(commit_dates: Vec<Event>) -> (years: Vec<Year>)
    ensures
        grids(years@) == aggregate(commit_dates@),
        commit_dates@.len() == 0 ==> years@.len() == 0,
        forall|k: int|
            0 <= k < years@.len() ==> starts_on_weekday((#[trigger] grids(years@)[k]).year),
        forall|k: int|
            0 <= k < years@.len() && last_day((#[trigger] grids(years@)[k]).year) <= GRID_CELLS
                ==> real_cells(grids(years@)[k]).len() == days_in_year(grids(years@)[k].year),
{
    let n = commit_dates.len();
    if n == 0 {
        let none: Vec<Year> = Vec::new();
        assert(grids(none@) =~= aggregate(commit_dates@));
        return none;
    }
    let order = sort_positions(&commit_dates);
    let ghost consumed = sorted(commit_dates@);
    proof {
        lemma_sort_order_exists(commit_dates@);
        assert forall|k: int| 0 <= k < n implies (#[trigger] order[k]) < n && consumed[k]
            == commit_dates@[order[k] as int] by {
            assert(0 <= positions(order@)[k] < n);
        }
        lemma_sorted_years(commit_dates@, 0, n - 1);
    }
    let first_year: i32 = year_at(&commit_dates, &order, 0);
    let last_year: i32 = year_at(&commit_dates, &order, n - 1);
    let count: usize = (last_year - first_year + 1) as usize;

    let mut years: Vec<Year> = Vec::new();
    while years.len() < count
        invariant
            years.len() <= count,
            count == last_year - first_year + 1,
            year_in_range(first_year as int),
            year_in_range(last_year as int),
            forall|j: int|
                0 <= j < years.len() ==> (#[trigger] years[j])@ == partial_grid(
                    consumed,
                    0,
                    first_year + j,
                    false,
                ),
        decreases count - years.len(),
    {
        let year: i32 = first_year + years.len() as i32;
        let blank = Year::blank(year);
        proof {
            assert forall|c: int| 0 <= c < GRID_CELLS implies #[trigger] blank@.cells[c]
                == partial_grid(consumed, 0, year as int, false).cells[c] by {
                lemma_cell_events_none(consumed, year as int, c);
            }
            assert(blank@.cells =~= partial_grid(consumed, 0, year as int, false).cells);
        }
        years.push(blank);
    }

    let mut cursor: usize = 0;
    let mut g: usize = 0;
    while g < count
        invariant
            n == commit_dates.len(),
            n == order.len(),
            n > 0,
            consumed == sorted(commit_dates@),
            forall|k: int|
                0 <= k < n ==> (#[trigger] order[k]) < n && consumed[k]
                    == commit_dates@[order[k] as int],
            count == last_year - first_year + 1,
            year_in_range(first_year as int),
            year_in_range(last_year as int),
            first_year == consumed.first().0.year(),
            last_year == consumed.last().0.year(),
            years.len() == count,
            g <= count,
            cursor <= n,
            forall|j: int|
                0 <= j < count ==> (#[trigger] years[j])@ == partial_grid(
                    consumed,
                    cursor as int,
                    first_year + j,
                    j < g,
                ),
            forall|p: int| 0 <= p < cursor ==> (#[trigger] consumed[p]).0.year() < first_year + g,
            forall|p: int| cursor <= p < n ==> (#[trigger] consumed[p]).0.year() >= first_year + g,
            forall|y: int| first_year <= y < first_year + g ==> #[trigger] starts_on_weekday(y),
        decreases count - g,
    {
        let year: i32 = first_year + g as i32;
        let layout = year_layout(year).unwrap();
        while cursor < n && year_at(&commit_dates, &order, cursor) == year
            invariant
                n == commit_dates.len(),
                n == order.len(),
                consumed == sorted(commit_dates@),
                    forall|k: int|
                    0 <= k < n ==> (#[trigger] order[k]) < n && consumed[k]
                        == commit_dates@[order[k] as int],
                count == last_year - first_year + 1,
                year_in_range(first_year as int),
                year_in_range(last_year as int),
                year == first_year + g,
                layout.weekday_offset == first_weekday(year as int),
                layout.weekday_offset < 7,
                layout.last_week == last_week(year as int),
                years.len() == count,
                g < count,
                cursor <= n,
                forall|j: int|
                    0 <= j < count ==> (#[trigger] years[j])@ == partial_grid(
                        consumed,
                        cursor as int,
                        first_year + j,
                        j < g,
                    ),
                forall|p: int| 0 <= p < cursor ==> (#[trigger] consumed[p]).0.year() <= year,
                forall|p: int| cursor <= p < n ==> (#[trigger] consumed[p]).0.year() >= year,
            decreases n - cursor,
        {
            let event = &commit_dates[order[cursor]];
            let ghost before = grids(years@);
            let slot: u32 = event.0.get_ordinal0() + layout.weekday_offset;
            proof {
                assert(consumed[cursor as int] == *event);
                assert forall|j: int| 0 <= j < count implies #[trigger] before[j] == partial_grid(
                    consumed,
                    cursor as int,
                    first_year + j,
                    j < g,
                ) by {
                    assert(before[j] == years[j]@);
                }
                lemma_placed(consumed, cursor as int, first_year as int, g as int, before);
            }
            let weekday: usize = (slot % 7) as usize;
            let week: usize = (slot / 7) as usize;
            if week < WEEKS {
                if week == layout.last_week as usize && year < last_year {
                    show(&mut years, g + 1, weekday * WEEKS, event.1.clone());
                }
                if week == 0 && year > first_year {
                    show(&mut years, g - 1, weekday * WEEKS + WEEKS - 1, event.1.clone());
                }
                show(&mut years, g, weekday * WEEKS + week, event.1.clone());
            }
            proof {
                assert(grids(years@) == placed(before, *event, g as int));
                assert forall|j: int| 0 <= j < count implies (#[trigger] years[j])@
                    == partial_grid(consumed, cursor + 1, first_year + j, j < g) by {
                    assert(grids(years@)[j] == years[j]@);
                }
            }
            cursor = cursor + 1;
        }
        proof {
            if cursor < n {
                assert(consumed[cursor as int].0.year() > year);
            }
            assert forall|p: int| cursor <= p < n implies (#[trigger] consumed[p]).0.year()
                >= first_year + g + 1 by {
                lemma_sorted_years(commit_dates@, cursor as int, p);
            }
        }
        let ghost unmarked = years@;
        mark_fillers(&mut years, g, layout, Ghost(year as int));
        proof {
            assert forall|j: int| 0 <= j < count implies (#[trigger] years[j])@ == partial_grid(
                consumed,
                cursor as int,
                first_year + j,
                j < g + 1,
            ) by {
                assert(unmarked[j]@ == partial_grid(consumed, cursor as int, first_year + j, j < g));
                if j == g {
                    assert(years[j]@.cells =~= partial_grid(
                        consumed,
                        cursor as int,
                        first_year + j,
                        true,
                    ).cells);
                }
            }
        }
        g = g + 1;
    }
    proof {
        assert(cursor == n) by {
            if cursor < n {
                lemma_sorted_years(commit_dates@, cursor as int, n - 1);
            }
        }
        assert(consumed.take(n as int) =~= consumed);
        assert forall|j: int| 0 <= j < count implies #[trigger] grids(years@)[j] == year_grid(
            consumed,
            first_year + j,
        ) by {
            assert(years[j]@ == partial_grid(consumed, n as int, first_year + j, true));
            assert(years[j]@.cells =~= year_grid(consumed, first_year + j).cells);
        }
        assert(grids(years@) =~= aggregate(commit_dates@));
        assert forall|k: int| 0 <= k < years@.len() implies starts_on_weekday(
            (#[trigger] grids(years@)[k]).year,
        ) by {
            assert(grids(years@)[k] == years[k]@);
            assert(starts_on_weekday(first_year + k));
        }
        assert forall|k: int|
            0 <= k < years@.len() && last_day((#[trigger] grids(years@)[k]).year)
                <= GRID_CELLS implies real_cells(grids(years@)[k]).len() == days_in_year(
            grids(years@)[k].year,
        ) by {
            lemma_day_count(consumed, first_year + k);
        }
    }
    years
}

} // verus!
