//! The data that the aggregation produces and the renderers consume.

use crate::calendar::GRID_CELLS;
use crate::text::same_text;
use vstd::prelude::*;

verus! {

/// A source of events: a named repository at some path.
#[derive(Debug, PartialEq, Eq, Hash)]
pub struct ProjectMetadata {
    name: String,
    path: String,
}

impl View for ProjectMetadata {
    type V = (Seq<char>, Seq<char>);

    /// The name and the path, as text.
    closed spec fn view(&self) -> (Seq<char>, Seq<char>) {
        (self.name@, self.path@)
    }
}

impl Clone for ProjectMetadata {
    fn clone(&self) -> (r: Self)
        ensures
            r == *self,
    {
        ProjectMetadata { name: self.name.clone(), path: self.path.clone() }
    }
}

impl ProjectMetadata {
    /// A source called `name` that lives at `path`.
    pub fn new(name: String, path: String) -> (r: Self)
        ensures
            r@ == (name@, path@),
    {
        ProjectMetadata { name, path }
    }

    /// The name of the source.
    pub fn name(&self) -> (r: &String)
        ensures
            r@ == self@.0,
    {
        &self.name
    }

    /// Where the source lives.
    pub fn path(&self) -> (r: &String)
        ensures
            r@ == self@.1,
    {
        &self.path
    }

    /// Whether `self` and `other` have the same name and the same path.
    pub fn same_as(&self, other: &ProjectMetadata) -> (r: bool)
        ensures
            r == (self@ == other@),
    {
        same_text(self.name.as_str(), other.name.as_str()) && same_text(
            self.path.as_str(),
            other.path.as_str(),
        )
    }
}

/// The mathematical content of one grid cell.
pub ghost struct GridCell {
    /// Whether the cell lies outside the days of its year.
    pub filler: bool,
    /// The sources of the events assigned to the cell, in the order in which
    /// they were assigned.
    pub events: Seq<ProjectMetadata>,
}

/// The mathematical content of the grid of one year: 53 week columns of 7
/// weekdays each, weekday-major.
pub ghost struct YearGrid {
    pub year: int,
    pub cells: Seq<GridCell>,
}

/// One weekday-in-a-week slot of a year grid.
#[derive(Debug)]
pub struct Day {
    filler: bool,
    commits: Vec<ProjectMetadata>,
}

impl View for Day {
    type V = GridCell;

    closed spec fn view(&self) -> GridCell {
        GridCell { filler: self.filler, events: self.commits@ }
    }
}

impl Default for Day {
    /// A cell of a real day that holds no events.
    fn default() -> (r: Self)
        ensures
            r@ == (GridCell { filler: false, events: Seq::empty() }),
    {
        Day { filler: false, commits: Vec::new() }
    }
}

impl Day {
    /// Whether the cell lies outside the days of its year.
    pub fn is_filler(&self) -> (r: bool)
        ensures
            r == self@.filler,
    {
        self.filler
    }

    /// The sources of the events assigned to the cell.
    pub fn commits(&self) -> (r: &Vec<ProjectMetadata>)
        ensures
            r@ == self@.events,
    {
        &self.commits
    }

    /// How many events the cell holds.
    pub fn commit_count(&self) -> (r: usize)
        ensures
            r == self@.events.len(),
    {
        self.commits.len()
    }
}

/// The grid of one calendar year.
#[derive(Debug)]
pub struct Year {
    year: i32,
    days: Vec<Day>,
}

impl View for Year {
    type V = YearGrid;

    closed spec fn view(&self) -> YearGrid {
        YearGrid { year: self.year as int, cells: Seq::new(self.days.len() as nat, |i: int| self.days[i]@) }
    }
}

impl Year {
    #[verifier::type_invariant]
    spec fn well_formed(self) -> bool {
        self.days.len() == GRID_CELLS
    }

    /// A grid for `year` in which every cell is a real day without events.
    pub(crate) fn blank(year: i32) -> (r: Self)
        ensures
            r@.year == year,
            r@.cells.len() == GRID_CELLS,
            forall|c: int|
                0 <= c < GRID_CELLS ==> #[trigger] r@.cells[c] == (GridCell {
                    filler: false,
                    events: Seq::empty(),
                }),
    {
        let mut days: Vec<Day> = Vec::new();
        while days.len() < GRID_CELLS
            invariant
                days.len() <= GRID_CELLS,
                forall|c: int|
                    0 <= c < days.len() ==> (#[trigger] days[c])@ == (GridCell {
                        filler: false,
                        events: Seq::empty(),
                    }),
            decreases GRID_CELLS - days.len(),
        {
            days.push(Day::default());
        }
        Year { year, days }
    }

    /// The calendar year of the grid.
    pub fn year(&self) -> (r: i32)
        ensures
            r == self@.year,
    {
        self.year
    }

    /// The cells of the grid, weekday-major: the cell of weekday `d` in week
    /// `w` stands at `d * 53 + w`.
    pub fn days(&self) -> (r: &Vec<Day>)
        ensures
            r.len() == GRID_CELLS,
            self@.cells.len() == GRID_CELLS,
            forall|c: int| 0 <= c < GRID_CELLS ==> (#[trigger] r[c])@ == self@.cells[c],
    {
        proof {
            use_type_invariant(self);
        }
        &self.days
    }

    /// Appends `source` to the events of cell `cell`.
    pub(crate) fn add_commit(&mut self, cell: usize, source: ProjectMetadata)
        requires
            cell < GRID_CELLS,
        ensures
            final(self)@.year == old(self)@.year,
            final(self)@.cells.len() == GRID_CELLS,
            old(self)@.cells.len() == GRID_CELLS,
            final(self)@.cells == old(self)@.cells.update(
                cell as int,
                GridCell {
                    filler: old(self)@.cells[cell as int].filler,
                    events: old(self)@.cells[cell as int].events.push(source),
                },
            ),
    {
        proof {
            use_type_invariant(&*self);
        }
        self.days[cell].commits.push(source);
        assert(final(self)@.cells =~= old(self)@.cells.update(
            cell as int,
            GridCell {
                filler: old(self)@.cells[cell as int].filler,
                events: old(self)@.cells[cell as int].events.push(source),
            },
        ));
    }

    /// Marks cell `cell` as lying outside the days of the year.
    pub(crate) fn mark_filler(&mut self, cell: usize)
        requires
            cell < GRID_CELLS,
        ensures
            final(self)@.year == old(self)@.year,
            final(self)@.cells.len() == GRID_CELLS,
            old(self)@.cells.len() == GRID_CELLS,
            final(self)@.cells == old(self)@.cells.update(
                cell as int,
                GridCell { filler: true, events: old(self)@.cells[cell as int].events },
            ),
    {
        proof {
            use_type_invariant(&*self);
        }
        self.days[cell].filler = true;
        assert(final(self)@.cells =~= old(self)@.cells.update(
            cell as int,
            GridCell { filler: true, events: old(self)@.cells[cell as int].events },
        ));
    }
}

/// Which events to collect and where to look for them.
#[derive(Clone, Debug, Default)]
pub struct GenerationData {
    /// Pattern that matches the author(s) whose commits are counted; all
    /// commits are counted if it is not set.
    pub author: Option<String>,
    /// How many subdirectories deep to search; no limit if it is not set.
    pub depth: Option<i32>,
    /// Paths of the directories that contain the repositories.
    pub input: Vec<String>,
    /// Whether the repositories are pulled before they are read.
    pub pull: bool,
}

/// Paths of files whose contents are pasted into the rendered page.
#[derive(Clone, Debug, Default)]
pub struct ExternalResources {
    /// A file pasted into the `<head>` element.
    pub external_head: Option<String>,
    /// A file pasted at the beginning of the `<body>` element.
    pub external_header: Option<String>,
    /// A file pasted at the end of the `<body>` element.
    pub external_footer: Option<String>,
    /// A file pasted at the end of the stylesheet.
    pub external_css: Option<String>,
}

/// How much the program reports about its progress.
#[derive(Clone, Copy, Debug, Default)]
pub struct Verbosity {
    /// Print verbose information.
    pub verbose: bool,
    /// Disable all prints.
    pub quiet: bool,
}

} // verus!
