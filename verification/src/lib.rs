//! Calendar-style activity graphs: events are bucketed into fixed-size year
//! grids, rendered, and served from a cache that refreshes itself.

pub mod calendar;
pub mod model;
pub mod order;
pub mod aggregate;
pub mod cache;
pub mod cache_file;
pub mod text;
pub mod server;
pub mod render;
pub mod commits;
pub mod find_repositories;
pub mod log;

use crate::aggregate::{aggregate, gather_years, grids};
use crate::commits::{all_events, find_dates};
use crate::model::{ProjectMetadata, Year};
use vstd::prelude::*;

verus! {

/// The year grids of the events that the logs of the repositories record.
///
/// Each log is what the version-control tool printed for its repository,
/// asked with the arguments of [`commits::git_log_args`].
pub fn generate_years(logs: &Vec<(ProjectMetadata, String)>) -> (years: Vec<Year>)
    ensures
        grids(years@) == aggregate(all_events(logs@)),
{
    gather_years(find_dates(logs))
}

} // verus!
