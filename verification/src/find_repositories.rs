//! What is decided while directories are searched for repositories.
//!
//! Reading directories is left to the program around the library. For each
//! directory that it has read it hands over the names of what the directory
//! holds, and is told whether the directory is a repository and which of its
//! entries are to be read next.

use crate::model::ProjectMetadata;
use crate::text::same_text;
use vstd::prelude::*;
use vstd::string::*;

verus! {

/// The name of the directory that marks a repository.
pub const GIT_DIR: &'static str = ".git";

/// Whether no two of `repos` have the same name and path.
pub open spec fn distinct(repos: Seq<ProjectMetadata>) -> bool {
    forall|i: int, j: int| 0 <= i < j < repos.len() ==> repos[i]@ != repos[j]@
}

/// Whether one of `repos` has the name and path of `repo`.
pub open spec fn holds(repos: Seq<ProjectMetadata>, repo: ProjectMetadata) -> bool {
    exists|i: int| 0 <= i < repos.len() && (#[trigger] repos[i])@ == repo@
}

/// Whether an entry called `name` is the directory that marks a repository.
pub open spec fn is_git_dir(name: Option<String>) -> bool {
    match name {
        Some(name) => name@ == GIT_DIR@,
        None => false,
    }
}

/// Whether one of the entries is the directory that marks a repository.
pub open spec fn marks_repository(names: Seq<Option<String>>) -> bool {
    exists|i: int| 0 <= i < names.len() && is_git_dir(#[trigger] names[i])
}

/// Whether the search has gone deeper than it was allowed to.
pub open spec fn too_deep(depth: Option<i32>) -> bool {
    match depth {
        Some(left) => left < 0,
        None => false,
    }
}

/// Whether the entry called `name` is searched in its turn: it has a name,
/// and is not the directory that marks a repository.
pub open spec fn is_searched(name: Option<String>) -> bool {
    name.is_some() && !is_git_dir(name)
}

/// The entries among the first `upto` that are searched in their turn.
pub open spec fn searched(names: Seq<Option<String>>, upto: int) -> Seq<usize>
    decreases upto,
{
    if upto <= 0 {
        Seq::empty()
    } else if is_searched(names[upto - 1]) {
        searched(names, upto - 1).push((upto - 1) as usize)
    } else {
        searched(names, upto - 1)
    }
}

/// What is to be done after a directory has been read.
#[derive(Debug)]
pub struct Visit {
    /// The entries of the directory, by their place, that are read next.
    pub descend: Vec<usize>,
    /// How many subdirectories deep the search may go from them.
    pub depth: Option<i32>,
}

/// The repositories that a search has found, each of them once.
#[derive(Debug)]
pub struct RepositorySet {
    list: Vec<ProjectMetadata>,
}

impl View for RepositorySet {
    type V = Seq<ProjectMetadata>;

    /// The repositories in the order in which they were found.
    closed spec fn view(&self) -> Seq<ProjectMetadata> {
        self.list@
    }
}

impl RepositorySet {
    #[verifier::type_invariant]
    spec fn well_formed(self) -> bool {
        distinct(self.list@)
    }

    /// No repositories.
    pub fn new() -> (r: Self)
        ensures
            r@.len() == 0,
    {
        RepositorySet { list: Vec::new() }
    }

    /// How many repositories were found.
    pub fn len(&self) -> (r: usize)
        ensures
            r == self@.len(),
    {
        self.list.len()
    }

    /// The repositories in the order in which they were found, no two of
    /// them with the same name and path.
    pub fn as_vec(&self) -> (r: &Vec<ProjectMetadata>)
        ensures
            r@ == self@,
            distinct(r@),
    {
        proof {
            use_type_invariant(self);
        }
        &self.list
    }

    /// Whether `repo` is among the repositories.
    pub fn contains(&self, repo: &ProjectMetadata) -> (r: bool)
        ensures
            r == holds(self@, *repo),
    {
        let mut i: usize = 0;
        while i < self.list.len()
            invariant
                i <= self.list.len(),
                forall|k: int| 0 <= k < i ==> (#[trigger] self.list[k])@ != repo@,
            decreases self.list.len() - i,
        {
            if self.list[i].same_as(repo) {
                return true;
            }
            i = i + 1;
        }
        false
    }

    /// Adds `repo` unless it is among the repositories already.
    pub fn insert(&mut self, repo: ProjectMetadata)
        ensures
            final(self)@ == if holds(old(self)@, repo) {
                old(self)@
            } else {
                old(self)@.push(repo)
            },
    {
        proof {
            use_type_invariant(&*self);
        }
        if !self.contains(&repo) {
            let mut list: Vec<ProjectMetadata> = Vec::new();
            std::mem::swap(&mut self.list, &mut list);
            list.push(repo);
            std::mem::swap(&mut self.list, &mut list);
        }
    }
}

/// Whether one of the entries is the directory that marks a repository.
pub fn is_repository(names: &Vec<Option<String>>) -> (r: bool)
    ensures
        r == marks_repository(names@),
{
    let mut i: usize = 0;
    while i < names.len()
        invariant
            i <= names.len(),
            forall|k: int| 0 <= k < i ==> !is_git_dir(#[trigger] names[k]),
        decreases names.len() - i,
    {
        match &names[i] {
            Some(name) => {
                if same_text(name.as_str(), GIT_DIR) {
                    return true;
                }
            },
            None => {},
        }
        i = i + 1;
    }
    false
}

/// Takes in a directory that has been read: `path` is where it lies, `name`
/// its own name if it has one, `names` the names of its entries, and
/// `depth` how many subdirectories deep the search may still go.
///
/// The directory is recorded as a repository if it has a name and holds the
/// directory that marks one. Unless the search has gone too deep, every
/// entry with a name of its own other than that of the marking directory is
/// read next, one level deeper.
pub fn analyze_dir(
    git_paths: &mut RepositorySet,
    path: &str,
    name: Option<&str>,
    names: &Vec<Option<String>>,
    depth: Option<i32>,
) -> (visit: Visit)
    ensures
        !(marks_repository(names@) && name.is_some()) ==> final(git_paths)@ == old(git_paths)@,
        marks_repository(names@) && name.is_some() ==> exists|repo: ProjectMetadata|
            {
                &&& repo@ == (name.unwrap()@, path@)
                &&& final(git_paths)@ == if holds(old(git_paths)@, repo) {
                    old(git_paths)@
                } else {
                    old(git_paths)@.push(repo)
                }
            },
        too_deep(depth) ==> visit.descend@.len() == 0 && visit.depth == depth,
        !too_deep(depth) ==> visit.descend@ == searched(names@, names@.len() as int),
        !too_deep(depth) ==> visit.depth == match depth {
            Some(left) => Some((left - 1) as i32),
            None => None,
        },
{
    if is_repository(names) {
        match name {
            Some(name) => {
                let repo = ProjectMetadata::new(name.to_owned(), path.to_owned());
                git_paths.insert(repo);
            },
            None => {},
        }
    }
    let left: Option<i32> = match depth {
        Some(left) => {
            if left < 0 {
                return Visit { descend: Vec::new(), depth };
            }
            Some(left - 1)
        },
        None => None,
    };
    let mut descend: Vec<usize> = Vec::new();
    let mut i: usize = 0;
    while i < names.len()
        invariant
            i <= names.len(),
            descend@ == searched(names@, i as int),
        decreases names.len() - i,
    {
        let read: bool = match &names[i] {
            Some(name) => !same_text(name.as_str(), GIT_DIR),
            None => false,
        };
        if read {
            descend.push(i);
        }
        i = i + 1;
    }
    Visit { descend, depth: left }
}

/// Whether the target of a symbolic link is taken relative to the directory
/// that holds the link: it is, unless the target is absolute or the link has
/// no directory.
pub fn link_is_relative_to_parent(target_is_absolute: bool, has_parent: bool) -> (r: bool)
    ensures
        r == (has_parent && !target_is_absolute),
{
    has_parent && !target_is_absolute
}

} // verus!
