//! Reads the dates of commits out of what the version-control tool printed.
//!
//! Running the tool is left to the program around the library: it asks for
//! the arguments, runs the tool in each repository, and hands back what was
//! printed.

use crate::calendar::{parsed_date, CommitDate};
use crate::model::ProjectMetadata;
use crate::order::Event;
use vstd::prelude::*;
use vstd::string::*;

verus! {

/// The argument that restricts the log to commits of `author`.
pub open spec fn author_flag_text(author: Seq<char>) -> Seq<char> {
    "--author="@ + author
}

/// The arguments with which the log of a repository is asked for.
pub open spec fn log_args(author: Option<Seq<char>>) -> Seq<Seq<char>> {
    let always = seq!["log"@, "--all"@, "--format=format:%ai"@, "--date=iso8601"@];
    match author {
        Some(author) => always.push(author_flag_text(author)),
        None => always,
    }
}

/// The texts that a list of arguments holds.
pub open spec fn texts(args: Seq<String>) -> Seq<Seq<char>> {
    args.map_values(|arg: String| arg@)
}

/// The arguments with which the log of a repository is asked for: every
/// commit on every branch, one date with its offset on each line, and only
/// the commits of `author` if one is given.
pub fn git_log_args(author: Option<&String>) -> (args: Vec<String>)
    ensures
        texts(args@) == log_args(
            match author {
                Some(author) => Some(author@),
                None => None,
            },
        ),
{
    let mut args: Vec<String> = Vec::new();
    args.push("log".to_owned());
    args.push("--all".to_owned());
    args.push("--format=format:%ai".to_owned());
    args.push("--date=iso8601".to_owned());
    match author {
        Some(author) => {
            let mut flag = "--author=".to_owned();
            flag.append(author.as_str());
            args.push(flag);
            assert(texts(args@) =~= log_args(Some(author@)));
        },
        None => {
            assert(texts(args@) =~= log_args(None));
        },
    }
    args
}

/// A line without the carriage return that closes it, if it has one.
pub open spec fn without_carriage_return(line: Seq<char>) -> Seq<char> {
    if line.len() > 0 && line.last() == '\r' {
        line.drop_last()
    } else {
        line
    }
}

/// The lines that `text` has completed, and the line that it has begun.
pub open spec fn scanned(text: Seq<char>) -> (Seq<Seq<char>>, Seq<char>)
    decreases text.len(),
{
    if text.len() == 0 {
        (Seq::empty(), Seq::empty())
    } else {
        let (lines, begun) = scanned(text.drop_last());
        if text.last() == '\n' {
            (lines.push(without_carriage_return(begun)), Seq::empty())
        } else {
            (lines, begun.push(text.last()))
        }
    }
}

/// The lines of `text`: what stands between line breaks, without the
/// carriage return before a line break. What follows the last line break is
/// a line if it is not empty.
pub open spec fn lines_of(text: Seq<char>) -> Seq<Seq<char>> {
    let (lines, begun) = scanned(text);
    if begun.len() > 0 {
        lines.push(begun)
    } else {
        lines
    }
}

/// Calls `Iterator::collect::<String>` on the characters.
///
/// Trusted: the text holds the characters in their order.
#[verifier::external_body]
fn text_of(chars: &Vec<char>) -> (r: String)
    ensures
        r@ == chars@,
{
    chars.iter().collect()
}

/// The lines of `text`.
pub fn lines(text: &str) -> (r: Vec<String>)
    ensures
        texts(r@) == lines_of(text@),
{
    broadcast use vstd::string::group_string_axioms;

    let mut r: Vec<String> = Vec::new();
    let mut begun: Vec<char> = Vec::new();
    let chars = text.chars();
    for c in it: chars
        invariant
            it.seq() == text@,
            (texts(r@), begun@) == scanned(text@.take(it.index())),
    {
        proof {
            assert(text@.take(it.index() + 1).drop_last() =~= text@.take(it.index()));
        }
        if c == '\n' {
            let ghost raw = begun@;
            let n = begun.len();
            if n > 0 && begun[n - 1] == '\r' {
                begun.pop();
            }
            assert(begun@ =~= without_carriage_return(raw));
            let ghost before = texts(r@);
            r.push(text_of(&begun));
            assert(texts(r@) =~= before.push(without_carriage_return(raw)));
            begun = Vec::new();
        } else {
            begun.push(c);
        }
    }
    assert(text@.take(text@.len() as int) =~= text@);
    if begun.len() > 0 {
        let ghost before = texts(r@);
        r.push(text_of(&begun));
        assert(texts(r@) =~= before.push(begun@));
    }
    r
}

/// The dates that `lines` hold, in their order; a line that is no date is
/// passed over.
pub open spec fn dates_in(lines: Seq<Seq<char>>) -> Seq<CommitDate>
    decreases lines.len(),
{
    if lines.len() == 0 {
        Seq::empty()
    } else {
        let before = dates_in(lines.drop_last());
        match parsed_date(lines.last()) {
            Some(numbers) => before.push(CommitDate::from_view(numbers)),
            None => before,
        }
    }
}

/// The events that the log `output` of the repository `repo` records.
pub open spec fn log_events(output: Seq<char>, repo: ProjectMetadata) -> Seq<Event> {
    dates_in(lines_of(output)).map_values(|date: CommitDate| (date, repo))
}

/// The events that the logs of all repositories record, repository by
/// repository.
pub open spec fn all_events(logs: Seq<(ProjectMetadata, String)>) -> Seq<Event>
    decreases logs.len(),
{
    if logs.len() == 0 {
        Seq::empty()
    } else {
        all_events(logs.drop_last()) + log_events(logs.last().1@, logs.last().0)
    }
}

/// Appends the events that the log `output` of the repository `repo` records
/// to `events`.
fn push_log_events(events: &mut Vec<Event>, output: &str, repo: &ProjectMetadata)
    ensures
        final(events)@ == old(events)@ + log_events(output@, *repo),
{
    let all = lines(output);
    let mut i: usize = 0;
    assert(texts(all@).take(0) =~= Seq::<Seq<char>>::empty());
    assert(events@ =~= old(events)@ + dates_in(texts(all@).take(0)).map_values(
        |date: CommitDate| (date, *repo),
    ));
    while i < all.len()
        invariant
            i <= all.len(),
            texts(all@) == lines_of(output@),
            events@ == old(events)@ + dates_in(texts(all@).take(i as int)).map_values(
                |date: CommitDate| (date, *repo),
            ),
        decreases all.len() - i,
    {
        proof {
            assert(texts(all@).take(i + 1).drop_last() =~= texts(all@).take(i as int));
            assert(texts(all@).take(i + 1).last() == all[i as int]@);
        }
        match CommitDate::parse(all[i].as_str()) {
            Some(date) => {
                proof {
                    date.lemma_from_view();
                }
                events.push((date, repo.clone()));
            },
            None => {},
        }
        i = i + 1;
        assert(events@ =~= old(events)@ + dates_in(texts(all@).take(i as int)).map_values(
            |date: CommitDate| (date, *repo),
        ));
    }
    assert(texts(all@).take(all.len() as int) =~= texts(all@));
}

/// Reads the events out of the logs of the repositories: one for every line
/// of a log that holds a date, tied to the repository of the log, in the
/// order of the repositories and of the lines.
pub fn find_dates(logs: &Vec<(ProjectMetadata, String)>) -> (r: Vec<Event>)
    ensures
        r@ == all_events(logs@),
{
    let mut r: Vec<Event> = Vec::new();
    let mut i: usize = 0;
    assert(logs@.take(0) =~= Seq::<(ProjectMetadata, String)>::empty());
    while i < logs.len()
        invariant
            i <= logs.len(),
            r@ == all_events(logs@.take(i as int)),
        decreases logs.len() - i,
    {
        proof {
            assert(logs@.take(i + 1).drop_last() =~= logs@.take(i as int));
        }
        push_log_events(&mut r, logs[i].1.as_str(), &logs[i].0);
        i = i + 1;
    }
    assert(logs@.take(logs.len() as int) =~= logs@);
    r
}

} // verus!
