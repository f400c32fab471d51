//! What is reported about the progress of the program.
//!
//! Nothing is printed here: the functions decide what is to be written to
//! the terminal and keep track of what was written, and the program around
//! the library writes it.

use crate::model::Verbosity;
use vstd::prelude::*;
use vstd::string::*;

verus! {

/// How long, in milliseconds, a line that is updated in place stays before
/// the next update is shown.
pub const UPDATE_INTERVAL: u64 = 20;

/// The width that is assumed for a terminal of unknown size.
pub const DEFAULT_WIDTH: usize = 70;

/// The least width that lines are laid out for.
pub const MIN_WIDTH: usize = 4;

/// What the reports depend on.
#[derive(Clone, Copy, Debug)]
pub struct LogState {
    /// Whether progress is reported.
    pub verbose: bool,
    /// Whether nothing is printed at all.
    pub quiet: bool,
    /// When a line was last updated in place, in milliseconds.
    pub last_update: Option<u64>,
    /// Whether the last print was an update in place.
    pub last_print_was_update: bool,
}

/// The state before anything is set or printed.
pub open spec fn silent() -> LogState {
    LogState { verbose: false, quiet: false, last_update: None, last_print_was_update: false }
}

/// The width that lines are laid out for in a terminal with `columns`
/// columns: one less than the terminal has, and 4 at least.
pub open spec fn line_width(columns: Option<usize>) -> int {
    let width = match columns {
        Some(columns) => if columns == 0 {
            0
        } else {
            columns - 1
        },
        None => DEFAULT_WIDTH as int,
    };
    if width < MIN_WIDTH {
        MIN_WIDTH as int
    } else {
        width
    }
}

/// A run of `width` blanks.
pub open spec fn blanks(width: int) -> Seq<char> {
    Seq::new(width as nat, |i: int| ' ')
}

/// The message as it fits into a line of `width`: cut off and closed by
/// three dots where it is too long.
pub open spec fn fitted(message: Seq<char>, width: int) -> Seq<char> {
    if message.len() >= width - 1 {
        message.take(width - 4) + "..."@
    } else {
        message
    }
}

/// A message with the time at which it is printed.
pub open spec fn stamped(timestamp: Seq<char>, message: Seq<char>) -> Seq<char> {
    "["@ + timestamp + "] "@ + message
}

/// Whether an update at `now` comes too soon after the last one.
pub open spec fn throttled(state: LogState, now: int) -> bool {
    match state.last_update {
        Some(last) => now - last < UPDATE_INTERVAL,
        None => false,
    }
}

/// The state before anything is set or printed.
pub fn new_state() -> (r: LogState)
    ensures
        r == silent(),
{
    LogState { verbose: false, quiet: false, last_update: None, last_print_was_update: false }
}

/// Sets how much is reported.
pub fn set_verbosity(state: &mut LogState, verbosity: &Verbosity)
    ensures
        *final(state) == (LogState {
            verbose: verbosity.verbose,
            quiet: verbosity.quiet,
            ..*old(state)
        }),
{
    state.verbose = verbosity.verbose;
    state.quiet = verbosity.quiet;
}

/// The line to print for `message`, or nothing if prints are disabled.
pub fn println(state: &LogState, message: &str, timestamp: &str) -> (r: Option<String>)
    ensures
        r.is_none() == state.quiet,
        r matches Some(line) ==> line@ == stamped(timestamp@, message@),
{
    if state.quiet {
        None
    } else {
        Some(stamp(timestamp, message))
    }
}

/// A message with the time at which it is printed.
fn stamp(timestamp: &str, message: &str) -> (r: String)
    ensures
        r@ == stamped(timestamp@, message@),
{
    let mut line = "[".to_owned();
    line.append(timestamp);
    line.append("] ");
    line.append(message);
    line
}

/// Appends `width` blanks to `out`.
fn push_blanks(out: &mut String, width: usize)
    ensures
        final(out)@ == old(out)@ + blanks(width as int),
{
    proof {
        reveal_strlit(" ");
    }
    let mut i: usize = 0;
    while i < width
        invariant
            i <= width,
            " "@ == seq![' '],
            out@ == old(out)@ + blanks(i as int),
        decreases width - i,
    {
        out.append(" ");
        i = i + 1;
        assert(out@ =~= old(out)@ + blanks(i as int));
    }
}

/// What is written to the terminal for a progress message, and nothing if
/// progress is not reported.
///
/// A message that updates a line in place clears the line and writes the
/// message over it, fitted to the width, unless the last update is less
/// than 20 ms old. Any other message first clears a line that was updated
/// in place and then stands on a line of its own, with the time.
pub fn verbose_println(
    state: &mut LogState,
    message: &str,
    updating_line: bool,
    columns: Option<usize>,
    now: u64,
    timestamp: &str,
) -> (r: Option<String>)
    ensures
        !old(state).verbose ==> r.is_none() && *final(state) == *old(state),
        old(state).verbose && updating_line && throttled(*old(state), now as int) ==> r.is_none()
            && *final(state) == *old(state),
        old(state).verbose && updating_line && !throttled(*old(state), now as int) ==> {
            &&& *final(state) == (LogState {
                last_update: Some(now),
                last_print_was_update: true,
                ..*old(state)
            })
            &&& r matches Some(text)
            &&& text@ == blanks(line_width(columns)) + "\r"@ + fitted(
                message@,
                line_width(columns),
            ) + "\r"@
        },
        old(state).verbose && !updating_line ==> {
            &&& *final(state) == (LogState {
                last_update: if old(state).last_print_was_update {
                    None
                } else {
                    old(state).last_update
                },
                last_print_was_update: false,
                ..*old(state)
            })
            &&& r matches Some(text)
            &&& text@ == (if old(state).last_print_was_update {
                blanks(line_width(columns)) + "\r"@
            } else {
                Seq::empty()
            }) + stamped(timestamp@, message@) + "\n"@
        },
{
    if !state.verbose {
        return None;
    }
    let columns_less_one: usize = match columns {
        Some(columns) => if columns == 0 {
            0
        } else {
            columns - 1
        },
        None => DEFAULT_WIDTH,
    };
    let width: usize = if columns_less_one < MIN_WIDTH {
        MIN_WIDTH
    } else {
        columns_less_one
    };
    let mut text = String::new();
    if updating_line {
        match state.last_update {
            Some(last) => {
                if now < last || now - last < UPDATE_INTERVAL {
                    return None;
                }
            },
            None => {},
        }
        state.last_update = Some(now);
        push_blanks(&mut text, width);
        text.append("\r");
        if message.unicode_len() >= width - 1 {
            text.append(message.substring_char(0, width - 4));
            text.append("...");
        } else {
            text.append(message);
        }
        text.append("\r");
        state.last_print_was_update = true;
        assert(text@ =~= blanks(line_width(columns)) + "\r"@ + fitted(message@, line_width(columns))
            + "\r"@);
    } else {
        if state.last_print_was_update {
            push_blanks(&mut text, width);
            text.append("\r");
            state.last_update = None;
        }
        state.last_print_was_update = false;
        let line = stamp(timestamp, message);
        text.append(line.as_str());
        text.append("\n");
        assert(text@ =~= (if old(state).last_print_was_update {
            blanks(line_width(columns)) + "\r"@
        } else {
            Seq::empty()
        }) + stamped(timestamp@, message@) + "\n"@);
    }
    Some(text)
}

} // verus!
