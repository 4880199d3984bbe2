//! The rules by which a front end shows tasks: how urgent a task is, which
//! task is selected, when to refresh, and how a failure is worded.

use crate::tasks::{task_identity, Task};
use crate::text::{is_prefix, push_char, starts_with, str_eq};
use crate::time::Timestamp;
use vstd::prelude::*;
use vstd::std_specs::iter::IteratorSpec;
use vstd::string::*;

verus! {

/// How close the due date of a task is.
#[derive(Clone, Copy, Debug, PartialEq, Eq, Structural)]
pub enum Urgency {
    /// The due date has been reached.
    Overdue,
    /// Less than 24 hours are left.
    Pressing,
    /// Less than 48 hours are left.
    Near,
    /// 48 hours or more are left, or the task has no due date.
    Relaxed,
}

/// The nanoseconds in a number of hours.
pub open spec fn hours(n: int) -> int {
    n * 3600 * 1_000_000_000
}

/// The nanoseconds from one instant to another, counted on their seconds
/// and nanoseconds.
pub open spec fn nanoseconds_between(from: Timestamp, to: Timestamp) -> int {
    (to.secs - from.secs) * 1_000_000_000 + (to.nanos - from.nanos)
}

/// How close a due date is at `now`.
pub open spec fn urgency_at(due: Option<Timestamp>, now: Timestamp) -> Urgency {
    match due {
        None => Urgency::Relaxed,
        Some(due) => if !now.before(due) {
            Urgency::Overdue
        } else if nanoseconds_between(now, due) < hours(24) {
            Urgency::Pressing
        } else if nanoseconds_between(now, due) < hours(48) {
            Urgency::Near
        } else {
            Urgency::Relaxed
        },
    }
}

/// How close a due date is at `now`: overdue once it is reached, pressing
/// in its last 24 hours, near in its last 48.
pub fn urgency(due: &Option<Timestamp>, now: &Timestamp) -> (r: Urgency)
    ensures
        r == urgency_at(*due, *now),
{
    match due {
        None => Urgency::Relaxed,
        Some(due) => {
            if !now.is_before(due) {
                Urgency::Overdue
            } else {
                let left: i128 = (due.secs as i128 - now.secs as i128) * 1_000_000_000 + (
                due.nanos as i128 - now.nanos as i128);
                if left < 86_400_000_000_000 {
                    Urgency::Pressing
                } else if left < 172_800_000_000_000 {
                    Urgency::Near
                } else {
                    Urgency::Relaxed
                }
            }
        },
    }
}

/// Whether the description of a task is shown as a link: it begins with
/// `https://`.
pub fn is_link(description: &str) -> (r: bool)
    ensures
        r == is_prefix("https://"@, description@),
{
    starts_with(description, "https://")
}

/// Whether one of the tasks has the identity `selection`.
pub open spec fn is_shown(tasks: Seq<Task>, selection: Seq<char>) -> bool {
    exists|i: int| 0 <= i < tasks.len() && task_identity((#[trigger] tasks[i])@) == selection
}

/// Whether one of the tasks has the identity `selection`: a selection
/// whose task is gone is to be dropped.
pub fn selection_is_shown(tasks: &Vec<Task>, selection: &str) -> (r: bool)
    ensures
        r == is_shown(tasks@, selection@),
{
    let mut i: usize = 0;
    while i < tasks.len()
        invariant
            i <= tasks.len(),
            forall|j: int| 0 <= j < i ==> task_identity((#[trigger] tasks@[j])@) != selection@,
        decreases tasks.len() - i,
    {
        let id = tasks[i].get_id();
        if str_eq(id.as_str(), selection) {
            return true;
        }
        i = i + 1;
    }
    false
}

/// The selection after the button of the task with the identity `id` was
/// pressed: none where that task was selected, that task otherwise.
pub fn toggle_selection(selected: Option<String>, id: String) -> (r: Option<String>)
    ensures
        match selected {
            Some(current) if current@ == id@ => r is None,
            _ => r == Some(id),
        },
{
    match selected {
        Some(current) => {
            if str_eq(current.as_str(), id.as_str()) {
                None
            } else {
                Some(id)
            }
        },
        None => Some(id),
    }
}

/// Whether it is time for a refresh: more seconds have passed since the
/// last one than the refresh rate.
pub fn refresh_is_due(elapsed_seconds: u64, refresh_rate_seconds: u64) -> (r: bool)
    ensures
        r == (elapsed_seconds > refresh_rate_seconds),
{
    elapsed_seconds > refresh_rate_seconds
}

/// A text broken into lines of `width` characters: a line break after
/// every `width` characters that are followed by more.
pub open spec fn wrapped(text: Seq<char>, width: nat) -> Seq<char>
    decreases text.len(),
{
    if width == 0 || text.len() <= width {
        text
    } else {
        text.take(width as int) + seq!['\n'] + wrapped(text.skip(width as int), width)
    }
}

/// Breaks a text into lines of `width` characters. See `wrapped`.
pub fn wrap(text: &str, width: usize) -> (r: String)
    ensures
        r@ == wrapped(text@, width as nat),
{
    if width == 0 {
        return text.to_owned();
    }
    let mut out = String::new();
    let mut chars = text.chars();
    let mut in_line: usize = 0;
    let ghost mut n: int = 0;
    let ghost mut line_start: int = 0;
    proof {
        assert(text@.skip(0) =~= text@);
    }
    loop
        invariant_except_break
            width > 0,
            0 <= line_start <= n <= text@.len(),
            in_line == n - line_start,
            in_line <= width,
            chars.obeys_prophetic_iter_laws(),
            chars.remaining() == text@.skip(n),
            wrapped(text@, width as nat) == out@.subrange(0, out@.len() - in_line) + wrapped(
                text@.skip(line_start),
                width as nat,
            ),
            out@.len() >= in_line,
            out@.subrange(out@.len() - in_line, out@.len() as int) == text@.subrange(line_start, n),
        ensures
            out@ == wrapped(text@, width as nat),
        decreases text@.len() - n,
    {
        match chars.next() {
            None => {
                break ;
            },
            Some(c) => {
                if in_line == width {
                    push_char(&mut out, '\n');
                    push_char(&mut out, c);
                    proof {
                        // The line is full: what is left of the text
                        // begins behind it.
                        assert(text@.skip(line_start).skip(width as int) =~= text@.skip(n));
                        line_start = n;
                    }
                    in_line = 1;
                } else {
                    push_char(&mut out, c);
                    in_line = in_line + 1;
                }
                proof {
                    n = n + 1;
                }
            },
        }
    }
    out
}

/// What the user has set: the seconds between two refreshes, and whether
/// the dark colours are used.
#[derive(Clone, Copy, Debug, PartialEq, Eq, Structural)]
pub struct Settings {
    pub refresh_rate_seconds: u64,
    pub dark_mode: bool,
}

impl Default for Settings {
    fn default() -> (r: Settings)
        ensures
            r == (Settings { refresh_rate_seconds: 15, dark_mode: false }),
    {
        Settings { refresh_rate_seconds: 15, dark_mode: false }
    }
}

} // verus!
