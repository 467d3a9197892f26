//! How tasks are brought to an end.
use vstd::prelude::*;

use crate::text;
use crate::time;
use crate::time::Duration;

verus! {

pub const DEFAULT_DRAIN_TIMEOUT_SECS: u64 = 5;

/// How long tasks are given to end by themselves.
pub fn default_drain_timeout() -> (d: Duration)
    ensures
        d.nanos == DEFAULT_DRAIN_TIMEOUT_SECS * time::NANOS_PER_SEC,
{
    Duration::from_secs(DEFAULT_DRAIN_TIMEOUT_SECS)
}

/// What is done once the time for the tasks to end is over, or they have ended.
#[derive(Debug, Clone, PartialEq, Eq)]
pub enum DrainAction {
    /// All have ended.
    Done { log: String },
    /// The rest has to be cut off and waited for.
    AbortAll { log: String },
}

/// What is logged when all tasks have ended by themselves.
pub open spec fn complete_log(label: Seq<char>) -> Seq<char> {
    label + " graceful shutdown complete"@
}

/// What is logged when tasks are cut off.
pub open spec fn abort_log(label: Seq<char>, remaining: nat) -> Seq<char> {
    label + " graceful shutdown timed out, aborted "@ + text::decimal(remaining)
        + " remaining task(s)"@
}

/// What is done after tasks were given their time: nothing more if all ended in it, and
/// otherwise the `remaining` ones are cut off.
pub fn after_grace(label: &str, ended_in_time: bool, remaining: u64) -> (r: DrainAction)
    ensures
        match r {
            DrainAction::Done { log } => ended_in_time && log@ == complete_log(label@),
            DrainAction::AbortAll { log } => !ended_in_time && log@ == abort_log(
                label@,
                remaining as nat,
            ),
        },
{
    if ended_in_time {
        DrainAction::Done { log: text::join2(label, " graceful shutdown complete") }
    } else {
        let mut log = text::join2(label, " graceful shutdown timed out, aborted ");
        text::push_decimal(&mut log, remaining);
        log.append(" remaining task(s)");
        DrainAction::AbortAll { log }
    }
}

/// What is logged of a task that has ended, if anything: only that it did not end well.
pub fn joined_log(label: &str, panicked: &Option<String>) -> (r: Option<String>)
    ensures
        match (r, *panicked) {
            (Some(log), Some(what)) => log@ == label@ + " task panicked: "@ + what@,
            (None, None) => true,
            _ => false,
        },
{
    match panicked {
        Some(what) => Some(text::join3(label, " task panicked: ", what.as_str())),
        None => None,
    }
}

/// What is logged at the end names what ended, and where tasks were cut off, how many.
pub proof fn law_end_is_logged(label: Seq<char>, remaining: nat)
    ensures
        complete_log(label) == label + " graceful shutdown complete"@,
        abort_log(label, remaining) == label + " graceful shutdown timed out, aborted "@
            + text::decimal(remaining) + " remaining task(s)"@,
        DEFAULT_DRAIN_TIMEOUT_SECS == 5,
{
}

/// Tasks are cut off if and only if they did not end in time, however many are left; and of a
/// task that has ended something is logged if and only if it did not end well.
pub proof fn law_only_late_tasks_are_cut_off(
    label: &str,
    in_time: bool,
    remaining: u64,
    panicked: &Option<String>,
    action: DrainAction,
    log: Option<String>,
)
    requires
        call_ensures(after_grace, (label, in_time, remaining), action),
        call_ensures(joined_log, (label, panicked), log),
    ensures
        action is Done <==> in_time,
        action is AbortAll <==> !in_time,
        log is Some <==> *panicked is Some,
{
}

} // verus!
