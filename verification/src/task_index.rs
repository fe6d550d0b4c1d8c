//! Freshness of the derived task index.
//!
//! The index is stale when the number of task records differs from the
//! number it holds, or when a task record was modified after the index.

use vstd::prelude::*;
use crate::schema::{TaskIndexDocument, Timestamp};

verus! {

/// Whether the index is up to date with the task records.
#[derive(Debug, Clone, Copy, PartialEq, Eq, Structural)]
pub enum TaskIndexStatus {
    Missing,
    Fresh,
    Stale,
}

/// Whether `a` is strictly earlier than `b`.
pub open spec fn time_lt(a: Timestamp, b: Timestamp) -> bool {
    a.secs < b.secs || (a.secs == b.secs && a.nanos < b.nanos)
}

/// Whether an index holding `expected` tasks and modified at
/// `index_time` is stale, given the modification times of the task
/// records present (a time before the epoch counts as the epoch). An
/// index modified before the epoch (`None`) is older than the epoch, from
/// which the newest task time is reckoned, and so is stale.
pub open spec fn is_stale(expected: nat, index_time: Option<Timestamp>, task_times: Seq<Timestamp>) -> bool {
    ||| task_times.len() != expected
    ||| index_time is None
    ||| exists|i: int| 0 <= i < task_times.len() && time_lt(index_time->0, #[trigger] task_times[i])
}

/// Whether the index is stale.
pub fn index_is_stale(expected: usize, index_time: Option<Timestamp>, task_times: &Vec<Timestamp>) -> (r: bool)
    ensures
        r == is_stale(expected as nat, index_time, task_times@),
{
    if task_times.len() != expected {
        return true;
    }
    let at = match index_time {
        None => return true,
        Some(t) => t,
    };
    let mut i: usize = 0;
    while i < task_times.len()
        invariant
            i <= task_times.len(),
            index_time == Some(at),
            forall|k: int| 0 <= k < i ==> !time_lt(at, #[trigger] task_times@[k]),
        decreases task_times.len() - i,
    {
        let t = task_times[i];
        if at.secs < t.secs || (at.secs == t.secs && at.nanos < t.nanos) {
            return true;
        }
        i = i + 1;
    }
    false
}

/// The status of the index: `Missing` when there is none, otherwise
/// `Stale` or `Fresh` as [`is_stale`] decides. `indexed_tasks` is the
/// number of tasks the index holds, when there is an index.
pub fn task_index_status(
    indexed_tasks: Option<usize>,
    index_time: Option<Timestamp>,
    task_times: &Vec<Timestamp>,
) -> (s: TaskIndexStatus)
    ensures
        indexed_tasks is None ==> s == TaskIndexStatus::Missing,
        indexed_tasks matches Some(n) ==> s == (if is_stale(n as nat, index_time, task_times@) {
            TaskIndexStatus::Stale
        } else {
            TaskIndexStatus::Fresh
        }),
{
    match indexed_tasks {
        None => TaskIndexStatus::Missing,
        Some(n) => if index_is_stale(n, index_time, task_times) {
            TaskIndexStatus::Stale
        } else {
            TaskIndexStatus::Fresh
        },
    }
}

/// The tasks of the index when it is present and fresh.
pub fn read_indexed_tasks<T>(
    index: Option<TaskIndexDocument<T>>,
    index_time: Option<Timestamp>,
    task_times: &Vec<Timestamp>,
) -> (r: Option<Vec<T>>)
    ensures
        index is None ==> r is None,
        index matches Some(d) ==> (if is_stale(d.tasks@.len(), index_time, task_times@) {
            r is None
        } else {
            r matches Some(ts) && ts@ == d.tasks@
        }),
{
    match index {
        None => None,
        Some(doc) => {
            let n = doc.tasks.len();
            if index_is_stale(n, index_time, task_times) {
                None
            } else {
                Some(doc.tasks)
            }
        },
    }
}


/// The instant a timestamp denotes, in nanoseconds since the epoch.
pub open spec fn instant(t: Timestamp) -> int {
    t.secs * 1_000_000_000 + t.nanos
}

/// `time_lt` is the order of the instants the timestamps denote: one time
/// is earlier than another exactly when it lies fewer nanoseconds after
/// the epoch.
pub proof fn lemma_time_order(a: Timestamp, b: Timestamp)
    requires
        a.nanos < 1_000_000_000,
        b.nanos < 1_000_000_000,
    ensures
        time_lt(a, b) <==> instant(a) < instant(b),
{
    if a.secs < b.secs {
        assert(a.secs * 1_000_000_000 + 1_000_000_000 <= b.secs * 1_000_000_000) by (nonlinear_arith)
            requires
                a.secs < b.secs,
        ;
    } else if b.secs < a.secs {
        assert(b.secs * 1_000_000_000 + 1_000_000_000 <= a.secs * 1_000_000_000) by (nonlinear_arith)
            requires
                b.secs < a.secs,
        ;
    }
}

/// An index is stale exactly when the number of task records differs
/// from what it holds, when it was modified before the epoch, or when
/// some task record was modified at a later instant than the index.
pub proof fn lemma_stale_by_instants(expected: nat, index_time: Option<Timestamp>, task_times: Seq<Timestamp>)
    requires
        index_time matches Some(t) ==> t.nanos < 1_000_000_000,
        forall|i: int| 0 <= i < task_times.len() ==> (#[trigger] task_times[i]).nanos < 1_000_000_000,
    ensures
        is_stale(expected, index_time, task_times) <==> (task_times.len() != expected || index_time is None
            || exists|i: int| 0 <= i < task_times.len() && instant(index_time->0) < instant(#[trigger] task_times[i])),
{
    if let Some(t) = index_time {
        assert forall|i: int| 0 <= i < task_times.len() implies (time_lt(t, #[trigger] task_times[i]) <==> instant(t)
            < instant(task_times[i])) by {
            lemma_time_order(t, task_times[i]);
        }
    }
}

}
