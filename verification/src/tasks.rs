//! The CPU task scheduler's results and statistics: the errors a task can
//! end with, the statistics snapshot, and the rules for sizing the pool
//! and recording task durations.

use vstd::prelude::*;
use crate::workers::append_str;

verus! {

/// How a scheduled task failed.
pub enum TaskError {
    /// The scheduler dropped the task before it finished.
    Canceled,
    /// The task panicked.
    Panicked { task: String, message: String },
}

/// The message of a task error.
pub open spec fn task_error_text(e: TaskError) -> Seq<char> {
    match e {
        TaskError::Canceled => "task canceled before completion"@,
        TaskError::Panicked { task, message } => "task '"@ + task@ + "' panicked: "@ + message@,
    }
}

impl TaskError {
    /// The error's message.
    pub fn message(&self) -> (r: String)
        ensures
            r@ == task_error_text(*self),
    {
        match self {
            TaskError::Canceled => String::from_str("task canceled before completion"),
            TaskError::Panicked { task, message } => {
                let mut s = String::from_str("task '");
                append_str(&mut s, task.as_str());
                append_str(&mut s, "' panicked: ");
                append_str(&mut s, message.as_str());
                s
            },
        }
    }
}

/// The message when a scheduled job of the HTTP client (`context`) fails.
pub open spec fn scheduler_error_text(context: Seq<char>, e: TaskError) -> Seq<char> {
    match e {
        TaskError::Canceled => context + " cancelled by scheduler"@,
        TaskError::Panicked { message, .. } => context + " panicked: "@ + message@,
    }
}

/// Renders [`scheduler_error_text`].
pub fn scheduler_error_message(context: &str, err: &TaskError) -> (r: String)
    ensures
        r@ == scheduler_error_text(context@, *err),
{
    let mut s = String::new();
    append_str(&mut s, context);
    match err {
        TaskError::Canceled => append_str(&mut s, " cancelled by scheduler"),
        TaskError::Panicked { message, .. } => {
            append_str(&mut s, " panicked: ");
            append_str(&mut s, message.as_str());
        },
    }
    s
}

/// Latency percentiles (microseconds), queue depth and task count of the
/// scheduler.
pub struct SchedulerSnapshot {
    pub p50_us: u64,
    pub p95_us: u64,
    pub p99_us: u64,
    pub queue_depth: u64,
    pub total_tasks: u64,
}

impl SchedulerSnapshot {
    /// The snapshot before any task ran: all zero.
    pub fn empty() -> (r: SchedulerSnapshot)
        ensures
            r.p50_us == 0 && r.p95_us == 0 && r.p99_us == 0 && r.queue_depth == 0 && r.total_tasks == 0,
    {
        SchedulerSnapshot { p50_us: 0, p95_us: 0, p99_us: 0, queue_depth: 0, total_tasks: 0 }
    }

    /// The snapshot with the current queue depth filled in.
    pub fn with_queue_depth(self, depth: u64) -> (r: SchedulerSnapshot)
        ensures
            r.queue_depth == depth,
            r.p50_us == self.p50_us && r.p95_us == self.p95_us && r.p99_us == self.p99_us,
            r.total_tasks == self.total_tasks,
    {
        SchedulerSnapshot { queue_depth: depth, ..self }
    }
}

/// Worker threads for a requested pool size: at least one.
pub fn worker_threads(requested: usize) -> (r: usize)
    ensures
        r == if requested > 1 { requested } else { 1 },
{
    if requested > 1 { requested } else { 1 }
}

/// Worker threads of the shared scheduler for a machine with `cpus`
/// processors: at least two.
pub fn global_worker_threads(cpus: usize) -> (r: usize)
    ensures
        r == if cpus > 2 { cpus } else { 2 },
{
    if cpus > 2 { cpus } else { 2 }
}

/// The recorded value of a task duration given in microseconds: at least
/// one, cut to 64 bits.
pub fn sample_micros(micros: u128) -> (r: u64)
    ensures
        r == (if micros == 0 { 1u128 } else { micros }) as u64,
{
    let m = if micros == 0 { 1u128 } else { micros };
    m as u64
}

/// Tasks recorded after a batch of `batch` durations (the counter wraps).
pub fn add_tasks(total: u64, batch: usize) -> (r: u64)
    ensures
        r == (total + batch) % 0x1_0000_0000_0000_0000,
{
    let b = batch as u64;
    assert(b == batch);
    total.wrapping_add(b)
}

} // verus!
