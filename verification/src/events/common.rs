//! Metadata shared by every event: when and where it was generated, and by
//! which task.

use vstd::prelude::*;

verus! {

/// A point in time or a time offset, as seconds and nanoseconds.
#[derive(Clone, Copy, Debug, PartialEq, Eq, Structural)]
pub struct TimeSpec {
    pub sec: i64,
    pub nsec: i64,
}

/// Metadata written once at the head of an event stream.
#[derive(Clone, Debug, PartialEq, Eq)]
pub struct CommonEventMd {
    pub retis_version: String,
    /// CLOCK_MONOTONIC offset in regards to local machine time.
    pub clock_monotonic_offset: TimeSpec,
}

/// The task that was running when an event was generated.
#[derive(Clone, Debug, PartialEq, Eq)]
pub struct TaskEvent {
    /// Process id.
    pub pid: i32,
    /// Thread group id.
    pub tgid: i32,
    /// Name of the current task.
    pub comm: String,
}

/// Mathematical image of a [`TaskEvent`].
pub ghost struct TaskModel {
    pub pid: i32,
    pub tgid: i32,
    pub comm: Seq<char>,
}

impl View for TaskEvent {
    type V = TaskModel;

    open spec fn view(&self) -> TaskModel {
        TaskModel { pid: self.pid, tgid: self.tgid, comm: self.comm@ }
    }
}

/// Common event section.
#[derive(Clone, Debug, PartialEq, Eq)]
pub struct CommonEvent {
    /// Timestamp of when the event was generated.
    pub timestamp: u64,
    /// SMP processor id.
    pub smp_id: u32,
    pub task: Option<TaskEvent>,
}

/// Mathematical image of a [`CommonEvent`].
pub ghost struct CommonModel {
    pub timestamp: u64,
    pub smp_id: u32,
    pub task: Option<TaskModel>,
}

impl View for CommonEvent {
    type V = CommonModel;

    open spec fn view(&self) -> CommonModel {
        CommonModel {
            timestamp: self.timestamp,
            smp_id: self.smp_id,
            task: match self.task {
                Some(t) => Some(t@),
                None => None,
            },
        }
    }
}

impl CommonEvent {
    /// A common section with every field zeroed and no task.
    pub fn new() -> (r: CommonEvent)
        ensures
            r@ == (CommonModel { timestamp: 0, smp_id: 0, task: None }),
    {
        CommonEvent { timestamp: 0, smp_id: 0, task: None }
    }
}

} // verus!
