//! What the scheduler is told about the collectors of a target.

use vstd::prelude::*;

verus! {

/// A collector.
#[derive(Clone, Copy, Debug, PartialEq, Eq, Structural)]
pub enum CollectorName {
    Pyki,
    CUPTI,
}

/// Something that happened to a collector of the process with a PID.
#[derive(Clone, Copy, Debug, PartialEq, Eq, Structural)]
pub enum SchedulerEvent {
    /// A collector that was waiting has started.
    StartPendingCollector(CollectorName, i32),
    /// A collector has stopped.
    StopCollector(CollectorName, i32),
    /// A collector has written what it collected.
    WritingFinish(CollectorName, i32),
    /// A collector failed. Nothing more is to be waited for.
    CollectFailed(CollectorName, i32),
}

impl SchedulerEvent {
    /// The PID that an event is about.
    pub open spec fn pid(self) -> i32 {
        match self {
            SchedulerEvent::StartPendingCollector(_, pid) => pid,
            SchedulerEvent::StopCollector(_, pid) => pid,
            SchedulerEvent::WritingFinish(_, pid) => pid,
            SchedulerEvent::CollectFailed(_, pid) => pid,
        }
    }
}

} // verus!
