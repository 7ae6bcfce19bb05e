//! When scans run: one at startup, one whenever the interval has elapsed since
//! the last one, and one whenever a scan is asked for.

use vstd::prelude::*;

verus! {

/// What the scheduler learns.
#[derive(Debug, Clone, Copy, PartialEq, Eq, Structural)]
pub enum SchedulerEvent {
    /// The scheduler has just started.
    Started,
    /// The interval elapsed while it was waiting.
    IntervalElapsed,
    /// A scan was asked for.
    Triggered,
    /// The scan ended, well or not.
    ScanEnded,
}

/// What the scheduler does next.
#[derive(Debug, Clone, Copy, PartialEq, Eq, Structural)]
pub enum SchedulerAction {
    /// Ask for a scan, then wait.
    TriggerAndWait,
    /// Wait until the interval elapses or a scan is asked for.
    Wait,
    /// Run a scan.
    Scan,
}

/// What the scheduler does about an event.
pub open spec fn action_for(event: SchedulerEvent) -> SchedulerAction {
    match event {
        SchedulerEvent::Started => SchedulerAction::TriggerAndWait,
        SchedulerEvent::IntervalElapsed | SchedulerEvent::Triggered => SchedulerAction::Scan,
        SchedulerEvent::ScanEnded => SchedulerAction::Wait,
    }
}

/// The next action of the scheduler. A scan that failed is followed by waiting
/// as any other is.
pub fn next_action(event: SchedulerEvent) -> (action: SchedulerAction)
    ensures
        action == action_for(event),
{
    match event {
        SchedulerEvent::Started => SchedulerAction::TriggerAndWait,
        SchedulerEvent::IntervalElapsed => SchedulerAction::Scan,
        SchedulerEvent::Triggered => SchedulerAction::Scan,
        SchedulerEvent::ScanEnded => SchedulerAction::Wait,
    }
}

} // verus!
