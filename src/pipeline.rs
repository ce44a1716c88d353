//! The steps of one report cycle and the order in which they run.

use vstd::prelude::*;

verus! {

/// The step of a report cycle that runs next, or how the cycle ended.
#[derive(Clone, Copy, Debug, PartialEq, Eq, Structural)]
pub enum CycleStep {
    /// Reconnect to the database; a failure here is not fatal.
    ReconnectDatabase,
    /// Fetch the setups and keep the long ones.
    FetchEvents,
    /// Reconnect to the mail server; a failure here is not fatal. `reported`
    /// setups are waiting to be sent.
    ReconnectMailer { reported: usize },
    /// Send the report of `reported` setups, at least one.
    SendReport { reported: usize },
    /// The cycle succeeded; `sent` tells whether a report went out.
    Completed { sent: bool },
    /// Fetching or sending failed; the whole cycle is to be retried.
    Failed,
}

/// How the step that ran turned out.
#[derive(Clone, Copy, Debug, PartialEq, Eq, Structural)]
pub enum CycleEvent {
    StepSucceeded,
    StepFailed,
    /// The fetch succeeded and `reported` setups exceed their limits.
    Fetched { reported: usize },
}

impl CycleStep {
    /// A report is only sent when it holds a setup.
    pub open spec fn valid(self) -> bool {
        match self {
            CycleStep::SendReport { reported } => reported > 0,
            _ => true,
        }
    }

    pub open spec fn finished(self) -> bool {
        self is Completed || self is Failed
    }

    /// Every cycle begins by reconnecting to the database.
    pub fn start() -> (r: CycleStep)
        ensures
            r == CycleStep::ReconnectDatabase,
    {
        CycleStep::ReconnectDatabase
    }

    /// The cycle has ended, in success or failure.
    pub fn is_finished(&self) -> (r: bool)
        ensures
            r == self.finished(),
    {
        match self {
            CycleStep::Completed { .. } => true,
            CycleStep::Failed => true,
            _ => false,
        }
    }
}

/// The step that follows `step` once `event` is known. Reconnecting never
/// ends a cycle; a failed fetch ends it before the mail server is touched; an
/// empty report is not sent. Events that do not fit the step leave it as it is.
pub open spec fn cycle_next(step: CycleStep, event: CycleEvent) -> CycleStep {
    match (step, event) {
        (CycleStep::ReconnectDatabase, CycleEvent::StepSucceeded) => CycleStep::FetchEvents,
        (CycleStep::ReconnectDatabase, CycleEvent::StepFailed) => CycleStep::FetchEvents,
        (CycleStep::FetchEvents, CycleEvent::Fetched { reported }) => CycleStep::ReconnectMailer {
            reported,
        },
        (CycleStep::FetchEvents, CycleEvent::StepFailed) => CycleStep::Failed,
        (CycleStep::ReconnectMailer { reported }, CycleEvent::StepSucceeded) => if reported == 0 {
            CycleStep::Completed { sent: false }
        } else {
            CycleStep::SendReport { reported }
        },
        (CycleStep::ReconnectMailer { reported }, CycleEvent::StepFailed) => if reported == 0 {
            CycleStep::Completed { sent: false }
        } else {
            CycleStep::SendReport { reported }
        },
        (CycleStep::SendReport { .. }, CycleEvent::StepSucceeded) => CycleStep::Completed {
            sent: true,
        },
        (CycleStep::SendReport { .. }, CycleEvent::StepFailed) => CycleStep::Failed,
        _ => step,
    }
}

/// Moves a report cycle on by one event.
pub fn cycle_step(step: CycleStep, event: CycleEvent) -> (r: CycleStep)
    requires
        step.valid(),
    ensures
        r == cycle_next(step, event),
        r.valid(),
{
    match (step, event) {
        (CycleStep::ReconnectDatabase, CycleEvent::StepSucceeded) => CycleStep::FetchEvents,
        (CycleStep::ReconnectDatabase, CycleEvent::StepFailed) => CycleStep::FetchEvents,
        (CycleStep::FetchEvents, CycleEvent::Fetched { reported }) => CycleStep::ReconnectMailer {
            reported,
        },
        (CycleStep::FetchEvents, CycleEvent::StepFailed) => CycleStep::Failed,
        (CycleStep::ReconnectMailer { reported }, CycleEvent::StepSucceeded)
        | (CycleStep::ReconnectMailer { reported }, CycleEvent::StepFailed) => {
            if reported == 0 {
                CycleStep::Completed { sent: false }
            } else {
                CycleStep::SendReport { reported }
            }
        },
        (CycleStep::SendReport { .. }, CycleEvent::StepSucceeded) => CycleStep::Completed {
            sent: true,
        },
        (CycleStep::SendReport { .. }, CycleEvent::StepFailed) => CycleStep::Failed,
        _ => step,
    }
}

/// A cycle in which no setup exceeds its limit succeeds without sending,
/// whether or not the mail server could be reached.
pub proof fn lemma_empty_report_is_not_sent(reconnected: CycleEvent)
    requires
        reconnected is StepSucceeded || reconnected is StepFailed,
    ensures
        cycle_next(
            cycle_next(CycleStep::FetchEvents, CycleEvent::Fetched { reported: 0 }),
            reconnected,
        ) == (CycleStep::Completed { sent: false }),
{
}

} // verus!
