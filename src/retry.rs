//! Decisions of a bounded retry: which attempt runs next, when to wait, and
//! when to give up.

use vstd::prelude::*;

verus! {

/// How often an operation is tried and how long to wait between tries.
#[derive(Clone, Copy, Debug, PartialEq, Eq, Structural)]
pub struct RetryPolicy {
    /// Number of attempts in all, at least one.
    pub max_attempts: usize,
    /// Seconds to wait after a failed attempt before the next one.
    pub delay_secs: u64,
}

impl RetryPolicy {
    pub open spec fn wf(self) -> bool {
        self.max_attempts >= 1
    }
}

/// Where a retry stands. Attempts are numbered from one.
#[derive(Clone, Copy, Debug, PartialEq, Eq, Structural)]
pub enum RetryState {
    /// The attempt with this number is to run, or is running.
    Attempting { attempt: usize },
    /// The attempt with this number failed; the delay runs before the next.
    Waiting { attempt: usize },
    /// The attempt with this number succeeded.
    Succeeded { attempts: usize },
    /// The attempt with this number, the last one allowed, failed.
    Exhausted { attempts: usize },
    /// Shutdown came during a delay after this many attempts.
    Abandoned { attempts: usize },
}

/// What happened since the state was entered.
#[derive(Clone, Copy, Debug, PartialEq, Eq, Structural)]
pub enum RetryEvent {
    AttemptSucceeded,
    AttemptFailed,
    DelayElapsed,
    Shutdown,
}

impl RetryState {
    /// The attempt counts stay between one and the policy's maximum, and a
    /// wait only follows an attempt after which another one is allowed.
    pub open spec fn valid(self, policy: RetryPolicy) -> bool {
        match self {
            RetryState::Attempting { attempt } => 1 <= attempt <= policy.max_attempts,
            RetryState::Waiting { attempt } => 1 <= attempt < policy.max_attempts,
            RetryState::Succeeded { attempts } => 1 <= attempts <= policy.max_attempts,
            RetryState::Exhausted { attempts } => attempts == policy.max_attempts,
            RetryState::Abandoned { attempts } => 1 <= attempts < policy.max_attempts,
        }
    }

    pub open spec fn finished(self) -> bool {
        match self {
            RetryState::Succeeded { .. } => true,
            RetryState::Exhausted { .. } => true,
            RetryState::Abandoned { .. } => true,
            _ => false,
        }
    }

    /// The state in which every retry begins: the first attempt is to run.
    pub fn start() -> (r: RetryState)
        ensures
            r == (RetryState::Attempting { attempt: 1 }),
    {
        RetryState::Attempting { attempt: 1 }
    }

    /// No further attempt will run and the retry has its outcome.
    pub fn is_finished(&self) -> (r: bool)
        ensures
            r == self.finished(),
    {
        match self {
            RetryState::Succeeded { .. } => true,
            RetryState::Exhausted { .. } => true,
            RetryState::Abandoned { .. } => true,
            _ => false,
        }
    }
}

/// The state that `event` leads to. A running attempt is never cut short, so
/// shutdown counts only during a delay; events that do not fit the state
/// leave it as it is.
pub open spec fn retry_next(policy: RetryPolicy, state: RetryState, event: RetryEvent) -> RetryState {
    match (state, event) {
        (RetryState::Attempting { attempt }, RetryEvent::AttemptSucceeded) => RetryState::Succeeded {
            attempts: attempt,
        },
        (RetryState::Attempting { attempt }, RetryEvent::AttemptFailed) => if attempt
            < policy.max_attempts {
            RetryState::Waiting { attempt }
        } else {
            RetryState::Exhausted { attempts: attempt }
        },
        (RetryState::Waiting { attempt }, RetryEvent::DelayElapsed) => RetryState::Attempting {
            attempt: (attempt + 1) as usize,
        },
        (RetryState::Waiting { attempt }, RetryEvent::Shutdown) => RetryState::Abandoned {
            attempts: attempt,
        },
        _ => state,
    }
}

/// Moves a retry on by one event.
pub fn retry_step(policy: &RetryPolicy, state: RetryState, event: RetryEvent) -> (r: RetryState)
    requires
        policy.wf(),
        state.valid(*policy),
    ensures
        r == retry_next(*policy, state, event),
        r.valid(*policy),
{
    match (state, event) {
        (RetryState::Attempting { attempt }, RetryEvent::AttemptSucceeded) => RetryState::Succeeded {
            attempts: attempt,
        },
        (RetryState::Attempting { attempt }, RetryEvent::AttemptFailed) => {
            if attempt < policy.max_attempts {
                RetryState::Waiting { attempt }
            } else {
                RetryState::Exhausted { attempts: attempt }
            }
        },
        (RetryState::Waiting { attempt }, RetryEvent::DelayElapsed) => RetryState::Attempting {
            attempt: attempt + 1,
        },
        (RetryState::Waiting { attempt }, RetryEvent::Shutdown) => RetryState::Abandoned {
            attempts: attempt,
        },
        _ => state,
    }
}

/// A finished retry stays finished whatever happens next.
pub proof fn lemma_finished_is_final(policy: RetryPolicy, state: RetryState, event: RetryEvent)
    requires
        state.finished(),
    ensures
        retry_next(policy, state, event) == state,
{
}

/// Once the last allowed attempt has failed the retry is exhausted: no
/// further attempt and no further wait follow.
pub proof fn lemma_last_failure_exhausts(policy: RetryPolicy)
    requires
        policy.wf(),
    ensures
        retry_next(
            policy,
            RetryState::Attempting { attempt: policy.max_attempts },
            RetryEvent::AttemptFailed,
        ) == (RetryState::Exhausted { attempts: policy.max_attempts }),
{
}

} // verus!
