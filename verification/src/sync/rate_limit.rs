//! Retrying remote calls that the service turned away for their rate.
//!
//! A call that fails because the caller is over its rate is made again after
//! a wait, up to [`MAX_RETRIES`] times; any other failure goes back to the
//! caller at once. The caller makes the calls and does the waiting:
//! [`RetryState::on_outcome`] says what to do after each call.

use crate::text::{contains, contains_text, lowercase, lowercase_of};
use vstd::prelude::*;

verus! {

/// How many times a rate-limited call is made again after the first attempt.
pub const MAX_RETRIES: u32 = 3;

/// The longest wait, in seconds.
pub const MAX_BACKOFF_SECONDS: u64 = 240;

/// The wait before retry number `attempt` (from 0), in seconds: 60, 120, 240,
/// and 240 for every later attempt.
pub open spec fn backoff_spec(attempt: nat) -> u64 {
    if attempt == 0 {
        60
    } else if attempt == 1 {
        120
    } else {
        240
    }
}

/// The wait before retry number `attempt` (from 0), in seconds.
pub fn backoff_seconds(attempt: u32) -> (seconds: u64)
    ensures
        seconds == backoff_spec(attempt as nat),
        seconds <= MAX_BACKOFF_SECONDS,
{
    if attempt == 0 {
        60
    } else if attempt == 1 {
        120
    } else {
        MAX_BACKOFF_SECONDS
    }
}

/// The waits grow from one retry to the next until they reach the longest
/// wait, and stay there.
pub proof fn lemma_backoff_grows_then_caps(attempt: nat)
    ensures
        backoff_spec(attempt) <= backoff_spec(attempt + 1),
        attempt < 2 ==> backoff_spec(attempt) < backoff_spec(attempt + 1),
        attempt >= 2 ==> backoff_spec(attempt) == MAX_BACKOFF_SECONDS,
{
}

/// Whether an error text, given with its lower-case form, tells of a rate
/// limit: it holds the status code `429`, or its lower-case form holds the
/// words `rate limit`.
pub open spec fn tells_rate_limit(text: Seq<char>, lowered: Seq<char>) -> bool {
    contains_text(text, "429"@) || contains_text(lowered, "rate limit"@)
}

/// Whether an error text, given with its lower-case form, tells of a rate
/// limit.
pub fn is_rate_limit_text(text: &str, lowered: &str) -> (limited: bool)
    ensures
        limited == tells_rate_limit(text@, lowered@),
{
    contains(text, "429") || contains(lowered, "rate limit")
}

/// Whether the message of an error of the remote client tells of a rate
/// limit. The client keeps no status code, so the error is judged by its
/// message.
pub fn is_429_error(message: &str) -> (limited: bool)
    ensures
        limited == tells_rate_limit(message@, lowercase_of(message@)),
{
    let lowered = lowercase(message);
    is_rate_limit_text(message, lowered.as_str())
}

/// How a remote call ended, as far as retrying goes.
#[derive(Debug, Clone, Copy, PartialEq, Eq, Structural)]
pub enum CallOutcome {
    /// The call returned a value.
    Succeeded,
    /// The call failed because the caller is over its rate.
    RateLimited,
    /// The call failed for another reason.
    Failed,
}

/// What to do after a remote call.
#[derive(Debug, Clone, Copy, PartialEq, Eq, Structural)]
pub enum RetryStep {
    /// Hand the value of the call to the caller.
    Return,
    /// Wait so many seconds, then make the call again.
    Wait { seconds: u64 },
    /// Hand the error of the call to the caller, unchanged.
    Propagate,
}

/// What to do after attempt number `attempt` (from 0) ended with `outcome`.
pub open spec fn retry_step(attempt: nat, outcome: CallOutcome) -> RetryStep {
    match outcome {
        CallOutcome::Succeeded => RetryStep::Return,
        CallOutcome::RateLimited => if attempt < MAX_RETRIES {
            RetryStep::Wait { seconds: backoff_spec(attempt) }
        } else {
            RetryStep::Propagate
        },
        CallOutcome::Failed => RetryStep::Propagate,
    }
}

/// The steps that a caller is told to take as its attempts end with
/// `outcomes`, one after the other, from attempt number `attempt` on. The
/// steps end with the first that is no wait; outcomes after it are never
/// looked at, because no further call is made.
pub open spec fn retry_steps(attempt: nat, outcomes: Seq<CallOutcome>) -> Seq<RetryStep>
    decreases outcomes.len(),
{
    if outcomes.len() == 0 {
        Seq::empty()
    } else {
        let step = retry_step(attempt, outcomes[0]);
        if step is Wait {
            seq![step] + retry_steps(attempt + 1, outcomes.drop_first())
        } else {
            seq![step]
        }
    }
}

/// The retries made so far for one remote call.
#[derive(Debug, Clone, Copy, PartialEq, Eq)]
pub struct RetryState {
    attempt: u32,
}

impl View for RetryState {
    type V = nat;

    /// The number of the attempt that is under way, from 0.
    closed spec fn view(&self) -> nat {
        self.attempt as nat
    }
}

impl RetryState {
    #[verifier::type_invariant]
    spec fn bounded(self) -> bool {
        self.attempt <= MAX_RETRIES
    }

    /// The state before the first attempt.
    pub fn new() -> (state: RetryState)
        ensures
            state@ == 0,
    {
        RetryState { attempt: 0 }
    }

    /// The number of the attempt that is under way, from 0.
    pub fn attempt(&self) -> (n: u32)
        ensures
            n == self@,
            n <= MAX_RETRIES,
    {
        proof {
            use_type_invariant(self);
        }
        self.attempt
    }

    /// Takes the outcome of the attempt under way and says what to do next.
    /// After a wait the next attempt is under way; otherwise the state stays
    /// as it is.
    pub fn on_outcome(&mut self, outcome: CallOutcome) -> (step: RetryStep)
        ensures
            step == retry_step(old(self)@, outcome),
            final(self)@ == if step is Wait {
                old(self)@ + 1
            } else {
                old(self)@
            },
    {
        proof {
            use_type_invariant(&*self);
        }
        match outcome {
            CallOutcome::Succeeded => RetryStep::Return,
            CallOutcome::RateLimited => {
                if self.attempt < MAX_RETRIES {
                    let seconds = backoff_seconds(self.attempt);
                    self.attempt = self.attempt + 1;
                    RetryStep::Wait { seconds }
                } else {
                    RetryStep::Propagate
                }
            },
            CallOutcome::Failed => RetryStep::Propagate,
        }
    }
}

/// A call that keeps being turned away for its rate is made again exactly
/// three times, after waits of 60, 120 and 240 seconds, and then its error is
/// handed to the caller.
pub proof fn lemma_sustained_rate_limit(outcomes: Seq<CallOutcome>)
    requires
        outcomes.len() >= 4,
        forall|i: int| 0 <= i < 4 ==> outcomes[i] == CallOutcome::RateLimited,
    ensures
        retry_steps(0, outcomes) == seq![
            RetryStep::Wait { seconds: 60 },
            RetryStep::Wait { seconds: 120 },
            RetryStep::Wait { seconds: 240 },
            RetryStep::Propagate,
        ],
{
    let o1 = outcomes.drop_first();
    let o2 = o1.drop_first();
    let o3 = o2.drop_first();
    assert(o1[0] == outcomes[1]);
    assert(o2[0] == outcomes[2]);
    assert(o3[0] == outcomes[3]);
    assert(retry_steps(3, o3) == seq![RetryStep::Propagate]);
    assert(retry_steps(2, o2) == seq![RetryStep::Wait { seconds: 240 }] + retry_steps(3, o3));
    assert(retry_steps(1, o1) == seq![RetryStep::Wait { seconds: 120 }] + retry_steps(2, o2));
    assert(retry_steps(0, outcomes) == seq![RetryStep::Wait { seconds: 60 }] + retry_steps(
        1,
        o1,
    ));
    assert(retry_steps(0, outcomes) =~= seq![
        RetryStep::Wait { seconds: 60 },
        RetryStep::Wait { seconds: 120 },
        RetryStep::Wait { seconds: 240 },
        RetryStep::Propagate,
    ]);
}

/// A failure that is no rate limit is never retried, whatever the attempt.
pub proof fn lemma_other_errors_propagate(attempt: nat, outcomes: Seq<CallOutcome>)
    requires
        outcomes.len() > 0,
        outcomes[0] == CallOutcome::Failed,
    ensures
        retry_steps(attempt, outcomes) == seq![RetryStep::Propagate],
{
}

} // verus!
