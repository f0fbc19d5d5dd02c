//! The retry decisions of one site check.
//!
//! A check starts in `Attempting(0)`. After each probe the policy decides:
//! a completed exchange (any status code) ends it as `Succeeded`; a
//! transport error is retried after a fixed delay until `max_retries`
//! retries have been spent, and then ends it as `ExhaustedFailed`.
//! Whoever drives the machine performs the probes and the delays.
use vstd::prelude::*;

verus! {

/// The pause between two attempts, in milliseconds.
pub const RETRY_DELAY_MS: u64 = 100;

/// Where a check stands.
#[derive(Debug, PartialEq, Eq)]
pub enum ProbeState {
    /// Attempt number `n` (from zero) is to be made.
    Attempting(usize),
    /// An exchange completed with this status code.
    Succeeded(u16),
    /// Every attempt failed; this is the last error.
    ExhaustedFailed(String),
}

impl ProbeState {
    /// Whether the check is over.
    pub open spec fn spec_is_terminal(&self) -> bool {
        !(self is Attempting)
    }

    /// Whether the check is over.
    #[verifier::when_used_as_spec(spec_is_terminal)]
    pub fn is_terminal(&self) -> (r: bool)
        ensures
            r == self.spec_is_terminal(),
    {
        match self {
            ProbeState::Attempting(_) => false,
            _ => true,
        }
    }
}

/// How many times a failed probe is retried, and how long to wait first.
#[derive(Debug, Clone, Copy, PartialEq, Eq)]
pub struct RetryPolicy {
    /// Retries after the first attempt; at most `max_retries + 1` attempts.
    pub max_retries: usize,
    /// The wait before each retry, in milliseconds.
    pub delay_ms: u64,
}

/// The state after attempt `attempt` returned `outcome`.
pub open spec fn next_state(policy: RetryPolicy, attempt: usize, outcome: Result<u16, String>) -> ProbeState {
    match outcome {
        Ok(code) => ProbeState::Succeeded(code),
        Err(e) => if attempt < policy.max_retries {
            ProbeState::Attempting((attempt + 1) as usize)
        } else {
            ProbeState::ExhaustedFailed(e)
        },
    }
}

/// Runs the machine from attempt `attempt` on, the probe answering attempt
/// `i` with `outcomes[i]`: the state where it stops and the number of
/// attempts made. Should the answers run out, it stops while still attempting.
pub open spec fn run_from(policy: RetryPolicy, outcomes: Seq<Result<u16, String>>, attempt: usize) -> (ProbeState, nat)
    decreases outcomes.len() - attempt,
{
    if attempt >= outcomes.len() || attempt > policy.max_retries {
        (ProbeState::Attempting(attempt), attempt as nat)
    } else if next_state(policy, attempt, outcomes[attempt as int]) is Attempting {
        run_from(policy, outcomes, (attempt + 1) as usize)
    } else {
        (next_state(policy, attempt, outcomes[attempt as int]), (attempt + 1) as nat)
    }
}

/// The whole run of a check whose probe gives `outcomes`, from the first attempt.
pub open spec fn run(policy: RetryPolicy, outcomes: Seq<Result<u16, String>>) -> (ProbeState, nat) {
    run_from(policy, outcomes, 0)
}

impl RetryPolicy {
    /// A policy with `max_retries` retries and the fixed delay.
    pub fn new(max_retries: usize) -> (p: RetryPolicy)
        ensures
            p.max_retries == max_retries,
            p.delay_ms == RETRY_DELAY_MS,
    {
        RetryPolicy { max_retries, delay_ms: RETRY_DELAY_MS }
    }

    /// The state in which every check starts.
    pub fn start(&self) -> (s: ProbeState)
        ensures
            s == ProbeState::Attempting(0),
    {
        ProbeState::Attempting(0)
    }

    /// Decides what follows attempt `attempt`, which returned `outcome`. When
    /// this gives `Attempting(n)`, the driver waits `delay_ms` and then makes
    /// attempt `n`.
    pub fn advance(&self, attempt: usize, outcome: Result<u16, String>) -> (s: ProbeState)
        requires
            attempt <= self.max_retries,
        ensures
            s == next_state(*self, attempt, outcome),
    {
        match outcome {
            Ok(code) => ProbeState::Succeeded(code),
            Err(e) => {
                if attempt < self.max_retries {
                    ProbeState::Attempting(attempt + 1)
                } else {
                    ProbeState::ExhaustedFailed(e)
                }
            },
        }
    }
}

proof fn lemma_run_from_bounded(policy: RetryPolicy, outcomes: Seq<Result<u16, String>>, attempt: usize)
    requires
        outcomes.len() > policy.max_retries,
        attempt <= policy.max_retries,
    ensures
        run_from(policy, outcomes, attempt).0.spec_is_terminal(),
        attempt < run_from(policy, outcomes, attempt).1 <= policy.max_retries + 1,
        (forall|i: int| attempt <= i < outcomes.len() ==> #[trigger] outcomes[i] is Err) ==> {
            &&& run_from(policy, outcomes, attempt).1 == policy.max_retries + 1
            &&& run_from(policy, outcomes, attempt).0 == ProbeState::ExhaustedFailed(
                outcomes[policy.max_retries as int]->Err_0,
            )
        },
    decreases outcomes.len() - attempt,
{
    if outcomes[attempt as int] is Ok || attempt >= policy.max_retries {
    } else {
        lemma_run_from_bounded(policy, outcomes, (attempt + 1) as usize);
    }
}

/// A check always ends, after at most `max_retries + 1` attempts; with a
/// probe that always fails it makes exactly `max_retries + 1` attempts and
/// ends as `ExhaustedFailed` with the last error.
pub proof fn lemma_retry_terminates(policy: RetryPolicy, outcomes: Seq<Result<u16, String>>)
    requires
        outcomes.len() > policy.max_retries,
    ensures
        run(policy, outcomes).0.spec_is_terminal(),
        1 <= run(policy, outcomes).1 <= policy.max_retries + 1,
        (forall|i: int| 0 <= i < outcomes.len() ==> #[trigger] outcomes[i] is Err) ==> {
            &&& run(policy, outcomes).1 == policy.max_retries + 1
            &&& run(policy, outcomes).0 == ProbeState::ExhaustedFailed(
                outcomes[policy.max_retries as int]->Err_0,
            )
        },
{
    lemma_run_from_bounded(policy, outcomes, 0);
}

/// With at least one retry allowed, a probe that fails once and then
/// completes with `code` ends the check as `Succeeded(code)` after exactly
/// two attempts, with one retry delay between them.
pub proof fn lemma_success_on_second_attempt(policy: RetryPolicy, outcomes: Seq<Result<u16, String>>, code: u16)
    requires
        policy.max_retries >= 1,
        outcomes.len() >= 2,
        outcomes[0] is Err,
        outcomes[1] == Ok::<u16, String>(code),
    ensures
        run(policy, outcomes) == (ProbeState::Succeeded(code), 2nat),
        next_state(policy, 0, outcomes[0]) == ProbeState::Attempting(1),
{
    assert(run_from(policy, outcomes, 1) == (ProbeState::Succeeded(code), 2nat));
}

} // verus!
