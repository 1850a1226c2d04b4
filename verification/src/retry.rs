//! Exponential-backoff bookkeeping for the retry engine.
//!
//! The engine sleeps for a wait duration that starts at 10 seconds and
//! doubles after every retried attempt until it reaches a cap of 640
//! seconds, where it stays; retries continue indefinitely at that cadence.

use vstd::prelude::*;
use crate::api::{spec_should_slow_down, GitHubApi};
use crate::errors::{classify, spec_retriable, ApiFailure, ErrorClass};

verus! {

/// Backoff delay of the first retry, in seconds.
pub const INITIAL_WAIT_SECS: u64 = 10;

/// Cap on the backoff delay, in seconds.
pub const MAX_WAIT_SECS: u64 = 640;

/// How the wait duration evolves after one retried attempt: it doubles
/// unless it has already reached the cap.
pub open spec fn next_wait(w: nat) -> nat {
    if w < 640 {
        2 * w
    } else {
        w
    }
}

/// The wait duration the engine sleeps for on the `n`-th retry of one
/// call (counting from zero): 10, 20, 40, ..., capped at 640.
pub open spec fn wait_after(n: nat) -> nat
    decreases n,
{
    if n == 0 {
        10
    } else {
        next_wait(wait_after((n - 1) as nat))
    }
}

/// The observed backoff schedule is 10, 20, 40, 80, 160, 320, 640, 640, ...:
/// each delay is double the previous one until the cap of 640 seconds is
/// reached, and no delay ever exceeds the cap.
pub proof fn lemma_backoff_schedule(n: nat)
    ensures
        wait_after(n) == if n == 0 {
            10nat
        } else if n == 1 {
            20nat
        } else if n == 2 {
            40nat
        } else if n == 3 {
            80nat
        } else if n == 4 {
            160nat
        } else if n == 5 {
            320nat
        } else {
            640nat
        },
        10 <= wait_after(n) <= 640,
        wait_after(n) < 640 ==> wait_after(n + 1) == 2 * wait_after(n),
        wait_after(n) == 640 ==> wait_after(n + 1) == 640,
    decreases n,
{
    if n > 0 {
        lemma_backoff_schedule((n - 1) as nat);
    }
}

/// Per-call retry state: the next delay to sleep for, and whether this
/// call has retried at all yet.
pub struct RetryState {
    /// Seconds the next retry will wait.
    pub wait_secs: u64,
    /// True until the first retry of this call has happened.
    pub first: bool,
    /// Ghost count of retries performed so far for this call.
    pub retries: Ghost<nat>,
}

impl RetryState {
    /// Well-formedness: the stored delay matches the schedule for the
    /// number of retries performed, and `first` tracks "no retry yet".
    pub open spec fn inv(self) -> bool {
        &&& self.wait_secs == wait_after(self.retries@)
        &&& self.first == (self.retries@ == 0)
    }

    /// Fresh state for a new call: no retries yet, 10 second delay next.
    pub fn new() -> (s: Self)
        ensures
            s.inv(),
            s.retries@ == 0,
            s.wait_secs == 10,
            s.first,
    {
        RetryState { wait_secs: 10, first: true, retries: Ghost(0nat) }
    }
}

/// What the retry engine tells its driver to do after one attempt.
#[derive(Debug, PartialEq, Eq)]
pub enum RetryDecision<T> {
    /// The attempt succeeded: hand the value to the caller.
    Done(T),
    /// The attempt failed fatally: propagate, never retry.
    Fail(ApiFailure),
    /// The attempt failed transiently: sleep this many seconds, then try
    /// again. There is no retry limit.
    SleepFor(u64),
}

/// One step of the retry engine: succeed, propagate a fatal failure, or
/// absorb a retriable one. Absorbing a retriable failure yields the
/// current backoff delay, doubles it up to the cap, and — on the first
/// retry of this call only — raises the slow-down flag.
pub fn retry_step<T>(state: &mut RetryState, api: &mut GitHubApi, res: Result<T, ApiFailure>) -> (d:
    RetryDecision<T>)
    requires
        old(state).inv(),
    ensures
        final(state).inv(),
        final(api).token == old(api).token,
        final(api).concurrent_requests == old(api).concurrent_requests,
        match res {
            Ok(v) => {
                &&& d == RetryDecision::<T>::Done(v)
                &&& *final(state) == *old(state)
                &&& *final(api) == *old(api)
            },
            Err(e) => if spec_retriable(e) {
                &&& d == RetryDecision::<T>::SleepFor(old(state).wait_secs)
                &&& old(state).wait_secs == wait_after(old(state).retries@)
                &&& final(state).retries@ == old(state).retries@ + 1
                &&& final(state).wait_secs == next_wait(old(state).wait_secs as nat)
                &&& final(api).slow_down == (old(api).slow_down || old(state).retries@ == 0)
            } else {
                &&& d == RetryDecision::<T>::Fail(e)
                &&& *final(state) == *old(state)
                &&& *final(api) == *old(api)
            },
        },
{
    match res {
        Ok(v) => RetryDecision::Done(v),
        Err(e) => {
            match classify(&e) {
                ErrorClass::Retriable => {
                    let ghost old_retries = state.retries@;
                    let sleep = state.wait_secs;
                    if state.first {
                        api.slow_down = true;
                    }
                    state.first = false;
                    if state.wait_secs < 640 {
                        state.wait_secs = state.wait_secs * 2;
                    }
                    state.retries = Ghost(old_retries + 1);
                    RetryDecision::SleepFor(sleep)
                },
                ErrorClass::Fatal => RetryDecision::Fail(e),
            }
        },
    }
}

/// The slow-down flag after `k` absorbed retries of one call, starting
/// from `initial`: the step with retry index `j` raises it when `j` is
/// zero and leaves it alone otherwise, exactly as `retry_step` does.
pub open spec fn slow_down_after_retries(initial: bool, k: nat) -> bool
    decreases k,
{
    if k == 0 {
        initial
    } else {
        slow_down_after_retries(initial, (k - 1) as nat) || (k - 1) == 0
    }
}

/// Any retry sequence of length at least one leaves the slow-down flag
/// raised, whatever it held before.
pub proof fn lemma_retries_raise_slow_down(initial: bool, k: nat)
    requires
        k >= 1,
    ensures
        slow_down_after_retries(initial, k),
    decreases k,
{
    if k > 1 {
        lemma_retries_raise_slow_down(initial, (k - 1) as nat);
    }
}

/// After any retry sequence of length at least one, polling the
/// slow-down flag reports true exactly once: the first read returns true
/// and clears the flag, and every further read returns false until
/// another retry raises it again.
pub proof fn lemma_throttle_reported_once(api: GitHubApi, k: nat)
    requires
        k >= 1,
        api.slow_down == slow_down_after_retries(false, k),
    ensures
        ({
            let (first_read, cleared) = spec_should_slow_down(api);
            let (second_read, _) = spec_should_slow_down(cleared);
            first_read && !second_read
        }),
{
    lemma_retries_raise_slow_down(false, k);
}

} // verus!
