//! Shared retry policy and backoff schedule for cloud STT/LLM providers.
//!
//! Defaults: 3 attempts, 500 ms initial backoff, 8 s ceiling. The retry
//! loop itself awaits the operation and sleeps; every decision it takes
//! after an attempt is [`retry_step`].

use std::time::Duration;

use vstd::prelude::*;

verus! {

/// `x` doubled `n` times.
pub open spec fn doubled(x: nat, n: nat) -> nat
    decreases n,
{
    if n == 0 {
        x
    } else {
        2 * doubled(x, (n - 1) as nat)
    }
}

proof fn lemma_doubled_monotone(x: nat, y: nat, n: nat, m: nat)
    requires
        x <= y,
        n <= m,
    ensures
        doubled(x, n) <= doubled(y, m),
    decreases m,
{
    if m > n {
        lemma_doubled_monotone(x, y, n, (m - 1) as nat);
    } else if n > 0 {
        lemma_doubled_monotone(x, y, (n - 1) as nat, (m - 1) as nat);
    }
}

proof fn lemma_doubled_limit()
    ensures
        doubled(0xffff_ffff, 31) == 0xffff_ffff * 0x8000_0000,
{
    reveal_with_fuel(doubled, 32);
}

/// Retry budget and exponential-backoff schedule.
#[derive(Clone, Copy, Debug, PartialEq, Eq)]
pub struct RetryPolicy {
    pub max_attempts: u32,
    pub initial_backoff_ms: u32,
    pub max_backoff_ms: u32,
}

/// The `Duration` of `ms` milliseconds (`Duration::from_millis`).
pub uninterp spec fn millis_duration(ms: u64) -> Duration;

/// `Duration::from_millis` (std). Claims only that the same count of
/// milliseconds gives the same duration.
#[verifier::external_body]
fn duration_from_millis(ms: u64) -> (d: Duration)
    ensures
        d == millis_duration(ms),
{
    Duration::from_millis(ms)
}

impl RetryPolicy {
    /// 3 attempts, 500 ms initial backoff, 8 s ceiling.
    pub open spec fn is_default(&self) -> bool {
        self.max_attempts == 3 && self.initial_backoff_ms == 500 && self.max_backoff_ms == 8_000
    }

    /// How many times the initial backoff is doubled for `attempt`
    /// (1-indexed): once per earlier attempt, at most 31 times; none for
    /// the first attempt (and for 0).
    pub open spec fn doublings(attempt: u32) -> nat {
        if attempt <= 1 {
            0
        } else if attempt - 1 < 31 {
            (attempt - 1) as nat
        } else {
            31
        }
    }

    /// Backoff in milliseconds for `attempt` (1-indexed): the initial
    /// backoff doubled once per earlier attempt, clamped at
    /// `max_backoff_ms` at every step, the first included.
    pub open spec fn backoff_ms(self, attempt: u32) -> nat {
        let scaled = doubled(self.initial_backoff_ms as nat, Self::doublings(attempt));
        if scaled < self.max_backoff_ms {
            scaled
        } else {
            self.max_backoff_ms as nat
        }
    }

    /// Backoff in milliseconds for `attempt` under the configured
    /// schedule.
    pub fn backoff_millis(self, attempt: u32) -> (ms: u64)
        ensures
            ms == self.backoff_ms(attempt),
    {
        let shift: u32 = if attempt <= 1 {
            0
        } else if attempt - 1 < 31 {
            attempt - 1
        } else {
            31
        };
        let mut scaled: u64 = self.initial_backoff_ms as u64;
        let mut i: u32 = 0;
        while i < shift
            invariant
                i <= shift <= 31,
                scaled == doubled(self.initial_backoff_ms as nat, i as nat),
            decreases shift - i,
        {
            proof {
                lemma_doubled_monotone(
                    self.initial_backoff_ms as nat,
                    0xffff_ffff,
                    (i + 1) as nat,
                    31,
                );
                lemma_doubled_limit();
            }
            scaled = scaled * 2;
            i = i + 1;
        }
        if scaled < self.max_backoff_ms as u64 {
            scaled
        } else {
            self.max_backoff_ms as u64
        }
    }

    /// Backoff for `attempt` (1-indexed): doubles each step, clamped at
    /// `max_backoff_ms`.
    pub fn backoff_for(self, attempt: u32) -> (d: Duration)
        ensures
            d == millis_duration(self.backoff_ms(attempt) as u64),
    {
        duration_from_millis(self.backoff_millis(attempt))
    }
}

impl Default for RetryPolicy {
    fn default() -> (p: Self)
        ensures
            p.is_default(),
    {
        RetryPolicy { max_attempts: 3, initial_backoff_ms: 500, max_backoff_ms: 8_000 }
    }
}

/// Each step doubles the backoff until it reaches the ceiling (up to the
/// 32nd attempt, past which the schedule is flat).
pub proof fn backoff_doubles_until_ceiling(p: RetryPolicy, attempt: u32)
    requires
        1 <= attempt <= 31,
    ensures
        p.backoff_ms((attempt + 1) as u32) == if 2 * p.backoff_ms(attempt) < p.max_backoff_ms {
            2 * p.backoff_ms(attempt)
        } else {
            p.max_backoff_ms as nat
        },
{
    assert(RetryPolicy::doublings((attempt + 1) as u32) == attempt as nat);
    assert(RetryPolicy::doublings(attempt) == (attempt - 1) as nat);
    assert(doubled(p.initial_backoff_ms as nat, attempt as nat) == 2 * doubled(
        p.initial_backoff_ms as nat,
        (attempt - 1) as nat,
    ));
}

/// The backoff never exceeds the ceiling, the first attempt's included.
pub proof fn backoff_never_exceeds_ceiling(p: RetryPolicy, attempt: u32)
    ensures
        p.backoff_ms(attempt) <= p.max_backoff_ms,
{
}

/// The schedule never shrinks from one attempt to the next.
pub proof fn backoff_is_monotone(p: RetryPolicy, attempt: u32)
    requires
        attempt < u32::MAX,
    ensures
        p.backoff_ms(attempt) <= p.backoff_ms((attempt + 1) as u32),
{
    let x = p.initial_backoff_ms as nat;
    lemma_doubled_monotone(
        x,
        x,
        RetryPolicy::doublings(attempt),
        RetryPolicy::doublings((attempt + 1) as u32),
    );
}

/// Outcome an operation reports to the retry loop. `Permanent` errors
/// end the loop; `Transient` errors trigger backoff.
#[derive(Debug)]
pub enum RetryOutcome<T, E> {
    Success(T),
    Transient(E),
    Permanent(E),
}

/// What the loop returns after a permanent error or once the budget is
/// exhausted.
#[derive(Debug)]
pub struct RetryFailure<E> {
    pub attempts: u32,
    pub last_error: E,
    pub permanent: bool,
}

/// What the retry loop does after an attempt.
#[derive(Debug)]
pub enum RetryStep<T, E> {
    /// Stop and return this result.
    Done(Result<T, RetryFailure<E>>),
    /// Sleep this long, then make attempt `next_attempt`.
    Sleep { backoff: Duration, next_attempt: u32 },
}

/// Decides what follows attempt `attempt` (1-indexed) of at most
/// `policy.max_attempts`: a success is returned, a permanent error ends
/// the loop at once, a transient error is retried after `backoff_for`
/// unless it came from the last attempt.
pub fn retry_step<T, E>(policy: RetryPolicy, attempt: u32, outcome: RetryOutcome<T, E>) -> (step:
    RetryStep<T, E>)
    requires
        1 <= attempt <= policy.max_attempts,
    ensures
        match outcome {
            RetryOutcome::Success(v) => step == RetryStep::<T, E>::Done(Ok(v)),
            RetryOutcome::Permanent(e) => step == RetryStep::<T, E>::Done(
                Err(RetryFailure { attempts: attempt, last_error: e, permanent: true }),
            ),
            RetryOutcome::Transient(e) => if attempt < policy.max_attempts {
                step == RetryStep::<T, E>::Sleep {
                    backoff: millis_duration(policy.backoff_ms(attempt) as u64),
                    next_attempt: (attempt + 1) as u32,
                }
            } else {
                step == RetryStep::<T, E>::Done(
                    Err(
                        RetryFailure {
                            attempts: policy.max_attempts,
                            last_error: e,
                            permanent: false,
                        },
                    ),
                )
            },
        },
{
    match outcome {
        RetryOutcome::Success(v) => RetryStep::Done(Ok(v)),
        RetryOutcome::Permanent(e) => RetryStep::Done(
            Err(RetryFailure { attempts: attempt, last_error: e, permanent: true }),
        ),
        RetryOutcome::Transient(e) => {
            if attempt < policy.max_attempts {
                RetryStep::Sleep { backoff: policy.backoff_for(attempt), next_attempt: attempt + 1 }
            } else {
                RetryStep::Done(
                    Err(
                        RetryFailure {
                            attempts: policy.max_attempts,
                            last_error: e,
                            permanent: false,
                        },
                    ),
                )
            }
        },
    }
}

} // verus!
