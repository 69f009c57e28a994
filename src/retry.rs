//! The retry policy around one fetch: which failures are retried, after
//! how long, and when a sequence of failures ends in an error.
//!
//! A `RetryState` is stepped once per fetch outcome. Its answer is either
//! the final result of the sequence or a delay after which the host fetches
//! again and steps the state with the new outcome.

use vstd::prelude::*;
use vstd::arithmetic::power2::{
    pow2,
    lemma_pow2_unfold,
    lemma_pow2_strictly_increases,
    lemma2_to64,
    lemma2_to64_rest,
};
use crate::error::{DataError, spec_counts_against_budget};
use crate::snapshot::MarketSnapshot;

verus! {

/// Calls allowed for one retry sequence, rate-limited calls aside.
pub const MAX_ATTEMPTS: u64 = 3;

/// Seconds to wait after the provider signals rate limiting.
pub const RATE_LIMIT_COOLDOWN_SECS: u64 = 60;

/// The largest attempt budget for which every backoff delay fits in `u64`.
pub const MAX_ATTEMPTS_LIMIT: u64 = 63;

/// The tunables of a retry sequence.
#[derive(Debug, Clone, Copy)]
pub struct RetryConfig {
    pub max_attempts: u64,
    pub rate_limit_cooldown_secs: u64,
}

impl RetryConfig {
    pub open spec fn wf(&self) -> bool {
        1 <= self.max_attempts <= MAX_ATTEMPTS_LIMIT
    }

    /// Three attempts, and a sixty-second cooldown after rate limiting.
    pub fn standard() -> (r: RetryConfig)
        ensures
            r == (RetryConfig {
                max_attempts: MAX_ATTEMPTS,
                rate_limit_cooldown_secs: RATE_LIMIT_COOLDOWN_SECS,
            }),
            r.wf(),
    {
        RetryConfig { max_attempts: MAX_ATTEMPTS, rate_limit_cooldown_secs: RATE_LIMIT_COOLDOWN_SECS }
    }
}

/// What the host does after a fetch outcome.
#[derive(Debug)]
pub enum RetryStep {
    /// The sequence is over, with this result.
    Finish(Result<MarketSnapshot, DataError>),
    /// Sleep this many seconds, then fetch again.
    Wait(u64),
}

/// The delay before the retry that follows the `attempt`-th counted
/// failure: `2^attempt` seconds plus a jitter of at most as much again.
pub open spec fn backoff_delay(attempt: nat, jitter: nat) -> nat {
    pow2(attempt) + if jitter <= pow2(attempt) {
        jitter
    } else {
        pow2(attempt)
    }
}

/// The counter of counted failures after one outcome.
pub open spec fn attempt_after(attempt: nat, outcome: Result<MarketSnapshot, DataError>) -> nat {
    match outcome {
        Err(e) => if spec_counts_against_budget(e) {
            attempt + 1
        } else {
            attempt
        },
        Ok(_) => attempt,
    }
}

/// The step taken on one outcome, with `attempt` counted failures behind
/// it and `jitter` drawn for a backoff.
pub open spec fn step_of(
    cfg: RetryConfig,
    attempt: nat,
    outcome: Result<MarketSnapshot, DataError>,
    jitter: nat,
) -> RetryStep {
    match outcome {
        Ok(s) => RetryStep::Finish(Ok(s)),
        Err(e) => if !spec_counts_against_budget(e) {
            RetryStep::Wait(cfg.rate_limit_cooldown_secs)
        } else if attempt + 1 >= cfg.max_attempts {
            RetryStep::Finish(Err(e))
        } else {
            RetryStep::Wait(backoff_delay(attempt + 1, jitter) as u64)
        },
    }
}

/// The state of one retry sequence.
#[derive(Debug)]
pub struct RetryState {
    pub config: RetryConfig,
    /// Counted failures so far.
    pub attempt: u64,
}

/// `2^exponent`.
pub fn backoff_secs(exponent: u64) -> (r: u64)
    requires
        exponent < MAX_ATTEMPTS_LIMIT,
    ensures
        r == pow2(exponent as nat),
{
    proof {
        lemma2_to64();
        lemma2_to64_rest();
    }
    let mut p: u64 = 1;
    let mut i: u64 = 0;
    while i < exponent
        invariant
            i <= exponent < MAX_ATTEMPTS_LIMIT,
            p == pow2(i as nat),
            pow2(62) == 0x4000000000000000,
        decreases exponent - i,
    {
        proof {
            lemma_pow2_unfold((i + 1) as nat);
            if i + 1 < 62 {
                lemma_pow2_strictly_increases((i + 1) as nat, 62);
            }
        }
        p = p * 2;
        i = i + 1;
    }
    p
}

/// A random jitter for a backoff of `max` seconds.
/// Relies on rand's `Rng::gen_range` over `0..=max`, which yields a value
/// in that range and never panics on a non-empty range.
#[verifier::external_body]
fn draw_jitter(max: u64) -> (r: u64)
    ensures
        r <= max,
{
    rand::Rng::gen_range(&mut rand::thread_rng(), 0..=max)
}

impl RetryState {
    pub open spec fn wf(&self) -> bool {
        self.config.wf() && self.attempt < self.config.max_attempts
    }

    /// A fresh sequence: no failure counted yet.
    pub fn new(config: RetryConfig) -> (r: RetryState)
        requires
            config.wf(),
        ensures
            r.config == config,
            r.attempt == 0,
            r.wf(),
    {
        RetryState { config, attempt: 0 }
    }

    /// Takes one fetch outcome, with `jitter` as the random part of a
    /// backoff should one follow, and says what comes next.
    /// A success ends the sequence; rate limiting waits the cooldown and
    /// leaves the counter alone; any other failure is counted, and ends the
    /// sequence once the budget is used up, else waits out a backoff.
    pub fn record(&mut self, outcome: Result<MarketSnapshot, DataError>, jitter: u64) -> (r:
        RetryStep)
        requires
            old(self).wf(),
        ensures
            r == step_of(old(self).config, old(self).attempt as nat, outcome, jitter as nat),
            final(self).attempt == attempt_after(old(self).attempt as nat, outcome),
            final(self).config == old(self).config,
            r is Wait ==> final(self).wf(),
    {
        match outcome {
            Ok(s) => RetryStep::Finish(Ok(s)),
            Err(e) => {
                if !e.counts_against_budget() {
                    RetryStep::Wait(self.config.rate_limit_cooldown_secs)
                } else {
                    self.attempt = self.attempt + 1;
                    if self.attempt >= self.config.max_attempts {
                        RetryStep::Finish(Err(e))
                    } else {
                        let base = backoff_secs(self.attempt);
                        let extra = if jitter <= base {
                            jitter
                        } else {
                            base
                        };
                        proof {
                            lemma2_to64_rest();
                            if self.attempt < 62 {
                                lemma_pow2_strictly_increases(self.attempt as nat, 62);
                            }
                        }
                        RetryStep::Wait(base + extra)
                    }
                }
            },
        }
    }

    /// As `record`, with the jitter drawn at random up to the backoff.
    pub fn next_step(&mut self, outcome: Result<MarketSnapshot, DataError>) -> (r: RetryStep)
        requires
            old(self).wf(),
        ensures
            exists|j: nat|
                r == step_of(old(self).config, old(self).attempt as nat, outcome, j),
            final(self).attempt == attempt_after(old(self).attempt as nat, outcome),
            final(self).config == old(self).config,
            r is Wait ==> final(self).wf(),
    {
        let jitter: u64 = match &outcome {
            Err(e) => if e.counts_against_budget() && self.attempt + 1 < self.config.max_attempts {
                draw_jitter(backoff_secs(self.attempt + 1))
            } else {
                0
            },
            Ok(_) => 0,
        };
        self.record(outcome, jitter)
    }
}

} // verus!
