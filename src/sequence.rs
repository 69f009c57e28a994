//! Whole retry sequences: the outcome of stepping a `RetryState` through a
//! run of fetch outcomes, and the laws such runs obey.

use vstd::prelude::*;
use vstd::arithmetic::power2::{
    pow2,
    lemma_pow2_unfold,
    lemma_pow2_strictly_increases,
    lemma2_to64_rest,
};
use crate::error::{DataError, spec_counts_against_budget};
use crate::retry::{RetryConfig, RetryStep, step_of, attempt_after};
use crate::snapshot::MarketSnapshot;

verus! {

/// What a run of fetch outcomes led to.
pub struct SequenceOutcome {
    /// The final result, or `None` if the outcomes ran out first.
    pub result: Option<Result<MarketSnapshot, DataError>>,
    /// The sleeps taken between calls, in order.
    pub delays: Seq<u64>,
    /// How many of the outcomes were consumed, that is, fetch calls made.
    pub calls: nat,
}

/// Steps a sequence with `attempt` counted failures behind it through
/// `outcomes`, the `i`-th drawing `jitters[i]`, until it finishes or the
/// outcomes run out.
pub open spec fn run(
    cfg: RetryConfig,
    attempt: nat,
    outcomes: Seq<Result<MarketSnapshot, DataError>>,
    jitters: Seq<nat>,
) -> SequenceOutcome
    decreases outcomes.len(),
{
    if outcomes.len() == 0 {
        SequenceOutcome { result: None, delays: seq![], calls: 0 }
    } else {
        match step_of(cfg, attempt, outcomes[0], jitters[0]) {
            RetryStep::Finish(r) => SequenceOutcome { result: Some(r), delays: seq![], calls: 1 },
            RetryStep::Wait(d) => {
                let rest = run(
                    cfg,
                    attempt_after(attempt, outcomes[0]),
                    outcomes.drop_first(),
                    jitters.drop_first(),
                );
                SequenceOutcome {
                    result: rest.result,
                    delays: seq![d].add(rest.delays),
                    calls: rest.calls + 1,
                }
            },
        }
    }
}

/// A failure that uses up an attempt.
pub open spec fn is_counted_failure(o: Result<MarketSnapshot, DataError>) -> bool {
    o is Err && spec_counts_against_budget(o->Err_0)
}

proof fn lemma_backoff_fits(a: nat, j: nat)
    requires
        1 <= a <= 62,
    ensures
        pow2(a) <= crate::retry::backoff_delay(a, j) <= pow2(a + 1),
        pow2(a + 1) <= 0x8000000000000000,
{
    lemma_pow2_unfold(a + 1);
    lemma2_to64_rest();
    if a < 62 {
        lemma_pow2_strictly_increases(a, 62);
    }
}

proof fn lemma_counted_then_success_from(
    cfg: RetryConfig,
    a: nat,
    outcomes: Seq<Result<MarketSnapshot, DataError>>,
    s: MarketSnapshot,
    jitters: Seq<nat>,
)
    requires
        cfg.wf(),
        outcomes.len() >= 1,
        a + outcomes.len() - 1 < cfg.max_attempts,
        forall|i: int| 0 <= i < outcomes.len() - 1 ==> is_counted_failure(#[trigger] outcomes[i]),
        outcomes.last() == Ok::<MarketSnapshot, DataError>(s),
    ensures
        ({
            let r = run(cfg, a, outcomes, jitters);
            &&& r.result == Some(Ok::<MarketSnapshot, DataError>(s))
            &&& r.calls == outcomes.len()
            &&& r.delays.len() == outcomes.len() - 1
            &&& forall|i: int|
                0 <= i < r.delays.len() ==> pow2((a + i + 1) as nat) <= #[trigger] r.delays[i]
                    <= pow2((a + i + 2) as nat)
        }),
    decreases outcomes.len(),
{
    if outcomes.len() > 1 {
        let rest = outcomes.drop_first();
        assert(is_counted_failure(outcomes[0]));
        assert(rest.last() == outcomes.last());
        assert forall|i: int| 0 <= i < rest.len() - 1 implies is_counted_failure(#[trigger] rest[i]) by {
            assert(rest[i] == outcomes[i + 1]);
        }
        lemma_counted_then_success_from(cfg, a + 1, rest, s, jitters.drop_first());
        lemma_backoff_fits(a + 1, jitters[0]);
        let r = run(cfg, a, outcomes, jitters);
        let rr = run(cfg, a + 1, rest, jitters.drop_first());
        assert forall|i: int| 0 <= i < r.delays.len() implies pow2((a + i + 1) as nat)
            <= #[trigger] r.delays[i] <= pow2((a + i + 2) as nat) by {
            if i > 0 {
                assert(r.delays[i] == rr.delays[i - 1]);
                assert((a + 1 + (i - 1) + 1) as nat == (a + i + 1) as nat);
            }
        }
    }
}

/// Fewer counted failures than the budget allows, then a success: the
/// sequence returns that success, after one sleep per failure, and the
/// sleeps never get shorter.
pub proof fn lemma_transient_failures_then_success(
    cfg: RetryConfig,
    outcomes: Seq<Result<MarketSnapshot, DataError>>,
    s: MarketSnapshot,
    jitters: Seq<nat>,
)
    requires
        cfg.wf(),
        outcomes.len() >= 1,
        outcomes.len() - 1 < cfg.max_attempts,
        forall|i: int| 0 <= i < outcomes.len() - 1 ==> is_counted_failure(#[trigger] outcomes[i]),
        outcomes.last() == Ok::<MarketSnapshot, DataError>(s),
    ensures
        ({
            let r = run(cfg, 0, outcomes, jitters);
            &&& r.result == Some(Ok::<MarketSnapshot, DataError>(s))
            &&& r.calls == outcomes.len()
            &&& r.delays.len() == outcomes.len() - 1
            &&& forall|i: int, j: int|
                0 <= i <= j < r.delays.len() ==> #[trigger] r.delays[i] <= #[trigger] r.delays[j]
        }),
{
    lemma_counted_then_success_from(cfg, 0, outcomes, s, jitters);
    let r = run(cfg, 0, outcomes, jitters);
    assert forall|i: int, j: int| 0 <= i <= j < r.delays.len() implies #[trigger] r.delays[i]
        <= #[trigger] r.delays[j] by {
        if i < j {
            if i + 2 < j + 1 {
                lemma_pow2_strictly_increases((i + 2) as nat, (j + 1) as nat);
            }
            assert((0 + i + 2) as nat == (i + 2) as nat);
            assert((0 + j + 1) as nat == (j + 1) as nat);
        }
    }
}

proof fn lemma_counted_failures_exhaust_from(
    cfg: RetryConfig,
    a: nat,
    outcomes: Seq<Result<MarketSnapshot, DataError>>,
    jitters: Seq<nat>,
)
    requires
        cfg.wf(),
        a < cfg.max_attempts,
        outcomes.len() >= cfg.max_attempts - a,
        forall|i: int| 0 <= i < cfg.max_attempts - a ==> is_counted_failure(#[trigger] outcomes[i]),
    ensures
        ({
            let r = run(cfg, a, outcomes, jitters);
            &&& r.result == Some(outcomes[cfg.max_attempts - a - 1])
            &&& r.calls == cfg.max_attempts - a
            &&& r.delays.len() == cfg.max_attempts - a - 1
        }),
    decreases outcomes.len(),
{
    assert(is_counted_failure(outcomes[0]));
    if a + 1 < cfg.max_attempts {
        let rest = outcomes.drop_first();
        assert forall|i: int| 0 <= i < cfg.max_attempts - (a + 1) implies is_counted_failure(
            #[trigger] rest[i],
        ) by {
            assert(rest[i] == outcomes[i + 1]);
        }
        lemma_counted_failures_exhaust_from(cfg, a + 1, rest, jitters.drop_first());
        assert(rest[cfg.max_attempts - (a + 1) - 1] == outcomes[cfg.max_attempts - a - 1]);
    }
}

/// As many counted failures in a row as the budget allows: the sequence
/// ends with the last of them as its error, after exactly that many calls,
/// whatever outcomes would have come next.
pub proof fn lemma_budget_exhausted(
    cfg: RetryConfig,
    outcomes: Seq<Result<MarketSnapshot, DataError>>,
    jitters: Seq<nat>,
)
    requires
        cfg.wf(),
        outcomes.len() >= cfg.max_attempts,
        forall|i: int| 0 <= i < cfg.max_attempts ==> is_counted_failure(#[trigger] outcomes[i]),
    ensures
        ({
            let r = run(cfg, 0, outcomes, jitters);
            &&& r.result == Some(outcomes[cfg.max_attempts - 1])
            &&& r.result->Some_0 is Err
            &&& r.calls == cfg.max_attempts
            &&& r.delays.len() == cfg.max_attempts - 1
        }),
{
    lemma_counted_failures_exhaust_from(cfg, 0, outcomes, jitters);
    assert(is_counted_failure(outcomes[cfg.max_attempts - 1]));
}

/// A run of rate-limited responses, from any point of a sequence, never
/// ends it: each one costs exactly the cooldown and no attempt.
pub proof fn lemma_rate_limited_never_fails(
    cfg: RetryConfig,
    a: nat,
    outcomes: Seq<Result<MarketSnapshot, DataError>>,
    jitters: Seq<nat>,
)
    requires
        cfg.wf(),
        a < cfg.max_attempts,
        forall|i: int| 0 <= i < outcomes.len() ==> #[trigger] outcomes[i] == Err::<MarketSnapshot, DataError>(DataError::RateLimited),
    ensures
        run(cfg, a, outcomes, jitters).result is None,
        run(cfg, a, outcomes, jitters).calls == outcomes.len(),
        run(cfg, a, outcomes, jitters).delays =~= Seq::new(outcomes.len(), |i: int| cfg.rate_limit_cooldown_secs),
    decreases outcomes.len(),
{
    if outcomes.len() > 0 {
        let rest = outcomes.drop_first();
        assert(outcomes[0] == Err::<MarketSnapshot, DataError>(DataError::RateLimited));
        assert forall|i: int| 0 <= i < rest.len() implies #[trigger] rest[i] == Err::<MarketSnapshot, DataError>(DataError::RateLimited) by {
            assert(rest[i] == outcomes[i + 1]);
        }
        lemma_rate_limited_never_fails(cfg, a, rest, jitters.drop_first());
    }
}

/// Any number of rate-limited responses followed by a success: the
/// sequence returns that success after sleeping the cooldown once per
/// rate-limited response, from any point of a sequence.
pub proof fn lemma_rate_limited_then_success(
    cfg: RetryConfig,
    a: nat,
    outcomes: Seq<Result<MarketSnapshot, DataError>>,
    s: MarketSnapshot,
    jitters: Seq<nat>,
)
    requires
        cfg.wf(),
        a < cfg.max_attempts,
        outcomes.len() >= 1,
        forall|i: int| 0 <= i < outcomes.len() - 1 ==> #[trigger] outcomes[i] == Err::<MarketSnapshot, DataError>(DataError::RateLimited),
        outcomes.last() == Ok::<MarketSnapshot, DataError>(s),
    ensures
        run(cfg, a, outcomes, jitters).result == Some(Ok::<MarketSnapshot, DataError>(s)),
        run(cfg, a, outcomes, jitters).calls == outcomes.len(),
        run(cfg, a, outcomes, jitters).delays =~= Seq::new((outcomes.len() - 1) as nat, |i: int| cfg.rate_limit_cooldown_secs),
    decreases outcomes.len(),
{
    if outcomes.len() > 1 {
        let rest = outcomes.drop_first();
        assert(outcomes[0] == Err::<MarketSnapshot, DataError>(DataError::RateLimited));
        assert(rest.last() == outcomes.last());
        assert forall|i: int| 0 <= i < rest.len() - 1 implies #[trigger] rest[i] == Err::<MarketSnapshot, DataError>(DataError::RateLimited) by {
            assert(rest[i] == outcomes[i + 1]);
        }
        lemma_rate_limited_then_success(cfg, a, rest, s, jitters.drop_first());
    }
}

} // verus!
