//! The retry executor's policy: exponential backoff with a cap, and a
//! bounded attempt budget.
//!
//! The executor itself must sleep and re-issue a store call, which is
//! I/O; the decisions it takes are pure and live here.  `next_interval`
//! is the doubling step the runtime loop uses between attempts, and
//! `run_retries` is the whole policy run against a given sequence of
//! attempt outcomes, so that every property of the policy is stated and
//! proved over arbitrary failure patterns.

use vstd::prelude::*;

use crate::config::RetryConfig;

verus! {

/// Two to the power `e` (one for a non-positive `e`).
pub open spec fn pow2(e: int) -> int
    decreases e,
{
    if e <= 0 {
        1
    } else {
        2 * pow2(e - 1)
    }
}

/// A power of two is positive.
pub proof fn lemma_pow2_pos(e: int)
    ensures
        pow2(e) >= 1,
    decreases e,
{
    if e > 0 {
        lemma_pow2_pos(e - 1);
    }
}

/// The backoff interval slept after failed attempt `i` (counting from
/// zero): the base doubled `i` times, capped at the configured maximum.
pub open spec fn backoff_at(cfg: RetryConfig, i: int) -> int {
    if cfg.base_interval_ms * pow2(i) <= cfg.max_interval_ms {
        cfg.base_interval_ms * pow2(i)
    } else {
        cfg.max_interval_ms as int
    }
}

/// How doubling-with-cap steps from one backoff interval to the next.
proof fn lemma_backoff_step(cfg: RetryConfig, i: int)
    requires
        cfg.wf(),
        i >= 0,
    ensures
        backoff_at(cfg, i + 1) == if 2 * backoff_at(cfg, i) <= cfg.max_interval_ms as int {
            2 * backoff_at(cfg, i)
        } else {
            cfg.max_interval_ms as int
        },
{
    lemma_pow2_pos(i);
    assert(cfg.base_interval_ms * pow2(i + 1) == 2 * (cfg.base_interval_ms * pow2(i)))
        by (nonlinear_arith)
        requires
            pow2(i + 1) == 2 * pow2(i),
    ;
}

/// LAW (backoff monotonicity): under a usable policy the wait interval
/// never decreases from one failed attempt to the next, and never
/// exceeds the configured cap; it also never falls under the base.
pub proof fn lemma_backoff_monotonic(cfg: RetryConfig, i: int, j: int)
    requires
        cfg.wf(),
        0 <= i <= j,
    ensures
        backoff_at(cfg, i) <= backoff_at(cfg, j),
        cfg.base_interval_ms <= backoff_at(cfg, i) <= cfg.max_interval_ms,
    decreases j - i,
{
    lemma_pow2_pos(i);
    assert(cfg.base_interval_ms * pow2(i) >= cfg.base_interval_ms * 1) by (nonlinear_arith)
        requires
            pow2(i) >= 1,
            cfg.base_interval_ms >= 0,
    ;
    if i < j {
        lemma_backoff_step(cfg, i);
        lemma_backoff_monotonic(cfg, i + 1, j);
    }
}

/// How many attempts of an operation fail in a row before one succeeds:
/// the number of leading `true` entries of the failure schedule.  An
/// attempt beyond the end of the schedule succeeds.
pub open spec fn consecutive_failures(fails: Seq<bool>) -> int
    decreases fails.len(),
{
    if fails.len() == 0 {
        0
    } else if !fails[0] {
        0
    } else {
        1 + consecutive_failures(fails.drop_first())
    }
}

/// The number of failed attempts the executor performs under budget
/// `retry_count`: all the consecutive failures, but never more than the
/// budget.
pub open spec fn spec_failed_attempts(fails: Seq<bool>, retry_count: int) -> int {
    if consecutive_failures(fails) <= retry_count {
        consecutive_failures(fails)
    } else {
        retry_count
    }
}

/// Whether the executor reaches a successful attempt before the budget
/// is exhausted.
pub open spec fn spec_retry_succeeds(fails: Seq<bool>, retry_count: int) -> bool {
    consecutive_failures(fails) < retry_count
}

/// The failure count is never negative and never exceeds the schedule.
proof fn lemma_consecutive_failures_bounds(fails: Seq<bool>)
    ensures
        0 <= consecutive_failures(fails) <= fails.len(),
    decreases fails.len(),
{
    if fails.len() > 0 && fails[0] {
        lemma_consecutive_failures_bounds(fails.drop_first());
    }
}

/// If the first `i` attempts all fail, at least `i` failures lead the
/// schedule.
proof fn lemma_consecutive_failures_at_least(fails: Seq<bool>, i: int)
    requires
        0 <= i <= fails.len(),
        forall|j: int| 0 <= j < i ==> fails[j],
    ensures
        consecutive_failures(fails) >= i,
    decreases i,
{
    lemma_consecutive_failures_bounds(fails);
    if i > 0 {
        assert(fails[0]);
        assert forall|j: int| 0 <= j < i - 1 implies fails.drop_first()[j] by {
            assert(fails.drop_first()[j] == fails[j + 1]);
        }
        lemma_consecutive_failures_at_least(fails.drop_first(), i - 1);
        assert(consecutive_failures(fails) == 1 + consecutive_failures(fails.drop_first()));
    }
}

/// If the first `i` attempts all fail and attempt `i` succeeds, the
/// schedule leads with exactly `i` failures.
proof fn lemma_consecutive_failures_exact(fails: Seq<bool>, i: int)
    requires
        0 <= i <= fails.len(),
        forall|j: int| 0 <= j < i ==> fails[j],
        i == fails.len() || !fails[i],
    ensures
        consecutive_failures(fails) == i,
    decreases i,
{
    if i == 0 {
    } else {
        assert(fails[0]);
        assert forall|j: int| 0 <= j < i - 1 implies fails.drop_first()[j] by {
            assert(fails.drop_first()[j] == fails[j + 1]);
        }
        if i < fails.len() {
            assert(fails.drop_first()[i - 1] == fails[i]);
        }
        lemma_consecutive_failures_exact(fails.drop_first(), i - 1);
    }
}

/// What one whole run of the retry executor did: how many attempts were
/// made, the backoff interval slept after each failed attempt, and
/// whether an attempt succeeded in the end.
#[derive(Debug, Clone, PartialEq, Eq)]
pub struct AttemptLog {
    pub attempts: usize,
    pub intervals: Vec<u64>,
    pub succeeded: bool,
}

/// The doubling step between attempts: the next backoff interval, twice
/// the current one but never above the cap.
pub fn next_interval(interval: u64, cap: u64) -> (r: u64)
    requires
        interval <= cap,
    ensures
        r as int == if 2 * (interval as int) <= cap as int {
            2 * (interval as int)
        } else {
            cap as int
        },
        interval <= r <= cap,
{
    if interval <= cap / 2 {
        interval * 2
    } else {
        cap
    }
}

/// Runs the whole retry policy against a schedule of attempt outcomes:
/// entry `i` of `fails` says whether attempt `i` fails transiently, and
/// attempts beyond the schedule succeed.  The run stops at the first
/// success, or after `retry_count` attempts have failed.  The log records
/// exactly the backoff intervals of the failed attempts, in order.
pub fn run_retries(fails: &Vec<bool>, cfg: &RetryConfig) -> (r: AttemptLog)
    requires
        cfg.wf(),
    ensures
        r.succeeded == spec_retry_succeeds(fails@, cfg.retry_count as int),
        r.intervals@.len() == spec_failed_attempts(fails@, cfg.retry_count as int),
        forall|i: int|
            0 <= i < r.intervals@.len() ==> r.intervals@[i] == backoff_at(*cfg, i),
        r.attempts == spec_failed_attempts(fails@, cfg.retry_count as int) + if r.succeeded {
            1int
        } else {
            0int
        },
{
    let mut interval: u64 = cfg.base_interval_ms;
    let mut intervals: Vec<u64> = Vec::new();
    let mut attempt: usize = 0;
    proof {
        lemma_pow2_pos(0);
    }
    while attempt < cfg.retry_count
        invariant
            cfg.wf(),
            attempt <= cfg.retry_count,
            attempt <= fails@.len(),
            forall|j: int| 0 <= j < attempt ==> fails@[j],
            intervals@.len() == attempt,
            forall|i: int| 0 <= i < attempt ==> intervals@[i] == backoff_at(*cfg, i),
            interval as int == backoff_at(*cfg, attempt as int),
            interval <= cfg.max_interval_ms,
        decreases cfg.retry_count - attempt,
    {
        let failed_now = attempt < fails.len() && fails[attempt];
        if !failed_now {
            proof {
                lemma_consecutive_failures_exact(fails@, attempt as int);
            }
            return AttemptLog { attempts: attempt + 1, intervals, succeeded: true };
        }
        intervals.push(interval);
        interval = next_interval(interval, cfg.max_interval_ms);
        proof {
            lemma_backoff_step(*cfg, attempt as int);
            lemma_backoff_monotonic(*cfg, attempt as int + 1, attempt as int + 1);
        }
        attempt = attempt + 1;
    }
    proof {
        lemma_consecutive_failures_at_least(fails@, cfg.retry_count as int);
    }
    AttemptLog { attempts: attempt, intervals, succeeded: false }
}

} // verus!
