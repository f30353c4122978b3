//! Configuration of the retry executor and the batch writer.
//!
//! The backoff base and cap, the attempt budget and the chunk size are
//! explicit values handed to the functions that need them, so callers
//! (and tests) can inject their own.

use vstd::prelude::*;

verus! {

/// Retry policy of every store operation: the first backoff interval,
/// the cap it doubles up to, and how many attempts are made before the
/// operation fails fatally.
#[derive(Debug, Clone, Copy, PartialEq, Eq)]
pub struct RetryConfig {
    pub base_interval_ms: u64,
    pub max_interval_ms: u64,
    pub retry_count: usize,
}

impl RetryConfig {
    /// A usable retry policy: a positive base no larger than the cap,
    /// and at least one attempt.
    pub open spec fn wf(self) -> bool {
        1 <= self.base_interval_ms && self.base_interval_ms <= self.max_interval_ms
            && self.retry_count >= 1
    }
}

/// Configuration of the whole ingestion pipeline: the maximum number of
/// rows one bulk-write statement may cover, and the retry policy.
#[derive(Debug, Clone, Copy, PartialEq, Eq)]
pub struct IngestConfig {
    pub chunk_size: usize,
    pub retry: RetryConfig,
}

impl IngestConfig {
    /// A usable pipeline configuration.  The chunk size is positive and
    /// small enough that a statement's placeholder indices stay far from
    /// machine limits for any row type with at most a thousand fields.
    pub open spec fn wf(self) -> bool {
        1 <= self.chunk_size && self.chunk_size <= 100_000 && self.retry.wf()
    }
}

} // verus!
