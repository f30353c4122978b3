//! The error taxonomy of the ingestion engine.

use vstd::prelude::*;

use crate::views::StateChangeCause;

verus! {

/// Every failure the library can report.
///
/// - `EmptyInput` is a defensive check: a bulk-write statement was
///   requested for zero rows or zero fields, which indicates a caller
///   bug.
/// - `RetriesExhausted` is fatal: a store operation kept failing past
///   the configured attempt budget.  It carries the table the operation
///   was for, the shape of the attempted statement, and how many
///   attempts were made.
/// - `UnexpectedCause` is a data-source contract breach: an account
///   change arrived with a cause tag that the chain contract rules out.
///   It carries the offending cause and must never be retried.
#[derive(Debug, Clone, PartialEq, Eq)]
pub enum IngestError {
    EmptyInput,
    RetriesExhausted { table: String, statement: String, attempts: usize },
    UnexpectedCause { cause: StateChangeCause },
}

} // verus!
