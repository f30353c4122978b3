//! Verified core of a streaming-to-relational ingestion engine for
//! blockchain history.
//!
//! The library holds the logic of the engine: building positional
//! placeholder groups for bulk-write statements, splitting record batches
//! into bounded chunks, the exponential-backoff retry policy, the
//! conversion of chain messages into row-shaped records, and the
//! crash-recovery computation of a safe resume height.  The surrounding
//! process (the chain-data stream, the SQL connection pool, logging) is
//! ordinary I/O and lives outside the library; it hands plain values in
//! and takes plain values back.

mod config;
mod errors;
mod ingest;
mod models;
mod queries;
mod recovery;
mod retry;
mod store;
mod views;

pub use config::{IngestConfig, RetryConfig};
pub use errors::IngestError;
pub use models::account_changes::AccountChange;
pub use models::blocks::Block;
pub use models::{
    chunked_insert, delete_retry_or_panic, insert_retry_or_panic, lemma_chunking,
    select_retry_or_panic, FieldCount, MySqlMethods, SelectQuery, Timestamped,
};
pub use ingest::{
    handle_streamer_message, lemma_affecting_indices, process_streamer_message, EntityBatches,
};
pub use recovery::{
    lemma_recovery_idempotent_uniform, lemma_recovery_resume_height, start_after_interruption,
};
pub use queries::{create_placeholder, create_placeholders, lemma_placeholder_markers};
pub use retry::{lemma_backoff_monotonic, next_interval, run_retries, AttemptLog};
pub use store::StoreModel;
pub use views::{
    AccessKeyPermission, AccountView, BlockHeaderView, BlockView, ExecutionStatus, PrintEnum,
    StateChangeCause, StateChangeValue, StateChangeWithCause, StreamerMessage,
};
