//! Placeholder generation, statement building and the retry policy.

use chain_ingest::{
    create_placeholder, create_placeholders, next_interval, run_retries, Block, FieldCount,
    IngestError, MySqlMethods, RetryConfig, SelectQuery,
};
use chain_ingest::AccountChange;

fn small_retry(retry_count: usize) -> RetryConfig {
    RetryConfig { base_interval_ms: 100, max_interval_ms: 250, retry_count }
}

#[test]
fn placeholders_single_group() {
    assert_eq!(create_placeholders(1, 3).unwrap(), "($1, $2, $3)");
}

#[test]
fn placeholders_two_rows_two_fields() {
    assert_eq!(create_placeholders(2, 2).unwrap(), "($1, $2), ($3, $4)");
}

#[test]
fn placeholders_markers_increase_without_repetition() {
    assert_eq!(
        create_placeholders(3, 4).unwrap(),
        "($1, $2, $3, $4), ($5, $6, $7, $8), ($9, $10, $11, $12)"
    );
}

#[test]
fn placeholders_zero_rows_rejected() {
    assert_eq!(create_placeholders(0, 5), Err(IngestError::EmptyInput));
}

#[test]
fn placeholders_zero_fields_rejected() {
    assert_eq!(create_placeholders(4, 0), Err(IngestError::EmptyInput));
}

#[test]
fn placeholder_advances_start_number() {
    let mut start: usize = 5;
    assert_eq!(create_placeholder(&mut start, 2).unwrap(), "($5, $6)");
    assert_eq!(start, 7);
}

#[test]
fn placeholder_zero_fields_leaves_start_number() {
    let mut start: usize = 5;
    assert_eq!(create_placeholder(&mut start, 0), Err(IngestError::EmptyInput));
    assert_eq!(start, 5);
}

#[test]
fn block_insert_statement_text() {
    assert_eq!(
        <Block as MySqlMethods>::insert_query(2).unwrap(),
        "INSERT INTO blocks VALUES ($1, $2, $3, $4, $5, $6, $7), \
         ($8, $9, $10, $11, $12, $13, $14)"
    );
}

#[test]
fn account_change_insert_statement_text() {
    assert_eq!(
        <AccountChange as MySqlMethods>::insert_query(1).unwrap(),
        "INSERT INTO account_changes VALUES ($1, $2, $3, $4, $5, $6, $7, $8, $9, $10)"
    );
}

#[test]
fn insert_statement_zero_rows_rejected() {
    assert_eq!(<Block as MySqlMethods>::insert_query(0), Err(IngestError::EmptyInput));
}

#[test]
fn delete_statement_texts() {
    assert_eq!(
        <Block as MySqlMethods>::delete_query(),
        "DELETE FROM blocks WHERE block_timestamp = $1"
    );
    assert_eq!(
        <AccountChange as MySqlMethods>::delete_query(),
        "DELETE FROM account_changes WHERE changed_in_block_timestamp = $1"
    );
}

#[test]
fn table_names_and_field_counts() {
    assert_eq!(<Block as MySqlMethods>::name(), "blocks");
    assert_eq!(<AccountChange as MySqlMethods>::name(), "account_changes");
    assert_eq!(<Block as FieldCount>::field_count(), 7);
    assert_eq!(<AccountChange as FieldCount>::field_count(), 10);
}

#[test]
fn select_statement_texts() {
    assert_eq!(
        SelectQuery::MaxBlockTimestamp.text(),
        "SELECT block_timestamp FROM blocks ORDER BY block_timestamp DESC LIMIT 1"
    );
    assert_eq!(
        SelectQuery::MaxBlockHeight.text(),
        "SELECT block_height FROM blocks ORDER BY block_height DESC LIMIT 1"
    );
}

#[test]
fn next_interval_doubles_then_caps() {
    assert_eq!(next_interval(100, 250), 200);
    assert_eq!(next_interval(200, 250), 250);
    assert_eq!(next_interval(250, 250), 250);
    assert_eq!(next_interval(1, 1), 1);
}

#[test]
fn retry_succeeds_after_two_failures() {
    let fails = vec![true, true, false];
    let log = run_retries(&fails, &small_retry(10));
    assert!(log.succeeded);
    assert_eq!(log.attempts, 3);
    assert_eq!(log.intervals, vec![100, 200]);
}

#[test]
fn retry_intervals_never_decrease_and_never_exceed_cap() {
    let fails = vec![true; 6];
    let log = run_retries(&fails, &small_retry(10));
    assert!(log.succeeded);
    assert_eq!(log.attempts, 7);
    assert_eq!(log.intervals, vec![100, 200, 250, 250, 250, 250]);
    for w in log.intervals.windows(2) {
        assert!(w[0] <= w[1]);
    }
    assert!(log.intervals.iter().all(|ms| *ms <= 250));
}

#[test]
fn retry_gives_up_after_budget() {
    let fails = vec![true, true, true, true];
    let log = run_retries(&fails, &small_retry(3));
    assert!(!log.succeeded);
    assert_eq!(log.attempts, 3);
    assert_eq!(log.intervals, vec![100, 200, 250]);
}

#[test]
fn retry_first_attempt_succeeds_without_schedule() {
    let fails: Vec<bool> = vec![];
    let log = run_retries(&fails, &small_retry(5));
    assert!(log.succeeded);
    assert_eq!(log.attempts, 1);
    assert!(log.intervals.is_empty());
}
