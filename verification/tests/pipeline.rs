//! Conversion of chain messages, batch writes against the model store,
//! crash recovery, and the whole ingestion path of one message.

use chain_ingest::{
    chunked_insert, delete_retry_or_panic, handle_streamer_message, insert_retry_or_panic,
    process_streamer_message, select_retry_or_panic, start_after_interruption, AccessKeyPermission,
    AccountChange, AccountView, Block, BlockHeaderView, BlockView, ExecutionStatus, IngestConfig,
    IngestError, PrintEnum, RetryConfig, SelectQuery, StateChangeCause, StateChangeValue,
    StateChangeWithCause, StoreModel, StreamerMessage,
};

fn retry(retry_count: usize) -> RetryConfig {
    RetryConfig { base_interval_ms: 100, max_interval_ms: 800, retry_count }
}

fn config(chunk_size: usize) -> IngestConfig {
    IngestConfig { chunk_size, retry: retry(10) }
}

fn block(height: u64, timestamp: u64) -> Block {
    Block {
        block_height: height,
        block_hash: format!("hash-{height}"),
        prev_block_hash: format!("hash-{}", height.wrapping_sub(1)),
        block_timestamp: timestamp,
        total_supply: 1_000_000_000_000_000_000_000_000u128,
        gas_price: 100_000_000u128,
        author_account_id: "validator.near".to_string(),
    }
}

fn change_row(timestamp: u64, index: i32) -> AccountChange {
    AccountChange {
        affected_account_id: "alice.near".to_string(),
        changed_in_block_timestamp: timestamp,
        changed_in_block_hash: "some-hash".to_string(),
        caused_by_transaction_hash: None,
        caused_by_receipt_id: None,
        update_reason: "MIGRATION".to_string(),
        affected_account_nonstaked_balance: 1,
        affected_account_staked_balance: 2,
        affected_account_storage_usage: 3,
        index_in_block: index,
    }
}

fn block_view(height: u64, timestamp: u64) -> BlockView {
    BlockView {
        author: "validator.near".to_string(),
        header: BlockHeaderView {
            height,
            hash: format!("hash-{height}"),
            prev_hash: format!("hash-{}", height.wrapping_sub(1)),
            timestamp,
            total_supply: 77_000_000_000_000_000_000u128,
            gas_price: 625_000_000u128,
        },
    }
}

fn update_change(cause: StateChangeCause) -> StateChangeWithCause {
    StateChangeWithCause {
        cause,
        value: StateChangeValue::AccountUpdate {
            account_id: "alice.near".to_string(),
            account: AccountView { amount: 500, locked: 70, storage_usage: 182 },
        },
    }
}

#[test]
fn enum_labels() {
    assert_eq!(ExecutionStatus::Unknown.print(), "UNKNOWN");
    assert_eq!(ExecutionStatus::Failure.print(), "FAILURE");
    assert_eq!(ExecutionStatus::SuccessValue.print(), "SUCCESS_VALUE");
    assert_eq!(ExecutionStatus::SuccessReceiptId.print(), "SUCCESS_RECEIPT_ID");
    assert_eq!(AccessKeyPermission::FunctionCall.print(), "FUNCTION_CALL");
    assert_eq!(AccessKeyPermission::FullAccess.print(), "FULL_ACCESS");
    assert_eq!(StateChangeCause::UpdatedDelayedReceipts.print(), "UPDATED_DELAYED_RECEIPTS");
    assert_eq!(StateChangeCause::ValidatorAccountsUpdate.print(), "VALIDATOR_ACCOUNTS_UPDATE");
    assert_eq!(StateChangeCause::Migration.print(), "MIGRATION");
    assert_eq!(StateChangeCause::Resharding.print(), "RESHARDING");
}

#[test]
fn block_row_from_view() {
    let v = block_view(83030086, 1_654_000_000_000_000_000);
    let row = Block::from_view(&v);
    assert_eq!(row.block_height, 83030086);
    assert_eq!(row.block_hash, "hash-83030086");
    assert_eq!(row.prev_block_hash, "hash-83030085");
    assert_eq!(row.block_timestamp, 1_654_000_000_000_000_000);
    assert_eq!(row.total_supply, 77_000_000_000_000_000_000u128);
    assert_eq!(row.gas_price, 625_000_000u128);
    assert_eq!(row.author_account_id, "validator.near");
}

#[test]
fn conversion_update_caused_by_transaction() {
    let sc = update_change(StateChangeCause::TransactionProcessing {
        tx_hash: "tx-1".to_string(),
    });
    let row = AccountChange::from_state_change_with_cause(&sc, &"h".to_string(), 42, 7)
        .unwrap()
        .unwrap();
    assert_eq!(row.affected_account_id, "alice.near");
    assert_eq!(row.changed_in_block_timestamp, 42);
    assert_eq!(row.changed_in_block_hash, "h");
    assert_eq!(row.caused_by_transaction_hash, Some("tx-1".to_string()));
    assert_eq!(row.caused_by_receipt_id, None);
    assert_eq!(row.update_reason, "TRANSACTION_PROCESSING");
    assert_eq!(row.affected_account_nonstaked_balance, 500);
    assert_eq!(row.affected_account_staked_balance, 70);
    assert_eq!(row.affected_account_storage_usage, 182);
    assert_eq!(row.index_in_block, 7);
}

#[test]
fn conversion_deletion_zeroes_balances() {
    let sc = StateChangeWithCause {
        cause: StateChangeCause::ValidatorAccountsUpdate,
        value: StateChangeValue::AccountDeletion { account_id: "bob.near".to_string() },
    };
    let row = AccountChange::from_state_change_with_cause(&sc, &"h".to_string(), 1, 0)
        .unwrap()
        .unwrap();
    assert_eq!(row.affected_account_id, "bob.near");
    assert_eq!(row.caused_by_transaction_hash, None);
    assert_eq!(row.caused_by_receipt_id, None);
    assert_eq!(row.update_reason, "VALIDATOR_ACCOUNTS_UPDATE");
    assert_eq!(row.affected_account_nonstaked_balance, 0);
    assert_eq!(row.affected_account_staked_balance, 0);
    assert_eq!(row.affected_account_storage_usage, 0);
}

#[test]
fn conversion_receipt_cause_variants() {
    let cases = [
        (
            StateChangeCause::ActionReceiptProcessingStarted { receipt_hash: "r1".to_string() },
            "ACTION_RECEIPT_PROCESSING_STARTED",
            "r1",
        ),
        (
            StateChangeCause::ActionReceiptGasReward { receipt_hash: "r2".to_string() },
            "ACTION_RECEIPT_GAS_REWARD",
            "r2",
        ),
        (
            StateChangeCause::ReceiptProcessing { receipt_hash: "r3".to_string() },
            "RECEIPT_PROCESSING",
            "r3",
        ),
        (
            StateChangeCause::PostponedReceipt { receipt_hash: "r4".to_string() },
            "POSTPONED_RECEIPT",
            "r4",
        ),
    ];
    for (cause, label, receipt) in cases {
        let sc = update_change(cause);
        let row = AccountChange::from_state_change_with_cause(&sc, &"h".to_string(), 9, 1)
            .unwrap()
            .unwrap();
        assert_eq!(row.update_reason, label);
        assert_eq!(row.caused_by_receipt_id, Some(receipt.to_string()));
        assert_eq!(row.caused_by_transaction_hash, None);
    }
}

#[test]
fn conversion_skips_non_account_changes() {
    let sc = StateChangeWithCause {
        cause: StateChangeCause::Migration,
        value: StateChangeValue::DataUpdate,
    };
    assert_eq!(
        AccountChange::from_state_change_with_cause(&sc, &"h".to_string(), 1, 0),
        Ok(None)
    );
    let sc = StateChangeWithCause {
        cause: StateChangeCause::NotWritableToDisk,
        value: StateChangeValue::AccessKeyUpdate,
    };
    assert_eq!(
        AccountChange::from_state_change_with_cause(&sc, &"h".to_string(), 1, 0),
        Ok(None)
    );
}

#[test]
fn conversion_rejects_impossible_causes() {
    let sc = update_change(StateChangeCause::NotWritableToDisk);
    assert_eq!(
        AccountChange::from_state_change_with_cause(&sc, &"h".to_string(), 1, 0),
        Err(IngestError::UnexpectedCause { cause: StateChangeCause::NotWritableToDisk })
    );
    let sc = update_change(StateChangeCause::InitialState);
    assert_eq!(
        AccountChange::from_state_change_with_cause(&sc, &"h".to_string(), 1, 0),
        Err(IngestError::UnexpectedCause { cause: StateChangeCause::InitialState })
    );
}

#[test]
fn message_conversion_indexes_rows_consecutively() {
    let msg = StreamerMessage {
        block: block_view(10, 1000),
        state_changes: vec![
            update_change(StateChangeCause::TransactionProcessing { tx_hash: "t".to_string() }),
            StateChangeWithCause {
                cause: StateChangeCause::Migration,
                value: StateChangeValue::DataDeletion,
            },
            StateChangeWithCause {
                cause: StateChangeCause::ReceiptProcessing { receipt_hash: "r".to_string() },
                value: StateChangeValue::AccountDeletion { account_id: "bob.near".to_string() },
            },
        ],
    };
    let batches = handle_streamer_message(&msg).unwrap();
    assert_eq!(batches.blocks.len(), 1);
    assert_eq!(batches.blocks[0].block_height, 10);
    assert_eq!(batches.account_changes.len(), 2);
    assert_eq!(batches.account_changes[0].index_in_block, 0);
    assert_eq!(batches.account_changes[0].affected_account_id, "alice.near");
    assert_eq!(batches.account_changes[0].changed_in_block_hash, "hash-10");
    assert_eq!(batches.account_changes[0].changed_in_block_timestamp, 1000);
    assert_eq!(batches.account_changes[1].index_in_block, 1);
    assert_eq!(batches.account_changes[1].affected_account_id, "bob.near");
}

#[test]
fn message_conversion_aborts_on_contract_violation() {
    let msg = StreamerMessage {
        block: block_view(10, 1000),
        state_changes: vec![update_change(StateChangeCause::InitialState)],
    };
    assert_eq!(
        handle_streamer_message(&msg),
        Err(IngestError::UnexpectedCause { cause: StateChangeCause::InitialState })
    );
}

#[test]
fn chunked_insert_splits_into_ceil_chunks() {
    let mut store = StoreModel::new();
    let rows: Vec<Block> = (1..=5).map(|h| block(h, h * 10)).collect();
    let logs = chunked_insert(&mut store, rows.clone(), &config(2), &Vec::new()).unwrap();
    assert_eq!(logs.len(), 3);
    assert_eq!(store.blocks, rows);
}

#[test]
fn chunked_insert_empty_batch_is_a_no_op() {
    let mut store = StoreModel::new();
    let logs = chunked_insert::<Block>(&mut store, Vec::new(), &config(2), &Vec::new()).unwrap();
    assert!(logs.is_empty());
    assert!(store.blocks.is_empty());
}

#[test]
fn chunked_insert_keeps_chunks_written_before_a_fatal_chunk() {
    let mut store = StoreModel::new();
    let rows: Vec<Block> = (1..=6).map(|h| block(h, h * 10)).collect();
    let mut cfg = config(2);
    cfg.retry.retry_count = 2;
    // chunk 0 succeeds, chunk 1 exhausts its two attempts
    let fails = vec![vec![], vec![true, true]];
    let err = chunked_insert(&mut store, rows.clone(), &cfg, &fails).unwrap_err();
    match err {
        IngestError::RetriesExhausted { table, statement, attempts } => {
            assert_eq!(table, "blocks");
            assert!(statement.starts_with("INSERT INTO blocks VALUES "));
            assert_eq!(attempts, 2);
        },
        other => panic!("unexpected error: {other:?}"),
    }
    assert_eq!(store.blocks, rows[..2].to_vec());
}

#[test]
fn insert_retry_rejects_empty_batch() {
    let mut store = StoreModel::new();
    let r = insert_retry_or_panic::<Block>(&mut store, Vec::new(), &Vec::new(), &retry(3));
    assert_eq!(r, Err(IngestError::EmptyInput));
}

#[test]
fn insert_retry_writes_once_despite_transient_failure() {
    let mut store = StoreModel::new();
    let fails = vec![true];
    let log =
        insert_retry_or_panic(&mut store, vec![block(1, 10)], &fails, &retry(10)).unwrap();
    assert!(log.succeeded);
    assert_eq!(log.attempts, 2);
    assert_eq!(log.intervals, vec![100]);
    assert_eq!(store.blocks.len(), 1);
}

#[test]
fn delete_retry_removes_only_matching_timestamp() {
    let mut store = StoreModel {
        blocks: vec![block(1, 10), block(2, 20), block(3, 20), block(4, 30)],
        account_changes: vec![change_row(20, 0), change_row(30, 1)],
    };
    delete_retry_or_panic::<Block>(&mut store, 20, &Vec::new(), &retry(3)).unwrap();
    assert_eq!(store.blocks, vec![block(1, 10), block(4, 30)]);
    assert_eq!(store.account_changes.len(), 2);
    delete_retry_or_panic::<AccountChange>(&mut store, 20, &Vec::new(), &retry(3)).unwrap();
    assert_eq!(store.account_changes, vec![change_row(30, 1)]);
    assert_eq!(store.blocks.len(), 2);
}

#[test]
fn select_returns_maxima() {
    let store = StoreModel {
        blocks: vec![block(2, 30), block(1, 10), block(3, 20)],
        account_changes: vec![],
    };
    let ts = select_retry_or_panic(&store, SelectQuery::MaxBlockTimestamp, &Vec::new(), &retry(3));
    assert_eq!(ts, Ok(Some(30)));
    let h = select_retry_or_panic(&store, SelectQuery::MaxBlockHeight, &Vec::new(), &retry(3));
    assert_eq!(h, Ok(Some(3)));
    let empty = StoreModel::new();
    let none =
        select_retry_or_panic(&empty, SelectQuery::MaxBlockTimestamp, &Vec::new(), &retry(3));
    assert_eq!(none, Ok(None));
}

#[test]
fn select_surfaces_exhaustion() {
    let store = StoreModel::new();
    let fails = vec![true, true];
    let r = select_retry_or_panic(&store, SelectQuery::MaxBlockTimestamp, &fails, &retry(2));
    match r.unwrap_err() {
        IngestError::RetriesExhausted { table, statement, attempts } => {
            assert_eq!(table, "blocks");
            assert_eq!(
                statement,
                "SELECT block_timestamp FROM blocks ORDER BY block_timestamp DESC LIMIT 1"
            );
            assert_eq!(attempts, 2);
        },
        other => panic!("unexpected error: {other:?}"),
    }
}

#[test]
fn recovery_discards_last_block_and_resumes_there() {
    let mut store = StoreModel {
        blocks: vec![block(1, 10), block(2, 20), block(3, 30)],
        account_changes: vec![change_row(10, 0), change_row(30, 0), change_row(30, 1)],
    };
    let resume = start_after_interruption(&mut store, 83030086, &Vec::new(), &retry(10));
    assert_eq!(resume, Ok(3));
    assert_eq!(store.blocks, vec![block(1, 10), block(2, 20)]);
    assert_eq!(store.account_changes, vec![change_row(10, 0)]);
    // A second run on the pruned store discards the next block: the
    // resume point moves back again.
    let resume = start_after_interruption(&mut store, 83030086, &Vec::new(), &retry(10));
    assert_eq!(resume, Ok(2));
    assert_eq!(store.blocks, vec![block(1, 10)]);
}

#[test]
fn recovery_on_empty_store_returns_initial_height_twice() {
    let mut store = StoreModel::new();
    let resume = start_after_interruption(&mut store, 83030086, &Vec::new(), &retry(10));
    assert_eq!(resume, Ok(83030086));
    assert!(store.blocks.is_empty());
    let resume = start_after_interruption(&mut store, 83030086, &Vec::new(), &retry(10));
    assert_eq!(resume, Ok(83030086));
}

#[test]
fn recovery_with_one_shared_timestamp_is_idempotent() {
    let mut store = StoreModel {
        blocks: vec![block(1, 5), block(2, 5)],
        account_changes: vec![change_row(5, 0)],
    };
    let resume = start_after_interruption(&mut store, 42, &Vec::new(), &retry(10));
    assert_eq!(resume, Ok(42));
    assert!(store.blocks.is_empty());
    assert!(store.account_changes.is_empty());
    let resume = start_after_interruption(&mut store, 42, &Vec::new(), &retry(10));
    assert_eq!(resume, Ok(42));
    assert!(store.blocks.is_empty());
}

#[test]
fn recovery_aborts_when_the_lookup_keeps_failing() {
    let mut store = StoreModel { blocks: vec![block(1, 10)], account_changes: vec![] };
    let fails = vec![vec![true, true]];
    let r = start_after_interruption(&mut store, 42, &fails, &retry(2));
    assert!(matches!(r, Err(IngestError::RetriesExhausted { .. })));
    assert_eq!(store.blocks, vec![block(1, 10)]);
}

#[test]
fn end_to_end_first_block_with_one_transient_failure() {
    // Empty store: recovery yields the configured initial height, the
    // first message is fetched there, converted and written; a single
    // transient failure on the block insert is retried after one base
    // backoff interval and leaves exactly one persisted block row.
    let mut store = StoreModel::new();
    let cfg = config(10);
    let resume = start_after_interruption(&mut store, 83030086, &Vec::new(), &cfg.retry);
    assert_eq!(resume, Ok(83030086));

    let msg = StreamerMessage {
        block: block_view(83030086, 1_654_000_000_000_000_000),
        state_changes: vec![
            update_change(StateChangeCause::TransactionProcessing { tx_hash: "t".to_string() }),
            StateChangeWithCause {
                cause: StateChangeCause::ReceiptProcessing { receipt_hash: "r".to_string() },
                value: StateChangeValue::AccountDeletion { account_id: "bob.near".to_string() },
            },
        ],
    };
    let batches = handle_streamer_message(&msg).unwrap();
    // one forced transient failure on the block insert, then success
    let block_fails = vec![vec![true]];
    let logs = chunked_insert(&mut store, batches.blocks, &cfg, &block_fails).unwrap();
    assert_eq!(logs.len(), 1);
    assert_eq!(logs[0].attempts, 2);
    assert_eq!(logs[0].intervals, vec![100]);
    assert_eq!(store.blocks.len(), 1);
    assert_eq!(store.blocks[0].block_height, 83030086);

    let logs = chunked_insert(&mut store, batches.account_changes, &cfg, &Vec::new()).unwrap();
    assert_eq!(logs.len(), 1);
    // the backoff starts over for the new operation
    assert!(logs[0].intervals.is_empty());
    assert_eq!(store.account_changes.len(), 2);
    assert_eq!(store.blocks.len(), 1);

    // a later operation with two failures doubles the interval again
    let mut other = StoreModel::new();
    let fails = vec![vec![true, true]];
    let logs = chunked_insert(&mut other, vec![block(1, 1)], &cfg, &fails).unwrap();
    assert_eq!(logs[0].intervals, vec![100, 200]);
}

#[test]
fn process_message_writes_all_batches() {
    let mut store = StoreModel::new();
    let msg = StreamerMessage {
        block: block_view(7, 70),
        state_changes: vec![update_change(StateChangeCause::Migration)],
    };
    process_streamer_message(&mut store, &msg, &config(10), &Vec::new(), &Vec::new()).unwrap();
    assert_eq!(store.blocks.len(), 1);
    assert_eq!(store.blocks[0].block_height, 7);
    assert_eq!(store.account_changes.len(), 1);
    assert_eq!(store.account_changes[0].update_reason, "MIGRATION");
}

#[test]
fn process_message_leaves_store_untouched_on_violation() {
    let mut store = StoreModel::new();
    let msg = StreamerMessage {
        block: block_view(7, 70),
        state_changes: vec![update_change(StateChangeCause::NotWritableToDisk)],
    };
    let r = process_streamer_message(&mut store, &msg, &config(10), &Vec::new(), &Vec::new());
    assert!(matches!(r, Err(IngestError::UnexpectedCause { .. })));
    assert!(store.blocks.is_empty());
    assert!(store.account_changes.is_empty());
}

#[test]
fn block_values_tuple_text() {
    let b = block(1, 10);
    assert_eq!(
        b.values_text(),
        "('1','hash-1','hash-0','10','1000000000000000000000000','100000000','validator.near')"
    );
}

#[test]
fn account_change_values_tuple_text_uses_null_for_absent_causes() {
    let row = change_row(20, 3);
    assert_eq!(
        row.values_text(),
        "('alice.near','20','some-hash','NULL','NULL','MIGRATION','1','2','3','3')"
    );
    let caused = AccountChange {
        caused_by_transaction_hash: Some("tx-9".to_string()),
        ..change_row(20, 0)
    };
    assert_eq!(
        caused.values_text(),
        "('alice.near','20','some-hash','tx-9','NULL','MIGRATION','1','2','3','0')"
    );
}
