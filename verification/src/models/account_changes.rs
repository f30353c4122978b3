//! The account_changes table: one row per account-affecting state
//! change.

use vstd::prelude::*;
use vstd::string::StringExecFns;

use crate::errors::IngestError;
use crate::models::{without_timestamp, FieldCount, MySqlMethods, Timestamped};
use crate::queries::{create_placeholders, dec_digits, push_dec_u128, spec_placeholders};
use crate::store::{StoreModel, StoreTables};
use crate::views::{PrintEnum, StateChangeCause, StateChangeValue, StateChangeWithCause};

verus! {

/// One row of the account_changes table.  The two "caused by" columns
/// are mutually exclusive; balances and storage usage fall back to zero
/// when the account was deleted, so the numeric columns stay
/// non-nullable.
#[derive(Debug, Clone, PartialEq, Eq)]
pub struct AccountChange {
    pub affected_account_id: String,
    pub changed_in_block_timestamp: u64,
    pub changed_in_block_hash: String,
    pub caused_by_transaction_hash: Option<String>,
    pub caused_by_receipt_id: Option<String>,
    pub update_reason: String,
    pub affected_account_nonstaked_balance: u128,
    pub affected_account_staked_balance: u128,
    pub affected_account_storage_usage: u64,
    pub index_in_block: i32,
}

/// The account name an account-affecting state change names.
pub open spec fn spec_account_id(v: StateChangeValue) -> Seq<char> {
    match v {
        StateChangeValue::AccountUpdate { account_id, .. } => account_id@,
        StateChangeValue::AccountDeletion { account_id } => account_id@,
        _ => Seq::empty(),
    }
}

/// The non-staked balance a change leaves behind: zero on deletion.
pub open spec fn spec_nonstaked_balance(v: StateChangeValue) -> u128 {
    match v {
        StateChangeValue::AccountUpdate { account, .. } => account.amount,
        _ => 0,
    }
}

/// The staked balance a change leaves behind: zero on deletion.
pub open spec fn spec_staked_balance(v: StateChangeValue) -> u128 {
    match v {
        StateChangeValue::AccountUpdate { account, .. } => account.locked,
        _ => 0,
    }
}

/// The storage usage a change leaves behind: zero on deletion.
pub open spec fn spec_storage_usage(v: StateChangeValue) -> u64 {
    match v {
        StateChangeValue::AccountUpdate { account, .. } => account.storage_usage,
        _ => 0,
    }
}

/// What the row produced for one account-affecting state change holds:
/// the account name, the parent block's hash and timestamp, the
/// mutually exclusive cause columns, the cause's label, the balances
/// (zero on deletion) and the change's position inside the block.
pub open spec fn spec_account_change(
    a: AccountChange,
    sc: StateChangeWithCause,
    hash: Seq<char>,
    ts: u64,
    idx: i32,
) -> bool {
    &&& a.affected_account_id@ == spec_account_id(sc.value)
    &&& a.changed_in_block_timestamp == ts
    &&& a.changed_in_block_hash@ == hash
    &&& match sc.cause.spec_caused_by_tx() {
        Some(h) => a.caused_by_transaction_hash matches Some(s) && s@ == h,
        None => a.caused_by_transaction_hash is None,
    }
    &&& match sc.cause.spec_caused_by_receipt() {
        Some(h) => a.caused_by_receipt_id matches Some(s) && s@ == h,
        None => a.caused_by_receipt_id is None,
    }
    &&& a.update_reason@ == sc.cause.label()
    &&& a.affected_account_nonstaked_balance == spec_nonstaked_balance(sc.value)
    &&& a.affected_account_staked_balance == spec_staked_balance(sc.value)
    &&& a.affected_account_storage_usage == spec_storage_usage(sc.value)
    &&& a.index_in_block == idx
}

/// The text a nullable cause column renders to: the value, or `NULL`.
pub open spec fn spec_opt_text(o: Option<String>) -> Seq<char> {
    match o {
        Some(s) => s@,
        None => "NULL"@,
    }
}

/// The quoted SQL value tuple of one account-change row, column by
/// column.
pub open spec fn spec_account_change_values_text(a: AccountChange) -> Seq<char> {
    "('"@ + a.affected_account_id@ + "','"@ + dec_digits(a.changed_in_block_timestamp as int)
        + "','"@ + a.changed_in_block_hash@ + "','"@ + spec_opt_text(a.caused_by_transaction_hash)
        + "','"@ + spec_opt_text(a.caused_by_receipt_id) + "','"@ + a.update_reason@ + "','"@
        + dec_digits(a.affected_account_nonstaked_balance as int) + "','"@ + dec_digits(
        a.affected_account_staked_balance as int,
    ) + "','"@ + dec_digits(a.affected_account_storage_usage as int) + "','"@ + dec_digits(
        a.index_in_block as int,
    ) + "')"@
}

impl AccountChange {
    /// Renders the row as a quoted SQL value tuple, with `NULL` in a
    /// cause column that does not apply.
    pub fn values_text(&self) -> (r: String)
        requires
            self.index_in_block >= 0,
        ensures
            r@ == spec_account_change_values_text(*self),
    {
        let mut s = String::from_str("('");
        s.append(self.affected_account_id.as_str());
        s.append("','");
        push_dec_u128(&mut s, self.changed_in_block_timestamp as u128);
        s.append("','");
        s.append(self.changed_in_block_hash.as_str());
        s.append("','");
        match &self.caused_by_transaction_hash {
            Some(h) => s.append(h.as_str()),
            None => s.append("NULL"),
        }
        s.append("','");
        match &self.caused_by_receipt_id {
            Some(h) => s.append(h.as_str()),
            None => s.append("NULL"),
        }
        s.append("','");
        s.append(self.update_reason.as_str());
        s.append("','");
        push_dec_u128(&mut s, self.affected_account_nonstaked_balance);
        s.append("','");
        push_dec_u128(&mut s, self.affected_account_staked_balance);
        s.append("','");
        push_dec_u128(&mut s, self.affected_account_storage_usage as u128);
        s.append("','");
        push_dec_u128(&mut s, self.index_in_block as u128);
        s.append("')");
        proof {
            assert(s@ =~= spec_account_change_values_text(*self));
        }
        s
    }

    /// The row for one state change of the parent block, if any.
    ///
    /// Only account updates and account deletions produce a row; every
    /// other change kind is skipped without a row and without an error.
    /// A change that does affect an account but carries one of the two
    /// impossible cause tags is a data-source contract violation and is
    /// rejected loudly.
    pub fn from_state_change_with_cause(
        state_change_with_cause: &StateChangeWithCause,
        changed_in_block_hash: &String,
        changed_in_block_timestamp: u64,
        index_in_block: i32,
    ) -> (r: Result<Option<AccountChange>, IngestError>)
        ensures
            !state_change_with_cause.value.affects_account() ==> (r matches Ok(o) && o is None),
            state_change_with_cause.value.affects_account()
                && state_change_with_cause.cause.is_impossible() ==> (r matches Err(e)
                && e matches IngestError::UnexpectedCause { cause } && cause
                == state_change_with_cause.cause),
            state_change_with_cause.value.affects_account()
                && !state_change_with_cause.cause.is_impossible() ==> (r matches Ok(o)
                && o matches Some(a) && spec_account_change(
                a,
                *state_change_with_cause,
                changed_in_block_hash@,
                changed_in_block_timestamp,
                index_in_block,
            )),
    {
        let account_id: String;
        let account_amount: u128;
        let account_locked: u128;
        let account_storage_usage: u64;
        match &state_change_with_cause.value {
            StateChangeValue::AccountUpdate { account_id: id, account } => {
                account_id = id.clone();
                account_amount = account.amount;
                account_locked = account.locked;
                account_storage_usage = account.storage_usage;
            },
            StateChangeValue::AccountDeletion { account_id: id } => {
                account_id = id.clone();
                account_amount = 0;
                account_locked = 0;
                account_storage_usage = 0;
            },
            _ => {
                return Ok(None);
            },
        }
        match &state_change_with_cause.cause {
            StateChangeCause::NotWritableToDisk => {
                return Err(
                    IngestError::UnexpectedCause { cause: StateChangeCause::NotWritableToDisk },
                );
            },
            StateChangeCause::InitialState => {
                return Err(IngestError::UnexpectedCause { cause: StateChangeCause::InitialState });
            },
            _ => {},
        }
        let caused_by_transaction_hash: Option<String> = match &state_change_with_cause.cause {
            StateChangeCause::TransactionProcessing { tx_hash } => Some(tx_hash.clone()),
            _ => None,
        };
        let caused_by_receipt_id: Option<String> = match &state_change_with_cause.cause {
            StateChangeCause::ActionReceiptProcessingStarted { receipt_hash } => Some(
                receipt_hash.clone(),
            ),
            StateChangeCause::ActionReceiptGasReward { receipt_hash } => Some(
                receipt_hash.clone(),
            ),
            StateChangeCause::ReceiptProcessing { receipt_hash } => Some(receipt_hash.clone()),
            StateChangeCause::PostponedReceipt { receipt_hash } => Some(receipt_hash.clone()),
            _ => None,
        };
        Ok(
            Some(
                AccountChange {
                    affected_account_id: account_id,
                    changed_in_block_timestamp: changed_in_block_timestamp,
                    changed_in_block_hash: changed_in_block_hash.clone(),
                    caused_by_transaction_hash: caused_by_transaction_hash,
                    caused_by_receipt_id: caused_by_receipt_id,
                    update_reason: String::from_str(state_change_with_cause.cause.print()),
                    affected_account_nonstaked_balance: account_amount,
                    affected_account_staked_balance: account_locked,
                    affected_account_storage_usage: account_storage_usage,
                    index_in_block: index_in_block,
                },
            ),
        )
    }
}

impl FieldCount for AccountChange {
    open spec fn spec_field_count() -> usize {
        10
    }

    fn field_count() -> (r: usize) {
        10
    }
}

impl Timestamped for AccountChange {
    open spec fn row_timestamp(self) -> u64 {
        self.changed_in_block_timestamp
    }
}

impl MySqlMethods for AccountChange {
    open spec fn table_name() -> Seq<char> {
        "account_changes"@
    }

    open spec fn table_view(store: StoreModel) -> Seq<AccountChange> {
        store.account_changes@
    }

    open spec fn others_view(store: StoreModel) -> StoreTables {
        StoreTables { blocks: store.blocks@, account_changes: Seq::empty() }
    }

    open spec fn insert_query_text(count: int) -> Seq<char> {
        "INSERT INTO account_changes VALUES "@ + spec_placeholders(count, 10)
    }

    open spec fn delete_query_text() -> Seq<char> {
        "DELETE FROM account_changes WHERE changed_in_block_timestamp = $1"@
    }

    fn insert_query(count: usize) -> (r: Result<String, IngestError>) {
        let placeholders = create_placeholders(count, AccountChange::field_count())?;
        let mut q = String::from_str("INSERT INTO account_changes VALUES ");
        q.append(placeholders.as_str());
        Ok(q)
    }

    fn delete_query() -> (r: String) {
        String::from_str("DELETE FROM account_changes WHERE changed_in_block_timestamp = $1")
    }

    fn name() -> (r: String) {
        String::from_str("account_changes")
    }

    fn append_rows(store: &mut StoreModel, rows: Vec<AccountChange>) {
        let mut rows = rows;
        store.account_changes.append(&mut rows);
    }

    fn delete_rows(store: &mut StoreModel, ts: u64) {
        let mut rest = store.account_changes.split_off(0);
        let total = rest.len();
        let ghost orig = rest@;
        let mut kept: Vec<AccountChange> = Vec::new();
        let mut i: usize = 0;
        proof {
            assert(without_timestamp(orig.take(0), ts) =~= Seq::<AccountChange>::empty()) by {
                reveal(Seq::filter);
            }
        }
        while rest.len() > 0
            invariant
                i + rest@.len() == total,
                orig.len() == total,
                rest@ == orig.skip(i as int),
                kept@ == without_timestamp(orig.take(i as int), ts),
            decreases rest@.len(),
        {
            let row = rest.remove(0);
            proof {
                assert(row == orig[i as int]);
                let s0 = orig.take(i as int);
                let s1 = orig.take(i as int + 1);
                assert(s1.drop_last() =~= s0);
                assert(s1.last() == row);
                assert(without_timestamp(s1, ts) == if row.row_timestamp() != ts {
                    without_timestamp(s0, ts).push(row)
                } else {
                    without_timestamp(s0, ts)
                }) by {
                    reveal(Seq::filter);
                }
                assert(rest@ =~= orig.skip(i as int + 1));
            }
            if row.changed_in_block_timestamp != ts {
                kept.push(row);
            }
            i = i + 1;
        }
        proof {
            assert(orig =~= old(store).account_changes@);
            assert(orig.take(orig.len() as int) =~= orig);
        }
        store.account_changes = kept;
    }
}

} // verus!
