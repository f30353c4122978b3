//! Plain-value models of the chain-stream message and its tagged parts.
//!
//! The stream source delivers, per block, a header and the block's state
//! changes, each change tagged with the cause that triggered it.  The
//! library reads these as plain values: integers for heights, timestamps
//! and balances, strings for hashes and account names, and closed
//! enumerations for every tagged alternative, so that an unmapped
//! variant is a distinct, loud failure path and never a default branch.

use vstd::prelude::*;

verus! {

/// A tagged enumeration that maps to a fixed string label.
pub trait PrintEnum {
    /// Whether this variant may appear at all; variants that a
    /// data-source contract rules out have no label.
    spec fn printable(&self) -> bool;

    /// The label of this variant.
    spec fn label(&self) -> Seq<char>;

    /// The label of this variant, as text.
    fn print(&self) -> (r: &'static str)
        requires
            self.printable(),
        ensures
            r@ == self.label(),
    ;
}

/// The status of one execution outcome.
#[derive(Debug, Clone, Copy, PartialEq, Eq)]
pub enum ExecutionStatus {
    Unknown,
    Failure,
    SuccessValue,
    SuccessReceiptId,
}

impl PrintEnum for ExecutionStatus {
    open spec fn printable(&self) -> bool {
        true
    }

    open spec fn label(&self) -> Seq<char> {
        match self {
            ExecutionStatus::Unknown => "UNKNOWN"@,
            ExecutionStatus::Failure => "FAILURE"@,
            ExecutionStatus::SuccessValue => "SUCCESS_VALUE"@,
            ExecutionStatus::SuccessReceiptId => "SUCCESS_RECEIPT_ID"@,
        }
    }

    fn print(&self) -> (r: &'static str) {
        match self {
            ExecutionStatus::Unknown => "UNKNOWN",
            ExecutionStatus::Failure => "FAILURE",
            ExecutionStatus::SuccessValue => "SUCCESS_VALUE",
            ExecutionStatus::SuccessReceiptId => "SUCCESS_RECEIPT_ID",
        }
    }
}

/// The permission of an access key.
#[derive(Debug, Clone, Copy, PartialEq, Eq)]
pub enum AccessKeyPermission {
    FunctionCall,
    FullAccess,
}

impl PrintEnum for AccessKeyPermission {
    open spec fn printable(&self) -> bool {
        true
    }

    open spec fn label(&self) -> Seq<char> {
        match self {
            AccessKeyPermission::FunctionCall => "FUNCTION_CALL"@,
            AccessKeyPermission::FullAccess => "FULL_ACCESS"@,
        }
    }

    fn print(&self) -> (r: &'static str) {
        match self {
            AccessKeyPermission::FunctionCall => "FUNCTION_CALL",
            AccessKeyPermission::FullAccess => "FULL_ACCESS",
        }
    }
}

/// What triggered a state change.  `NotWritableToDisk` and
/// `InitialState` cannot lawfully reach the ingestion engine: their
/// presence on an account change is a data-source contract violation,
/// so they carry no label.
#[derive(Debug, Clone, PartialEq, Eq)]
pub enum StateChangeCause {
    NotWritableToDisk,
    InitialState,
    TransactionProcessing { tx_hash: String },
    ActionReceiptProcessingStarted { receipt_hash: String },
    ActionReceiptGasReward { receipt_hash: String },
    ReceiptProcessing { receipt_hash: String },
    PostponedReceipt { receipt_hash: String },
    UpdatedDelayedReceipts,
    ValidatorAccountsUpdate,
    Migration,
    Resharding,
}

impl StateChangeCause {
    /// The two cause tags whose presence on an account change breaks
    /// the data-source contract.
    pub open spec fn is_impossible(&self) -> bool {
        match self {
            StateChangeCause::NotWritableToDisk => true,
            StateChangeCause::InitialState => true,
            _ => false,
        }
    }

    /// The transaction hash this change was caused by, if a
    /// transaction caused it.
    pub open spec fn spec_caused_by_tx(&self) -> Option<Seq<char>> {
        match self {
            StateChangeCause::TransactionProcessing { tx_hash } => Some(tx_hash@),
            _ => None,
        }
    }

    /// The receipt id this change was caused by, if a receipt caused
    /// it.
    pub open spec fn spec_caused_by_receipt(&self) -> Option<Seq<char>> {
        match self {
            StateChangeCause::ActionReceiptProcessingStarted { receipt_hash } => Some(
                receipt_hash@,
            ),
            StateChangeCause::ActionReceiptGasReward { receipt_hash } => Some(receipt_hash@),
            StateChangeCause::ReceiptProcessing { receipt_hash } => Some(receipt_hash@),
            StateChangeCause::PostponedReceipt { receipt_hash } => Some(receipt_hash@),
            _ => None,
        }
    }
}

impl PrintEnum for StateChangeCause {
    open spec fn printable(&self) -> bool {
        !self.is_impossible()
    }

    open spec fn label(&self) -> Seq<char> {
        match self {
            StateChangeCause::NotWritableToDisk => Seq::empty(),
            StateChangeCause::InitialState => Seq::empty(),
            StateChangeCause::TransactionProcessing { .. } => "TRANSACTION_PROCESSING"@,
            StateChangeCause::ActionReceiptProcessingStarted {
                ..
            } => "ACTION_RECEIPT_PROCESSING_STARTED"@,
            StateChangeCause::ActionReceiptGasReward { .. } => "ACTION_RECEIPT_GAS_REWARD"@,
            StateChangeCause::ReceiptProcessing { .. } => "RECEIPT_PROCESSING"@,
            StateChangeCause::PostponedReceipt { .. } => "POSTPONED_RECEIPT"@,
            StateChangeCause::UpdatedDelayedReceipts => "UPDATED_DELAYED_RECEIPTS"@,
            StateChangeCause::ValidatorAccountsUpdate => "VALIDATOR_ACCOUNTS_UPDATE"@,
            StateChangeCause::Migration => "MIGRATION"@,
            StateChangeCause::Resharding => "RESHARDING"@,
        }
    }

    fn print(&self) -> (r: &'static str) {
        match self {
            StateChangeCause::NotWritableToDisk => "",
            StateChangeCause::InitialState => "",
            StateChangeCause::TransactionProcessing { .. } => "TRANSACTION_PROCESSING",
            StateChangeCause::ActionReceiptProcessingStarted {
                ..
            } => "ACTION_RECEIPT_PROCESSING_STARTED",
            StateChangeCause::ActionReceiptGasReward { .. } => "ACTION_RECEIPT_GAS_REWARD",
            StateChangeCause::ReceiptProcessing { .. } => "RECEIPT_PROCESSING",
            StateChangeCause::PostponedReceipt { .. } => "POSTPONED_RECEIPT",
            StateChangeCause::UpdatedDelayedReceipts => "UPDATED_DELAYED_RECEIPTS",
            StateChangeCause::ValidatorAccountsUpdate => "VALIDATOR_ACCOUNTS_UPDATE",
            StateChangeCause::Migration => "MIGRATION",
            StateChangeCause::Resharding => "RESHARDING",
        }
    }
}

/// The account data carried by an account-update state change.
#[derive(Debug, Clone, PartialEq, Eq)]
pub struct AccountView {
    pub amount: u128,
    pub locked: u128,
    pub storage_usage: u64,
}

/// What a state change did.  Only account updates and account
/// deletions produce account-change rows; every other kind is skipped.
#[derive(Debug, Clone, PartialEq, Eq)]
pub enum StateChangeValue {
    AccountUpdate { account_id: String, account: AccountView },
    AccountDeletion { account_id: String },
    AccessKeyUpdate,
    AccessKeyDeletion,
    DataUpdate,
    DataDeletion,
    ContractCodeUpdate,
    ContractCodeDeletion,
}

impl StateChangeValue {
    /// Whether this change affects an account row.
    pub open spec fn affects_account(&self) -> bool {
        match self {
            StateChangeValue::AccountUpdate { .. } => true,
            StateChangeValue::AccountDeletion { .. } => true,
            _ => false,
        }
    }
}

/// One state change together with its cause.
#[derive(Debug, Clone, PartialEq, Eq)]
pub struct StateChangeWithCause {
    pub cause: StateChangeCause,
    pub value: StateChangeValue,
}

/// The header of one block as the stream delivers it.
#[derive(Debug, Clone, PartialEq, Eq)]
pub struct BlockHeaderView {
    pub height: u64,
    pub hash: String,
    pub prev_hash: String,
    pub timestamp: u64,
    pub total_supply: u128,
    pub gas_price: u128,
}

/// One block as the stream delivers it.
#[derive(Debug, Clone, PartialEq, Eq)]
pub struct BlockView {
    pub author: String,
    pub header: BlockHeaderView,
}

/// One delivered unit of chain history: a block and the state changes
/// that occurred within it, in chain order.
#[derive(Debug, Clone, PartialEq, Eq)]
pub struct StreamerMessage {
    pub block: BlockView,
    pub state_changes: Vec<StateChangeWithCause>,
}

} // verus!
