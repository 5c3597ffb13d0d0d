//! The block message as the upstream stream delivers it, reduced to the
//! plain values that the transformation reads. Hashes, account ids and keys
//! are carried in their rendered text form, which is what the records hold.

use vstd::prelude::*;
use crate::json::Json;

verus! {

#[derive(Debug, PartialEq)]
pub struct BlockHeader {
    pub hash: String,
    pub height: u64,
    pub prev_hash: String,
    pub timestamp_nanosec: u64,
    pub total_supply: u128,
    pub gas_price: u128,
    pub author: String,
}

/// How the execution of a transaction or receipt ended.
#[derive(Debug, PartialEq)]
pub enum ExecutionStatus {
    Unknown,
    Failure,
    SuccessValue,
    SuccessReceiptId,
}

/// An execution outcome together with the id of what was executed.
#[derive(Debug, PartialEq)]
pub struct OutcomeView {
    pub id: String,
    pub executor_id: String,
    pub gas_burnt: u64,
    pub tokens_burnt: u128,
    pub status: ExecutionStatus,
    pub receipt_ids: Vec<String>,
}

#[derive(Debug, PartialEq)]
pub enum AccessKeyPermissionView {
    FullAccess,
    FunctionCall { allowance: Option<u128>, receiver_id: String, method_names: Vec<String> },
}

#[derive(Debug, PartialEq)]
pub struct AccessKeyView {
    pub nonce: u64,
    pub permission: AccessKeyPermissionView,
}

/// One action of a transaction or action receipt.
#[derive(Debug, PartialEq)]
pub enum ActionView {
    CreateAccount,
    DeployContract { code: Vec<u8> },
    /// `args` are the raw argument bytes; `args_json` is the document they
    /// hold, where they are UTF-8 JSON.
    FunctionCall { method_name: String, args: Vec<u8>, args_json: Option<Json>, gas: u64, deposit: u128 },
    Transfer { deposit: u128 },
    Stake { stake: u128, public_key: String },
    AddKey { public_key: String, access_key: AccessKeyView },
    DeleteKey { public_key: String },
    DeleteAccount { beneficiary_id: String },
    Delegate { delegate_action: Json, signature: String },
}

#[derive(Debug, PartialEq)]
pub struct DataReceiver {
    pub data_id: String,
    pub receiver_id: String,
}

#[derive(Debug, PartialEq)]
pub enum ReceiptBody {
    Action {
        signer_id: String,
        signer_public_key: String,
        gas_price: u128,
        output_data_receivers: Vec<DataReceiver>,
        input_data_ids: Vec<String>,
        actions: Vec<ActionView>,
    },
    Data { data_id: String, data: Option<Vec<u8>> },
}

#[derive(Debug, PartialEq)]
pub struct ReceiptView {
    pub predecessor_id: String,
    pub receiver_id: String,
    pub receipt_id: String,
    pub receipt: ReceiptBody,
}

#[derive(Debug, PartialEq)]
pub struct SignedTransactionView {
    pub signer_id: String,
    pub public_key: String,
    pub nonce: u64,
    pub receiver_id: String,
    pub actions: Vec<ActionView>,
    pub signature: String,
    pub hash: String,
}

/// A transaction with the outcome of its conversion into a receipt, and the
/// id of that receipt where the stream carries it.
#[derive(Debug, PartialEq)]
pub struct TransactionWithOutcome {
    pub transaction: SignedTransactionView,
    pub outcome: OutcomeView,
    pub receipt_id: Option<String>,
}

/// The outcome of executing a receipt, with the receipt itself.
#[derive(Debug, PartialEq)]
pub struct OutcomeWithReceipt {
    pub outcome: OutcomeView,
    pub receipt: ReceiptView,
}

#[derive(Debug, PartialEq)]
pub struct ChunkView {
    pub chunk_hash: String,
    pub shard_id: u64,
    pub signature: String,
    pub gas_limit: u64,
    pub gas_used: u64,
    pub author: String,
    pub transactions: Vec<TransactionWithOutcome>,
    pub receipts: Vec<ReceiptView>,
}

#[derive(Debug, PartialEq)]
pub enum StateChangeCause {
    NotWritableToDisk,
    InitialState,
    TransactionProcessing { tx_hash: String },
    ActionReceiptProcessingStarted { receipt_hash: String },
    ActionReceiptGasReward { receipt_hash: String },
    ReceiptProcessing { receipt_hash: String },
    PostponedReceipt { receipt_hash: String },
    UpdatedDelayedReceipts,
    ValidatorAccountsUpdate,
    Migration,
    Resharding,
}

#[derive(Debug, PartialEq)]
pub struct AccountView {
    pub amount: u128,
    pub locked: u128,
    pub storage_usage: u64,
}

/// The value side of a state change; kinds that do not touch an account's
/// balance are all `Other`.
#[derive(Debug, PartialEq)]
pub enum StateChangeValue {
    AccountUpdate { account_id: String, account: AccountView },
    AccountDeletion { account_id: String },
    Other,
}

#[derive(Debug, PartialEq)]
pub struct StateChange {
    pub cause: StateChangeCause,
    pub value: StateChangeValue,
}

#[derive(Debug, PartialEq)]
pub struct Shard {
    pub shard_id: u64,
    pub chunk: Option<ChunkView>,
    pub receipt_execution_outcomes: Vec<OutcomeWithReceipt>,
    pub state_changes: Vec<StateChange>,
}

/// One finalized block and its shards.
#[derive(Debug, PartialEq)]
pub struct BlockMessage {
    pub header: BlockHeader,
    pub shards: Vec<Shard>,
}

/// A record of the genesis state dump; kinds other than accounts and access
/// keys are all `Other`.
#[derive(Debug, PartialEq)]
pub enum StateRecord {
    Account { account_id: String },
    AccessKey { account_id: String, public_key: String, permission: AccessKeyPermissionView },
    Other,
}

/// Every transaction's conversion outcome names the receipt it became.
pub open spec fn transactions_converted(msg: BlockMessage) -> bool {
    forall|s: int, t: int|
        0 <= s < msg.shards@.len() && msg.shards@[s].chunk is Some
            && 0 <= t < msg.shards@[s].chunk->0.transactions@.len()
            ==> (#[trigger] msg.shards@[s].chunk->0.transactions@[t]).outcome.receipt_ids@.len() > 0
}

/// The shards are listed by strictly ascending shard id, one entry per shard.
pub open spec fn shards_in_order(msg: BlockMessage) -> bool {
    forall|i: int, j: int| 0 <= i < j < msg.shards@.len() ==> msg.shards@[i].shard_id < msg.shards@[j].shard_id
}

} // verus!
