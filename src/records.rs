//! The flat records that a block is turned into, and their tags.

use vstd::prelude::*;
use crate::json::Json;
use crate::message::{
    AccessKeyPermissionView, BlockHeader, ChunkView, ExecutionStatus, OutcomeView, ReceiptBody,
    ReceiptView, SignedTransactionView, StateChange, StateChangeCause, StateChangeValue,
};

verus! {

/// How an execution outcome ended, as a downstream tag.
#[derive(Clone, Copy, Debug, PartialEq, Eq)]
pub enum ExecutionOutcomeStatus {
    Unknown,
    Failure,
    SuccessValue,
    SuccessReceiptId,
}

pub open spec fn status_of(s: ExecutionStatus) -> ExecutionOutcomeStatus {
    match s {
        ExecutionStatus::Unknown => ExecutionOutcomeStatus::Unknown,
        ExecutionStatus::Failure => ExecutionOutcomeStatus::Failure,
        ExecutionStatus::SuccessValue => ExecutionOutcomeStatus::SuccessValue,
        ExecutionStatus::SuccessReceiptId => ExecutionOutcomeStatus::SuccessReceiptId,
    }
}

impl From<&ExecutionStatus> for ExecutionOutcomeStatus {
    fn from(s: &ExecutionStatus) -> (r: Self) {
        match s {
            ExecutionStatus::Unknown => ExecutionOutcomeStatus::Unknown,
            ExecutionStatus::Failure => ExecutionOutcomeStatus::Failure,
            ExecutionStatus::SuccessValue => ExecutionOutcomeStatus::SuccessValue,
            ExecutionStatus::SuccessReceiptId => ExecutionOutcomeStatus::SuccessReceiptId,
        }
    }
}

impl vstd::std_specs::convert::FromSpecImpl<&ExecutionStatus> for ExecutionOutcomeStatus {
    open spec fn obeys_from_spec() -> bool {
        true
    }

    open spec fn from_spec(s: &ExecutionStatus) -> Self {
        status_of(*s)
    }
}

impl ExecutionOutcomeStatus {
    pub open spec fn spec_tag(self) -> &'static str {
        match self {
            ExecutionOutcomeStatus::Unknown => "UNKNOWN",
            ExecutionOutcomeStatus::Failure => "FAILURE",
            ExecutionOutcomeStatus::SuccessValue => "SUCCESS_VALUE",
            ExecutionOutcomeStatus::SuccessReceiptId => "SUCCESS_RECEIPT_ID",
        }
    }

    /// The downstream tag.
    pub fn tag(&self) -> (r: &'static str)
        ensures
            r == self.spec_tag(),
    {
        match self {
            ExecutionOutcomeStatus::Unknown => "UNKNOWN",
            ExecutionOutcomeStatus::Failure => "FAILURE",
            ExecutionOutcomeStatus::SuccessValue => "SUCCESS_VALUE",
            ExecutionOutcomeStatus::SuccessReceiptId => "SUCCESS_RECEIPT_ID",
        }
    }
}

/// The kind of an action, as a downstream tag.
#[derive(Clone, Copy, Debug, PartialEq, Eq)]
pub enum ActionKind {
    CreateAccount,
    DeployContract,
    FunctionCall,
    Transfer,
    Stake,
    AddKey,
    Delegate,
    DeleteKey,
    DeleteAccount,
}

impl ActionKind {
    pub open spec fn spec_tag(self) -> &'static str {
        match self {
            ActionKind::CreateAccount => "CREATE_ACCOUNT",
            ActionKind::DeployContract => "DEPLOY_CONTRACT",
            ActionKind::FunctionCall => "FUNCTION_CALL",
            ActionKind::Transfer => "TRANSFER",
            ActionKind::Stake => "STAKE",
            ActionKind::AddKey => "ADD_KEY",
            ActionKind::Delegate => "DELEGATE",
            ActionKind::DeleteKey => "DELETE_KEY",
            ActionKind::DeleteAccount => "DELETE_ACCOUNT",
        }
    }

    /// The downstream tag.
    pub fn tag(&self) -> (r: &'static str)
        ensures
            r == self.spec_tag(),
    {
        match self {
            ActionKind::CreateAccount => "CREATE_ACCOUNT",
            ActionKind::DeployContract => "DEPLOY_CONTRACT",
            ActionKind::FunctionCall => "FUNCTION_CALL",
            ActionKind::Transfer => "TRANSFER",
            ActionKind::Stake => "STAKE",
            ActionKind::AddKey => "ADD_KEY",
            ActionKind::Delegate => "DELEGATE",
            ActionKind::DeleteKey => "DELETE_KEY",
            ActionKind::DeleteAccount => "DELETE_ACCOUNT",
        }
    }
}

/// Whether a receipt carries actions or data, as a downstream tag.
#[derive(Clone, Copy, Debug, PartialEq, Eq)]
pub enum ReceiptKind {
    Action,
    Data,
}

impl ReceiptKind {
    pub open spec fn spec_tag(self) -> &'static str {
        match self {
            ReceiptKind::Action => "ACTION",
            ReceiptKind::Data => "DATA",
        }
    }

    /// The downstream tag.
    pub fn tag(&self) -> (r: &'static str)
        ensures
            r == self.spec_tag(),
    {
        match self {
            ReceiptKind::Action => "ACTION",
            ReceiptKind::Data => "DATA",
        }
    }
}

/// Why an account's state changed, as a downstream tag.
#[derive(Clone, Copy, Debug, PartialEq, Eq)]
pub enum UpdateReason {
    NotWritableToDisk,
    InitialState,
    TransactionProcessing,
    ActionReceiptProcessingStarted,
    ActionReceiptGasReward,
    ReceiptProcessing,
    PostponedReceipt,
    UpdatedDelayedReceipts,
    ValidatorAccountsUpdate,
    Migration,
    Resharding,
}

pub open spec fn reason_of(c: StateChangeCause) -> UpdateReason {
    match c {
        StateChangeCause::NotWritableToDisk => UpdateReason::NotWritableToDisk,
        StateChangeCause::InitialState => UpdateReason::InitialState,
        StateChangeCause::TransactionProcessing { .. } => UpdateReason::TransactionProcessing,
        StateChangeCause::ActionReceiptProcessingStarted { .. } => UpdateReason::ActionReceiptProcessingStarted,
        StateChangeCause::ActionReceiptGasReward { .. } => UpdateReason::ActionReceiptGasReward,
        StateChangeCause::ReceiptProcessing { .. } => UpdateReason::ReceiptProcessing,
        StateChangeCause::PostponedReceipt { .. } => UpdateReason::PostponedReceipt,
        StateChangeCause::UpdatedDelayedReceipts => UpdateReason::UpdatedDelayedReceipts,
        StateChangeCause::ValidatorAccountsUpdate => UpdateReason::ValidatorAccountsUpdate,
        StateChangeCause::Migration => UpdateReason::Migration,
        StateChangeCause::Resharding => UpdateReason::Resharding,
    }
}

impl From<&StateChangeCause> for UpdateReason {
    fn from(c: &StateChangeCause) -> (r: Self) {
        match c {
            StateChangeCause::NotWritableToDisk => UpdateReason::NotWritableToDisk,
            StateChangeCause::InitialState => UpdateReason::InitialState,
            StateChangeCause::TransactionProcessing { .. } => UpdateReason::TransactionProcessing,
            StateChangeCause::ActionReceiptProcessingStarted { .. } => UpdateReason::ActionReceiptProcessingStarted,
            StateChangeCause::ActionReceiptGasReward { .. } => UpdateReason::ActionReceiptGasReward,
            StateChangeCause::ReceiptProcessing { .. } => UpdateReason::ReceiptProcessing,
            StateChangeCause::PostponedReceipt { .. } => UpdateReason::PostponedReceipt,
            StateChangeCause::UpdatedDelayedReceipts => UpdateReason::UpdatedDelayedReceipts,
            StateChangeCause::ValidatorAccountsUpdate => UpdateReason::ValidatorAccountsUpdate,
            StateChangeCause::Migration => UpdateReason::Migration,
            StateChangeCause::Resharding => UpdateReason::Resharding,
        }
    }
}

impl vstd::std_specs::convert::FromSpecImpl<&StateChangeCause> for UpdateReason {
    open spec fn obeys_from_spec() -> bool {
        true
    }

    open spec fn from_spec(c: &StateChangeCause) -> Self {
        reason_of(*c)
    }
}

impl UpdateReason {
    pub open spec fn spec_tag(self) -> &'static str {
        match self {
            UpdateReason::NotWritableToDisk => "NOT_WRITABLE_TO_DISK",
            UpdateReason::InitialState => "INITIAL_STATE",
            UpdateReason::TransactionProcessing => "TRANSACTION_PROCESSING",
            UpdateReason::ActionReceiptProcessingStarted => "ACTION_RECEIPT_PROCESSING_STARTED",
            UpdateReason::ActionReceiptGasReward => "ACTION_RECEIPT_GAS_REWARD",
            UpdateReason::ReceiptProcessing => "RECEIPT_PROCESSING",
            UpdateReason::PostponedReceipt => "POSTPONED_RECEIPT",
            UpdateReason::UpdatedDelayedReceipts => "UPDATED_DELAYED_RECEIPTS",
            UpdateReason::ValidatorAccountsUpdate => "VALIDATOR_ACCOUNTS_UPDATE",
            UpdateReason::Migration => "MIGRATION",
            UpdateReason::Resharding => "RESHARDING",
        }
    }

    /// The downstream tag.
    pub fn tag(&self) -> (r: &'static str)
        ensures
            r == self.spec_tag(),
    {
        match self {
            UpdateReason::NotWritableToDisk => "NOT_WRITABLE_TO_DISK",
            UpdateReason::InitialState => "INITIAL_STATE",
            UpdateReason::TransactionProcessing => "TRANSACTION_PROCESSING",
            UpdateReason::ActionReceiptProcessingStarted => "ACTION_RECEIPT_PROCESSING_STARTED",
            UpdateReason::ActionReceiptGasReward => "ACTION_RECEIPT_GAS_REWARD",
            UpdateReason::ReceiptProcessing => "RECEIPT_PROCESSING",
            UpdateReason::PostponedReceipt => "POSTPONED_RECEIPT",
            UpdateReason::UpdatedDelayedReceipts => "UPDATED_DELAYED_RECEIPTS",
            UpdateReason::ValidatorAccountsUpdate => "VALIDATOR_ACCOUNTS_UPDATE",
            UpdateReason::Migration => "MIGRATION",
            UpdateReason::Resharding => "RESHARDING",
        }
    }
}

/// What an access key allows, as a downstream tag.
#[derive(Clone, Copy, Debug, PartialEq, Eq)]
pub enum AccessKeyPermission {
    FullAccess,
    FunctionCall,
}

pub open spec fn permission_of(p: AccessKeyPermissionView) -> AccessKeyPermission {
    match p {
        AccessKeyPermissionView::FullAccess => AccessKeyPermission::FullAccess,
        AccessKeyPermissionView::FunctionCall { .. } => AccessKeyPermission::FunctionCall,
    }
}

impl From<&AccessKeyPermissionView> for AccessKeyPermission {
    fn from(p: &AccessKeyPermissionView) -> (r: Self) {
        match p {
            AccessKeyPermissionView::FullAccess => AccessKeyPermission::FullAccess,
            AccessKeyPermissionView::FunctionCall { .. } => AccessKeyPermission::FunctionCall,
        }
    }
}

impl vstd::std_specs::convert::FromSpecImpl<&AccessKeyPermissionView> for AccessKeyPermission {
    open spec fn obeys_from_spec() -> bool {
        true
    }

    open spec fn from_spec(p: &AccessKeyPermissionView) -> Self {
        permission_of(*p)
    }
}

impl AccessKeyPermission {
    pub open spec fn spec_tag(self) -> &'static str {
        match self {
            AccessKeyPermission::FullAccess => "FULL_ACCESS",
            AccessKeyPermission::FunctionCall => "FUNCTION_CALL",
        }
    }

    /// The downstream tag.
    pub fn tag(&self) -> (r: &'static str)
        ensures
            r == self.spec_tag(),
    {
        match self {
            AccessKeyPermission::FullAccess => "FULL_ACCESS",
            AccessKeyPermission::FunctionCall => "FUNCTION_CALL",
        }
    }
}


#[derive(Clone, Debug, PartialEq, Eq)]
pub struct Block {
    pub block_hash: String,
    pub block_height: u64,
    pub prev_block_hash: String,
    pub block_timestamp: u64,
    pub total_supply: u128,
    pub gas_price: u128,
    pub author_account_id: String,
}

pub open spec fn block_record(h: BlockHeader) -> Block {
    Block {
        block_hash: h.hash,
        block_height: h.height,
        prev_block_hash: h.prev_hash,
        block_timestamp: h.timestamp_nanosec,
        total_supply: h.total_supply,
        gas_price: h.gas_price,
        author_account_id: h.author,
    }
}

impl Block {
    pub fn new(h: &BlockHeader) -> (r: Block)
        ensures
            r == block_record(*h),
    {
        Block {
            block_hash: h.hash.clone(),
            block_height: h.height,
            prev_block_hash: h.prev_hash.clone(),
            block_timestamp: h.timestamp_nanosec,
            total_supply: h.total_supply,
            gas_price: h.gas_price,
            author_account_id: h.author.clone(),
        }
    }
}

#[derive(Clone, Debug, PartialEq, Eq)]
pub struct Chunk {
    pub chunk_hash: String,
    pub included_in_block_hash: String,
    pub shard_id: u64,
    pub signature: String,
    pub gas_limit: u64,
    pub gas_used: u64,
    pub author_account_id: String,
}

pub open spec fn chunk_record(c: ChunkView, block_hash: String) -> Chunk {
    Chunk {
        chunk_hash: c.chunk_hash,
        included_in_block_hash: block_hash,
        shard_id: c.shard_id,
        signature: c.signature,
        gas_limit: c.gas_limit,
        gas_used: c.gas_used,
        author_account_id: c.author,
    }
}

impl Chunk {
    pub fn new(c: &ChunkView, block_hash: &String) -> (r: Chunk)
        ensures
            r == chunk_record(*c, *block_hash),
    {
        Chunk {
            chunk_hash: c.chunk_hash.clone(),
            included_in_block_hash: block_hash.clone(),
            shard_id: c.shard_id,
            signature: c.signature.clone(),
            gas_limit: c.gas_limit,
            gas_used: c.gas_used,
            author_account_id: c.author.clone(),
        }
    }
}

#[derive(Clone, Debug, PartialEq, Eq)]
pub struct Transaction {
    pub transaction_hash: String,
    pub included_in_block_hash: String,
    pub included_in_chunk_hash: String,
    pub index_in_chunk: u64,
    pub block_timestamp: u64,
    pub signer_account_id: String,
    pub signer_public_key: String,
    pub nonce: u64,
    pub receiver_account_id: String,
    pub signature: String,
    pub status: ExecutionOutcomeStatus,
    pub converted_into_receipt_id: String,
    pub receipt_conversion_gas_burnt: u64,
    pub receipt_conversion_tokens_burnt: u128,
}

pub open spec fn transaction_record(
    t: SignedTransactionView,
    block_hash: String,
    chunk_hash: String,
    index_in_chunk: u64,
    timestamp: u64,
    o: OutcomeView,
) -> Transaction {
    Transaction {
        transaction_hash: t.hash,
        included_in_block_hash: block_hash,
        included_in_chunk_hash: chunk_hash,
        index_in_chunk,
        block_timestamp: timestamp,
        signer_account_id: t.signer_id,
        signer_public_key: t.public_key,
        nonce: t.nonce,
        receiver_account_id: t.receiver_id,
        signature: t.signature,
        status: status_of(o.status),
        converted_into_receipt_id: o.receipt_ids@[0],
        receipt_conversion_gas_burnt: o.gas_burnt,
        receipt_conversion_tokens_burnt: o.tokens_burnt,
    }
}

impl Transaction {
    pub fn new(
        t: &SignedTransactionView,
        block_hash: &String,
        chunk_hash: &String,
        index_in_chunk: u64,
        timestamp: u64,
        o: &OutcomeView,
    ) -> (r: Transaction)
        requires
            o.receipt_ids@.len() > 0,
        ensures
            r == transaction_record(*t, *block_hash, *chunk_hash, index_in_chunk, timestamp, *o),
    {
        Transaction {
            transaction_hash: t.hash.clone(),
            included_in_block_hash: block_hash.clone(),
            included_in_chunk_hash: chunk_hash.clone(),
            index_in_chunk,
            block_timestamp: timestamp,
            signer_account_id: t.signer_id.clone(),
            signer_public_key: t.public_key.clone(),
            nonce: t.nonce,
            receiver_account_id: t.receiver_id.clone(),
            signature: t.signature.clone(),
            status: ExecutionOutcomeStatus::from(&o.status),
            converted_into_receipt_id: o.receipt_ids[0].clone(),
            receipt_conversion_gas_burnt: o.gas_burnt,
            receipt_conversion_tokens_burnt: o.tokens_burnt,
        }
    }
}

/// One action of a transaction, with its encoded arguments.
#[derive(Debug, PartialEq)]
pub struct TransactionAction {
    pub transaction_hash: String,
    pub index_in_transaction: u64,
    pub action_kind: ActionKind,
    pub args: Json,
}

#[derive(Clone, Debug, PartialEq, Eq)]
pub struct Receipt {
    pub receipt_id: String,
    pub included_in_block_hash: String,
    pub included_in_chunk_hash: String,
    pub index_in_chunk: u64,
    pub included_in_block_timestamp: u64,
    pub predecessor_account_id: String,
    pub receiver_account_id: String,
    pub receipt_kind: ReceiptKind,
    pub originated_from_transaction_hash: String,
}

pub open spec fn kind_of(b: ReceiptBody) -> ReceiptKind {
    match b {
        ReceiptBody::Action { .. } => ReceiptKind::Action,
        ReceiptBody::Data { .. } => ReceiptKind::Data,
    }
}

pub open spec fn receipt_record(
    r: ReceiptView,
    block_hash: String,
    chunk_hash: String,
    index_in_chunk: u64,
    timestamp: u64,
    tx_hash: String,
) -> Receipt {
    Receipt {
        receipt_id: r.receipt_id,
        included_in_block_hash: block_hash,
        included_in_chunk_hash: chunk_hash,
        index_in_chunk,
        included_in_block_timestamp: timestamp,
        predecessor_account_id: r.predecessor_id,
        receiver_account_id: r.receiver_id,
        receipt_kind: kind_of(r.receipt),
        originated_from_transaction_hash: tx_hash,
    }
}

impl Receipt {
    pub fn new(
        r: &ReceiptView,
        block_hash: &String,
        chunk_hash: &String,
        index_in_chunk: u64,
        timestamp: u64,
        tx_hash: &String,
    ) -> (res: Receipt)
        ensures
            res == receipt_record(*r, *block_hash, *chunk_hash, index_in_chunk, timestamp, *tx_hash),
    {
        Receipt {
            receipt_id: r.receipt_id.clone(),
            included_in_block_hash: block_hash.clone(),
            included_in_chunk_hash: chunk_hash.clone(),
            index_in_chunk,
            included_in_block_timestamp: timestamp,
            predecessor_account_id: r.predecessor_id.clone(),
            receiver_account_id: r.receiver_id.clone(),
            receipt_kind: match &r.receipt {
                ReceiptBody::Action { .. } => ReceiptKind::Action,
                ReceiptBody::Data { .. } => ReceiptKind::Data,
            },
            originated_from_transaction_hash: tx_hash.clone(),
        }
    }
}

#[derive(Clone, Debug, PartialEq, Eq)]
pub struct DataReceipt {
    pub data_id: String,
    pub receipt_id: String,
    pub data_base64: Option<String>,
}

#[derive(Clone, Debug, PartialEq, Eq)]
pub struct ActionReceipt {
    pub receipt_id: String,
    pub signer_account_id: String,
    pub signer_public_key: String,
    pub gas_price: u128,
}

impl ActionReceipt {
    pub fn new(receipt_id: &String, signer_id: &String, signer_public_key: &String, gas_price: u128) -> (r: ActionReceipt)
        ensures
            r == (ActionReceipt {
                receipt_id: *receipt_id,
                signer_account_id: *signer_id,
                signer_public_key: *signer_public_key,
                gas_price,
            }),
    {
        ActionReceipt {
            receipt_id: receipt_id.clone(),
            signer_account_id: signer_id.clone(),
            signer_public_key: signer_public_key.clone(),
            gas_price,
        }
    }
}

/// One action of an action receipt, with its encoded arguments.
#[derive(Debug, PartialEq)]
pub struct ActionReceiptAction {
    pub receipt_id: String,
    pub index_in_action_receipt: u64,
    pub action_kind: ActionKind,
    pub args: Json,
    pub predecessor_id: String,
    pub receiver_id: String,
    pub timestamp: u64,
}

#[derive(Clone, Debug, PartialEq, Eq)]
pub struct ActionReceiptInputData {
    pub data_id: String,
    pub receipt_id: String,
}

impl ActionReceiptInputData {
    pub fn new(data_id: &String, receipt_id: &String) -> (r: ActionReceiptInputData)
        ensures
            r == (ActionReceiptInputData { data_id: *data_id, receipt_id: *receipt_id }),
    {
        ActionReceiptInputData { data_id: data_id.clone(), receipt_id: receipt_id.clone() }
    }
}

#[derive(Clone, Debug, PartialEq, Eq)]
pub struct ActionReceiptOutputData {
    pub data_id: String,
    pub receipt_id: String,
    pub receiver_id: String,
}

impl ActionReceiptOutputData {
    pub fn new(data_id: &String, receipt_id: &String, receiver_id: &String) -> (r: ActionReceiptOutputData)
        ensures
            r == (ActionReceiptOutputData {
                data_id: *data_id,
                receipt_id: *receipt_id,
                receiver_id: *receiver_id,
            }),
    {
        ActionReceiptOutputData {
            data_id: data_id.clone(),
            receipt_id: receipt_id.clone(),
            receiver_id: receiver_id.clone(),
        }
    }
}

#[derive(Clone, Debug, PartialEq, Eq)]
pub struct ExecutionOutcome {
    pub receipt_id: String,
    pub block_hash: String,
    pub chunk_index: u64,
    pub timestamp: u64,
    pub gas_burnt: u64,
    pub tokens_burnt: u128,
    pub account_id: String,
    pub status: ExecutionOutcomeStatus,
    pub shard: u64,
}

pub open spec fn outcome_record(
    r: ReceiptView,
    block_hash: String,
    chunk_index: u64,
    timestamp: u64,
    o: OutcomeView,
    shard_id: u64,
) -> ExecutionOutcome {
    ExecutionOutcome {
        receipt_id: r.receipt_id,
        block_hash,
        chunk_index,
        timestamp,
        gas_burnt: o.gas_burnt,
        tokens_burnt: o.tokens_burnt,
        account_id: o.executor_id,
        status: status_of(o.status),
        shard: shard_id,
    }
}

impl ExecutionOutcome {
    pub fn new(
        r: &ReceiptView,
        block_hash: &String,
        chunk_index: u64,
        timestamp: u64,
        o: &OutcomeView,
        shard_id: u64,
    ) -> (res: ExecutionOutcome)
        ensures
            res == outcome_record(*r, *block_hash, chunk_index, timestamp, *o, shard_id),
    {
        ExecutionOutcome {
            receipt_id: r.receipt_id.clone(),
            block_hash: block_hash.clone(),
            chunk_index,
            timestamp,
            gas_burnt: o.gas_burnt,
            tokens_burnt: o.tokens_burnt,
            account_id: o.executor_id.clone(),
            status: ExecutionOutcomeStatus::from(&o.status),
            shard: shard_id,
        }
    }
}

#[derive(Clone, Debug, PartialEq, Eq)]
pub struct ExecutionOutcomeReceipt {
    pub receipt_id: String,
    pub index_in_execution_outcome: u64,
    pub produced_receipt_id: String,
}

impl ExecutionOutcomeReceipt {
    pub fn new(receipt_id: &String, index: u64, produced_receipt_id: &String) -> (r: ExecutionOutcomeReceipt)
        ensures
            r == (ExecutionOutcomeReceipt {
                receipt_id: *receipt_id,
                index_in_execution_outcome: index,
                produced_receipt_id: *produced_receipt_id,
            }),
    {
        ExecutionOutcomeReceipt {
            receipt_id: receipt_id.clone(),
            index_in_execution_outcome: index,
            produced_receipt_id: produced_receipt_id.clone(),
        }
    }
}

#[derive(Clone, Debug, PartialEq, Eq)]
pub struct Account {
    pub account_id: String,
    pub created_by_receipt_id: Option<String>,
    pub deleted_by_receipt_id: Option<String>,
    pub last_update_block_height: u64,
}

pub open spec fn account_record(account_id: String, created_by: Option<String>, height: u64) -> Account {
    Account {
        account_id,
        created_by_receipt_id: created_by,
        deleted_by_receipt_id: None,
        last_update_block_height: height,
    }
}

impl Account {
    pub fn new(account_id: &String, created_by: Option<&String>, height: u64) -> (r: Account)
        ensures
            r == account_record(
                *account_id,
                match created_by { Some(c) => Some(*c), None => None },
                height,
            ),
    {
        Account {
            account_id: account_id.clone(),
            created_by_receipt_id: match created_by {
                Some(c) => Some(c.clone()),
                None => None,
            },
            deleted_by_receipt_id: None,
            last_update_block_height: height,
        }
    }
}

#[derive(Clone, Debug, PartialEq, Eq)]
pub struct AccessKey {
    pub public_key: String,
    pub account_id: String,
    pub created_by_receipt_id: Option<String>,
    pub deleted_by_receipt_id: Option<String>,
    pub permission_kind: AccessKeyPermission,
    pub last_update_block_height: u64,
}

pub open spec fn access_key_record(
    public_key: String,
    account_id: String,
    permission: AccessKeyPermissionView,
    created_by: Option<String>,
    height: u64,
) -> AccessKey {
    AccessKey {
        public_key,
        account_id,
        created_by_receipt_id: created_by,
        deleted_by_receipt_id: None,
        permission_kind: permission_of(permission),
        last_update_block_height: height,
    }
}

impl AccessKey {
    pub fn new(
        public_key: &String,
        account_id: &String,
        permission: &AccessKeyPermissionView,
        created_by: Option<&String>,
        height: u64,
    ) -> (r: AccessKey)
        ensures
            r == access_key_record(
                *public_key,
                *account_id,
                *permission,
                match created_by { Some(c) => Some(*c), None => None },
                height,
            ),
    {
        AccessKey {
            public_key: public_key.clone(),
            account_id: account_id.clone(),
            created_by_receipt_id: match created_by {
                Some(c) => Some(c.clone()),
                None => None,
            },
            deleted_by_receipt_id: None,
            permission_kind: AccessKeyPermission::from(permission),
            last_update_block_height: height,
        }
    }
}

#[derive(Clone, Debug, PartialEq, Eq)]
pub struct AccountChange {
    pub account_id: String,
    pub timestamp: u64,
    pub block_hash: String,
    pub transaction_hash: Option<String>,
    pub receipt_id: Option<String>,
    pub update_reason: UpdateReason,
    pub nonstaked_balance: u128,
    pub staked_balance: u128,
    pub storage_usage: u64,
    pub index_in_block: u64,
}

/// The transaction a state change is attributed to, where its cause names one.
pub open spec fn cause_tx_hash(c: StateChangeCause) -> Option<String> {
    match c {
        StateChangeCause::TransactionProcessing { tx_hash } => Some(tx_hash),
        _ => None,
    }
}

/// The receipt a state change is attributed to, where its cause names one.
pub open spec fn cause_receipt_id(c: StateChangeCause) -> Option<String> {
    match c {
        StateChangeCause::ActionReceiptProcessingStarted { receipt_hash } => Some(receipt_hash),
        StateChangeCause::ActionReceiptGasReward { receipt_hash } => Some(receipt_hash),
        StateChangeCause::ReceiptProcessing { receipt_hash } => Some(receipt_hash),
        StateChangeCause::PostponedReceipt { receipt_hash } => Some(receipt_hash),
        _ => None,
    }
}

/// The account change a state change projects to: account updates carry the
/// balances, deletions carry zeros, other kinds of change project to nothing.
pub open spec fn account_change_record(
    sc: StateChange,
    block_hash: String,
    timestamp: u64,
    index_in_block: u64,
) -> Option<AccountChange> {
    let base = |account_id: String, nonstaked: u128, staked: u128, storage: u64|
        AccountChange {
            account_id,
            timestamp,
            block_hash,
            transaction_hash: cause_tx_hash(sc.cause),
            receipt_id: cause_receipt_id(sc.cause),
            update_reason: reason_of(sc.cause),
            nonstaked_balance: nonstaked,
            staked_balance: staked,
            storage_usage: storage,
            index_in_block,
        };
    match sc.value {
        StateChangeValue::AccountUpdate { account_id, account } =>
            Some(base(account_id, account.amount, account.locked, account.storage_usage)),
        StateChangeValue::AccountDeletion { account_id } => Some(base(account_id, 0, 0, 0)),
        StateChangeValue::Other => None,
    }
}

/// An account change with its position in the block left out.
pub open spec fn unnumbered(a: AccountChange) -> AccountChange {
    AccountChange {
        account_id: a.account_id,
        timestamp: a.timestamp,
        block_hash: a.block_hash,
        transaction_hash: a.transaction_hash,
        receipt_id: a.receipt_id,
        update_reason: a.update_reason,
        nonstaked_balance: a.nonstaked_balance,
        staked_balance: a.staked_balance,
        storage_usage: a.storage_usage,
        index_in_block: 0,
    }
}

pub open spec fn unnumber() -> spec_fn(AccountChange) -> AccountChange {
    |a: AccountChange| unnumbered(a)
}

/// Each account change carries its position among the block's account
/// changes, so that (block hash, index in block) is a key.
pub open spec fn numbered_in_order(s: Seq<AccountChange>) -> bool {
    forall|i: int| 0 <= i < s.len() ==> (#[trigger] s[i]).index_in_block == i as u64
}

fn clone_opt(s: &Option<String>) -> (r: Option<String>)
    ensures
        r == *s,
{
    match s {
        Some(x) => Some(x.clone()),
        None => None,
    }
}

impl AccountChange {
    pub fn new(sc: &StateChange, block_hash: &String, timestamp: u64, index_in_block: u64) -> (r: Option<AccountChange>)
        ensures
            r == account_change_record(*sc, *block_hash, timestamp, index_in_block),
    {
        let (account_id, nonstaked, staked, storage) = match &sc.value {
            StateChangeValue::AccountUpdate { account_id, account } =>
                (account_id.clone(), account.amount, account.locked, account.storage_usage),
            StateChangeValue::AccountDeletion { account_id } => (account_id.clone(), 0u128, 0u128, 0u64),
            StateChangeValue::Other => {
                return None;
            },
        };
        let transaction_hash = match &sc.cause {
            StateChangeCause::TransactionProcessing { tx_hash } => Some(tx_hash.clone()),
            _ => None,
        };
        let receipt_id = match &sc.cause {
            StateChangeCause::ActionReceiptProcessingStarted { receipt_hash } => Some(receipt_hash.clone()),
            StateChangeCause::ActionReceiptGasReward { receipt_hash } => Some(receipt_hash.clone()),
            StateChangeCause::ReceiptProcessing { receipt_hash } => Some(receipt_hash.clone()),
            StateChangeCause::PostponedReceipt { receipt_hash } => Some(receipt_hash.clone()),
            _ => None,
        };
        Some(AccountChange {
            account_id,
            timestamp,
            block_hash: block_hash.clone(),
            transaction_hash,
            receipt_id,
            update_reason: UpdateReason::from(&sc.cause),
            nonstaked_balance: nonstaked,
            staked_balance: staked,
            storage_usage: storage,
            index_in_block,
        })
    }
}

/// Everything one block is turned into.
#[derive(Debug, PartialEq)]
pub struct BlockData {
    pub block: Block,
    pub chunks: Vec<Chunk>,
    pub transactions: Vec<Transaction>,
    pub transaction_actions: Vec<TransactionAction>,
    pub receipts: Vec<Receipt>,
    pub data_receipts: Vec<DataReceipt>,
    pub action_receipts: Vec<ActionReceipt>,
    pub action_receipt_actions: Vec<ActionReceiptAction>,
    pub action_receipt_input_datas: Vec<ActionReceiptInputData>,
    pub action_receipt_output_datas: Vec<ActionReceiptOutputData>,
    pub execution_outcomes: Vec<ExecutionOutcome>,
    pub execution_outcome_receipts: Vec<ExecutionOutcomeReceipt>,
    pub accounts: Vec<Account>,
    pub account_changes: Vec<AccountChange>,
    pub access_keys: Vec<AccessKey>,
}

/// The accounts and access keys of the genesis state.
#[derive(Clone, Debug, PartialEq, Eq)]
pub struct GenesisBlockData {
    pub accounts: Vec<Account>,
    pub access_keys: Vec<AccessKey>,
}

} // verus!
