use qlytics::batch::{prepare_data, Batch, Batcher, StreamItem};
use qlytics::egress::{mutations, Mutation};
use qlytics::genesis::handle_genesis;
use qlytics::json::{escape_json, Json};
use qlytics::message::{
    AccessKeyPermissionView, AccessKeyView, AccountView, ActionView, BlockHeader, BlockMessage, ChunkView,
    DataReceiver, ExecutionStatus, OutcomeView, OutcomeWithReceipt, ReceiptBody, ReceiptView, Shard,
    SignedTransactionView, StateChange, StateChangeCause, StateChangeValue, StateRecord, TransactionWithOutcome,
};
use qlytics::provenance::ProvenanceTracker;
use qlytics::records::{
    AccessKeyPermission, AccountChange, ActionKind, BlockData, ExecutionOutcomeStatus, ReceiptKind, UpdateReason,
};
use qlytics::text::decimal;
use qlytics::transform::handle_streamer_message;

fn s(x: &str) -> String {
    x.to_string()
}

fn outcome(id: &str, status: ExecutionStatus, produced: &[&str]) -> OutcomeView {
    OutcomeView {
        id: s(id),
        executor_id: s("executor.near"),
        gas_burnt: 10,
        tokens_burnt: 20,
        status,
        receipt_ids: produced.iter().map(|p| s(p)).collect(),
    }
}

fn transaction(hash: &str, receiver: &str, actions: Vec<ActionView>, produced: &str) -> TransactionWithOutcome {
    TransactionWithOutcome {
        transaction: SignedTransactionView {
            signer_id: s("signer.near"),
            public_key: s("ed25519:key"),
            nonce: 7,
            receiver_id: s(receiver),
            actions,
            signature: s("ed25519:sig"),
            hash: s(hash),
        },
        outcome: outcome(hash, ExecutionStatus::SuccessReceiptId, &[produced]),
        receipt_id: None,
    }
}

fn action_receipt(id: &str, receiver: &str, actions: Vec<ActionView>, outputs: &[&str]) -> ReceiptView {
    ReceiptView {
        predecessor_id: s("signer.near"),
        receiver_id: s(receiver),
        receipt_id: s(id),
        receipt: ReceiptBody::Action {
            signer_id: s("signer.near"),
            signer_public_key: s("ed25519:key"),
            gas_price: 100,
            output_data_receivers: outputs
                .iter()
                .map(|d| DataReceiver { data_id: s(d), receiver_id: s("other.near") })
                .collect(),
            input_data_ids: vec![],
            actions,
        },
    }
}

fn data_receipt(id: &str, data_id: &str, data: Option<Vec<u8>>) -> ReceiptView {
    ReceiptView {
        predecessor_id: s("signer.near"),
        receiver_id: s("other.near"),
        receipt_id: s(id),
        receipt: ReceiptBody::Data { data_id: s(data_id), data },
    }
}

fn chunk(hash: &str, transactions: Vec<TransactionWithOutcome>, receipts: Vec<ReceiptView>) -> ChunkView {
    ChunkView {
        chunk_hash: s(hash),
        shard_id: 0,
        signature: s("ed25519:chunk"),
        gas_limit: 1000,
        gas_used: 10,
        author: s("validator.near"),
        transactions,
        receipts,
    }
}

fn shard(id: u64, chunk: Option<ChunkView>, outcomes: Vec<OutcomeWithReceipt>) -> Shard {
    Shard { shard_id: id, chunk, receipt_execution_outcomes: outcomes, state_changes: vec![] }
}

fn block(height: u64, shards: Vec<Shard>) -> BlockMessage {
    BlockMessage {
        header: BlockHeader {
            hash: format!("block{}", height),
            height,
            prev_hash: format!("block{}", height - 1),
            timestamp_nanosec: 1_650_000_000_123_456_789,
            total_supply: 1_000_000_000_000_000_000_000_000_000_000_000,
            gas_price: 100_000_000,
            author: s("validator.near"),
        },
        shards,
    }
}

fn empty_block(height: u64) -> BlockMessage {
    block(height, vec![shard(0, Some(chunk("c", vec![], vec![])), vec![])])
}

fn str_member<'a>(args: &'a Json, key: &str) -> Option<&'a Json> {
    match args {
        Json::Object(ms) => ms.iter().find(|(k, _)| k == key).map(|(_, v)| v),
        _ => None,
    }
}

#[test]
fn genesis_on() {
    let full = AccessKeyPermissionView::FullAccess;
    let records = vec![
        StateRecord::Account { account_id: s("a.near") },
        StateRecord::Other,
        StateRecord::Account { account_id: s("b.near") },
        StateRecord::AccessKey { account_id: s("a.near"), public_key: s("ed25519:a"), permission: full },
        StateRecord::Other,
        StateRecord::Account { account_id: s("c.near") },
        StateRecord::Other,
        StateRecord::AccessKey {
            account_id: s("b.near"),
            public_key: s("ed25519:b"),
            permission: AccessKeyPermissionView::FunctionCall {
                allowance: None,
                receiver_id: s("app.near"),
                method_names: vec![],
            },
        },
        StateRecord::Other,
    ];
    let genesis = handle_genesis(9820210, &records);
    assert_eq!(genesis.accounts.len(), 3);
    assert_eq!(genesis.access_keys.len(), 2);
    assert_eq!(genesis.accounts[1].account_id, "b.near");
    assert_eq!(genesis.accounts[1].created_by_receipt_id, None);
    assert_eq!(genesis.accounts[1].last_update_block_height, 9820210);
    assert_eq!(genesis.access_keys[1].permission_kind, AccessKeyPermission::FunctionCall);

    let mut batcher = Batcher::new(100);
    assert!(batcher.push(StreamItem::Genesis(genesis)).is_none());
    let mut tracker = ProvenanceTracker::new();
    let mut out = None;
    for h in 1..100u64 {
        let (bd, ids) = handle_streamer_message(&mut tracker, &empty_block(h));
        out = batcher.push(StreamItem::Block(bd, ids));
        if h < 99 {
            assert!(out.is_none());
        }
    }
    let batch = out.expect("the hundredth item fills the batch");
    assert_eq!(batch.genesis.len(), 1);
    assert_eq!(batch.genesis[0].accounts.len(), 3);
    assert_eq!(batch.genesis[0].access_keys.len(), 2);
    assert_eq!(batch.blocks.len(), 99);
    assert_eq!(batch.blocks[0].block.block_height, 1);
    assert_eq!(batch.blocks[98].block.block_height, 99);
}

#[test]
fn one_transaction_no_children() {
    let mut tracker = ProvenanceTracker::new();
    let t = transaction("T", "alice.near", vec![ActionView::Transfer { deposit: 5 }], "R1");
    let msg = block(10, vec![shard(0, Some(chunk("C", vec![t], vec![])), vec![])]);
    let (bd, deleted) = handle_streamer_message(&mut tracker, &msg);
    assert_eq!(tracker.origin_of(&s("R1")), Some(s("T")));
    assert_eq!(bd.transactions.len(), 1);
    assert_eq!(bd.transactions[0].transaction_hash, "T");
    assert_eq!(bd.transactions[0].converted_into_receipt_id, "R1");
    assert_eq!(bd.transactions[0].status, ExecutionOutcomeStatus::SuccessReceiptId);
    assert_eq!(bd.transaction_actions.len(), 1);
    assert_eq!(bd.transaction_actions[0].action_kind, ActionKind::Transfer);
    assert_eq!(bd.transaction_actions[0].index_in_transaction, 0);
    assert_eq!(bd.receipts.len(), 0);
    assert_eq!(bd.accounts.len(), 0);
    assert!(deleted.is_empty());
    assert_eq!(bd.block.block_timestamp, 1_650_000_000_123_456_789);
    assert_eq!(bd.transactions[0].block_timestamp, 1_650_000_000_123_456_789);
    assert_eq!(bd.chunks.len(), 1);
    assert_eq!(bd.chunks[0].included_in_block_hash, "block10");
}

#[test]
fn chained_receipts() {
    let mut tracker = ProvenanceTracker::new();
    let t = transaction("T", "bob.near", vec![ActionView::Transfer { deposit: 5 }], "R1");
    let first = block(10, vec![shard(0, Some(chunk("C1", vec![t], vec![])), vec![])]);
    handle_streamer_message(&mut tracker, &first);

    let r1 = action_receipt("R1", "bob.near", vec![ActionView::Transfer { deposit: 5 }], &[]);
    let executed = OutcomeWithReceipt {
        outcome: outcome("R1", ExecutionStatus::SuccessValue, &["R2"]),
        receipt: action_receipt("R1", "bob.near", vec![ActionView::Transfer { deposit: 5 }], &[]),
    };
    let second = block(11, vec![shard(3, Some(chunk("C2", vec![], vec![r1])), vec![executed])]);
    let (bd, _) = handle_streamer_message(&mut tracker, &second);
    assert_eq!(bd.receipts.len(), 1);
    assert_eq!(bd.receipts[0].receipt_id, "R1");
    assert_eq!(bd.receipts[0].originated_from_transaction_hash, "T");
    assert_eq!(bd.receipts[0].included_in_chunk_hash, "C2");
    assert_eq!(bd.receipts[0].receipt_kind, ReceiptKind::Action);
    assert_eq!(bd.execution_outcomes.len(), 1);
    assert_eq!(bd.execution_outcomes[0].shard, 3);
    assert_eq!(bd.execution_outcome_receipts.len(), 1);
    assert_eq!(bd.execution_outcome_receipts[0].produced_receipt_id, "R2");
    assert_eq!(tracker.origin_of(&s("R1")), Some(s("T")));
    assert_eq!(tracker.origin_of(&s("R2")), Some(s("T")));
}

fn transfer_outcome(receiver: &str) -> OutcomeWithReceipt {
    OutcomeWithReceipt {
        outcome: outcome("RX", ExecutionStatus::SuccessValue, &[]),
        receipt: action_receipt("RX", receiver, vec![ActionView::Transfer { deposit: 1 }], &[]),
    }
}

#[test]
fn implicit_account_creation() {
    let receiver = "a".repeat(64);
    let mut tracker = ProvenanceTracker::new();
    let msg = block(5, vec![shard(0, Some(chunk("C", vec![], vec![])), vec![transfer_outcome(&receiver)])]);
    let (bd, _) = handle_streamer_message(&mut tracker, &msg);
    assert_eq!(bd.accounts.len(), 1);
    assert_eq!(bd.accounts[0].account_id, receiver);
    assert_eq!(bd.accounts[0].created_by_receipt_id, Some(s("RX")));
    assert_eq!(bd.accounts[0].last_update_block_height, 5);
}

#[test]
fn transfer_to_63_characters_creates_no_account() {
    let mut tracker = ProvenanceTracker::new();
    let msg = block(5, vec![shard(0, Some(chunk("C", vec![], vec![])), vec![transfer_outcome(&"a".repeat(63))])]);
    let (bd, _) = handle_streamer_message(&mut tracker, &msg);
    assert_eq!(bd.accounts.len(), 0);
}

#[test]
fn failed_outcome_creates_no_account() {
    let mut tracker = ProvenanceTracker::new();
    let mut failed = transfer_outcome(&"a".repeat(64));
    failed.outcome.status = ExecutionStatus::Failure;
    let msg = block(5, vec![shard(0, Some(chunk("C", vec![], vec![])), vec![failed])]);
    let (bd, _) = handle_streamer_message(&mut tracker, &msg);
    assert_eq!(bd.accounts.len(), 0);
}

#[test]
fn account_lifecycle_events() {
    let key = AccessKeyView { nonce: 0, permission: AccessKeyPermissionView::FullAccess };
    let executed = OutcomeWithReceipt {
        outcome: outcome("RA", ExecutionStatus::SuccessReceiptId, &[]),
        receipt: action_receipt(
            "RA",
            "new.near",
            vec![
                ActionView::CreateAccount,
                ActionView::AddKey { public_key: s("ed25519:k"), access_key: key },
                ActionView::DeleteAccount { beneficiary_id: s("ben.near") },
            ],
            &[],
        ),
    };
    let mut tracker = ProvenanceTracker::new();
    let msg = block(8, vec![shard(0, Some(chunk("C", vec![], vec![])), vec![executed])]);
    let (bd, deleted) = handle_streamer_message(&mut tracker, &msg);
    assert_eq!(bd.accounts.len(), 1);
    assert_eq!(bd.accounts[0].account_id, "new.near");
    assert_eq!(bd.access_keys.len(), 1);
    assert_eq!(bd.access_keys[0].public_key, "ed25519:k");
    assert_eq!(bd.access_keys[0].account_id, "new.near");
    assert_eq!(bd.access_keys[0].permission_kind, AccessKeyPermission::FullAccess);
    assert_eq!(bd.access_keys[0].created_by_receipt_id, Some(s("RA")));
    assert_eq!(deleted, vec![s("new.near")]);
}

#[test]
fn function_call_with_json_args() {
    let args = br#"{"msg":"hi"}"#.to_vec();
    let doc = Json::Object(vec![(s("msg"), Json::Str(s("hi")))]);
    let call = ActionView::FunctionCall {
        method_name: s("say\n"),
        args,
        args_json: Some(doc),
        gas: 30_000_000_000_000,
        deposit: 1,
    };
    let mut tracker = ProvenanceTracker::new();
    let t = transaction("T", "app.near", vec![call], "R1");
    let msg = block(3, vec![shard(0, Some(chunk("C", vec![t], vec![])), vec![])]);
    let (bd, _) = handle_streamer_message(&mut tracker, &msg);
    assert_eq!(bd.transaction_actions.len(), 1);
    let a = &bd.transaction_actions[0];
    assert_eq!(a.action_kind, ActionKind::FunctionCall);
    assert_eq!(str_member(&a.args, "args_base64"), Some(&Json::Str(s("eyJtc2ciOiJoaSJ9"))));
    assert_eq!(
        str_member(&a.args, "args_json"),
        Some(&Json::Object(vec![(s("msg"), Json::Str(s("hi")))]))
    );
    assert_eq!(str_member(&a.args, "method_name"), Some(&Json::Str(s("say\\n"))));
    assert_eq!(str_member(&a.args, "gas"), Some(&Json::UInt(30_000_000_000_000)));
    assert_eq!(str_member(&a.args, "deposit"), Some(&Json::Str(s("1"))));
}

#[test]
fn function_call_without_json_args() {
    let call = ActionView::FunctionCall {
        method_name: s("run"),
        args: vec![0xff, 0x00],
        args_json: None,
        gas: 1,
        deposit: 0,
    };
    let mut tracker = ProvenanceTracker::new();
    let t = transaction("T", "app.near", vec![call], "R1");
    let msg = block(3, vec![shard(0, Some(chunk("C", vec![t], vec![])), vec![])]);
    let (bd, _) = handle_streamer_message(&mut tracker, &msg);
    let a = &bd.transaction_actions[0];
    assert_eq!(str_member(&a.args, "args_base64"), Some(&Json::Str(s("/wA="))));
    assert_eq!(str_member(&a.args, "args_json"), None);
}

#[test]
fn escape_reaches_nested_string_leaves() {
    let doc = Json::Object(vec![
        (s("k\n"), Json::Array(vec![Json::Str(s("a\"b")), Json::UInt(3), Json::Str(s("é"))])),
        (s("n"), Json::Null),
    ]);
    let escaped = escape_json(&doc);
    assert_eq!(
        escaped,
        Json::Object(vec![
            (s("k\n"), Json::Array(vec![Json::Str(s("a\\\"b")), Json::UInt(3), Json::Str(s("\\u{e9}"))])),
            (s("n"), Json::Null),
        ])
    );
}

#[test]
fn deploy_contract_hex_of_code() {
    let mut tracker = ProvenanceTracker::new();
    let t = transaction("T", "app.near", vec![ActionView::DeployContract { code: vec![0x00, 0x61, 0xff] }], "R1");
    let msg = block(3, vec![shard(0, Some(chunk("C", vec![t], vec![])), vec![])]);
    let (bd, _) = handle_streamer_message(&mut tracker, &msg);
    let a = &bd.transaction_actions[0];
    assert_eq!(a.action_kind, ActionKind::DeployContract);
    assert_eq!(a.args, Json::Object(vec![(s("code_sha256"), Json::Str(s("0061ff")))]));
}

#[test]
fn stake_and_add_key_args() {
    let key = AccessKeyView {
        nonce: 4,
        permission: AccessKeyPermissionView::FunctionCall {
            allowance: Some(250),
            receiver_id: s("app.near"),
            method_names: vec![s("a"), s("b")],
        },
    };
    let mut tracker = ProvenanceTracker::new();
    let t = transaction(
        "T",
        "app.near",
        vec![
            ActionView::Stake { stake: 12345678901234567890123, public_key: s("ed25519:v") },
            ActionView::AddKey { public_key: s("ed25519:n"), access_key: key },
            ActionView::CreateAccount,
        ],
        "R1",
    );
    let msg = block(3, vec![shard(0, Some(chunk("C", vec![t], vec![])), vec![])]);
    let (bd, _) = handle_streamer_message(&mut tracker, &msg);
    assert_eq!(bd.transaction_actions.len(), 3);
    assert_eq!(bd.transaction_actions[2].index_in_transaction, 2);
    assert_eq!(bd.transaction_actions[2].args, Json::Object(vec![]));
    assert_eq!(
        bd.transaction_actions[0].args,
        Json::Object(vec![
            (s("stake"), Json::Str(s("12345678901234567890123"))),
            (s("public_key"), Json::Str(s("ed25519:v"))),
        ])
    );
    let permission = Json::Object(vec![(
        s("FunctionCall"),
        Json::Object(vec![
            (s("allowance"), Json::Str(s("250"))),
            (s("receiver_id"), Json::Str(s("app.near"))),
            (s("method_names"), Json::Array(vec![Json::Str(s("a")), Json::Str(s("b"))])),
        ]),
    )]);
    assert_eq!(
        bd.transaction_actions[1].args,
        Json::Object(vec![
            (s("public_key"), Json::Str(s("ed25519:n"))),
            (s("access_key"), Json::Object(vec![(s("nonce"), Json::UInt(4)), (s("permission"), permission)])),
        ])
    );
}

#[test]
fn orphan_data_receipt() {
    let mut tracker = ProvenanceTracker::new();
    let before = tracker.misses();
    let r = data_receipt("RD", "D9", Some(vec![1, 2, 3]));
    let msg = block(4, vec![shard(0, Some(chunk("C", vec![], vec![r])), vec![])]);
    let (bd, _) = handle_streamer_message(&mut tracker, &msg);
    assert_eq!(bd.receipts.len(), 0);
    assert_eq!(bd.data_receipts.len(), 1);
    assert_eq!(bd.data_receipts[0].data_id, "D9");
    assert_eq!(bd.data_receipts[0].data_base64, Some(s("AQID")));
    assert_eq!(bd.action_receipts.len(), 0);
    assert_eq!(tracker.misses(), before + 1);
}

#[test]
fn data_receipt_redeems_registered_output() {
    let mut tracker = ProvenanceTracker::new();
    let t = transaction("T", "app.near", vec![ActionView::Transfer { deposit: 1 }], "R1");
    handle_streamer_message(&mut tracker, &block(1, vec![shard(0, Some(chunk("C1", vec![t], vec![])), vec![])]));
    let r1 = action_receipt("R1", "app.near", vec![ActionView::CreateAccount], &["D1"]);
    let (bd, _) = handle_streamer_message(&mut tracker, &block(2, vec![shard(0, Some(chunk("C2", vec![], vec![r1])), vec![])]));
    assert_eq!(bd.receipts.len(), 1);
    assert_eq!(bd.action_receipt_output_datas.len(), 1);
    assert_eq!(bd.action_receipt_output_datas[0].data_id, "D1");
    assert_eq!(bd.action_receipt_actions.len(), 1);
    let rd = data_receipt("RD", "D1", None);
    let (bd, _) = handle_streamer_message(&mut tracker, &block(3, vec![shard(0, Some(chunk("C3", vec![], vec![rd])), vec![])]));
    assert_eq!(bd.receipts.len(), 1);
    assert_eq!(bd.receipts[0].receipt_kind, ReceiptKind::Data);
    assert_eq!(bd.receipts[0].originated_from_transaction_hash, "T");
    assert_eq!(bd.data_receipts[0].data_base64, None);
    assert_eq!(tracker.misses(), 0);
}

#[test]
fn empty_shard_yields_nothing() {
    let mut tracker = ProvenanceTracker::new();
    let msg = block(4, vec![shard(0, None, vec![transfer_outcome(&"a".repeat(64))])]);
    let (bd, ids): (BlockData, Vec<String>) = handle_streamer_message(&mut tracker, &msg);
    assert_eq!(bd.chunks.len(), 0);
    assert_eq!(bd.transactions.len(), 0);
    assert_eq!(bd.accounts.len(), 0);
    assert_eq!(bd.execution_outcomes.len(), 0);
    assert!(ids.is_empty());
    assert_eq!(bd.block.block_hash, "block4");
}

#[test]
fn transaction_with_zero_actions() {
    let mut tracker = ProvenanceTracker::new();
    let t = transaction("T", "app.near", vec![], "R1");
    let msg = block(3, vec![shard(0, Some(chunk("C", vec![t], vec![])), vec![])]);
    let (bd, _) = handle_streamer_message(&mut tracker, &msg);
    assert_eq!(bd.transactions.len(), 1);
    assert_eq!(bd.transaction_actions.len(), 0);
}

#[test]
fn shards_keep_their_order() {
    let mut tracker = ProvenanceTracker::new();
    let t1 = transaction("T1", "a.near", vec![ActionView::Transfer { deposit: 1 }], "R1");
    let t2 = transaction("T2", "b.near", vec![ActionView::Transfer { deposit: 1 }], "R2");
    let t3 = transaction("T3", "c.near", vec![ActionView::Transfer { deposit: 1 }], "R3");
    let msg = block(3, vec![
        shard(0, Some(chunk("C0", vec![t1, t2], vec![])), vec![]),
        shard(1, None, vec![]),
        shard(2, Some(chunk("C2", vec![t3], vec![])), vec![]),
    ]);
    let (bd, _) = handle_streamer_message(&mut tracker, &msg);
    let hashes: Vec<&str> = bd.transactions.iter().map(|t| t.transaction_hash.as_str()).collect();
    assert_eq!(hashes, vec!["T1", "T2", "T3"]);
    assert_eq!(bd.transactions[1].index_in_chunk, 1);
    assert_eq!(bd.transactions[2].index_in_chunk, 0);
    assert_eq!(bd.chunks.len(), 2);
}

#[test]
fn entries_age_out_after_fifteen_blocks() {
    let mut tracker = ProvenanceTracker::new();
    let t = transaction("T", "app.near", vec![], "R1");
    handle_streamer_message(&mut tracker, &block(1, vec![shard(0, Some(chunk("C", vec![t], vec![])), vec![])]));
    for h in 2..15u64 {
        handle_streamer_message(&mut tracker, &empty_block(h));
    }
    assert_eq!(tracker.origin_of(&s("R1")), Some(s("T")));
    handle_streamer_message(&mut tracker, &empty_block(15));
    assert_eq!(tracker.origin_of(&s("R1")), None);
    assert_eq!(tracker.len(), 0);
}

#[test]
fn same_block_twice_gives_same_records() {
    let t = transaction("T", "alice.near", vec![ActionView::Transfer { deposit: 5 }], "R1");
    let msg = block(10, vec![shard(0, Some(chunk("C", vec![t], vec![action_receipt("R0", "x.near", vec![], &[])])), vec![])]);
    let mut a = ProvenanceTracker::new();
    let mut b = ProvenanceTracker::new();
    assert!(handle_streamer_message(&mut a, &msg) == handle_streamer_message(&mut b, &msg));
}

#[test]
fn account_change_projection() {
    let changes = vec![
        StateChange {
            cause: StateChangeCause::TransactionProcessing { tx_hash: s("T") },
            value: StateChangeValue::AccountUpdate {
                account_id: s("a.near"),
                account: AccountView { amount: 10, locked: 2, storage_usage: 300 },
            },
        },
        StateChange { cause: StateChangeCause::Migration, value: StateChangeValue::Other },
        StateChange {
            cause: StateChangeCause::PostponedReceipt { receipt_hash: s("R") },
            value: StateChangeValue::AccountDeletion { account_id: s("b.near") },
        },
    ];
    let mut sh = shard(0, Some(chunk("C", vec![], vec![])), vec![]);
    sh.state_changes = changes;
    let mut tracker = ProvenanceTracker::new();
    let (bd, _) = handle_streamer_message(&mut tracker, &block(6, vec![sh]));
    assert_eq!(bd.account_changes.len(), 2);
    let first: &AccountChange = &bd.account_changes[0];
    assert_eq!(first.transaction_hash, Some(s("T")));
    assert_eq!(first.receipt_id, None);
    assert_eq!(first.update_reason, UpdateReason::TransactionProcessing);
    assert_eq!(first.nonstaked_balance, 10);
    assert_eq!(first.staked_balance, 2);
    assert_eq!(first.storage_usage, 300);
    assert_eq!(first.index_in_block, 0);
    let second = &bd.account_changes[1];
    assert_eq!(second.account_id, "b.near");
    assert_eq!(second.receipt_id, Some(s("R")));
    assert_eq!(second.update_reason, UpdateReason::PostponedReceipt);
    assert_eq!((second.nonstaked_balance, second.staked_balance, second.storage_usage), (0, 0, 0));
    assert_eq!(second.index_in_block, 1);
}

#[test]
fn tags_are_screaming_snake_case() {
    assert_eq!(ExecutionOutcomeStatus::from(&ExecutionStatus::Unknown).tag(), "UNKNOWN");
    assert_eq!(ExecutionOutcomeStatus::from(&ExecutionStatus::Failure).tag(), "FAILURE");
    assert_eq!(ExecutionOutcomeStatus::from(&ExecutionStatus::SuccessValue).tag(), "SUCCESS_VALUE");
    assert_eq!(ExecutionOutcomeStatus::from(&ExecutionStatus::SuccessReceiptId).tag(), "SUCCESS_RECEIPT_ID");
    assert_eq!(ActionKind::DeleteAccount.tag(), "DELETE_ACCOUNT");
    assert_eq!(ReceiptKind::Data.tag(), "DATA");
    assert_eq!(UpdateReason::ActionReceiptProcessingStarted.tag(), "ACTION_RECEIPT_PROCESSING_STARTED");
    assert_eq!(AccessKeyPermission::FullAccess.tag(), "FULL_ACCESS");
}

#[test]
fn decimal_rendering() {
    assert_eq!(decimal(0), "0");
    assert_eq!(decimal(7), "7");
    assert_eq!(decimal(1050), "1050");
    assert_eq!(decimal(u128::MAX), "340282366920938463463374607431768211455");
}

#[test]
fn batcher_flushes_only_at_threshold() {
    let mut batcher = Batcher::new(3);
    let mut tracker = ProvenanceTracker::new();
    let (b1, _) = handle_streamer_message(&mut tracker, &empty_block(1));
    let (b2, _) = handle_streamer_message(&mut tracker, &empty_block(2));
    let (b3, _) = handle_streamer_message(&mut tracker, &empty_block(3));
    assert!(batcher.push(StreamItem::Block(b1, vec![s("x.near")])).is_none());
    assert!(batcher.push(StreamItem::Block(b2, vec![])).is_none());
    let batch = batcher.push(StreamItem::Block(b3, vec![s("y.near"), s("z.near")])).expect("full");
    assert_eq!(batch.genesis.len(), 0);
    assert_eq!(batch.blocks.len(), 3);
    assert_eq!(batch.deleted_account_ids, vec![s("x.near"), s("y.near"), s("z.near")]);
    let (b4, _) = handle_streamer_message(&mut tracker, &empty_block(4));
    assert!(batcher.push(StreamItem::Block(b4, vec![])).is_none());
}

#[test]
fn empty_payloads_are_not_sent() {
    let none = Batch { genesis: vec![], blocks: vec![], deleted_account_ids: vec![] };
    assert!(mutations(&none).is_empty());
    let only_ids = Batch { genesis: vec![], blocks: vec![], deleted_account_ids: vec![s("x.near")] };
    assert_eq!(mutations(&only_ids), vec![Mutation::DeleteAccounts]);
    let mut tracker = ProvenanceTracker::new();
    let (bd, _) = handle_streamer_message(&mut tracker, &empty_block(1));
    let genesis = handle_genesis(0, &vec![StateRecord::Account { account_id: s("a.near") }]);
    let full = Batch { genesis: vec![genesis], blocks: vec![bd], deleted_account_ids: vec![s("x.near")] };
    assert_eq!(
        mutations(&full),
        vec![Mutation::AddGenesisBlockData, Mutation::AddBlockData, Mutation::DeleteAccounts]
    );
}

fn account_update(account_id: &str) -> StateChange {
    StateChange {
        cause: StateChangeCause::ReceiptProcessing { receipt_hash: s("R") },
        value: StateChangeValue::AccountUpdate {
            account_id: s(account_id),
            account: AccountView { amount: 1, locked: 0, storage_usage: 100 },
        },
    }
}

#[test]
fn account_change_keys_are_distinct_across_shards() {
    let mut first = shard(0, Some(chunk("C0", vec![], vec![])), vec![]);
    first.state_changes = vec![account_update("a.near")];
    let mut second = shard(1, Some(chunk("C1", vec![], vec![])), vec![]);
    second.state_changes = vec![account_update("b.near")];
    let mut tracker = ProvenanceTracker::new();
    let (bd, _) = handle_streamer_message(&mut tracker, &block(6, vec![first, second]));
    assert_eq!(bd.account_changes.len(), 2);
    assert_eq!(bd.account_changes[0].account_id, "a.near");
    assert_eq!(bd.account_changes[0].index_in_block, 0);
    assert_eq!(bd.account_changes[1].account_id, "b.near");
    assert_eq!(bd.account_changes[1].index_in_block, 1);
    assert_eq!(bd.account_changes[0].block_hash, bd.account_changes[1].block_hash);
}

#[test]
fn outcome_chain_entry_is_fresh() {
    let mut tracker = ProvenanceTracker::new();
    let t = transaction("T", "bob.near", vec![ActionView::Transfer { deposit: 5 }], "R1");
    handle_streamer_message(&mut tracker, &block(10, vec![shard(0, Some(chunk("C1", vec![t], vec![])), vec![])]));
    for h in 11..20u64 {
        handle_streamer_message(&mut tracker, &empty_block(h));
    }
    let executed = OutcomeWithReceipt {
        outcome: outcome("R1", ExecutionStatus::SuccessValue, &["R2"]),
        receipt: action_receipt("R1", "bob.near", vec![], &[]),
    };
    handle_streamer_message(&mut tracker, &block(20, vec![shard(0, Some(chunk("C2", vec![], vec![])), vec![executed])]));
    for h in 21..34u64 {
        handle_streamer_message(&mut tracker, &empty_block(h));
    }
    assert_eq!(tracker.origin_of(&s("R1")), None);
    assert_eq!(tracker.origin_of(&s("R2")), Some(s("T")));
}

#[test]
fn prepare_data_batches_a_stream() {
    let records = vec![
        StateRecord::Account { account_id: s("a.near") },
        StateRecord::Account { account_id: s("b.near") },
        StateRecord::Account { account_id: s("c.near") },
        StateRecord::AccessKey { account_id: s("a.near"), public_key: s("ed25519:a"), permission: AccessKeyPermissionView::FullAccess },
        StateRecord::AccessKey { account_id: s("b.near"), public_key: s("ed25519:b"), permission: AccessKeyPermissionView::FullAccess },
        StateRecord::Other,
        StateRecord::Other,
        StateRecord::Other,
        StateRecord::Other,
    ];
    let mut items = vec![StreamItem::Genesis(handle_genesis(0, &records))];
    let mut tracker = ProvenanceTracker::new();
    for h in 1..205u64 {
        let (bd, ids) = handle_streamer_message(&mut tracker, &empty_block(h));
        items.push(StreamItem::Block(bd, ids));
    }
    let batches = prepare_data(items, 100);
    assert_eq!(batches.len(), 2);
    assert_eq!(batches[0].genesis.len(), 1);
    assert_eq!(batches[0].genesis[0].accounts.len(), 3);
    assert_eq!(batches[0].genesis[0].access_keys.len(), 2);
    assert_eq!(batches[0].blocks.len(), 99);
    assert_eq!(batches[1].genesis.len(), 0);
    assert_eq!(batches[1].blocks.len(), 100);
    assert_eq!(batches[1].blocks[0].block.block_height, 100);
}
