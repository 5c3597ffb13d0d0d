//! The block transformer: one block message in, its records out, with the
//! provenance tracker carried from block to block.

use vstd::prelude::*;
use crate::accounts::{account_changes_of, accounts_of, deleted_of, handle_accounts, handle_state_changes, keys_of};
use crate::extract::{
    action_receipt_records, action_slots, data_receipt_rel, data_slots, extends_by, flat_indexed,
    handle_chunk_receipts, handle_transactions, input_data_records, lemma_lists_unextended, lemma_extends_by_trans,
    lemma_flat_indexed_step, missing, outcome_receipt_records, outcome_records, output_data_records,
    receipt_action_rel, receipt_action_slots, receipt_of, receipt_rel, receipt_slots, registered_after,
    saturating, transaction_action_rel, transaction_records,
};
use crate::message::{BlockMessage, ReceiptView, Shard, SignedTransactionView};
use crate::propagate::{
    block_pairs, block_transactions, insert_fresh, pass_over, propagate_outcomes, redeem_data_receipts,
    redeemed, resolve_pending, resolved, seed_transactions, shard_data_entries, shard_seeds, RESOLVE_PASSES,
};
use crate::provenance::{aged, ProvenanceTracker};
use crate::records::{
    block_record, chunk_record, numbered_in_order, unnumber, AccessKey, Account, AccountChange, ActionReceipt,
    ActionReceiptInputData, ActionReceiptOutputData, Block, BlockData, Chunk, ExecutionOutcome,
    ExecutionOutcomeReceipt, Receipt, Transaction,
};

verus! {

/// The chunks that a shard yields.
pub open spec fn chunks_piece(block_hash: String, timestamp: u64, height: u64, origins: Map<Seq<char>, (Seq<char>, nat)>) -> spec_fn(Shard, nat) -> Seq<Chunk> {
    |s: Shard, k: nat| match s.chunk {
        Some(c) => seq![chunk_record(c, block_hash)],
        None => Seq::empty(),
    }
}

/// The transactions that a shard yields.
pub open spec fn transactions_piece(block_hash: String, timestamp: u64, height: u64, origins: Map<Seq<char>, (Seq<char>, nat)>) -> spec_fn(Shard, nat) -> Seq<Transaction> {
    |s: Shard, k: nat| match s.chunk {
        Some(c) => transaction_records(c, block_hash, timestamp),
        None => Seq::empty(),
    }
}

/// The execution outcomes that a shard yields.
pub open spec fn execution_outcomes_piece(block_hash: String, timestamp: u64, height: u64, origins: Map<Seq<char>, (Seq<char>, nat)>) -> spec_fn(Shard, nat) -> Seq<ExecutionOutcome> {
    |s: Shard, k: nat| match s.chunk {
        Some(c) => flat_indexed(c.receipts@, |r: ReceiptView, k: nat| outcome_records(r, k, s.receipt_execution_outcomes@, block_hash, timestamp, s.shard_id)),
        None => Seq::empty(),
    }
}

/// The execution outcome receipts that a shard yields.
pub open spec fn execution_outcome_receipts_piece(block_hash: String, timestamp: u64, height: u64, origins: Map<Seq<char>, (Seq<char>, nat)>) -> spec_fn(Shard, nat) -> Seq<ExecutionOutcomeReceipt> {
    |s: Shard, k: nat| match s.chunk {
        Some(c) => flat_indexed(c.receipts@, |r: ReceiptView, k: nat| outcome_receipt_records(r, s.receipt_execution_outcomes@)),
        None => Seq::empty(),
    }
}

/// The action receipts that a shard yields.
pub open spec fn action_receipts_piece(block_hash: String, timestamp: u64, height: u64, origins: Map<Seq<char>, (Seq<char>, nat)>) -> spec_fn(Shard, nat) -> Seq<ActionReceipt> {
    |s: Shard, k: nat| match s.chunk {
        Some(c) => flat_indexed(c.receipts@, |r: ReceiptView, k: nat| action_receipt_records(r)),
        None => Seq::empty(),
    }
}

/// The action receipt input datas that a shard yields.
pub open spec fn action_receipt_input_datas_piece(block_hash: String, timestamp: u64, height: u64, origins: Map<Seq<char>, (Seq<char>, nat)>) -> spec_fn(Shard, nat) -> Seq<ActionReceiptInputData> {
    |s: Shard, k: nat| match s.chunk {
        Some(c) => flat_indexed(c.receipts@, |r: ReceiptView, k: nat| input_data_records(r)),
        None => Seq::empty(),
    }
}

/// The action receipt output datas that a shard yields.
pub open spec fn action_receipt_output_datas_piece(block_hash: String, timestamp: u64, height: u64, origins: Map<Seq<char>, (Seq<char>, nat)>) -> spec_fn(Shard, nat) -> Seq<ActionReceiptOutputData> {
    |s: Shard, k: nat| match s.chunk {
        Some(c) => flat_indexed(c.receipts@, |r: ReceiptView, k: nat| output_data_records(r)),
        None => Seq::empty(),
    }
}

/// The accounts that a shard yields.
pub open spec fn accounts_piece(block_hash: String, timestamp: u64, height: u64, origins: Map<Seq<char>, (Seq<char>, nat)>) -> spec_fn(Shard, nat) -> Seq<Account> {
    |s: Shard, k: nat| match s.chunk {
        Some(c) => accounts_of(s.receipt_execution_outcomes@, height),
        None => Seq::empty(),
    }
}

/// The account changes that a shard yields.
pub open spec fn account_changes_piece(block_hash: String, timestamp: u64, height: u64, origins: Map<Seq<char>, (Seq<char>, nat)>) -> spec_fn(Shard, nat) -> Seq<AccountChange> {
    |s: Shard, k: nat| match s.chunk {
        Some(c) => account_changes_of(s.state_changes@, block_hash, timestamp),
        None => Seq::empty(),
    }
}

/// The access keys that a shard yields.
pub open spec fn access_keys_piece(block_hash: String, timestamp: u64, height: u64, origins: Map<Seq<char>, (Seq<char>, nat)>) -> spec_fn(Shard, nat) -> Seq<AccessKey> {
    |s: Shard, k: nat| match s.chunk {
        Some(c) => keys_of(s.receipt_execution_outcomes@, height),
        None => Seq::empty(),
    }
}

/// The transaction actions slots of a shard.
pub open spec fn transaction_actions_piece(block_hash: String, timestamp: u64, height: u64, origins: Map<Seq<char>, (Seq<char>, nat)>) -> spec_fn(Shard, nat) -> Seq<(SignedTransactionView, nat)> {
    |s: Shard, k: nat| match s.chunk {
        Some(c) => action_slots(c.transactions@),
        None => Seq::empty(),
    }
}

/// The data receipts slots of a shard.
pub open spec fn data_receipts_piece(block_hash: String, timestamp: u64, height: u64, origins: Map<Seq<char>, (Seq<char>, nat)>) -> spec_fn(Shard, nat) -> Seq<ReceiptView> {
    |s: Shard, k: nat| match s.chunk {
        Some(c) => flat_indexed(c.receipts@, |r: ReceiptView, k: nat| data_slots(r)),
        None => Seq::empty(),
    }
}

/// The action receipt actions slots of a shard.
pub open spec fn action_receipt_actions_piece(block_hash: String, timestamp: u64, height: u64, origins: Map<Seq<char>, (Seq<char>, nat)>) -> spec_fn(Shard, nat) -> Seq<(ReceiptView, nat)> {
    |s: Shard, k: nat| match s.chunk {
        Some(c) => flat_indexed(c.receipts@, |r: ReceiptView, k: nat| receipt_action_slots(r)),
        None => Seq::empty(),
    }
}

/// The ids of the accounts that a shard's outcomes delete.
pub open spec fn deleted_piece() -> spec_fn(Shard, nat) -> Seq<String> {
    |s: Shard, k: nat| match s.chunk {
        Some(c) => deleted_of(s.receipt_execution_outcomes@),
        None => Seq::empty(),
    }
}

/// A receipt record and the receipt it stands for, with its index and the
/// hash of the chunk that carried it.
pub open spec fn block_receipt_rel(block_hash: String, timestamp: u64, origins: Map<Seq<char>, (Seq<char>, nat)>)
    -> spec_fn(Receipt, (ReceiptView, nat, String)) -> bool
{
    |rec: Receipt, sl: (ReceiptView, nat, String)| receipt_of(rec, sl.0, sl.1, block_hash, sl.2, timestamp, origins)
}

/// The receipt slots of a chunk, each with the chunk's hash.
pub open spec fn with_chunk(slots: Seq<(ReceiptView, nat)>, chunk_hash: String) -> Seq<(ReceiptView, nat, String)> {
    Seq::new(slots.len(), |i: int| (slots[i].0, slots[i].1, chunk_hash))
}

pub open spec fn block_receipts_piece(origins: Map<Seq<char>, (Seq<char>, nat)>) -> spec_fn(Shard, nat) -> Seq<(ReceiptView, nat, String)> {
    |s: Shard, k: nat| match s.chunk {
        Some(c) => with_chunk(flat_indexed(c.receipts@, |r: ReceiptView, k: nat| receipt_slots(r, k, origins)), c.chunk_hash),
        None => Seq::empty(),
    }
}

proof fn lemma_with_chunk(
    new: Seq<Receipt>, old: Seq<Receipt>, slots: Seq<(ReceiptView, nat)>,
    block_hash: String, chunk_hash: String, timestamp: u64, origins: Map<Seq<char>, (Seq<char>, nat)>,
)
    requires
        extends_by(new, old, slots, receipt_rel(block_hash, chunk_hash, timestamp, origins)),
    ensures
        extends_by(new, old, with_chunk(slots, chunk_hash), block_receipt_rel(block_hash, timestamp, origins)),
{
    assert forall|i: int| 0 <= i < slots.len() implies
        #[trigger] block_receipt_rel(block_hash, timestamp, origins)(new[old.len() + i], with_chunk(slots, chunk_hash)[i]) by {
        assert(receipt_rel(block_hash, chunk_hash, timestamp, origins)(new[old.len() + i], slots[i]));
    }
}

/// The lists of `new` extend those of `old` by what the shards yield, in
/// shard order.
pub open spec fn block_lists(old: BlockData, new: BlockData, shards: Seq<Shard>, block_hash: String, timestamp: u64, height: u64, origins: Map<Seq<char>, (Seq<char>, nat)>) -> bool {
    &&& new.chunks@ == old.chunks@ + flat_indexed(shards, chunks_piece(block_hash, timestamp, height, origins))
    &&& new.transactions@ == old.transactions@ + flat_indexed(shards, transactions_piece(block_hash, timestamp, height, origins))
    &&& new.execution_outcomes@ == old.execution_outcomes@ + flat_indexed(shards, execution_outcomes_piece(block_hash, timestamp, height, origins))
    &&& new.execution_outcome_receipts@ == old.execution_outcome_receipts@ + flat_indexed(shards, execution_outcome_receipts_piece(block_hash, timestamp, height, origins))
    &&& new.action_receipts@ == old.action_receipts@ + flat_indexed(shards, action_receipts_piece(block_hash, timestamp, height, origins))
    &&& new.action_receipt_input_datas@ == old.action_receipt_input_datas@ + flat_indexed(shards, action_receipt_input_datas_piece(block_hash, timestamp, height, origins))
    &&& new.action_receipt_output_datas@ == old.action_receipt_output_datas@ + flat_indexed(shards, action_receipt_output_datas_piece(block_hash, timestamp, height, origins))
    &&& new.accounts@ == old.accounts@ + flat_indexed(shards, accounts_piece(block_hash, timestamp, height, origins))
    &&& new.account_changes@.map_values(unnumber()) == old.account_changes@.map_values(unnumber())
        + flat_indexed(shards, account_changes_piece(block_hash, timestamp, height, origins))
    &&& new.access_keys@ == old.access_keys@ + flat_indexed(shards, access_keys_piece(block_hash, timestamp, height, origins))
    &&& extends_by(new.transaction_actions@, old.transaction_actions@, flat_indexed(shards, transaction_actions_piece(block_hash, timestamp, height, origins)), transaction_action_rel())
    &&& extends_by(new.data_receipts@, old.data_receipts@, flat_indexed(shards, data_receipts_piece(block_hash, timestamp, height, origins)), data_receipt_rel())
    &&& extends_by(new.action_receipt_actions@, old.action_receipt_actions@, flat_indexed(shards, action_receipt_actions_piece(block_hash, timestamp, height, origins)), receipt_action_rel(timestamp))
    &&& extends_by(new.receipts@, old.receipts@, flat_indexed(shards, block_receipts_piece(origins)),
        block_receipt_rel(block_hash, timestamp, origins))
    &&& new.block == old.block
}


/// What one shard, at position `k`, adds to the lists.
pub open spec fn shard_step(old: BlockData, new: BlockData, s: Shard, k: nat, block_hash: String, timestamp: u64, height: u64, origins: Map<Seq<char>, (Seq<char>, nat)>) -> bool {
    &&& new.chunks@ == old.chunks@ + chunks_piece(block_hash, timestamp, height, origins)(s, k)
    &&& new.transactions@ == old.transactions@ + transactions_piece(block_hash, timestamp, height, origins)(s, k)
    &&& new.execution_outcomes@ == old.execution_outcomes@ + execution_outcomes_piece(block_hash, timestamp, height, origins)(s, k)
    &&& new.execution_outcome_receipts@ == old.execution_outcome_receipts@ + execution_outcome_receipts_piece(block_hash, timestamp, height, origins)(s, k)
    &&& new.action_receipts@ == old.action_receipts@ + action_receipts_piece(block_hash, timestamp, height, origins)(s, k)
    &&& new.action_receipt_input_datas@ == old.action_receipt_input_datas@ + action_receipt_input_datas_piece(block_hash, timestamp, height, origins)(s, k)
    &&& new.action_receipt_output_datas@ == old.action_receipt_output_datas@ + action_receipt_output_datas_piece(block_hash, timestamp, height, origins)(s, k)
    &&& new.accounts@ == old.accounts@ + accounts_piece(block_hash, timestamp, height, origins)(s, k)
    &&& new.account_changes@.map_values(unnumber()) == old.account_changes@.map_values(unnumber())
        + account_changes_piece(block_hash, timestamp, height, origins)(s, k)
    &&& new.access_keys@ == old.access_keys@ + access_keys_piece(block_hash, timestamp, height, origins)(s, k)
    &&& extends_by(new.transaction_actions@, old.transaction_actions@, transaction_actions_piece(block_hash, timestamp, height, origins)(s, k), transaction_action_rel())
    &&& extends_by(new.data_receipts@, old.data_receipts@, data_receipts_piece(block_hash, timestamp, height, origins)(s, k), data_receipt_rel())
    &&& extends_by(new.action_receipt_actions@, old.action_receipt_actions@, action_receipt_actions_piece(block_hash, timestamp, height, origins)(s, k), receipt_action_rel(timestamp))
    &&& extends_by(new.receipts@, old.receipts@, block_receipts_piece(origins)(s, k), block_receipt_rel(block_hash, timestamp, origins))
    &&& new.block == old.block
}

proof fn lemma_block_step(b0: BlockData, b1: BlockData, b2: BlockData, shards: Seq<Shard>, i: int, block_hash: String, timestamp: u64, height: u64, origins: Map<Seq<char>, (Seq<char>, nat)>)
    requires
        0 <= i < shards.len(),
        block_lists(b0, b1, shards.subrange(0, i), block_hash, timestamp, height, origins),
        shard_step(b1, b2, shards[i], i as nat, block_hash, timestamp, height, origins),
    ensures
        block_lists(b0, b2, shards.subrange(0, i + 1), block_hash, timestamp, height, origins),
{
    lemma_flat_indexed_step(shards, chunks_piece(block_hash, timestamp, height, origins), i);
    assert(b2.chunks@ =~= b0.chunks@ + flat_indexed(shards.subrange(0, i + 1), chunks_piece(block_hash, timestamp, height, origins)));
    lemma_flat_indexed_step(shards, transactions_piece(block_hash, timestamp, height, origins), i);
    assert(b2.transactions@ =~= b0.transactions@ + flat_indexed(shards.subrange(0, i + 1), transactions_piece(block_hash, timestamp, height, origins)));
    lemma_flat_indexed_step(shards, execution_outcomes_piece(block_hash, timestamp, height, origins), i);
    assert(b2.execution_outcomes@ =~= b0.execution_outcomes@ + flat_indexed(shards.subrange(0, i + 1), execution_outcomes_piece(block_hash, timestamp, height, origins)));
    lemma_flat_indexed_step(shards, execution_outcome_receipts_piece(block_hash, timestamp, height, origins), i);
    assert(b2.execution_outcome_receipts@ =~= b0.execution_outcome_receipts@ + flat_indexed(shards.subrange(0, i + 1), execution_outcome_receipts_piece(block_hash, timestamp, height, origins)));
    lemma_flat_indexed_step(shards, action_receipts_piece(block_hash, timestamp, height, origins), i);
    assert(b2.action_receipts@ =~= b0.action_receipts@ + flat_indexed(shards.subrange(0, i + 1), action_receipts_piece(block_hash, timestamp, height, origins)));
    lemma_flat_indexed_step(shards, action_receipt_input_datas_piece(block_hash, timestamp, height, origins), i);
    assert(b2.action_receipt_input_datas@ =~= b0.action_receipt_input_datas@ + flat_indexed(shards.subrange(0, i + 1), action_receipt_input_datas_piece(block_hash, timestamp, height, origins)));
    lemma_flat_indexed_step(shards, action_receipt_output_datas_piece(block_hash, timestamp, height, origins), i);
    assert(b2.action_receipt_output_datas@ =~= b0.action_receipt_output_datas@ + flat_indexed(shards.subrange(0, i + 1), action_receipt_output_datas_piece(block_hash, timestamp, height, origins)));
    lemma_flat_indexed_step(shards, accounts_piece(block_hash, timestamp, height, origins), i);
    assert(b2.accounts@ =~= b0.accounts@ + flat_indexed(shards.subrange(0, i + 1), accounts_piece(block_hash, timestamp, height, origins)));
    lemma_flat_indexed_step(shards, account_changes_piece(block_hash, timestamp, height, origins), i);
    assert(b2.account_changes@.map_values(unnumber()) =~= b0.account_changes@.map_values(unnumber())
        + flat_indexed(shards.subrange(0, i + 1), account_changes_piece(block_hash, timestamp, height, origins)));
    lemma_flat_indexed_step(shards, access_keys_piece(block_hash, timestamp, height, origins), i);
    assert(b2.access_keys@ =~= b0.access_keys@ + flat_indexed(shards.subrange(0, i + 1), access_keys_piece(block_hash, timestamp, height, origins)));
    lemma_flat_indexed_step(shards, transaction_actions_piece(block_hash, timestamp, height, origins), i);
    lemma_extends_by_trans(b0.transaction_actions@, b1.transaction_actions@, b2.transaction_actions@, flat_indexed(shards.subrange(0, i), transaction_actions_piece(block_hash, timestamp, height, origins)),
        transaction_actions_piece(block_hash, timestamp, height, origins)(shards[i], i as nat), transaction_action_rel());
    lemma_flat_indexed_step(shards, data_receipts_piece(block_hash, timestamp, height, origins), i);
    lemma_extends_by_trans(b0.data_receipts@, b1.data_receipts@, b2.data_receipts@, flat_indexed(shards.subrange(0, i), data_receipts_piece(block_hash, timestamp, height, origins)),
        data_receipts_piece(block_hash, timestamp, height, origins)(shards[i], i as nat), data_receipt_rel());
    lemma_flat_indexed_step(shards, action_receipt_actions_piece(block_hash, timestamp, height, origins), i);
    lemma_extends_by_trans(b0.action_receipt_actions@, b1.action_receipt_actions@, b2.action_receipt_actions@, flat_indexed(shards.subrange(0, i), action_receipt_actions_piece(block_hash, timestamp, height, origins)),
        action_receipt_actions_piece(block_hash, timestamp, height, origins)(shards[i], i as nat), receipt_action_rel(timestamp));
    lemma_flat_indexed_step(shards, block_receipts_piece(origins), i);
    lemma_extends_by_trans(b0.receipts@, b1.receipts@, b2.receipts@, flat_indexed(shards.subrange(0, i), block_receipts_piece(origins)),
        block_receipts_piece(origins)(shards[i], i as nat), block_receipt_rel(block_hash, timestamp, origins));
}


/// The data index after the receipts of all chunks of `shards` were processed.
pub open spec fn data_after(d: Map<Seq<char>, Seq<char>>, shards: Seq<Shard>, origins: Map<Seq<char>, (Seq<char>, nat)>)
    -> Map<Seq<char>, Seq<char>>
    decreases shards.len(),
{
    if shards.len() == 0 {
        d
    } else {
        let prev = data_after(d, shards.drop_last(), origins);
        match shards.last().chunk {
            Some(c) => registered_after(prev, c.receipts@, origins),
            None => prev,
        }
    }
}

/// How many receipts of the chunks of `shards` have no known origin.
pub open spec fn missing_in(shards: Seq<Shard>, origins: Map<Seq<char>, (Seq<char>, nat)>) -> nat
    decreases shards.len(),
{
    if shards.len() == 0 {
        0
    } else {
        missing_in(shards.drop_last(), origins) + match shards.last().chunk {
            Some(c) => missing(c.receipts@, origins),
            None => 0,
        }
    }
}

/// An empty record set for a block.
pub open spec fn empty_lists(bd: BlockData) -> bool {
    &&& bd.chunks@.len() == 0
    &&& bd.transactions@.len() == 0
    &&& bd.transaction_actions@.len() == 0
    &&& bd.receipts@.len() == 0
    &&& bd.data_receipts@.len() == 0
    &&& bd.action_receipts@.len() == 0
    &&& bd.action_receipt_actions@.len() == 0
    &&& bd.action_receipt_input_datas@.len() == 0
    &&& bd.action_receipt_output_datas@.len() == 0
    &&& bd.execution_outcomes@.len() == 0
    &&& bd.execution_outcome_receipts@.len() == 0
    &&& bd.accounts@.len() == 0
    &&& bd.account_changes@.len() == 0
    &&& bd.access_keys@.len() == 0
}

/// The block's records as read against the tracker's current receipt index:
/// for each shard that has a chunk, in shard order, its chunk, transactions,
/// actions, receipts of known origin, data and action receipts, outcomes,
/// account changes and account events; and the ids of deleted accounts.
/// The receipt index is only read; action receipts of known origin register
/// their outputs in the data index, and receipts of unknown origin count as
/// misses.
pub fn extract_block(tracker: &mut ProvenanceTracker, msg: &BlockMessage) -> (r: (BlockData, Vec<String>))
    requires
        old(tracker).wf(),
        crate::message::transactions_converted(*msg),
    ensures
        r.0.block == block_record(msg.header),
        numbered_in_order(r.0.account_changes@),
        exists|e: BlockData| #[trigger] empty_lists(e) && block_lists(e, r.0, msg.shards@, msg.header.hash,
            msg.header.timestamp_nanosec, msg.header.height, old(tracker).origins()),
        r.1@ == flat_indexed(msg.shards@, deleted_piece()),
        final(tracker).wf(),
        final(tracker).origins() == old(tracker).origins(),
        final(tracker).known_transactions() == old(tracker).known_transactions(),
        final(tracker).age_limit() == old(tracker).age_limit(),
        final(tracker).data_origins() == data_after(old(tracker).data_origins(), msg.shards@, old(tracker).origins()),
        final(tracker).miss_count() == saturating(old(tracker).miss_count(), missing_in(msg.shards@, old(tracker).origins())),
{
    let ghost origins = tracker.origins();
    let ghost d0 = tracker.data_origins();
    let ghost m0 = tracker.miss_count();
    let block_hash = &msg.header.hash;
    let timestamp: u64 = msg.header.timestamp_nanosec;
    let height = msg.header.height;
    let mut bd = BlockData {
        block: Block::new(&msg.header),
        chunks: Vec::new(),
        transactions: Vec::new(),
        transaction_actions: Vec::new(),
        receipts: Vec::new(),
        data_receipts: Vec::new(),
        action_receipts: Vec::new(),
        action_receipt_actions: Vec::new(),
        action_receipt_input_datas: Vec::new(),
        action_receipt_output_datas: Vec::new(),
        execution_outcomes: Vec::new(),
        execution_outcome_receipts: Vec::new(),
        accounts: Vec::new(),
        account_changes: Vec::new(),
        access_keys: Vec::new(),
    };
    let mut deleted: Vec<String> = Vec::new();
    let ghost e = bd;
    proof {
        tracker.lemma_miss_count_fits();
        assert(msg.shards@.subrange(0, 0) =~= Seq::<Shard>::empty());
        lemma_lists_unextended(bd);
    }
    let mut i: usize = 0;
    while i < msg.shards.len()
        invariant
            i <= msg.shards@.len(),
            crate::message::transactions_converted(*msg),
            empty_lists(e),
            e.block == block_record(msg.header),
            timestamp == msg.header.timestamp_nanosec,
            height == msg.header.height,
            *block_hash == msg.header.hash,
            block_lists(e, bd, msg.shards@.subrange(0, i as int), *block_hash, timestamp, height, origins),
            deleted@ == flat_indexed(msg.shards@.subrange(0, i as int), deleted_piece()),
            numbered_in_order(bd.account_changes@),
            tracker.wf(),
            tracker.origins() == origins,
            tracker.known_transactions() == old(tracker).known_transactions(),
            tracker.age_limit() == old(tracker).age_limit(),
            tracker.data_origins() == data_after(d0, msg.shards@.subrange(0, i as int), origins),
            tracker.miss_count() == saturating(m0, missing_in(msg.shards@.subrange(0, i as int), origins)),
            m0 <= u64::MAX,
        decreases msg.shards@.len() - i,
    {
        let shard = &msg.shards[i];
        let ghost b1 = bd;
        proof {
            lemma_flat_indexed_step(msg.shards@, deleted_piece(), i as int);
            assert(msg.shards@.subrange(0, i + 1).drop_last() =~= msg.shards@.subrange(0, i as int));
        }
        match &shard.chunk {
            Some(c) => {
                bd.chunks.push(Chunk::new(c, block_hash));
                handle_chunk_receipts(tracker, &shard.receipt_execution_outcomes, shard.shard_id, c, block_hash, timestamp, &mut bd);
                assert(crate::extract::converted(c.transactions@)) by {
                    assert forall|t: int| 0 <= t < c.transactions@.len() implies
                        (#[trigger] c.transactions@[t]).outcome.receipt_ids@.len() > 0 by {
                        assert(msg.shards@[i as int].chunk->0.transactions@[t] == c.transactions@[t]);
                    }
                }
                handle_transactions(c, block_hash, timestamp, &mut bd.transactions, &mut bd.transaction_actions);
                handle_state_changes(&shard.state_changes, block_hash, timestamp, &mut bd.account_changes);
                handle_accounts(&shard.receipt_execution_outcomes, height, &mut bd.accounts, &mut deleted, &mut bd.access_keys);
                proof {
                    let ghost sl = flat_indexed(c.receipts@, |r: ReceiptView, k: nat| receipt_slots(r, k, origins));
                    lemma_with_chunk(bd.receipts@, b1.receipts@, sl, *block_hash, c.chunk_hash, timestamp, origins);
                    assert(bd.chunks@ =~= b1.chunks@ + seq![chunk_record(*c, *block_hash)]);
                    tracker.lemma_miss_count_fits();
                }
            },
            None => {
                proof {
                    lemma_lists_unextended(bd);
                    assert(deleted@ =~= deleted@ + Seq::<String>::empty());
                }
            },
        }
        proof {
            assert(shard_step(b1, bd, msg.shards@[i as int], i as nat, *block_hash, timestamp, height, origins));
            lemma_block_step(e, b1, bd, msg.shards@, i as int, *block_hash, timestamp, height, origins);
        }
        i = i + 1;
    }
    proof {
        assert(msg.shards@.subrange(0, i as int) =~= msg.shards@);
    }
    (bd, deleted)
}


/// The receipt and data indexes that a block's records are extracted
/// against: the tracker's, after outcome chains known before the block are
/// followed, the block's transactions seed the receipts they became, and
/// awaited data is redeemed, each in block order.
pub open spec fn prepared(t: ProvenanceTracker, msg: BlockMessage) -> (Map<Seq<char>, (Seq<char>, nat)>, Map<Seq<char>, Seq<char>>) {
    let followed = pass_over(t.origins(), block_pairs(msg.shards@)).0;
    let seeded = insert_fresh(followed, flat_indexed(msg.shards@, shard_seeds()));
    redeemed(seeded, t.data_origins(), flat_indexed(msg.shards@, shard_data_entries()))
}

/// The block's outcome chains after extraction, resolved to a fixed point.
pub open spec fn settled(t: ProvenanceTracker, msg: BlockMessage) -> (Map<Seq<char>, (Seq<char>, nat)>, Seq<(String, String)>) {
    resolved(prepared(t, msg).0, block_pairs(msg.shards@), RESOLVE_PASSES as nat)
}

/// Turns one block message into its records, and carries the provenance
/// tracker one block on: outcome chains known before the block are followed,
/// the block's transactions seed the receipts they became, awaited data is
/// redeemed; then the records are extracted against that receipt index, in
/// ascending shard order; then the block's outcome chains are resolved to a
/// fixed point (pairs left over count as misses) and every entry ages by one
/// block. Every receipt record names a transaction that the tracker has seen,
/// and account changes are keyed by (block hash, position in the block).
pub fn handle_streamer_message(tracker: &mut ProvenanceTracker, msg: &BlockMessage) -> (r: (BlockData, Vec<String>))
    requires
        old(tracker).wf(),
        crate::message::transactions_converted(*msg),
        crate::message::shards_in_order(*msg),
    ensures
        final(tracker).wf(),
        r.0.block == block_record(msg.header),
        exists|e: BlockData| empty_lists(e)
            && #[trigger] block_lists(e, r.0, msg.shards@, msg.header.hash, msg.header.timestamp_nanosec,
                msg.header.height, prepared(*old(tracker), *msg).0),
        r.1@ == flat_indexed(msg.shards@, deleted_piece()),
        numbered_in_order(r.0.account_changes@),
        forall|i: int, j: int| 0 <= i < j < r.0.account_changes@.len() ==>
            r.0.account_changes@[i].index_in_block != r.0.account_changes@[j].index_in_block,
        final(tracker).origins() == aged(settled(*old(tracker), *msg).0, old(tracker).age_limit()),
        final(tracker).data_origins() == data_after(prepared(*old(tracker), *msg).1, msg.shards@, prepared(*old(tracker), *msg).0),
        final(tracker).miss_count() == saturating(
            saturating(old(tracker).miss_count(), missing_in(msg.shards@, prepared(*old(tracker), *msg).0)),
            settled(*old(tracker), *msg).1.len()),
        final(tracker).known_transactions() == old(tracker).known_transactions().union(block_transactions(*msg)),
        forall|i: int| 0 <= i < r.0.receipts@.len() ==>
            final(tracker).known_transactions().contains((#[trigger] r.0.receipts@[i]).originated_from_transaction_hash@),
        final(tracker).age_limit() == old(tracker).age_limit(),
{
    propagate_outcomes(tracker, &msg.shards);
    seed_transactions(tracker, msg);
    redeem_data_receipts(tracker, &msg.shards);
    let ghost mid = *tracker;
    proof {
        mid.lemma_origins_known();
        assert(mid.origins() == prepared(*old(tracker), *msg).0);
        assert(mid.data_origins() == prepared(*old(tracker), *msg).1);
    }
    let (bd, deleted) = extract_block(tracker, msg);
    let n_changes = bd.account_changes.len();
    proof {
        assert(n_changes <= u64::MAX);
        let e = choose|e: BlockData| #[trigger] empty_lists(e) && block_lists(e, bd, msg.shards@, msg.header.hash,
            msg.header.timestamp_nanosec, msg.header.height, mid.origins());
        let rel = block_receipt_rel(msg.header.hash, msg.header.timestamp_nanosec, mid.origins());
        let slots = flat_indexed(msg.shards@, block_receipts_piece(mid.origins()));
        assert forall|i: int| 0 <= i < bd.receipts@.len() implies
            mid.known_transactions().contains((#[trigger] bd.receipts@[i]).originated_from_transaction_hash@) by {
            assert(rel(bd.receipts@[e.receipts@.len() + i], slots[i]));
        }
        assert forall|i: int, j: int| 0 <= i < j < bd.account_changes@.len() implies
            bd.account_changes@[i].index_in_block != bd.account_changes@[j].index_in_block by {
            assert(bd.account_changes@[i].index_in_block == i as u64);
            assert(bd.account_changes@[j].index_in_block == j as u64);
        }
    }
    resolve_pending(tracker, &msg.shards);
    let ghost after = tracker.origins();
    tracker.age_receipts();
    (bd, deleted)
}

} // verus!
