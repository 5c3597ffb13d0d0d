//! Properties that relate the pieces of the transformation.

use vstd::prelude::*;
use crate::accounts::created_accounts;
use crate::extract::{action_receipt_records, action_slots, data_slots, flat_indexed, outcome_records};
use crate::message::{ActionView, ExecutionStatus, OutcomeWithReceipt, ReceiptView, Shard, TransactionWithOutcome};
use crate::message::BlockMessage;
use crate::propagate::{
    block_pairs, insert_fresh, lemma_carried_or_fresh_trans, lemma_insert_fresh_fresh, lemma_pass_over_fresh,
    lemma_redeemed_fresh, lemma_resolved_fresh, pass_over, shard_data_entries, shard_seeds, RESOLVE_PASSES,
};
use crate::provenance::{aged, ProvenanceTracker};
use crate::records::{numbered_in_order, status_of, unnumber, BlockData};
use crate::transform::{
    access_keys_piece, account_changes_piece, accounts_piece, block_receipts_piece, chunks_piece,
    block_lists, block_receipt_rel, deleted_piece, empty_lists, prepared, settled, execution_outcomes_piece, transaction_actions_piece,
    transactions_piece,
};

verus! {

/// Mapping an execution status to its tag is total and has exactly four
/// images: `UNKNOWN`, `FAILURE`, `SUCCESS_VALUE`, `SUCCESS_RECEIPT_ID`,
/// each reached and all distinct.
pub proof fn lemma_status_tags(s: ExecutionStatus)
    ensures
        status_of(s).spec_tag() == "UNKNOWN" || status_of(s).spec_tag() == "FAILURE"
            || status_of(s).spec_tag() == "SUCCESS_VALUE" || status_of(s).spec_tag() == "SUCCESS_RECEIPT_ID",
        status_of(ExecutionStatus::Unknown).spec_tag() == "UNKNOWN",
        status_of(ExecutionStatus::Failure).spec_tag() == "FAILURE",
        status_of(ExecutionStatus::SuccessValue).spec_tag() == "SUCCESS_VALUE",
        status_of(ExecutionStatus::SuccessReceiptId).spec_tag() == "SUCCESS_RECEIPT_ID",
        "UNKNOWN"@ != "FAILURE"@,
        "UNKNOWN"@ != "SUCCESS_VALUE"@,
        "UNKNOWN"@ != "SUCCESS_RECEIPT_ID"@,
        "FAILURE"@ != "SUCCESS_VALUE"@,
        "FAILURE"@ != "SUCCESS_RECEIPT_ID"@,
        "SUCCESS_VALUE"@ != "SUCCESS_RECEIPT_ID"@,
{
    reveal_strlit("UNKNOWN");
    reveal_strlit("FAILURE");
    reveal_strlit("SUCCESS_VALUE");
    reveal_strlit("SUCCESS_RECEIPT_ID");
    assert("UNKNOWN"@[0] != "FAILURE"@[0]);
    assert("UNKNOWN"@[0] != "SUCCESS_VALUE"@[0]);
    assert("UNKNOWN"@[0] != "SUCCESS_RECEIPT_ID"@[0]);
    assert("FAILURE"@[0] != "SUCCESS_VALUE"@[0]);
    assert("FAILURE"@[0] != "SUCCESS_RECEIPT_ID"@[0]);
    assert("SUCCESS_VALUE"@.len() != "SUCCESS_RECEIPT_ID"@.len());
}

/// Every receipt of a chunk yields exactly one action-receipt or data-receipt
/// record, never both.
pub proof fn lemma_receipt_yields_one_kind(r: ReceiptView)
    ensures
        action_receipt_records(r).len() + data_slots(r).len() == 1,
{
}

/// A receipt yields an execution-outcome record exactly when its shard's
/// outcomes hold one for it, and then exactly one.
pub proof fn lemma_outcome_iff_matching(
    r: ReceiptView, index: nat, outs: Seq<OutcomeWithReceipt>, block_hash: String, timestamp: u64, shard_id: u64,
)
    ensures
        outcome_records(r, index, outs, block_hash, timestamp, shard_id).len() <= 1,
        outcome_records(r, index, outs, block_hash, timestamp, shard_id).len() == 1
            <==> exists|i: int| 0 <= i < outs.len() && (#[trigger] outs[i]).outcome.id@ == r.receipt_id@,
{
    if exists|i: int| 0 <= i < outs.len() && (#[trigger] outs[i]).outcome.id@ == r.receipt_id@ {
        let i = choose|i: int| 0 <= i < outs.len() && (#[trigger] outs[i]).outcome.id@ == r.receipt_id@;
        lemma_first_match_exists(outs, r.receipt_id@, i);
    }
}

proof fn lemma_first_match_exists(outs: Seq<OutcomeWithReceipt>, id: Seq<char>, i: int)
    requires
        0 <= i < outs.len(),
        outs[i].outcome.id@ == id,
    ensures
        exists|f: int| crate::extract::is_first_outcome(outs, id, f),
    decreases i,
{
    if exists|j: int| 0 <= j < i && (#[trigger] outs[j]).outcome.id@ == id {
        let j = choose|j: int| 0 <= j < i && (#[trigger] outs[j]).outcome.id@ == id;
        lemma_first_match_exists(outs, id, j);
    } else {
        assert(crate::extract::is_first_outcome(outs, id, i));
    }
}

/// A successful transfer creates an account record exactly when the
/// receiver is an implicit account, i.e. its id is 64 characters long.
pub proof fn lemma_transfer_creates_implicit_account(r: ReceiptView, deposit: u128, height: u64)
    ensures
        created_accounts(r, ActionView::Transfer { deposit }, height).len() == if r.receiver_id@.len() == 64 {
            1int
        } else {
            0int
        },
{
}

/// The actions of one transaction fill the slots `0 .. N` in order, N being
/// its number of actions: each action gets one record, indices dense.
pub proof fn lemma_actions_dense(t: TransactionWithOutcome)
    ensures
        action_slots(seq![t]).len() == t.transaction.actions@.len(),
        forall|j: int| 0 <= j < t.transaction.actions@.len() ==>
            #[trigger] action_slots(seq![t])[j] == (t.transaction, j as nat),
{
    assert(seq![t].drop_last() =~= Seq::<TransactionWithOutcome>::empty());
    assert(seq![t].last() == t);
    assert(action_slots(Seq::<TransactionWithOutcome>::empty()) =~= Seq::<(crate::message::SignedTransactionView, nat)>::empty());
    assert(action_slots(seq![t]) =~= Seq::new(t.transaction.actions@.len(), |j: int| (t.transaction, j as nat)));
}

/// A shard without a chunk yields no records at all.
pub proof fn lemma_empty_shard(
    s: Shard, k: nat, block_hash: String, timestamp: u64, height: u64, origins: Map<Seq<char>, (Seq<char>, nat)>,
)
    requires
        s.chunk is None,
    ensures
        chunks_piece(block_hash, timestamp, height, origins)(s, k).len() == 0,
        transactions_piece(block_hash, timestamp, height, origins)(s, k).len() == 0,
        transaction_actions_piece(block_hash, timestamp, height, origins)(s, k).len() == 0,
        execution_outcomes_piece(block_hash, timestamp, height, origins)(s, k).len() == 0,
        accounts_piece(block_hash, timestamp, height, origins)(s, k).len() == 0,
        account_changes_piece(block_hash, timestamp, height, origins)(s, k).len() == 0,
        access_keys_piece(block_hash, timestamp, height, origins)(s, k).len() == 0,
        block_receipts_piece(origins)(s, k).len() == 0,
        deleted_piece()(s, k).len() == 0,
{
}


/// Extraction is deterministic: two record sets that meet the block
/// contract for the same message and the same receipt index (which
/// `handle_streamer_message` fixes from the tracker's state) have equal
/// copied-field lists, and as many records, matching the same inputs one for
/// one, in the lists whose arguments or payloads are rendered text.
pub proof fn lemma_records_determined(
    e1: BlockData, e2: BlockData, b1: BlockData, b2: BlockData, shards: Seq<Shard>,
    block_hash: String, timestamp: u64, height: u64, origins: Map<Seq<char>, (Seq<char>, nat)>,
)
    requires
        empty_lists(e1),
        empty_lists(e2),
        block_lists(e1, b1, shards, block_hash, timestamp, height, origins),
        block_lists(e2, b2, shards, block_hash, timestamp, height, origins),
        numbered_in_order(b1.account_changes@),
        numbered_in_order(b2.account_changes@),
    ensures
        b1.chunks@ == b2.chunks@,
        b1.transactions@ == b2.transactions@,
        b1.execution_outcomes@ == b2.execution_outcomes@,
        b1.execution_outcome_receipts@ == b2.execution_outcome_receipts@,
        b1.action_receipts@ == b2.action_receipts@,
        b1.action_receipt_input_datas@ == b2.action_receipt_input_datas@,
        b1.action_receipt_output_datas@ == b2.action_receipt_output_datas@,
        b1.accounts@ == b2.accounts@,
        b1.account_changes@ == b2.account_changes@,
        b1.access_keys@ == b2.access_keys@,
        b1.transaction_actions@.len() == b2.transaction_actions@.len(),
        b1.data_receipts@.len() == b2.data_receipts@.len(),
        b1.action_receipt_actions@.len() == b2.action_receipt_actions@.len(),
        b1.receipts@.len() == b2.receipts@.len(),
{
    assert(e1.chunks@ =~= e2.chunks@);
    assert(e1.transactions@ =~= e2.transactions@);
    assert(e1.execution_outcomes@ =~= e2.execution_outcomes@);
    assert(e1.execution_outcome_receipts@ =~= e2.execution_outcome_receipts@);
    assert(e1.action_receipts@ =~= e2.action_receipts@);
    assert(e1.action_receipt_input_datas@ =~= e2.action_receipt_input_datas@);
    assert(e1.action_receipt_output_datas@ =~= e2.action_receipt_output_datas@);
    assert(e1.accounts@ =~= e2.accounts@);
    assert(e1.account_changes@.map_values(unnumber()) =~= e2.account_changes@.map_values(unnumber()));
    let m1 = b1.account_changes@.map_values(unnumber());
    let m2 = b2.account_changes@.map_values(unnumber());
    assert(m1.len() == b1.account_changes@.len() && m2.len() == b2.account_changes@.len());
    assert forall|i: int| 0 <= i < b1.account_changes@.len() implies b1.account_changes@[i] == b2.account_changes@[i] by {
        assert(m1[i] == m2[i]);
    }
    assert(b1.account_changes@ =~= b2.account_changes@);
    assert(e1.access_keys@ =~= e2.access_keys@);
}


/// A receipt record is emitted only for a receipt that the receipt index
/// gives an origin for, and names that origin: a receipt of unknown origin,
/// such as a data receipt whose data id was never awaited, yields none.
pub proof fn lemma_receipts_have_origins(
    e: BlockData, b: BlockData, shards: Seq<Shard>,
    block_hash: String, timestamp: u64, height: u64, origins: Map<Seq<char>, (Seq<char>, nat)>,
)
    requires
        empty_lists(e),
        block_lists(e, b, shards, block_hash, timestamp, height, origins),
    ensures
        forall|i: int| 0 <= i < b.receipts@.len() ==> {
            &&& origins.contains_key((#[trigger] b.receipts@[i]).receipt_id@)
            &&& b.receipts@[i].originated_from_transaction_hash@ == origins[b.receipts@[i].receipt_id@].0
        },
{
    let slots = flat_indexed(shards, block_receipts_piece(origins));
    assert forall|i: int| 0 <= i < b.receipts@.len() implies {
        &&& origins.contains_key((#[trigger] b.receipts@[i]).receipt_id@)
        &&& b.receipts@[i].originated_from_transaction_hash@ == origins[b.receipts@[i].receipt_id@].0
    } by {
        assert(block_receipt_rel(block_hash, timestamp, origins)(b.receipts@[e.receipts@.len() + i], slots[i]));
    }
}


/// Over one block, each entry of the receipt index that `handle_streamer_message`
/// leaves is either an entry from before the block, unchanged but one block
/// older, or one set during the block, now of age 1; and every age is below
/// the limit. So an entry's age counts the blocks since it was last set, and
/// the index holds only receipts set during the last `age_limit` blocks.
pub proof fn lemma_index_recent(t: ProvenanceTracker, msg: BlockMessage)
    ensures
        forall|k: Seq<char>| #[trigger] aged(settled(t, msg).0, t.age_limit()).contains_key(k) ==> {
            let e = aged(settled(t, msg).0, t.age_limit())[k];
            &&& e.1 < t.age_limit()
            &&& (t.origins().contains_key(k) && e == (t.origins()[k].0, t.origins()[k].1 + 1)) || e.1 == 1
        },
{
    let o = t.origins();
    let followed = pass_over(o, block_pairs(msg.shards@)).0;
    let seeded = insert_fresh(followed, flat_indexed(msg.shards@, shard_seeds()));
    let m = prepared(t, msg).0;
    lemma_pass_over_fresh(o, block_pairs(msg.shards@));
    lemma_insert_fresh_fresh(followed, flat_indexed(msg.shards@, shard_seeds()));
    lemma_redeemed_fresh(seeded, t.data_origins(), flat_indexed(msg.shards@, shard_data_entries()));
    lemma_carried_or_fresh_trans(o, followed, seeded);
    lemma_carried_or_fresh_trans(o, seeded, m);
    lemma_resolved_fresh(m, block_pairs(msg.shards@), RESOLVE_PASSES as nat);
    lemma_carried_or_fresh_trans(o, m, settled(t, msg).0);
}

} // verus!
