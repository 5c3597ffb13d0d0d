//! Per-chunk extraction: the records that one shard's chunk yields, each list
//! in source order.

use vstd::prelude::*;
use crate::actions::{action_args, action_kind_of, get_action_type_and_value};
use crate::message::{
    DataReceiver, ChunkView, OutcomeView, OutcomeWithReceipt, ReceiptBody, ReceiptView,
    SignedTransactionView, TransactionWithOutcome,
};
use crate::provenance::ProvenanceTracker;
use crate::records::{
    outcome_record, receipt_record, transaction_record, ActionReceipt, ActionReceiptAction,
    ActionReceiptInputData, ActionReceiptOutputData, BlockData, DataReceipt, ExecutionOutcome,
    ExecutionOutcomeReceipt, Receipt, Transaction, TransactionAction, unnumber,
};
use crate::text::{base64_encode, base64_of};

verus! {

/// Every transaction's conversion outcome names the receipt it became.
pub open spec fn converted(txs: Seq<TransactionWithOutcome>) -> bool {
    forall|t: int| 0 <= t < txs.len() ==> (#[trigger] txs[t]).outcome.receipt_ids@.len() > 0
}

/// The transaction records of a chunk, in chunk order.
pub open spec fn transaction_records(c: ChunkView, block_hash: String, timestamp: u64) -> Seq<Transaction> {
    Seq::new(
        c.transactions@.len(),
        |i: int| transaction_record(
            c.transactions@[i].transaction,
            block_hash,
            c.chunk_hash,
            i as u64,
            timestamp,
            c.transactions@[i].outcome,
        ),
    )
}

/// One slot per action of each transaction, in order: the transaction and
/// the action's index in it.
pub open spec fn action_slots(txs: Seq<TransactionWithOutcome>) -> Seq<(SignedTransactionView, nat)>
    decreases txs.len(),
{
    if txs.len() == 0 {
        Seq::empty()
    } else {
        let t = txs.last().transaction;
        action_slots(txs.drop_last()) + Seq::new(t.actions@.len(), |j: int| (t, j as nat))
    }
}

/// `r` is the record of action `j` of transaction `t`.
pub open spec fn transaction_action_of(r: TransactionAction, t: SignedTransactionView, j: nat) -> bool {
    &&& j < t.actions@.len()
    &&& r.transaction_hash == t.hash
    &&& r.index_in_transaction == j
    &&& r.action_kind == action_kind_of(t.actions@[j as int])
    &&& action_args(t.actions@[j as int], r.args)
}

pub open spec fn transaction_action_rel() -> spec_fn(TransactionAction, (SignedTransactionView, nat)) -> bool {
    |r: TransactionAction, s: (SignedTransactionView, nat)| transaction_action_of(r, s.0, s.1)
}

/// `out` extends `old` by records that match `slots` one for one.
pub open spec fn extends_by<T, S>(out: Seq<T>, old: Seq<T>, slots: Seq<S>, rel: spec_fn(T, S) -> bool) -> bool {
    &&& out.len() == old.len() + slots.len()
    &&& out.subrange(0, old.len() as int) == old
    &&& forall|i: int| 0 <= i < slots.len() ==> #[trigger] rel(out[old.len() + i], slots[i])
}

impl TransactionAction {
    /// The record of action `index` of transaction `t`.
    pub fn new(t: &SignedTransactionView, index: u64) -> (r: TransactionAction)
        requires
            index < t.actions@.len(),
        ensures
            transaction_action_of(r, *t, index as nat),
    {
        let n = t.actions.len();
        assert(index < n);
        let (action_kind, args) = get_action_type_and_value(&t.actions[index as usize]);
        TransactionAction { transaction_hash: t.hash.clone(), index_in_transaction: index, action_kind, args }
    }
}

/// Appends the chunk's transactions and their actions (dense indices, in
/// order) to the two lists.
pub fn handle_transactions(
    c: &ChunkView,
    block_hash: &String,
    timestamp: u64,
    transactions: &mut Vec<Transaction>,
    actions: &mut Vec<TransactionAction>,
)
    requires
        converted(c.transactions@),
    ensures
        final(transactions)@ == old(transactions)@ + transaction_records(*c, *block_hash, timestamp),
        extends_by(final(actions)@, old(actions)@, action_slots(c.transactions@), transaction_action_rel()),
{
    let ghost t0 = transactions@;
    let ghost a0 = actions@;
    let mut i: usize = 0;
    assert(c.transactions@.subrange(0, 0) =~= Seq::<TransactionWithOutcome>::empty());
    assert(transaction_records(*c, *block_hash, timestamp).subrange(0, 0) =~= Seq::<Transaction>::empty());
    assert(actions@.subrange(0, a0.len() as int) =~= a0);
    assert(transactions@ =~= t0 + Seq::<Transaction>::empty());
    while i < c.transactions.len()
        invariant
            i <= c.transactions@.len(),
            converted(c.transactions@),
            transactions@ == t0 + transaction_records(*c, *block_hash, timestamp).subrange(0, i as int),
            extends_by(actions@, a0, action_slots(c.transactions@.subrange(0, i as int)), transaction_action_rel()),
        decreases c.transactions@.len() - i,
    {
        let tx = &c.transactions[i];
        assert(tx.outcome.receipt_ids@.len() > 0);
        let rec = Transaction::new(&tx.transaction, block_hash, &c.chunk_hash, i as u64, timestamp, &tx.outcome);
        transactions.push(rec);
        assert(transaction_records(*c, *block_hash, timestamp).subrange(0, i + 1)
            =~= transaction_records(*c, *block_hash, timestamp).subrange(0, i as int).push(rec));
        let ghost before = actions@;
        let ghost prefix = action_slots(c.transactions@.subrange(0, i as int));
        let mut j: usize = 0;
        while j < tx.transaction.actions.len()
            invariant
                j <= tx.transaction.actions@.len(),
                i < c.transactions@.len(),
                *tx == c.transactions@[i as int],
                actions@.len() == before.len() + j,
                actions@.subrange(0, before.len() as int) == before,
                forall|k: int| 0 <= k < j ==> #[trigger] transaction_action_of(actions@[before.len() + k], tx.transaction, k as nat),
            decreases tx.transaction.actions@.len() - j,
        {
            let r = TransactionAction::new(&tx.transaction, j as u64);
            actions.push(r);
            assert(actions@.subrange(0, before.len() as int) =~= before);
            j = j + 1;
        }
        proof {
            let sub = c.transactions@.subrange(0, i + 1);
            assert(sub.drop_last() =~= c.transactions@.subrange(0, i as int));
            let slots = action_slots(sub);
            let t = tx.transaction;
            assert(slots == prefix + Seq::new(t.actions@.len(), |j: int| (t, j as nat)));
            assert(actions@.subrange(0, a0.len() as int) =~= a0) by {
                assert(before.subrange(0, a0.len() as int) =~= a0);
                assert(actions@.subrange(0, a0.len() as int) =~= before.subrange(0, a0.len() as int));
            }
            assert forall|k: int| 0 <= k < slots.len() implies #[trigger] transaction_action_rel()(actions@[a0.len() + k], slots[k]) by {
                if k < prefix.len() {
                    assert(transaction_action_rel()(before[a0.len() + k], prefix[k]));
                    assert(actions@[a0.len() + k] == before[a0.len() + k]);
                } else {
                    let m = k - prefix.len();
                    assert(transaction_action_of(actions@[before.len() + m], t, m as nat));
                }
            }
        }
        i = i + 1;
    }
    assert(c.transactions@.subrange(0, i as int) =~= c.transactions@);
    assert(transaction_records(*c, *block_hash, timestamp).subrange(0, i as int)
        =~= transaction_records(*c, *block_hash, timestamp));
}


/// The concatenation, in order, of what `f` makes of each element and its
/// position.
pub open spec fn flat_indexed<A, T>(xs: Seq<A>, f: spec_fn(A, nat) -> Seq<T>) -> Seq<T>
    decreases xs.len(),
{
    if xs.len() == 0 {
        Seq::empty()
    } else {
        flat_indexed(xs.drop_last(), f) + f(xs.last(), (xs.len() - 1) as nat)
    }
}

pub proof fn lemma_flat_indexed_step<A, T>(xs: Seq<A>, f: spec_fn(A, nat) -> Seq<T>, i: int)
    requires
        0 <= i < xs.len(),
    ensures
        flat_indexed(xs.subrange(0, i + 1), f) == flat_indexed(xs.subrange(0, i), f) + f(xs[i], i as nat),
{
    assert(xs.subrange(0, i + 1).drop_last() =~= xs.subrange(0, i));
}

/// `i` is the first outcome that executed receipt `id`.
pub open spec fn is_first_outcome(outs: Seq<OutcomeWithReceipt>, id: Seq<char>, i: int) -> bool {
    &&& 0 <= i < outs.len()
    &&& outs[i].outcome.id@ == id
    &&& forall|j: int| 0 <= j < i ==> (#[trigger] outs[j]).outcome.id@ != id
}

/// The first outcome in `outs` that executed receipt `id`, if any.
pub open spec fn matching_outcome(outs: Seq<OutcomeWithReceipt>, id: Seq<char>) -> Option<OutcomeView> {
    if exists|i: int| 0 <= i < outs.len() && (#[trigger] outs[i]).outcome.id@ == id {
        Some(outs[choose|i: int| is_first_outcome(outs, id, i)].outcome)
    } else {
        None
    }
}

fn find_outcome(outs: &Vec<OutcomeWithReceipt>, id: &String) -> (r: Option<usize>)
    ensures
        match r {
            Some(i) => i < outs@.len() && matching_outcome(outs@, id@) == Some(outs@[i as int].outcome),
            None => matching_outcome(outs@, id@) is None,
        },
{
    let mut i: usize = 0;
    while i < outs.len()
        invariant
            i <= outs@.len(),
            forall|j: int| 0 <= j < i ==> (#[trigger] outs@[j]).outcome.id@ != id@,
        decreases outs@.len() - i,
    {
        if outs[i].outcome.id == *id {
            proof {
                assert(is_first_outcome(outs@, id@, i as int));
                let c = choose|c: int| is_first_outcome(outs@, id@, c);
                if c < i {
                    assert(outs@[c].outcome.id@ != id@);
                } else if c > i {
                    assert(outs@[i as int].outcome.id@ != id@);
                }
            }
            return Some(i);
        }
        i = i + 1;
    }
    None
}

/// The execution-outcome record of receipt `r` at `index` of its chunk.
pub open spec fn outcome_records(
    r: ReceiptView, index: nat, outs: Seq<OutcomeWithReceipt>, block_hash: String, timestamp: u64, shard_id: u64,
) -> Seq<ExecutionOutcome> {
    match matching_outcome(outs, r.receipt_id@) {
        Some(o) => seq![outcome_record(r, block_hash, index as u64, timestamp, o, shard_id)],
        None => Seq::empty(),
    }
}

/// One record per receipt that the matching outcome produced, in order.
pub open spec fn outcome_receipt_records(r: ReceiptView, outs: Seq<OutcomeWithReceipt>) -> Seq<ExecutionOutcomeReceipt> {
    match matching_outcome(outs, r.receipt_id@) {
        Some(o) => Seq::new(o.receipt_ids@.len(), |j: int| ExecutionOutcomeReceipt {
            receipt_id: o.id,
            index_in_execution_outcome: j as u64,
            produced_receipt_id: o.receipt_ids@[j],
        }),
        None => Seq::empty(),
    }
}

/// `d` is the data-receipt record of receipt `r`: its payload, if any, as base64.
pub open spec fn data_receipt_of(d: DataReceipt, r: ReceiptView) -> bool {
    match r.receipt {
        ReceiptBody::Data { data_id, data } => {
            &&& d.data_id == data_id
            &&& d.receipt_id == r.receipt_id
            &&& match data {
                Some(b) => d.data_base64 is Some && d.data_base64->0@ == base64_of(b@),
                None => d.data_base64 is None,
            }
        },
        ReceiptBody::Action { .. } => false,
    }
}

pub open spec fn is_data(r: ReceiptView) -> bool {
    r.receipt is Data
}

pub open spec fn action_receipt_records(r: ReceiptView) -> Seq<ActionReceipt> {
    match r.receipt {
        ReceiptBody::Action { signer_id, signer_public_key, gas_price, .. } => seq![ActionReceipt {
            receipt_id: r.receipt_id,
            signer_account_id: signer_id,
            signer_public_key,
            gas_price,
        }],
        ReceiptBody::Data { .. } => Seq::empty(),
    }
}

pub open spec fn input_data_records(r: ReceiptView) -> Seq<ActionReceiptInputData> {
    match r.receipt {
        ReceiptBody::Action { input_data_ids, .. } => Seq::new(input_data_ids@.len(), |j: int|
            ActionReceiptInputData { data_id: input_data_ids@[j], receipt_id: r.receipt_id }),
        ReceiptBody::Data { .. } => Seq::empty(),
    }
}

pub open spec fn output_data_records(r: ReceiptView) -> Seq<ActionReceiptOutputData> {
    match r.receipt {
        ReceiptBody::Action { output_data_receivers, .. } => Seq::new(output_data_receivers@.len(), |j: int|
            ActionReceiptOutputData {
                data_id: output_data_receivers@[j].data_id,
                receipt_id: r.receipt_id,
                receiver_id: output_data_receivers@[j].receiver_id,
            }),
        ReceiptBody::Data { .. } => Seq::empty(),
    }
}

/// The actions of an action receipt, as (receipt, index) slots.
pub open spec fn receipt_action_slots(r: ReceiptView) -> Seq<(ReceiptView, nat)> {
    match r.receipt {
        ReceiptBody::Action { actions, .. } => Seq::new(actions@.len(), |j: int| (r, j as nat)),
        ReceiptBody::Data { .. } => Seq::empty(),
    }
}

/// `a` is the record of action `j` of receipt `r`.
pub open spec fn receipt_action_of(a: ActionReceiptAction, r: ReceiptView, j: nat, timestamp: u64) -> bool {
    match r.receipt {
        ReceiptBody::Action { actions, .. } => {
            &&& j < actions@.len()
            &&& a.receipt_id == r.receipt_id
            &&& a.index_in_action_receipt == j
            &&& a.action_kind == action_kind_of(actions@[j as int])
            &&& action_args(actions@[j as int], a.args)
            &&& a.predecessor_id == r.predecessor_id
            &&& a.receiver_id == r.receiver_id
            &&& a.timestamp == timestamp
        },
        ReceiptBody::Data { .. } => false,
    }
}

/// `rec` is the receipt record of `r` at `index`, attributed to the
/// transaction that the receipt index gives for it.
pub open spec fn receipt_of(
    rec: Receipt, r: ReceiptView, index: nat, block_hash: String, chunk_hash: String, timestamp: u64,
    origins: Map<Seq<char>, (Seq<char>, nat)>,
) -> bool {
    &&& origins.contains_key(r.receipt_id@)
    &&& rec == receipt_record(r, block_hash, chunk_hash, index as u64, timestamp, rec.originated_from_transaction_hash)
    &&& rec.originated_from_transaction_hash@ == origins[r.receipt_id@].0
}

impl ActionReceiptAction {
    /// The record of action `index` of action receipt `r`.
    pub fn new(r: &ReceiptView, index: u64, timestamp: u64) -> (res: ActionReceiptAction)
        requires
            r.receipt is Action,
            index < r.receipt->Action_actions@.len(),
        ensures
            receipt_action_of(res, *r, index as nat, timestamp),
    {
        let actions = match &r.receipt {
            ReceiptBody::Action { actions, .. } => actions,
            ReceiptBody::Data { .. } => vstd::pervasive::unreached(),
        };
        let n = actions.len();
        assert(index < n);
        let (action_kind, args) = get_action_type_and_value(&actions[index as usize]);
        ActionReceiptAction {
            receipt_id: r.receipt_id.clone(),
            index_in_action_receipt: index,
            action_kind,
            args,
            predecessor_id: r.predecessor_id.clone(),
            receiver_id: r.receiver_id.clone(),
            timestamp,
        }
    }
}

impl DataReceipt {
    pub fn new(data_id: &String, receipt_id: &String, data: &Option<Vec<u8>>) -> (r: DataReceipt)
        ensures
            r.data_id == *data_id,
            r.receipt_id == *receipt_id,
            match *data {
                Some(b) => r.data_base64 is Some && r.data_base64->0@ == base64_of(b@),
                None => r.data_base64 is None,
            },
    {
        DataReceipt {
            data_id: data_id.clone(),
            receipt_id: receipt_id.clone(),
            data_base64: match data {
                Some(b) => Some(base64_encode(b)),
                None => None,
            },
        }
    }
}


pub proof fn lemma_extends_by_trans<T, S>(a: Seq<T>, b: Seq<T>, c: Seq<T>, s1: Seq<S>, s2: Seq<S>, rel: spec_fn(T, S) -> bool)
    requires
        extends_by(b, a, s1, rel),
        extends_by(c, b, s2, rel),
    ensures
        extends_by(c, a, s1 + s2, rel),
{
    assert(c.subrange(0, a.len() as int) =~= b.subrange(0, a.len() as int));
    assert forall|i: int| 0 <= i < (s1 + s2).len() implies #[trigger] rel(c[a.len() + i], (s1 + s2)[i]) by {
        if i < s1.len() {
            assert(rel(b[a.len() + i], s1[i]));
            assert(c[a.len() + i] == b[a.len() + i]);
        } else {
            assert(rel(c[b.len() + (i - s1.len())], s2[i - s1.len()]));
        }
    }
}

/// The data ids that the outputs of a receipt will be delivered under, each
/// registered for `tx`, in order.
pub open spec fn insert_outputs(d: Map<Seq<char>, Seq<char>>, outs: Seq<DataReceiver>, tx: Seq<char>) -> Map<Seq<char>, Seq<char>>
    decreases outs.len(),
{
    if outs.len() == 0 {
        d
    } else {
        insert_outputs(d, outs.drop_last(), tx).insert(outs.last().data_id@, tx)
    }
}

/// The data index after the receipts `rs` were processed: each action
/// receipt of known origin registers its outputs for that origin.
pub open spec fn registered_after(
    d: Map<Seq<char>, Seq<char>>, rs: Seq<ReceiptView>, origins: Map<Seq<char>, (Seq<char>, nat)>,
) -> Map<Seq<char>, Seq<char>>
    decreases rs.len(),
{
    if rs.len() == 0 {
        d
    } else {
        let prev = registered_after(d, rs.drop_last(), origins);
        let r = rs.last();
        if origins.contains_key(r.receipt_id@) && r.receipt is Action {
            insert_outputs(prev, r.receipt->Action_output_data_receivers@, origins[r.receipt_id@].0)
        } else {
            prev
        }
    }
}

/// How many of the receipts `rs` have no known origin.
pub open spec fn missing(rs: Seq<ReceiptView>, origins: Map<Seq<char>, (Seq<char>, nat)>) -> nat
    decreases rs.len(),
{
    if rs.len() == 0 {
        0
    } else {
        missing(rs.drop_last(), origins) + if origins.contains_key(rs.last().receipt_id@) { 0nat } else { 1nat }
    }
}

/// `a + n`, held at the largest `u64`.
pub open spec fn saturating(a: nat, n: nat) -> nat {
    if a + n <= u64::MAX { a + n } else { u64::MAX as nat }
}

pub open spec fn data_slots(r: ReceiptView) -> Seq<ReceiptView> {
    if is_data(r) { seq![r] } else { Seq::empty() }
}

pub open spec fn receipt_slots(r: ReceiptView, index: nat, origins: Map<Seq<char>, (Seq<char>, nat)>) -> Seq<(ReceiptView, nat)> {
    if origins.contains_key(r.receipt_id@) { seq![(r, index)] } else { Seq::empty() }
}

pub open spec fn data_receipt_rel() -> spec_fn(DataReceipt, ReceiptView) -> bool {
    |d: DataReceipt, r: ReceiptView| data_receipt_of(d, r)
}

pub open spec fn receipt_action_rel(timestamp: u64) -> spec_fn(ActionReceiptAction, (ReceiptView, nat)) -> bool {
    |a: ActionReceiptAction, s: (ReceiptView, nat)| receipt_action_of(a, s.0, s.1, timestamp)
}

pub open spec fn receipt_rel(
    block_hash: String, chunk_hash: String, timestamp: u64, origins: Map<Seq<char>, (Seq<char>, nat)>,
) -> spec_fn(Receipt, (ReceiptView, nat)) -> bool {
    |rec: Receipt, s: (ReceiptView, nat)| receipt_of(rec, s.0, s.1, block_hash, chunk_hash, timestamp, origins)
}

/// The lists that the receipts of a chunk feed, over and above `old`, after
/// the receipts `rs` were processed in order; the other lists are untouched.
pub open spec fn receipt_lists(
    old: BlockData, new: BlockData, rs: Seq<ReceiptView>, outs: Seq<OutcomeWithReceipt>,
    block_hash: String, chunk_hash: String, timestamp: u64, shard_id: u64,
    origins: Map<Seq<char>, (Seq<char>, nat)>,
) -> bool {
    &&& new.execution_outcomes@ == old.execution_outcomes@ + flat_indexed(rs,
        |r: ReceiptView, k: nat| outcome_records(r, k, outs, block_hash, timestamp, shard_id))
    &&& new.execution_outcome_receipts@ == old.execution_outcome_receipts@ + flat_indexed(rs,
        |r: ReceiptView, k: nat| outcome_receipt_records(r, outs))
    &&& extends_by(new.data_receipts@, old.data_receipts@, flat_indexed(rs, |r: ReceiptView, k: nat| data_slots(r)),
        data_receipt_rel())
    &&& new.action_receipts@ == old.action_receipts@ + flat_indexed(rs, |r: ReceiptView, k: nat| action_receipt_records(r))
    &&& extends_by(new.action_receipt_actions@, old.action_receipt_actions@,
        flat_indexed(rs, |r: ReceiptView, k: nat| receipt_action_slots(r)), receipt_action_rel(timestamp))
    &&& new.action_receipt_input_datas@ == old.action_receipt_input_datas@ + flat_indexed(rs,
        |r: ReceiptView, k: nat| input_data_records(r))
    &&& new.action_receipt_output_datas@ == old.action_receipt_output_datas@ + flat_indexed(rs,
        |r: ReceiptView, k: nat| output_data_records(r))
    &&& extends_by(new.receipts@, old.receipts@, flat_indexed(rs, |r: ReceiptView, k: nat| receipt_slots(r, k, origins)),
        receipt_rel(block_hash, chunk_hash, timestamp, origins))
    &&& new.block == old.block
    &&& new.chunks == old.chunks
    &&& new.transactions == old.transactions
    &&& new.transaction_actions == old.transaction_actions
    &&& new.accounts == old.accounts
    &&& new.account_changes == old.account_changes
    &&& new.access_keys == old.access_keys
}


/// What processing receipt `r`, at `index` of its chunk, adds to the lists.
pub open spec fn one_receipt(
    old: BlockData, new: BlockData, r: ReceiptView, index: nat, outs: Seq<OutcomeWithReceipt>,
    block_hash: String, chunk_hash: String, timestamp: u64, shard_id: u64,
    origins: Map<Seq<char>, (Seq<char>, nat)>,
) -> bool {
    &&& new.execution_outcomes@ == old.execution_outcomes@ + outcome_records(r, index, outs, block_hash, timestamp, shard_id)
    &&& new.execution_outcome_receipts@ == old.execution_outcome_receipts@ + outcome_receipt_records(r, outs)
    &&& extends_by(new.data_receipts@, old.data_receipts@, data_slots(r), data_receipt_rel())
    &&& new.action_receipts@ == old.action_receipts@ + action_receipt_records(r)
    &&& extends_by(new.action_receipt_actions@, old.action_receipt_actions@, receipt_action_slots(r), receipt_action_rel(timestamp))
    &&& new.action_receipt_input_datas@ == old.action_receipt_input_datas@ + input_data_records(r)
    &&& new.action_receipt_output_datas@ == old.action_receipt_output_datas@ + output_data_records(r)
    &&& extends_by(new.receipts@, old.receipts@, receipt_slots(r, index, origins), receipt_rel(block_hash, chunk_hash, timestamp, origins))
    &&& new.block == old.block
    &&& new.chunks == old.chunks
    &&& new.transactions == old.transactions
    &&& new.transaction_actions == old.transaction_actions
    &&& new.accounts == old.accounts
    &&& new.account_changes == old.account_changes
    &&& new.access_keys == old.access_keys
}

proof fn lemma_receipt_lists_step(
    b0: BlockData, b1: BlockData, b2: BlockData, rs: Seq<ReceiptView>, i: int, outs: Seq<OutcomeWithReceipt>,
    block_hash: String, chunk_hash: String, timestamp: u64, shard_id: u64,
    origins: Map<Seq<char>, (Seq<char>, nat)>,
)
    requires
        0 <= i < rs.len(),
        receipt_lists(b0, b1, rs.subrange(0, i), outs, block_hash, chunk_hash, timestamp, shard_id, origins),
        one_receipt(b1, b2, rs[i], i as nat, outs, block_hash, chunk_hash, timestamp, shard_id, origins),
    ensures
        receipt_lists(b0, b2, rs.subrange(0, i + 1), outs, block_hash, chunk_hash, timestamp, shard_id, origins),
{
    let f1 = |r: ReceiptView, k: nat| outcome_records(r, k, outs, block_hash, timestamp, shard_id);
    let f2 = |r: ReceiptView, k: nat| outcome_receipt_records(r, outs);
    let f3 = |r: ReceiptView, k: nat| data_slots(r);
    let f4 = |r: ReceiptView, k: nat| action_receipt_records(r);
    let f5 = |r: ReceiptView, k: nat| receipt_action_slots(r);
    let f6 = |r: ReceiptView, k: nat| input_data_records(r);
    let f7 = |r: ReceiptView, k: nat| output_data_records(r);
    let f8 = |r: ReceiptView, k: nat| receipt_slots(r, k, origins);
    lemma_flat_indexed_step(rs, f1, i);
    lemma_flat_indexed_step(rs, f2, i);
    lemma_flat_indexed_step(rs, f3, i);
    lemma_flat_indexed_step(rs, f4, i);
    lemma_flat_indexed_step(rs, f5, i);
    lemma_flat_indexed_step(rs, f6, i);
    lemma_flat_indexed_step(rs, f7, i);
    lemma_flat_indexed_step(rs, f8, i);
    let p = rs.subrange(0, i);
    lemma_extends_by_trans(b0.data_receipts@, b1.data_receipts@, b2.data_receipts@,
        flat_indexed(p, f3), data_slots(rs[i]), data_receipt_rel());
    lemma_extends_by_trans(b0.action_receipt_actions@, b1.action_receipt_actions@, b2.action_receipt_actions@,
        flat_indexed(p, f5), receipt_action_slots(rs[i]), receipt_action_rel(timestamp));
    lemma_extends_by_trans(b0.receipts@, b1.receipts@, b2.receipts@,
        flat_indexed(p, f8), receipt_slots(rs[i], i as nat, origins), receipt_rel(block_hash, chunk_hash, timestamp, origins));
    assert(b2.execution_outcomes@ =~= b0.execution_outcomes@ + flat_indexed(rs.subrange(0, i + 1), f1));
    assert(b2.execution_outcome_receipts@ =~= b0.execution_outcome_receipts@ + flat_indexed(rs.subrange(0, i + 1), f2));
    assert(b2.action_receipts@ =~= b0.action_receipts@ + flat_indexed(rs.subrange(0, i + 1), f4));
    assert(b2.action_receipt_input_datas@ =~= b0.action_receipt_input_datas@ + flat_indexed(rs.subrange(0, i + 1), f6));
    assert(b2.action_receipt_output_datas@ =~= b0.action_receipt_output_datas@ + flat_indexed(rs.subrange(0, i + 1), f7));
}


/// The data index after one receipt: an action receipt of known origin
/// registers its outputs for that origin.
pub open spec fn registered_by(
    d: Map<Seq<char>, Seq<char>>, r: ReceiptView, origins: Map<Seq<char>, (Seq<char>, nat)>,
) -> Map<Seq<char>, Seq<char>> {
    if origins.contains_key(r.receipt_id@) && r.receipt is Action {
        insert_outputs(d, r.receipt->Action_output_data_receivers@, origins[r.receipt_id@].0)
    } else {
        d
    }
}

fn handle_receipt(
    tracker: &mut ProvenanceTracker,
    outs: &Vec<OutcomeWithReceipt>,
    r: &ReceiptView,
    index: u64,
    block_hash: &String,
    chunk_hash: &String,
    timestamp: u64,
    shard_id: u64,
    bd: &mut BlockData,
)
    requires
        old(tracker).wf(),
    ensures
        one_receipt(*old(bd), *final(bd), *r, index as nat, outs@, *block_hash, *chunk_hash, timestamp, shard_id,
            old(tracker).origins()),
        final(tracker).wf(),
        final(tracker).origins() == old(tracker).origins(),
        final(tracker).known_transactions() == old(tracker).known_transactions(),
        final(tracker).age_limit() == old(tracker).age_limit(),
        final(tracker).data_origins() == registered_by(old(tracker).data_origins(), *r, old(tracker).origins()),
        final(tracker).miss_count() == saturating(old(tracker).miss_count(),
            if old(tracker).origins().contains_key(r.receipt_id@) { 0nat } else { 1nat }),
{
    let ghost origins = tracker.origins();
    proof { tracker.lemma_miss_count_fits(); }
    match find_outcome(outs, &r.receipt_id) {
        Some(oi) => {
            let o = &outs[oi].outcome;
            bd.execution_outcomes.push(ExecutionOutcome::new(r, block_hash, index, timestamp, o, shard_id));
            let mut produced: Vec<ExecutionOutcomeReceipt> = Vec::new();
            let mut j: usize = 0;
            while j < o.receipt_ids.len()
                invariant
                    j <= o.receipt_ids@.len(),
                    produced@ =~= outcome_receipt_records(*r, outs@).subrange(0, j as int),
                    matching_outcome(outs@, r.receipt_id@) == Some(*o),
                decreases o.receipt_ids@.len() - j,
            {
                produced.push(ExecutionOutcomeReceipt::new(&o.id, j as u64, &o.receipt_ids[j]));
                j = j + 1;
            }
            bd.execution_outcome_receipts.append(&mut produced);
        },
        None => {},
    }
    assert(bd.execution_outcomes@ =~= old(bd).execution_outcomes@ + outcome_records(*r, index as nat, outs@, *block_hash, timestamp, shard_id));
    assert(bd.execution_outcome_receipts@ =~= old(bd).execution_outcome_receipts@ + outcome_receipt_records(*r, outs@));
    match &r.receipt {
        ReceiptBody::Data { data_id, data } => {
            bd.data_receipts.push(DataReceipt::new(data_id, &r.receipt_id, data));
            assert(bd.data_receipts@.subrange(0, old(bd).data_receipts@.len() as int) =~= old(bd).data_receipts@);
            assert(data_receipt_rel()(bd.data_receipts@[old(bd).data_receipts@.len() as int], data_slots(*r)[0]));
        },
        ReceiptBody::Action { signer_id, signer_public_key, gas_price, output_data_receivers, input_data_ids, actions } => {
            bd.action_receipts.push(ActionReceipt::new(&r.receipt_id, signer_id, signer_public_key, *gas_price));
            let mut acts: Vec<ActionReceiptAction> = Vec::new();
            let mut j: usize = 0;
            while j < actions.len()
                invariant
                    j <= actions@.len(),
                    r.receipt is Action,
                    *actions == r.receipt->Action_actions,
                    acts@.len() == j,
                    forall|k: int| 0 <= k < j ==> #[trigger] receipt_action_of(acts@[k], *r, k as nat, timestamp),
                decreases actions@.len() - j,
            {
                acts.push(ActionReceiptAction::new(r, j as u64, timestamp));
                j = j + 1;
            }
            let ghost before = bd.action_receipt_actions@;
            let ghost acts_v = acts@;
            bd.action_receipt_actions.append(&mut acts);
            assert(bd.action_receipt_actions@.subrange(0, before.len() as int) =~= before);
            assert forall|k: int| 0 <= k < receipt_action_slots(*r).len() implies
                #[trigger] receipt_action_rel(timestamp)(bd.action_receipt_actions@[before.len() + k], receipt_action_slots(*r)[k]) by {
                assert(bd.action_receipt_actions@[before.len() + k] == acts_v[k]) by {
                    assert(bd.action_receipt_actions@[before.len() + k] == (before + acts_v)[before.len() + k]);
                }
            }
            let mut ins: Vec<ActionReceiptInputData> = Vec::new();
            let mut j: usize = 0;
            while j < input_data_ids.len()
                invariant
                    j <= input_data_ids@.len(),
                    r.receipt is Action,
                    *input_data_ids == r.receipt->Action_input_data_ids,
                    ins@ =~= input_data_records(*r).subrange(0, j as int),
                decreases input_data_ids@.len() - j,
            {
                ins.push(ActionReceiptInputData::new(&input_data_ids[j], &r.receipt_id));
                j = j + 1;
            }
            bd.action_receipt_input_datas.append(&mut ins);
            let mut outputs: Vec<ActionReceiptOutputData> = Vec::new();
            let mut j: usize = 0;
            while j < output_data_receivers.len()
                invariant
                    j <= output_data_receivers@.len(),
                    r.receipt is Action,
                    *output_data_receivers == r.receipt->Action_output_data_receivers,
                    outputs@ =~= output_data_records(*r).subrange(0, j as int),
                decreases output_data_receivers@.len() - j,
            {
                let o = &output_data_receivers[j];
                outputs.push(ActionReceiptOutputData::new(&o.data_id, &r.receipt_id, &o.receiver_id));
                j = j + 1;
            }
            bd.action_receipt_output_datas.append(&mut outputs);
        },
    }
    assert(bd.action_receipts@ =~= old(bd).action_receipts@ + action_receipt_records(*r));
    assert(bd.action_receipt_input_datas@ =~= old(bd).action_receipt_input_datas@ + input_data_records(*r));
    assert(bd.action_receipt_output_datas@ =~= old(bd).action_receipt_output_datas@ + output_data_records(*r));
    assert(is_data(*r) ==> bd.action_receipt_actions@ =~= old(bd).action_receipt_actions@);
    assert(!is_data(*r) ==> bd.data_receipts@ =~= old(bd).data_receipts@);
    match tracker.origin_of(&r.receipt_id) {
        Some(tx) => {
            bd.receipts.push(Receipt::new(r, block_hash, chunk_hash, index, timestamp, &tx));
            assert(bd.receipts@.subrange(0, old(bd).receipts@.len() as int) =~= old(bd).receipts@);
            assert(receipt_rel(*block_hash, *chunk_hash, timestamp, origins)(
                bd.receipts@[old(bd).receipts@.len() as int], receipt_slots(*r, index as nat, origins)[0]));
            match &r.receipt {
                ReceiptBody::Action { output_data_receivers, .. } => {
                    let ghost d0 = tracker.data_origins();
                    let mut j: usize = 0;
                    while j < output_data_receivers.len()
                        invariant
                            j <= output_data_receivers@.len(),
                            tracker.wf(),
                            tracker.known_transactions().contains(tx@),
                            tracker.origins() == old(tracker).origins(),
                            tracker.known_transactions() == old(tracker).known_transactions(),
                            tracker.age_limit() == old(tracker).age_limit(),
                            tracker.miss_count() == old(tracker).miss_count(),
                            tracker.data_origins() == insert_outputs(d0, output_data_receivers@.subrange(0, j as int), tx@),
                        decreases output_data_receivers@.len() - j,
                    {
                        tracker.register_data(&output_data_receivers[j].data_id, &tx);
                        assert(output_data_receivers@.subrange(0, j + 1).drop_last() =~= output_data_receivers@.subrange(0, j as int));
                        j = j + 1;
                    }
                    assert(output_data_receivers@.subrange(0, j as int) =~= output_data_receivers@);
                },
                ReceiptBody::Data { .. } => {},
            }
        },
        None => {
            tracker.note_miss();
            assert(bd.receipts@ =~= old(bd).receipts@);
        },
    }
    assert(bd.data_receipts@.subrange(0, old(bd).data_receipts@.len() as int) =~= old(bd).data_receipts@);
    assert(bd.action_receipt_actions@.subrange(0, old(bd).action_receipt_actions@.len() as int)
        =~= old(bd).action_receipt_actions@);
    assert(bd.receipts@.subrange(0, old(bd).receipts@.len() as int) =~= old(bd).receipts@);
}


/// Appends what the receipts of a shard's chunk yield, in chunk order, and
/// updates the data index and the miss count; the receipt index is only read.
pub fn handle_chunk_receipts(
    tracker: &mut ProvenanceTracker,
    outs: &Vec<OutcomeWithReceipt>,
    shard_id: u64,
    c: &ChunkView,
    block_hash: &String,
    timestamp: u64,
    bd: &mut BlockData,
)
    requires
        old(tracker).wf(),
    ensures
        receipt_lists(*old(bd), *final(bd), c.receipts@, outs@, *block_hash, c.chunk_hash, timestamp, shard_id,
            old(tracker).origins()),
        final(tracker).wf(),
        final(tracker).origins() == old(tracker).origins(),
        final(tracker).known_transactions() == old(tracker).known_transactions(),
        final(tracker).age_limit() == old(tracker).age_limit(),
        final(tracker).data_origins() == registered_after(old(tracker).data_origins(), c.receipts@, old(tracker).origins()),
        final(tracker).miss_count() == saturating(old(tracker).miss_count(), missing(c.receipts@, old(tracker).origins())),
{
    let ghost origins = tracker.origins();
    let ghost b0 = *bd;
    let ghost d0 = tracker.data_origins();
    let ghost m0 = tracker.miss_count();
    proof {
        tracker.lemma_miss_count_fits();
        assert(c.receipts@.subrange(0, 0) =~= Seq::<ReceiptView>::empty());
        lemma_lists_unextended(*bd);
    }
    let mut i: usize = 0;
    while i < c.receipts.len()
        invariant
            i <= c.receipts@.len(),
            tracker.wf(),
            tracker.origins() == origins,
            tracker.known_transactions() == old(tracker).known_transactions(),
            tracker.age_limit() == old(tracker).age_limit(),
            tracker.data_origins() == registered_after(d0, c.receipts@.subrange(0, i as int), origins),
            tracker.miss_count() == saturating(m0, missing(c.receipts@.subrange(0, i as int), origins)),
            m0 <= u64::MAX,
            receipt_lists(b0, *bd, c.receipts@.subrange(0, i as int), outs@, *block_hash, c.chunk_hash, timestamp,
                shard_id, origins),
        decreases c.receipts@.len() - i,
    {
        let ghost b1 = *bd;
        handle_receipt(tracker, outs, &c.receipts[i], i as u64, block_hash, &c.chunk_hash, timestamp, shard_id, bd);
        proof {
            lemma_receipt_lists_step(b0, b1, *bd, c.receipts@, i as int, outs@, *block_hash, c.chunk_hash, timestamp,
                shard_id, origins);
            assert(c.receipts@.subrange(0, i + 1).drop_last() =~= c.receipts@.subrange(0, i as int));
        }
        i = i + 1;
    }
    assert(c.receipts@.subrange(0, i as int) =~= c.receipts@);
}


/// Each list of `bd` extends itself by nothing.
pub proof fn lemma_lists_unextended(bd: BlockData)
    ensures
        bd.chunks@ == bd.chunks@ + Seq::empty(),
        bd.transactions@ == bd.transactions@ + Seq::empty(),
        bd.execution_outcomes@ == bd.execution_outcomes@ + Seq::empty(),
        bd.execution_outcome_receipts@ == bd.execution_outcome_receipts@ + Seq::empty(),
        bd.action_receipts@ == bd.action_receipts@ + Seq::empty(),
        bd.action_receipt_input_datas@ == bd.action_receipt_input_datas@ + Seq::empty(),
        bd.action_receipt_output_datas@ == bd.action_receipt_output_datas@ + Seq::empty(),
        bd.accounts@ == bd.accounts@ + Seq::empty(),
        bd.access_keys@ == bd.access_keys@ + Seq::empty(),
        bd.account_changes@.map_values(unnumber()) == bd.account_changes@.map_values(unnumber()) + Seq::empty(),
        bd.transaction_actions@.subrange(0, bd.transaction_actions@.len() as int) == bd.transaction_actions@,
        bd.data_receipts@.subrange(0, bd.data_receipts@.len() as int) == bd.data_receipts@,
        bd.action_receipt_actions@.subrange(0, bd.action_receipt_actions@.len() as int) == bd.action_receipt_actions@,
        bd.receipts@.subrange(0, bd.receipts@.len() as int) == bd.receipts@,
{
    assert(bd.chunks@ =~= bd.chunks@ + Seq::empty());
    assert(bd.transactions@ =~= bd.transactions@ + Seq::empty());
    assert(bd.execution_outcomes@ =~= bd.execution_outcomes@ + Seq::empty());
    assert(bd.execution_outcome_receipts@ =~= bd.execution_outcome_receipts@ + Seq::empty());
    assert(bd.action_receipts@ =~= bd.action_receipts@ + Seq::empty());
    assert(bd.action_receipt_input_datas@ =~= bd.action_receipt_input_datas@ + Seq::empty());
    assert(bd.action_receipt_output_datas@ =~= bd.action_receipt_output_datas@ + Seq::empty());
    assert(bd.accounts@ =~= bd.accounts@ + Seq::empty());
    assert(bd.access_keys@ =~= bd.access_keys@ + Seq::empty());
    assert(bd.account_changes@.map_values(unnumber()) =~= bd.account_changes@.map_values(unnumber()) + Seq::empty());
    assert(bd.transaction_actions@.subrange(0, bd.transaction_actions@.len() as int) =~= bd.transaction_actions@);
    assert(bd.data_receipts@.subrange(0, bd.data_receipts@.len() as int) =~= bd.data_receipts@);
    assert(bd.action_receipt_actions@.subrange(0, bd.action_receipt_actions@.len() as int) =~= bd.action_receipt_actions@);
    assert(bd.receipts@.subrange(0, bd.receipts@.len() as int) =~= bd.receipts@);
}

} // verus!
