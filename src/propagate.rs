//! The propagation rules that move provenance along receipt chains before
//! and after a block's records are extracted.

use vstd::prelude::*;
use crate::extract::{flat_indexed, lemma_flat_indexed_step, saturating};
use crate::message::{BlockMessage, OutcomeWithReceipt, ReceiptBody, ReceiptView, Shard, TransactionWithOutcome};
use crate::provenance::ProvenanceTracker;

verus! {

/// How many fixed-point passes resolve outcome chains within one block.
pub const RESOLVE_PASSES: usize = 5;

/// What every propagation step keeps: the tracker stays well formed, its
/// receipt entries are only added or refreshed, the transactions it knows
/// and its age limit stay.
pub open spec fn grows(a: ProvenanceTracker, b: ProvenanceTracker) -> bool {
    &&& b.wf()
    &&& forall|k: Seq<char>| #[trigger] a.origins().contains_key(k) ==> b.origins().contains_key(k)
    &&& b.known_transactions() == a.known_transactions()
    &&& b.age_limit() == a.age_limit()
}

/// The hashes of the transactions that the block's chunks carry.
pub open spec fn block_transactions(msg: BlockMessage) -> Set<Seq<char>> {
    Set::new(|h: Seq<char>| exists|s: int, t: int|
        0 <= s < msg.shards@.len() && msg.shards@[s].chunk is Some
        && 0 <= t < msg.shards@[s].chunk->0.transactions@.len()
        && (#[trigger] msg.shards@[s].chunk->0.transactions@[t]).transaction.hash@ == h)
}

/// One pass over (executed, produced) pairs against index `m`, in order: a
/// pair whose executed receipt has an origin gives it, fresh, to the produced
/// receipt; the other pairs are kept, in order, for a later pass.
pub open spec fn pass_over(m: Map<Seq<char>, (Seq<char>, nat)>, pairs: Seq<(String, String)>)
    -> (Map<Seq<char>, (Seq<char>, nat)>, Seq<(String, String)>)
    decreases pairs.len(),
{
    if pairs.len() == 0 {
        (m, Seq::empty())
    } else {
        let prev = pass_over(m, pairs.drop_last());
        let pair = pairs.last();
        if prev.0.contains_key(pair.0@) {
            (prev.0.insert(pair.1@, (prev.0[pair.0@].0, 0nat)), prev.1)
        } else {
            (prev.0, prev.1.push(pair))
        }
    }
}

/// Passes over the pending pairs until none is left, a pass resolves none,
/// or `passes` passes are done; the index reached and the pairs left.
pub open spec fn resolved(m: Map<Seq<char>, (Seq<char>, nat)>, pending: Seq<(String, String)>, passes: nat)
    -> (Map<Seq<char>, (Seq<char>, nat)>, Seq<(String, String)>)
    decreases passes,
{
    if passes == 0 || pending.len() == 0 {
        (m, pending)
    } else {
        let next = pass_over(m, pending);
        if next.1.len() < pending.len() {
            resolved(next.0, next.1, (passes - 1) as nat)
        } else {
            next
        }
    }
}

/// The index after inserting each (receipt id, transaction hash) entry in
/// order, fresh.
pub open spec fn insert_fresh(m: Map<Seq<char>, (Seq<char>, nat)>, entries: Seq<(String, String)>)
    -> Map<Seq<char>, (Seq<char>, nat)>
    decreases entries.len(),
{
    if entries.len() == 0 {
        m
    } else {
        insert_fresh(m, entries.drop_last()).insert(entries.last().0@, (entries.last().1@, 0nat))
    }
}

pub proof fn lemma_insert_fresh_append(m: Map<Seq<char>, (Seq<char>, nat)>, a: Seq<(String, String)>, b: Seq<(String, String)>)
    ensures
        insert_fresh(m, a + b) == insert_fresh(insert_fresh(m, a), b),
    decreases b.len(),
{
    if b.len() > 0 {
        assert((a + b).drop_last() =~= a + b.drop_last());
        lemma_insert_fresh_append(m, a, b.drop_last());
    } else {
        assert(a + b =~= a);
    }
}

/// The receipts a transaction seeds with its hash, in order: the receipt
/// the stream names with it, if any, then the receipt it was converted into.
pub open spec fn tx_seeds() -> spec_fn(TransactionWithOutcome, nat) -> Seq<(String, String)> {
    |t: TransactionWithOutcome, k: nat| (match t.receipt_id {
        Some(r) => seq![(r, t.transaction.hash)],
        None => Seq::empty(),
    }) + seq![(t.outcome.receipt_ids@[0], t.transaction.hash)]
}

pub open spec fn shard_seeds() -> spec_fn(Shard, nat) -> Seq<(String, String)> {
    |sh: Shard, k: nat| match sh.chunk {
        Some(c) => flat_indexed(c.transactions@, tx_seeds()),
        None => Seq::empty(),
    }
}

/// The (receipt id, data id) of each data receipt of the block's chunks, in order.
pub open spec fn receipt_data_entry() -> spec_fn(ReceiptView, nat) -> Seq<(String, String)> {
    |r: ReceiptView, k: nat| match r.receipt {
        ReceiptBody::Data { data_id, .. } => seq![(r.receipt_id, data_id)],
        ReceiptBody::Action { .. } => Seq::empty(),
    }
}

pub open spec fn shard_data_entries() -> spec_fn(Shard, nat) -> Seq<(String, String)> {
    |sh: Shard, k: nat| match sh.chunk {
        Some(c) => flat_indexed(c.receipts@, receipt_data_entry()),
        None => Seq::empty(),
    }
}

/// The receipt and data indexes after redeeming each (receipt id, data id)
/// entry in order: an awaited data id leaves the data index and its receipt
/// takes, fresh, the transaction it was awaited for.
pub open spec fn redeemed(
    m: Map<Seq<char>, (Seq<char>, nat)>, d: Map<Seq<char>, Seq<char>>, entries: Seq<(String, String)>,
) -> (Map<Seq<char>, (Seq<char>, nat)>, Map<Seq<char>, Seq<char>>)
    decreases entries.len(),
{
    if entries.len() == 0 {
        (m, d)
    } else {
        let prev = redeemed(m, d, entries.drop_last());
        let e = entries.last();
        if prev.1.contains_key(e.1@) {
            (prev.0.insert(e.0@, (prev.1[e.1@], 0nat)), prev.1.remove(e.1@))
        } else {
            prev
        }
    }
}

/// Carries provenance from every outcome's executed receipt, where known,
/// to the receipts it produced, over all shards in order.
pub fn propagate_outcomes(tracker: &mut ProvenanceTracker, shards: &Vec<Shard>)
    requires
        old(tracker).wf(),
    ensures
        grows(*old(tracker), *final(tracker)),
        final(tracker).data_origins() == old(tracker).data_origins(),
        final(tracker).miss_count() == old(tracker).miss_count(),
        forall|k: int| 0 <= k < block_pairs(shards@).len()
            && old(tracker).origins().contains_key((#[trigger] block_pairs(shards@)[k]).0@)
            ==> final(tracker).origins().contains_key(block_pairs(shards@)[k].1@),
        final(tracker).origins() == pass_over(old(tracker).origins(), block_pairs(shards@)).0,
{
    let all = collect_pairs(shards);
    let mut k: usize = 0;
    assert(all@.subrange(0, 0) =~= Seq::<(String, String)>::empty());
    while k < all.len()
        invariant
            k <= all@.len(),
            all@ == block_pairs(shards@),
            grows(*old(tracker), *tracker),
            tracker.data_origins() == old(tracker).data_origins(),
            tracker.miss_count() == old(tracker).miss_count(),
            forall|x: int| 0 <= x < k && old(tracker).origins().contains_key((#[trigger] all@[x]).0@)
                ==> tracker.origins().contains_key(all@[x].1@),
            tracker.origins() == pass_over(old(tracker).origins(), all@.subrange(0, k as int)).0,
        decreases all@.len() - k,
    {
        let ghost before = tracker.origins();
        assert(all@.subrange(0, k + 1).drop_last() =~= all@.subrange(0, k as int));
        match tracker.origin_of(&all[k].0) {
            Some(tx) => tracker.set_origin(&all[k].1, &tx),
            None => {},
        }
        assert(all@.subrange(0, k + 1).last() == all@[k as int]);
        assert forall|x: int| 0 <= x < k + 1 && old(tracker).origins().contains_key((#[trigger] all@[x]).0@)
            implies tracker.origins().contains_key(all@[x].1@) by {
            if x < k {
                assert(before.contains_key(all@[x].1@));
            }
        }
        k = k + 1;
    }
    assert(all@.subrange(0, k as int) =~= all@);
}

/// Records every transaction of the block's chunks, seeding the receipt it
/// was converted into (and the receipt the stream names with it) with its hash.
pub fn seed_transactions(tracker: &mut ProvenanceTracker, msg: &BlockMessage)
    requires
        old(tracker).wf(),
        forall|s: int, t: int|
            0 <= s < msg.shards@.len() && msg.shards@[s].chunk is Some
                && 0 <= t < msg.shards@[s].chunk->0.transactions@.len()
                ==> (#[trigger] msg.shards@[s].chunk->0.transactions@[t]).outcome.receipt_ids@.len() > 0,
    ensures
        final(tracker).wf(),
        forall|k: Seq<char>| #[trigger] old(tracker).origins().contains_key(k) ==> final(tracker).origins().contains_key(k),
        final(tracker).known_transactions() == old(tracker).known_transactions().union(block_transactions(*msg)),
        final(tracker).age_limit() == old(tracker).age_limit(),
        final(tracker).data_origins() == old(tracker).data_origins(),
        final(tracker).miss_count() == old(tracker).miss_count(),
        forall|s: int, t: int|
            0 <= s < msg.shards@.len() && msg.shards@[s].chunk is Some
                && 0 <= t < msg.shards@[s].chunk->0.transactions@.len()
                ==> final(tracker).origins().contains_key(
                    (#[trigger] msg.shards@[s].chunk->0.transactions@[t]).outcome.receipt_ids@[0]@),
        final(tracker).origins() == insert_fresh(old(tracker).origins(), flat_indexed(msg.shards@, shard_seeds())),
{
    let ghost k0 = tracker.known_transactions();
    let ghost o0 = tracker.origins();
    assert(msg.shards@.subrange(0, 0) =~= Seq::<Shard>::empty());
    let mut s: usize = 0;
    while s < msg.shards.len()
        invariant
            s <= msg.shards@.len(),
            tracker.wf(),
            forall|s: int, t: int|
                0 <= s < msg.shards@.len() && msg.shards@[s].chunk is Some
                    && 0 <= t < msg.shards@[s].chunk->0.transactions@.len()
                    ==> (#[trigger] msg.shards@[s].chunk->0.transactions@[t]).outcome.receipt_ids@.len() > 0,
            forall|k: Seq<char>| #[trigger] old(tracker).origins().contains_key(k) ==> tracker.origins().contains_key(k),
            tracker.known_transactions() == k0.union(Set::new(|h: Seq<char>| exists|a: int, t: int|
                0 <= a < s && msg.shards@[a].chunk is Some
                && 0 <= t < msg.shards@[a].chunk->0.transactions@.len()
                && (#[trigger] msg.shards@[a].chunk->0.transactions@[t]).transaction.hash@ == h)),
            tracker.age_limit() == old(tracker).age_limit(),
            tracker.data_origins() == old(tracker).data_origins(),
            tracker.miss_count() == old(tracker).miss_count(),
            forall|a: int, t: int|
                0 <= a < s && msg.shards@[a].chunk is Some
                    && 0 <= t < msg.shards@[a].chunk->0.transactions@.len()
                    ==> tracker.origins().contains_key(
                        (#[trigger] msg.shards@[a].chunk->0.transactions@[t]).outcome.receipt_ids@[0]@),
            o0 == old(tracker).origins(),
            tracker.origins() == insert_fresh(o0, flat_indexed(msg.shards@.subrange(0, s as int), shard_seeds())),
        decreases msg.shards@.len() - s,
    {
        match &msg.shards[s].chunk {
            Some(c) => {
                let ghost k1 = tracker.known_transactions();
                assert(c.transactions@.subrange(0, 0) =~= Seq::<TransactionWithOutcome>::empty());
                assert(flat_indexed(msg.shards@.subrange(0, s as int), shard_seeds())
                    + flat_indexed(c.transactions@.subrange(0, 0), tx_seeds())
                    =~= flat_indexed(msg.shards@.subrange(0, s as int), shard_seeds()));
                let mut t: usize = 0;
                while t < c.transactions.len()
                    invariant
                        t <= c.transactions@.len(),
                        s < msg.shards@.len(),
                        msg.shards@[s as int].chunk == Some(*c),
                        forall|t: int| 0 <= t < c.transactions@.len() ==> (#[trigger] c.transactions@[t]).outcome.receipt_ids@.len() > 0,
                        tracker.wf(),
                        forall|k: Seq<char>| #[trigger] old(tracker).origins().contains_key(k) ==> tracker.origins().contains_key(k),
                        tracker.known_transactions() == k1.union(Set::new(|h: Seq<char>| exists|u: int|
                            0 <= u < t && (#[trigger] c.transactions@[u]).transaction.hash@ == h)),
                        tracker.age_limit() == old(tracker).age_limit(),
                        tracker.data_origins() == old(tracker).data_origins(),
                        tracker.miss_count() == old(tracker).miss_count(),
                        forall|a: int, t: int|
                            0 <= a < s && msg.shards@[a].chunk is Some
                                && 0 <= t < msg.shards@[a].chunk->0.transactions@.len()
                                ==> tracker.origins().contains_key(
                                    (#[trigger] msg.shards@[a].chunk->0.transactions@[t]).outcome.receipt_ids@[0]@),
                        forall|u: int| 0 <= u < t ==>
                            tracker.origins().contains_key((#[trigger] c.transactions@[u]).outcome.receipt_ids@[0]@),
                        o0 == old(tracker).origins(),
                        tracker.origins() == insert_fresh(o0, flat_indexed(msg.shards@.subrange(0, s as int), shard_seeds())
                            + flat_indexed(c.transactions@.subrange(0, t as int), tx_seeds())),
                    decreases c.transactions@.len() - t,
                {
                    let tx = &c.transactions[t];
                    assert(msg.shards@[s as int].chunk->0.transactions@[t as int] == *tx);
                    let ghost before = tracker.known_transactions();
                    let ghost before_origins = tracker.origins();
                    match &tx.receipt_id {
                        Some(rid) => {
                            tracker.seed(rid, &tx.transaction.hash);
                        },
                        None => {},
                    }
                    tracker.seed(&tx.outcome.receipt_ids[0], &tx.transaction.hash);
                    proof {
                        let pre = flat_indexed(msg.shards@.subrange(0, s as int), shard_seeds());
                        let done = flat_indexed(c.transactions@.subrange(0, t as int), tx_seeds());
                        let piece = tx_seeds()(c.transactions@[t as int], t as nat);
                        lemma_flat_indexed_step(c.transactions@, tx_seeds(), t as int);
                        assert(pre + flat_indexed(c.transactions@.subrange(0, t + 1), tx_seeds()) =~= (pre + done) + piece);
                        lemma_insert_fresh_append(o0, pre + done, piece);
                        let last = (tx.outcome.receipt_ids@[0], tx.transaction.hash);
                        if tx.receipt_id is Some {
                            let r = tx.receipt_id->0;
                            assert(piece =~= seq![(r, tx.transaction.hash), last]);
                            assert(piece.drop_last() =~= seq![(r, tx.transaction.hash)]);
                            assert(piece.drop_last().drop_last() =~= Seq::<(String, String)>::empty());
                            assert(insert_fresh(before_origins, piece.drop_last().drop_last()) == before_origins);
                            assert(insert_fresh(before_origins, piece.drop_last())
                                == before_origins.insert(r@, (tx.transaction.hash@, 0nat)));
                        } else {
                            assert(piece =~= seq![last]);
                            assert(piece.drop_last() =~= Seq::<(String, String)>::empty());
                            assert(insert_fresh(before_origins, piece.drop_last()) == before_origins);
                        }
                        assert(insert_fresh(before_origins, piece) == insert_fresh(before_origins, piece.drop_last())
                            .insert(last.0@, (last.1@, 0nat)));
                    }
                    assert forall|u: int| 0 <= u < t + 1 implies
                        tracker.origins().contains_key((#[trigger] c.transactions@[u]).outcome.receipt_ids@[0]@) by {
                        if u < t {
                            assert(before_origins.contains_key(c.transactions@[u].outcome.receipt_ids@[0]@));
                        }
                    }
                    assert forall|a: int, t: int|
                        0 <= a < s && msg.shards@[a].chunk is Some
                            && 0 <= t < msg.shards@[a].chunk->0.transactions@.len()
                            implies tracker.origins().contains_key(
                                (#[trigger] msg.shards@[a].chunk->0.transactions@[t]).outcome.receipt_ids@[0]@) by {
                        assert(before_origins.contains_key(msg.shards@[a].chunk->0.transactions@[t].outcome.receipt_ids@[0]@));
                    }
                    assert(tracker.known_transactions() =~= k1.union(Set::new(|h: Seq<char>| exists|u: int|
                        0 <= u < t + 1 && (#[trigger] c.transactions@[u]).transaction.hash@ == h))) by {
                        assert forall|h: Seq<char>| tracker.known_transactions().contains(h) implies
                            k1.union(Set::new(|h: Seq<char>| exists|u: int|
                                0 <= u < t + 1 && (#[trigger] c.transactions@[u]).transaction.hash@ == h)).contains(h) by {
                            if h == tx.transaction.hash@ {
                                assert(c.transactions@[t as int].transaction.hash@ == h);
                            }
                        }
                    }
                    t = t + 1;
                }
                proof {
                    lemma_flat_indexed_step(msg.shards@, shard_seeds(), s as int);
                    assert(c.transactions@.subrange(0, t as int) =~= c.transactions@);
                    assert(flat_indexed(msg.shards@.subrange(0, s + 1), shard_seeds())
                        =~= flat_indexed(msg.shards@.subrange(0, s as int), shard_seeds())
                            + flat_indexed(c.transactions@, tx_seeds()));
                }
                assert forall|a: int, u: int|
                    0 <= a < s + 1 && msg.shards@[a].chunk is Some
                        && 0 <= u < msg.shards@[a].chunk->0.transactions@.len()
                        implies tracker.origins().contains_key(
                            (#[trigger] msg.shards@[a].chunk->0.transactions@[u]).outcome.receipt_ids@[0]@) by {
                    if a == s {
                        assert(msg.shards@[a].chunk->0.transactions@[u] == c.transactions@[u]);
                    }
                }
                assert(tracker.known_transactions() =~= k0.union(Set::new(|h: Seq<char>| exists|a: int, t: int|
                    0 <= a < s + 1 && msg.shards@[a].chunk is Some
                    && 0 <= t < msg.shards@[a].chunk->0.transactions@.len()
                    && (#[trigger] msg.shards@[a].chunk->0.transactions@[t]).transaction.hash@ == h))) by {
                    assert forall|h: Seq<char>| tracker.known_transactions().contains(h) implies
                        k0.union(Set::new(|h: Seq<char>| exists|a: int, t: int|
                            0 <= a < s + 1 && msg.shards@[a].chunk is Some
                            && 0 <= t < msg.shards@[a].chunk->0.transactions@.len()
                            && (#[trigger] msg.shards@[a].chunk->0.transactions@[t]).transaction.hash@ == h)).contains(h) by {
                        if !k1.contains(h) {
                            let u = choose|u: int| 0 <= u < t && (#[trigger] c.transactions@[u]).transaction.hash@ == h;
                            assert(msg.shards@[s as int].chunk->0.transactions@[u].transaction.hash@ == h);
                        }
                    }
                    assert forall|h: Seq<char>| k0.union(Set::new(|h: Seq<char>| exists|a: int, t: int|
                            0 <= a < s + 1 && msg.shards@[a].chunk is Some
                            && 0 <= t < msg.shards@[a].chunk->0.transactions@.len()
                            && (#[trigger] msg.shards@[a].chunk->0.transactions@[t]).transaction.hash@ == h)).contains(h)
                        implies tracker.known_transactions().contains(h) by {
                        if !k0.contains(h) {
                            let (a, u) = choose|a: int, u: int| 0 <= a < s + 1 && msg.shards@[a].chunk is Some
                                && 0 <= u < msg.shards@[a].chunk->0.transactions@.len()
                                && (#[trigger] msg.shards@[a].chunk->0.transactions@[u]).transaction.hash@ == h;
                            if a == s {
                                assert(c.transactions@[u].transaction.hash@ == h);
                            }
                        }
                    }
                }
            },
            None => {
                proof {
                    lemma_flat_indexed_step(msg.shards@, shard_seeds(), s as int);
                    assert(flat_indexed(msg.shards@.subrange(0, s + 1), shard_seeds())
                        =~= flat_indexed(msg.shards@.subrange(0, s as int), shard_seeds()));
                }
                assert(tracker.known_transactions() =~= k0.union(Set::new(|h: Seq<char>| exists|a: int, t: int|
                    0 <= a < s + 1 && msg.shards@[a].chunk is Some
                    && 0 <= t < msg.shards@[a].chunk->0.transactions@.len()
                    && (#[trigger] msg.shards@[a].chunk->0.transactions@[t]).transaction.hash@ == h))) by {
                    assert forall|h: Seq<char>| k0.union(Set::new(|h: Seq<char>| exists|a: int, t: int|
                            0 <= a < s + 1 && msg.shards@[a].chunk is Some
                            && 0 <= t < msg.shards@[a].chunk->0.transactions@.len()
                            && (#[trigger] msg.shards@[a].chunk->0.transactions@[t]).transaction.hash@ == h)).contains(h)
                        implies tracker.known_transactions().contains(h) by {
                        if !k0.contains(h) {
                            let (a, u) = choose|a: int, u: int| 0 <= a < s + 1 && msg.shards@[a].chunk is Some
                                && 0 <= u < msg.shards@[a].chunk->0.transactions@.len()
                                && (#[trigger] msg.shards@[a].chunk->0.transactions@[u]).transaction.hash@ == h;
                            assert(a != s);
                        }
                    }
                }
            },
        }
        s = s + 1;
    }
    assert(tracker.known_transactions() =~= k0.union(block_transactions(*msg)));
    assert(msg.shards@.subrange(0, s as int) =~= msg.shards@);
}

/// Redeems the data ids of the block's data receipts, in order: a data
/// receipt whose data id is awaited takes, fresh, the transaction it was
/// awaited for, and the data id leaves the data index.
pub fn redeem_data_receipts(tracker: &mut ProvenanceTracker, shards: &Vec<Shard>)
    requires
        old(tracker).wf(),
    ensures
        grows(*old(tracker), *final(tracker)),
        final(tracker).miss_count() == old(tracker).miss_count(),
        (final(tracker).origins(), final(tracker).data_origins())
            == redeemed(old(tracker).origins(), old(tracker).data_origins(), flat_indexed(shards@, shard_data_entries())),
{
    let ghost o0 = tracker.origins();
    let ghost d0 = tracker.data_origins();
    assert(shards@.subrange(0, 0) =~= Seq::<Shard>::empty());
    let mut s: usize = 0;
    while s < shards.len()
        invariant
            s <= shards@.len(),
            grows(*old(tracker), *tracker),
            tracker.miss_count() == old(tracker).miss_count(),
            (tracker.origins(), tracker.data_origins())
                == redeemed(o0, d0, flat_indexed(shards@.subrange(0, s as int), shard_data_entries())),
        decreases shards@.len() - s,
    {
        proof { lemma_flat_indexed_step(shards@, shard_data_entries(), s as int); }
        let ghost pre = flat_indexed(shards@.subrange(0, s as int), shard_data_entries());
        match &shards[s].chunk {
            Some(c) => {
                assert(c.receipts@.subrange(0, 0) =~= Seq::<ReceiptView>::empty());
                assert(pre + flat_indexed(c.receipts@.subrange(0, 0), receipt_data_entry()) =~= pre);
                let mut i: usize = 0;
                while i < c.receipts.len()
                    invariant
                        i <= c.receipts@.len(),
                        grows(*old(tracker), *tracker),
                        tracker.miss_count() == old(tracker).miss_count(),
                        (tracker.origins(), tracker.data_origins())
                            == redeemed(o0, d0, pre + flat_indexed(c.receipts@.subrange(0, i as int), receipt_data_entry())),
                    decreases c.receipts@.len() - i,
                {
                    let r = &c.receipts[i];
                    let ghost done = pre + flat_indexed(c.receipts@.subrange(0, i as int), receipt_data_entry());
                    proof { lemma_flat_indexed_step(c.receipts@, receipt_data_entry(), i as int); }
                    assert(pre + flat_indexed(c.receipts@.subrange(0, i + 1), receipt_data_entry())
                        =~= done + receipt_data_entry()(*r, i as nat));
                    match &r.receipt {
                        ReceiptBody::Data { data_id, .. } => {
                            let ghost next = done + seq![(r.receipt_id, *data_id)];
                            assert(next.drop_last() =~= done);
                            match tracker.redeem_data(data_id) {
                                Some(tx) => {
                                    tracker.set_origin(&r.receipt_id, &tx);
                                },
                                None => {},
                            }
                        },
                        ReceiptBody::Action { .. } => {
                            assert(done + receipt_data_entry()(*r, i as nat) =~= done);
                        },
                    }
                    i = i + 1;
                }
                assert(c.receipts@.subrange(0, i as int) =~= c.receipts@);
            },
            None => {
                assert(flat_indexed(shards@.subrange(0, s + 1), shard_data_entries()) =~= pre);
            },
        }
        s = s + 1;
    }
    assert(shards@.subrange(0, s as int) =~= shards@);
}

/// The (executed receipt, produced receipt) pairs of a list of outcomes.
pub open spec fn outcome_pairs(outs: Seq<OutcomeWithReceipt>) -> Seq<(String, String)> {
    flat_indexed(outs, |o: OutcomeWithReceipt, k: nat|
        Seq::new(o.outcome.receipt_ids@.len(), |j: int| (o.outcome.id, o.outcome.receipt_ids@[j])))
}

/// The (executed receipt, produced receipt) pairs of all shards, in order.
pub open spec fn block_pairs(shards: Seq<Shard>) -> Seq<(String, String)> {
    flat_indexed(shards, |s: Shard, k: nat| outcome_pairs(s.receipt_execution_outcomes@))
}

fn collect_pairs(shards: &Vec<Shard>) -> (r: Vec<(String, String)>)
    ensures
        r@ == block_pairs(shards@),
{
    let ghost f = |s: Shard, k: nat| outcome_pairs(s.receipt_execution_outcomes@);
    let mut pairs: Vec<(String, String)> = Vec::new();
    let mut s: usize = 0;
    assert(shards@.subrange(0, 0) =~= Seq::<Shard>::empty());
    while s < shards.len()
        invariant
            s <= shards@.len(),
            f == (|s: Shard, k: nat| outcome_pairs(s.receipt_execution_outcomes@)),
            pairs@ == flat_indexed(shards@.subrange(0, s as int), f),
        decreases shards@.len() - s,
    {
        proof { lemma_flat_indexed_step(shards@, f, s as int); }
        let outs = &shards[s].receipt_execution_outcomes;
        let ghost g = |o: OutcomeWithReceipt, k: nat|
            Seq::new(o.outcome.receipt_ids@.len(), |j: int| (o.outcome.id, o.outcome.receipt_ids@[j]));
        let ghost start = pairs@;
        assert(outs@.subrange(0, 0) =~= Seq::<OutcomeWithReceipt>::empty());
        assert(pairs@ =~= start + flat_indexed(outs@.subrange(0, 0), g));
        let mut i: usize = 0;
        while i < outs.len()
            invariant
                i <= outs@.len(),
                g == (|o: OutcomeWithReceipt, k: nat|
                    Seq::new(o.outcome.receipt_ids@.len(), |j: int| (o.outcome.id, o.outcome.receipt_ids@[j]))),
                pairs@ == start + flat_indexed(outs@.subrange(0, i as int), g),
            decreases outs@.len() - i,
        {
            proof { lemma_flat_indexed_step(outs@, g, i as int); }
            let o = &outs[i].outcome;
            let ghost before_outcome = pairs@;
            let mut j: usize = 0;
            while j < o.receipt_ids.len()
                invariant
                    j <= o.receipt_ids@.len(),
                    i < outs@.len(),
                    *o == outs@[i as int].outcome,
                    g == (|o: OutcomeWithReceipt, k: nat|
                        Seq::new(o.outcome.receipt_ids@.len(), |j: int| (o.outcome.id, o.outcome.receipt_ids@[j]))),
                    pairs@ =~= before_outcome + g(outs@[i as int], i as nat).subrange(0, j as int),
                decreases o.receipt_ids@.len() - j,
            {
                pairs.push((o.id.clone(), o.receipt_ids[j].clone()));
                j = j + 1;
            }
            assert(g(outs@[i as int], i as nat).subrange(0, j as int) =~= g(outs@[i as int], i as nat));
            assert(pairs@ =~= start + flat_indexed(outs@.subrange(0, i + 1), g));
            i = i + 1;
        }
        assert(outs@.subrange(0, i as int) =~= outs@);
        assert(pairs@ =~= flat_indexed(shards@.subrange(0, s + 1), f));
        s = s + 1;
    }
    assert(shards@.subrange(0, s as int) =~= shards@);
    pairs
}

/// Resolves the block's outcome chains to a fixed point: in up to
/// `RESOLVE_PASSES` passes, each pair whose executed receipt has an origin
/// passes it, fresh, to the produced receipt; passing stops early when a pass
/// resolves nothing or nothing is left. Pairs left over are counted as
/// misses; their number is returned.
pub fn resolve_pending(tracker: &mut ProvenanceTracker, shards: &Vec<Shard>) -> (left: usize)
    requires
        old(tracker).wf(),
    ensures
        grows(*old(tracker), *final(tracker)),
        final(tracker).data_origins() == old(tracker).data_origins(),
        final(tracker).origins() == resolved(old(tracker).origins(), block_pairs(shards@), RESOLVE_PASSES as nat).0,
        left == resolved(old(tracker).origins(), block_pairs(shards@), RESOLVE_PASSES as nat).1.len(),
        final(tracker).miss_count() == saturating(old(tracker).miss_count(), left as nat),
{
    let ghost target = resolved(tracker.origins(), block_pairs(shards@), RESOLVE_PASSES as nat);
    let mut pending = collect_pairs(shards);
    let mut passes: usize = RESOLVE_PASSES;
    while passes > 0 && pending.len() > 0
        invariant
            passes <= RESOLVE_PASSES,
            resolved(tracker.origins(), pending@, passes as nat) == target,
            grows(*old(tracker), *tracker),
            tracker.data_origins() == old(tracker).data_origins(),
            tracker.miss_count() == old(tracker).miss_count(),
        decreases passes,
    {
        let ghost start = tracker.origins();
        let mut next: Vec<(String, String)> = Vec::new();
        let mut i: usize = 0;
        assert(pending@.subrange(0, 0) =~= Seq::<(String, String)>::empty());
        while i < pending.len()
            invariant
                i <= pending@.len(),
                (tracker.origins(), next@) == pass_over(start, pending@.subrange(0, i as int)),
                grows(*old(tracker), *tracker),
                tracker.data_origins() == old(tracker).data_origins(),
                tracker.miss_count() == old(tracker).miss_count(),
            decreases pending@.len() - i,
        {
            assert(pending@.subrange(0, i + 1).drop_last() =~= pending@.subrange(0, i as int));
            assert(pending@.subrange(0, i + 1).last() == pending@[i as int]);
            match tracker.origin_of(&pending[i].0) {
                Some(tx) => tracker.set_origin(&pending[i].1, &tx),
                None => next.push((pending[i].0.clone(), pending[i].1.clone())),
            }
            i = i + 1;
        }
        assert(pending@.subrange(0, i as int) =~= pending@);
        let progressed = next.len() < pending.len();
        pending = next;
        passes = if progressed { passes - 1 } else { 0 };
    }
    let left = pending.len();
    let mut m: usize = 0;
    proof { tracker.lemma_miss_count_fits(); }
    while m < left
        invariant
            m <= left,
            grows(*old(tracker), *tracker),
            tracker.origins() == target.0,
            tracker.data_origins() == old(tracker).data_origins(),
            tracker.miss_count() == saturating(old(tracker).miss_count(), m as nat),
            old(tracker).miss_count() <= u64::MAX,
        decreases left - m,
    {
        tracker.note_miss();
        m = m + 1;
    }
    left
}


/// Every entry of `r` is either an entry of `m`, unchanged, or fresh (age 0).
pub open spec fn carried_or_fresh(m: Map<Seq<char>, (Seq<char>, nat)>, r: Map<Seq<char>, (Seq<char>, nat)>) -> bool {
    forall|k: Seq<char>| #[trigger] r.contains_key(k) ==> (m.contains_key(k) && r[k] == m[k]) || r[k].1 == 0
}

pub proof fn lemma_carried_or_fresh_trans(
    a: Map<Seq<char>, (Seq<char>, nat)>, b: Map<Seq<char>, (Seq<char>, nat)>, c: Map<Seq<char>, (Seq<char>, nat)>,
)
    requires
        carried_or_fresh(a, b),
        carried_or_fresh(b, c),
    ensures
        carried_or_fresh(a, c),
{
    assert forall|k: Seq<char>| #[trigger] c.contains_key(k) implies (a.contains_key(k) && c[k] == a[k]) || c[k].1 == 0 by {
        if c[k].1 != 0 {
            assert(b.contains_key(k));
        }
    }
}

pub proof fn lemma_pass_over_fresh(m: Map<Seq<char>, (Seq<char>, nat)>, pairs: Seq<(String, String)>)
    ensures
        carried_or_fresh(m, pass_over(m, pairs).0),
    decreases pairs.len(),
{
    if pairs.len() > 0 {
        lemma_pass_over_fresh(m, pairs.drop_last());
        let prev = pass_over(m, pairs.drop_last()).0;
        assert(carried_or_fresh(prev, pass_over(m, pairs).0));
        lemma_carried_or_fresh_trans(m, prev, pass_over(m, pairs).0);
    }
}

pub proof fn lemma_resolved_fresh(m: Map<Seq<char>, (Seq<char>, nat)>, pending: Seq<(String, String)>, passes: nat)
    ensures
        carried_or_fresh(m, resolved(m, pending, passes).0),
    decreases passes,
{
    if passes > 0 && pending.len() > 0 {
        let next = pass_over(m, pending);
        lemma_pass_over_fresh(m, pending);
        if next.1.len() < pending.len() {
            lemma_resolved_fresh(next.0, next.1, (passes - 1) as nat);
            lemma_carried_or_fresh_trans(m, next.0, resolved(m, pending, passes).0);
        }
    }
}

pub proof fn lemma_insert_fresh_fresh(m: Map<Seq<char>, (Seq<char>, nat)>, entries: Seq<(String, String)>)
    ensures
        carried_or_fresh(m, insert_fresh(m, entries)),
    decreases entries.len(),
{
    if entries.len() > 0 {
        lemma_insert_fresh_fresh(m, entries.drop_last());
        let prev = insert_fresh(m, entries.drop_last());
        assert(carried_or_fresh(prev, insert_fresh(m, entries)));
        lemma_carried_or_fresh_trans(m, prev, insert_fresh(m, entries));
    }
}

pub proof fn lemma_redeemed_fresh(
    m: Map<Seq<char>, (Seq<char>, nat)>, d: Map<Seq<char>, Seq<char>>, entries: Seq<(String, String)>,
)
    ensures
        carried_or_fresh(m, redeemed(m, d, entries).0),
    decreases entries.len(),
{
    if entries.len() > 0 {
        lemma_redeemed_fresh(m, d, entries.drop_last());
        let prev = redeemed(m, d, entries.drop_last()).0;
        assert(carried_or_fresh(prev, redeemed(m, d, entries).0));
        lemma_carried_or_fresh_trans(m, prev, redeemed(m, d, entries).0);
    }
}

} // verus!
