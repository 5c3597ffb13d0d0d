//! The batching stage: transformed blocks are buffered and handed on in
//! batches of a fixed size.

use vstd::prelude::*;
use crate::extract::flat_indexed;
use crate::records::{BlockData, GenesisBlockData};

verus! {

/// How many stream items a batch holds by default.
pub const DEFAULT_BATCH_SIZE: usize = 100;

/// One item of the transformed stream: the genesis records, or a block's
/// records with the ids of the accounts it deleted.
pub enum StreamItem {
    Genesis(GenesisBlockData),
    Block(BlockData, Vec<String>),
}

/// What is handed on downstream: the genesis records seen, the blocks, and
/// the deleted account ids of those blocks, each in stream order.
pub struct Batch {
    pub genesis: Vec<GenesisBlockData>,
    pub blocks: Vec<BlockData>,
    pub deleted_account_ids: Vec<String>,
}

pub open spec fn genesis_part(item: StreamItem) -> Seq<GenesisBlockData> {
    match item {
        StreamItem::Genesis(g) => seq![g],
        StreamItem::Block(..) => Seq::empty(),
    }
}

pub open spec fn block_part(item: StreamItem) -> Seq<BlockData> {
    match item {
        StreamItem::Genesis(_) => Seq::empty(),
        StreamItem::Block(b, _) => seq![b],
    }
}

pub open spec fn deleted_part(item: StreamItem) -> Seq<String> {
    match item {
        StreamItem::Genesis(_) => Seq::empty(),
        StreamItem::Block(_, ids) => ids@,
    }
}

/// Buffers stream items until `size` of them are in, then hands them on as
/// one batch.
pub struct Batcher {
    size: usize,
    count: usize,
    genesis: Vec<GenesisBlockData>,
    blocks: Vec<BlockData>,
    deleted: Vec<String>,
}

impl Batcher {
    pub closed spec fn batch_size(self) -> nat {
        self.size as nat
    }

    /// How many items are buffered.
    pub closed spec fn pending(self) -> nat {
        self.count as nat
    }

    pub closed spec fn pending_genesis(self) -> Seq<GenesisBlockData> {
        self.genesis@
    }

    pub closed spec fn pending_blocks(self) -> Seq<BlockData> {
        self.blocks@
    }

    pub closed spec fn pending_deleted(self) -> Seq<String> {
        self.deleted@
    }

    pub closed spec fn wf(self) -> bool {
        &&& 1 <= self.size
        &&& self.count < self.size
        &&& self.count == self.genesis@.len() + self.blocks@.len()
    }

    /// An empty batcher handing on batches of `size` items.
    pub fn new(size: usize) -> (r: Batcher)
        requires
            1 <= size,
        ensures
            r.wf(),
            r.batch_size() == size,
            r.pending() == 0,
            r.pending_genesis() == Seq::<GenesisBlockData>::empty(),
            r.pending_blocks() == Seq::<BlockData>::empty(),
            r.pending_deleted() == Seq::<String>::empty(),
    {
        Batcher { size, count: 0, genesis: Vec::new(), blocks: Vec::new(), deleted: Vec::new() }
    }

    /// Buffers one item; when it makes the batch full, hands on everything
    /// buffered, in order, and starts over empty.
    pub fn push(&mut self, item: StreamItem) -> (r: Option<Batch>)
        requires
            old(self).wf(),
        ensures
            final(self).wf(),
            final(self).batch_size() == old(self).batch_size(),
            old(self).pending() + 1 < old(self).batch_size() ==> {
                &&& r is None
                &&& final(self).pending() == old(self).pending() + 1
                &&& final(self).pending_genesis() == old(self).pending_genesis() + genesis_part(item)
                &&& final(self).pending_blocks() == old(self).pending_blocks() + block_part(item)
                &&& final(self).pending_deleted() == old(self).pending_deleted() + deleted_part(item)
            },
            old(self).pending() + 1 == old(self).batch_size() ==> {
                &&& r is Some
                &&& r->0.genesis@ == old(self).pending_genesis() + genesis_part(item)
                &&& r->0.blocks@ == old(self).pending_blocks() + block_part(item)
                &&& r->0.deleted_account_ids@ == old(self).pending_deleted() + deleted_part(item)
                &&& final(self).pending() == 0
                &&& final(self).pending_genesis() == Seq::<GenesisBlockData>::empty()
                &&& final(self).pending_blocks() == Seq::<BlockData>::empty()
                &&& final(self).pending_deleted() == Seq::<String>::empty()
            },
    {
        match item {
            StreamItem::Genesis(g) => {
                self.genesis.push(g);
            },
            StreamItem::Block(b, ids) => {
                self.blocks.push(b);
                let mut ids = ids;
                self.deleted.append(&mut ids);
            },
        }
        self.count = self.count + 1;
        if self.count < self.size {
            None
        } else {
            let mut genesis: Vec<GenesisBlockData> = Vec::new();
            let mut blocks: Vec<BlockData> = Vec::new();
            let mut deleted: Vec<String> = Vec::new();
            std::mem::swap(&mut genesis, &mut self.genesis);
            std::mem::swap(&mut blocks, &mut self.blocks);
            std::mem::swap(&mut deleted, &mut self.deleted);
            self.count = 0;
            Some(Batch { genesis, blocks, deleted_account_ids: deleted })
        }
    }
}


pub open spec fn genesis_of(items: Seq<StreamItem>) -> Seq<GenesisBlockData> {
    flat_indexed(items, |it: StreamItem, k: nat| genesis_part(it))
}

pub open spec fn blocks_of(items: Seq<StreamItem>) -> Seq<BlockData> {
    flat_indexed(items, |it: StreamItem, k: nat| block_part(it))
}

pub open spec fn deleted_ids_of(items: Seq<StreamItem>) -> Seq<String> {
    flat_indexed(items, |it: StreamItem, k: nat| deleted_part(it))
}

/// `b` is the batch of the stream items `items`, each part in stream order.
pub open spec fn batch_of(b: Batch, items: Seq<StreamItem>) -> bool {
    &&& b.genesis@ == genesis_of(items)
    &&& b.blocks@ == blocks_of(items)
    &&& b.deleted_account_ids@ == deleted_ids_of(items)
}

/// The batches of a finite stream: one per `size` consecutive items, in
/// order; a final group of fewer than `size` items is not handed on.
pub fn prepare_data(items: Vec<StreamItem>, size: usize) -> (r: Vec<Batch>)
    requires
        1 <= size,
    ensures
        r@.len() * size <= items@.len() < (r@.len() + 1) * size,
        forall|j: int| 0 <= j < r@.len() ==>
            #[trigger] batch_of(r@[j], items@.subrange(j * size, (j + 1) * size)),
{
    let ghost all = items@;
    let n = items.len();
    let mut items = items;
    let mut rev: Vec<StreamItem> = Vec::new();
    while items.len() > 0
        invariant
            items@.len() + rev@.len() == n,
            n == all.len(),
            items@ == all.subrange(0, items@.len() as int),
            forall|k: int| 0 <= k < rev@.len() ==> #[trigger] rev@[k] == all[n - 1 - k],
        decreases items@.len(),
    {
        let ghost before = items@;
        let x = items.pop().unwrap();
        assert(x == all[items@.len() as int]);
        rev.push(x);
        assert(items@ =~= all.subrange(0, items@.len() as int));
    }
    let mut batcher = Batcher::new(size);
    let mut out: Vec<Batch> = Vec::new();
    let mut i: usize = 0;
    let ghost mut start: int = 0;
    assert(all.subrange(0, 0) =~= Seq::<StreamItem>::empty());
    assert(0 * size == 0) by (nonlinear_arith);
    while rev.len() > 0
        invariant
            n == all.len(),
            i + rev@.len() == n,
            forall|k: int| 0 <= k < rev@.len() ==> #[trigger] rev@[k] == all[n - 1 - k],
            batcher.wf(),
            batcher.batch_size() == size,
            1 <= size,
            start == out@.len() * size,
            start <= i,
            batcher.pending() == i - start,
            batcher.pending_genesis() == genesis_of(all.subrange(start, i as int)),
            batcher.pending_blocks() == blocks_of(all.subrange(start, i as int)),
            batcher.pending_deleted() == deleted_ids_of(all.subrange(start, i as int)),
            forall|j: int| 0 <= j < out@.len() ==>
                #[trigger] batch_of(out@[j], all.subrange(j * size, (j + 1) * size)),
        decreases rev@.len(),
    {
        let item = rev.pop().unwrap();
        assert(item == all[i as int]);
        let ghost sub = all.subrange(start, i + 1);
        assert(sub.drop_last() =~= all.subrange(start, i as int));
        assert(sub.last() == item);
        match batcher.push(item) {
            Some(b) => {
                proof {
                    assert((out@.len() + 1) * size == out@.len() * size + size) by (nonlinear_arith);
                }
                out.push(b);
                proof {
                    assert(batch_of(out@[out@.len() - 1], all.subrange((out@.len() - 1) * size, out@.len() * size)));
                    start = i + 1;
                    assert(all.subrange(start, start) =~= Seq::<StreamItem>::empty());
                }
            },
            None => {},
        }
        i = i + 1;
    }
    proof {
        assert(out@.len() * size <= n);
        assert(n < (out@.len() + 1) * size) by (nonlinear_arith)
            requires n - out@.len() * size < size;
    }
    out
}

} // verus!
