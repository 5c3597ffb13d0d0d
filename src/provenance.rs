//! The provenance tracker: which transaction each receipt, and each awaited
//! data item, descends from, carried from block to block.

use vstd::prelude::*;

verus! {

/// How many blocks an entry of the receipt index outlives its last update.
pub const DEFAULT_MAX_AGE: u8 = 15;

struct ReceiptOrigin {
    receipt_id: String,
    tx_hash: String,
    age: u8,
}

struct DataOrigin {
    data_id: String,
    tx_hash: String,
}

spec fn receipts_wf(
    rs: Seq<ReceiptOrigin>,
    m: Map<Seq<char>, (Seq<char>, nat)>,
    known: Set<Seq<char>>,
    max_age: u8,
) -> bool {
    &&& forall|i: int, j: int| 0 <= i < j < rs.len() ==> rs[i].receipt_id@ != rs[j].receipt_id@
    &&& forall|i: int| 0 <= i < rs.len() ==> {
        let e = #[trigger] rs[i];
        &&& m.contains_key(e.receipt_id@)
        &&& m[e.receipt_id@] == (e.tx_hash@, e.age as nat)
        &&& e.age < max_age
    }
    &&& forall|k: Seq<char>| #[trigger] m.contains_key(k) ==>
        exists|i: int| 0 <= i < rs.len() && (#[trigger] rs[i]).receipt_id@ == k
    &&& forall|k: Seq<char>| #[trigger] m.contains_key(k) ==> known.contains(m[k].0)
}

spec fn data_wf(ds: Seq<DataOrigin>, m: Map<Seq<char>, Seq<char>>, known: Set<Seq<char>>) -> bool {
    &&& forall|i: int, j: int| 0 <= i < j < ds.len() ==> ds[i].data_id@ != ds[j].data_id@
    &&& forall|i: int| 0 <= i < ds.len() ==> {
        let e = #[trigger] ds[i];
        &&& m.contains_key(e.data_id@)
        &&& m[e.data_id@] == e.tx_hash@
    }
    &&& forall|k: Seq<char>| #[trigger] m.contains_key(k) ==>
        exists|i: int| 0 <= i < ds.len() && (#[trigger] ds[i]).data_id@ == k
    &&& forall|k: Seq<char>| #[trigger] m.contains_key(k) ==> known.contains(m[k])
}

/// The receipt index one block later: every age one higher, and the entries
/// that reach `max_age` gone.
pub open spec fn aged(m: Map<Seq<char>, (Seq<char>, nat)>, max_age: nat) -> Map<Seq<char>, (Seq<char>, nat)> {
    Map::new(|k: Seq<char>| m.contains_key(k) && m[k].1 + 1 < max_age, |k: Seq<char>| (m[k].0, m[k].1 + 1))
}

/// Maps receipt ids to the hash of the transaction they descend from (with
/// the number of blocks since the entry was last set), and data ids to the
/// transaction whose receipt will deliver them. Also counts the receipts
/// whose origin could not be found.
pub struct ProvenanceTracker {
    receipts: Vec<ReceiptOrigin>,
    data: Vec<DataOrigin>,
    misses: u64,
    max_age: u8,
    origin_map: Ghost<Map<Seq<char>, (Seq<char>, nat)>>,
    data_map: Ghost<Map<Seq<char>, Seq<char>>>,
    known: Ghost<Set<Seq<char>>>,
}

impl ProvenanceTracker {
    /// Receipt id to (transaction hash, age in blocks).
    pub closed spec fn origins(self) -> Map<Seq<char>, (Seq<char>, nat)> {
        self.origin_map@
    }

    /// Data id to transaction hash.
    pub closed spec fn data_origins(self) -> Map<Seq<char>, Seq<char>> {
        self.data_map@
    }

    /// The transaction hashes that have been seeded so far.
    pub closed spec fn known_transactions(self) -> Set<Seq<char>> {
        self.known@
    }

    pub closed spec fn miss_count(self) -> nat {
        self.misses as nat
    }

    pub closed spec fn age_limit(self) -> nat {
        self.max_age as nat
    }

    pub closed spec fn wf(self) -> bool {
        &&& 1 <= self.max_age
        &&& receipts_wf(self.receipts@, self.origin_map@, self.known@, self.max_age)
        &&& data_wf(self.data@, self.data_map@, self.known@)
    }

    /// An empty tracker whose receipt entries live `max_age` blocks.
    pub fn with_max_age(max_age: u8) -> (r: ProvenanceTracker)
        requires
            1 <= max_age,
        ensures
            r.wf(),
            r.origins() == Map::<Seq<char>, (Seq<char>, nat)>::empty(),
            r.data_origins() == Map::<Seq<char>, Seq<char>>::empty(),
            r.known_transactions() == Set::<Seq<char>>::empty(),
            r.miss_count() == 0,
            r.age_limit() == max_age,
    {
        ProvenanceTracker {
            receipts: Vec::new(),
            data: Vec::new(),
            misses: 0,
            max_age,
            origin_map: Ghost(Map::empty()),
            data_map: Ghost(Map::empty()),
            known: Ghost(Set::empty()),
        }
    }

    /// An empty tracker with the default entry lifetime.
    pub fn new() -> (r: ProvenanceTracker)
        ensures
            r.wf(),
            r.origins() == Map::<Seq<char>, (Seq<char>, nat)>::empty(),
            r.data_origins() == Map::<Seq<char>, Seq<char>>::empty(),
            r.known_transactions() == Set::<Seq<char>>::empty(),
            r.miss_count() == 0,
            r.age_limit() == DEFAULT_MAX_AGE,
    {
        ProvenanceTracker::with_max_age(DEFAULT_MAX_AGE)
    }

    /// Every origin the tracker holds is a transaction it has seen.
    pub proof fn lemma_origins_known(self)
        requires
            self.wf(),
        ensures
            forall|k: Seq<char>| #[trigger] self.origins().contains_key(k) ==>
                self.known_transactions().contains(self.origins()[k].0),
            forall|k: Seq<char>| #[trigger] self.data_origins().contains_key(k) ==>
                self.known_transactions().contains(self.data_origins()[k]),
            forall|k: Seq<char>| #[trigger] self.origins().contains_key(k) ==> self.origins()[k].1 < self.age_limit(),
    {
        assert forall|k: Seq<char>| #[trigger] self.origins().contains_key(k) implies self.origins()[k].1 < self.age_limit() by {
            let i = choose|i: int| 0 <= i < self.receipts@.len() && (#[trigger] self.receipts@[i]).receipt_id@ == k;
        }
    }

    pub proof fn lemma_miss_count_fits(self)
        ensures
            self.miss_count() <= u64::MAX,
    {
    }

    /// The number of receipts whose origin was not found.
    pub fn misses(&self) -> (r: u64)
        ensures
            r == self.miss_count(),
    {
        self.misses
    }

    /// The number of receipt entries held.
    pub fn len(&self) -> (r: usize)
        requires
            self.wf(),
        ensures
            r == self.origins().len(),
    {
        proof { self.lemma_origins_len(); }
        self.receipts.len()
    }

    proof fn lemma_origins_len(self)
        requires
            self.wf(),
        ensures
            self.origin_map@.dom().finite(),
            self.origin_map@.len() == self.receipts@.len(),
    {
        let keys = self.receipts@.map_values(|e: ReceiptOrigin| e.receipt_id@);
        assert(self.origin_map@.dom() =~= keys.to_set()) by {
            assert forall|k: Seq<char>| self.origin_map@.dom().contains(k) implies keys.to_set().contains(k) by {
                let i = choose|i: int| 0 <= i < self.receipts@.len() && (#[trigger] self.receipts@[i]).receipt_id@ == k;
                assert(keys[i] == k);
            }
            assert forall|k: Seq<char>| keys.to_set().contains(k) implies self.origin_map@.dom().contains(k) by {
                let i = choose|i: int| 0 <= i < keys.len() && keys[i] == k;
                assert(self.receipts@[i].receipt_id@ == k);
            }
        }
        assert(keys.no_duplicates()) by {
            assert forall|i: int, j: int| 0 <= i < keys.len() && 0 <= j < keys.len() && i != j implies keys[i] != keys[j] by {
                if i < j {
                    assert(self.receipts@[i].receipt_id@ != self.receipts@[j].receipt_id@);
                } else {
                    assert(self.receipts@[j].receipt_id@ != self.receipts@[i].receipt_id@);
                }
            }
        }
        keys.unique_seq_to_set();
    }

    fn find_receipt(&self, receipt_id: &String) -> (r: Option<usize>)
        requires
            self.wf(),
        ensures
            match r {
                Some(i) => i < self.receipts@.len() && self.receipts@[i as int].receipt_id@ == receipt_id@,
                None => !self.origin_map@.contains_key(receipt_id@),
            },
    {
        let mut i: usize = 0;
        while i < self.receipts.len()
            invariant
                self.wf(),
                i <= self.receipts@.len(),
                forall|k: int| 0 <= k < i ==> (#[trigger] self.receipts@[k]).receipt_id@ != receipt_id@,
            decreases self.receipts@.len() - i,
        {
            if self.receipts[i].receipt_id == *receipt_id {
                return Some(i);
            }
            i = i + 1;
        }
        None
    }

    fn find_data(&self, data_id: &String) -> (r: Option<usize>)
        requires
            self.wf(),
        ensures
            match r {
                Some(i) => i < self.data@.len() && self.data@[i as int].data_id@ == data_id@,
                None => !self.data_map@.contains_key(data_id@),
            },
    {
        let mut i: usize = 0;
        while i < self.data.len()
            invariant
                self.wf(),
                i <= self.data@.len(),
                forall|k: int| 0 <= k < i ==> (#[trigger] self.data@[k]).data_id@ != data_id@,
            decreases self.data@.len() - i,
        {
            if self.data[i].data_id == *data_id {
                return Some(i);
            }
            i = i + 1;
        }
        None
    }

    /// The transaction a receipt descends from, where it is known.
    pub fn origin_of(&self, receipt_id: &String) -> (r: Option<String>)
        requires
            self.wf(),
        ensures
            r is Some == self.origins().contains_key(receipt_id@),
            r is Some ==> r->0@ == self.origins()[receipt_id@].0,
            r is Some ==> self.known_transactions().contains(r->0@),
    {
        match self.find_receipt(receipt_id) {
            Some(i) => Some(self.receipts[i].tx_hash.clone()),
            None => None,
        }
    }

    /// Sets the origin of a receipt to a transaction already known, as fresh.
    pub fn set_origin(&mut self, receipt_id: &String, tx_hash: &String)
        requires
            old(self).wf(),
            old(self).known_transactions().contains(tx_hash@),
        ensures
            final(self).wf(),
            final(self).origins() == old(self).origins().insert(receipt_id@, (tx_hash@, 0nat)),
            final(self).data_origins() == old(self).data_origins(),
            final(self).known_transactions() == old(self).known_transactions(),
            final(self).miss_count() == old(self).miss_count(),
            final(self).age_limit() == old(self).age_limit(),
    {
        let entry = ReceiptOrigin { receipt_id: receipt_id.clone(), tx_hash: tx_hash.clone(), age: 0 };
        let ghost old_map = self.origin_map@;
        let idx: usize = match self.find_receipt(receipt_id) {
            Some(i) => {
                self.receipts.set(i, entry);
                i
            },
            None => {
                self.receipts.push(entry);
                self.receipts.len() - 1
            },
        };
        self.origin_map = Ghost(old_map.insert(receipt_id@, (tx_hash@, 0nat)));
        assert(self.receipts@[idx as int].receipt_id@ == receipt_id@);
        assert forall|i: int| 0 <= i < self.receipts@.len() && i != idx implies
            (#[trigger] self.receipts@[i]) == old(self).receipts@[i]
            && self.receipts@[i].receipt_id@ != receipt_id@ by {
            if idx < old(self).receipts@.len() {
                if i < idx {
                    assert(old(self).receipts@[i].receipt_id@ != old(self).receipts@[idx as int].receipt_id@);
                } else {
                    assert(old(self).receipts@[idx as int].receipt_id@ != old(self).receipts@[i].receipt_id@);
                }
            } else {
                assert(old_map.contains_key(old(self).receipts@[i].receipt_id@));
            }
        }
        assert forall|i: int, j: int| 0 <= i < j < self.receipts@.len() implies
            self.receipts@[i].receipt_id@ != self.receipts@[j].receipt_id@ by {
            if i != idx && j != idx {
                assert(old(self).receipts@[i].receipt_id@ != old(self).receipts@[j].receipt_id@);
            } else if i == idx {
                assert(self.receipts@[j] == old(self).receipts@[j]);
            } else {
                assert(self.receipts@[i] == old(self).receipts@[i]);
            }
        }
        assert forall|k: Seq<char>| #[trigger] self.origin_map@.contains_key(k) implies
            exists|i: int| 0 <= i < self.receipts@.len() && (#[trigger] self.receipts@[i]).receipt_id@ == k by {
            if k != receipt_id@ {
                let i = choose|i: int| 0 <= i < old(self).receipts@.len() && (#[trigger] old(self).receipts@[i]).receipt_id@ == k;
                assert(self.receipts@[i].receipt_id@ == k);
            }
        }
        assert forall|i: int| 0 <= i < self.receipts@.len() implies {
            let e = #[trigger] self.receipts@[i];
            &&& self.origin_map@.contains_key(e.receipt_id@)
            &&& self.origin_map@[e.receipt_id@] == (e.tx_hash@, e.age as nat)
            &&& e.age < self.max_age
        } by {
            if i != idx {
                assert(self.receipts@[i] == old(self).receipts@[i]);
            }
        }
        assert(1 <= self.max_age);
        assert(self.data@ == old(self).data@);
        assert(self.data_map@ == old(self).data_map@);
        assert(self.known@ == old(self).known@);
        assert forall|k: Seq<char>| #[trigger] self.origin_map@.contains_key(k) implies
            self.known@.contains(self.origin_map@[k].0) by {
            if k != receipt_id@ {
                assert(old_map.contains_key(k));
            }
        }
    }

    /// Records that a transaction was seen and that a receipt descends from it.
    pub fn seed(&mut self, receipt_id: &String, tx_hash: &String)
        requires
            old(self).wf(),
        ensures
            final(self).wf(),
            final(self).origins() == old(self).origins().insert(receipt_id@, (tx_hash@, 0nat)),
            final(self).data_origins() == old(self).data_origins(),
            final(self).known_transactions() == old(self).known_transactions().insert(tx_hash@),
            final(self).miss_count() == old(self).miss_count(),
            final(self).age_limit() == old(self).age_limit(),
    {
        self.known = Ghost(self.known@.insert(tx_hash@));
        assert(self.receipts@ == old(self).receipts@ && self.data@ == old(self).data@);
        assert(self.origin_map@ == old(self).origin_map@ && self.data_map@ == old(self).data_map@);
        assert(old(self).known@.subset_of(self.known@));
        self.set_origin(receipt_id, tx_hash);
    }
    /// Takes out the transaction that a data id was awaited for, if any.
    pub fn redeem_data(&mut self, data_id: &String) -> (r: Option<String>)
        requires
            old(self).wf(),
        ensures
            final(self).wf(),
            r is Some == old(self).data_origins().contains_key(data_id@),
            r is Some ==> r->0@ == old(self).data_origins()[data_id@],
            r is Some ==> old(self).known_transactions().contains(r->0@),
            final(self).data_origins() == old(self).data_origins().remove(data_id@),
            final(self).origins() == old(self).origins(),
            final(self).known_transactions() == old(self).known_transactions(),
            final(self).miss_count() == old(self).miss_count(),
            final(self).age_limit() == old(self).age_limit(),
    {
        match self.find_data(data_id) {
            None => {
                assert(self.data_map@.remove(data_id@) =~= self.data_map@);
                None
            },
            Some(i) => {
                let tx = self.data[i].tx_hash.clone();
                let ghost old_data = self.data@;
                let ghost old_map = self.data_map@;
                self.data.remove(i);
                self.data_map = Ghost(old_map.remove(data_id@));
                assert forall|k: int| 0 <= k < self.data@.len() implies
                    #[trigger] self.data@[k] == (if k < i { old_data[k] } else { old_data[k + 1] })
                    && self.data@[k].data_id@ != data_id@ by {
                    if k < i {
                        assert(old_data[k].data_id@ != old_data[i as int].data_id@);
                    } else {
                        assert(old_data[i as int].data_id@ != old_data[k + 1].data_id@);
                    }
                }
                assert forall|a: int, b: int| 0 <= a < b < self.data@.len() implies
                    self.data@[a].data_id@ != self.data@[b].data_id@ by {
                    let oa = if a < i { a } else { a + 1 };
                    let ob = if b < i { b } else { b + 1 };
                    assert(self.data@[a] == old_data[oa] && self.data@[b] == old_data[ob]);
                    assert(old_data[oa].data_id@ != old_data[ob].data_id@);
                }
                assert forall|k: Seq<char>| #[trigger] self.data_map@.contains_key(k) implies
                    exists|j: int| 0 <= j < self.data@.len() && (#[trigger] self.data@[j]).data_id@ == k by {
                    let j = choose|j: int| 0 <= j < old_data.len() && (#[trigger] old_data[j]).data_id@ == k;
                    assert(j != i);
                    let nj = if j < i { j } else { j - 1 };
                    assert(self.data@[nj] == old_data[j]);
                }
                assert(self.receipts@ == old(self).receipts@);
                assert(self.origin_map@ == old(self).origin_map@ && self.known@ == old(self).known@);
                Some(tx)
            },
        }
    }

    /// Records that a data id is awaited for a known transaction.
    pub fn register_data(&mut self, data_id: &String, tx_hash: &String)
        requires
            old(self).wf(),
            old(self).known_transactions().contains(tx_hash@),
        ensures
            final(self).wf(),
            final(self).data_origins() == old(self).data_origins().insert(data_id@, tx_hash@),
            final(self).origins() == old(self).origins(),
            final(self).known_transactions() == old(self).known_transactions(),
            final(self).miss_count() == old(self).miss_count(),
            final(self).age_limit() == old(self).age_limit(),
    {
        let entry = DataOrigin { data_id: data_id.clone(), tx_hash: tx_hash.clone() };
        let ghost old_map = self.data_map@;
        let idx: usize = match self.find_data(data_id) {
            Some(i) => {
                self.data.set(i, entry);
                i
            },
            None => {
                self.data.push(entry);
                self.data.len() - 1
            },
        };
        self.data_map = Ghost(old_map.insert(data_id@, tx_hash@));
        assert(self.data@[idx as int].data_id@ == data_id@);
        assert forall|i: int| 0 <= i < self.data@.len() && i != idx implies
            (#[trigger] self.data@[i]) == old(self).data@[i]
            && self.data@[i].data_id@ != data_id@ by {
            if idx < old(self).data@.len() {
                if i < idx {
                    assert(old(self).data@[i].data_id@ != old(self).data@[idx as int].data_id@);
                } else {
                    assert(old(self).data@[idx as int].data_id@ != old(self).data@[i].data_id@);
                }
            } else {
                assert(old_map.contains_key(old(self).data@[i].data_id@));
            }
        }
        assert forall|i: int, j: int| 0 <= i < j < self.data@.len() implies
            self.data@[i].data_id@ != self.data@[j].data_id@ by {
            if i != idx && j != idx {
                assert(old(self).data@[i].data_id@ != old(self).data@[j].data_id@);
            } else if i == idx {
                assert(self.data@[j] == old(self).data@[j]);
            } else {
                assert(self.data@[i] == old(self).data@[i]);
            }
        }
        assert forall|k: Seq<char>| #[trigger] self.data_map@.contains_key(k) implies
            exists|i: int| 0 <= i < self.data@.len() && (#[trigger] self.data@[i]).data_id@ == k by {
            if k != data_id@ {
                let i = choose|i: int| 0 <= i < old(self).data@.len() && (#[trigger] old(self).data@[i]).data_id@ == k;
                assert(self.data@[i].data_id@ == k);
            }
        }
        assert forall|i: int| 0 <= i < self.data@.len() implies {
            let e = #[trigger] self.data@[i];
            &&& self.data_map@.contains_key(e.data_id@)
            &&& self.data_map@[e.data_id@] == e.tx_hash@
        } by {
            if i != idx {
                assert(self.data@[i] == old(self).data@[i]);
            }
        }
        assert forall|k: Seq<char>| #[trigger] self.data_map@.contains_key(k) implies
            self.known@.contains(self.data_map@[k]) by {
            if k != data_id@ {
                assert(old_map.contains_key(k));
            }
        }
        assert(self.receipts@ == old(self).receipts@);
        assert(self.origin_map@ == old(self).origin_map@ && self.known@ == old(self).known@);
    }

    /// Counts one more receipt whose origin was not found (saturating).
    pub fn note_miss(&mut self)
        requires
            old(self).wf(),
        ensures
            final(self).wf(),
            final(self).miss_count() == if old(self).miss_count() < u64::MAX {
                old(self).miss_count() + 1
            } else {
                old(self).miss_count()
            },
            final(self).origins() == old(self).origins(),
            final(self).data_origins() == old(self).data_origins(),
            final(self).known_transactions() == old(self).known_transactions(),
            final(self).age_limit() == old(self).age_limit(),
    {
        if self.misses < u64::MAX {
            self.misses = self.misses + 1;
        }
    }
    /// One block later: every receipt entry grows one block older, and those
    /// that reach the age limit are dropped.
    pub fn age_receipts(&mut self)
        requires
            old(self).wf(),
        ensures
            final(self).wf(),
            final(self).origins() == aged(old(self).origins(), old(self).age_limit()),
            final(self).data_origins() == old(self).data_origins(),
            final(self).known_transactions() == old(self).known_transactions(),
            final(self).miss_count() == old(self).miss_count(),
            final(self).age_limit() == old(self).age_limit(),
    {
        let mut rs: Vec<ReceiptOrigin> = Vec::new();
        std::mem::swap(&mut rs, &mut self.receipts);
        let ghost m = self.origin_map@;
        let mut out: Vec<ReceiptOrigin> = Vec::new();
        let mut i: usize = 0;
        while i < rs.len()
            invariant
                i <= rs@.len(),
                1 <= self.max_age,
                receipts_wf(rs@, m, self.known@, self.max_age),
                forall|a: int, b: int| 0 <= a < b < out@.len() ==> out@[a].receipt_id@ != out@[b].receipt_id@,
                forall|j: int| 0 <= j < out@.len() ==> exists|k: int| 0 <= k < i && {
                    &&& (#[trigger] rs@[k]).receipt_id@ == (#[trigger] out@[j]).receipt_id@
                    &&& rs@[k].tx_hash@ == out@[j].tx_hash@
                    &&& out@[j].age == rs@[k].age + 1
                    &&& out@[j].age < self.max_age
                },
                forall|k: int| 0 <= k < i && (#[trigger] rs@[k]).age + 1 < self.max_age ==>
                    exists|j: int| 0 <= j < out@.len() && (#[trigger] out@[j]).receipt_id@ == rs@[k].receipt_id@,
            decreases rs@.len() - i,
        {
            let e = &rs[i];
            if e.age + 1 < self.max_age {
                let ghost before = out@;
                out.push(ReceiptOrigin { receipt_id: e.receipt_id.clone(), tx_hash: e.tx_hash.clone(), age: e.age + 1 });
                assert forall|j: int| 0 <= j < before.len() implies out@[j].receipt_id@ != rs@[i as int].receipt_id@ by {
                    assert(out@[j] == before[j]);
                    let k = choose|k: int| 0 <= k < i && {
                        &&& (#[trigger] rs@[k]).receipt_id@ == (#[trigger] before[j]).receipt_id@
                        &&& rs@[k].tx_hash@ == before[j].tx_hash@
                        &&& before[j].age == rs@[k].age + 1
                        &&& before[j].age < self.max_age
                    };
                    assert(rs@[k].receipt_id@ != rs@[i as int].receipt_id@);
                }
                assert forall|j: int| 0 <= j < out@.len() implies exists|k: int| 0 <= k < i + 1 && {
                    &&& (#[trigger] rs@[k]).receipt_id@ == (#[trigger] out@[j]).receipt_id@
                    &&& rs@[k].tx_hash@ == out@[j].tx_hash@
                    &&& out@[j].age == rs@[k].age + 1
                    &&& out@[j].age < self.max_age
                } by {
                    if j == before.len() {
                        assert(rs@[i as int].receipt_id@ == out@[j].receipt_id@);
                    } else {
                        assert(out@[j] == before[j]);
                    }
                }
                assert forall|k: int| 0 <= k < i + 1 && (#[trigger] rs@[k]).age + 1 < self.max_age implies
                    exists|j: int| 0 <= j < out@.len() && (#[trigger] out@[j]).receipt_id@ == rs@[k].receipt_id@ by {
                    if k == i {
                        assert(out@[before.len() as int].receipt_id@ == rs@[k].receipt_id@);
                    } else {
                        let j = choose|j: int| 0 <= j < before.len() && (#[trigger] before[j]).receipt_id@ == rs@[k].receipt_id@;
                        assert(out@[j] == before[j]);
                    }
                }
            }
            i = i + 1;
        }
        let ghost nm = aged(m, self.max_age as nat);
        assert forall|j: int| 0 <= j < out@.len() implies {
            let e = #[trigger] out@[j];
            &&& nm.contains_key(e.receipt_id@)
            &&& nm[e.receipt_id@] == (e.tx_hash@, e.age as nat)
            &&& e.age < self.max_age
        } by {
            let k = choose|k: int| 0 <= k < rs@.len() && {
                &&& (#[trigger] rs@[k]).receipt_id@ == (#[trigger] out@[j]).receipt_id@
                &&& rs@[k].tx_hash@ == out@[j].tx_hash@
                &&& out@[j].age == rs@[k].age + 1
                &&& out@[j].age < self.max_age
            };
            assert(m.contains_key(rs@[k].receipt_id@));
        }
        assert forall|key: Seq<char>| #[trigger] nm.contains_key(key) implies
            exists|j: int| 0 <= j < out@.len() && (#[trigger] out@[j]).receipt_id@ == key by {
            let k = choose|k: int| 0 <= k < rs@.len() && (#[trigger] rs@[k]).receipt_id@ == key;
            assert(rs@[k].age + 1 < self.max_age);
        }
        assert forall|key: Seq<char>| #[trigger] nm.contains_key(key) implies self.known@.contains(nm[key].0) by {
            assert(m.contains_key(key));
        }
        self.receipts = out;
        self.origin_map = Ghost(nm);
    }
}

} // verus!
