//! What a batch is sent downstream as: up to three mutations, one per
//! non-empty payload.

use vstd::prelude::*;
use crate::batch::Batch;

verus! {

/// The mutation that adds genesis records.
pub struct AddGenesisBlockData;

/// The mutation that adds block records.
pub struct AddBlockData;

/// The mutation that marks accounts deleted.
pub struct DeleteAccounts;

impl AddGenesisBlockData {
    pub fn operation_name() -> (r: &'static str)
        ensures
            r == "AddGenesisBlockData",
    {
        "AddGenesisBlockData"
    }
}

impl AddBlockData {
    pub fn operation_name() -> (r: &'static str)
        ensures
            r == "AddBlockData",
    {
        "AddBlockData"
    }
}

impl DeleteAccounts {
    pub fn operation_name() -> (r: &'static str)
        ensures
            r == "DeleteAccounts",
    {
        "DeleteAccounts"
    }
}

/// One of the three downstream mutations.
#[derive(Clone, Copy, Debug, PartialEq, Eq)]
pub enum Mutation {
    AddGenesisBlockData,
    AddBlockData,
    DeleteAccounts,
}

/// The mutations a batch needs, in sending order: genesis records, block
/// records, deleted accounts; an empty payload is not sent.
pub open spec fn mutations_of(b: Batch) -> Seq<Mutation> {
    (if b.genesis@.len() > 0 { seq![Mutation::AddGenesisBlockData] } else { Seq::empty() })
        + (if b.blocks@.len() > 0 { seq![Mutation::AddBlockData] } else { Seq::empty() })
        + (if b.deleted_account_ids@.len() > 0 { seq![Mutation::DeleteAccounts] } else { Seq::empty() })
}

pub fn mutations(b: &Batch) -> (r: Vec<Mutation>)
    ensures
        r@ == mutations_of(*b),
{
    let mut r: Vec<Mutation> = Vec::new();
    if b.genesis.len() > 0 {
        r.push(Mutation::AddGenesisBlockData);
    }
    if b.blocks.len() > 0 {
        r.push(Mutation::AddBlockData);
    }
    if b.deleted_account_ids.len() > 0 {
        r.push(Mutation::DeleteAccounts);
    }
    assert(r@ =~= mutations_of(*b));
    r
}

} // verus!
