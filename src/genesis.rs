//! The genesis state: its accounts and access keys become the first records.

use vstd::prelude::*;
use crate::extract::{flat_indexed, lemma_flat_indexed_step};
use crate::message::StateRecord;
use crate::records::{access_key_record, account_record, AccessKey, Account, GenesisBlockData};

verus! {

pub open spec fn genesis_accounts(records: Seq<StateRecord>, height: u64) -> Seq<Account> {
    flat_indexed(records, |rec: StateRecord, k: nat| match rec {
        StateRecord::Account { account_id } => seq![account_record(account_id, None, height)],
        _ => Seq::empty(),
    })
}

pub open spec fn genesis_access_keys(records: Seq<StateRecord>, height: u64) -> Seq<AccessKey> {
    flat_indexed(records, |rec: StateRecord, k: nat| match rec {
        StateRecord::AccessKey { account_id, public_key, permission } =>
            seq![access_key_record(public_key, account_id, permission, None, height)],
        _ => Seq::empty(),
    })
}

/// The accounts and access keys of the genesis state records, in record
/// order, as of the genesis height; other kinds of record are skipped.
pub fn handle_genesis(genesis_height: u64, records: &Vec<StateRecord>) -> (r: GenesisBlockData)
    ensures
        r.accounts@ == genesis_accounts(records@, genesis_height),
        r.access_keys@ == genesis_access_keys(records@, genesis_height),
{
    let ghost fa = |rec: StateRecord, k: nat| match rec {
        StateRecord::Account { account_id } => seq![account_record(account_id, None, genesis_height)],
        _ => Seq::empty(),
    };
    let ghost fk = |rec: StateRecord, k: nat| match rec {
        StateRecord::AccessKey { account_id, public_key, permission } =>
            seq![access_key_record(public_key, account_id, permission, None, genesis_height)],
        _ => Seq::empty(),
    };
    let mut accounts: Vec<Account> = Vec::new();
    let mut access_keys: Vec<AccessKey> = Vec::new();
    assert(records@.subrange(0, 0) =~= Seq::<StateRecord>::empty());
    let mut i: usize = 0;
    while i < records.len()
        invariant
            i <= records@.len(),
            fa == (|rec: StateRecord, k: nat| match rec {
                StateRecord::Account { account_id } => seq![account_record(account_id, None, genesis_height)],
                _ => Seq::empty(),
            }),
            fk == (|rec: StateRecord, k: nat| match rec {
                StateRecord::AccessKey { account_id, public_key, permission } =>
                    seq![access_key_record(public_key, account_id, permission, None, genesis_height)],
                _ => Seq::empty(),
            }),
            accounts@ == flat_indexed(records@.subrange(0, i as int), fa),
            access_keys@ == flat_indexed(records@.subrange(0, i as int), fk),
        decreases records@.len() - i,
    {
        proof {
            lemma_flat_indexed_step(records@, fa, i as int);
            lemma_flat_indexed_step(records@, fk, i as int);
        }
        match &records[i] {
            StateRecord::Account { account_id } => {
                accounts.push(Account::new(account_id, None, genesis_height));
            },
            StateRecord::AccessKey { account_id, public_key, permission } => {
                access_keys.push(AccessKey::new(public_key, account_id, permission, None, genesis_height));
            },
            StateRecord::Other => {},
        }
        assert(accounts@ =~= flat_indexed(records@.subrange(0, i + 1), fa));
        assert(access_keys@ =~= flat_indexed(records@.subrange(0, i + 1), fk));
        i = i + 1;
    }
    assert(records@.subrange(0, i as int) =~= records@);
    GenesisBlockData { accounts, access_keys }
}

} // verus!
