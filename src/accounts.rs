//! Account lifecycle events and account changes.

use vstd::prelude::*;
use vstd::string::StrSliceExecFns;
use crate::extract::{flat_indexed, lemma_flat_indexed_step};
use crate::message::{ActionView, ExecutionStatus, OutcomeWithReceipt, ReceiptBody, ReceiptView, StateChange};
use crate::records::{
    access_key_record, account_change_record, account_record, numbered_in_order, unnumber, unnumbered, AccessKey,
    Account, AccountChange,
};

verus! {

/// The length of an implicit account id: 64 hex characters.
pub const IMPLICIT_ACCOUNT_LEN: usize = 64;

pub open spec fn is_success(s: ExecutionStatus) -> bool {
    s is SuccessValue || s is SuccessReceiptId
}

/// The actions that a successful execution of an action receipt performed.
pub open spec fn performed_actions(o: OutcomeWithReceipt) -> Seq<ActionView> {
    if is_success(o.outcome.status) && o.receipt.receipt is Action {
        o.receipt.receipt->Action_actions@
    } else {
        Seq::empty()
    }
}

/// The account a performed action creates: an explicit creation, or a
/// transfer to an implicit (64-character) account id.
pub open spec fn created_accounts(r: ReceiptView, a: ActionView, height: u64) -> Seq<Account> {
    match a {
        ActionView::CreateAccount => seq![account_record(r.receiver_id, Some(r.receipt_id), height)],
        ActionView::Transfer { .. } => if r.receiver_id@.len() == IMPLICIT_ACCOUNT_LEN {
            seq![account_record(r.receiver_id, Some(r.receipt_id), height)]
        } else {
            Seq::empty()
        },
        _ => Seq::empty(),
    }
}

pub open spec fn deleted_accounts(r: ReceiptView, a: ActionView) -> Seq<String> {
    match a {
        ActionView::DeleteAccount { .. } => seq![r.receiver_id],
        _ => Seq::empty(),
    }
}

pub open spec fn added_keys(r: ReceiptView, a: ActionView, height: u64) -> Seq<AccessKey> {
    match a {
        ActionView::AddKey { public_key, access_key } =>
            seq![access_key_record(public_key, r.receiver_id, access_key.permission, Some(r.receipt_id), height)],
        _ => Seq::empty(),
    }
}

pub open spec fn outcome_accounts(o: OutcomeWithReceipt, height: u64) -> Seq<Account> {
    flat_indexed(performed_actions(o), |a: ActionView, k: nat| created_accounts(o.receipt, a, height))
}

pub open spec fn outcome_deleted(o: OutcomeWithReceipt) -> Seq<String> {
    flat_indexed(performed_actions(o), |a: ActionView, k: nat| deleted_accounts(o.receipt, a))
}

pub open spec fn outcome_keys(o: OutcomeWithReceipt, height: u64) -> Seq<AccessKey> {
    flat_indexed(performed_actions(o), |a: ActionView, k: nat| added_keys(o.receipt, a, height))
}

/// Accounts created by the outcomes, in order.
pub open spec fn accounts_of(outs: Seq<OutcomeWithReceipt>, height: u64) -> Seq<Account> {
    flat_indexed(outs, |o: OutcomeWithReceipt, k: nat| outcome_accounts(o, height))
}

/// Ids of the accounts deleted by the outcomes, in order.
pub open spec fn deleted_of(outs: Seq<OutcomeWithReceipt>) -> Seq<String> {
    flat_indexed(outs, |o: OutcomeWithReceipt, k: nat| outcome_deleted(o))
}

/// Access keys added by the outcomes, in order.
pub open spec fn keys_of(outs: Seq<OutcomeWithReceipt>, height: u64) -> Seq<AccessKey> {
    flat_indexed(outs, |o: OutcomeWithReceipt, k: nat| outcome_keys(o, height))
}

fn receipt_actions(o: &OutcomeWithReceipt) -> (r: &[ActionView])
    ensures
        r@ == performed_actions(*o),
{
    let success = match o.outcome.status {
        ExecutionStatus::SuccessValue => true,
        ExecutionStatus::SuccessReceiptId => true,
        _ => false,
    };
    match &o.receipt.receipt {
        ReceiptBody::Action { actions, .. } => if success {
            actions.as_slice()
        } else {
            &[]
        },
        ReceiptBody::Data { .. } => &[],
    }
}

/// Appends the accounts created, the account ids deleted and the access keys
/// added by the successful outcomes of a shard, in outcome and action order.
pub fn handle_accounts(
    outs: &Vec<OutcomeWithReceipt>,
    height: u64,
    accounts: &mut Vec<Account>,
    deleted: &mut Vec<String>,
    keys: &mut Vec<AccessKey>,
)
    ensures
        final(accounts)@ == old(accounts)@ + accounts_of(outs@, height),
        final(deleted)@ == old(deleted)@ + deleted_of(outs@),
        final(keys)@ == old(keys)@ + keys_of(outs@, height),
{
    let ghost fa = |o: OutcomeWithReceipt, k: nat| outcome_accounts(o, height);
    let ghost fd = |o: OutcomeWithReceipt, k: nat| outcome_deleted(o);
    let ghost fk = |o: OutcomeWithReceipt, k: nat| outcome_keys(o, height);
    let ghost a0 = accounts@;
    let ghost d0 = deleted@;
    let ghost k0 = keys@;
    assert(outs@.subrange(0, 0) =~= Seq::<OutcomeWithReceipt>::empty());
    assert(accounts@ =~= a0 + Seq::<Account>::empty());
    assert(deleted@ =~= d0 + Seq::<String>::empty());
    assert(keys@ =~= k0 + Seq::<AccessKey>::empty());
    let mut i: usize = 0;
    while i < outs.len()
        invariant
            i <= outs@.len(),
            fa == (|o: OutcomeWithReceipt, k: nat| outcome_accounts(o, height)),
            fd == (|o: OutcomeWithReceipt, k: nat| outcome_deleted(o)),
            fk == (|o: OutcomeWithReceipt, k: nat| outcome_keys(o, height)),
            accounts@ == a0 + flat_indexed(outs@.subrange(0, i as int), fa),
            deleted@ == d0 + flat_indexed(outs@.subrange(0, i as int), fd),
            keys@ == k0 + flat_indexed(outs@.subrange(0, i as int), fk),
        decreases outs@.len() - i,
    {
        let o = &outs[i];
        let r = &o.receipt;
        let acts = receipt_actions(o);
        let ghost ga = |a: ActionView, k: nat| created_accounts(o.receipt, a, height);
        let ghost gd = |a: ActionView, k: nat| deleted_accounts(o.receipt, a);
        let ghost gk = |a: ActionView, k: nat| added_keys(o.receipt, a, height);
        let ghost a1 = accounts@;
        let ghost d1 = deleted@;
        let ghost k1 = keys@;
        assert(acts@.subrange(0, 0) =~= Seq::<ActionView>::empty());
        assert(accounts@ =~= a1 + Seq::<Account>::empty());
        assert(deleted@ =~= d1 + Seq::<String>::empty());
        assert(keys@ =~= k1 + Seq::<AccessKey>::empty());
        let mut j: usize = 0;
        while j < acts.len()
            invariant
                j <= acts@.len(),
                i < outs@.len(),
                *o == outs@[i as int],
                *r == o.receipt,
                ga == (|a: ActionView, k: nat| created_accounts(o.receipt, a, height)),
                gd == (|a: ActionView, k: nat| deleted_accounts(o.receipt, a)),
                gk == (|a: ActionView, k: nat| added_keys(o.receipt, a, height)),
                accounts@ == a1 + flat_indexed(acts@.subrange(0, j as int), ga),
                deleted@ == d1 + flat_indexed(acts@.subrange(0, j as int), gd),
                keys@ == k1 + flat_indexed(acts@.subrange(0, j as int), gk),
            decreases acts@.len() - j,
        {
            proof {
                lemma_flat_indexed_step(acts@, ga, j as int);
                lemma_flat_indexed_step(acts@, gd, j as int);
                lemma_flat_indexed_step(acts@, gk, j as int);
            }
            match &acts[j] {
                ActionView::CreateAccount => {
                    accounts.push(Account::new(&r.receiver_id, Some(&r.receipt_id), height));
                },
                ActionView::Transfer { .. } => {
                    if r.receiver_id.as_str().unicode_len() == IMPLICIT_ACCOUNT_LEN {
                        accounts.push(Account::new(&r.receiver_id, Some(&r.receipt_id), height));
                    }
                },
                ActionView::DeleteAccount { .. } => {
                    deleted.push(r.receiver_id.clone());
                },
                ActionView::AddKey { public_key, access_key } => {
                    keys.push(AccessKey::new(public_key, &r.receiver_id, &access_key.permission, Some(&r.receipt_id), height));
                },
                _ => {},
            }
            assert(accounts@ =~= a1 + flat_indexed(acts@.subrange(0, j + 1), ga));
            assert(deleted@ =~= d1 + flat_indexed(acts@.subrange(0, j + 1), gd));
            assert(keys@ =~= k1 + flat_indexed(acts@.subrange(0, j + 1), gk));
            j = j + 1;
        }
        proof {
            assert(acts@.subrange(0, j as int) =~= acts@);
            lemma_flat_indexed_step(outs@, fa, i as int);
            lemma_flat_indexed_step(outs@, fd, i as int);
            lemma_flat_indexed_step(outs@, fk, i as int);
        }
        assert(accounts@ =~= a0 + flat_indexed(outs@.subrange(0, i + 1), fa));
        assert(deleted@ =~= d0 + flat_indexed(outs@.subrange(0, i + 1), fd));
        assert(keys@ =~= k0 + flat_indexed(outs@.subrange(0, i + 1), fk));
        i = i + 1;
    }
    assert(outs@.subrange(0, i as int) =~= outs@);
}

/// The account changes of a shard's state changes, in order, before they
/// are numbered within the block.
pub open spec fn account_changes_of(scs: Seq<StateChange>, block_hash: String, timestamp: u64) -> Seq<AccountChange> {
    flat_indexed(scs, |sc: StateChange, k: nat| match account_change_record(sc, block_hash, timestamp, 0) {
        Some(a) => seq![a],
        None => Seq::empty(),
    })
}

/// Appends the account changes of a shard's state changes, each numbered by
/// its position in `out`.
pub fn handle_state_changes(scs: &Vec<StateChange>, block_hash: &String, timestamp: u64, out: &mut Vec<AccountChange>)
    requires
        numbered_in_order(old(out)@),
    ensures
        numbered_in_order(final(out)@),
        final(out)@.map_values(unnumber()) == old(out)@.map_values(unnumber()) + account_changes_of(scs@, *block_hash, timestamp),
{
    let ghost f = |sc: StateChange, k: nat| match account_change_record(sc, *block_hash, timestamp, 0) {
        Some(a) => seq![a],
        None => Seq::empty(),
    };
    let ghost o0 = out@.map_values(unnumber());
    assert(scs@.subrange(0, 0) =~= Seq::<StateChange>::empty());
    assert(out@.map_values(unnumber()) =~= o0 + Seq::<AccountChange>::empty());
    let mut i: usize = 0;
    while i < scs.len()
        invariant
            i <= scs@.len(),
            f == (|sc: StateChange, k: nat| match account_change_record(sc, *block_hash, timestamp, 0) {
                Some(a) => seq![a],
                None => Seq::empty(),
            }),
            numbered_in_order(out@),
            out@.map_values(unnumber()) == o0 + flat_indexed(scs@.subrange(0, i as int), f),
        decreases scs@.len() - i,
    {
        proof { lemma_flat_indexed_step(scs@, f, i as int); }
        let ghost before = out@;
        match AccountChange::new(&scs[i], block_hash, timestamp, out.len() as u64) {
            Some(a) => {
                out.push(a);
                assert(out@.map_values(unnumber()) =~= before.map_values(unnumber()).push(unnumbered(a)));
            },
            None => {},
        }
        assert(out@.map_values(unnumber()) =~= o0 + flat_indexed(scs@.subrange(0, i + 1), f));
        i = i + 1;
    }
    assert(scs@.subrange(0, i as int) =~= scs@);
}

} // verus!
