//! What holds of every ledger.
//!
//! Each proof function here states a law of [`LedgerView::step`], the function
//! that `PaymentEngine::process` computes on the engine's view.

use crate::error::ErrorView;
use crate::model::{AccountView, LedgerView};
use crate::transaction::{RecordView, TransactionType};
use vstd::prelude::*;

verus! {

/// Whether the record is a dispute, a resolve or a chargeback: the kinds
/// that refer to an earlier deposit.
pub open spec fn refers_to_deposit(tx: RecordView) -> bool {
    tx.tx_type == TransactionType::Dispute || tx.tx_type == TransactionType::Resolve
        || tx.tx_type == TransactionType::Chargeback
}

/// Whether the record is a withdrawal of a positive amount by a client that
/// has no account yet: the one rejection that leaves a trace, the new account.
pub open spec fn opens_account_by_withdrawal(ledger: LedgerView, tx: RecordView) -> bool {
    &&& tx.tx_type == TransactionType::Withdrawal
    &&& tx.amount matches Some(amount)
    &&& amount > 0
    &&& !ledger.accounts.contains_key(tx.client)
}

/// A step keeps a valid ledger valid.
pub proof fn law_step_keeps_valid(ledger: LedgerView, tx: RecordView)
    requires
        ledger.valid(),
    ensures
        ledger.step(tx).0.valid(),
{
}

/// A run keeps a valid ledger valid.
pub proof fn law_run_keeps_valid(ledger: LedgerView, txs: Seq<RecordView>)
    requires
        ledger.valid(),
    ensures
        ledger.run(txs).valid(),
    decreases txs.len(),
{
    if txs.len() > 0 {
        law_run_keeps_valid(ledger, txs.drop_last());
        law_step_keeps_valid(ledger.run(txs.drop_last()), txs.last());
    }
}

/// No step removes an account or a deposit record, and a deposit record keeps
/// its client and its amount: only its dispute flag ever changes.
pub proof fn law_records_are_permanent(ledger: LedgerView, tx: RecordView, client: u16, id: u32)
    ensures
        ledger.accounts.contains_key(client) ==> ledger.step(tx).0.accounts.contains_key(client),
        ledger.deposits.contains_key(id) ==> {
            &&& ledger.step(tx).0.deposits.contains_key(id)
            &&& ledger.step(tx).0.deposits[id].client == ledger.deposits[id].client
            &&& ledger.step(tx).0.deposits[id].amount == ledger.deposits[id].amount
        },
{
}

/// A step touches no account but that of the record's client.
pub proof fn law_step_touches_one_account(ledger: LedgerView, tx: RecordView, other: u16)
    requires
        other != tx.client,
    ensures
        ledger.step(tx).0.accounts.contains_key(other) == ledger.accounts.contains_key(other),
        ledger.step(tx).0.accounts[other] == ledger.accounts[other],
{
}

/// A dispute and a resolve move funds between available and held: the total
/// of the account stays what it was.
pub proof fn law_dispute_and_resolve_keep_total(ledger: LedgerView, tx: RecordView)
    requires
        tx.tx_type == TransactionType::Dispute || tx.tx_type == TransactionType::Resolve,
    ensures
        ledger.step(tx).0.accounts[tx.client].total() == ledger.accounts[tx.client].total(),
{
}

/// A dispute, resolve or chargeback is accepted only if it names a deposit
/// of the record's own client.
pub proof fn law_reference_needs_owner(ledger: LedgerView, tx: RecordView)
    requires
        refers_to_deposit(tx),
        ledger.step(tx).1 is Ok,
    ensures
        ledger.owns_deposit(tx.client, tx.tx),
{
}

/// A dispute, resolve or chargeback that names a deposit of another client
/// is rejected as not found, and changes nothing. (The record's own client
/// must not be locked: a locked account rejects with `AccountFrozen` first.)
pub proof fn law_foreign_reference_not_found(ledger: LedgerView, tx: RecordView)
    requires
        refers_to_deposit(tx),
        !ledger.owns_deposit(tx.client, tx.tx),
        !ledger.is_frozen(tx.client),
    ensures
        ledger.step(tx) == (ledger, Err::<(), ErrorView>(ErrorView::TransactionNotFound(tx.tx))),
{
}

/// After an accepted deposit, a second deposit under the same transaction id
/// is rejected as a duplicate and leaves the ledger as the first left it,
/// whatever its amount and its client. (The second must carry a positive
/// amount and its client must not be locked: those checks come first.)
pub proof fn law_duplicate_deposit_rejected(
    ledger: LedgerView,
    first: RecordView,
    second: RecordView,
)
    requires
        first.tx_type == TransactionType::Deposit,
        second.tx_type == TransactionType::Deposit,
        second.tx == first.tx,
        ledger.step(first).1 is Ok,
        second.amount is Some,
        second.amount.unwrap() > 0,
        !ledger.step(first).0.is_frozen(second.client),
    ensures
        ledger.step(first).0.step(second) == (
            ledger.step(first).0,
            Err::<(), ErrorView>(ErrorView::DuplicateTransaction(second.tx)),
        ),
{
}

/// A second deposit under a transaction id that already names a deposit
/// never changes the ledger, whatever it is rejected for.
pub proof fn law_second_deposit_changes_nothing(ledger: LedgerView, second: RecordView)
    requires
        second.tx_type == TransactionType::Deposit,
        ledger.deposits.contains_key(second.tx),
    ensures
        ledger.step(second).0 == ledger,
        ledger.step(second).1 is Err,
{
}

/// A rejected transaction leaves the ledger as it was. (The one exception is
/// left out: a withdrawal of a positive amount by a client without an
/// account is rejected for want of funds and still creates the account.)
pub proof fn law_rejection_changes_nothing(ledger: LedgerView, tx: RecordView)
    requires
        ledger.step(tx).1 is Err,
        !opens_account_by_withdrawal(ledger, tx),
    ensures
        ledger.step(tx).0 == ledger,
{
    if tx.tx_type == TransactionType::Withdrawal && !ledger.is_frozen(tx.client) {
        if tx.amount matches Some(amount) && amount > 0 {
            assert(ledger.accounts.insert(tx.client, ledger.accounts[tx.client])
                =~= ledger.accounts);
        }
    }
}

/// A withdrawal that opens an account leaves every balance as it was: the
/// ledger differs by that one empty account.
pub proof fn law_rejected_withdrawal_opens_empty_account(ledger: LedgerView, tx: RecordView)
    requires
        opens_account_by_withdrawal(ledger, tx),
    ensures
        ledger.step(tx).1 == Err::<(), ErrorView>(
            ErrorView::InsufficientFunds(tx.client, tx.amount.unwrap(), 0),
        ),
        ledger.step(tx).0 == ledger.with_account(tx.client, AccountView::empty(tx.client)),
{
}

/// Rejection is idempotent: a rejected transaction, offered again any number
/// of times, is rejected with the same error and the ledger stays as the first
/// rejection left it.
pub proof fn law_rejection_is_idempotent(ledger: LedgerView, tx: RecordView, times: nat)
    requires
        ledger.step(tx).1 is Err,
    ensures
        ledger.step(tx).0.run(Seq::new(times, |i: int| tx)) == ledger.step(tx).0,
        ledger.step(tx).0.step(tx) == ledger.step(tx),
    decreases times,
{
    let after = ledger.step(tx).0;
    assert(after.step(tx) == ledger.step(tx)) by {
        if tx.tx_type == TransactionType::Withdrawal && !ledger.is_frozen(tx.client) {
            if tx.amount matches Some(amount) && amount > 0 {
                assert(after.accounts.insert(tx.client, after.accounts[tx.client])
                    =~= after.accounts);
            }
        }
    }
    let repeated = Seq::new(times, |i: int| tx);
    if times > 0 {
        law_rejection_is_idempotent(ledger, tx, (times - 1) as nat);
        assert(repeated.drop_last() =~= Seq::new((times - 1) as nat, |i: int| tx));
        assert(repeated.last() == tx);
    }
}

/// Dispute, resolve, dispute on one deposit: each is accepted, the resolve
/// gives back the ledger as it was before the first dispute, and the second
/// dispute gives the ledger that the first gave. After a dispute the
/// deposit's amount has moved from available to held.
pub proof fn law_redispute_after_resolve(
    ledger: LedgerView,
    dispute: RecordView,
    resolve: RecordView,
    again: RecordView,
)
    requires
        ledger.valid(),
        dispute.tx_type == TransactionType::Dispute,
        resolve.tx_type == TransactionType::Resolve,
        again.tx_type == TransactionType::Dispute,
        resolve.client == dispute.client && again.client == dispute.client,
        resolve.tx == dispute.tx && again.tx == dispute.tx,
        ledger.owns_deposit(dispute.client, dispute.tx),
        !ledger.deposits[dispute.tx].disputed,
        !ledger.is_frozen(dispute.client),
    ensures
        ledger.step(dispute).1 is Ok,
        ledger.step(dispute).0.step(resolve).1 is Ok,
        ledger.step(dispute).0.step(resolve).0.step(again).1 is Ok,
        ledger.step(dispute).0.accounts[dispute.client].available
            == ledger.accounts[dispute.client].available - ledger.deposits[dispute.tx].amount,
        ledger.step(dispute).0.accounts[dispute.client].held
            == ledger.accounts[dispute.client].held + ledger.deposits[dispute.tx].amount,
        ledger.step(dispute).0.step(resolve).0 == ledger,
        ledger.step(dispute).0.step(resolve).0.step(again).0 == ledger.step(dispute).0,
{
    let disputed = ledger.step(dispute).0;
    let resolved = disputed.step(resolve).0;
    assert(resolved.accounts =~= ledger.accounts);
    assert(resolved.deposits =~= ledger.deposits);
}

/// An accepted chargeback locks the account of its client and takes the
/// deposit's amount out of held, leaving available as it was.
pub proof fn law_chargeback_locks(ledger: LedgerView, tx: RecordView)
    requires
        tx.tx_type == TransactionType::Chargeback,
        ledger.step(tx).1 is Ok,
    ensures
        ledger.step(tx).0.is_frozen(tx.client),
        ledger.step(tx).0.accounts[tx.client].available == ledger.accounts[tx.client].available,
        ledger.step(tx).0.accounts[tx.client].held == ledger.accounts[tx.client].held
            - ledger.deposits[tx.tx].amount,
{
}

/// A locked account rejects every transaction of its client, of any kind,
/// and the ledger stays as it was.
pub proof fn law_frozen_rejects_all(ledger: LedgerView, tx: RecordView)
    requires
        ledger.is_frozen(tx.client),
    ensures
        ledger.step(tx) == (ledger, Err::<(), ErrorView>(ErrorView::AccountFrozen(tx.client))),
{
}

/// A lock is for good: whatever transactions follow, of whatever clients,
/// a locked account stays locked and keeps its balances.
pub proof fn law_lock_is_permanent(ledger: LedgerView, txs: Seq<RecordView>, client: u16)
    requires
        ledger.is_frozen(client),
    ensures
        ledger.run(txs).is_frozen(client),
        ledger.run(txs).accounts[client] == ledger.accounts[client],
    decreases txs.len(),
{
    if txs.len() > 0 {
        law_lock_is_permanent(ledger, txs.drop_last(), client);
    }
}

/// After an accepted chargeback, and whatever transactions follow it, every
/// transaction of that client is rejected with `AccountFrozen` and the
/// client's balances are those that the chargeback left.
pub proof fn law_chargeback_is_final(
    ledger: LedgerView,
    chargeback: RecordView,
    later: Seq<RecordView>,
    tx: RecordView,
)
    requires
        chargeback.tx_type == TransactionType::Chargeback,
        ledger.step(chargeback).1 is Ok,
        tx.client == chargeback.client,
    ensures
        ({
            let charged = ledger.step(chargeback).0;
            let reached = charged.run(later);
            &&& reached.step(tx) == (
                reached,
                Err::<(), ErrorView>(ErrorView::AccountFrozen(tx.client)),
            )
            &&& reached.accounts[tx.client] == charged.accounts[tx.client]
        }),
{
    let charged = ledger.step(chargeback).0;
    law_chargeback_locks(ledger, chargeback);
    law_lock_is_permanent(charged, later, tx.client);
    law_frozen_rejects_all(charged.run(later), tx);
}

/// Only an accepted deposit adds a deposit record, under its own transaction
/// id; every other transaction, a withdrawal among them, leaves the set of
/// recorded ids as it was.
pub proof fn law_only_deposits_add_records(ledger: LedgerView, tx: RecordView)
    ensures
        ledger.step(tx).0.deposits.dom() == if tx.tx_type == TransactionType::Deposit
            && ledger.step(tx).1 is Ok {
            ledger.deposits.dom().insert(tx.tx)
        } else {
            ledger.deposits.dom()
        },
        tx.tx_type == TransactionType::Deposit && ledger.step(tx).1 is Ok
            ==> !ledger.deposits.contains_key(tx.tx),
{
    let after = ledger.step(tx).0;
    if tx.tx_type == TransactionType::Deposit && ledger.step(tx).1 is Ok {
        assert(after.deposits.dom() =~= ledger.deposits.dom().insert(tx.tx));
    } else {
        assert(after.deposits.dom() =~= ledger.deposits.dom());
    }
}

/// Across a run a deposit record stays, with its client and its amount.
pub proof fn law_run_keeps_records(ledger: LedgerView, txs: Seq<RecordView>, id: u32)
    requires
        ledger.deposits.contains_key(id),
    ensures
        ledger.run(txs).deposits.contains_key(id),
        ledger.run(txs).deposits[id].client == ledger.deposits[id].client,
        ledger.run(txs).deposits[id].amount == ledger.deposits[id].amount,
    decreases txs.len(),
{
    if txs.len() > 0 {
        law_run_keeps_records(ledger, txs.drop_last(), id);
        law_records_are_permanent(ledger.run(txs.drop_last()), txs.last(), 0, id);
    }
}

/// A charged-back deposit is at its end: whatever transactions follow the
/// chargeback, no dispute, resolve or chargeback that names the deposit is
/// accepted again, from any client.
pub proof fn law_charged_back_is_terminal(
    ledger: LedgerView,
    chargeback: RecordView,
    later: Seq<RecordView>,
    tx: RecordView,
)
    requires
        chargeback.tx_type == TransactionType::Chargeback,
        ledger.step(chargeback).1 is Ok,
        refers_to_deposit(tx),
        tx.tx == chargeback.tx,
    ensures
        ledger.step(chargeback).0.run(later).step(tx).1 is Err,
{
    let charged = ledger.step(chargeback).0;
    law_chargeback_locks(ledger, chargeback);
    law_lock_is_permanent(charged, later, chargeback.client);
    law_run_keeps_records(charged, later, chargeback.tx);
}

} // verus!
