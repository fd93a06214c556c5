//! The transaction engine.
//!
//! A [`PaymentEngine`] owns two tables: accounts by client id and deposit
//! records by transaction id. Its view is the [`LedgerView`] of the two, and
//! [`PaymentEngine::process`] is [`LedgerView::step`] on that view.

use crate::account::Account;
use crate::amount::{pow10, Amount};
use crate::error::{error_views, outcome_view, PaymentError};
use crate::model::{DepositView, LedgerView};
use crate::transaction::{RecordView, TransactionRecord, TransactionType};
use std::collections::HashMap;
use vstd::pervasive::unreached;
use vstd::prelude::*;
use vstd::std_specs::hash::*;

verus! {

/// What the engine keeps of an accepted deposit.
#[derive(Clone, Copy, Debug)]
pub struct StoredDeposit {
    pub client: u16,
    pub amount: Amount,
    pub disputed: bool,
}

impl View for StoredDeposit {
    type V = DepositView;

    open spec fn view(&self) -> DepositView {
        DepositView { client: self.client, amount: self.amount@, disputed: self.disputed }
    }
}

/// The views of a sequence of records.
pub open spec fn record_views(records: Seq<TransactionRecord>) -> Seq<RecordView> {
    records.map_values(|r: TransactionRecord| r@)
}

/// What `process_all` did: how many records it went through, and the
/// rejections among them, in order.
#[derive(Debug)]
pub struct Replay {
    pub processed: usize,
    pub rejected: Vec<PaymentError>,
}

/// Accounts and deposit records, and the rules that change them.
pub struct PaymentEngine {
    accounts: HashMap<u16, Account>,
    deposits: HashMap<u32, StoredDeposit>,
}

impl View for PaymentEngine {
    type V = LedgerView;

    open spec fn view(&self) -> LedgerView {
        LedgerView {
            accounts: self.accounts_map().map_values(|a: Account| a@),
            deposits: self.deposits_map().map_values(|d: StoredDeposit| d@),
        }
    }
}

impl Default for PaymentEngine {
    /// An engine with no account and no deposit record.
    fn default() -> (engine: PaymentEngine)
        ensures
            engine.wf(),
            engine@ == LedgerView::empty(),
    {
        PaymentEngine::new()
    }
}

impl PaymentEngine {
    /// The accounts as they are stored.
    pub closed spec fn accounts_map(&self) -> Map<u16, Account> {
        self.accounts@
    }

    /// The deposit records as they are stored.
    pub closed spec fn deposits_map(&self) -> Map<u32, StoredDeposit> {
        self.deposits@
    }

    /// The engine's invariant: its ledger is valid.
    pub open spec fn wf(&self) -> bool {
        self@.valid()
    }

    /// The client's account as stored, or the new account that a first
    /// deposit or withdrawal would create.
    pub open spec fn balances(&self, client: u16) -> Account {
        if self.accounts_map().contains_key(client) {
            self.accounts_map()[client]
        } else {
            Account::new(client)
        }
    }

    /// Whether the arithmetic that `tx` calls for stays within what an
    /// `Amount` can hold. A transaction that the rules reject is always in
    /// range: it calls for none.
    pub open spec fn in_range(&self, tx: TransactionRecord) -> bool {
        let account = self.balances(tx.client);
        let stored = self.deposits_map()[tx.tx].amount;
        self@.step(tx@).1 is Ok ==> match tx.tx_type {
            TransactionType::Deposit => account.available.sum_fits(tx.amount.unwrap()),
            TransactionType::Withdrawal => account.available.difference_fits(tx.amount.unwrap()),
            TransactionType::Dispute => account.available.difference_fits(stored)
                && account.held.sum_fits(stored),
            TransactionType::Resolve => account.held.difference_fits(stored)
                && account.available.sum_fits(stored),
            TransactionType::Chargeback => account.held.difference_fits(stored),
        }
    }

    /// Whether nothing but the account of `client` and the record of deposit
    /// `tx` differs between `before` and `self`.
    pub open spec fn differs_only_at(&self, before: &PaymentEngine, client: u16, tx: u32) -> bool {
        &&& self.accounts_map().remove(client) == before.accounts_map().remove(client)
        &&& self.deposits_map().remove(tx) == before.deposits_map().remove(tx)
    }

    /// Whether `self` holds every account and every deposit record of
    /// `before` as it was, and no other deposit record. This is what a
    /// rejection leaves: nothing changed, but for the empty account that a
    /// withdrawal opens for a client that had none.
    pub open spec fn keeps(&self, before: &PaymentEngine) -> bool {
        &&& self.deposits_map() == before.deposits_map()
        &&& before.accounts_map().submap_of(self.accounts_map())
    }

    /// Whether `list` holds every stored account once, by ascending client id.
    pub open spec fn lists(&self, list: Seq<Account>) -> bool {
        &&& forall|i: int, j: int| 0 <= i < j < list.len() ==> list[i].client < list[j].client
        &&& forall|i: int|
            0 <= i < list.len() ==> self.accounts_map().contains_key(#[trigger] list[i].client)
                && self.accounts_map()[list[i].client] == list[i]
        &&& forall|c: u16|
            self.accounts_map().contains_key(c) ==> exists|i: int|
                0 <= i < list.len() && #[trigger] list[i].client == c
    }

    /// What `try_process` promises of the engine `after` it and of its result.
    pub open spec fn steps_to(
        &self,
        after: &PaymentEngine,
        tx: TransactionRecord,
        r: Option<Result<(), PaymentError>>,
    ) -> bool {
        match r {
            None => {
                &&& !self.in_range(tx)
                &&& after.accounts_map() == self.accounts_map()
                &&& after.deposits_map() == self.deposits_map()
            },
            Some(outcome) => {
                &&& self.in_range(tx)
                &&& after@ == self@.step(tx@).0
                &&& outcome_view(outcome) == self@.step(tx@).1
                &&& after.differs_only_at(self, tx.client, tx.tx)
                &&& outcome is Err ==> after.keeps(self)
            },
        }
    }

    /// Whatever a client without an account sends is in range: a first deposit
    /// is added to zero, and the rules accept nothing else of that client.
    pub proof fn lemma_new_client_in_range(&self, tx: TransactionRecord)
        requires
            self.wf(),
            !self.accounts_map().contains_key(tx.client),
            tx.amount matches Some(amount) ==> Amount::representable(
                amount.mantissa() as int,
                amount.scale() as int,
            ),
        ensures
            self.in_range(tx),
    {
        Amount::lemma_zero();
        assert(pow10(0) == 1);
        if self@.deposits.contains_key(tx.tx) {
            assert(self@.accounts.contains_key(self@.deposits[tx.tx].client));
        }
    }

    /// An engine with no account and no deposit record.
    pub fn new() -> (engine: PaymentEngine)
        ensures
            engine.wf(),
            engine@ == LedgerView::empty(),
            engine.accounts_map() == Map::<u16, Account>::empty(),
            engine.deposits_map() == Map::<u32, StoredDeposit>::empty(),
    {
        let engine = PaymentEngine { accounts: HashMap::new(), deposits: HashMap::new() };
        assert(engine@.accounts =~= Map::empty());
        assert(engine@.deposits =~= Map::empty());
        engine
    }

    /// The stored account of the client, or a new one.
    fn account_or_new(&self, client: u16) -> (account: Account)
        ensures
            account == self.balances(client),
            account@ == self@.account(client),
    {
        broadcast use group_hash_axioms;

        match self.accounts.get(&client) {
            Some(account) => *account,
            None => Account::new(client),
        }
    }

    /// The record of the deposit that `tx` refers to, if it is of the same client.
    fn owned_deposit(&self, tx: &TransactionRecord) -> (found: Option<StoredDeposit>)
        ensures
            found is Some <==> self@.owns_deposit(tx.client, tx.tx),
            found matches Some(d) ==> d == self.deposits_map()[tx.tx],
    {
        broadcast use group_hash_axioms;

        match self.deposits.get(&tx.tx) {
            Some(deposit) => if deposit.client == tx.client {
                Some(*deposit)
            } else {
                None
            },
            None => None,
        }
    }

    /// Files the account under its client and, where there is one, the
    /// deposit record under the transaction id.
    fn store(&mut self, account: Account, tx: u32, record: Option<StoredDeposit>)
        ensures
            final(self).accounts_map() == old(self).accounts_map().insert(account.client, account),
            final(self).deposits_map() == match record {
                Some(stored) => old(self).deposits_map().insert(tx, stored),
                None => old(self).deposits_map(),
            },
            final(self)@.accounts == old(self)@.accounts.insert(account.client, account@),
            final(self)@.deposits == match record {
                Some(stored) => old(self)@.deposits.insert(tx, stored@),
                None => old(self)@.deposits,
            },
            final(self).differs_only_at(old(self), account.client, tx),
    {
        broadcast use group_hash_axioms;

        self.accounts.insert(account.client, account);
        match record {
            Some(stored) => {
                self.deposits.insert(tx, stored);
                assert(self@.deposits =~= old(self)@.deposits.insert(tx, stored@));
            },
            None => {},
        }
        assert(self@.accounts =~= old(self)@.accounts.insert(account.client, account@));
        assert(self.accounts_map().remove(account.client) =~= old(self).accounts_map().remove(
            account.client,
        ));
        assert(self.deposits_map().remove(tx) =~= old(self).deposits_map().remove(tx));
    }

    /// A deposit: credits the amount and records it under its transaction id.
    fn deposit(&mut self, tx: &TransactionRecord) -> (r: Option<Result<(), PaymentError>>)
        requires
            old(self).wf(),
            tx.tx_type == TransactionType::Deposit,
            !old(self)@.is_frozen(tx.client),
        ensures
            final(self).wf(),
            old(self).steps_to(final(self), *tx, r),
    {
        broadcast use group_hash_axioms;

        let amount = match tx.amount {
            Some(amount) => amount,
            None => {
                return Some(Err(PaymentError::MissingAmount(tx.tx)));
            },
        };
        if amount.le(&Amount::zero()) {
            return Some(Err(PaymentError::InvalidAmount(tx.tx, amount)));
        }
        if self.deposits.contains_key(&tx.tx) {
            return Some(Err(PaymentError::DuplicateTransaction(tx.tx)));
        }
        let account = self.account_or_new(tx.client);
        let available = match account.available.checked_add(amount) {
            Some(available) => available,
            None => {
                return None;
            },
        };
        self.store(
            Account { client: tx.client, available, held: account.held, locked: account.locked },
            tx.tx,
            Some(StoredDeposit { client: tx.client, amount, disputed: false }),
        );
        Some(Ok(()))
    }

    /// A withdrawal: debits the amount if that much is available. A valid
    /// amount creates the client's account even where the withdrawal fails.
    fn withdrawal(&mut self, tx: &TransactionRecord) -> (r: Option<Result<(), PaymentError>>)
        requires
            old(self).wf(),
            tx.tx_type == TransactionType::Withdrawal,
            !old(self)@.is_frozen(tx.client),
        ensures
            final(self).wf(),
            old(self).steps_to(final(self), *tx, r),
    {
        let amount = match tx.amount {
            Some(amount) => amount,
            None => {
                return Some(Err(PaymentError::MissingAmount(tx.tx)));
            },
        };
        if amount.le(&Amount::zero()) {
            return Some(Err(PaymentError::InvalidAmount(tx.tx, amount)));
        }
        let account = self.account_or_new(tx.client);
        if account.available.lt(&amount) {
            self.store(
                Account {
                    client: tx.client,
                    available: account.available,
                    held: account.held,
                    locked: account.locked,
                },
                tx.tx,
                None,
            );
            return Some(Err(PaymentError::InsufficientFunds(tx.client, amount, account.available)));
        }
        let available = match account.available.checked_sub(amount) {
            Some(available) => available,
            None => {
                return None;
            },
        };
        self.store(
            Account { client: tx.client, available, held: account.held, locked: account.locked },
            tx.tx,
            None,
        );
        Some(Ok(()))
    }

    /// A dispute: moves the deposit's amount from available to held.
    fn dispute(&mut self, tx: &TransactionRecord) -> (r: Option<Result<(), PaymentError>>)
        requires
            old(self).wf(),
            tx.tx_type == TransactionType::Dispute,
            !old(self)@.is_frozen(tx.client),
        ensures
            final(self).wf(),
            old(self).steps_to(final(self), *tx, r),
    {
        let deposit = match self.owned_deposit(tx) {
            Some(deposit) => deposit,
            None => {
                return Some(Err(PaymentError::TransactionNotFound(tx.tx)));
            },
        };
        if deposit.disputed {
            return Some(Err(PaymentError::AlreadyUnderDispute(tx.tx)));
        }
        let account = self.account_or_new(tx.client);
        let moved = match (
            account.available.checked_sub(deposit.amount),
            account.held.checked_add(deposit.amount),
        ) {
            (Some(available), Some(held)) => Account {
                client: tx.client,
                available,
                held,
                locked: account.locked,
            },
            _ => {
                return None;
            },
        };
        self.store(
            moved,
            tx.tx,
            Some(StoredDeposit { client: deposit.client, amount: deposit.amount, disputed: true }),
        );
        Some(Ok(()))
    }

    /// A resolve: moves the disputed amount from held back to available.
    fn resolve(&mut self, tx: &TransactionRecord) -> (r: Option<Result<(), PaymentError>>)
        requires
            old(self).wf(),
            tx.tx_type == TransactionType::Resolve,
            !old(self)@.is_frozen(tx.client),
        ensures
            final(self).wf(),
            old(self).steps_to(final(self), *tx, r),
    {
        let deposit = match self.owned_deposit(tx) {
            Some(deposit) => deposit,
            None => {
                return Some(Err(PaymentError::TransactionNotFound(tx.tx)));
            },
        };
        if !deposit.disputed {
            return Some(Err(PaymentError::NotUnderDispute(tx.tx)));
        }
        let account = self.account_or_new(tx.client);
        let moved = match (
            account.held.checked_sub(deposit.amount),
            account.available.checked_add(deposit.amount),
        ) {
            (Some(held), Some(available)) => Account {
                client: tx.client,
                available,
                held,
                locked: account.locked,
            },
            _ => {
                return None;
            },
        };
        self.store(
            moved,
            tx.tx,
            Some(StoredDeposit { client: deposit.client, amount: deposit.amount, disputed: false }),
        );
        Some(Ok(()))
    }

    /// A chargeback: voids the disputed amount and locks the account.
    fn chargeback(&mut self, tx: &TransactionRecord) -> (r: Option<Result<(), PaymentError>>)
        requires
            old(self).wf(),
            tx.tx_type == TransactionType::Chargeback,
            !old(self)@.is_frozen(tx.client),
        ensures
            final(self).wf(),
            old(self).steps_to(final(self), *tx, r),
    {
        let deposit = match self.owned_deposit(tx) {
            Some(deposit) => deposit,
            None => {
                return Some(Err(PaymentError::TransactionNotFound(tx.tx)));
            },
        };
        if !deposit.disputed {
            return Some(Err(PaymentError::NotUnderDispute(tx.tx)));
        }
        let account = self.account_or_new(tx.client);
        let held = match account.held.checked_sub(deposit.amount) {
            Some(held) => held,
            None => {
                return None;
            },
        };
        self.store(
            Account { client: tx.client, available: account.available, held, locked: true },
            tx.tx,
            Some(StoredDeposit { client: deposit.client, amount: deposit.amount, disputed: false }),
        );
        Some(Ok(()))
    }

    /// Applies one transaction if its arithmetic is in range, and says what
    /// the rules made of it; leaves the engine as it was and returns `None`
    /// if it is not.
    ///
    /// A locked account rejects every transaction of its client before
    /// anything else is looked at. A rejected transaction changes nothing,
    /// except that a withdrawal of a valid amount creates the account of a
    /// client that had none.
    pub fn try_process(&mut self, tx: &TransactionRecord) -> (r: Option<Result<(), PaymentError>>)
        requires
            old(self).wf(),
        ensures
            final(self).wf(),
            old(self).steps_to(final(self), *tx, r),
    {
        broadcast use group_hash_axioms;

        match self.accounts.get(&tx.client) {
            Some(account) => {
                if account.locked {
                    return Some(Err(PaymentError::AccountFrozen(tx.client)));
                }
            },
            None => {},
        }
        match tx.tx_type {
            TransactionType::Deposit => self.deposit(tx),
            TransactionType::Withdrawal => self.withdrawal(tx),
            TransactionType::Dispute => self.dispute(tx),
            TransactionType::Resolve => self.resolve(tx),
            TransactionType::Chargeback => self.chargeback(tx),
        }
    }

    /// Applies one transaction: the engine's ledger takes one `step`, and the
    /// result is that step's outcome.
    ///
    /// Balances are amounts of 96 bits, so the transaction must be in range:
    /// where the rules accept it, the balances that it calls for must be
    /// amounts. `try_process` asks for nothing and answers `None` instead.
    pub fn process(&mut self, tx: &TransactionRecord) -> (r: Result<(), PaymentError>)
        requires
            old(self).wf(),
            old(self).in_range(*tx),
        ensures
            final(self).wf(),
            final(self)@ == old(self)@.step(tx@).0,
            outcome_view(r) == old(self)@.step(tx@).1,
            final(self).differs_only_at(old(self), tx.client, tx.tx),
            r is Err ==> final(self).keeps(old(self)),
    {
        match self.try_process(tx) {
            Some(outcome) => outcome,
            None => unreached(),
        }
    }

    /// Every account, by ascending client id.
    pub fn accounts(&self) -> (list: Vec<Account>)
        requires
            self.wf(),
        ensures
            self.lists(list@),
    {
        broadcast use group_hash_axioms;

        let mut list: Vec<Account> = Vec::new();
        let mut next: u32 = 0;
        while next <= 0xffff
            invariant
                self.wf(),
                next <= 0x1_0000,
                forall|i: int, j: int| 0 <= i < j < list.len() ==> list[i].client < list[j].client,
                forall|i: int|
                    0 <= i < list.len() ==> (#[trigger] list[i].client) < next
                        && self.accounts_map().contains_key(list[i].client)
                        && self.accounts_map()[list[i].client] == list[i],
                forall|c: u16|
                    c < next && self.accounts_map().contains_key(c) ==> exists|i: int|
                        0 <= i < list.len() && #[trigger] list[i].client == c,
            decreases 0x1_0000 - next,
        {
            let client: u16 = next as u16;
            match self.accounts.get(&client) {
                Some(account) => {
                    let ghost before = list@;
                    assert(self@.accounts.contains_key(client));
                    assert(self@.accounts[client].client == client);
                    list.push(*account);
                    assert(list@[before.len() as int].client == client);
                    assert forall|c: u16|
                        c < next + 1 && self.accounts_map().contains_key(c) implies exists|i: int|
                        0 <= i < list.len() && #[trigger] list[i].client == c by {
                        if c < next {
                            let i = choose|i: int| 0 <= i < before.len() && before[i].client == c;
                            assert(list[i].client == c);
                        }
                    }
                },
                None => {},
            }
            next = next + 1;
        }
        list
    }

    /// Applies the records in order, rejected ones included, up to the first
    /// whose arithmetic is out of range, and reports how far it came and
    /// what was rejected on the way.
    pub fn process_all(&mut self, records: &[TransactionRecord]) -> (replay: Replay)
        requires
            old(self).wf(),
        ensures
            final(self).wf(),
            replay.processed <= records.len(),
            final(self)@ == old(self)@.run(
                record_views(records@.take(replay.processed as int)),
            ),
            error_views(replay.rejected@) == old(self)@.rejections(
                record_views(records@.take(replay.processed as int)),
            ),
            replay.processed < records.len() ==> !final(self).in_range(
                records[replay.processed as int],
            ),
    {
        let ghost start = self@;
        let mut rejected: Vec<PaymentError> = Vec::new();
        let mut processed: usize = 0;
        assert(record_views(records@.take(0)) =~= Seq::empty());
        assert(error_views(rejected@) =~= Seq::empty());
        while processed < records.len()
            invariant
                self.wf(),
                start == old(self)@,
                processed <= records.len(),
                self@ == start.run(record_views(records@.take(processed as int))),
                error_views(rejected@) == start.rejections(
                    record_views(records@.take(processed as int)),
                ),
            decreases records.len() - processed,
        {
            let ghost earlier = record_views(records@.take(processed as int));
            let ghost upto = record_views(records@.take(processed + 1));
            let ghost errors = error_views(rejected@);
            assert(upto.drop_last() =~= earlier);
            assert(upto.last() == records[processed as int]@);
            match self.try_process(&records[processed]) {
                None => {
                    return Replay { processed, rejected };
                },
                Some(Ok(())) => {},
                Some(Err(e)) => {
                    rejected.push(e);
                    assert(error_views(rejected@) =~= errors.push(e@));
                },
            }
            processed = processed + 1;
        }
        Replay { processed, rejected }
    }
}

} // verus!
