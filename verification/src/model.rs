//! The ledger as mathematics.
//!
//! Balances are unbounded integers counted in units of `10^-28`, accounts and
//! deposit records are held in maps, and [`LedgerView::step`] says for every
//! ledger and every record what the ledger becomes and what is returned.

use crate::error::ErrorView;
use crate::transaction::{RecordView, TransactionType};
use vstd::prelude::*;

verus! {

/// The balances and lock state of one client.
pub struct AccountView {
    pub client: u16,
    pub available: int,
    pub held: int,
    pub locked: bool,
}

impl AccountView {
    /// The account of a client that has not been seen yet.
    pub open spec fn empty(client: u16) -> AccountView {
        AccountView { client, available: 0, held: 0, locked: false }
    }

    /// Available and held funds together.
    pub open spec fn total(self) -> int {
        self.available + self.held
    }
}

/// What the ledger remembers of an accepted deposit.
pub struct DepositView {
    pub client: u16,
    pub amount: int,
    pub disputed: bool,
}

/// What one transaction returns.
pub type Outcome = Result<(), ErrorView>;

/// Accounts by client id and deposit records by transaction id.
pub struct LedgerView {
    pub accounts: Map<u16, AccountView>,
    pub deposits: Map<u32, DepositView>,
}

impl LedgerView {
    /// The ledger before any transaction.
    pub open spec fn empty() -> LedgerView {
        LedgerView { accounts: Map::empty(), deposits: Map::empty() }
    }

    /// Every account is filed under its own client id, and every deposit
    /// record is of a positive amount and belongs to a client with an account.
    pub open spec fn valid(self) -> bool {
        &&& forall|c: u16| #[trigger]
            self.accounts.contains_key(c) ==> self.accounts[c].client == c
        &&& forall|t: u32| #[trigger]
            self.deposits.contains_key(t) ==> self.deposits[t].amount > 0
                && self.accounts.contains_key(self.deposits[t].client)
    }

    /// Whether the client has an account and it is locked.
    pub open spec fn is_frozen(self, client: u16) -> bool {
        self.accounts.contains_key(client) && self.accounts[client].locked
    }

    /// The client's account, or the empty account that a first deposit or
    /// withdrawal would create.
    pub open spec fn account(self, client: u16) -> AccountView {
        if self.accounts.contains_key(client) {
            self.accounts[client]
        } else {
            AccountView::empty(client)
        }
    }

    /// Whether `tx` names a deposit of `client`.
    pub open spec fn owns_deposit(self, client: u16, tx: u32) -> bool {
        self.deposits.contains_key(tx) && self.deposits[tx].client == client
    }

    /// The ledger with the client's account replaced.
    pub open spec fn with_account(self, client: u16, account: AccountView) -> LedgerView {
        LedgerView { accounts: self.accounts.insert(client, account), ..self }
    }

    /// The ledger with the dispute flag of deposit `tx` set to `disputed`.
    pub open spec fn with_flag(self, tx: u32, disputed: bool) -> LedgerView {
        LedgerView {
            deposits: self.deposits.insert(tx, DepositView { disputed, ..self.deposits[tx] }),
            ..self
        }
    }

    /// A deposit: credits the amount and records it under its transaction id.
    pub open spec fn deposit(self, tx: RecordView) -> (LedgerView, Outcome) {
        match tx.amount {
            None => (self, Err(ErrorView::MissingAmount(tx.tx))),
            Some(amount) => if amount <= 0 {
                (self, Err(ErrorView::InvalidAmount(tx.tx, amount)))
            } else if self.deposits.contains_key(tx.tx) {
                (self, Err(ErrorView::DuplicateTransaction(tx.tx)))
            } else {
                let account = self.account(tx.client);
                let credited = AccountView { available: account.available + amount, ..account };
                let record = DepositView { client: tx.client, amount, disputed: false };
                (
                    LedgerView {
                        deposits: self.deposits.insert(tx.tx, record),
                        ..self.with_account(tx.client, credited)
                    },
                    Ok(()),
                )
            },
        }
    }

    /// A withdrawal: debits the amount if that much is available. A valid
    /// amount creates the client's account even where the withdrawal fails.
    pub open spec fn withdrawal(self, tx: RecordView) -> (LedgerView, Outcome) {
        match tx.amount {
            None => (self, Err(ErrorView::MissingAmount(tx.tx))),
            Some(amount) => if amount <= 0 {
                (self, Err(ErrorView::InvalidAmount(tx.tx, amount)))
            } else {
                let account = self.account(tx.client);
                if account.available < amount {
                    (
                        self.with_account(tx.client, account),
                        Err(ErrorView::InsufficientFunds(tx.client, amount, account.available)),
                    )
                } else {
                    (
                        self.with_account(
                            tx.client,
                            AccountView { available: account.available - amount, ..account },
                        ),
                        Ok(()),
                    )
                }
            },
        }
    }

    /// A dispute: moves the deposit's amount from available to held.
    pub open spec fn dispute(self, tx: RecordView) -> (LedgerView, Outcome) {
        if !self.owns_deposit(tx.client, tx.tx) {
            (self, Err(ErrorView::TransactionNotFound(tx.tx)))
        } else if self.deposits[tx.tx].disputed {
            (self, Err(ErrorView::AlreadyUnderDispute(tx.tx)))
        } else {
            let amount = self.deposits[tx.tx].amount;
            let account = self.accounts[tx.client];
            (
                self.with_flag(tx.tx, true).with_account(
                    tx.client,
                    AccountView {
                        available: account.available - amount,
                        held: account.held + amount,
                        ..account
                    },
                ),
                Ok(()),
            )
        }
    }

    /// A resolve: moves the disputed amount from held back to available.
    pub open spec fn resolve(self, tx: RecordView) -> (LedgerView, Outcome) {
        if !self.owns_deposit(tx.client, tx.tx) {
            (self, Err(ErrorView::TransactionNotFound(tx.tx)))
        } else if !self.deposits[tx.tx].disputed {
            (self, Err(ErrorView::NotUnderDispute(tx.tx)))
        } else {
            let amount = self.deposits[tx.tx].amount;
            let account = self.accounts[tx.client];
            (
                self.with_flag(tx.tx, false).with_account(
                    tx.client,
                    AccountView {
                        available: account.available + amount,
                        held: account.held - amount,
                        ..account
                    },
                ),
                Ok(()),
            )
        }
    }

    /// A chargeback: voids the disputed amount and locks the account.
    pub open spec fn chargeback(self, tx: RecordView) -> (LedgerView, Outcome) {
        if !self.owns_deposit(tx.client, tx.tx) {
            (self, Err(ErrorView::TransactionNotFound(tx.tx)))
        } else if !self.deposits[tx.tx].disputed {
            (self, Err(ErrorView::NotUnderDispute(tx.tx)))
        } else {
            let amount = self.deposits[tx.tx].amount;
            let account = self.accounts[tx.client];
            (
                self.with_flag(tx.tx, false).with_account(
                    tx.client,
                    AccountView { held: account.held - amount, locked: true, ..account },
                ),
                Ok(()),
            )
        }
    }

    /// One transaction: the ledger after it, and what it returns. A locked
    /// account rejects every kind of transaction of its client.
    pub open spec fn step(self, tx: RecordView) -> (LedgerView, Outcome) {
        if self.is_frozen(tx.client) {
            (self, Err(ErrorView::AccountFrozen(tx.client)))
        } else {
            match tx.tx_type {
                TransactionType::Deposit => self.deposit(tx),
                TransactionType::Withdrawal => self.withdrawal(tx),
                TransactionType::Dispute => self.dispute(tx),
                TransactionType::Resolve => self.resolve(tx),
                TransactionType::Chargeback => self.chargeback(tx),
            }
        }
    }

    /// The ledger after a sequence of transactions, each applied in turn
    /// whether it is accepted or rejected.
    pub open spec fn run(self, txs: Seq<RecordView>) -> LedgerView
        decreases txs.len(),
    {
        if txs.len() == 0 {
            self
        } else {
            self.run(txs.drop_last()).step(txs.last()).0
        }
    }

    /// The rejections that a sequence of transactions meets, in order.
    pub open spec fn rejections(self, txs: Seq<RecordView>) -> Seq<ErrorView>
        decreases txs.len(),
    {
        if txs.len() == 0 {
            Seq::empty()
        } else {
            let earlier = self.rejections(txs.drop_last());
            match self.run(txs.drop_last()).step(txs.last()).1 {
                Ok(()) => earlier,
                Err(e) => earlier.push(e),
            }
        }
    }
}

} // verus!
