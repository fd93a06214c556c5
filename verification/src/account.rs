//! Client accounts and their report rows.

use crate::amount::{fixed4_fits, fixed4_text, Amount};
use crate::model::AccountView;
use vstd::pervasive::unreached;
use vstd::prelude::*;

verus! {

/// The balances and lock state of one client.
#[derive(Clone, Copy, Debug)]
pub struct Account {
    pub client: u16,
    /// Funds that can be withdrawn.
    pub available: Amount,
    /// Funds frozen while a dispute is open.
    pub held: Amount,
    /// Set by a chargeback, for good.
    pub locked: bool,
}

impl View for Account {
    type V = AccountView;

    open spec fn view(&self) -> AccountView {
        AccountView {
            client: self.client,
            available: self.available@,
            held: self.held@,
            locked: self.locked,
        }
    }
}

impl Account {
    pub open spec fn spec_new(client: u16) -> Account {
        Account { client, available: Amount::zero(), held: Amount::zero(), locked: false }
    }

    /// An unlocked account with nothing in it.
    #[verifier::when_used_as_spec(spec_new)]
    pub fn new(client: u16) -> (account: Account)
        ensures
            account == Account::new(client),
            account@ == AccountView::empty(client),
    {
        Account { client, available: Amount::zero(), held: Amount::zero(), locked: false }
    }

    /// Whether the total is an amount: whether available plus held fits.
    pub open spec fn total_fits(&self) -> bool {
        self.available.sum_fits(self.held)
    }

    /// Available plus held, exactly.
    pub fn total(&self) -> (total: Amount)
        requires
            self.total_fits(),
        ensures
            total@ == self.available@ + self.held@,
            total@ == self@.total(),
    {
        match self.available.checked_add(self.held) {
            Some(total) => total,
            None => unreached(),
        }
    }

    /// Available plus held, or `None` where that sum does not fit an amount.
    pub fn checked_total(&self) -> (total: Option<Amount>)
        ensures
            total is Some <==> self.total_fits(),
            total matches Some(t) ==> t@ == self@.total(),
    {
        self.available.checked_add(self.held)
    }
}

/// An account as it is reported: every amount written with four fractional
/// digits.
#[derive(Debug)]
pub struct AccountOutput {
    pub client: u16,
    pub available: String,
    pub held: String,
    pub total: String,
    pub locked: bool,
}

impl AccountOutput {
    /// What `from` returns for an account.
    pub open spec fn describes(&self, account: AccountView) -> bool {
        &&& self.client == account.client
        &&& self.available@ == fixed4_text(account.available)
        &&& self.held@ == fixed4_text(account.held)
        &&& self.total@ == fixed4_text(account.total())
        &&& self.locked == account.locked
    }

    /// Whether the account can be reported: its total is an amount, and none
    /// of its three amounts has a whole part of more than 27 digits.
    pub open spec fn reportable(account: &Account) -> bool {
        &&& account.total_fits()
        &&& fixed4_fits(account@.available)
        &&& fixed4_fits(account@.held)
        &&& fixed4_fits(account@.total())
    }

    /// The report row of an account.
    pub fn from(account: &Account) -> (out: AccountOutput)
        requires
            Self::reportable(account),
        ensures
            out.describes(account@),
    {
        match AccountOutput::checked_from(account) {
            Some(out) => out,
            None => unreached(),
        }
    }

    /// The report row of an account, or `None` where the account cannot be
    /// reported.
    pub fn checked_from(account: &Account) -> (out: Option<AccountOutput>)
        ensures
            out is Some <==> Self::reportable(account),
            out matches Some(row) ==> row.describes(account@),
    {
        let total = match account.checked_total() {
            Some(total) => total,
            None => {
                return None;
            },
        };
        match (account.available.to_fixed4(), account.held.to_fixed4(), total.to_fixed4()) {
            (Some(available), Some(held), Some(total)) => Some(
                AccountOutput {
                    client: account.client,
                    available,
                    held,
                    total,
                    locked: account.locked,
                },
            ),
            _ => None,
        }
    }
}

} // verus!
