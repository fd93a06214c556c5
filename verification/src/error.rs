//! Why the engine rejects a transaction.

use crate::amount::Amount;
use vstd::prelude::*;

verus! {

/// A rejected transaction. None of these is fatal to the engine.
#[derive(Clone, Copy, Debug)]
pub enum PaymentError {
    /// The client's account is locked.
    AccountFrozen(u16),
    /// A deposit or withdrawal without an amount.
    MissingAmount(u32),
    /// A deposit whose transaction id already names a deposit.
    DuplicateTransaction(u32),
    /// A deposit or withdrawal of an amount that is not positive.
    InvalidAmount(u32, Amount),
    /// A withdrawal of more than is available: client, amount asked, amount available.
    InsufficientFunds(u16, Amount, Amount),
    /// A reference to a deposit that does not exist or belongs to another client.
    TransactionNotFound(u32),
    /// A dispute of a deposit that is under dispute.
    AlreadyUnderDispute(u32),
    /// A resolve or chargeback of a deposit that is not under dispute.
    NotUnderDispute(u32),
}

/// A rejection with its amounts as numbers.
pub enum ErrorView {
    AccountFrozen(u16),
    MissingAmount(u32),
    DuplicateTransaction(u32),
    InvalidAmount(u32, int),
    InsufficientFunds(u16, int, int),
    TransactionNotFound(u32),
    AlreadyUnderDispute(u32),
    NotUnderDispute(u32),
}

impl View for PaymentError {
    type V = ErrorView;

    open spec fn view(&self) -> ErrorView {
        match *self {
            PaymentError::AccountFrozen(client) => ErrorView::AccountFrozen(client),
            PaymentError::MissingAmount(tx) => ErrorView::MissingAmount(tx),
            PaymentError::DuplicateTransaction(tx) => ErrorView::DuplicateTransaction(tx),
            PaymentError::InvalidAmount(tx, amount) => ErrorView::InvalidAmount(tx, amount@),
            PaymentError::InsufficientFunds(client, asked, available) => ErrorView::InsufficientFunds(
                client,
                asked@,
                available@,
            ),
            PaymentError::TransactionNotFound(tx) => ErrorView::TransactionNotFound(tx),
            PaymentError::AlreadyUnderDispute(tx) => ErrorView::AlreadyUnderDispute(tx),
            PaymentError::NotUnderDispute(tx) => ErrorView::NotUnderDispute(tx),
        }
    }
}

/// The views of a sequence of rejections.
pub open spec fn error_views(errors: Seq<PaymentError>) -> Seq<ErrorView> {
    errors.map_values(|e: PaymentError| e@)
}

/// The view of what `process` returns.
pub open spec fn outcome_view(r: Result<(), PaymentError>) -> Result<(), ErrorView> {
    match r {
        Ok(()) => Ok(()),
        Err(e) => Err(e@),
    }
}

} // verus!
