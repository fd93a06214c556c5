//! The records that the engine is fed.

use crate::amount::Amount;
use vstd::prelude::*;

verus! {

/// The five kinds of transaction.
#[derive(Clone, Copy, Debug, PartialEq, Eq, Structural)]
pub enum TransactionType {
    Deposit,
    Withdrawal,
    Dispute,
    Resolve,
    Chargeback,
}

/// One transaction as the caller supplies it. The amount is present for
/// deposits and withdrawals; the other three kinds ignore it.
#[derive(Clone, Copy, Debug)]
pub struct TransactionRecord {
    pub tx_type: TransactionType,
    pub client: u16,
    pub tx: u32,
    pub amount: Option<Amount>,
}

/// A transaction record with its amount as a number.
pub struct RecordView {
    pub tx_type: TransactionType,
    pub client: u16,
    pub tx: u32,
    pub amount: Option<int>,
}

impl View for TransactionRecord {
    type V = RecordView;

    open spec fn view(&self) -> RecordView {
        RecordView {
            tx_type: self.tx_type,
            client: self.client,
            tx: self.tx,
            amount: match self.amount {
                Some(a) => Some(a@),
                None => None,
            },
        }
    }
}

} // verus!
