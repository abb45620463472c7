use crate::funds::Funds;
use vstd::prelude::*;

verus! {

pub type ClientID = u16;

pub type TransactionID = u32;

#[derive(Debug, Clone, Copy, PartialEq, Eq, Structural)]
pub enum TransactionType {
    Deposit,
    Withdrawal,
    Dispute,
    Resolve,
    Chargeback,
}

/// One input record. `amount` is present for deposits and withdrawals; for a
/// dispute, resolve or chargeback, `transaction` names the deposit concerned.
#[derive(Debug, Clone, Copy, PartialEq, Eq)]
pub struct Transaction {
    pub tx_type: TransactionType,
    pub client: ClientID,
    pub transaction: TransactionID,
    pub amount: Option<Funds>,
}

} // verus!
