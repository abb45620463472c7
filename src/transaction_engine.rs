use crate::account::{Account, AccountModel, AccountUpdateError};
use crate::transaction::{ClientID, Transaction, TransactionType};
use std::collections::HashMap;
use vstd::prelude::*;

verus! {

broadcast use vstd::std_specs::hash::group_hash_axioms;

#[derive(Debug, Clone, Copy, PartialEq, Eq, Structural)]
pub enum TransactionEngineError {
    AccountUpdate(ClientID, AccountUpdateError),
    MissingAmount,
}

/// The account a transaction for `client` works on: the one in `accounts`, or
/// a fresh one for a client not seen yet.
pub open spec fn account_for(accounts: Map<ClientID, AccountModel>, client: ClientID) -> AccountModel {
    if accounts.contains_key(client) {
        accounts[client]
    } else {
        AccountModel::fresh(client)
    }
}

/// Every account holds well-formed amounts.
pub open spec fn all_valid(accounts: Map<ClientID, AccountModel>) -> bool {
    forall|c: ClientID| #[trigger] accounts.contains_key(c) ==> accounts[c].valid()
}

/// What processing `t` does to the accounts: the client's account takes the
/// step that the transaction's kind names. A deposit or withdrawal without an
/// amount is refused; an account error is tagged with the client. What the
/// accounts become on an error is [`kept_after_error`].
pub open spec fn process_step(accounts: Map<ClientID, AccountModel>, t: Transaction) -> Result<
    Map<ClientID, AccountModel>,
    TransactionEngineError,
> {
    let account = account_for(accounts, t.client);
    let step = match t.tx_type {
        TransactionType::Deposit => match t.amount {
            Some(a) => Some(account.deposit_step(t.transaction, a)),
            None => None,
        },
        TransactionType::Withdrawal => match t.amount {
            Some(a) => Some(account.withdraw_step(a)),
            None => None,
        },
        TransactionType::Dispute => Some(account.dispute_step(t.transaction)),
        TransactionType::Resolve => Some(account.resolve_step(t.transaction)),
        TransactionType::Chargeback => Some(account.chargeback_step(t.transaction)),
    };
    match step {
        None => Err(TransactionEngineError::MissingAmount),
        Some(Ok(s)) => Ok(accounts.insert(t.client, s)),
        Some(Err(e)) => Err(TransactionEngineError::AccountUpdate(t.client, e)),
    }
}

/// The accounts after a transaction for `client` failed: the client's account
/// exists (created fresh if the client is new) and no account has changed.
pub open spec fn kept_after_error(accounts: Map<ClientID, AccountModel>, client: ClientID) -> Map<
    ClientID,
    AccountModel,
> {
    accounts.insert(client, account_for(accounts, client))
}

/// Routes transactions to per-client accounts, creating an account the first
/// time a client's transaction goes through.
#[derive(Debug)]
pub struct TransactionEngine {
    accounts: HashMap<ClientID, Account>,
}

impl View for TransactionEngine {
    type V = Map<ClientID, AccountModel>;

    closed spec fn view(&self) -> Map<ClientID, AccountModel> {
        self.accounts@.map_values(|a: Account| a@)
    }
}

impl TransactionEngine {
    pub fn new() -> (r: TransactionEngine)
        ensures
            r@ == Map::<ClientID, AccountModel>::empty(),
    {
        let r = TransactionEngine { accounts: HashMap::new() };
        assert(r@ =~= Map::<ClientID, AccountModel>::empty());
        r
    }

    /// Every account, by client.
    pub fn accounts(&self) -> (r: &HashMap<ClientID, Account>)
        ensures
            r@.map_values(|a: Account| a@) == self@,
    {
        &self.accounts
    }

    /// Applies `t` to its client's account, creating the account first if the
    /// client is new. On an error no account changes, but a new client's account
    /// stays.
    pub fn process(&mut self, t: Transaction) -> (r: Result<(), TransactionEngineError>)
        ensures
            match process_step(old(self)@, t) {
                Ok(m) => r is Ok && final(self)@ == m,
                Err(e) => r == Err::<(), TransactionEngineError>(e) && final(self)@ == kept_after_error(
                    old(self)@,
                    t.client,
                ),
            },
            all_valid(old(self)@) ==> all_valid(final(self)@),
    {
        let mut account = match self.accounts.remove(&t.client) {
            Some(a) => a,
            None => Account::new(t.client),
        };
        assert(account@ == account_for(old(self)@, t.client));
        assert(all_valid(old(self)@) ==> account@.valid());
        let result = match t.tx_type {
            TransactionType::Deposit => match t.amount {
                Some(a) => Some(account.deposit(t.transaction, a)),
                None => None,
            },
            TransactionType::Withdrawal => match t.amount {
                Some(a) => Some(account.withdraw(a)),
                None => None,
            },
            TransactionType::Dispute => Some(account.dispute(t.transaction)),
            TransactionType::Resolve => Some(account.resolve(t.transaction)),
            TransactionType::Chargeback => Some(account.chargeback(t.transaction)),
        };
        self.accounts.insert(t.client, account);
        assert(self@ =~= old(self)@.insert(t.client, account@));
        match result {
            None => Err(TransactionEngineError::MissingAmount),
            Some(Ok(())) => Ok(()),
            Some(Err(e)) => Err(TransactionEngineError::AccountUpdate(t.client, e)),
        }
    }
}

} // verus!
