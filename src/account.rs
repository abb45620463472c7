use crate::balance::{Balance, BalanceDiff};
use crate::funds::{
    Funds, FundsOpError, exact_sum, fits_at, lemma_exact_sum, lemma_fits_coarser, lemma_value_negate,
    lemma_value_sign, max_scale,
};
use crate::transaction::{ClientID, TransactionID};
use std::collections::HashMap;
use vstd::prelude::*;

verus! {

broadcast use vstd::std_specs::hash::group_hash_axioms;

/// Number of fractional digits in an account snapshot.
pub const SNAPSHOT_DECIMALS: u32 = 4;

/// Where a deposit stands in its dispute lifecycle.
///
/// A new deposit is `Undisputed`; a dispute moves it to `InDispute`; a resolve
/// or a chargeback ends it in `Resolved` or `Chargedback`, from which nothing
/// moves it again (so the same funds cannot be disputed twice).
#[derive(Debug, Clone, Copy, PartialEq, Eq)]
pub enum DepositState {
    Undisputed(Funds),
    InDispute(Funds),
    Resolved,
    Chargedback,
}

#[derive(Debug, Clone, Copy, PartialEq, Eq, Structural)]
pub enum AccountUpdateError {
    TransactionNotDisputable(TransactionID),
    TransactionNotInDispute(TransactionID),
    DepositAlreadyProcessed(TransactionID),
    InsufficientFunds,
    BalanceError(FundsOpError),
    AccountIsFrozen,
    NegativeDeposit,
    NegativeWithdrawal,
}

/// The state of an account as the contracts speak of it.
pub struct AccountModel {
    pub client: ClientID,
    pub balance: Balance,
    pub deposits: Map<TransactionID, DepositState>,
    pub frozen: bool,
}

pub open(crate) spec fn diff_of(available: Option<Funds>, held: Option<Funds>) -> BalanceDiff {
    BalanceDiff { available, held }
}

impl AccountModel {
    /// Every amount in the account is a well-formed decimal.
    pub open(crate) spec fn valid(self) -> bool {
        &&& self.balance.spec_available().valid()
        &&& self.balance.spec_held().valid()
        &&& forall|t: TransactionID|
            #![trigger self.deposits[t]]
            self.deposits.contains_key(t) ==> match self.deposits[t] {
                DepositState::Undisputed(a) => a.valid(),
                DepositState::InDispute(a) => a.valid(),
                _ => true,
            }
    }

    pub open(crate) spec fn available(self) -> Funds {
        self.balance.spec_available()
    }

    pub open(crate) spec fn held(self) -> Funds {
        self.balance.spec_held()
    }

    pub open spec fn fresh(client: ClientID) -> AccountModel {
        AccountModel { client, balance: Balance::empty(), deposits: Map::empty(), frozen: false }
    }

    /// `self` with its balance moved by `diff`, or the balance error.
    pub open(crate) spec fn moved(self, diff: BalanceDiff) -> Result<AccountModel, AccountUpdateError> {
        match self.balance.spec_apply(diff) {
            Ok(b) => Ok(AccountModel { balance: b, ..self }),
            Err(e) => Err(AccountUpdateError::BalanceError(e)),
        }
    }

    pub open(crate) spec fn deposit_step(self, tx: TransactionID, amount: Funds) -> Result<
        AccountModel,
        AccountUpdateError,
    > {
        if self.deposits.contains_key(tx) {
            Err(AccountUpdateError::DepositAlreadyProcessed(tx))
        } else if amount.spec_is_negative() {
            Err(AccountUpdateError::NegativeDeposit)
        } else {
            match self.moved(diff_of(Some(amount), None)) {
                Ok(s) => Ok(
                    AccountModel { deposits: s.deposits.insert(tx, DepositState::Undisputed(amount)), ..s },
                ),
                Err(e) => Err(e),
            }
        }
    }

    pub open(crate) spec fn withdraw_step(self, amount: Funds) -> Result<AccountModel, AccountUpdateError> {
        if self.frozen {
            Err(AccountUpdateError::AccountIsFrozen)
        } else if amount.spec_is_negative() {
            Err(AccountUpdateError::NegativeWithdrawal)
        } else if self.balance.spec_available().value() < amount.value() {
            Err(AccountUpdateError::InsufficientFunds)
        } else {
            self.moved(diff_of(Some(amount.spec_negate()), None))
        }
    }

    pub open(crate) spec fn dispute_step(self, tx: TransactionID) -> Result<AccountModel, AccountUpdateError> {
        if self.deposits.contains_key(tx) && self.deposits[tx] is Undisputed {
            let amount = self.deposits[tx]->Undisputed_0;
            match self.moved(diff_of(Some(amount.spec_negate()), Some(amount))) {
                Ok(s) => Ok(AccountModel { deposits: s.deposits.insert(tx, DepositState::InDispute(amount)), ..s }),
                Err(e) => Err(e),
            }
        } else {
            Err(AccountUpdateError::TransactionNotDisputable(tx))
        }
    }

    pub open(crate) spec fn resolve_step(self, tx: TransactionID) -> Result<AccountModel, AccountUpdateError> {
        if self.deposits.contains_key(tx) && self.deposits[tx] is InDispute {
            let amount = self.deposits[tx]->InDispute_0;
            match self.moved(diff_of(Some(amount), Some(amount.spec_negate()))) {
                Ok(s) => Ok(AccountModel { deposits: s.deposits.insert(tx, DepositState::Resolved), ..s }),
                Err(e) => Err(e),
            }
        } else {
            Err(AccountUpdateError::TransactionNotInDispute(tx))
        }
    }

    pub open(crate) spec fn chargeback_step(self, tx: TransactionID) -> Result<AccountModel, AccountUpdateError> {
        if self.deposits.contains_key(tx) && self.deposits[tx] is InDispute {
            let amount = self.deposits[tx]->InDispute_0;
            match self.moved(diff_of(None, Some(amount.spec_negate()))) {
                Ok(s) => Ok(
                    AccountModel {
                        deposits: s.deposits.insert(tx, DepositState::Chargedback),
                        frozen: true,
                        ..s
                    },
                ),
                Err(e) => Err(e),
            }
        } else {
            Err(AccountUpdateError::TransactionNotInDispute(tx))
        }
    }
}

/// The call went as `step` says: on success the account became the new state;
/// on failure it reports the error and is left exactly as it was.
pub open spec fn follows(
    step: Result<AccountModel, AccountUpdateError>,
    before: AccountModel,
    after: AccountModel,
    r: Result<(), AccountUpdateError>,
) -> bool {
    match step {
        Ok(s) => r is Ok && after == s,
        Err(e) => r == Err::<(), AccountUpdateError>(e) && after == before,
    }
}

/// What is reported of an account once processing is done, each amount
/// rounded to [`SNAPSHOT_DECIMALS`] fractional digits.
#[derive(Debug, Clone, Copy, PartialEq, Eq)]
pub struct AccountSnapshot {
    pub client: ClientID,
    pub available: Funds,
    pub held: Funds,
    pub total: Funds,
    pub locked: bool,
}

/// A client's account: its balance, the dispute state of each of its
/// deposits, and whether a chargeback has frozen it.
///
/// Only deposits can be disputed: disputing a withdrawal would raise the
/// available funds after they had already been paid out.
#[derive(Debug)]
pub struct Account {
    client: ClientID,
    balance: Balance,
    deposits: HashMap<TransactionID, DepositState>,
    frozen: bool,
}

impl View for Account {
    type V = AccountModel;

    closed spec fn view(&self) -> AccountModel {
        AccountModel {
            client: self.client,
            balance: self.balance,
            deposits: self.deposits@,
            frozen: self.frozen,
        }
    }
}

impl Account {
    pub fn new(client: ClientID) -> (r: Account)
        ensures
            r@ == AccountModel::fresh(client),
            r@.valid(),
    {
        let r = Account { client, balance: Balance::new(), deposits: HashMap::new(), frozen: false };
        assert(r@.deposits =~= Map::empty());
        r
    }

    pub fn client_id(&self) -> (r: ClientID)
        ensures
            r == self@.client,
    {
        self.client
    }

    pub fn is_frozen(&self) -> (r: bool)
        ensures
            r == self@.frozen,
    {
        self.frozen
    }

    pub fn balance(&self) -> (r: Balance)
        ensures
            r == self@.balance,
    {
        self.balance
    }

    /// Where deposit `transaction_id` stands, if this account has it.
    pub fn deposit_state(&self, transaction_id: TransactionID) -> (r: Option<DepositState>)
        ensures
            r == (if self@.deposits.contains_key(transaction_id) {
                Some(self@.deposits[transaction_id])
            } else {
                None
            }),
    {
        match self.deposits.get(&transaction_id) {
            Some(s) => Some(*s),
            None => None,
        }
    }

    /// Credits `amount` to the available funds and records the deposit as
    /// undisputed. Accepted on a frozen account too.
    pub fn deposit(&mut self, transaction_id: TransactionID, amount: Funds) -> (r: Result<
        (),
        AccountUpdateError,
    >)
        ensures
            follows(old(self)@.deposit_step(transaction_id, amount), old(self)@, final(self)@, r),
            old(self)@.valid() ==> final(self)@.valid(),
    {
        if self.deposits.contains_key(&transaction_id) {
            return Err(AccountUpdateError::DepositAlreadyProcessed(transaction_id));
        }
        if amount.is_negative() {
            return Err(AccountUpdateError::NegativeDeposit);
        }
        proof {
            use_type_invariant(&amount);
        }
        let diff = BalanceDiff::new().with_available(amount);
        assert(diff == diff_of(Some(amount), None));
        match self.balance.apply(diff) {
            Ok(b) => {
                proof {
                    use_type_invariant(&b.available);
                    use_type_invariant(&b.held);
                }
                self.balance = b;
                self.deposits.insert(transaction_id, DepositState::Undisputed(amount));
                Ok(())
            },
            Err(e) => Err(AccountUpdateError::BalanceError(e)),
        }
    }

    /// Debits `amount` from the available funds.
    pub fn withdraw(&mut self, amount: Funds) -> (r: Result<(), AccountUpdateError>)
        ensures
            follows(old(self)@.withdraw_step(amount), old(self)@, final(self)@, r),
            old(self)@.valid() ==> final(self)@.valid(),
    {
        if self.frozen {
            return Err(AccountUpdateError::AccountIsFrozen);
        }
        if amount.is_negative() {
            return Err(AccountUpdateError::NegativeWithdrawal);
        }
        if self.balance.available().less_than(&amount) {
            return Err(AccountUpdateError::InsufficientFunds);
        }
        let diff = BalanceDiff::new().with_available(amount.negate());
        assert(diff == diff_of(Some(amount.spec_negate()), None));
        match self.balance.apply(diff) {
            Ok(b) => {
                proof {
                    use_type_invariant(&b.available);
                    use_type_invariant(&b.held);
                }
                self.balance = b;
                Ok(())
            },
            Err(e) => Err(AccountUpdateError::BalanceError(e)),
        }
    }

    /// Moves the amount of an undisputed deposit from available to held, in one
    /// balance change.
    pub fn dispute(&mut self, transaction_id: TransactionID) -> (r: Result<(), AccountUpdateError>)
        ensures
            follows(old(self)@.dispute_step(transaction_id), old(self)@, final(self)@, r),
            old(self)@.valid() ==> final(self)@.valid(),
    {
        let amount = match self.deposits.get(&transaction_id) {
            Some(DepositState::Undisputed(a)) => *a,
            _ => {
                return Err(AccountUpdateError::TransactionNotDisputable(transaction_id));
            },
        };
        let diff = BalanceDiff::new().with_available(amount.negate()).with_held(amount);
        assert(diff == diff_of(Some(amount.spec_negate()), Some(amount)));
        match self.balance.apply(diff) {
            Ok(b) => {
                proof {
                    use_type_invariant(&b.available);
                    use_type_invariant(&b.held);
                }
                self.balance = b;
                self.deposits.insert(transaction_id, DepositState::InDispute(amount));
                Ok(())
            },
            Err(e) => Err(AccountUpdateError::BalanceError(e)),
        }
    }

    /// Ends a dispute in the client's favour: the amount goes back from held to
    /// available.
    pub fn resolve(&mut self, transaction_id: TransactionID) -> (r: Result<(), AccountUpdateError>)
        ensures
            follows(old(self)@.resolve_step(transaction_id), old(self)@, final(self)@, r),
            old(self)@.valid() ==> final(self)@.valid(),
    {
        let amount = match self.deposits.get(&transaction_id) {
            Some(DepositState::InDispute(a)) => *a,
            _ => {
                return Err(AccountUpdateError::TransactionNotInDispute(transaction_id));
            },
        };
        let diff = BalanceDiff::new().with_available(amount).with_held(amount.negate());
        assert(diff == diff_of(Some(amount), Some(amount.spec_negate())));
        match self.balance.apply(diff) {
            Ok(b) => {
                proof {
                    use_type_invariant(&b.available);
                    use_type_invariant(&b.held);
                }
                self.balance = b;
                self.deposits.insert(transaction_id, DepositState::Resolved);
                Ok(())
            },
            Err(e) => Err(AccountUpdateError::BalanceError(e)),
        }
    }

    /// Ends a dispute against the client: the held amount leaves the account
    /// and the account is frozen for good.
    pub fn chargeback(&mut self, transaction_id: TransactionID) -> (r: Result<(), AccountUpdateError>)
        ensures
            follows(old(self)@.chargeback_step(transaction_id), old(self)@, final(self)@, r),
            old(self)@.valid() ==> final(self)@.valid(),
    {
        let amount = match self.deposits.get(&transaction_id) {
            Some(DepositState::InDispute(a)) => *a,
            _ => {
                return Err(AccountUpdateError::TransactionNotInDispute(transaction_id));
            },
        };
        let diff = BalanceDiff::new().with_held(amount.negate());
        assert(diff == diff_of(None, Some(amount.spec_negate())));
        match self.balance.apply(diff) {
            Ok(b) => {
                proof {
                    use_type_invariant(&b.available);
                    use_type_invariant(&b.held);
                }
                self.balance = b;
                self.deposits.insert(transaction_id, DepositState::Chargedback);
                self.frozen = true;
                Ok(())
            },
            Err(e) => Err(AccountUpdateError::BalanceError(e)),
        }
    }

    /// The account as reported: available, held and their total, each rounded,
    /// and whether it is locked. `Overflow` when the total is out of range.
    pub fn snapshot(&self) -> (r: Result<AccountSnapshot, FundsOpError>)
        ensures
            match self@.balance.spec_available().spec_add(self@.balance.spec_held()) {
                Some(total) => r == Ok::<AccountSnapshot, FundsOpError>(
                    AccountSnapshot {
                        client: self@.client,
                        available: rounded(self@.balance.spec_available()),
                        held: rounded(self@.balance.spec_held()),
                        total: rounded(total),
                        locked: self@.frozen,
                    },
                ),
                None => r == Err::<AccountSnapshot, FundsOpError>(FundsOpError::Overflow),
            },
    {
        let available = self.balance.available();
        let held = self.balance.held();
        match available.add(held) {
            Ok(total) => Ok(
                AccountSnapshot {
                    client: self.client,
                    available: available.round_dp(SNAPSHOT_DECIMALS),
                    held: held.round_dp(SNAPSHOT_DECIMALS),
                    total: total.round_dp(SNAPSHOT_DECIMALS),
                    locked: self.frozen,
                },
            ),
            Err(e) => Err(e),
        }
    }
}

/// `f` rounded to [`SNAPSHOT_DECIMALS`] fractional digits.
pub open(crate) spec fn rounded(f: Funds) -> Funds {
    Funds::from_parts(crate::funds::decimal_rounded(f.parts(), SNAPSHOT_DECIMALS as nat))
}

/// Depositing an amount that is not negative and then withdrawing it brings
/// the available funds back to what they were. This holds for a transaction id
/// the account has not seen, on an account that is not frozen and whose
/// available funds are not negative, when the deposit needs no rounding.
pub proof fn lemma_deposit_then_withdraw(s: AccountModel, tx: TransactionID, amount: Funds)
    requires
        s.valid(),
        amount.valid(),
        !amount.spec_is_negative(),
        !s.deposits.contains_key(tx),
        !s.frozen,
        s.available().value() >= 0,
        s.available().sum_is_exact(amount),
    ensures
        s.deposit_step(tx, amount) is Ok,
        s.deposit_step(tx, amount)->Ok_0.withdraw_step(amount) is Ok,
        s.deposit_step(tx, amount)->Ok_0.withdraw_step(amount)->Ok_0.available().value()
            == s.available().value(),
{
    let a0 = s.available();
    lemma_exact_sum(a0, amount);
    lemma_value_sign(amount);
    lemma_value_negate(amount);
    let e1 = exact_sum(a0, amount);
    let s1 = s.deposit_step(tx, amount)->Ok_0;
    assert(s1.available() == e1);
    let neg = amount.spec_negate();
    let big = max_scale(a0.scale as nat, amount.scale as nat);
    assert(fits_at(a0.value(), big));
    lemma_fits_coarser(e1.value() + neg.value(), max_scale(e1.scale as nat, neg.scale as nat), big);
    assert(e1.sum_is_exact(neg));
    lemma_exact_sum(e1, neg);
}

/// Disputing a deposit and then resolving the dispute puts available and held
/// back to exactly what they were, and ends the deposit as `Resolved`. This
/// holds when moving each of them by the deposit's amount, and back, needs no
/// rounding.
pub proof fn lemma_dispute_then_resolve(s: AccountModel, tx: TransactionID)
    requires
        s.valid(),
        s.deposits.contains_key(tx),
        s.deposits[tx] is Undisputed,
        s.available().round_trip_is_exact(s.deposits[tx]->Undisputed_0.spec_negate()),
        s.held().round_trip_is_exact(s.deposits[tx]->Undisputed_0),
    ensures
        s.dispute_step(tx) is Ok,
        s.dispute_step(tx)->Ok_0.resolve_step(tx) is Ok,
        s.dispute_step(tx)->Ok_0.resolve_step(tx)->Ok_0.available().value() == s.available().value(),
        s.dispute_step(tx)->Ok_0.resolve_step(tx)->Ok_0.held().value() == s.held().value(),
        s.dispute_step(tx)->Ok_0.resolve_step(tx)->Ok_0.deposits[tx] == DepositState::Resolved,
{
    let a = s.deposits[tx]->Undisputed_0;
    let neg = a.spec_negate();
    assert(a.valid());
    lemma_value_negate(a);
    let av = s.available();
    let hd = s.held();
    lemma_exact_sum(av, neg);
    lemma_exact_sum(hd, a);
    let av1 = exact_sum(av, neg);
    let hd1 = exact_sum(hd, a);
    let s1 = s.dispute_step(tx)->Ok_0;
    assert(s1.available() == av1 && s1.held() == hd1);
    assert(s1.deposits[tx] == DepositState::InDispute(a));
    lemma_fits_coarser(
        av1.value() + a.value(),
        max_scale(av1.scale as nat, a.scale as nat),
        max_scale(av.scale as nat, neg.scale as nat),
    );
    lemma_fits_coarser(
        hd1.value() + neg.value(),
        max_scale(hd1.scale as nat, neg.scale as nat),
        max_scale(hd.scale as nat, a.scale as nat),
    );
    lemma_exact_sum(av1, a);
    lemma_exact_sum(hd1, neg);
}

/// Disputing a deposit and then charging it back takes the deposit's amount
/// out of the account: held is back to what it was before the dispute,
/// available is down by the amount, the deposit ends as `Chargedback` and the
/// account is frozen. This holds when none of these moves needs rounding.
pub proof fn lemma_dispute_then_chargeback(s: AccountModel, tx: TransactionID)
    requires
        s.valid(),
        s.deposits.contains_key(tx),
        s.deposits[tx] is Undisputed,
        s.available().sum_is_exact(s.deposits[tx]->Undisputed_0.spec_negate()),
        s.held().round_trip_is_exact(s.deposits[tx]->Undisputed_0),
    ensures
        s.dispute_step(tx) is Ok,
        s.dispute_step(tx)->Ok_0.chargeback_step(tx) is Ok,
        s.dispute_step(tx)->Ok_0.chargeback_step(tx)->Ok_0.held().value() == s.held().value(),
        s.dispute_step(tx)->Ok_0.chargeback_step(tx)->Ok_0.available().value() == s.available().value()
            - s.deposits[tx]->Undisputed_0.value(),
        s.dispute_step(tx)->Ok_0.chargeback_step(tx)->Ok_0.deposits[tx] == DepositState::Chargedback,
        s.dispute_step(tx)->Ok_0.chargeback_step(tx)->Ok_0.frozen,
{
    let a = s.deposits[tx]->Undisputed_0;
    let neg = a.spec_negate();
    assert(a.valid());
    lemma_value_negate(a);
    let av = s.available();
    let hd = s.held();
    lemma_exact_sum(av, neg);
    lemma_exact_sum(hd, a);
    let hd1 = exact_sum(hd, a);
    let s1 = s.dispute_step(tx)->Ok_0;
    assert(s1.held() == hd1);
    assert(s1.deposits[tx] == DepositState::InDispute(a));
    lemma_fits_coarser(
        hd1.value() + neg.value(),
        max_scale(hd1.scale as nat, neg.scale as nat),
        max_scale(hd.scale as nat, a.scale as nat),
    );
    lemma_exact_sum(hd1, neg);
}

/// A frozen account stays frozen through every transaction, refuses every
/// withdrawal with `AccountIsFrozen`, and still takes deposits: a new deposit
/// that is not negative and needs no rounding goes through.
pub proof fn lemma_frozen_is_permanent(s: AccountModel, tx: TransactionID, amount: Funds)
    requires
        s.frozen,
    ensures
        s.withdraw_step(amount) == Err::<AccountModel, AccountUpdateError>(
            AccountUpdateError::AccountIsFrozen,
        ),
        s.deposit_step(tx, amount) matches Ok(t) ==> t.frozen,
        s.dispute_step(tx) matches Ok(t) ==> t.frozen,
        s.resolve_step(tx) matches Ok(t) ==> t.frozen,
        s.chargeback_step(tx) matches Ok(t) ==> t.frozen,
        s.valid() && amount.valid() && !s.deposits.contains_key(tx) && !amount.spec_is_negative()
            && s.available().sum_is_exact(amount) ==> s.deposit_step(tx, amount) is Ok,
{
    if s.valid() && amount.valid() && s.available().sum_is_exact(amount) {
        lemma_exact_sum(s.available(), amount);
    }
}

/// Once a deposit is in dispute, disputing it again fails with
/// `TransactionNotDisputable`; so a second dispute right after a successful one
/// fails.
pub proof fn lemma_dispute_twice(s: AccountModel, tx: TransactionID)
    ensures
        s.deposits.contains_key(tx) && s.deposits[tx] is InDispute ==> s.dispute_step(tx) == Err::<
            AccountModel,
            AccountUpdateError,
        >(AccountUpdateError::TransactionNotDisputable(tx)),
        s.dispute_step(tx) matches Ok(t) ==> t.dispute_step(tx) == Err::<
            AccountModel,
            AccountUpdateError,
        >(AccountUpdateError::TransactionNotDisputable(tx)),
{
}

/// Resolving or charging back a deposit that is not in dispute fails with
/// `TransactionNotInDispute` and leaves the account, its balance included, as
/// it was.
pub proof fn lemma_settle_needs_dispute(
    s: AccountModel,
    tx: TransactionID,
    after: AccountModel,
    r: Result<(), AccountUpdateError>,
)
    requires
        !(s.deposits.contains_key(tx) && s.deposits[tx] is InDispute),
    ensures
        s.resolve_step(tx) == Err::<AccountModel, AccountUpdateError>(
            AccountUpdateError::TransactionNotInDispute(tx),
        ),
        s.chargeback_step(tx) == Err::<AccountModel, AccountUpdateError>(
            AccountUpdateError::TransactionNotInDispute(tx),
        ),
        follows(s.resolve_step(tx), s, after, r) ==> after.balance == s.balance && r == Err::<
            (),
            AccountUpdateError,
        >(AccountUpdateError::TransactionNotInDispute(tx)),
        follows(s.chargeback_step(tx), s, after, r) ==> after.balance == s.balance && r == Err::<
            (),
            AccountUpdateError,
        >(AccountUpdateError::TransactionNotInDispute(tx)),
{
}

/// A balance change that overflows surfaces as `Overflow` and leaves the
/// account, its balance included, as it was.
pub proof fn lemma_overflow_keeps_account(
    s: AccountModel,
    diff: BalanceDiff,
    after: AccountModel,
    r: Result<(), AccountUpdateError>,
)
    requires
        s.balance.spec_apply(diff) is Err,
        follows(s.moved(diff), s, after, r),
    ensures
        r == Err::<(), AccountUpdateError>(AccountUpdateError::BalanceError(FundsOpError::Overflow)),
        after == s,
{
}

} // verus!
