use crate::funds::{Funds, FundsOpError};
use vstd::prelude::*;

verus! {

/// What applying an optional delta to one component gives: the component
/// itself when there is no delta, else the checked sum.
pub open spec fn component_after(x: Funds, d: Option<Funds>) -> Option<Funds> {
    match d {
        Some(delta) => x.spec_add(delta),
        None => Some(x),
    }
}

/// The funds of an account: what may be withdrawn (`available`) and what is
/// held back by open disputes (`held`). The total is their sum.
///
/// A balance is never changed in place: applying a [`BalanceDiff`] gives a new
/// one, or an error that leaves the caller with the old one.
#[derive(Debug, Clone, Copy, PartialEq, Eq)]
pub struct Balance {
    pub(crate) available: Funds,
    pub(crate) held: Funds,
}

/// A change to a [`Balance`]: an optional delta to each component.
#[derive(Debug, Clone, Copy, PartialEq, Eq)]
pub struct BalanceDiff {
    pub(crate) available: Option<Funds>,
    pub(crate) held: Option<Funds>,
}

impl Balance {
    pub open(crate) spec fn spec_available(self) -> Funds {
        self.available
    }

    pub open(crate) spec fn spec_held(self) -> Funds {
        self.held
    }

    /// Zero available, zero held.
    pub open(crate) spec fn empty() -> Balance {
        Balance { available: Funds { mantissa: 0, scale: 0 }, held: Funds { mantissa: 0, scale: 0 } }
    }

    /// Each component moved by its delta; `Overflow` if either sum overflows.
    pub open(crate) spec fn spec_apply(self, diff: BalanceDiff) -> Result<Balance, FundsOpError> {
        match (
            component_after(self.available, diff.available),
            component_after(self.held, diff.held),
        ) {
            (Some(a), Some(h)) => Ok(Balance { available: a, held: h }),
            _ => Err(FundsOpError::Overflow),
        }
    }

    pub fn new() -> (r: Balance)
        ensures
            r == Balance::empty(),
    {
        Balance { available: Funds::zero(), held: Funds::zero() }
    }

    pub fn available(&self) -> (r: Funds)
        ensures
            r == self.spec_available(),
    {
        self.available
    }

    pub fn held(&self) -> (r: Funds)
        ensures
            r == self.spec_held(),
    {
        self.held
    }

    /// The balance with `diff` applied, each component checked on its own.
    pub fn apply(self, diff: BalanceDiff) -> (r: Result<Balance, FundsOpError>)
        ensures
            r == self.spec_apply(diff),
    {
        let available = match diff.available {
            Some(da) => match self.available.add(da) {
                Ok(a) => a,
                Err(e) => {
                    return Err(e);
                },
            },
            None => self.available,
        };
        let held = match diff.held {
            Some(dh) => match self.held.add(dh) {
                Ok(h) => h,
                Err(e) => {
                    return Err(e);
                },
            },
            None => self.held,
        };
        Ok(Balance { available, held })
    }
}

impl Default for Balance {
    fn default() -> (r: Balance)
        ensures
            r == Balance::empty(),
    {
        Balance::new()
    }
}

impl BalanceDiff {
    pub open(crate) spec fn available_delta(self) -> Option<Funds> {
        self.available
    }

    pub open(crate) spec fn held_delta(self) -> Option<Funds> {
        self.held
    }

    /// No change to either component.
    pub fn new() -> (r: BalanceDiff)
        ensures
            r.available_delta() is None,
            r.held_delta() is None,
    {
        BalanceDiff { available: None, held: None }
    }

    pub fn with_available(self, da: Funds) -> (r: BalanceDiff)
        ensures
            r.available_delta() == Some(da),
            r.held_delta() == self.held_delta(),
    {
        BalanceDiff { available: Some(da), held: self.held }
    }

    pub fn with_held(self, dh: Funds) -> (r: BalanceDiff)
        ensures
            r.available_delta() == self.available_delta(),
            r.held_delta() == Some(dh),
    {
        BalanceDiff { available: self.available, held: Some(dh) }
    }
}

impl Default for BalanceDiff {
    fn default() -> (r: BalanceDiff)
        ensures
            r.available_delta() is None,
            r.held_delta() is None,
    {
        BalanceDiff::new()
    }
}

} // verus!
