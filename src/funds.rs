use rust_decimal::Decimal;
use std::cmp::Ordering;
use vstd::prelude::*;

verus! {

/// Largest magnitude of a mantissa: a decimal holds 96 bits of it.
pub const MAX_MANTISSA: i128 = 79228162514264337593543950335;

/// Largest number of fractional digits a decimal carries.
pub const MAX_SCALE: u32 = 28;

#[derive(Debug, Clone, Copy, PartialEq, Eq, Structural)]
pub enum FundsOpError {
    Overflow,
}

/// `10^n`.
pub open spec fn pow10(n: nat) -> int
    decreases n,
{
    if n == 0 {
        1
    } else {
        10 * pow10((n - 1) as nat)
    }
}

/// The largest magnitude a value (counted in units of `10^-MAX_SCALE`) may have
/// when it is written with `scale` fractional digits.
pub open spec fn limit_at(scale: nat) -> int {
    MAX_MANTISSA * pow10((MAX_SCALE - scale) as nat)
}

/// Whether a value (in units of `10^-MAX_SCALE`) can be written with `scale`
/// fractional digits without rounding and without overflow.
pub open spec fn fits_at(v: int, scale: nat) -> bool {
    -limit_at(scale) <= v <= limit_at(scale)
}

/// Whether a value (in units of `10^-MAX_SCALE`) is at least `2^96` whole units
/// in magnitude: no decimal can hold it, at any scale.
pub open spec fn beyond_range(v: int) -> bool {
    let bound = (MAX_MANTISSA + 1) * pow10(MAX_SCALE as nat);
    v >= bound || v <= -bound
}

pub open spec fn max_scale(a: nat, b: nat) -> nat {
    if a >= b {
        a
    } else {
        b
    }
}

/// What `Decimal::checked_add` gives on two decimals written as (mantissa, scale).
pub uninterp spec fn decimal_sum(a: (int, nat), b: (int, nat)) -> Option<(int, nat)>;

/// What `Decimal::checked_sub` gives on two decimals written as (mantissa, scale).
pub uninterp spec fn decimal_difference(a: (int, nat), b: (int, nat)) -> Option<(int, nat)>;

/// What `Decimal::round_dp` gives on a decimal written as (mantissa, scale).
pub uninterp spec fn decimal_rounded(a: (int, nat), dp: nat) -> (int, nat);

/// An amount of money: a signed decimal `mantissa * 10^-scale`.
///
/// Every arithmetic operation on it is checked; there is no silent overflow.
#[derive(Debug, Clone, Copy)]
pub struct Funds {
    pub(crate) mantissa: i128,
    pub(crate) scale: u32,
}

impl Funds {
    #[verifier::type_invariant]
    pub open(crate) spec fn valid(self) -> bool {
        &&& -MAX_MANTISSA <= self.mantissa <= MAX_MANTISSA
        &&& self.scale <= MAX_SCALE
    }

    /// The decimal as (mantissa, scale).
    pub open(crate) spec fn parts(self) -> (int, nat) {
        (self.mantissa as int, self.scale as nat)
    }

    pub open(crate) spec fn from_parts(p: (int, nat)) -> Funds {
        Funds { mantissa: p.0 as i128, scale: p.1 as u32 }
    }

    /// The amount in units of `10^-MAX_SCALE`; two amounts are equal as money
    /// exactly when their values are.
    pub open(crate) spec fn value(self) -> int {
        self.mantissa * pow10((MAX_SCALE - self.scale) as nat)
    }

    pub open(crate) spec fn spec_is_negative(self) -> bool {
        self.mantissa < 0
    }

    pub open(crate) spec fn spec_negate(self) -> Funds {
        Funds { mantissa: (-self.mantissa) as i128, scale: self.scale }
    }

    /// The checked sum as `Decimal::checked_add` computes it: exact when it
    /// fits at the finer scale, else rounded or `None`.
    pub open(crate) spec fn spec_add(self, d: Funds) -> Option<Funds> {
        if self.sum_is_exact(d) {
            Some(exact_sum(self, d))
        } else {
            match decimal_sum(self.parts(), d.parts()) {
                Some(p) => Some(Funds::from_parts(p)),
                None => None,
            }
        }
    }

    /// The checked difference as `Decimal::checked_sub` computes it.
    pub open(crate) spec fn spec_sub(self, d: Funds) -> Option<Funds> {
        if self.difference_is_exact(d) {
            Some(exact_sum(self, d.spec_negate()))
        } else {
            match decimal_difference(self.parts(), d.parts()) {
                Some(p) => Some(Funds::from_parts(p)),
                None => None,
            }
        }
    }

    /// `self` and `d`, and their exact sum, can all be written with the finer of
    /// the two scales: then adding them does not round.
    pub open(crate) spec fn sum_is_exact(self, d: Funds) -> bool {
        let s = max_scale(self.scale as nat, d.scale as nat);
        fits_at(self.value() + d.value(), s)
    }

    pub open(crate) spec fn difference_is_exact(self, d: Funds) -> bool {
        let s = max_scale(self.scale as nat, d.scale as nat);
        fits_at(self.value() - d.value(), s)
    }

    /// Moving `self` by `d`, and back again, needs no rounding: `self` and
    /// `self + d` both fit at the finer of the two scales.
    pub open(crate) spec fn round_trip_is_exact(self, d: Funds) -> bool {
        let s = max_scale(self.scale as nat, d.scale as nat);
        fits_at(self.value(), s) && fits_at(self.value() + d.value(), s)
    }

    /// The decimal `mantissa * 10^-scale`.
    pub fn new(mantissa: i128, scale: u32) -> (r: Funds)
        requires
            -MAX_MANTISSA <= mantissa <= MAX_MANTISSA,
            scale <= MAX_SCALE,
        ensures
            r.parts() == (mantissa as int, scale as nat),
    {
        Funds { mantissa, scale }
    }

    pub fn zero() -> (r: Funds)
        ensures
            r.parts() == (0int, 0nat),
            r.value() == 0,
    {
        Funds { mantissa: 0, scale: 0 }
    }

    pub fn mantissa(&self) -> (r: i128)
        ensures
            r == self.parts().0,
    {
        self.mantissa
    }

    pub fn scale(&self) -> (r: u32)
        ensures
            r == self.parts().1,
    {
        self.scale
    }

    /// `self + n`, or `Overflow` when the sum is out of range.
    pub fn add(&self, n: Funds) -> (r: Result<Funds, FundsOpError>)
        ensures
            r == (match self.spec_add(n) {
                Some(s) => Ok(s),
                None => Err(FundsOpError::Overflow),
            }),
            self.sum_is_exact(n) ==> (r matches Ok(s) && s.value() == self.value() + n.value()
                && s.parts().1 <= max_scale(self.parts().1, n.parts().1)),
            beyond_range(self.value() + n.value()) ==> r == Err::<Funds, FundsOpError>(
                FundsOpError::Overflow,
            ),
    {
        proof {
            use_type_invariant(self);
            use_type_invariant(&n);
            lemma_parts_round_trip();
            lemma_opt_parts_injective();
            if self.sum_is_exact(n) {
                lemma_exact_sum(*self, n);
            }
        }
        match decimal_checked_add(*self, n) {
            Some(s) => Ok(s),
            None => Err(FundsOpError::Overflow),
        }
    }

    /// `self - n`, or `Overflow` when the difference is out of range.
    pub fn sub(&self, n: Funds) -> (r: Result<Funds, FundsOpError>)
        ensures
            r == (match self.spec_sub(n) {
                Some(s) => Ok(s),
                None => Err(FundsOpError::Overflow),
            }),
            self.difference_is_exact(n) ==> (r matches Ok(s) && s.value() == self.value()
                - n.value() && s.parts().1 <= max_scale(self.parts().1, n.parts().1)),
            beyond_range(self.value() - n.value()) ==> r == Err::<Funds, FundsOpError>(
                FundsOpError::Overflow,
            ),
    {
        proof {
            use_type_invariant(self);
            use_type_invariant(&n);
            lemma_parts_round_trip();
            lemma_opt_parts_injective();
            lemma_value_negate(n);
            if self.difference_is_exact(n) {
                lemma_exact_sum(*self, n.spec_negate());
            }
        }
        match decimal_checked_sub(*self, n) {
            Some(s) => Ok(s),
            None => Err(FundsOpError::Overflow),
        }
    }

    /// `-self`: the range is symmetric, so this cannot overflow.
    pub fn negate(&self) -> (r: Funds)
        ensures
            r == self.spec_negate(),
            r.value() == -self.value(),
    {
        proof {
            use_type_invariant(self);
            lemma_value_negate(*self);
        }
        Funds { mantissa: -self.mantissa, scale: self.scale }
    }

    pub fn is_negative(&self) -> (r: bool)
        ensures
            r == self.spec_is_negative(),
            r == (self.value() < 0),
    {
        proof {
            use_type_invariant(self);
            lemma_value_sign(*self);
        }
        self.mantissa < 0
    }

    /// Whether `self` is a smaller amount than `n`.
    pub fn less_than(&self, n: &Funds) -> (r: bool)
        ensures
            r == (self.value() < n.value()),
    {
        match decimal_cmp(self, n) {
            Ordering::Less => true,
            _ => false,
        }
    }

    /// Whether `self` and `n` are the same amount, whatever their scales.
    pub fn same_amount(&self, n: &Funds) -> (r: bool)
        ensures
            r == (self.value() == n.value()),
    {
        match decimal_cmp(self, n) {
            Ordering::Equal => true,
            _ => false,
        }
    }

    /// `self` rounded half to even to `dp` fractional digits.
    pub fn round_dp(&self, dp: u32) -> (r: Funds)
        ensures
            r.parts() == decimal_rounded(self.parts(), dp as nat),
            self.parts().1 <= dp ==> r == *self,
    {
        decimal_round_dp(*self, dp)
    }
}

impl PartialEq for Funds {
    /// Amounts compare as money: `1.5` equals `1.50`.
    fn eq(&self, other: &Funds) -> (r: bool) {
        self.same_amount(other)
    }
}

impl vstd::std_specs::cmp::PartialEqSpecImpl for Funds {
    open spec fn obeys_eq_spec() -> bool {
        true
    }

    open spec fn eq_spec(&self, other: &Funds) -> bool {
        self.value() == other.value()
    }
}

impl Eq for Funds {

}

pub(crate) proof fn lemma_pow10_positive(n: nat)
    ensures
        pow10(n) > 0,
    decreases n,
{
    if n > 0 {
        lemma_pow10_positive((n - 1) as nat);
    }
}

proof fn lemma_parts_round_trip()
    ensures
        forall|f: Funds| #[trigger] Funds::from_parts(f.parts()) == f,
{
}

proof fn lemma_opt_parts_injective()
    ensures
        forall|r: Option<Funds>|
            (match #[trigger] opt_parts(r) {
                Some(q) => Some(Funds::from_parts(q)),
                None => None::<Funds>,
            }) == r,
{
}

pub(crate) proof fn lemma_value_negate(f: Funds)
    requires
        f.valid(),
    ensures
        f.spec_negate().value() == -f.value(),
{
    let p = pow10((MAX_SCALE - f.scale) as nat);
    assert((-f.mantissa) * p == -(f.mantissa * p)) by (nonlinear_arith);
}

pub(crate) proof fn lemma_value_sign(f: Funds)
    ensures
        (f.mantissa < 0) == (f.value() < 0),
{
    let p = pow10((MAX_SCALE - f.scale) as nat);
    lemma_pow10_positive((MAX_SCALE - f.scale) as nat);
    if f.mantissa < 0 {
        assert(f.mantissa * p < 0) by (nonlinear_arith)
            requires
                f.mantissa < 0,
                p > 0,
        ;
    } else {
        assert(f.mantissa * p >= 0) by (nonlinear_arith)
            requires
                f.mantissa >= 0,
                p > 0,
        ;
    }
}

/// The (mantissa, scale) of an optional amount.
pub open spec fn opt_parts(r: Option<Funds>) -> Option<(int, nat)> {
    match r {
        Some(f) => Some(f.parts()),
        None => None,
    }
}

/// The exact sum of `a` and `b` as a decimal writes it: the other operand when
/// one is zero, else the sum written with the finer of the two scales.
pub open(crate) spec fn exact_sum(a: Funds, b: Funds) -> Funds {
    if a.mantissa == 0 {
        b
    } else if b.mantissa == 0 {
        a
    } else {
        let s = max_scale(a.scale as nat, b.scale as nat);
        let m = a.mantissa * pow10((s - a.scale) as nat) + b.mantissa * pow10((s - b.scale) as nat);
        Funds { mantissa: m as i128, scale: s as u32 }
    }
}

pub(crate) proof fn lemma_pow10_add(x: nat, y: nat)
    ensures
        pow10(x + y) == pow10(x) * pow10(y),
    decreases x,
{
    if x > 0 {
        lemma_pow10_add((x - 1) as nat, y);
        assert(pow10(x + y) == 10 * pow10((x - 1 + y) as nat));
        assert(10 * (pow10((x - 1) as nat) * pow10(y)) == (10 * pow10((x - 1) as nat)) * pow10(y))
            by (nonlinear_arith);
    }
}

/// A value that fits at a scale fits at every coarser one.
pub(crate) proof fn lemma_fits_coarser(v: int, s1: nat, s2: nat)
    requires
        s1 <= s2 <= MAX_SCALE,
        fits_at(v, s2),
    ensures
        fits_at(v, s1),
{
    let d = (s2 - s1) as nat;
    lemma_pow10_add((MAX_SCALE - s2) as nat, d);
    lemma_pow10_positive((MAX_SCALE - s2) as nat);
    lemma_pow10_positive(d);
    let p2 = pow10((MAX_SCALE - s2) as nat);
    let pd = pow10(d);
    assert(((MAX_SCALE - s2) + d) as nat == (MAX_SCALE - s1) as nat);
    assert(MAX_MANTISSA * p2 <= MAX_MANTISSA * (p2 * pd)) by (nonlinear_arith)
        requires
            p2 > 0,
            pd > 0,
    ;
}

/// Adding two amounts whose sum fits at the finer scale loses nothing.
pub(crate) proof fn lemma_exact_sum(a: Funds, b: Funds)
    requires
        a.valid(),
        b.valid(),
        a.sum_is_exact(b),
    ensures
        exact_sum(a, b).valid(),
        exact_sum(a, b).value() == a.value() + b.value(),
        exact_sum(a, b).scale <= max_scale(a.scale as nat, b.scale as nat),
{
    let pa = pow10((MAX_SCALE - a.scale) as nat);
    let pb = pow10((MAX_SCALE - b.scale) as nat);
    if a.mantissa == 0 {
        assert(a.mantissa * pa == 0);
    } else if b.mantissa == 0 {
        assert(b.mantissa * pb == 0);
    } else {
        let s = max_scale(a.scale as nat, b.scale as nat);
        let ps = pow10((MAX_SCALE - s) as nat);
        let qa = pow10((s - a.scale) as nat);
        let qb = pow10((s - b.scale) as nat);
        lemma_pow10_add((s - a.scale) as nat, (MAX_SCALE - s) as nat);
        lemma_pow10_add((s - b.scale) as nat, (MAX_SCALE - s) as nat);
        assert(((s - a.scale) + (MAX_SCALE - s)) as nat == (MAX_SCALE - a.scale) as nat);
        assert(((s - b.scale) + (MAX_SCALE - s)) as nat == (MAX_SCALE - b.scale) as nat);
        let m = a.mantissa * qa + b.mantissa * qb;
        assert(m * ps == a.mantissa * (qa * ps) + b.mantissa * (qb * ps)) by (nonlinear_arith)
            requires
                m == a.mantissa * qa + b.mantissa * qb,
        ;
        lemma_pow10_positive((MAX_SCALE - s) as nat);
        assert(-MAX_MANTISSA <= m <= MAX_MANTISSA) by (nonlinear_arith)
            requires
                ps > 0,
                -(MAX_MANTISSA * ps) <= m * ps <= MAX_MANTISSA * ps,
        ;
    }
}

/// Relies on rust_decimal's `Decimal::checked_add`. When the exact sum fits at
/// the finer of the two scales it is returned as it is: the other operand when
/// one is zero, else written at that scale. Otherwise the result (rounded, or
/// `None` on overflow) depends on the two decimals alone; a sum of `2^96` whole
/// units or more in magnitude overflows (a carry out of 96 bits at scale zero,
/// or a rescale that cannot reach the range).
#[verifier::external_body]
fn decimal_checked_add(a: Funds, b: Funds) -> (r: Option<Funds>)
    ensures
        a.sum_is_exact(b) ==> r == Some(exact_sum(a, b)),
        !a.sum_is_exact(b) ==> opt_parts(r) == decimal_sum(a.parts(), b.parts()),
        beyond_range(a.value() + b.value()) ==> r is None,
{
    let x = Decimal::from_i128_with_scale(a.mantissa, a.scale);
    let y = Decimal::from_i128_with_scale(b.mantissa, b.scale);
    match x.checked_add(y) {
        Some(d) => Some(Funds { mantissa: d.mantissa(), scale: d.scale() }),
        None => None,
    }
}

/// Relies on rust_decimal's `Decimal::checked_sub`. When the exact difference
/// fits at the finer of the two scales it is returned as it is: `a` when `b` is
/// zero, `-b` when `a` is zero, else written at that scale. Otherwise the result
/// depends on the two decimals alone; a difference of `2^96` whole units or
/// more in magnitude overflows.
#[verifier::external_body]
fn decimal_checked_sub(a: Funds, b: Funds) -> (r: Option<Funds>)
    ensures
        a.difference_is_exact(b) ==> r == Some(exact_sum(a, b.spec_negate())),
        !a.difference_is_exact(b) ==> opt_parts(r) == decimal_difference(a.parts(), b.parts()),
        beyond_range(a.value() - b.value()) ==> r is None,
{
    let x = Decimal::from_i128_with_scale(a.mantissa, a.scale);
    let y = Decimal::from_i128_with_scale(b.mantissa, b.scale);
    match x.checked_sub(y) {
        Some(d) => Some(Funds { mantissa: d.mantissa(), scale: d.scale() }),
        None => None,
    }
}

/// Relies on rust_decimal's `Ord for Decimal`: decimals are ordered by the
/// numbers they stand for, whatever their scales.
#[verifier::external_body]
fn decimal_cmp(a: &Funds, b: &Funds) -> (r: Ordering)
    ensures
        (r == Ordering::Less) == (a.value() < b.value()),
        (r == Ordering::Equal) == (a.value() == b.value()),
        (r == Ordering::Greater) == (a.value() > b.value()),
{
    let x = Decimal::from_i128_with_scale(a.mantissa, a.scale);
    let y = Decimal::from_i128_with_scale(b.mantissa, b.scale);
    x.cmp(&y)
}

/// Relies on rust_decimal's `Decimal::round_dp`: its result depends on the
/// decimal and `dp` alone, and a decimal with at most `dp` fractional digits is
/// returned as it is.
#[verifier::external_body]
fn decimal_round_dp(a: Funds, dp: u32) -> (r: Funds)
    ensures
        r.parts() == decimal_rounded(a.parts(), dp as nat),
        a.scale <= dp ==> r == a,
{
    let d = Decimal::from_i128_with_scale(a.mantissa, a.scale).round_dp(dp);
    Funds { mantissa: d.mantissa(), scale: d.scale() }
}

} // verus!
