use rust_decimal::Decimal;
use txk::funds::{Funds, FundsOpError};

fn from_decimal(d: Decimal) -> Funds {
    Funds::new(d.mantissa(), d.scale())
}

#[test]
fn test_pos_overflow() {
    assert_eq!(
        from_decimal(Decimal::MAX).add(Funds::new(42, 0)),
        Err(FundsOpError::Overflow),
    );
}

#[test]
fn test_neg_overflow() {
    assert_eq!(
        from_decimal(Decimal::MIN).sub(Funds::new(42, 0)),
        Err(FundsOpError::Overflow),
    );
}

#[test]
fn test_neg() {
    assert_eq!(from_decimal(Decimal::MIN).negate(), from_decimal(-Decimal::MIN));
    assert_eq!(from_decimal(Decimal::MAX).negate(), from_decimal(-Decimal::MAX));
}

#[test]
fn add_and_sub_are_exact_at_finer_scale() {
    let sum = Funds::new(15, 1).add(Funds::new(25, 2)).expect("To succeed");
    assert_eq!(sum.mantissa(), 175);
    assert_eq!(sum.scale(), 2);
    let diff = Funds::new(15, 1).sub(Funds::new(25, 2)).expect("To succeed");
    assert_eq!(diff.mantissa(), 125);
    assert_eq!(diff.scale(), 2);
}

#[test]
fn comparison_ignores_scale() {
    assert_eq!(Funds::new(15, 1), Funds::new(150, 2));
    assert!(Funds::new(15, 1).same_amount(&Funds::new(1500, 3)));
    assert!(Funds::new(-1, 0).less_than(&Funds::new(0, 5)));
    assert!(!Funds::new(2, 0).less_than(&Funds::new(19, 1)));
    assert!(Funds::new(-1, 2).is_negative());
    assert!(!Funds::zero().is_negative());
}

#[test]
fn round_dp_rounds_half_to_even() {
    let r = Funds::new(12345, 4).round_dp(3);
    assert_eq!(r.mantissa(), 1234);
    assert_eq!(r.scale(), 3);
    let r = Funds::new(12355, 4).round_dp(3);
    assert_eq!(r.mantissa(), 1236);
    let kept = Funds::new(15, 1).round_dp(4);
    assert_eq!(kept.mantissa(), 15);
    assert_eq!(kept.scale(), 1);
}
