use destiny::decimal::Decimal;

#[test]
fn constants_and_constructors() {
    assert_eq!(Decimal::zero(), Decimal::from_int(0));
    assert_eq!(Decimal::one(), Decimal::from_int(1));
    assert_eq!(Decimal::one_neg(), Decimal::from_int(-1));
    assert_eq!(Decimal::from_scaled(100_000_000), Decimal::one());
    assert!(Decimal::zero().is_zero());
    assert!(!Decimal::one().is_zero());
}

#[test]
fn addition_and_subtraction() {
    let a = Decimal::from_int(3);
    let b = Decimal::from_scaled(50_000_000); // 0.5
    assert_eq!(a.checked_add(&b).unwrap(), Decimal::from_scaled(350_000_000));
    assert_eq!(a.checked_sub(&b).unwrap(), Decimal::from_scaled(250_000_000));
    assert_eq!(b.checked_sub(&a).unwrap(), Decimal::from_scaled(-250_000_000));
}

#[test]
fn multiplication_truncates_toward_zero() {
    // 0.00000003 * 0.5 = 0.000000015, truncated to 0.00000001
    let a = Decimal::from_scaled(3);
    let b = Decimal::from_scaled(50_000_000);
    assert_eq!(a.checked_mul(&b).unwrap(), Decimal::from_scaled(1));
    // the negative product truncates toward zero as well
    let c = Decimal::from_scaled(-3);
    assert_eq!(c.checked_mul(&b).unwrap(), Decimal::from_scaled(-1));
    // 2000 * 0.0005 = 1 exactly
    let px = Decimal::from_int(2000);
    let fee = Decimal::from_scaled(50_000);
    assert_eq!(px.checked_mul(&fee).unwrap(), Decimal::one());
}

#[test]
fn division_truncates_toward_zero() {
    let a = Decimal::from_int(1);
    let b = Decimal::from_int(3);
    // 1 / 3 = 0.33333333...
    assert_eq!(a.checked_div(&b).unwrap(), Decimal::from_scaled(33_333_333));
    let neg = Decimal::from_int(-1);
    assert_eq!(neg.checked_div(&b).unwrap(), Decimal::from_scaled(-33_333_333));
    assert!(a.checked_div(&Decimal::zero()).is_none());
}

#[test]
fn multiplication_overflow_is_reported() {
    // 10^24 cannot be represented
    let big = Decimal::from_int(1_000_000);
    let huge = big.checked_mul(&big).unwrap(); // 10^12, still fine
    assert!(huge.checked_mul(&huge).is_none());
}

#[test]
fn quantize_rounds_toward_zero_to_the_tick() {
    // 2000.000000001 is not representable at 8 digits; the nearest thing a
    // caller can submit is 2000.00000001, which still violates a 0.01 grid
    let px = Decimal::from_scaled(200_000_000_001);
    let tick = Decimal::from_scaled(1_000_000); // 0.01
    assert_eq!(px.quantize(&tick).unwrap(), Decimal::from_int(2000));
    let neg = Decimal::from_scaled(-200_000_000_001);
    assert_eq!(neg.quantize(&tick).unwrap(), Decimal::from_int(-2000));
    // already on the grid
    let flat = Decimal::from_int(1999);
    assert_eq!(flat.quantize(&tick).unwrap(), flat);
    assert!(px.quantize(&Decimal::zero()).is_none());
}

#[test]
fn comparisons() {
    let a = Decimal::from_scaled(1);
    let b = Decimal::from_scaled(2);
    assert!(a.lt(&b));
    assert!(a.le(&b));
    assert!(b.gt(&a));
    assert!(b.ge(&b));
    assert_eq!(a.neg(), Decimal::from_scaled(-1));
}
