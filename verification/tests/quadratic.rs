use magic_curves::BondingCurve;
use magic_curves::BondingCurveError;
use magic_curves::BondingCurveWithCheckedOperations;
use magic_curves::OperationSide;
use magic_curves::QuadraticBondingCurve;

#[test]
pub fn test_quadratic_price_calculus() {
    let curve = QuadraticBondingCurve::new(10_000_000, 500_000_000, 1_000_000_000);

    let r1 = curve.base;
    let r2 = 1_510_000_000u64;
    let r3 = 5_640_000_000u64;
    let r4 = 6_801_000_000_000u64;

    // Minimum cost is base.
    let price = curve.calculate_price_checked(0).unwrap();
    assert_eq!(price, r1);
    let price = curve.calculate_price_checked(0).unwrap();
    assert_eq!(price, r1);

    let price = curve.calculate_price(1);
    assert_eq!(price, r2);
    let price = curve.calculate_price_checked(1).unwrap();
    assert_eq!(price, r2);

    let price = curve.calculate_price(8);
    assert_eq!(price, r3);
    let price = curve.calculate_price_checked(8).unwrap();
    assert_eq!(price, r3);

    let price = curve.calculate_price(800);
    assert_eq!(price, r4);
    let price = curve.calculate_price_checked(800).unwrap();
    assert_eq!(price, r4);
}

#[test]
pub fn test_quadratic_price_many_calculus() {
    let quadratic = 10_000_000u64;
    let linear = 500_000_000u64;
    let base = 1_000_000_000u64;
    let amount = 10u64;
    let starting_supply = 100u64;

    let curve = QuadraticBondingCurve::new(quadratic, linear, base);

    let many_price_add = curve.calculate_price_many(starting_supply, amount, OperationSide::Add);
    // Do it with a loop with calculate_price
    let mut looped_price_add = 0u64;
    for i in 0..amount {
        looped_price_add += curve.calculate_price(starting_supply + i);
    }
    assert_eq!(looped_price_add, many_price_add);
    let checked_many_price_add = curve
        .calculate_price_many_checked(starting_supply, amount, OperationSide::Add)
        .unwrap();
    assert_eq!(checked_many_price_add, many_price_add);

    let many_price_remove =
        curve.calculate_price_many(starting_supply, amount, OperationSide::Remove);
    // Do it with a loop with calculate_price
    let mut looped_price_remove = 0u64;
    for i in 0..amount {
        looped_price_remove += curve.calculate_price(starting_supply - i);
    }
    assert_eq!(looped_price_remove, many_price_remove);
    let checked_many_price_remove = curve
        .calculate_price_many_checked(starting_supply, amount, OperationSide::Remove)
        .unwrap();
    assert_eq!(checked_many_price_remove, many_price_remove);
}

#[test]
fn test_quadratic_price_many_single_unit() {
    let curve = QuadraticBondingCurve::new(3, 7, 13);
    assert_eq!(
        curve.calculate_price_many(25, 1, OperationSide::Add),
        curve.calculate_price(25)
    );
    assert_eq!(
        curve.calculate_price_many(25, 1, OperationSide::Remove),
        curve.calculate_price(25)
    );
}

#[test]
fn test_quadratic_checked_price_overflow() {
    let curve = QuadraticBondingCurve::new(u64::MAX, 0, 0);
    // The square term alone already exceeds u64.
    let r = curve.calculate_price_checked(2);
    assert!(matches!(r, Err(BondingCurveError::Overflow)));
    // The final addition pushes a fitting sum past the maximum.
    let curve = QuadraticBondingCurve::new(1, 0, u64::MAX);
    let r = curve.calculate_price_checked(1);
    assert!(matches!(r, Err(BondingCurveError::Overflow)));
}

#[test]
fn test_quadratic_checked_price_many_overflow() {
    // Each unit price fits, but their sum does not.
    let curve = QuadraticBondingCurve::new(u64::MAX / 10, 0, 0);
    let r = curve.calculate_price_many_checked(2, 2, OperationSide::Add);
    assert!(matches!(r, Err(BondingCurveError::Overflow)));
}

#[test]
fn test_quadratic_checked_price_many_empty_batch() {
    // The power-sum identities need an `n - 1` factor, so the checked path
    // reports an empty batch as a failed checked subtraction.
    let curve = QuadraticBondingCurve::new(1, 1, 1);
    let r = curve.calculate_price_many_checked(10, 0, OperationSide::Add);
    assert!(matches!(r, Err(BondingCurveError::Overflow)));
}
