use magic_curves::BondingCurve;
use magic_curves::BondingCurveError;
use magic_curves::BondingCurveWithCheckedOperations;
use magic_curves::LinearBondingCurve;
use magic_curves::OperationSide;

#[test]
pub fn test_linear_price_calculus() {
    let linear = 500_000_000u64;
    let base = 1_000_000_000u64;

    let curve = LinearBondingCurve::new(linear, base);
    let r1 = curve.base;
    let r2 = 1_500_000_000u64;
    let r3 = 5_000_000_000u64;
    let r4 = 401_000_000_000u64;

    let price = curve.calculate_price(0);
    assert_eq!(price, r1);
    let price = curve.calculate_price_checked(0).unwrap();
    assert_eq!(price, r1);

    let price = curve.calculate_price(1);
    assert_eq!(price, r2);
    let price = curve.calculate_price_checked(1).unwrap();
    assert_eq!(price, r2);

    let price = curve.calculate_price(8);
    assert_eq!(price, r3);
    let price = curve.calculate_price_checked(8).unwrap();
    assert_eq!(price, r3);

    let price = curve.calculate_price(800);
    assert_eq!(price, r4);
    let price = curve.calculate_price_checked(800).unwrap();
    assert_eq!(price, r4);
}

#[test]
pub fn test_increase_linear_price_many() {
    let linear = 500_000_000u64;
    let base = 1_000_000_000u64;
    let amount = 10u64;
    let starting_supply = 100u64;

    let curve = LinearBondingCurve::new(linear, base);

    let many_price_add = curve.calculate_price_many(starting_supply, amount, OperationSide::Add);

    // Do it with a loop with calculate_price
    let mut looped_price_add = 0u64;
    for i in 0..amount {
        looped_price_add += curve.calculate_price(starting_supply + i);
    }
    assert_eq!(many_price_add, looped_price_add);

    let checked_many_price_add = curve
        .calculate_price_many_checked(starting_supply, amount, OperationSide::Add)
        .unwrap();

    assert_eq!(checked_many_price_add, looped_price_add);

    let many_price_remove =
        curve.calculate_price_many(starting_supply, amount, OperationSide::Remove);

    // Do it with a loop with calculate_price
    let mut looped_price_remove = 0u64;
    for i in 0..amount {
        looped_price_remove += curve.calculate_price(starting_supply - i);
    }

    assert_eq!(many_price_remove, looped_price_remove);

    let checked_many_price_remove = curve
        .calculate_price_many_checked(starting_supply, amount, OperationSide::Remove)
        .unwrap();

    assert_eq!(checked_many_price_remove, looped_price_remove);
}

#[test]
fn test_linear_price_many_single_unit() {
    let curve = LinearBondingCurve::new(7, 13);
    // A batch of one unit prices exactly that unit, on either side.
    assert_eq!(
        curve.calculate_price_many(25, 1, OperationSide::Add),
        curve.calculate_price(25)
    );
    assert_eq!(
        curve.calculate_price_many(25, 1, OperationSide::Remove),
        curve.calculate_price(25)
    );
}

#[test]
fn test_linear_price_many_remove_full_walk() {
    // Removing as many units as the whole supply walks down to supply 1:
    // sum of f(k) = 2k + 5 for k in 1..=10 is 2*55 + 50 = 160.
    let curve = LinearBondingCurve::new(2, 5);
    let price = curve.calculate_price_many(10, 10, OperationSide::Remove);
    assert_eq!(price, 160);
    let checked = curve
        .calculate_price_many_checked(10, 10, OperationSide::Remove)
        .unwrap();
    assert_eq!(checked, 160);
}

#[test]
fn test_linear_price_many_empty_batch() {
    let curve = LinearBondingCurve::new(3, 10);
    // An empty batch has price zero; the supply walk must still exist.
    assert_eq!(curve.calculate_price_many(5, 0, OperationSide::Add), 0);
    assert_eq!(
        curve
            .calculate_price_many_checked(5, 0, OperationSide::Add)
            .unwrap(),
        0
    );
}

#[test]
fn test_linear_checked_price_overflow() {
    let curve = LinearBondingCurve::new(u64::MAX, 1);
    // The multiplication alone already exceeds u64.
    let r = curve.calculate_price_checked(2);
    assert!(matches!(r, Err(BondingCurveError::Overflow)));
    // The addition pushes a fitting product past the maximum.
    let curve = LinearBondingCurve::new(u64::MAX / 2, u64::MAX);
    let r = curve.calculate_price_checked(1);
    assert!(matches!(r, Err(BondingCurveError::Overflow)));
    // The largest fitting price is still returned exactly.
    let curve = LinearBondingCurve::new(1, u64::MAX - 5);
    assert_eq!(curve.calculate_price_checked(5).unwrap(), u64::MAX);
}

#[test]
fn test_linear_checked_price_many_overflow() {
    // Each unit price fits, but their sum does not.
    let curve = LinearBondingCurve::new(u64::MAX / 2, 0);
    let r = curve.calculate_price_many_checked(1, 2, OperationSide::Add);
    assert!(matches!(r, Err(BondingCurveError::Overflow)));
}
