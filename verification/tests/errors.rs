use magic_curves::BondingCurveError;

#[test]
fn test_error_messages() {
    assert_eq!(
        BondingCurveError::Overflow.message(),
        "An overflow occurred during the operation."
    );
    assert_eq!(
        BondingCurveError::DivisionByZero.message(),
        "A division by zero occurred during the operation."
    );
}

#[test]
fn test_error_equality() {
    assert_eq!(BondingCurveError::Overflow, BondingCurveError::Overflow);
    assert_ne!(
        BondingCurveError::Overflow,
        BondingCurveError::DivisionByZero
    );
}
