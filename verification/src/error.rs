use vstd::prelude::*;

verus! {

/// The arithmetic failure reasons a checked pricing operation can report.
#[derive(Clone, Copy, Debug, PartialEq, Eq, Structural)]
pub enum BondingCurveError {
    /// An overflow occurred during the operation.
    Overflow,
    /// A division by zero occurred during the operation.
    DivisionByZero,
}

impl BondingCurveError {
    /// A human-readable description of the failure.
    pub fn message(&self) -> (r: &'static str)
        ensures
            (self is Overflow ==> r@ == "An overflow occurred during the operation."@),
            (self is DivisionByZero ==> r@ == "A division by zero occurred during the operation."@),
    {
        match self {
            BondingCurveError::Overflow => "An overflow occurred during the operation.",
            BondingCurveError::DivisionByZero => "A division by zero occurred during the operation.",
        }
    }
}

} // verus!
