use vstd::prelude::*;

use crate::error::BondingCurveError;

verus! {

/// The side of a batch operation: whether supply is being added (a buy)
/// or removed (a sell). The side flips the direction in which every batch
/// computation walks the supply axis.
#[derive(Debug, Clone, Copy, PartialEq, Eq, Hash, Structural)]
pub enum OperationSide {
    Add,
    Remove,
}

/// Unchecked pricing over a curve shape.
///
/// `T` is the price domain. The trait leaves each shape free to say, through
/// its spec functions, exactly which inputs its arithmetic admits
/// (`price_ok`, `price_many_ok`) and exactly which value it returns
/// (`price_spec`, `price_many_spec`); the executable methods are bound to
/// those answers.
pub trait BondingCurve<T> {
    /// Which supplies the instantaneous-price arithmetic admits.
    spec fn price_ok(&self, supply: u64) -> bool;

    /// The instantaneous price at `supply`.
    spec fn price_spec(&self, supply: u64) -> T;

    /// Which batch queries the batch-price arithmetic admits.
    spec fn price_many_ok(&self, starting_supply: u64, amount: u64, side: OperationSide) -> bool;

    /// The aggregate price of `amount` units walked from `starting_supply`
    /// in the direction given by `side`.
    spec fn price_many_spec(&self, starting_supply: u64, amount: u64, side: OperationSide) -> T;

    /// Calculates the price for a single token at the given supply.
    fn calculate_price(&self, supply: u64) -> (r: T)
        requires
            self.price_ok(supply),
        ensures
            r == self.price_spec(supply),
    ;

    /// Calculates the total price for `amount` tokens starting from
    /// `starting_supply`, added or removed per `side`.
    fn calculate_price_many(&self, starting_supply: u64, amount: u64, side: OperationSide) -> (r:
        T)
        requires
            self.price_many_ok(starting_supply, amount, side),
        ensures
            r == self.price_many_spec(starting_supply, amount, side),
    ;
}

/// Checked (overflow-reporting) pricing over a curve shape.
///
/// Implemented by curves whose price domain is an integer type, the only
/// domain where overflow is well-defined. Each implementation pins down, in
/// `checked_price_spec` and `checked_price_many_spec`, both the exact inputs
/// on which `Ok` is returned and the value it carries; `Err` is returned on
/// all others.
pub trait BondingCurveWithCheckedOperations<T> {
    /// The exact outcome of the checked instantaneous-price computation.
    spec fn checked_price_spec(&self, supply: u64) -> Result<T, BondingCurveError>;

    /// Which batch queries the checked batch computation admits at all
    /// (bounds on the supply walk itself, not on the price arithmetic).
    spec fn checked_price_many_ok(&self, starting_supply: u64, amount: u64, side: OperationSide) -> bool;

    /// The exact outcome of the checked batch computation.
    spec fn checked_price_many_spec(
        &self,
        starting_supply: u64,
        amount: u64,
        side: OperationSide,
    ) -> Result<T, BondingCurveError>;

    /// Calculates the price for a single token at the given supply,
    /// reporting overflow instead of wrapping.
    fn calculate_price_checked(&self, supply: u64) -> (r: Result<T, BondingCurveError>)
        ensures
            r == self.checked_price_spec(supply),
    ;

    /// Calculates the total price for `amount` tokens starting from
    /// `starting_supply`, reporting overflow instead of wrapping.
    fn calculate_price_many_checked(
        &self,
        starting_supply: u64,
        amount: u64,
        side: OperationSide,
    ) -> (r: Result<T, BondingCurveError>)
        requires
            self.checked_price_many_ok(starting_supply, amount, side),
        ensures
            r == self.checked_price_many_spec(starting_supply, amount, side),
    ;
}

} // verus!
