//! Bonding-curve pricing engine.
//!
//! Token prices are a pure function of circulating supply. Each curve shape
//! offers an instantaneous price at a given supply and an aggregate price for
//! a contiguous batch of units, computed in closed form rather than
//! unit by unit. Integer curves additionally offer checked variants that
//! report overflow instead of wrapping.

pub mod error;
pub mod linear;
pub mod quadratic;
pub mod series;
pub mod types;

pub use error::BondingCurveError;
pub use linear::LinearBondingCurve;
pub use quadratic::QuadraticBondingCurve;
pub use types::BondingCurve;
pub use types::BondingCurveWithCheckedOperations;
pub use types::OperationSide;
