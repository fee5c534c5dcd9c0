use vstd::prelude::*;

use crate::error::BondingCurveError;
use crate::series::lemma_arith_series;
use crate::series::poly_sum;
use crate::series::poly_val;
use crate::series::supply_at;
use crate::types::BondingCurve;
use crate::types::BondingCurveWithCheckedOperations;
use crate::types::OperationSide;

verus! {

/// A linear bonding curve: `f(x) = linear·x + base`.
///
/// `linear` is the rate of price increase per unit of supply and `base` is
/// the price of the very first token.
#[derive(Copy, Clone, Debug, PartialEq, Eq, Structural)]
pub struct LinearBondingCurve {
    pub linear: u64,
    pub base: u64,
}

impl LinearBondingCurve {
    /// Creates a new `LinearBondingCurve` with the specified linear
    /// coefficient and base price.
    pub fn new(linear: u64, base: u64) -> (r: Self)
        ensures
            r == (LinearBondingCurve { linear, base }),
    {
        Self { linear, base }
    }
}

/// The unit-by-unit batch total: the instantaneous prices of the `n` units
/// the batch walks from `start`, summed in order.
pub open spec fn unit_price_total(
    c: LinearBondingCurve,
    start: u64,
    n: nat,
    side: OperationSide,
) -> int
    decreases n,
{
    if n == 0 {
        0
    } else {
        unit_price_total(c, start, (n - 1) as nat, side) + c.price_spec(
            supply_at(start as int, n - 1, side) as u64,
        )
    }
}

/// The batch price is exactly the sum of the unit prices: pricing `amount`
/// units in one closed-form call totals the same as pricing each walked
/// supply with `calculate_price` and summing, whenever every walked supply
/// exists in `u64` and its unit price fits.
pub proof fn lemma_price_many_matches_unit_prices(
    c: LinearBondingCurve,
    starting_supply: u64,
    amount: u64,
    side: OperationSide,
)
    requires
        forall|i: int|
            0 <= i < amount ==> 0 <= #[trigger] supply_at(starting_supply as int, i, side)
                <= u64::MAX,
        forall|i: int|
            0 <= i < amount ==> c.price_ok(
                #[trigger] supply_at(starting_supply as int, i, side) as u64,
            ),
    ensures
        poly_sum(0, c.linear as int, c.base as int, starting_supply as int, amount as nat, side)
            == unit_price_total(c, starting_supply, amount as nat, side),
    decreases amount,
{
    if amount > 0 {
        lemma_price_many_matches_unit_prices(c, starting_supply, (amount - 1) as u64, side);
        let a = starting_supply as int;
        let pos = supply_at(a, amount - 1, side);
        assert(0 * pos * pos == 0) by (nonlinear_arith);
        assert(c.price_ok(pos as u64));
        assert(c.price_spec(pos as u64) == c.linear * pos + c.base);
    }
}

/// Whenever the true price would exceed `u64::MAX`, the checked price
/// computation reports `Overflow`; it never returns a wrapped value.
pub proof fn lemma_checked_price_overflow(c: LinearBondingCurve, supply: u64)
    requires
        c.linear * supply + c.base > u64::MAX,
    ensures
        c.checked_price_spec(supply) == Err::<u64, BondingCurveError>(BondingCurveError::Overflow),
{
}

/// Whenever the true batch total would exceed `u64::MAX`, the checked batch
/// computation reports `Overflow`; it never returns a wrapped value.
pub proof fn lemma_checked_price_many_overflow(
    c: LinearBondingCurve,
    starting_supply: u64,
    amount: u64,
    side: OperationSide,
)
    requires
        poly_sum(0, c.linear as int, c.base as int, starting_supply as int, amount as nat, side)
            > u64::MAX,
    ensures
        c.checked_price_many_spec(starting_supply, amount, side) == Err::<u64, BondingCurveError>(
            BondingCurveError::Overflow,
        ),
{
    let l = c.linear as int;
    let b = c.base as int;
    let a = starting_supply as int;
    let n = amount as int;
    let lastx = supply_at(a, n - 1, side);
    let first = l * a + b;
    let last = l * lastx + b;
    if first <= u64::MAX && last <= u64::MAX && first + last <= u64::MAX && (first + last) * n
        <= u64::MAX {
        lemma_arith_series(l, b, a, amount as nat, side);
        assert(0 * a * a == 0) by (nonlinear_arith);
        assert(0 * lastx * lastx == 0) by (nonlinear_arith);
        assert(n * (first + last) == (first + last) * n) by (nonlinear_arith);
        assert(false);
    }
}

impl BondingCurve<u64> for LinearBondingCurve {
    /// The unchecked arithmetic stays in range exactly when the price
    /// itself fits in `u64`.
    open spec fn price_ok(&self, supply: u64) -> bool {
        self.linear * supply + self.base <= u64::MAX
    }

    open spec fn price_spec(&self, supply: u64) -> u64 {
        (self.linear * supply + self.base) as u64
    }

    /// Every intermediate of the closed-form batch computation must fit:
    /// the supply walk itself, the first and last unit prices, their sum,
    /// and that sum times the batch size.
    open spec fn price_many_ok(&self, starting_supply: u64, amount: u64, side: OperationSide) -> bool {
        let a = starting_supply as int;
        let n = amount as int;
        let first = self.linear * a + self.base;
        let last = self.linear * supply_at(a, n - 1, side) + self.base;
        &&& match side {
            OperationSide::Add => 1 <= a + n && a + n <= u64::MAX,
            OperationSide::Remove => n <= a && a - n + 1 <= u64::MAX,
        }
        &&& first <= u64::MAX
        &&& last <= u64::MAX
        &&& first + last <= u64::MAX
        &&& n * (first + last) <= u64::MAX
    }

    /// The batch price is the unit-by-unit sum of the instantaneous prices
    /// along the walk.
    open spec fn price_many_spec(&self, starting_supply: u64, amount: u64, side: OperationSide) -> u64 {
        poly_sum(
            0,
            self.linear as int,
            self.base as int,
            starting_supply as int,
            amount as nat,
            side,
        ) as u64
    }

    /// Calculates the price based on the supply: `f(x) = linear·x + base`.
    fn calculate_price(&self, supply: u64) -> (r: u64) {
        self.linear * supply + self.base
    }

    /// Calculates the batch price as the arithmetic series
    /// `amount·(a1 + aN)/2`, where `a1` prices the first unit of the walk
    /// and `aN` the last — the closed form of summing `f` over `amount`
    /// consecutive supplies.
    fn calculate_price_many(&self, starting_supply: u64, amount: u64, side: OperationSide) -> (r:
        u64) {
        let a1 = self.linear * starting_supply + self.base;
        let an = match side {
            OperationSide::Add => self.linear * (starting_supply + amount - 1) + self.base,
            OperationSide::Remove => self.linear * (starting_supply - amount + 1) + self.base,
        };
        proof {
            let l = self.linear as int;
            let b = self.base as int;
            let a = starting_supply as int;
            let n = amount as nat;
            lemma_arith_series(l, b, a, n, side);
            assert(0 * a * a == 0) by (nonlinear_arith);
            let lastx = supply_at(a, n - 1, side);
            assert(0 * lastx * lastx == 0) by (nonlinear_arith);
            assert(a1 + an == poly_val(0, l, b, a) + poly_val(0, l, b, lastx));
        }
        (amount * (a1 + an)) / 2
    }
}

impl BondingCurveWithCheckedOperations<u64> for LinearBondingCurve {
    /// Overflow is reported exactly when the price does not fit in `u64`;
    /// otherwise the price is returned.
    open spec fn checked_price_spec(&self, supply: u64) -> Result<u64, BondingCurveError> {
        if self.linear * supply + self.base <= u64::MAX {
            Ok((self.linear * supply + self.base) as u64)
        } else {
            Err(BondingCurveError::Overflow)
        }
    }

    /// Only the supply walk itself is unchecked here: the first and last
    /// supplies of the walk must exist in `u64`.
    open spec fn checked_price_many_ok(&self, starting_supply: u64, amount: u64, side: OperationSide) -> bool {
        let a = starting_supply as int;
        let n = amount as int;
        match side {
            OperationSide::Add => 1 <= a + n && a + n <= u64::MAX,
            OperationSide::Remove => n <= a && a - n + 1 <= u64::MAX,
        }
    }

    /// Overflow is reported exactly when a step of the closed-form
    /// computation leaves `u64`; otherwise the batch price — the
    /// unit-by-unit sum of the instantaneous prices — is returned.
    open spec fn checked_price_many_spec(
        &self,
        starting_supply: u64,
        amount: u64,
        side: OperationSide,
    ) -> Result<u64, BondingCurveError> {
        let a = starting_supply as int;
        let n = amount as int;
        let first = self.linear * a + self.base;
        let last = self.linear * supply_at(a, n - 1, side) + self.base;
        if first <= u64::MAX && last <= u64::MAX && first + last <= u64::MAX && (first + last) * n
            <= u64::MAX {
            Ok(
                poly_sum(
                    0,
                    self.linear as int,
                    self.base as int,
                    starting_supply as int,
                    amount as nat,
                    side,
                ) as u64,
            )
        } else {
            Err(BondingCurveError::Overflow)
        }
    }

    /// Calculates the price with every arithmetic step checked:
    /// multiply-then-add, reporting `Overflow` on failure.
    fn calculate_price_checked(&self, supply: u64) -> (r: Result<u64, BondingCurveError>) {
        let product = match self.linear.checked_mul(supply) {
            Some(x) => x,
            None => {
                return Err(BondingCurveError::Overflow);
            },
        };
        match product.checked_add(self.base) {
            Some(x) => Ok(x),
            None => Err(BondingCurveError::Overflow),
        }
    }

    /// Calculates the batch price by the same arithmetic series as the
    /// unchecked path, with every step independently checked so that
    /// overflow at any intermediate maps to `Overflow` with no partial
    /// result.
    fn calculate_price_many_checked(
        &self,
        starting_supply: u64,
        amount: u64,
        side: OperationSide,
    ) -> (r: Result<u64, BondingCurveError>) {
        proof {
            let l = self.linear as int;
            let b = self.base as int;
            let a = starting_supply as int;
            let n = amount as nat;
            lemma_arith_series(l, b, a, n, side);
            assert(0 * a * a == 0) by (nonlinear_arith);
            let lastx = supply_at(a, n - 1, side);
            assert(0 * lastx * lastx == 0) by (nonlinear_arith);
        }
        let a1 = match self.linear.checked_mul(starting_supply) {
            Some(x) => match x.checked_add(self.base) {
                Some(y) => y,
                None => {
                    return Err(BondingCurveError::Overflow);
                },
            },
            None => {
                return Err(BondingCurveError::Overflow);
            },
        };
        let last_supply = match side {
            OperationSide::Add => starting_supply + amount - 1,
            OperationSide::Remove => starting_supply - amount + 1,
        };
        let an = match self.linear.checked_mul(last_supply) {
            Some(x) => match x.checked_add(self.base) {
                Some(y) => y,
                None => {
                    return Err(BondingCurveError::Overflow);
                },
            },
            None => {
                return Err(BondingCurveError::Overflow);
            },
        };
        let total = match a1.checked_add(an) {
            Some(x) => match x.checked_mul(amount) {
                Some(y) => y,
                None => {
                    return Err(BondingCurveError::Overflow);
                },
            },
            None => {
                return Err(BondingCurveError::Overflow);
            },
        };
        proof {
            let l = self.linear as int;
            let b = self.base as int;
            let a = starting_supply as int;
            let n = amount as nat;
            let ps = poly_sum(0, l, b, a, n, side);
            let fl = poly_val(0, l, b, a) + poly_val(0, l, b, supply_at(a, n - 1, side));
            assert(2 * ps == n * fl);
            assert(a1 + an == fl);
            assert(n * fl == fl * n) by (nonlinear_arith);
            assert(total == 2 * ps);
            assert(total / 2 == ps);
        }
        Ok(total / 2)
    }
}

} // verus!
