use vstd::prelude::*;

use crate::error::BondingCurveError;
use crate::series::lemma_quad_series;
use crate::series::poly_sum;
use crate::series::sum_first_squares;
use crate::series::supply_at;
use crate::types::BondingCurve;
use crate::types::BondingCurveWithCheckedOperations;
use crate::types::OperationSide;

verus! {

/// A quadratic bonding curve: `f(x) = quadratic·x² + linear·x + base`.
#[derive(Copy, Clone, Debug, PartialEq, Eq, Structural)]
pub struct QuadraticBondingCurve {
    pub quadratic: u64,
    pub linear: u64,
    pub base: u64,
}

impl QuadraticBondingCurve {
    /// Creates a new `QuadraticBondingCurve` with the specified
    /// coefficients.
    pub fn new(quadratic: u64, linear: u64, base: u64) -> (r: Self)
        ensures
            r == (QuadraticBondingCurve { quadratic, linear, base }),
    {
        Self { quadratic, linear, base }
    }
}

/// Every intermediate of the unchecked closed-form batch computation, in the
/// order the formula evaluates them. The batch walks `n` supplies from `a`;
/// each product, partial sum and subtraction must stay inside `u64`.
pub open spec fn quad_many_steps_fit(
    c: QuadraticBondingCurve,
    a: int,
    n: int,
    side: OperationSide,
) -> bool {
    let qq = c.quadratic as int;
    let l = c.linear as int;
    let bb = c.base as int;
    let t1 = qq * a * a * n;
    let t2 = qq * a * n * (n - 1);
    let t3 = qq * n * (n - 1) * (2 * n - 1) / 6;
    let sq = match side {
        OperationSide::Add => t1 + t2 + t3,
        OperationSide::Remove => t1 - t2 + t3,
    };
    let half = n * (n - 1) / 2;
    let inner = match side {
        OperationSide::Add => a * n + half,
        OperationSide::Remove => a * n - half,
    };
    let sl = l * inner;
    let sc = bb * n;
    &&& n >= 1
    &&& qq * a <= u64::MAX
    &&& qq * a * a <= u64::MAX
    &&& t1 <= u64::MAX
    &&& qq * a * n <= u64::MAX
    &&& t2 <= u64::MAX
    &&& qq * n <= u64::MAX
    &&& qq * n * (n - 1) <= u64::MAX
    &&& 2 * n <= u64::MAX
    &&& qq * n * (n - 1) * (2 * n - 1) <= u64::MAX
    &&& match side {
        OperationSide::Add => t1 + t2 <= u64::MAX,
        OperationSide::Remove => t2 <= t1,
    }
    &&& sq <= u64::MAX
    &&& a * n <= u64::MAX
    &&& n * (n - 1) <= u64::MAX
    &&& match side {
        OperationSide::Add => a * n + half <= u64::MAX,
        OperationSide::Remove => half <= a * n,
    }
    &&& sl <= u64::MAX
    &&& sc <= u64::MAX
    &&& sq + sl <= u64::MAX
    &&& sq + sl + sc <= u64::MAX
}

/// Every intermediate of the checked closed-form batch computation, in the
/// order the checked steps evaluate them. The checked path groups its
/// products differently from the unchecked one, so the steps differ.
pub open spec fn quad_many_checked_steps_fit(
    c: QuadraticBondingCurve,
    a: int,
    n: int,
    side: OperationSide,
) -> bool {
    let qq = c.quadratic as int;
    let l = c.linear as int;
    let bb = c.base as int;
    let ft = qq * (a * a * n);
    let st = qq * (a * n * (n - 1));
    let tt = qq * (n * (n - 1) * (2 * n - 1) / 6);
    let sq = match side {
        OperationSide::Add => ft + st + tt,
        OperationSide::Remove => ft - st + tt,
    };
    let half = n * (n - 1) / 2;
    let inner = match side {
        OperationSide::Add => a * n + half,
        OperationSide::Remove => a * n - half,
    };
    let sl = l * inner;
    let sc = bb * n;
    &&& n >= 1
    &&& a * a <= u64::MAX
    &&& a * a * n <= u64::MAX
    &&& ft <= u64::MAX
    &&& a * n <= u64::MAX
    &&& a * n * (n - 1) <= u64::MAX
    &&& st <= u64::MAX
    &&& 2 * n <= u64::MAX
    &&& n * (n - 1) <= u64::MAX
    &&& n * (n - 1) * (2 * n - 1) <= u64::MAX
    &&& tt <= u64::MAX
    &&& match side {
        OperationSide::Add => ft + st <= u64::MAX,
        OperationSide::Remove => st <= ft,
    }
    &&& sq <= u64::MAX
    &&& match side {
        OperationSide::Add => a * n + half <= u64::MAX,
        OperationSide::Remove => half <= a * n,
    }
    &&& sl <= u64::MAX
    &&& sc <= u64::MAX
    &&& sq + sl <= u64::MAX
    &&& sq + sl + sc <= u64::MAX
}

/// The unit-by-unit batch total: the instantaneous prices of the `n` units
/// the batch walks from `start`, summed in order.
pub open spec fn unit_price_total(
    c: QuadraticBondingCurve,
    start: u64,
    n: nat,
    side: OperationSide,
) -> int
    decreases n,
{
    if n == 0 {
        0
    } else {
        unit_price_total(c, start, (n - 1) as nat, side) + c.price_spec(
            supply_at(start as int, n - 1, side) as u64,
        )
    }
}

/// The batch price is exactly the sum of the unit prices: pricing `amount`
/// units in one closed-form call totals the same as pricing each walked
/// supply with `calculate_price` and summing, whenever every walked supply
/// exists in `u64` and its unit price fits.
pub proof fn lemma_price_many_matches_unit_prices(
    c: QuadraticBondingCurve,
    starting_supply: u64,
    amount: u64,
    side: OperationSide,
)
    requires
        forall|i: int|
            0 <= i < amount ==> 0 <= #[trigger] supply_at(starting_supply as int, i, side)
                <= u64::MAX,
        forall|i: int|
            0 <= i < amount ==> c.price_ok(
                #[trigger] supply_at(starting_supply as int, i, side) as u64,
            ),
    ensures
        poly_sum(
            c.quadratic as int,
            c.linear as int,
            c.base as int,
            starting_supply as int,
            amount as nat,
            side,
        ) == unit_price_total(c, starting_supply, amount as nat, side),
    decreases amount,
{
    if amount > 0 {
        lemma_price_many_matches_unit_prices(c, starting_supply, (amount - 1) as u64, side);
        let a = starting_supply as int;
        let pos = supply_at(a, amount - 1, side);
        assert(c.price_ok(pos as u64));
        assert(c.price_spec(pos as u64) == c.quadratic * pos * pos + c.linear * pos + c.base);
    }
}

/// Whenever the true price would exceed `u64::MAX`, the checked price
/// computation reports `Overflow`; it never returns a wrapped value.
pub proof fn lemma_checked_price_overflow(c: QuadraticBondingCurve, supply: u64)
    requires
        c.quadratic * supply * supply + c.linear * supply + c.base > u64::MAX,
    ensures
        c.checked_price_spec(supply) == Err::<u64, BondingCurveError>(BondingCurveError::Overflow),
{
}

/// When every checked step fits, the closed form the checked path computes
/// is the batch sum, so that sum fits in `u64` as well.
proof fn lemma_checked_steps_bound_total(
    c: QuadraticBondingCurve,
    starting_supply: u64,
    amount: u64,
    side: OperationSide,
)
    requires
        quad_many_checked_steps_fit(c, starting_supply as int, amount as int, side),
    ensures
        poly_sum(
            c.quadratic as int,
            c.linear as int,
            c.base as int,
            starting_supply as int,
            amount as nat,
            side,
        ) <= u64::MAX,
{
    let qq = c.quadratic as int;
    let l = c.linear as int;
    let bb = c.base as int;
    let ai = starting_supply as int;
    let ni = amount as nat;
    lemma_quad_series(qq, l, bb, ai, ni, side);
    match side {
        OperationSide::Add => {
            assert(l * (ai * ni + ni * (ni - 1) / 2) == l * (ai * ni) + l * (ni * (ni - 1) / 2))
                by (nonlinear_arith);
        },
        OperationSide::Remove => {
            assert(l * (ai * ni - ni * (ni - 1) / 2) == l * (ai * ni) - l * (ni * (ni - 1) / 2))
                by (nonlinear_arith);
        },
    }
}

/// Whenever the true batch total would exceed `u64::MAX`, the checked batch
/// computation reports `Overflow`; it never returns a wrapped value.
pub proof fn lemma_checked_price_many_overflow(
    c: QuadraticBondingCurve,
    starting_supply: u64,
    amount: u64,
    side: OperationSide,
)
    requires
        poly_sum(
            c.quadratic as int,
            c.linear as int,
            c.base as int,
            starting_supply as int,
            amount as nat,
            side,
        ) > u64::MAX,
    ensures
        c.checked_price_many_spec(starting_supply, amount, side) == Err::<u64, BondingCurveError>(
            BondingCurveError::Overflow,
        ),
{
    if quad_many_checked_steps_fit(c, starting_supply as int, amount as int, side) {
        lemma_checked_steps_bound_total(c, starting_supply, amount, side);
        assert(false);
    }
}

impl BondingCurve<u64> for QuadraticBondingCurve {
    /// The unchecked arithmetic stays in range exactly when the price
    /// itself fits in `u64`.
    open spec fn price_ok(&self, supply: u64) -> bool {
        self.quadratic * supply * supply + self.linear * supply + self.base <= u64::MAX
    }

    open spec fn price_spec(&self, supply: u64) -> u64 {
        (self.quadratic * supply * supply + self.linear * supply + self.base) as u64
    }

    open spec fn price_many_ok(&self, starting_supply: u64, amount: u64, side: OperationSide) -> bool {
        quad_many_steps_fit(*self, starting_supply as int, amount as int, side)
    }

    /// The batch price is the unit-by-unit sum of the instantaneous prices
    /// along the walk.
    open spec fn price_many_spec(&self, starting_supply: u64, amount: u64, side: OperationSide) -> u64 {
        poly_sum(
            self.quadratic as int,
            self.linear as int,
            self.base as int,
            starting_supply as int,
            amount as nat,
            side,
        ) as u64
    }

    /// Calculates the price based on the supply:
    /// `f(x) = quadratic·x² + linear·x + base`.
    fn calculate_price(&self, supply: u64) -> (r: u64) {
        proof {
            let qq = self.quadratic as int;
            let l = self.linear as int;
            let s = supply as int;
            assert(qq * s * s >= 0 && l * s >= 0) by (nonlinear_arith)
                requires
                    qq >= 0 && l >= 0 && s >= 0,
            ;
            assert(qq * s <= qq * s * s + l * s) by (nonlinear_arith)
                requires
                    qq >= 0 && l >= 0 && s >= 0,
            ;
        }
        self.quadratic * supply * supply + self.linear * supply + self.base
    }

    /// Calculates the batch price by the closed-form decomposition into the
    /// quadratic, linear and constant term sums, using the power-sum
    /// identities; the cross term flips sign between adding and removing
    /// because removing walks the same progression backward.
    fn calculate_price_many(&self, starting_supply: u64, amount: u64, side: OperationSide) -> (r:
        u64) {
        let n = amount;
        let a = starting_supply;

        let sum_quadratic = match side {
            OperationSide::Add => (self.quadratic * a * a * n) + (self.quadratic * a * n * (n - 1))
                + (self.quadratic * n * (n - 1) * (2 * n - 1) / 6),
            OperationSide::Remove => (self.quadratic * a * a * n) - (self.quadratic * a * n * (n
                - 1)) + (self.quadratic * n * (n - 1) * (2 * n - 1) / 6),
        };

        let sum_linear = match side {
            OperationSide::Add => self.linear * (a * n + n * (n - 1) / 2),
            OperationSide::Remove => self.linear * (a * n - n * (n - 1) / 2),
        };

        let sum_constant = self.base * n;

        proof {
            let qq = self.quadratic as int;
            let l = self.linear as int;
            let bb = self.base as int;
            let ai = starting_supply as int;
            let ni = amount as nat;
            lemma_quad_series(qq, l, bb, ai, ni, side);
            assert(qq * ai * ai * ni == qq * (ai * ai * ni)) by (nonlinear_arith);
            assert(qq * ai * ni * (ni - 1) == qq * (ai * ni * (ni - 1))) by (nonlinear_arith);
            assert(qq * ni * (ni - 1) * (2 * ni - 1) == qq * (ni * (ni - 1) * (2 * ni - 1)))
                by (nonlinear_arith);
            assert(qq * (6 * sum_first_squares(ni)) == 6 * (qq * sum_first_squares(ni)))
                by (nonlinear_arith);
            match side {
                OperationSide::Add => {
                    assert(l * (ai * ni + ni * (ni - 1) / 2) == l * (ai * ni) + l * (ni * (ni - 1)
                        / 2)) by (nonlinear_arith);
                },
                OperationSide::Remove => {
                    assert(l * (ai * ni - ni * (ni - 1) / 2) == l * (ai * ni) - l * (ni * (ni - 1)
                        / 2)) by (nonlinear_arith);
                },
            }
        }
        sum_quadratic + sum_linear + sum_constant
    }
}

impl BondingCurveWithCheckedOperations<u64> for QuadraticBondingCurve {
    /// Overflow is reported exactly when the price does not fit in `u64`;
    /// otherwise the price is returned.
    open spec fn checked_price_spec(&self, supply: u64) -> Result<u64, BondingCurveError> {
        if self.quadratic * supply * supply + self.linear * supply + self.base <= u64::MAX {
            Ok((self.quadratic * supply * supply + self.linear * supply + self.base) as u64)
        } else {
            Err(BondingCurveError::Overflow)
        }
    }

    /// The checked path performs no unchecked arithmetic, so every query is
    /// admitted.
    open spec fn checked_price_many_ok(&self, starting_supply: u64, amount: u64, side: OperationSide) -> bool {
        true
    }

    /// Overflow is reported exactly when the batch is empty (the `n-1`
    /// factor of the power-sum identities has no checked value) or a step
    /// of the closed-form computation leaves `u64`; otherwise the batch
    /// price — the unit-by-unit sum of the instantaneous prices — is
    /// returned.
    open spec fn checked_price_many_spec(
        &self,
        starting_supply: u64,
        amount: u64,
        side: OperationSide,
    ) -> Result<u64, BondingCurveError> {
        if quad_many_checked_steps_fit(*self, starting_supply as int, amount as int, side) {
            Ok(
                poly_sum(
                    self.quadratic as int,
                    self.linear as int,
                    self.base as int,
                    starting_supply as int,
                    amount as nat,
                    side,
                ) as u64,
            )
        } else {
            Err(BondingCurveError::Overflow)
        }
    }

    /// Calculates the price with three checked multiplications and two
    /// checked additions, short-circuiting to `Overflow`.
    fn calculate_price_checked(&self, supply: u64) -> (r: Result<u64, BondingCurveError>) {
        proof {
            let qq = self.quadratic as int;
            let l = self.linear as int;
            let s = supply as int;
            assert(qq * s * s >= 0 && l * s >= 0) by (nonlinear_arith)
                requires
                    qq >= 0 && l >= 0 && s >= 0,
            ;
            assert(s >= 1 ==> qq * s <= qq * s * s) by (nonlinear_arith)
                requires
                    qq >= 0 && s >= 0,
            ;
            assert(s == 0 ==> qq * s == 0 && l * s == 0 && qq * s * s == 0) by (nonlinear_arith);
        }
        let qs = match self.quadratic.checked_mul(supply) {
            Some(x) => x,
            None => {
                return Err(BondingCurveError::Overflow);
            },
        };
        let qss = match qs.checked_mul(supply) {
            Some(x) => x,
            None => {
                return Err(BondingCurveError::Overflow);
            },
        };
        let ls = match self.linear.checked_mul(supply) {
            Some(x) => x,
            None => {
                return Err(BondingCurveError::Overflow);
            },
        };
        let partial = match qss.checked_add(ls) {
            Some(x) => x,
            None => {
                return Err(BondingCurveError::Overflow);
            },
        };
        match partial.checked_add(self.base) {
            Some(x) => Ok(x),
            None => Err(BondingCurveError::Overflow),
        }
    }

    /// Calculates the batch price by the same closed-form decomposition as
    /// the unchecked path, with every sub-term computed and bounds-checked
    /// independently before being summed, so the error surfaced is always
    /// `Overflow` and never a silently wrapped partial result.
    fn calculate_price_many_checked(
        &self,
        starting_supply: u64,
        amount: u64,
        side: OperationSide,
    ) -> (r: Result<u64, BondingCurveError>) {
        let n = amount;
        let a = starting_supply;
        let n_minus_1 = match n.checked_sub(1) {
            Some(x) => x,
            None => {
                return Err(BondingCurveError::Overflow);
            },
        };

        // Sum of quadratic terms.
        let aa = match a.checked_mul(a) {
            Some(x) => x,
            None => {
                return Err(BondingCurveError::Overflow);
            },
        };
        let aan = match aa.checked_mul(n) {
            Some(x) => x,
            None => {
                return Err(BondingCurveError::Overflow);
            },
        };
        let first_term = match self.quadratic.checked_mul(aan) {
            Some(x) => x,
            None => {
                return Err(BondingCurveError::Overflow);
            },
        };
        let an = match a.checked_mul(n) {
            Some(x) => x,
            None => {
                return Err(BondingCurveError::Overflow);
            },
        };
        let ann = match an.checked_mul(n_minus_1) {
            Some(x) => x,
            None => {
                return Err(BondingCurveError::Overflow);
            },
        };
        let second_term = match self.quadratic.checked_mul(ann) {
            Some(x) => x,
            None => {
                return Err(BondingCurveError::Overflow);
            },
        };
        let two_n = match 2u64.checked_mul(n) {
            Some(x) => x,
            None => {
                return Err(BondingCurveError::Overflow);
            },
        };
        let third_term_pow = match two_n.checked_sub(1) {
            Some(x) => x,
            None => {
                return Err(BondingCurveError::Overflow);
            },
        };
        let nn = match n.checked_mul(n_minus_1) {
            Some(x) => x,
            None => {
                return Err(BondingCurveError::Overflow);
            },
        };
        let nnp = match nn.checked_mul(third_term_pow) {
            Some(x) => x,
            None => {
                return Err(BondingCurveError::Overflow);
            },
        };
        let nnp6 = match nnp.checked_div(6) {
            Some(x) => x,
            None => {
                return Err(BondingCurveError::Overflow);
            },
        };
        let third_term = match self.quadratic.checked_mul(nnp6) {
            Some(x) => x,
            None => {
                return Err(BondingCurveError::Overflow);
            },
        };
        let sum_quadratic = match side {
            OperationSide::Add => match first_term.checked_add(second_term) {
                Some(x) => match x.checked_add(third_term) {
                    Some(y) => y,
                    None => {
                        return Err(BondingCurveError::Overflow);
                    },
                },
                None => {
                    return Err(BondingCurveError::Overflow);
                },
            },
            OperationSide::Remove => match first_term.checked_sub(second_term) {
                Some(x) => match x.checked_add(third_term) {
                    Some(y) => y,
                    None => {
                        return Err(BondingCurveError::Overflow);
                    },
                },
                None => {
                    return Err(BondingCurveError::Overflow);
                },
            },
        };

        // Sum of linear terms.
        let half = match nn.checked_div(2) {
            Some(x) => x,
            None => {
                return Err(BondingCurveError::Overflow);
            },
        };
        let inner = match side {
            OperationSide::Add => match an.checked_add(half) {
                Some(x) => x,
                None => {
                    return Err(BondingCurveError::Overflow);
                },
            },
            OperationSide::Remove => match an.checked_sub(half) {
                Some(x) => x,
                None => {
                    return Err(BondingCurveError::Overflow);
                },
            },
        };
        let sum_linear = match self.linear.checked_mul(inner) {
            Some(x) => x,
            None => {
                return Err(BondingCurveError::Overflow);
            },
        };

        // Sum of constant terms.
        let sum_constant = match self.base.checked_mul(n) {
            Some(x) => x,
            None => {
                return Err(BondingCurveError::Overflow);
            },
        };

        // Final sum.
        let total = match sum_quadratic.checked_add(sum_linear) {
            Some(x) => match x.checked_add(sum_constant) {
                Some(y) => y,
                None => {
                    return Err(BondingCurveError::Overflow);
                },
            },
            None => {
                return Err(BondingCurveError::Overflow);
            },
        };

        proof {
            let qq = self.quadratic as int;
            let l = self.linear as int;
            let bb = self.base as int;
            let ai = starting_supply as int;
            let ni = amount as nat;
            lemma_quad_series(qq, l, bb, ai, ni, side);
            assert(qq * (6 * sum_first_squares(ni)) == 6 * (qq * sum_first_squares(ni)))
                by (nonlinear_arith);
            match side {
                OperationSide::Add => {
                    assert(l * (ai * ni + ni * (ni - 1) / 2) == l * (ai * ni) + l * (ni * (ni - 1)
                        / 2)) by (nonlinear_arith);
                },
                OperationSide::Remove => {
                    assert(l * (ai * ni - ni * (ni - 1) / 2) == l * (ai * ni) - l * (ni * (ni - 1)
                        / 2)) by (nonlinear_arith);
                },
            }
        }
        Ok(total)
    }
}

} // verus!
