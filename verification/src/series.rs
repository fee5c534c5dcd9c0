use vstd::prelude::*;

use crate::types::OperationSide;

verus! {

/// The direction a batch walks the supply axis: `+1` when supply is added,
/// `-1` when it is removed.
pub open spec fn direction(side: OperationSide) -> int {
    match side {
        OperationSide::Add => 1,
        OperationSide::Remove => -1,
    }
}

/// The supply the `i`-th unit of a batch is priced at, walking from `start`.
pub open spec fn supply_at(start: int, i: int, side: OperationSide) -> int {
    start + direction(side) * i
}

/// A degree-two polynomial price formula: `f(x) = q·x² + l·x + b`.
/// Linear curves are the `q == 0` instance.
pub open spec fn poly_val(q: int, l: int, b: int, x: int) -> int {
    q * x * x + l * x + b
}

/// `0 + 1 + ... + (n-1)`.
pub open spec fn sum_first(n: nat) -> int
    decreases n,
{
    if n == 0 {
        0
    } else {
        sum_first((n - 1) as nat) + (n - 1)
    }
}

/// `0² + 1² + ... + (n-1)²`.
pub open spec fn sum_first_squares(n: nat) -> int
    decreases n,
{
    if n == 0 {
        0
    } else {
        sum_first_squares((n - 1) as nat) + (n - 1) * (n - 1)
    }
}

/// The aggregate price of a batch of `n` units, unit by unit: the sum of
/// `f` over the `n` consecutive supplies walked from `start` in the
/// direction of `side`, for `f(x) = q·x² + l·x + b`.
pub open spec fn poly_sum(q: int, l: int, b: int, start: int, n: nat, side: OperationSide) -> int
    decreases n,
{
    if n == 0 {
        0
    } else {
        poly_sum(q, l, b, start, (n - 1) as nat, side) + poly_val(
            q,
            l,
            b,
            supply_at(start, n - 1, side),
        )
    }
}

/// The triangular numbers satisfy `2·sum_first(n) == n·(n-1)`.
pub proof fn lemma_sum_first(n: nat)
    ensures
        2 * sum_first(n) == n * (n - 1),
        sum_first(n) >= 0,
    decreases n,
{
    if n == 0 {
        assert(n * (n - 1) == 0) by (nonlinear_arith)
            requires
                n == 0,
        ;
    } else {
        let m = (n - 1) as nat;
        lemma_sum_first(m);
        assert(sum_first(n) == sum_first(m) + m);
        assert(m * (m - 1) + 2 * m == n * (n - 1)) by (nonlinear_arith)
            requires
                n == m + 1,
        ;
    }
}

/// The square pyramidal numbers satisfy `6·sum_first_squares(n) == n·(n-1)·(2n-1)`.
pub proof fn lemma_sum_first_squares(n: nat)
    ensures
        6 * sum_first_squares(n) == n * (n - 1) * (2 * n - 1),
        sum_first_squares(n) >= 0,
    decreases n,
{
    if n == 0 {
        assert(n * (n - 1) * (2 * n - 1) == 0) by (nonlinear_arith)
            requires
                n == 0,
        ;
    } else {
        let m = (n - 1) as nat;
        lemma_sum_first_squares(m);
        assert(sum_first_squares(n) == sum_first_squares(m) + m * m);
        assert(m * (m - 1) * (2 * m - 1) + 6 * (m * m) == n * (n - 1) * (2 * n - 1))
            by (nonlinear_arith)
            requires
                n == m + 1,
        ;
    }
}

/// Closed form of the batch sum: summing `f(x) = q·x² + l·x + b` over the
/// `n` supplies walked from `a` expands, by the standard power-sum
/// identities, into terms of `sum_first` and `sum_first_squares`.
pub proof fn lemma_poly_sum_closed(q: int, l: int, b: int, a: int, n: nat, side: OperationSide)
    ensures
        poly_sum(q, l, b, a, n, side) == q * n * a * a + 2 * q * a * direction(side) * sum_first(n)
            + q * sum_first_squares(n) + l * n * a + l * direction(side) * sum_first(n) + b * n,
    decreases n,
{
    let s = direction(side);
    if n == 0 {
        assert(q * n * a * a == 0) by (nonlinear_arith)
            requires
                n == 0,
        ;
        assert(2 * q * a * s * sum_first(n) == 0) by (nonlinear_arith)
            requires
                sum_first(n) == 0,
        ;
        assert(l * n * a == 0) by (nonlinear_arith)
            requires
                n == 0,
        ;
        assert(l * s * sum_first(n) == 0) by (nonlinear_arith)
            requires
                sum_first(n) == 0,
        ;
    } else {
        let m = (n - 1) as nat;
        lemma_poly_sum_closed(q, l, b, a, m, side);
        assert(poly_sum(q, l, b, a, n, side) == poly_sum(q, l, b, a, m, side) + poly_val(
            q,
            l,
            b,
            supply_at(a, m as int, side),
        ));
        assert(supply_at(a, m as int, side) == a + s * m);
        // The price of the unit the step appends, expanded.
        assert(q * (a + s * m) * (a + s * m) == q * a * a + 2 * (q * a * (s * m)) + q * ((s * m) * (
        s * m))) by (nonlinear_arith);
        assert((s * m) * (s * m) == m * m) by (nonlinear_arith)
            requires
                s == 1 || s == -1,
        ;
        assert(l * (a + s * m) == l * a + l * (s * m)) by (nonlinear_arith);
        // Each closed-form term grows by exactly that unit's contribution.
        assert(q * n * a * a == q * m * a * a + q * a * a) by (nonlinear_arith)
            requires
                n == m + 1,
        ;
        assert(2 * q * a * s * sum_first(n) == 2 * q * a * s * sum_first(m) + 2 * (q * a * (s * m)))
            by (nonlinear_arith)
            requires
                sum_first(n) == sum_first(m) + m,
        ;
        assert(q * sum_first_squares(n) == q * sum_first_squares(m) + q * (m * m))
            by (nonlinear_arith)
            requires
                sum_first_squares(n) == sum_first_squares(m) + m * m,
        ;
        assert(l * n * a == l * m * a + l * a) by (nonlinear_arith)
            requires
                n == m + 1,
        ;
        assert(l * s * sum_first(n) == l * s * sum_first(m) + l * (s * m)) by (nonlinear_arith)
            requires
                sum_first(n) == sum_first(m) + m,
        ;
        assert(b * n == b * m + b) by (nonlinear_arith)
            requires
                n == m + 1,
        ;
    }
}

/// The arithmetic-series identity behind the linear batch formula: twice the
/// batch sum of `f(x) = l·x + b` equals `n` times the sum of the first and
/// last unit prices. Holds with no side condition; for `n == 0` both sides
/// vanish.
pub proof fn lemma_arith_series(l: int, b: int, a: int, n: nat, side: OperationSide)
    ensures
        2 * poly_sum(0, l, b, a, n, side) == n * (poly_val(0, l, b, a) + poly_val(
            0,
            l,
            b,
            supply_at(a, n - 1, side),
        )),
{
    let s = direction(side);
    lemma_poly_sum_closed(0, l, b, a, n, side);
    lemma_sum_first(n);
    assert(0 * n * a * a == 0) by (nonlinear_arith);
    assert(2 * 0 * a * s * sum_first(n) == 0) by (nonlinear_arith);
    assert(0 * sum_first_squares(n) == 0) by (nonlinear_arith);
    assert(poly_sum(0, l, b, a, n, side) == l * n * a + l * s * sum_first(n) + b * n);
    assert(poly_val(0, l, b, a) == l * a + b);
    assert(poly_val(0, l, b, supply_at(a, n - 1, side)) == l * (a + s * (n - 1)) + b);
    assert(2 * (l * n * a + l * s * sum_first(n) + b * n) == n * ((l * a + b) + (l * (a + s * (n
        - 1)) + b))) by (nonlinear_arith)
        requires
            2 * sum_first(n) == n * (n - 1),
    ;
}

/// The power-sum identities behind the quadratic batch formula, stated with
/// the exact integer divisions the closed form uses: `n·(n-1)` is always
/// even and `n·(n-1)·(2n-1)` is always divisible by 6, so dividing after
/// multiplying loses nothing.
pub proof fn lemma_quad_series(q: int, l: int, b: int, a: int, n: nat, side: OperationSide)
    ensures
        n * (n - 1) % 2 == 0,
        n * (n - 1) * (2 * n - 1) % 6 == 0,
        n * (n - 1) / 2 == sum_first(n),
        n * (n - 1) * (2 * n - 1) / 6 == sum_first_squares(n),
        poly_sum(q, l, b, a, n, side) == q * (a * a * n) + direction(side) * (q * (a * n * (n - 1)))
            + q * (n * (n - 1) * (2 * n - 1) / 6) + l * (a * n) + direction(side) * (l * (n * (n
            - 1) / 2)) + b * n,
{
    let s = direction(side);
    lemma_poly_sum_closed(q, l, b, a, n, side);
    lemma_sum_first(n);
    lemma_sum_first_squares(n);
    assert(n * (n - 1) % 2 == 0 && n * (n - 1) / 2 == sum_first(n)) by (nonlinear_arith)
        requires
            2 * sum_first(n) == n * (n - 1),
            sum_first(n) >= 0,
    ;
    assert(n * (n - 1) * (2 * n - 1) % 6 == 0 && n * (n - 1) * (2 * n - 1) / 6
        == sum_first_squares(n)) by (nonlinear_arith)
        requires
            6 * sum_first_squares(n) == n * (n - 1) * (2 * n - 1),
            sum_first_squares(n) >= 0,
    ;
    assert(q * n * a * a == q * (a * a * n)) by (nonlinear_arith);
    assert(2 * q * a * s * sum_first(n) == s * (q * (a * n * (n - 1)))) by (nonlinear_arith)
        requires
            2 * sum_first(n) == n * (n - 1),
    ;
    assert(l * n * a == l * (a * n)) by (nonlinear_arith);
    assert(l * s * sum_first(n) == s * (l * sum_first(n))) by (nonlinear_arith);
}

} // verus!
