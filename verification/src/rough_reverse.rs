//! The derivatives of the volatility loadings of a fractional driver: with
//! respect to its exponent and its volatility of volatility, and with respect to
//! the correlations of the drivers.

use crate::bergomi::{is_positive, one_factor_matrix, positive};
use crate::cholesky::{tangent, tangent_columns, tangent_shape};
use crate::correlation_reverse::{are_pivots_open, pivots_open};
use crate::dynamics::KernelNumerics;
use crate::errors::{
    invalid, invalid_field, unsupported_feature, MonteCarloError, StochasticDividendError,
};
use crate::linear::{
    are_rows_finite, build, build_rows, chunk, collect, dot, dot_at, dot_is_local, quarter,
    rows_finite, rows_seen, viewed,
};
use crate::models::Pair;
use crate::neumaier::{compensated_sum, sum_compensated};
use crate::results::{gather, seen};
use crate::rough::{
    driver_does_not_look_ahead, driver_of, driver_path_of, rough_loading, steps_agree,
    RoughDividendKernel, RoughKernelView,
};
use crate::sampling::half;
use crate::scalar::{
    all_finite, lawful, literal, lt, minus, negated, over, plus, same, times, Math, Model, Scalar,
};
use core::ops::Neg;
use vstd::prelude::*;

verus! {

/// `x / (exp(x) - 1) - 1`, by a series near zero and by its limit at infinity.
pub open spec fn lag_correction<R: Scalar>(m: Model<R>, x: R) -> R {
    if lt(m.abs(x), over(literal(1), literal(1000))) {
        plus(
            minus(
                plus(times(negated(half()), x), over(times(x, x), literal(12))),
                over(times(times(x, x), times(x, x)), literal(720)),
            ),
            over(times(times(times(x, x), times(x, x)), times(x, x)), literal(30240)),
        )
    } else if !m.is_finite(x) && same(x, x) {
        negated(literal(1))
    } else {
        minus(over(times(x, m.exp(negated(x))), negated(m.exp_m1(negated(x)))), literal(1))
    }
}

/// The derivative of the logarithm of a mean power kernel between two lags with
/// respect to its exponent.
pub open spec fn log_weight_h_of<R: Scalar>(m: Model<R>, h: R, lo: R, hi: R) -> R {
    let p = plus(h, half());
    if same(lo, literal(0)) {
        minus(plus(over(half(), h), m.ln(hi)), over(literal(1), p))
    } else {
        let x = times(negated(p), m.ln_1p(over(minus(lo, hi), hi)));
        plus(plus(over(half(), h), m.ln(hi)), over(lag_correction(m, x), p))
    }
}

/// Computes [`log_weight_h_of`].
pub fn log_weight_h<R: Scalar, M: Math<R>>(m: &M, h: R, lo: R, hi: R) -> (y: R)
    ensures
        y == log_weight_h_of(m.model(), h, lo, hi),
{
    m.laws();
    let p = h + (R::from(1u32) / R::from(2u32));
    if lo == R::from(0u32) {
        return (R::from(1u32) / R::from(2u32)) / h + m.ln(hi) - R::from(1u32) / p;
    }
    let x = p.neg() * m.ln_1p((lo - hi) / hi);
    let correction = if m.abs(x) < R::from(1u32) / R::from(1000u32) {
        let x2 = x * x;
        let half_value = R::from(1u32) / R::from(2u32);
        half_value.neg() * x + x2 / R::from(12u32) - x2 * x2 / R::from(720u32)
            + x2 * x2 * x2 / R::from(30240u32)
    } else if !m.is_finite(x) && x == x {
        R::from(1u32).neg()
    } else {
        x * m.exp(x.neg()) / m.exp_m1(x.neg()).neg() - R::from(1u32)
    };
    (R::from(1u32) / R::from(2u32)) / h + m.ln(hi) + correction / p
}

/// What the exponent derivatives of a kernel need: those of the older weights
/// and of the variance at each node, and those of the newest cell of each step.
pub struct RoughParameterReverse<R> {
    pub weight_h: Vec<Vec<R>>,
    pub variance_h: Vec<R>,
    pub near_h: Vec<Pair<R>>,
}

/// A [`RoughParameterReverse`] as a mathematical value.
pub ghost struct RoughParameterView<R> {
    pub weight_h: Seq<Seq<R>>,
    pub variance_h: Seq<R>,
    pub near_h: Seq<Pair<R>>,
}

impl<R> View for RoughParameterReverse<R> {
    type V = RoughParameterView<R>;

    open spec fn view(&self) -> RoughParameterView<R> {
        RoughParameterView {
            weight_h: rows_seen(self.weight_h@),
            variance_h: self.variance_h@,
            near_h: self.near_h@,
        }
    }
}

impl<R> RoughParameterView<R> {
    /// Prepared for a kernel of `n` steps.
    pub open spec fn of(self, n: nat) -> bool {
        &&& self.weight_h.len() == n + 1
        &&& self.variance_h.len() == n + 1
        &&& self.near_h.len() == n
        &&& forall|i: int| 0 < i <= n ==> (#[trigger] self.weight_h[i]).len() == i - 1
    }
}

/// The derivatives of the newest cell of the step `i`.
pub open spec fn near_tangent<R: Scalar>(
    m: Model<R>,
    k: RoughKernelView<R>,
    grid: Seq<R>,
) -> spec_fn(int) -> Pair<R> {
    |i: int|
        {
            let h = k.factor.hurst;
            let p = plus(h, half());
            let dt = minus(grid[i + 1], grid[i]);
            let cell = k.steps[i];
            Pair {
                first: times(
                    cell.average,
                    minus(plus(over(half(), h), m.ln(dt)), over(literal(1), p)),
                ),
                second: minus(times(cell.residual, m.ln(dt)), over(m.pow(dt, h), times(p, p))),
            }
        }
}

/// The derivatives of the older weights at a node. The first node has none.
pub open spec fn weight_tangent_row<R: Scalar>(
    m: Model<R>,
    k: RoughKernelView<R>,
    grid: Seq<R>,
) -> spec_fn(int) -> Seq<R> {
    |i: int|
        if i == 0 {
            Seq::empty()
        } else {
            Seq::new(
                k.weights[i].len(),
                |j: int|
                    times(
                        k.weights[i][j],
                        log_weight_h_of(
                            m,
                            k.factor.hurst,
                            minus(grid[i], grid[j + 1]),
                            minus(grid[i], grid[j]),
                        ),
                    ),
            )
        }
}

/// What the derivative of the variance at a node sums.
pub open spec fn variance_terms<R: Scalar>(
    m: Model<R>,
    k: RoughKernelView<R>,
    grid: Seq<R>,
    i: int,
) -> Seq<R> {
    let h = k.factor.hurst;
    let dt = minus(grid[i], grid[i - 1]);
    let row = weight_tangent_row(m, k, grid)(i);
    seq![times(times(literal(2), m.ln(dt)), m.pow(dt, times(literal(2), h)))] + Seq::new(
        k.weights[i].len(),
        |j: int| times(
            times(times(literal(2), k.weights[i][j]), row[j]),
            minus(grid[j + 1], grid[j]),
        ),
    )
}

/// The derivative of the variance at a node.
pub open spec fn variance_tangent<R: Scalar>(
    m: Model<R>,
    k: RoughKernelView<R>,
    grid: Seq<R>,
) -> spec_fn(int) -> R {
    |i: int|
        if i == 0 {
            literal(0)
        } else {
            compensated_sum(m, variance_terms(m, k, grid, i))
        }
}

/// Both entries of each pair are finite.
pub open spec fn pairs_finite<R: Scalar>(m: Model<R>, pairs: Seq<Pair<R>>) -> bool {
    forall|i: int|
        0 <= i < pairs.len() ==> m.is_finite((#[trigger] pairs[i]).first) && m.is_finite(
            pairs[i].second,
        )
}

/// Tests [`pairs_finite`].
pub fn are_pairs_finite<R: Scalar, M: Math<R>>(m: &M, pairs: &Vec<Pair<R>>) -> (b: bool)
    ensures
        b == pairs_finite(m.model(), pairs@),
{
    let mut i: usize = 0;
    while i < pairs.len()
        invariant
            i <= pairs@.len(),
            forall|k: int|
                0 <= k < i ==> m.model().is_finite((#[trigger] pairs@[k]).first)
                    && m.model().is_finite(pairs@[k].second),
        decreases pairs@.len() - i,
    {
        if !m.is_finite(pairs[i].first) || !m.is_finite(pairs[i].second) {
            assert(!(m.model().is_finite(pairs@[i as int].first) && m.model().is_finite(
                pairs@[i as int].second,
            )));
            return false;
        }
        i = i + 1;
    }
    true
}

/// What the exponent derivatives of a kernel need.
pub open spec fn rough_parameter_reverse_of<R: Scalar>(
    m: Model<R>,
    k: RoughKernelView<R>,
    grid: Seq<R>,
) -> Result<RoughParameterView<R>, MonteCarloError> {
    if grid.len() != k.weights.len() || grid.len() != k.steps.len() + 1 {
        Err(invalid_field("rough_reverse_grid"))
    } else {
        let p = RoughParameterView {
            weight_h: Seq::new(grid.len(), weight_tangent_row(m, k, grid)),
            variance_h: Seq::new(grid.len(), variance_tangent(m, k, grid)),
            near_h: Seq::new(k.steps.len(), near_tangent(m, k, grid)),
        };
        if rows_finite(m, p.weight_h) && m.all_finite(p.variance_h) && pairs_finite(m, p.near_h) {
            Ok(p)
        } else {
            Err(invalid_field("rough_reverse_coefficients"))
        }
    }
}

impl<R: Scalar> RoughParameterReverse<R> {
    /// Prepares the exponent derivatives of a kernel.
    pub fn new<M: Math<R>>(m: &M, k: &RoughDividendKernel<R>, grid: &Vec<R>) -> (r: Result<
        RoughParameterReverse<R>,
        MonteCarloError,
    >)
        requires
            k@.valid(),
        ensures
            viewed(r) == rough_parameter_reverse_of(m.model(), k@, grid@),
            r matches Ok(p) ==> p@.of(k@.steps.len()),
    {
        m.laws();
        if grid.len() != k.weights.len() || grid.len() != k.steps.len() + 1 {
            return Err(invalid("rough_reverse_grid"));
        }
        let nodes = grid.len();
        let h = k.factor.hurst;
        let ghost rows = weight_tangent_row(m.model(), k@, grid@);
        let weight_h_at = |i: usize| -> (row: Vec<R>)
            requires
                i < nodes,
            ensures
                row@ == rows(i as int),
            {
                if i == 0 {
                    let row: Vec<R> = Vec::new();
                    assert(row@ =~= Seq::empty());
                    row
                } else {
                    let weights = &k.weights[i];
                    assert(weights@ == k@.weights[i as int]);
                    assert(weights@.len() == i - 1);
                    let ghost entry = |j: int| rows(i as int)[j];
                    let count: usize = i - 1;
                    let row_at = |j: usize| -> (x: R)
                        requires
                            j < count,
                        ensures
                            x == entry(j as int),
                        {
                            m.laws();
                            weights[j] * log_weight_h(
                                m,
                                h,
                                grid[i] - grid[j + 1],
                                grid[i] - grid[j],
                            )
                        };
                    let row = build(
                        count,
                        row_at,
                        Ghost(entry),
                    );
                    assert(row@ =~= rows(i as int));
                    row
                }
            };
        let weight_h = build_rows(
            nodes,
            weight_h_at,
            Ghost(rows),
        );
        let ghost variance = variance_tangent(m.model(), k@, grid@);
        let variance_h_at = |i: usize| -> (x: R)
            requires
                i < nodes,
            ensures
                x == variance(i as int),
            {
                m.laws();
                if i == 0 {
                    R::from(0u32)
                } else {
                    let weights = &k.weights[i];
                    let row = &weight_h[i];
                    assert(weights@ == k@.weights[i as int]);
                    assert(weights@.len() == i - 1);
                    assert(row@ == rows(i as int));
                    let dt = grid[i] - grid[i - 1];
                    let ghost all = variance_terms(m.model(), k@, grid@, i as int);
                    let ghost entry = |j: int| all[j];
                    let terms_at = |j: usize| -> (x: R)
                        requires
                            j < i,
                        ensures
                            x == entry(j as int),
                        {
                            m.laws();
                            if j == 0 {
                                R::from(2u32) * m.ln(dt) * m.pow(dt, R::from(2u32) * h)
                            } else {
                                R::from(2u32) * weights[j - 1] * row[j - 1] * (grid[j] - grid[j - 1])
                            }
                        };
                    let terms = build(
                        i,
                        terms_at,
                        Ghost(entry),
                    );
                    assert(terms@ =~= all);
                    sum_compensated(m, terms.as_slice())
                }
            };
        let variance_h = build(
            nodes,
            variance_h_at,
            Ghost(variance),
        );
        let count = k.steps.len();
        let ghost near = near_tangent(m.model(), k@, grid@);
        let near_h_at = |i: usize| -> (x: Pair<R>)
            requires
                i < count,
            ensures
                x == near(i as int),
            {
                m.laws();
                let p = h + (R::from(1u32) / R::from(2u32));
                let dt = grid[i + 1] - grid[i];
                let cell = k.steps[i];
                Pair {
                    first: cell.average * (
                        (R::from(1u32) / R::from(2u32)) / h + m.ln(dt) - R::from(1u32) / p
                    ),
                    second: cell.residual * m.ln(dt) - m.pow(dt, h) / (p * p),
                }
            };
        let near_h = build(
            count,
            near_h_at,
            Ghost(near),
        );
        if !are_rows_finite(m, &weight_h) || !all_finite(m, variance_h.as_slice())
            || !are_pairs_finite(m, &near_h) {
            return Err(invalid("rough_reverse_coefficients"));
        }
        Ok(RoughParameterReverse { weight_h, variance_h, near_h })
    }
}

/// What the adjoint `bar` of the loading of the step `i` adds to the derivative
/// with respect to the exponent, term by term.
pub open spec fn exponent_terms<R: Scalar>(
    k: RoughKernelView<R>,
    p: RoughParameterView<R>,
    z: Seq<R>,
    increments: Seq<R>,
    exponent: R,
    i: int,
) -> Seq<R> {
    let eta = k.factor.vol_of_vol;
    let first = seq![
        times(times(times(times(negated(quarter()), exponent), eta), eta), p.variance_h[i]),
    ];
    if i == 0 {
        first
    } else {
        let driver = times(times(half(), eta), exponent);
        let near = p.near_h[i - 1];
        first + seq![
            times(times(driver, near.first), increments[i - 1]),
            times(times(driver, near.second), z[4 * (i - 1) + 3]),
        ] + Seq::new(
            p.weight_h[i].len(),
            |j: int| times(times(driver, p.weight_h[i][j]), increments[j]),
        )
    }
}

/// The terms of both derivatives, out of the steps from `i` on: the later steps
/// come first, and a step without an adjoint adds nothing.
pub open spec fn rough_sweep<R: Scalar>(
    m: Model<R>,
    k: RoughKernelView<R>,
    p: RoughParameterView<R>,
    z: Seq<R>,
    drivers: Seq<R>,
    increments: Seq<R>,
    bars: Seq<R>,
    i: nat,
) -> Result<(Seq<R>, Seq<R>), MonteCarloError>
    decreases bars.len() - i,
{
    if i >= bars.len() {
        Ok((Seq::empty(), Seq::empty()))
    } else {
        match rough_sweep(m, k, p, z, drivers, increments, bars, i + 1) {
            Err(e) => Err(e),
            Ok((exponent_list, eta_list)) => if same(bars[i as int], literal(0)) {
                Ok((exponent_list, eta_list))
            } else {
                let eta = k.factor.vol_of_vol;
                let x = drivers[i as int];
                let v = k.variances[i as int];
                let loading = rough_loading(m, eta, x, v);
                let exponent = times(bars[i as int], loading);
                if !positive(m, loading) {
                    Err(invalid_field("rough_reverse_loading"))
                } else {
                    Ok(
                        (
                            exponent_list + exponent_terms(k, p, z, increments, exponent, i as int),
                            eta_list.push(
                                times(
                                    exponent,
                                    minus(times(half(), x), times(times(half(), eta), v)),
                                ),
                            ),
                        ),
                    )
                }
            },
        }
    }
}

/// The derivatives of a path with respect to the exponent and the volatility of
/// volatility, out of the adjoints of its loadings.
pub open spec fn rough_pullback<R: Scalar>(
    m: Model<R>,
    k: RoughKernelView<R>,
    p: RoughParameterView<R>,
    z: Seq<R>,
    bars: Seq<R>,
) -> Result<Pair<R>, MonteCarloError> {
    if bars.len() != k.steps.len() || !m.all_finite(bars) {
        Err(invalid_field("rough_reverse_loading_seeds"))
    } else {
        match driver_path_of(m, k, z) {
            Err(e) => Err(e),
            Ok((drivers, increments)) => match rough_sweep(
                m,
                k,
                p,
                z,
                drivers,
                increments,
                bars,
                0,
            ) {
                Err(e) => Err(e),
                Ok((exponent_list, eta_list)) => {
                    let h = compensated_sum(m, exponent_list);
                    let eta = compensated_sum(m, eta_list);
                    if m.is_finite(h) && m.is_finite(eta) {
                        Ok(Pair { first: h, second: eta })
                    } else {
                        Err(invalid_field("rough_parameter_reverse"))
                    }
                },
            },
        }
    }
}

proof fn sweep_stops<R: Scalar>(
    m: Model<R>,
    k: RoughKernelView<R>,
    p: RoughParameterView<R>,
    z: Seq<R>,
    drivers: Seq<R>,
    increments: Seq<R>,
    bars: Seq<R>,
    a: nat,
    i: nat,
)
    requires
        i <= a,
        rough_sweep(m, k, p, z, drivers, increments, bars, a) is Err,
    ensures
        rough_sweep(m, k, p, z, drivers, increments, bars, i) == rough_sweep(
            m,
            k,
            p,
            z,
            drivers,
            increments,
            bars,
            a,
        ),
    decreases a - i,
{
    if i < a {
        sweep_stops(m, k, p, z, drivers, increments, bars, a, i + 1);
    }
}

impl<R: Scalar> RoughParameterReverse<R> {
    /// Appends the terms of the step `i` to those of the exponent.
    fn push_terms<M: Math<R>>(
        &self,
        m: &M,
        k: &RoughDividendKernel<R>,
        z: &Vec<R>,
        increments: &Vec<R>,
        exponent: R,
        i: usize,
        list: &mut Vec<R>,
    )
        requires
            k@.valid(),
            self@.of(k@.steps.len()),
            i < k@.steps.len(),
            z@.len() == 4 * k@.steps.len(),
            increments@.len() == k@.steps.len(),
        ensures
            final(list)@ == old(list)@ + exponent_terms(
                k@,
                self@,
                z@,
                increments@,
                exponent,
                i as int,
            ),
    {
        m.laws();
        let ghost start = list@;
        let ghost all = exponent_terms(k@, self@, z@, increments@, exponent, i as int);
        let eta = k.factor.vol_of_vol;
        let quarter_value = R::from(1u32) / R::from(4u32);
        list.push(quarter_value.neg() * exponent * eta * eta * self.variance_h[i]);
        if i == 0 {
            assert(list@ =~= start + all);
            return;
        }
        let driver = (R::from(1u32) / R::from(2u32)) * eta * exponent;
        let near = self.near_h[i - 1];
        assert(z@.len() == z.len());
        list.push(driver * near.first * increments[i - 1]);
        list.push(driver * near.second * z[4 * (i - 1) + 3]);
        let row = &self.weight_h[i];
        proof {
            assert(self@.weight_h[i as int].len() == i - 1);
            assert(row@ == self@.weight_h[i as int]);
            assert(all.len() == i + 2);
            assert(list@ =~= start + all.take(3));
        }
        let mut j: usize = 0;
        while j < i - 1
            invariant
                lawful::<R>(),
                0 < i,
                j <= i - 1,
                row@.len() == i - 1,
                i < k@.steps.len(),
                increments@.len() == k@.steps.len(),
                eta == k@.factor.vol_of_vol,
                driver == times(times(half(), eta), exponent),
                row@ == self@.weight_h[i as int],
                all == exponent_terms(k@, self@, z@, increments@, exponent, i as int),
                all.len() == i + 2,
                list@ == start + all.take(j + 3),
            decreases i - 1 - j,
        {
            assert(all[j + 3] == times(times(driver, row@[j as int]), increments@[j as int]));
            list.push(driver * row[j] * increments[j]);
            assert(list@ =~= start + all.take(j + 4));
            j = j + 1;
        }
        assert(all.take(i + 2) =~= all);
    }

    /// Takes the derivatives of a path.
    pub fn pullback<M: Math<R>>(
        &self,
        m: &M,
        k: &RoughDividendKernel<R>,
        z: &Vec<R>,
        bars: &Vec<R>,
    ) -> (r: Result<Pair<R>, MonteCarloError>)
        requires
            k@.valid(),
            self@.of(k@.steps.len()),
        ensures
            r == rough_pullback(m.model(), k@, self@, z@, bars@),
    {
        m.laws();
        let n = k.steps.len();
        if bars.len() != n || !all_finite(m, bars.as_slice()) {
            return Err(invalid("rough_reverse_loading_seeds"));
        }
        let (drivers, increments) = match k.driver_path(m, z) {
            Err(e) => return Err(e),
            Ok(v) => v,
        };
        let eta = k.factor.vol_of_vol;
        let mut exponent_list: Vec<R> = Vec::new();
        let mut eta_list: Vec<R> = Vec::new();
        assert(exponent_list@ =~= Seq::empty());
        assert(eta_list@ =~= Seq::empty());
        let mut left: usize = n;
        while left > 0
            invariant
                lawful::<R>(),
                k@.valid(),
                self@.of(k@.steps.len()),
                n == k@.steps.len(),
                z@.len() == 4 * n,
                bars@.len() == n,
                drivers@.len() == n,
                increments@.len() == n,
                m.model().all_finite(bars@),
                eta == k@.factor.vol_of_vol,
                driver_path_of(m.model(), k@, z@) == Ok::<(Seq<R>, Seq<R>), MonteCarloError>(
                    (drivers@, increments@),
                ),
                left <= n,
                rough_sweep(
                    m.model(),
                    k@,
                    self@,
                    z@,
                    drivers@,
                    increments@,
                    bars@,
                    left as nat,
                ) == Ok::<(Seq<R>, Seq<R>), MonteCarloError>((exponent_list@, eta_list@)),
            decreases left,
        {
            let i: usize = left - 1;
            left = i;
            let bar = bars[i];
            if !(bar == R::from(0u32)) {
                let x = drivers[i];
                let v = k.variances[i];
                let loading = m.exp(
                    (
                        R::from(1u32) / R::from(2u32)
                    ) * eta * x - (R::from(1u32) / R::from(4u32)) * eta * eta * v,
                );
                if !is_positive(m, loading) {
                    proof {
                        sweep_stops(
                            m.model(),
                            k@,
                            self@,
                            z@,
                            drivers@,
                            increments@,
                            bars@,
                            i as nat,
                            0,
                        );
                    }
                    return Err(invalid("rough_reverse_loading"));
                }
                let exponent = bar * loading;
                eta_list.push(
                    exponent * (
                        (
                            R::from(1u32) / R::from(2u32)
                        ) * x - (R::from(1u32) / R::from(2u32)) * eta * v
                    ),
                );
                self.push_terms(m, k, z, &increments, exponent, i, &mut exponent_list);
            }
        }
        let h = sum_compensated(m, exponent_list.as_slice());
        let e = sum_compensated(m, eta_list.as_slice());
        if !m.is_finite(h) || !m.is_finite(e) {
            return Err(invalid("rough_parameter_reverse"));
        }
        Ok(Pair { first: h, second: e })
    }
}

/// Correlation derivatives need room in the correlations.
pub open spec fn rough_unsupported() -> MonteCarloError {
    unsupported_feature(
        "rough correlation AAD requires instantaneous correlation pivots > 1e-10; fixed-correlation price/AAD/Gamma retain their domains",
    )
}

/// Makes [`rough_unsupported`].
fn unsupported() -> (e: MonteCarloError)
    ensures
        e == rough_unsupported(),
{
    MonteCarloError::StochasticDividend(
        StochasticDividendError::Unsupported {
            feature: "rough correlation AAD requires instantaneous correlation pivots > 1e-10; fixed-correlation price/AAD/Gamma retain their domains",
        },
    )
}

/// How the loadings of the driver move with each of the three correlations.
pub struct RoughCorrelationReverse<R> {
    pub volatility_loading: Vec<Vec<R>>,
}

impl<R> View for RoughCorrelationReverse<R> {
    type V = Seq<Seq<R>>;

    open spec fn view(&self) -> Seq<Seq<R>> {
        rows_seen(self.volatility_loading@)
    }
}

/// Whether the correlation `p` is that of the drivers `j` and `i`.
pub open spec fn is_rough_edge(p: int, j: int, i: int) -> bool {
    ||| p == 0 && j == 0 && i == 1
    ||| p == 1 && j == 0 && i == 2
    ||| p == 2 && j == 1 && i == 2
}

/// The derivative of the correlations with respect to the correlation `p`.
pub open spec fn rough_edge_tangent<R: Scalar>(p: int) -> spec_fn(int, int) -> R {
    |i: int, j: int|
        if is_rough_edge(p, j, i) {
            literal(1)
        } else {
            literal(0)
        }
}

/// The derivative of the loadings of the driver with respect to the correlation
/// `p`: the last row of the derivative of the factor.
pub open spec fn rough_edge_row<R: Scalar>(l: Seq<R>) -> spec_fn(int) -> Seq<R> {
    |p: int|
        {
            let columns = tangent_columns(l, 3, rough_edge_tangent(p), 3);
            Seq::new(3, |j: int| columns[j][2])
        }
}

/// How the loadings of the driver of a kernel move with the correlations.
pub open spec fn rough_correlation_reverse_of<R: Scalar, N: KernelNumerics<R>>(
    m: Model<R>,
    o: N,
    k: RoughKernelView<R>,
    sd: R,
) -> Result<Seq<Seq<R>>, MonteCarloError> {
    let matrix = one_factor_matrix(sd, k.factor.correlation, k.dividend_volatility_correlation);
    match o.factor_of(matrix, 3) {
        None => Err(rough_unsupported()),
        Some(l) => if !pivots_open(m, o.pivots_of(matrix, 3)) {
            Err(rough_unsupported())
        } else {
            let rows = Seq::new(3, rough_edge_row(l));
            if rows_finite(m, rows) {
                Ok(rows)
            } else {
                Err(invalid_field("rough_correlation_coefficients"))
            }
        },
    }
}

/// The names of the correlations.
pub open spec fn rough_correlation_labels() -> Seq<&'static str> {
    seq![
        "equity_dividend_correlation",
        "spot_volatility_correlation[0]",
        "dividend_volatility_correlation[0]",
    ]
}

impl<R: Scalar> RoughCorrelationReverse<R> {
    /// Prepares the correlation derivatives of a kernel.
    pub fn new<M: Math<R>, N: KernelNumerics<R>>(
        m: &M,
        o: &N,
        k: &RoughDividendKernel<R>,
        sd: R,
    ) -> (r: Result<RoughCorrelationReverse<R>, MonteCarloError>)
        ensures
            viewed(r) == rough_correlation_reverse_of(m.model(), *o, k@, sd),
            r matches Ok(p) ==> p@.len() == 3 && forall|i: int|
                0 <= i < 3 ==> (#[trigger] p@[i]).len() == 3,
    {
        m.laws();
        let one = R::from(1u32);
        let sv = k.factor.correlation;
        let dv = k.dividend_volatility_correlation;
        let matrix: Vec<R> = vec![one, sd, sv, sd, one, dv, sv, dv, one];
        assert(matrix@ =~= one_factor_matrix(sd, sv, dv));
        let l = match o.factor(&matrix, 3) {
            None => return Err(unsupported()),
            Some(l) => l,
        };
        let pivots = o.pivots(&matrix, 3);
        if !are_pivots_open(m, &pivots) {
            return Err(unsupported());
        }
        let ghost rows = rough_edge_row(l@);
        let volatility_loading_at = |p: usize| -> (row: Vec<R>)
            requires
                p < 3,
            ensures
                row@ == rows(p as int),
            {
                let ghost dc = rough_edge_tangent::<R>(p as int);
                let moved = |i: usize, j: usize| -> (x: R)
                    requires
                        j < i < 3,
                    ensures
                        x == dc(i as int, j as int),
                    {
                        m.laws();
                        if p == 0 && j == 0 && i == 1 || p == 1 && j == 0 && i == 2 || p == 2
                            && j == 1 && i == 2 {
                            R::from(1u32)
                        } else {
                            R::from(0u32)
                        }
                    };
                let columns = tangent(m, &l, 3, moved, Ghost(dc));
                proof {
                    tangent_shape(l@, 3, dc, 3);
                    assert(rows_seen(columns@)[0] == columns@[0]@);
                    assert(rows_seen(columns@)[1] == columns@[1]@);
                    assert(rows_seen(columns@)[2] == columns@[2]@);
                }
                let row: Vec<R> = vec![columns[0][2], columns[1][2], columns[2][2]];
                assert(row@ =~= rows(p as int));
                row
            };
        let volatility_loading = build_rows(
            3,
            volatility_loading_at,
            Ghost(rows),
        );
        if !are_rows_finite(m, &volatility_loading) {
            return Err(invalid("rough_correlation_coefficients"));
        }
        Ok(RoughCorrelationReverse { volatility_loading })
    }

    /// The names of the correlations.
    pub fn labels() -> (v: Vec<&'static str>)
        ensures
            v@ == rough_correlation_labels(),
    {
        let v: Vec<&'static str> = vec![
            "equity_dividend_correlation",
            "spot_volatility_correlation[0]",
            "dividend_volatility_correlation[0]",
        ];
        assert(v@ =~= rough_correlation_labels());
        v
    }
}

/// The adjoint of the driver at the node `n - 1 - t`; nothing where the loading
/// there has no adjoint, or does not depend on the driver.
pub open spec fn driver_bar<R: Scalar>(
    m: Model<R>,
    k: RoughKernelView<R>,
    drivers: Seq<R>,
    bars: Seq<R>,
) -> spec_fn(int) -> Result<Option<R>, MonteCarloError> {
    |t: int|
        {
            let i = bars.len() - 1 - t;
            let eta = k.factor.vol_of_vol;
            if i == 0 || same(bars[i], literal(0)) || same(eta, literal(0)) {
                Ok(None)
            } else {
                let loading = rough_loading(m, eta, drivers[i], k.variances[i]);
                if positive(m, loading) {
                    Ok(Some(times(times(bars[i], loading), times(half(), eta))))
                } else {
                    Err(invalid_field("rough_correlation_loading"))
                }
            }
        }
}

/// How the driver at the node `i` depends on the increment of the step `j`.
pub open spec fn increment_weight<R: Scalar>(k: RoughKernelView<R>, i: int, j: int) -> R {
    if i == j + 1 {
        k.steps[j].average
    } else {
        k.weights[i][j]
    }
}

/// What the nodes from `i` on add to the adjoint of the increment of the step
/// `j`, the later nodes first. The adjoints stand in reverse.
pub open spec fn increment_terms<R: Scalar>(
    k: RoughKernelView<R>,
    reversed: Seq<Option<R>>,
    j: int,
    i: int,
) -> Seq<R>
    decreases reversed.len() - i,
{
    if i >= reversed.len() {
        Seq::empty()
    } else {
        let later = increment_terms(k, reversed, j, i + 1);
        match reversed[reversed.len() - 1 - i] {
            None => later,
            Some(b) => later.push(times(b, increment_weight(k, i, j))),
        }
    }
}

/// The adjoint of the increment of the step `j`.
pub open spec fn increment_bar<R: Scalar>(
    m: Model<R>,
    k: RoughKernelView<R>,
    reversed: Seq<Option<R>>,
) -> spec_fn(int) -> R {
    |j: int| compensated_sum(m, increment_terms(k, reversed, j, j + 1))
}

/// What the first `n` steps add to the derivative with respect to a correlation
/// that moves the loadings by `dl`.
pub open spec fn correlation_terms<R: Scalar>(
    k: RoughKernelView<R>,
    dl: Seq<R>,
    z: Seq<R>,
    bars: Seq<R>,
    n: nat,
) -> Seq<R>
    decreases n,
{
    if n == 0 {
        Seq::empty()
    } else {
        let earlier = correlation_terms(k, dl, z, bars, (n - 1) as nat);
        let bar = bars[n - 1];
        if same(bar, literal(0)) {
            earlier
        } else {
            let step = k.steps[n - 1];
            let now = chunk(z, 4, n - 1);
            earlier.push(times(times(bar, step.root_dt), dot(dl, now)))
        }
    }
}

/// The correlation derivatives of a path, out of the adjoints of its loadings.
/// The variance of the driver does not move with them.
pub open spec fn rough_correlation_pullback<R: Scalar>(
    m: Model<R>,
    k: RoughKernelView<R>,
    rows: Seq<Seq<R>>,
    z: Seq<R>,
    bars: Seq<R>,
) -> Result<Seq<R>, MonteCarloError> {
    let n = k.steps.len();
    if bars.len() != n || !m.all_finite(bars) {
        Err(invalid_field("rough_correlation_loading_seeds"))
    } else {
        match driver_path_of(m, k, z) {
            Err(e) => Err(e),
            Ok((drivers, increments)) => match gather(n, driver_bar(m, k, drivers, bars)) {
                Err(e) => Err(e),
                Ok(reversed) => {
                    let moved = Seq::new(n, increment_bar(m, k, reversed));
                    let out = Seq::new(
                        3,
                        |p: int| compensated_sum(m, correlation_terms(k, rows[p], z, moved, n)),
                    );
                    if m.all_finite(out) {
                        Ok(out)
                    } else {
                        Err(invalid_field("rough_correlation_reverse"))
                    }
                },
            },
        }
    }
}

impl<R: Scalar> RoughCorrelationReverse<R> {
    /// Takes the correlation derivatives of a path.
    pub fn pullback<M: Math<R>>(
        &self,
        m: &M,
        k: &RoughDividendKernel<R>,
        z: &Vec<R>,
        bars: &Vec<R>,
    ) -> (r: Result<Vec<R>, MonteCarloError>)
        requires
            k@.valid(),
            self@.len() == 3,
            forall|i: int| 0 <= i < 3 ==> (#[trigger] self@[i]).len() == 3,
        ensures
            seen(r) == rough_correlation_pullback(m.model(), k@, self@, z@, bars@),
            r matches Ok(v) ==> v@.len() == 3,
    {
        m.laws();
        let n = k.steps.len();
        if bars.len() != n || !all_finite(m, bars.as_slice()) {
            return Err(invalid("rough_correlation_loading_seeds"));
        }
        let (drivers, increments) = match k.driver_path(m, z) {
            Err(e) => return Err(e),
            Ok(v) => v,
        };
        let eta = k.factor.vol_of_vol;
        let ghost law = driver_bar(m.model(), k@, drivers@, bars@);
        let reversed_at = |t: usize| -> (x: Result<Option<R>, MonteCarloError>)
            requires
                t < n,
            ensures
                x == law(t as int),
            {
                m.laws();
                let i: usize = n - 1 - t;
                if i == 0 || bars[i] == R::from(0u32) || eta == R::from(0u32) {
                    Ok(None)
                } else {
                    let x = drivers[i];
                    let v = k.variances[i];
                    let loading = m.exp(
                        (
                            R::from(1u32) / R::from(2u32)
                        ) * eta * x - (R::from(1u32) / R::from(4u32)) * eta * eta * v,
                    );
                    if is_positive(m, loading) {
                        Ok(Some(bars[i] * loading * ((R::from(1u32) / R::from(2u32)) * eta)))
                    } else {
                        Err(invalid("rough_correlation_loading"))
                    }
                }
            };
        let reversed = match collect(
            n,
            reversed_at,
            Ghost(law),
        ) {
            Err(e) => return Err(e),
            Ok(v) => v,
        };
        let ghost bar_of = increment_bar(m.model(), k@, reversed@);
        let moved_at = |j: usize| -> (x: R)
            requires
                j < n,
            ensures
                x == bar_of(j as int),
            { increment_sum(m, k, &reversed, j) };
        let moved = build(
            n,
            moved_at,
            Ghost(bar_of),
        );
        assert(moved@ =~= Seq::new(k@.steps.len(), increment_bar(m.model(), k@, reversed@)));
        let ghost entry = |p: int|
            compensated_sum(
                m.model(),
                correlation_terms(k@, self@[p], z@, moved@, k@.steps.len()),
            );
        let out_at = |p: usize| -> (x: R)
            requires
                p < 3,
            ensures
                x == entry(p as int),
            {
                assert(self@[p as int].len() == 3);
                assert(self.volatility_loading@[p as int]@ == self@[p as int]);
                correlation_sum(m, k, &self.volatility_loading[p], z, &moved)
            };
        let out = build(
            3,
            out_at,
            Ghost(entry),
        );
        assert(out@ =~= Seq::new(
            3,
            |p: int|
                compensated_sum(
                    m.model(),
                    correlation_terms(k@, self@[p], z@, moved@, k@.steps.len()),
                ),
        ));
        if !all_finite(m, out.as_slice()) {
            return Err(invalid("rough_correlation_reverse"));
        }
        Ok(out)
    }
}

/// Computes [`increment_bar`].
fn increment_sum<R: Scalar, M: Math<R>>(
    m: &M,
    k: &RoughDividendKernel<R>,
    reversed: &Vec<Option<R>>,
    j: usize,
) -> (x: R)
    requires
        k@.valid(),
        reversed@.len() == k@.steps.len(),
        j < k@.steps.len(),
    ensures
        x == increment_bar(m.model(), k@, reversed@)(j as int),
{
    m.laws();
    let n = k.steps.len();
    let mut terms: Vec<R> = Vec::new();
    assert(terms@ =~= increment_terms(k@, reversed@, j as int, n as int));
    let mut left: usize = n;
    while left > j + 1
        invariant
            lawful::<R>(),
            k@.valid(),
            n == k@.steps.len(),
            reversed@.len() == n,
            j < n,
            j + 1 <= left <= n,
            terms@ == increment_terms(k@, reversed@, j as int, left as int),
        decreases left,
    {
        let i: usize = left - 1;
        if let Some(b) = reversed[n - 1 - i] {
            let weight = if i == j + 1 {
                k.steps[j].average
            } else {
                assert(k@.weights[i as int].len() == i - 1);
                assert(k.weights@[i as int]@ == k@.weights[i as int]);
                k.weights[i][j]
            };
            terms.push(b * weight);
        }
        left = i;
    }
    sum_compensated(m, terms.as_slice())
}

/// Computes the compensated sum of [`correlation_terms`].
fn correlation_sum<R: Scalar, M: Math<R>>(
    m: &M,
    k: &RoughDividendKernel<R>,
    dl: &Vec<R>,
    z: &Vec<R>,
    bars: &Vec<R>,
) -> (x: R)
    requires
        dl@.len() == 3,
        bars@.len() == k@.steps.len(),
        z@.len() == 4 * k@.steps.len(),
    ensures
        x == compensated_sum(
            m.model(),
            correlation_terms(k@, dl@, z@, bars@, k@.steps.len()),
        ),
{
    m.laws();
    let n = k.steps.len();
    let mut terms: Vec<R> = Vec::new();
    assert(terms@ =~= Seq::empty());
    let mut i: usize = 0;
    while i < n
        invariant
            lawful::<R>(),
            i <= n,
            n == k@.steps.len(),
            dl@.len() == 3,
            bars@.len() == n,
            z@.len() == 4 * n,
            terms@ == correlation_terms(k@, dl@, z@, bars@, i as nat),
        decreases n - i,
    {
        let bar = bars[i];
        if !(bar == R::from(0u32)) {
            assert(z@.len() == z.len());
            let start: usize = 4 * i;
            let dz = dot_at(m, dl, z, start);
            proof {
                dot_is_local(
                    dl@,
                    z@.subrange(start as int, start + 3),
                    chunk(z@, 4, i as int),
                );
            }
            terms.push(bar * k.steps[i].root_dt * dz);
        }
        i = i + 1;
    }
    sum_compensated(m, terms.as_slice())
}

proof fn sweeps_agree<R: Scalar>(
    m: Model<R>,
    k: RoughKernelView<R>,
    p: RoughParameterView<R>,
    z: Seq<R>,
    w: Seq<R>,
    drivers: Seq<R>,
    first: Seq<R>,
    second: Seq<R>,
    bars: Seq<R>,
    i: nat,
)
    requires
        p.of(k.steps.len()),
        bars.len() == k.steps.len(),
        0 < bars.len(),
        steps_agree(z, w, bars.len() - 1),
        forall|j: int| 0 <= j < bars.len() - 1 ==> #[trigger] first[j] == second[j],
    ensures
        rough_sweep(m, k, p, z, drivers, first, bars, i) == rough_sweep(
            m,
            k,
            p,
            w,
            drivers,
            second,
            bars,
            i,
        ),
    decreases bars.len() - i,
{
    if i < bars.len() {
        sweeps_agree(m, k, p, z, w, drivers, first, second, bars, i + 1);
        let loading = rough_loading(
            m,
            k.factor.vol_of_vol,
            drivers[i as int],
            k.variances[i as int],
        );
        let exponent = times(bars[i as int], loading);
        assert(exponent_terms(k, p, z, first, exponent, i as int) =~= exponent_terms(
            k,
            p,
            w,
            second,
            exponent,
            i as int,
        ));
    }
}

/// The derivatives of a path do not depend on the normals of its last step. Nor does
/// their failure, but for whether the driver can be followed to its end.
pub proof fn last_step_does_not_matter<R: Scalar>(
    m: Model<R>,
    k: RoughKernelView<R>,
    p: RoughParameterView<R>,
    z: Seq<R>,
    w: Seq<R>,
    bars: Seq<R>,
)
    requires
        k.valid(),
        p.of(k.steps.len()),
        0 < k.steps.len(),
        steps_agree(z, w, k.steps.len() - 1),
        z.len() == w.len(),
    ensures
        rough_pullback(m, k, p, z, bars) is Ok && rough_pullback(m, k, p, w, bars) is Ok
            ==> rough_pullback(m, k, p, z, bars) == rough_pullback(m, k, p, w, bars),
        m.is_finite(driver_of(m, k, z, k.steps.len() as int)) == m.is_finite(
            driver_of(m, k, w, k.steps.len() as int),
        ) ==> rough_pullback(m, k, p, z, bars) == rough_pullback(m, k, p, w, bars),
{
    let n = k.steps.len();
    if driver_path_of(m, k, z) is Ok && driver_path_of(m, k, w) is Ok {
        last_step_of_paths(m, k, p, z, w, bars);
    } else if m.is_finite(driver_of(m, k, z, n as int)) == m.is_finite(
        driver_of(m, k, w, n as int),
    ) {
        assert forall|j: int| 0 < j <= n implies m.is_finite(#[trigger] driver_of(m, k, z, j))
            == m.is_finite(driver_of(m, k, w, j)) by {
            if j < n {
                driver_does_not_look_ahead(m, k, z, w, j);
            }
        }
        if driver_path_of(m, k, z) is Ok {
            assert forall|j: int| 0 < j <= n implies m.is_finite(
                #[trigger] driver_of(m, k, w, j),
            ) by {
                assert(m.is_finite(driver_of(m, k, z, j)));
            }
        } else if driver_path_of(m, k, w) is Ok {
            assert forall|j: int| 0 < j <= n implies m.is_finite(
                #[trigger] driver_of(m, k, z, j),
            ) by {
                assert(m.is_finite(driver_of(m, k, w, j)));
            }
        }
    }
}

proof fn last_step_of_paths<R: Scalar>(
    m: Model<R>,
    k: RoughKernelView<R>,
    p: RoughParameterView<R>,
    z: Seq<R>,
    w: Seq<R>,
    bars: Seq<R>,
)
    requires
        k.valid(),
        p.of(k.steps.len()),
        0 < k.steps.len(),
        steps_agree(z, w, k.steps.len() - 1),
        driver_path_of(m, k, z) is Ok,
        driver_path_of(m, k, w) is Ok,
    ensures
        rough_pullback(m, k, p, z, bars) == rough_pullback(m, k, p, w, bars),
{
    let n = k.steps.len();
    let (drivers, first) = driver_path_of(m, k, z)->Ok_0;
    let (others, second) = driver_path_of(m, k, w)->Ok_0;
    assert forall|j: int| 0 <= j < n implies #[trigger] drivers[j] == others[j] by {
        driver_does_not_look_ahead(m, k, z, w, j);
    }
    assert(drivers =~= others);
    assert forall|j: int| 0 <= j < n - 1 implies #[trigger] first[j] == second[j] by {
        assert(chunk(z, 4, j) =~= chunk(w, 4, j));
    }
    if bars.len() == n {
        sweeps_agree(m, k, p, z, w, drivers, first, second, bars, 0);
    }
}

} // verus!
