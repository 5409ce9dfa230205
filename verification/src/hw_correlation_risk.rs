//! The derivatives of a path with respect to the correlations of equity,
//! dividends and the rate, at fixed normals. Each direction changes one pair.

use crate::dynamics::{DividendDynamics, KernelNumerics};
use crate::errors::{invalid, invalid_field, MonteCarloError};
use crate::hw_cash::{rate_driver, CashInputs};
use crate::hw_cash_risk::{cash_coefficient_derivatives, cash_correlation_rows, matrix_seen};
use crate::hw_path::{
    claims_within, node_growth, projection, square, CashClaim, RatePathView, RateStepView,
    StochasticDividendHullWhitePathPlan, StochasticDividendHullWhiteState,
};
use crate::hw_rate_risk::{cholesky_direction, direction_rows};
use crate::linear::{
    are_rows_finite, build, chunk, collect, collect_views, dot, dot_at, make_smallest_pivot,
    rows_finite, rows_seen, smallest_pivot, take_total, total, viewed, views,
};
use crate::rates::{
    correlated, rate_field, transition_of, HullWhite1Factor, HybridCorrelation, RatesView,
};
use crate::results::{gather, gather_stops, seen};
use crate::reverse::{Label, SpotSeed};
use crate::sampling::half;
use crate::scalar::{
    all_finite, lawful, le, literal, minus, negated, over, plus, times, Math, Model, Scalar,
};
use core::ops::Neg;
use vstd::prelude::*;

verus! {

/// The names of the correlations.
pub open spec fn correlation_labels() -> Seq<Label> {
    seq![
        Label::Named("equity_dividend_correlation"),
        Label::Named("equity_rate_correlation"),
        Label::Named("dividend_rate_correlation"),
    ]
}

/// The correlations of the drivers, row by row.
pub open spec fn driver_matrix<R: Scalar>(rho: R, x: CashInputs<R>) -> Seq<R> {
    let one = literal::<R>(1);
    seq![one, rho, x.rho_f, rho, one, x.rho_d, x.rho_f, x.rho_d, one]
}

/// The correlations of the drivers are far enough from singular.
pub open spec fn drivers_regular<R: Scalar, N: KernelNumerics<R>>(
    m: Model<R>,
    o: N,
    rho: R,
    x: CashInputs<R>,
) -> bool {
    let matrix = driver_matrix(rho, x);
    &&& o.factor_of(matrix, 3) is Some
    &&& forall|i: int|
        0 <= i < o.pivots_of(matrix, 3).len() ==> m.is_finite(
            #[trigger] o.pivots_of(matrix, 3)[i],
        ) && !le(o.pivots_of(matrix, 3)[i], smallest_pivot())
}

fn are_drivers_regular<R: Scalar, M: Math<R>, N: KernelNumerics<R>>(
    m: &M,
    o: &N,
    rho: R,
    x: CashInputs<R>,
) -> (b: bool)
    ensures
        b == drivers_regular(m.model(), *o, rho, x),
{
    m.laws();
    let one = R::from(1u32);
    let matrix: Vec<R> = vec![one, rho, x.rho_f, rho, one, x.rho_d, x.rho_f, x.rho_d, one];
    assert(matrix@ =~= driver_matrix(rho, x));
    if o.factor(&matrix, 3).is_none() {
        return false;
    }
    let pivots = o.pivots(&matrix, 3);
    let least = make_smallest_pivot(m);
    let mut i: usize = 0;
    while i < pivots.len()
        invariant
            lawful::<R>(),
            least == smallest_pivot::<R>(),
            matrix@ == driver_matrix(rho, x),
            pivots@ == o.pivots_of(matrix@, 3),
            i <= pivots@.len(),
            forall|k: int|
                0 <= k < i ==> m.model().is_finite(#[trigger] pivots@[k]) && !le(
                    pivots@[k],
                    smallest_pivot(),
                ),
        decreases pivots@.len() - i,
    {
        if !m.is_finite(pivots[i]) || pivots[i] <= least {
            assert(!drivers_regular(m.model(), *o, rho, x)) by {
                let bad = o.pivots_of(matrix@, 3)[i as int];
            }
            return false;
        }
        i = i + 1;
    }
    true
}

/// The derivatives of the covariances of a step with respect to a correlation, row
/// by row, out of those of a driver that moves with the rate alone.
pub open spec fn covariance_direction<R: Scalar>(
    kernels: Seq<Seq<R>>,
    length: R,
    p: int,
) -> Seq<R> {
    Seq::new(
        16,
        |c: int|
            {
                let i = c / 4;
                let j = c % 4;
                if p == 0 && ((i == 0 && j == 1) || (i == 1 && j == 0)) {
                    length
                } else if p == 1 && i == 0 && j >= 2 {
                    kernels[0][j]
                } else if p == 1 && j == 0 && i >= 2 {
                    kernels[0][i]
                } else if p == 2 && i == 1 && j >= 2 {
                    kernels[0][j]
                } else if p == 2 && j == 1 && i >= 2 {
                    kernels[0][i]
                } else {
                    literal(0)
                }
            },
    )
}

fn take_direction<R: Scalar, M: Math<R>>(
    m: &M,
    kernels: &Vec<Vec<R>>,
    length: R,
    p: usize,
) -> (v: Vec<R>)
    requires
        square(rows_seen(kernels@)),
    ensures
        v@ == covariance_direction(rows_seen(kernels@), length, p as int),
        v@.len() == 16,
{
    let ghost want = covariance_direction(rows_seen(kernels@), length, p as int);
    let ghost entry = |c: int| want[c];
    assert(rows_seen(kernels@)[0].len() == 4);
    assert(rows_seen(kernels@)[0] == kernels@[0]@);
    let v_at = |c: usize| -> (x: R)
        requires
            c < 16,
        ensures
            x == entry(c as int),
        {
            m.laws();
            let i: usize = c / 4;
            let j: usize = c % 4;
            if p == 0 && ((i == 0 && j == 1) || (i == 1 && j == 0)) {
                length
            } else if p == 1 && i == 0 && j >= 2 {
                kernels[0][j]
            } else if p == 1 && j == 0 && i >= 2 {
                kernels[0][i]
            } else if p == 2 && i == 1 && j >= 2 {
                kernels[0][j]
            } else if p == 2 && j == 1 && i >= 2 {
                kernels[0][i]
            } else {
                R::from(0u32)
            }
        };
    let v = build(
        16,
        v_at,
        Ghost(entry),
    );
    assert(v@ =~= want);
    v
}

/// The derivatives of the covariances of a step with respect to the correlations.
pub open spec fn covariance_directions<R: Scalar>(
    m: Model<R>,
    rates: RatesView<R>,
    start: R,
    end: R,
) -> Result<
    Seq<Seq<R>>,
    MonteCarloError,
> {
    if !correlated(m, rate_driver::<R>()) {
        Err(rate_field("correlation", 0))
    } else {
        match transition_of(m, rates, start, end, literal(0), rate_driver()) {
            Err(e) => Err(e),
            Ok(k) => Ok(
                Seq::new(3, |p: int| covariance_direction(k.covariance, minus(end, start), p)),
            ),
        }
    }
}

/// Computes [`covariance_directions`]. Correlations that are zero are supported: the
/// derivatives come from kernels of a driver that moves with the rate alone.
pub fn covariance_derivatives<R: Scalar, M: Math<R>>(
    m: &M,
    rates: &HullWhite1Factor<R>,
    start: R,
    end: R,
) -> (r: Result<Vec<Vec<R>>, MonteCarloError>)
    requires
        rates@.valid(),
    ensures
        matrix_seen(r) == covariance_directions(m.model(), rates@, start, end),
        r matches Ok(v) ==> v@.len() == 3 && forall|p: int|
            0 <= p < 3 ==> (#[trigger] v@[p])@.len() == 16,
{
    m.laws();
    let zero = R::from(0u32);
    let driver = match HybridCorrelation::new(m, zero, R::from(1u32), zero) {
        Err(e) => return Err(e),
        Ok(v) => v,
    };
    let k = match rates.transition(m, start, end, zero, driver) {
        Err(e) => return Err(e),
        Ok(v) => v,
    };
    proof {
        assert forall|q: int| 0 <= q < 4 implies (#[trigger] k@.covariance[q]).len() == 4 by {
            assert(k.covariance@[q]@.len() == 4);
        }
    }
    let length = end - start;
    let mut v: Vec<Vec<R>> = Vec::new();
    v.push(take_direction(m, &k.covariance, length, 0));
    v.push(take_direction(m, &k.covariance, length, 1));
    v.push(take_direction(m, &k.covariance, length, 2));
    proof {
        assert(rows_seen(v@) =~= Seq::new(
            3,
            |p: int| covariance_direction(k@.covariance, length, p),
        ));
    }
    Ok(v)
}

/// A matrix, as a value of its own.
pub struct Matrix<R> {
    pub rows: Vec<Vec<R>>,
}

impl<R> View for Matrix<R> {
    type V = Seq<Seq<R>>;

    open spec fn view(&self) -> Seq<Seq<R>> {
        rows_seen(self.rows@)
    }
}

/// Matrices, one for each correlation.
pub struct Matrices<R> {
    pub directions: Vec<Matrix<R>>,
}

impl<R> View for Matrices<R> {
    type V = Seq<Seq<Seq<R>>>;

    open spec fn view(&self) -> Seq<Seq<Seq<R>>> {
        views(self.directions@)
    }
}

/// How the factor of a step depends on a correlation.
pub open spec fn noise_direction<R: Scalar>(
    m: Model<R>,
    step: RateStepView<R>,
    directions: Seq<Seq<R>>,
) -> spec_fn(int) -> Result<Seq<Seq<R>>, MonteCarloError> {
    |p: int|
        match direction_rows(step.noise, directions[p], 4) {
            Err(e) => Err(e),
            Ok(rows) => if rows_finite(m, rows) {
                Ok(rows)
            } else {
                Err(invalid_field("hw_correlation_noise_derivative"))
            },
        }
}

/// How the factor of the step `i` depends on the correlations.
pub open spec fn noise_directions<R: Scalar>(
    m: Model<R>,
    rates: RatesView<R>,
    corr: HybridCorrelation<R>,
    p: RatePathView<R>,
) -> spec_fn(int) -> Result<Seq<Seq<Seq<R>>>, MonteCarloError> {
    |i: int|
        match transition_of(m, rates, p.times[i], p.times[i + 1], literal(0), corr) {
            Err(e) => Err(e),
            Ok(x) => if !all_pivots(m, p.steps[i].noise, x.covariance) {
                Err(invalid_field("singular_hw_correlation_adjoint"))
            } else {
                match covariance_directions(m, rates, p.times[i], p.times[i + 1]) {
                    Err(e) => Err(e),
                    Ok(d) => gather(3, noise_direction(m, p.steps[i], d)),
                }
            },
        }
}

/// A row of the factor of a step is far enough from singular.
pub open spec fn pivot_large<R: Scalar>(
    m: Model<R>,
    noise: Seq<Seq<R>>,
    c: Seq<Seq<R>>,
    i: int,
) -> bool {
    let pivot = over(noise[i][i], m.sqrt(c[i][i]));
    m.is_finite(pivot) && !le(pivot, smallest_pivot())
}

/// Every row of the factor of a step is far enough from singular.
pub open spec fn all_pivots<R: Scalar>(m: Model<R>, noise: Seq<Seq<R>>, c: Seq<Seq<R>>) -> bool {
    forall|i: int| 0 <= i < 4 ==> #[trigger] pivot_large(m, noise, c, i)
}

fn are_pivots_large<R: Scalar, M: Math<R>>(m: &M, noise: &Vec<Vec<R>>, c: &Vec<Vec<R>>) -> (b: bool)
    requires
        square(rows_seen(noise@)),
        square(rows_seen(c@)),
    ensures
        b == all_pivots(m.model(), rows_seen(noise@), rows_seen(c@)),
{
    m.laws();
    let least = make_smallest_pivot(m);
    let mut i: usize = 0;
    while i < 4
        invariant
            lawful::<R>(),
            least == smallest_pivot::<R>(),
            square(rows_seen(noise@)),
            square(rows_seen(c@)),
            i <= 4,
            forall|q: int|
                0 <= q < i ==> #[trigger] pivot_large(
                    m.model(),
                    rows_seen(noise@),
                    rows_seen(c@),
                    q,
                ),
        decreases 4 - i,
    {
        proof {
            assert(rows_seen(noise@)[i as int].len() == 4 && rows_seen(c@)[i as int].len() == 4);
            assert(rows_seen(noise@)[i as int] == noise@[i as int]@);
            assert(rows_seen(c@)[i as int] == c@[i as int]@);
        }
        let pivot = noise[i][i] / m.sqrt(c[i][i]);
        if !m.is_finite(pivot) || pivot <= least {
            assert(!pivot_large(m.model(), rows_seen(noise@), rows_seen(c@), i as int));
            return false;
        }
        i = i + 1;
    }
    true
}

/// The matrices are three of size four.
pub open spec fn three_squares<R>(v: Seq<Seq<Seq<R>>>) -> bool {
    v.len() == 3 && forall|p: int| 0 <= p < 3 ==> square(#[trigger] v[p])
}

fn take_noise_directions<R: Scalar, M: Math<R>>(
    m: &M,
    rates: &HullWhite1Factor<R>,
    corr: HybridCorrelation<R>,
    path: &StochasticDividendHullWhitePathPlan<R>,
    i: usize,
) -> (r: Result<Matrices<R>, MonteCarloError>)
    requires
        rates@.valid(),
        path@.valid(),
        i < path@.steps.len(),
    ensures
        viewed(r) == noise_directions(m.model(), rates@, corr, path@)(i as int),
        r matches Ok(v) ==> three_squares(v@),
{
    m.laws();
    let zero = R::from(0u32);
    let t0 = path.times[i];
    let t1 = path.times[i + 1];
    let x = match rates.transition(m, t0, t1, zero, corr) {
        Err(e) => return Err(e),
        Ok(v) => v,
    };
    proof {
        assert(path@.steps[i as int] == path.steps@[i as int]@);
        assert(square(path@.steps[i as int].noise));
        assert forall|q: int| 0 <= q < 4 implies (#[trigger] x@.covariance[q]).len() == 4 by {
            assert(x.covariance@[q]@.len() == 4);
        }
    }
    let step = &path.steps[i];
    if !are_pivots_large(m, &step.noise, &x.covariance) {
        return Err(invalid("singular_hw_correlation_adjoint"));
    }
    let found = match covariance_derivatives(m, rates, t0, t1) {
        Err(e) => return Err(e),
        Ok(v) => v,
    };
    let ghost law = noise_direction(m.model(), step@, rows_seen(found@));
    let ghost sized = |s: Matrix<R>| square(s@);
    let directions_at = |p: usize| -> (z: Result<Matrix<R>, MonteCarloError>)
        requires
            p < 3,
        ensures
            viewed(z) == law(p as int),
            z matches Ok(s) ==> sized(s),
        {
            assert(found@[p as int]@.len() == 16);
            let rows = match cholesky_direction(m, &step.noise, &found[p]) {
                Err(e) => return Err(e),
                Ok(v) => v,
            };
            if !are_rows_finite(m, &rows) {
                return Err(invalid("hw_correlation_noise_derivative"));
            }
            Ok(Matrix { rows })
        };
    let directions = match collect_views(
        3,
        directions_at,
        Ghost(law),
        Ghost(sized),
    ) {
        Err(e) => return Err(e),
        Ok(v) => v,
    };
    let v = Matrices { directions };
    proof {
        assert forall|p: int| 0 <= p < 3 implies square(#[trigger] v@[p]) by {
            assert(sized(v.directions@[p]));
        }
    }
    Ok(v)
}

/// Three rows of three.
pub open spec fn three_by_three<R>(rows: Seq<Seq<R>>) -> bool {
    rows.len() == 3 && forall|i: int| 0 <= i < 3 ==> (#[trigger] rows[i]).len() == 3
}

/// How the claims at a node depend on the correlations.
pub open spec fn claim_directions<R: Scalar>(
    m: Model<R>,
    rates: RatesView<R>,
    x: CashInputs<R>,
    p: RatePathView<R>,
) -> spec_fn(int) -> Result<Seq<Seq<Seq<R>>>, MonteCarloError> {
    |i: int|
        gather(
            p.nodes[i].claims.len(),
            |k: int|
                cash_correlation_rows(
                    m,
                    rates,
                    x,
                    p.times[i],
                    p.cash_times[p.nodes[i].claims[k].index as int],
                ),
        )
}

/// The claims of a node have derivatives of the right shape.
pub open spec fn directions_sized<R>(v: Seq<Seq<Seq<R>>>, n: nat) -> bool {
    v.len() == n && forall|k: int| 0 <= k < n ==> three_by_three(#[trigger] v[k])
}

fn take_claim_directions<R: Scalar, M: Math<R>>(
    m: &M,
    rates: &HullWhite1Factor<R>,
    x: CashInputs<R>,
    path: &StochasticDividendHullWhitePathPlan<R>,
    i: usize,
) -> (r: Result<Matrices<R>, MonteCarloError>)
    requires
        rates@.valid(),
        path@.valid(),
        i < path@.nodes.len(),
    ensures
        viewed(r) == claim_directions(m.model(), rates@, x, path@)(i as int),
        r matches Ok(v) ==> directions_sized(v@, path@.nodes[i as int].claims.len()),
{
    assert(path@.nodes[i as int] == path.nodes@[i as int]@);
    assert(claims_within(path@.nodes[i as int].claims, path@.cash_times.len()));
    let t = path.times[i];
    let n = path.nodes[i].claims.len();
    let ghost law = |k: int|
        cash_correlation_rows(
            m.model(),
            rates@,
            x,
            path@.times[i as int],
            path@.cash_times[path@.nodes[i as int].claims[k].index as int],
        );
    let ghost sized = |s: Matrix<R>| three_by_three(s@);
    let directions_at = |k: usize| -> (z: Result<Matrix<R>, MonteCarloError>)
        requires
            k < n,
        ensures
            viewed(z) == law(k as int),
            z matches Ok(s) ==> sized(s),
        {
            let index = path.nodes[i].claims[k].index;
            assert(path@.nodes[i as int].claims[k as int].index < path@.cash_times.len());
            let rows = match cash_coefficient_derivatives(
                m,
                rates,
                x,
                t,
                path.cash_times[index],
            ) {
                Err(e) => return Err(e),
                Ok(v) => v,
            };
            let s = Matrix { rows };
            proof {
                assert forall|q: int| 0 <= q < 3 implies (#[trigger] s@[q]).len() == 3 by {
                    assert(s.rows@[q]@.len() == 3);
                }
            }
            Ok(s)
        };
    let directions = match collect_views(
        n,
        directions_at,
        Ghost(law),
        Ghost(sized),
    ) {
        Err(e) => return Err(e),
        Ok(v) => v,
    };
    let v = Matrices { directions };
    proof {
        assert forall|k: int| 0 <= k < n implies three_by_three(#[trigger] v@[k]) by {
            assert(sized(v.directions@[k]));
        }
    }
    Ok(v)
}

/// The derivative of the spot that is left at first with respect to a correlation,
/// out of the first `n` claims.
pub open spec fn funding_slope<R: Scalar>(
    claims: Seq<CashClaim<R>>,
    directions: Seq<Seq<Seq<R>>>,
    p: int,
    n: nat,
) -> R
    decreases n,
{
    if n == 0 {
        literal(0)
    } else {
        let claim = claims[n - 1];
        let before = funding_slope(claims, directions, p, (n - 1) as nat);
        let sum = total(directions[n - 1][p]);
        minus(before, times(times(claim.carry_weight, claim.amount), sum))
    }
}

fn take_funding_slope<R: Scalar, M: Math<R>>(
    m: &M,
    claims: &Vec<CashClaim<R>>,
    directions: &Matrices<R>,
    p: usize,
) -> (x: R)
    requires
        directions_sized(directions@, claims@.len()),
        p < 3,
    ensures
        x == funding_slope(claims@, directions@, p as int, claims@.len()),
{
    m.laws();
    let mut sum = R::from(0u32);
    let mut k: usize = 0;
    while k < claims.len()
        invariant
            lawful::<R>(),
            k <= claims@.len(),
            directions_sized(directions@, claims@.len()),
            p < 3,
            sum == funding_slope(claims@, directions@, p as int, k as nat),
        decreases claims@.len() - k,
    {
        proof {
            assert(three_by_three(directions@[k as int]));
            assert(directions@[k as int] == directions.directions@[k as int]@);
            assert(
                directions@[k as int][p as int]
                    == directions.directions@[k as int].rows@[p as int]@
            );
        }
        let claim = claims[k];
        let rise = take_total(m, &directions.directions[k].rows[p]);
        sum = sum - claim.carry_weight * claim.amount * rise;
        k = k + 1;
    }
    sum
}

/// What the derivatives of a path with respect to the correlations need.
pub struct HullWhiteCorrelationSensitivityContext<R> {
    pub noise: Vec<Matrices<R>>,
    pub claims: Vec<Matrices<R>>,
    pub risky_spot: Vec<R>,
}

/// A [`HullWhiteCorrelationSensitivityContext`] as a mathematical value.
pub ghost struct CorrelationSensitivityView<R> {
    pub noise: Seq<Seq<Seq<Seq<R>>>>,
    pub claims: Seq<Seq<Seq<Seq<R>>>>,
    pub risky_spot: Seq<R>,
}

impl<R> View for HullWhiteCorrelationSensitivityContext<R> {
    type V = CorrelationSensitivityView<R>;

    open spec fn view(&self) -> CorrelationSensitivityView<R> {
        CorrelationSensitivityView {
            noise: views(self.noise@),
            claims: views(self.claims@),
            risky_spot: self.risky_spot@,
        }
    }
}

impl<R> CorrelationSensitivityView<R> {
    /// The context belongs to a path.
    pub open spec fn of(self, p: RatePathView<R>) -> bool {
        &&& self.noise.len() == p.steps.len()
        &&& forall|i: int| 0 <= i < self.noise.len() ==> three_squares(#[trigger] self.noise[i])
        &&& self.claims.len() == p.nodes.len()
        &&& forall|i: int|
            0 <= i < self.claims.len() ==> directions_sized(
                #[trigger] self.claims[i],
                p.nodes[i].claims.len(),
            )
        &&& self.risky_spot.len() == 3
    }
}

/// What the derivatives of a path with respect to the correlations need, or why
/// they cannot be had: both the correlations of the drivers and the factors of the
/// steps have to be far enough from singular.
pub open spec fn correlation_sensitivity<R: Scalar, N: KernelNumerics<R>>(
    m: Model<R>,
    o: N,
    rates: RatesView<R>,
    x: CashInputs<R>,
    p: RatePathView<R>,
) -> Result<CorrelationSensitivityView<R>, MonteCarloError> {
    let rho = p.model.equity_dividend_correlation;
    let corr = HybridCorrelation { equity_second: rho, equity_rate: x.rho_f, second_rate: x.rho_d };
    if !drivers_regular(m, o, rho, x) {
        Err(invalid_field("singular_hw_correlation_adjoint"))
    } else if !correlated(m, corr) {
        Err(rate_field("correlation", 0))
    } else {
        match gather(p.steps.len(), noise_directions(m, rates, corr, p)) {
            Err(e) => Err(e),
            Ok(noise) => match gather(p.nodes.len(), claim_directions(m, rates, x, p)) {
                Err(e) => Err(e),
                Ok(claims) => {
                    let first = p.nodes[0].claims;
                    let risky_spot = Seq::new(
                        3,
                        |q: int| funding_slope(first, claims[0], q, first.len()),
                    );
                    if m.all_finite(risky_spot) {
                        Ok(CorrelationSensitivityView { noise, claims, risky_spot })
                    } else {
                        Err(invalid_field("hw_correlation_funding_derivative"))
                    }
                },
            },
        }
    }
}

fn all_noise_directions<R: Scalar, M: Math<R>>(
    m: &M,
    rates: &HullWhite1Factor<R>,
    corr: HybridCorrelation<R>,
    path: &StochasticDividendHullWhitePathPlan<R>,
) -> (r: Result<Vec<Matrices<R>>, MonteCarloError>)
    requires
        rates@.valid(),
        path@.valid(),
    ensures
        (match r {
            Ok(v) => Ok(views(v@)),
            Err(e) => Err(e),
        }) == gather(path@.steps.len(), noise_directions(m.model(), rates@, corr, path@)),
        r matches Ok(v) ==> v@.len() == path@.steps.len() && forall|i: int|
            0 <= i < v@.len() ==> three_squares((#[trigger] v@[i])@),
{
    let n = path.steps.len();
    assert(path@.steps.len() == path.steps@.len());
    let ghost law = noise_directions(m.model(), rates@, corr, path@);
    let ghost sized = |t: Matrices<R>| three_squares(t@);
    let v_at = |i: usize| -> (z: Result<Matrices<R>, MonteCarloError>)
        requires
            i < n,
        ensures
            viewed(z) == law(i as int),
            z matches Ok(t) ==> sized(t),
        { take_noise_directions(m, rates, corr, path, i) };
    let v = match collect_views(
        n,
        v_at,
        Ghost(law),
        Ghost(sized),
    ) {
        Err(e) => return Err(e),
        Ok(v) => v,
    };
    proof {
        assert forall|i: int| 0 <= i < v@.len() implies three_squares((#[trigger] v@[i])@) by {
            assert(sized(v@[i]));
        }
    }
    Ok(v)
}

fn all_claim_directions<R: Scalar, M: Math<R>>(
    m: &M,
    rates: &HullWhite1Factor<R>,
    x: CashInputs<R>,
    path: &StochasticDividendHullWhitePathPlan<R>,
) -> (r: Result<Vec<Matrices<R>>, MonteCarloError>)
    requires
        rates@.valid(),
        path@.valid(),
    ensures
        (match r {
            Ok(v) => Ok(views(v@)),
            Err(e) => Err(e),
        }) == gather(path@.nodes.len(), claim_directions(m.model(), rates@, x, path@)),
        r matches Ok(v) ==> v@.len() == path@.nodes.len() && forall|i: int|
            0 <= i < v@.len() ==> directions_sized(
                (#[trigger] v@[i])@,
                path@.nodes[i].claims.len(),
            ),
{
    let n = path.nodes.len();
    assert(path@.nodes.len() == path.nodes@.len());
    let ghost law = claim_directions(m.model(), rates@, x, path@);
    let mut v: Vec<Matrices<R>> = Vec::new();
    assert(views(v@) =~= Seq::empty());
    let mut i: usize = 0;
    while i < n
        invariant
            rates@.valid(),
            path@.valid(),
            n == path@.nodes.len(),
            law == claim_directions(m.model(), rates@, x, path@),
            i <= n,
            v@.len() == i,
            forall|k: int|
                0 <= k < v@.len() ==> directions_sized(
                    (#[trigger] v@[k])@,
                    path@.nodes[k].claims.len(),
                ),
            gather(i as nat, law) == Ok::<Seq<Seq<Seq<Seq<R>>>>, MonteCarloError>(views(v@)),
        decreases n - i,
    {
        let ghost before = views(v@);
        match take_claim_directions(m, rates, x, path, i) {
            Err(e) => {
                proof {
                    assert(law(i as int) == Err::<Seq<Seq<Seq<R>>>, MonteCarloError>(e));
                    assert(gather((i + 1) as nat, law) == Err::<
                        Seq<Seq<Seq<Seq<R>>>>,
                        MonteCarloError,
                    >(e));
                    gather_stops((i + 1) as nat, n as nat, law);
                }
                return Err(e);
            },
            Ok(t) => {
                let ghost seen_node = t@;
                v.push(t);
                assert(law(i as int) == Ok::<Seq<Seq<Seq<R>>>, MonteCarloError>(seen_node));
                assert(views(v@) =~= before.push(seen_node));
            },
        }
        i = i + 1;
    }
    Ok(v)
}

impl<R: Scalar> HullWhiteCorrelationSensitivityContext<R> {
    /// Prepares the derivatives of a path with respect to the correlations.
    pub fn new<M: Math<R>, N: KernelNumerics<R>>(
        m: &M,
        o: &N,
        rates: &HullWhite1Factor<R>,
        x: CashInputs<R>,
        path: &StochasticDividendHullWhitePathPlan<R>,
    ) -> (r: Result<Self, MonteCarloError>)
        requires
            rates@.valid(),
            path@.valid(),
            x.dividends == path.model,
            x.sigma == path.volatility,
        ensures
            viewed(r) == correlation_sensitivity(m.model(), *o, rates@, x, path@),
            r matches Ok(k) ==> k@.of(path@),
    {
        let rho = path.model.equity_dividend_correlation;
        if !are_drivers_regular(m, o, rho, x) {
            return Err(invalid("singular_hw_correlation_adjoint"));
        }
        let corr = match HybridCorrelation::new(m, rho, x.rho_f, x.rho_d) {
            Err(e) => return Err(e),
            Ok(v) => v,
        };
        let noise = match all_noise_directions(m, rates, corr, path) {
            Err(e) => return Err(e),
            Ok(v) => v,
        };
        let claims = match all_claim_directions(m, rates, x, path) {
            Err(e) => return Err(e),
            Ok(v) => v,
        };
        proof {
            assert(path@.nodes[0] == path.nodes@[0]@);
            assert(views(claims@)[0] == claims@[0]@);
            assert(directions_sized(claims@[0]@, path@.nodes[0].claims.len()));
        }
        let first = &path.nodes[0].claims;
        let rows = &claims[0];
        let ghost slope = |q: int| funding_slope(first@, rows@, q, first@.len());
        let risky_spot_at = |q: usize| -> (z: R)
            requires
                q < 3,
            ensures
                z == slope(q as int),
            { take_funding_slope(m, first, rows, q) };
        let risky_spot = build(
            3,
            risky_spot_at,
            Ghost(slope),
        );
        proof {
            assert(risky_spot@ =~= Seq::new(
                3,
                |q: int|
                    funding_slope(
                        path@.nodes[0].claims,
                        views(claims@)[0],
                        q,
                        path@.nodes[0].claims.len(),
                    ),
            ));
        }
        if !all_finite(m, risky_spot.as_slice()) {
            return Err(invalid("hw_correlation_funding_derivative"));
        }
        let k = HullWhiteCorrelationSensitivityContext { noise, claims, risky_spot };
        proof {
            assert forall|i: int| 0 <= i < k@.noise.len() implies three_squares(
                #[trigger] k@.noise[i],
            ) by {
                assert(three_squares(k.noise@[i]@));
            }
            assert forall|i: int| 0 <= i < k@.claims.len() implies directions_sized(
                #[trigger] k@.claims[i],
                path@.nodes[i].claims.len(),
            ) by {
                assert(directions_sized(k.claims@[i]@, path@.nodes[i].claims.len()));
            }
        }
        Ok(k)
    }

    /// The names of the correlations.
    pub fn labels(&self) -> (v: Vec<Label>)
        ensures
            v@ == correlation_labels(),
    {
        let v = vec![
            Label::Named("equity_dividend_correlation"),
            Label::Named("equity_rate_correlation"),
            Label::Named("dividend_rate_correlation"),
        ];
        assert(v@ =~= correlation_labels());
        v
    }
}

/// How dividends and the rate at a node depend on a correlation. Equity does not.
#[derive(Clone, Copy, Debug, PartialEq)]
pub struct HullWhiteCorrelationStateTangent<R> {
    pub dividend_factor: R,
    pub rate_factor: R,
    pub integrated_rate_factor: R,
}

/// No tangent.
pub open spec fn no_tangent<R: Scalar>() -> HullWhiteCorrelationStateTangent<R> {
    HullWhiteCorrelationStateTangent {
        dividend_factor: literal(0),
        rate_factor: literal(0),
        integrated_rate_factor: literal(0),
    }
}

/// How dividends after a step depend on their correlation with equity.
pub open spec fn dividend_tangent<R: Scalar, Y: DividendDynamics<R>>(
    m: Model<R>,
    y: Y,
    path: RatePathView<R>,
    dt: R,
    s: StochasticDividendHullWhiteState<R>,
    now: R,
    z: Seq<R>,
) -> R {
    let model = path.model;
    let rho = model.equity_dividend_correlation;
    let root = m.sqrt(times(minus(literal(1), rho), plus(literal(1), rho)));
    let weights = y.decay_of(model.mean_reversion, times(half(), dt));
    let a = weights.first;
    let half_way = y.blend_of(
        weights,
        s.factors.dividend,
        y.target_of(model, s.factors.equity),
    );
    let v = times(model.dividend_volatility, m.sqrt(dt));
    let ed = m.exp(
        plus(
            times(times(negated(half()), v), v),
            times(v, plus(times(rho, z[0]), times(root, z[1]))),
        ),
    );
    times(
        times(a, ed),
        plus(times(a, now), times(times(half_way, v), minus(z[0], times(over(rho, root), z[1])))),
    )
}

/// The tangents after one step.
pub open spec fn correlation_stepped<R: Scalar, Y: DividendDynamics<R>>(
    m: Model<R>,
    y: Y,
    path: RatePathView<R>,
    step: RateStepView<R>,
    noise: Seq<Seq<Seq<R>>>,
    s: StochasticDividendHullWhiteState<R>,
    now: Seq<HullWhiteCorrelationStateTangent<R>>,
    z: Seq<R>,
) -> Seq<HullWhiteCorrelationStateTangent<R>> {
    Seq::new(
        3,
        |p: int|
            {
                let t = now[p];
                let rate_noise = dot(noise[p][2], z);
                let integral_noise = dot(noise[p][3], z);
                HullWhiteCorrelationStateTangent {
                    dividend_factor: if p == 0 {
                        dividend_tangent(m, y, path, step.dt, s, t.dividend_factor, z)
                    } else {
                        literal(0)
                    },
                    rate_factor: plus(times(step.decay, t.rate_factor), rate_noise),
                    integrated_rate_factor: plus(
                        plus(t.integrated_rate_factor, times(step.integral_loading, t.rate_factor)),
                        integral_noise,
                    ),
                }
            },
    )
}

/// All tangents are finite.
pub open spec fn all_tangents_finite<R: Scalar>(
    m: Model<R>,
    t: Seq<HullWhiteCorrelationStateTangent<R>>,
) -> bool {
    forall|p: int|
        0 <= p < t.len() ==> m.is_finite((#[trigger] t[p]).dividend_factor) && m.is_finite(
            t[p].rate_factor,
        ) && m.is_finite(t[p].integrated_rate_factor)
}

/// The tangents up to the node `n`.
pub open spec fn correlation_upto<R: Scalar, Y: DividendDynamics<R>>(
    m: Model<R>,
    y: Y,
    k: CorrelationSensitivityView<R>,
    path: RatePathView<R>,
    z: Seq<R>,
    states: Seq<StochasticDividendHullWhiteState<R>>,
    n: nat,
) -> Result<Seq<Seq<HullWhiteCorrelationStateTangent<R>>>, MonteCarloError>
    decreases n,
{
    if n == 0 {
        Ok(seq![Seq::new(3, |p: int| no_tangent::<R>())])
    } else {
        match correlation_upto(m, y, k, path, z, states, (n - 1) as nat) {
            Err(e) => Err(e),
            Ok(rows) => {
                let next = correlation_stepped(
                    m,
                    y,
                    path,
                    path.steps[n - 1],
                    k.noise[n - 1],
                    states[n - 1],
                    rows.last(),
                    chunk(z, 4, n - 1),
                );
                if all_tangents_finite(m, next) {
                    Ok(rows.push(next))
                } else {
                    Err(invalid_field("hw_correlation_state_derivative"))
                }
            },
        }
    }
}

/// The tangents of a path with respect to the correlations.
pub open spec fn correlation_tangents<R: Scalar, Y: DividendDynamics<R>>(
    m: Model<R>,
    y: Y,
    k: CorrelationSensitivityView<R>,
    path: RatePathView<R>,
    z: Seq<R>,
    states: Seq<StochasticDividendHullWhiteState<R>>,
) -> Result<Seq<Seq<HullWhiteCorrelationStateTangent<R>>>, MonteCarloError> {
    if z.len() != path.dimension || states.len() != path.times.len() || k.noise.len() + 1
        != states.len() {
        Err(invalid_field("hw_correlation_state_shape"))
    } else {
        correlation_upto(m, y, k, path, z, states, path.steps.len())
    }
}

proof fn correlation_stops<R: Scalar, Y: DividendDynamics<R>>(
    m: Model<R>,
    y: Y,
    k: CorrelationSensitivityView<R>,
    path: RatePathView<R>,
    z: Seq<R>,
    states: Seq<StochasticDividendHullWhiteState<R>>,
    a: nat,
    n: nat,
)
    requires
        a <= n,
        correlation_upto(m, y, k, path, z, states, a) is Err,
    ensures
        correlation_upto(m, y, k, path, z, states, n) == correlation_upto(
            m,
            y,
            k,
            path,
            z,
            states,
            a,
        ),
    decreases n,
{
    if a < n {
        correlation_stops(m, y, k, path, z, states, a, (n - 1) as nat);
    }
}

fn are_all_finite<R: Scalar, M: Math<R>>(
    m: &M,
    t: &Vec<HullWhiteCorrelationStateTangent<R>>,
) -> (b: bool)
    ensures
        b == all_tangents_finite(m.model(), t@),
{
    let mut p: usize = 0;
    while p < t.len()
        invariant
            p <= t@.len(),
            forall|q: int|
                0 <= q < p ==> m.model().is_finite((#[trigger] t@[q]).dividend_factor)
                    && m.model().is_finite(t@[q].rate_factor) && m.model().is_finite(
                    t@[q].integrated_rate_factor,
                ),
        decreases t@.len() - p,
    {
        if !m.is_finite(t[p].dividend_factor) || !m.is_finite(t[p].rate_factor) || !m.is_finite(
            t[p].integrated_rate_factor,
        ) {
            return false;
        }
        p = p + 1;
    }
    true
}

/// The derivative of a spot after its dividend with respect to a correlation, with
/// the first `n` claims.
pub open spec fn correlation_slope<R: Scalar>(
    m: Model<R>,
    k: CorrelationSensitivityView<R>,
    path: RatePathView<R>,
    i: int,
    s: StochasticDividendHullWhiteState<R>,
    t: HullWhiteCorrelationStateTangent<R>,
    p: int,
    n: nat,
) -> R
    decreases n,
{
    let f = s.factors.equity;
    let y = s.factors.dividend;
    if n == 0 {
        let growth = node_growth(m, path.nodes[i], s);
        let risky_spot = path.risky_spot;
        let slope = k.risky_spot[p];
        times(times(growth, f), plus(slope, times(risky_spot, t.integrated_rate_factor)))
    } else {
        let claim = path.nodes[i].claims[n - 1];
        let d = k.claims[i][n - 1][p];
        let shape = projection(claim, s.factors);
        let before = correlation_slope(m, k, path, i, s, t, p, (n - 1) as nat);
        plus(
            before,
            times(
                times(
                    times(claim.carry_weight, claim.amount),
                    m.exp(times(negated(claim.duration), s.rate_factor)),
                ),
                minus(
                    plus(
                        plus(plus(times(d[0], f), times(d[1], y)), d[2]),
                        times(claim.dividend, t.dividend_factor),
                    ),
                    times(times(claim.duration, t.rate_factor), shape),
                ),
            ),
        )
    }
}

/// The derivatives of the spots of a node with respect to a correlation.
pub open spec fn spot_pair<R: Scalar>(
    m: Model<R>,
    k: CorrelationSensitivityView<R>,
    path: RatePathView<R>,
    i: int,
    s: StochasticDividendHullWhiteState<R>,
    t: Seq<HullWhiteCorrelationStateTangent<R>>,
) -> spec_fn(int) -> Result<SpotSeed<R>, MonteCarloError> {
    |p: int|
        {
            let post = correlation_slope(
                m,
                k,
                path,
                i,
                s,
                t[p],
                p,
                path.nodes[i].claims.len(),
            );
            let paid = match path.nodes[i].event_cash {
                Some(x) => x,
                None => literal(0),
            };
            let pre = plus(post, times(paid, t[p].dividend_factor));
            if m.is_finite(post) && m.is_finite(pre) {
                Ok(SpotSeed { post, pre })
            } else {
                Err(invalid_field("hw_correlation_spot_derivative"))
            }
        }
}

/// The derivatives of the spots of a node with respect to the correlations.
pub open spec fn correlation_spots<R: Scalar>(
    m: Model<R>,
    k: CorrelationSensitivityView<R>,
    path: RatePathView<R>,
    i: int,
    s: StochasticDividendHullWhiteState<R>,
    t: Seq<HullWhiteCorrelationStateTangent<R>>,
) -> Result<Seq<SpotSeed<R>>, MonteCarloError> {
    if i >= path.nodes.len() || k.claims[i].len() != path.nodes[i].claims.len() {
        Err(invalid_field("hw_correlation_spot_shape"))
    } else {
        gather(3, spot_pair(m, k, path, i, s, t))
    }
}

impl<R: Scalar> HullWhiteCorrelationSensitivityContext<R> {
    fn step_tangents<M: Math<R>, Y: DividendDynamics<R>>(
        &self,
        m: &M,
        y: &Y,
        path: &StochasticDividendHullWhitePathPlan<R>,
        i: usize,
        s: StochasticDividendHullWhiteState<R>,
        now: &Vec<HullWhiteCorrelationStateTangent<R>>,
        normals: &Vec<R>,
    ) -> (v: Vec<HullWhiteCorrelationStateTangent<R>>)
        requires
            path@.valid(),
            self@.of(path@),
            i < path@.steps.len(),
            now@.len() == 3,
            normals@.len() == path@.dimension,
        ensures
            v@ == correlation_stepped(
                m.model(),
                *y,
                path@,
                path@.steps[i as int],
                self@.noise[i as int],
                s,
                now@,
                chunk(normals@, 4, i as int),
            ),
            v@.len() == 3,
    {
        m.laws();
        let at: usize = 4 * i;
        let ghost z = chunk(normals@, 4, i as int);
        proof {
            assert(path@.steps[i as int] == path.steps@[i as int]@);
            assert(self@.noise[i as int] == self.noise@[i as int]@);
            assert(three_squares(self@.noise[i as int]));
        }
        let step = &path.steps[i];
        let directions = &self.noise[i].directions;
        let z0 = normals[at];
        let z1 = normals[at + 1];
        assert(z0 == z[0] && z1 == z[1]);
        let model = path.model;
        let rho = model.equity_dividend_correlation;
        let root = m.sqrt((R::from(1u32) - rho) * (R::from(1u32) + rho));
        let dt = step.dt;
        let weights = y.decay(model.mean_reversion, (R::from(1u32) / R::from(2u32)) * dt);
        let a = weights.first;
        let target = y.target(model, s.factors.equity);
        let half_way = y.blend(weights, s.factors.dividend, target);
        let v = model.dividend_volatility * m.sqrt(dt);
        let ed = m.exp((R::from(1u32) / R::from(2u32)).neg() * v * v + v * (rho * z0 + root * z1));
        let current = now[0].dividend_factor;
        let dividend = a * ed * (a * current + half_way * v * (z0 - rho / root * z1));
        assert(dividend == dividend_tangent(m.model(), *y, path@, dt, s, current, z));
        let ghost want = correlation_stepped(
            m.model(),
            *y,
            path@,
            path@.steps[i as int],
            self@.noise[i as int],
            s,
            now@,
            z,
        );
        let ghost entry = |p: int| want[p];
        let out_at = |p: usize| -> (x: HullWhiteCorrelationStateTangent<R>)
            requires
                p < 3,
            ensures
                x == entry(p as int),
            {
                m.laws();
                let d = &directions[p];
                proof {
                    assert(self@.noise[i as int][p as int] == d@);
                    assert(square(self@.noise[i as int][p as int]));
                    assert(d@[2].len() == 4 && d@[3].len() == 4);
                    assert(d@[2] == d.rows@[2]@ && d@[3] == d.rows@[3]@);
                }
                let t = now[p];
                let rate_noise = dot_at(m, &d.rows[2], normals, at);
                let integral_noise = dot_at(m, &d.rows[3], normals, at);
                HullWhiteCorrelationStateTangent {
                    dividend_factor: if p == 0 {
                        dividend
                    } else {
                        R::from(0u32)
                    },
                    rate_factor: step.decay * t.rate_factor + rate_noise,
                    integrated_rate_factor: t.integrated_rate_factor
                        + step.integral_loading * t.rate_factor + integral_noise,
                }
            };
        let out = build(
            3,
            out_at,
            Ghost(entry),
        );
        assert(out@ =~= want);
        out
    }

    /// Takes the tangents of a path.
    pub fn evolve_tangents<M: Math<R>, Y: DividendDynamics<R>>(
        &self,
        m: &M,
        y: &Y,
        path: &StochasticDividendHullWhitePathPlan<R>,
        normals: &Vec<R>,
        states: &Vec<StochasticDividendHullWhiteState<R>>,
    ) -> (r: Result<Vec<Vec<HullWhiteCorrelationStateTangent<R>>>, MonteCarloError>)
        requires
            path@.valid(),
            self@.of(path@),
        ensures
            (match r {
                Ok(v) => Ok(rows_seen(v@)),
                Err(e) => Err(e),
            }) == correlation_tangents(m.model(), *y, self@, path@, normals@, states@),
            r matches Ok(v) ==> v@.len() == path@.times.len() && forall|i: int|
                0 <= i < v@.len() ==> (#[trigger] v@[i])@.len() == 3,
    {
        m.laws();
        if normals.len() != path.dimension as usize || states.len() != path.times.len()
            || states.len() == 0 || self.noise.len() != states.len() - 1 {
            return Err(invalid("hw_correlation_state_shape"));
        }
        let ghost nothing = |p: int| no_tangent::<R>();
        let first_at = |p: usize| -> (x: HullWhiteCorrelationStateTangent<R>)
            requires
                p < 3,
            ensures
                x == nothing(p as int),
            {
                m.laws();
                let zero = R::from(0u32);
                HullWhiteCorrelationStateTangent {
                    dividend_factor: zero,
                    rate_factor: zero,
                    integrated_rate_factor: zero,
                }
            };
        let first = build(
            3,
            first_at,
            Ghost(nothing),
        );
        assert(first@ =~= Seq::new(3, |p: int| no_tangent::<R>()));
        let ghost first_view = first@;
        let mut rows: Vec<Vec<HullWhiteCorrelationStateTangent<R>>> = vec![first];
        assert(rows_seen(rows@) =~= seq![first_view]);
        let count = path.steps.len();
        assert(path@.steps.len() == path.steps@.len());
        let mut i: usize = 0;
        while i < count
            invariant
                path@.valid(),
                self@.of(path@),
                normals@.len() == path@.dimension,
                states@.len() == path@.times.len(),
                count == path@.steps.len(),
                self@.noise.len() + 1 == states@.len(),
                i <= count,
                rows@.len() == i + 1,
                forall|k: int| 0 <= k < rows@.len() ==> (#[trigger] rows@[k])@.len() == 3,
                correlation_upto(m.model(), *y, self@, path@, normals@, states@, i as nat) == Ok::<
                    Seq<Seq<HullWhiteCorrelationStateTangent<R>>>,
                    MonteCarloError,
                >(rows_seen(rows@)),
            decreases count - i,
        {
            proof {
                if correlation_upto(
                    m.model(),
                    *y,
                    self@,
                    path@,
                    normals@,
                    states@,
                    (i + 1) as nat,
                ) is Err {
                    correlation_stops(
                        m.model(),
                        *y,
                        self@,
                        path@,
                        normals@,
                        states@,
                        (i + 1) as nat,
                        count as nat,
                    );
                }
                assert(rows@[i as int]@.len() == 3);
            }
            let ghost before = rows_seen(rows@);
            assert(before.last() == rows@[i as int]@);
            let next = self.step_tangents(m, y, path, i, states[i], &rows[i], normals);
            if !are_all_finite(m, &next) {
                return Err(invalid("hw_correlation_state_derivative"));
            }
            let ghost seen_next = next@;
            rows.push(next);
            assert(rows_seen(rows@) =~= before.push(seen_next));
            i = i + 1;
        }
        Ok(rows)
    }

    fn take_slope<M: Math<R>>(
        &self,
        m: &M,
        path: &StochasticDividendHullWhitePathPlan<R>,
        i: usize,
        s: StochasticDividendHullWhiteState<R>,
        t: HullWhiteCorrelationStateTangent<R>,
        p: usize,
    ) -> (x: R)
        requires
            path@.valid(),
            self@.of(path@),
            i < path@.nodes.len(),
            p < 3,
        ensures
            x == correlation_slope(
                m.model(),
                self@,
                path@,
                i as int,
                s,
                t,
                p as int,
                path@.nodes[i as int].claims.len(),
            ),
    {
        m.laws();
        proof {
            assert(path@.nodes[i as int] == path.nodes@[i as int]@);
            assert(self@.claims[i as int] == self.claims@[i as int]@);
            assert(directions_sized(self@.claims[i as int], path@.nodes[i as int].claims.len()));
        }
        let node = &path.nodes[i];
        let f = s.factors.equity;
        let y = s.factors.dividend;
        let growth = node.residual_growth * m.exp(
            s.integrated_rate_factor + node.half_integral_variance,
        );
        let risky_spot = path.risky_spot;
        let slope = self.risky_spot[p];
        let mut sum = growth * f * (slope + risky_spot * t.integrated_rate_factor);
        let n = node.claims.len();
        let mut k: usize = 0;
        while k < n
            invariant
                lawful::<R>(),
                path@.valid(),
                self@.of(path@),
                i < path@.nodes.len(),
                p < 3,
                node@ == path@.nodes[i as int],
                self@.claims[i as int] == self.claims@[i as int]@,
                directions_sized(self@.claims[i as int], n as nat),
                n == node.claims@.len(),
                f == s.factors.equity,
                y == s.factors.dividend,
                k <= n,
                sum == correlation_slope(
                    m.model(),
                    self@,
                    path@,
                    i as int,
                    s,
                    t,
                    p as int,
                    k as nat,
                ),
            decreases n - k,
        {
            proof {
                let here = self@.claims[i as int][k as int];
                assert(three_by_three(here));
                assert(here == self.claims@[i as int].directions@[k as int]@);
                assert(
                    here[p as int] == self.claims@[i as int].directions@[k as int].rows@[p as int]@
                );
                assert(here[p as int].len() == 3);
            }
            let claim = node.claims[k];
            let d = &self.claims[i].directions[k].rows[p];
            let shape = claim.equity * s.factors.equity + claim.dividend * s.factors.dividend
                + claim.constant;
            sum = sum
                + claim.carry_weight * claim.amount * m.exp(claim.duration.neg() * s.rate_factor) * (
                d[0] * f + d[1] * y + d[2] + claim.dividend * t.dividend_factor
                    - claim.duration * t.rate_factor * shape
            );
            k = k + 1;
        }
        sum
    }

    /// Takes the derivatives of the spots of a node. Only that of the spot before its
    /// dividend holds the derivative of the cash that is paid.
    pub fn spot_derivatives<M: Math<R>>(
        &self,
        m: &M,
        path: &StochasticDividendHullWhitePathPlan<R>,
        index: usize,
        state: StochasticDividendHullWhiteState<R>,
        tangents: &Vec<HullWhiteCorrelationStateTangent<R>>,
    ) -> (r: Result<Vec<SpotSeed<R>>, MonteCarloError>)
        requires
            path@.valid(),
            self@.of(path@),
            tangents@.len() == 3,
        ensures
            seen(r) == correlation_spots(
                m.model(),
                self@,
                path@,
                index as int,
                state,
                tangents@,
            ),
            r matches Ok(v) ==> v@.len() == 3,
    {
        if index >= path.nodes.len() {
            return Err(invalid("hw_correlation_spot_shape"));
        }
        proof {
            assert(path@.nodes[index as int] == path.nodes@[index as int]@);
            assert(directions_sized(
                self@.claims[index as int],
                path@.nodes[index as int].claims.len(),
            ));
        }
        let event_cash = path.nodes[index].event_cash;
        let ghost law = spot_pair(m.model(), self@, path@, index as int, state, tangents@);
        let f_at = |p: usize| -> (x: Result<SpotSeed<R>, MonteCarloError>)
            requires
                p < 3,
            ensures
                x == law(p as int),
            {
                m.laws();
                let post = self.take_slope(m, path, index, state, tangents[p], p);
                let paid = match event_cash {
                    Some(x) => x,
                    None => R::from(0u32),
                };
                let pre = post + paid * tangents[p].dividend_factor;
                if !m.is_finite(post) || !m.is_finite(pre) {
                    return Err(invalid("hw_correlation_spot_derivative"));
                }
                Ok(SpotSeed { post, pre })
            };
        collect(
            3,
            f_at,
            Ghost(law),
        )
    }
}

} // verus!
