//! The derivatives of the volatility loadings with respect to the parameters of
//! the factors, at fixed normals and correlations. The coefficients are
//! prepared once; the factors are reversed once for each path.

use crate::bergomi::{
    integrated_entry, loading_of, one_factor_matrix, step_kernels, step_of, two_factor_matrix,
    Kernel, KernelView, Step,
};
use crate::cholesky::{tangent, tangent_columns, tangent_shape};
use crate::dynamics::KernelNumerics;
use crate::errors::{
    invalid, invalid_field, unsupported_feature, MonteCarloError, StochasticDividendError,
};
use crate::linear::{
    add_onto, are_rows_finite, build, build_rows, chunk, collect, collect_rows, collect_views, dot,
    dot_at, make_smallest_pivot, onto, rows_finite, rows_seen, smallest_pivot, take_dot, take_total,
    total, viewed, views,
};
use crate::models::Pair;
use crate::pathwise::make_zeros;
use crate::results::{gather, seen};
use crate::sampling::{half, zeros};
use crate::scalar::{
    all_finite, gt, lawful, le, literal, lt, minus, negated, over, plus, times, Math, Model, Scalar,
};
use core::ops::Neg;
use vstd::prelude::*;

verus! {

/// Below this argument a series is used.
pub open spec fn series_bound<R: Scalar>() -> R {
    over(literal(1), literal(1000))
}

/// The derivative of the logarithm of the mean of a decaying exponential over
/// the unit interval.
pub open spec fn log_phi_derivative_of<R: Scalar>(m: Model<R>, x: R) -> R {
    if lt(x, series_bound()) {
        plus(
            negated(half()),
            times(
                x,
                plus(
                    over(literal(1), literal(12)),
                    times(
                        times(x, x),
                        plus(
                            over(negated(literal(1)), literal(720)),
                            over(times(x, x), literal(30240)),
                        ),
                    ),
                ),
            ),
        )
    } else {
        minus(over(m.exp(negated(x)), negated(m.exp_m1(negated(x)))), over(literal(1), x))
    }
}

/// Computes [`log_phi_derivative_of`].
pub fn log_phi_derivative<R: Scalar, M: Math<R>>(m: &M, x: R) -> (y: R)
    ensures
        y == log_phi_derivative_of(m.model(), x),
{
    m.laws();
    if x < R::from(1u32) / R::from(1000u32) {
        let x2 = x * x;
        let half_value = R::from(1u32) / R::from(2u32);
        half_value.neg() + x * (
            R::from(1u32) / R::from(12u32) + x2 * (
                R::from(1u32).neg() / R::from(720u32) + x2 / R::from(30240u32)
            )
        )
    } else {
        m.exp(x.neg()) / m.exp_m1(x.neg()).neg() - R::from(1u32) / x
    }
}

/// The derivatives of a step with respect to the speeds: how the loadings of
/// each factor move with each speed, speed by speed, and how its decay moves
/// with its own.
pub struct StepDerivative<R> {
    pub lower: Vec<Vec<R>>,
    pub decay: Vec<R>,
}

/// A [`StepDerivative`] as a mathematical value.
pub ghost struct StepDerivativeView<R> {
    pub lower: Seq<Seq<R>>,
    pub decay: Seq<R>,
}

impl<R> View for StepDerivative<R> {
    type V = StepDerivativeView<R>;

    open spec fn view(&self) -> StepDerivativeView<R> {
        StepDerivativeView { lower: rows_seen(self.lower@), decay: self.decay@ }
    }
}

impl<R> StepDerivativeView<R> {
    /// The derivatives of a step of `n` factors.
    pub open spec fn of(self, n: nat) -> bool {
        &&& self.decay.len() == n
        &&& self.lower.len() == n * n
        &&& forall|i: int| 0 <= i < n * n ==> (#[trigger] self.lower[i]).len() == n + 2
    }
}

/// Parameter derivatives need room in the correlations and in the weights.
pub open spec fn parameters_unsupported() -> MonteCarloError {
    unsupported_feature(
        "Bergomi parameter AAD requires integrated correlation pivots and weight variance > 1e-10; use evaluate_aad for the basic risk scope",
    )
}

fn refuse_parameters() -> (e: MonteCarloError)
    ensures
        e == parameters_unsupported(),
{
    MonteCarloError::StochasticDividend(
        StochasticDividendError::Unsupported {
            feature: "Bergomi parameter AAD requires integrated correlation pivots and weight variance > 1e-10; use evaluate_aad for the basic risk scope",
        },
    )
}

/// Some pivot is too small.
pub open spec fn pivots_small<R: Scalar>(pivots: Seq<R>) -> bool {
    exists|i: int| 0 <= i < pivots.len() && le(#[trigger] pivots[i], smallest_pivot())
}

/// Tests [`pivots_small`].
fn are_pivots_small<R: Scalar, M: Math<R>>(m: &M, pivots: &Vec<R>) -> (b: bool)
    ensures
        b == pivots_small(pivots@),
{
    m.laws();
    let bound = make_smallest_pivot(m);
    let mut i: usize = 0;
    while i < pivots.len()
        invariant
            lawful::<R>(),
            bound == smallest_pivot::<R>(),
            i <= pivots@.len(),
            forall|k: int| 0 <= k < i ==> !le(#[trigger] pivots@[k], smallest_pivot()),
        decreases pivots@.len() - i,
    {
        if pivots[i] <= bound {
            assert(le(pivots@[i as int], smallest_pivot()));
            return true;
        }
        i = i + 1;
    }
    false
}

/// By how much the speed `p` moves the kernel `i`.
pub open spec fn kernel_shift<R: Scalar>(dt: R, p: int, i: int) -> R {
    if i == p + 2 {
        dt
    } else {
        literal(0)
    }
}

/// The derivative of the integrated correlations with respect to the speed `p`.
pub open spec fn speed_tangent<R: Scalar>(
    m: Model<R>,
    c: Seq<R>,
    a: Seq<R>,
    dt: R,
    p: int,
) -> spec_fn(int, int) -> R {
    |i: int, j: int|
        {
            let d = a.len() as int;
            let di = kernel_shift(dt, p, i);
            let dj = kernel_shift(dt, p, j);
            times(
                c[i * d + j],
                minus(
                    minus(
                        times(plus(di, dj), log_phi_derivative_of(m, plus(a[i], a[j]))),
                        times(di, log_phi_derivative_of(m, times(literal(2), a[i]))),
                    ),
                    times(dj, log_phi_derivative_of(m, times(literal(2), a[j]))),
                ),
            )
        }
}

/// The decay and the variance of each factor over a step.
pub open spec fn reverse_marginal<R: Scalar, N: KernelNumerics<R>>(
    o: N,
    speeds: Seq<R>,
    dt: R,
    field: &'static str,
) -> spec_fn(int) -> Result<Pair<R>, MonteCarloError> {
    |i: int|
        match o.transition_of(speeds[i], dt) {
            None => Err(invalid_field(field)),
            Some(p) => Ok(p),
        }
}

/// The derivative of the deviation of the factor `i` with respect to the speed
/// `p`.
pub open spec fn deviation_tangent<R: Scalar>(
    m: Model<R>,
    a: Seq<R>,
    scale: R,
    dt: R,
    p: int,
    i: int,
) -> R {
    if i == p {
        times(times(scale, dt), log_phi_derivative_of(m, times(literal(2), a[i + 2])))
    } else {
        literal(0)
    }
}

/// The derivative of the loadings of the factor `i` with respect to the speed
/// `p`; the rows stand speed by speed.
pub open spec fn speed_row<R: Scalar>(
    m: Model<R>,
    c: Seq<R>,
    a: Seq<R>,
    l: Seq<R>,
    marginals: Seq<Pair<R>>,
    dt: R,
    n: int,
) -> spec_fn(int) -> Seq<R> {
    |q: int|
        {
            let d = n + 2;
            let p = q / n;
            let i = q % n;
            let scale = m.sqrt(marginals[i].second);
            let columns = tangent_columns(l, d, speed_tangent(m, c, a, dt, p), d as nat);
            Seq::new(
                d as nat,
                |j: int|
                    plus(
                        times(deviation_tangent(m, a, scale, dt, p, i), l[(i + 2) * d + j]),
                        times(scale, columns[j][i + 2]),
                    ),
            )
        }
}

/// The derivatives of the step that the speeds and the correlations make.
pub open spec fn step_derivative_of<R: Scalar, N: KernelNumerics<R>>(
    m: Model<R>,
    o: N,
    speeds: Seq<R>,
    matrix: Seq<R>,
    dt: R,
) -> Result<StepDerivativeView<R>, MonteCarloError> {
    let n = speeds.len();
    let d = n + 2;
    let a = step_kernels(speeds, dt);
    match gather(d * d, integrated_entry(o, a, matrix)) {
        Err(e) => Err(e),
        Ok(c) => match o.factor_of(c, d as usize) {
            None => Err(invalid_field("bergomi_reverse_covariance")),
            Some(l) => if pivots_small(o.pivots_of(c, d as usize)) {
                Err(parameters_unsupported())
            } else {
                match gather(n, reverse_marginal(o, speeds, dt, "bergomi_reverse_variance")) {
                    Err(e) => Err(e),
                    Ok(marginals) => {
                        let lower = Seq::new(
                            n * n,
                            speed_row(m, c, a, l, marginals, dt, n as int),
                        );
                        let decay = Seq::new(
                            n,
                            |i: int| times(negated(dt), m.exp(times(negated(speeds[i]), dt))),
                        );
                        if rows_finite(m, lower) && m.all_finite(decay) {
                            Ok(StepDerivativeView { lower, decay })
                        } else {
                            Err(invalid_field("bergomi_coefficient_derivative"))
                        }
                    },
                }
            },
        },
    }
}

proof fn lemma_row(q: int, n: int)
    requires
        0 < n,
        0 <= q < n * n,
    ensures
        0 <= q / n < n,
        0 <= q % n < n,
{
    assert(0 <= q / n < n && 0 <= q % n < n) by (nonlinear_arith)
        requires
            0 < n,
            0 <= q < n * n,
    ;
}

proof fn lemma_index(i: int, j: int, d: int)
    requires
        0 <= i < d,
        0 <= j < d,
    ensures
        0 <= i * d,
        0 <= i * d + j < d * d,
{
    assert(0 <= i * d && i * d + j < d * d) by (nonlinear_arith)
        requires
            0 <= i < d,
            0 <= j < d,
    ;
}

impl<R: Scalar> StepDerivative<R> {
    /// Prepares the derivatives of a step.
    pub fn new<M: Math<R>, N: KernelNumerics<R>>(
        m: &M,
        o: &N,
        speeds: &Vec<R>,
        matrix: &Vec<R>,
        dt: R,
    ) -> (r: Result<StepDerivative<R>, MonteCarloError>)
        requires
            speeds@.len() > 0,
            (speeds@.len() + 2) * (speeds@.len() + 2) <= usize::MAX,
            matrix@.len() == (speeds@.len() + 2) * (speeds@.len() + 2),
        ensures
            viewed(r) == step_derivative_of(m.model(), *o, speeds@, matrix@, dt),
            r matches Ok(s) ==> s@.of(speeds@.len()),
    {
        m.laws();
        let n = speeds.len();
        assert(n + 2 <= usize::MAX && n * n <= usize::MAX) by (nonlinear_arith)
            requires
                (n + 2) * (n + 2) <= usize::MAX,
        ;
        let d: usize = n + 2;
        let ghost ks = step_kernels(speeds@, dt);
        let ghost kernel = |i: int| ks[i];
        let a_at = |i: usize| -> (x: R)
            requires
                i < d,
            ensures
                x == kernel(i as int),
            {
                m.laws();
                if i < 2 {
                    R::from(0u32)
                } else {
                    speeds[i - 2] * dt
                }
            };
        let a = build(
            d,
            a_at,
            Ghost(kernel),
        );
        assert(a@ =~= ks);
        let ghost entry = integrated_entry(*o, ks, matrix@);
        let c_at = |q: usize| -> (x: Result<R, MonteCarloError>)
            requires
                q < d * d,
            ensures
                x == entry(q as int),
            {
                m.laws();
                proof {
                    lemma_row(q as int, d as int);
                }
                match o.kernel_correlation(a[q / d], a[q % d]) {
                    None => Err(invalid("bergomi_ou_covariance")),
                    Some(x) => Ok(matrix[q] * x),
                }
            };
        let c = match collect(
            d * d,
            c_at,
            Ghost(entry),
        ) {
            Err(e) => return Err(e),
            Ok(v) => v,
        };
        let l = match o.factor(&c, d) {
            None => return Err(invalid("bergomi_reverse_covariance")),
            Some(v) => v,
        };
        let pivots = o.pivots(&c, d);
        if are_pivots_small(m, &pivots) {
            return Err(refuse_parameters());
        }
        let ghost law = reverse_marginal(*o, speeds@, dt, "bergomi_reverse_variance");
        let marginals_at = |i: usize| -> (x: Result<Pair<R>, MonteCarloError>)
            requires
                i < n,
            ensures
                x == law(i as int),
            {
                match o.transition(speeds[i], dt) {
                    None => Err(invalid("bergomi_reverse_variance")),
                    Some(p) => Ok(p),
                }
            };
        let marginals = match collect(
            n,
            marginals_at,
            Ghost(law),
        ) {
            Err(e) => return Err(e),
            Ok(v) => v,
        };
        let ghost rows = speed_row(m.model(), c@, a@, l@, marginals@, dt, n as int);
        let lower_at = |q: usize| -> (row: Vec<R>)
            requires
                q < n * n,
            ensures
                row@ == rows(q as int),
            {
                m.laws();
                proof {
                    lemma_row(q as int, n as int);
                }
                let p: usize = q / n;
                let at: usize = q % n;
                let scale = m.sqrt(marginals[at].second);
                let deviation = if at == p {
                    scale * dt * log_phi_derivative(m, R::from(2u32) * a[at + 2])
                } else {
                    R::from(0u32)
                };
                let ghost dc = speed_tangent(m.model(), c@, a@, dt, p as int);
                let moved = |i: usize, j: usize| -> (x: R)
                    requires
                        j < i < d,
                    ensures
                        x == dc(i as int, j as int),
                    {
                        m.laws();
                        proof {
                            lemma_index(i as int, j as int, d as int);
                        }
                        let di = if i == p + 2 {
                            dt
                        } else {
                            R::from(0u32)
                        };
                        let dj = if j == p + 2 {
                            dt
                        } else {
                            R::from(0u32)
                        };
                        c[i * d + j] * (
                            (di + dj) * log_phi_derivative(m, a[i] + a[j])
                                - di * log_phi_derivative(m, R::from(2u32) * a[i])
                                    - dj * log_phi_derivative(m, R::from(2u32) * a[j])
                        )
                    };
                let columns = tangent(m, &l, d, moved, Ghost(dc));
                let ghost entries = |j: int| rows(q as int)[j];
                proof {
                    tangent_shape(l@, d as int, dc, d as nat);
                }
                let row_at = |j: usize| -> (x: R)
                    requires
                        j < d,
                    ensures
                        x == entries(j as int),
                    {
                        m.laws();
                        proof {
                            lemma_index(at + 2, j as int, d as int);
                            assert(rows_seen(columns@)[j as int] == columns@[j as int]@);
                        }
                        deviation * l[(at + 2) * d + j] + scale * columns[j][at + 2]
                    };
                let row = build(
                    d,
                    row_at,
                    Ghost(entries),
                );
                assert(row@ =~= rows(q as int));
                row
            };
        let lower = build_rows(
            n * n,
            lower_at,
            Ghost(rows),
        );
        let ghost model = m.model();
        let ghost fade = |i: int| times(negated(dt), model.exp(times(negated(speeds@[i]), dt)));
        let decay_at = |i: usize| -> (x: R)
            requires
                i < n,
            ensures
                x == fade(i as int),
            {
                m.laws();
                dt.neg() * m.exp(speeds[i].neg() * dt)
            };
        let decay = build(
            n,
            decay_at,
            Ghost(fade),
        );
        if !are_rows_finite(m, &lower) || !all_finite(m, decay.as_slice()) {
            return Err(invalid("bergomi_coefficient_derivative"));
        }
        let s = StepDerivative { lower, decay };
        Ok(s)
    }
}

/// The parameters of a kernel stand in its identity.
pub open spec fn identified<R, L>(k: KernelView<R, L>) -> bool {
    ||| k.n() == 1 && k.identity.len() == 4
    ||| k.n() == 2 && k.identity.len() == 9
}

/// The speeds of the factors of a kernel.
pub open spec fn kernel_speeds<R, L>(k: KernelView<R, L>) -> Seq<R> {
    if k.n() == 1 {
        seq![k.identity[0]]
    } else {
        seq![k.identity[0], k.identity[1]]
    }
}

/// The correlations of the drivers of a kernel.
pub open spec fn kernel_matrix<R: Scalar, L>(k: KernelView<R, L>, sd: R) -> Seq<R> {
    if k.n() == 1 {
        one_factor_matrix(sd, k.identity[2], k.identity[3])
    } else {
        two_factor_matrix(
            sd,
            Pair { first: k.identity[4], second: k.identity[5] },
            Pair { first: k.identity[7], second: k.identity[8] },
            k.identity[6],
        )
    }
}

/// The squared norm of the weights of two factors before they are normalised.
pub open spec fn weight_norm<R: Scalar>(theta: R, vv: R) -> R {
    plus(
        times(
            minus(literal(1), times(literal(2), theta)),
            minus(literal(1), times(literal(2), theta)),
        ),
        times(times(times(literal(2), theta), minus(literal(1), theta)), plus(literal(1), vv)),
    )
}

/// How the weights of two factors move with the mixing weight.
pub open spec fn weight_tangent<R: Scalar>(
    m: Model<R>,
    weights: Seq<R>,
    theta: R,
    vv: R,
) -> Seq<R> {
    let norm2 = weight_norm(theta, vv);
    let slope = over(
        times(minus(literal(1), vv), minus(times(literal(2), theta), literal(1))),
        norm2,
    );
    seq![
        minus(over(negated(literal(1)), m.sqrt(norm2)), times(weights[0], slope)),
        minus(over(literal(1), m.sqrt(norm2)), times(weights[1], slope)),
    ]
}

/// Computes the speeds of the factors of a kernel.
pub(crate) fn take_speeds<R: Scalar, L>(k: &Kernel<R, L>) -> (v: Vec<R>)
    requires
        identified(k@),
    ensures
        v@ == kernel_speeds(k@),
        v@.len() == k@.n(),
{
    let v: Vec<R> = if k.weights.len() == 1 {
        vec![k.identity[0]]
    } else {
        vec![k.identity[0], k.identity[1]]
    };
    assert(v@ =~= kernel_speeds(k@));
    v
}

/// Computes the correlations of the drivers of a kernel.
pub(crate) fn take_matrix<R: Scalar, L, M: Math<R>>(m: &M, k: &Kernel<R, L>, sd: R) -> (v: Vec<R>)
    requires
        identified(k@),
    ensures
        v@ == kernel_matrix(k@, sd),
        v@.len() == (k@.n() + 2) * (k@.n() + 2),
{
    m.laws();
    let one = R::from(1u32);
    let id = &k.identity;
    let v: Vec<R> = if k.weights.len() == 1 {
        vec![one, sd, id[2], sd, one, id[3], id[2], id[3], one]
    } else {
        vec![
            one,
            sd,
            id[4],
            id[5],
            sd,
            one,
            id[7],
            id[8],
            id[4],
            id[7],
            one,
            id[6],
            id[5],
            id[8],
            id[6],
            one,
        ]
    };
    assert(v@ =~= kernel_matrix(k@, sd));
    let ghost n = k@.n();
    assert(n == 1 ==> (n + 2) * (n + 2) == 9) by (nonlinear_arith);
    assert(n == 2 ==> (n + 2) * (n + 2) == 16) by (nonlinear_arith);
    v
}

/// The number of parameters of a kernel of `n` factors: the speeds, the
/// volatility of volatility and, with two factors, the mixing weight.
pub open spec fn parameter_count(n: nat) -> nat {
    if n == 1 {
        2
    } else {
        4
    }
}

/// The exposure of weighted factors to the normal `j`, with the loadings that
/// stand in rows from `start` on.
pub open spec fn exposure<R: Scalar>(
    weights: Seq<R>,
    rows: Seq<Seq<R>>,
    start: int,
    j: int,
) -> R {
    total(Seq::new(weights.len(), |i: int| times(weights[i], rows[start + i][j])))
}

/// The derivative of the centering at a time with respect to one parameter:
/// `slope` gives the derivative of the exposure to each normal.
pub open spec fn centering_slope<R: Scalar>(
    weights: Seq<R>,
    vol_of_vol: R,
    lower: Seq<Seq<R>>,
    d: int,
    slope: spec_fn(int) -> R,
) -> R {
    total(
        Seq::new(
            d as nat,
            |j: int| times(
                times(times(literal(2), vol_of_vol), exposure(weights, lower, 0, j)),
                slope(j),
            ),
        ),
    )
}

/// Computes [`exposure`].
fn take_exposure<R: Scalar, M: Math<R>>(
    m: &M,
    weights: &Vec<R>,
    rows: &Vec<Vec<R>>,
    start: usize,
    j: usize,
) -> (x: R)
    requires
        start + weights@.len() <= rows@.len(),
        forall|i: int| 0 <= i < rows@.len() ==> j < (#[trigger] rows@[i])@.len(),
    ensures
        x == exposure(weights@, rows_seen(rows@), start as int, j as int),
{
    let n = weights.len();
    assert(rows@.len() == rows.len());
    let ghost term = |i: int| times(weights@[i], rows_seen(rows@)[start + i][j as int]);
    let terms_at = |i: usize| -> (x: R)
        requires
            i < n,
        ensures
            x == term(i as int),
        {
            m.laws();
            assert(j < rows@[start + i]@.len());
            weights[i] * rows[start + i][j]
        };
    let terms = build(
        n,
        terms_at,
        Ghost(term),
    );
    let x = take_total(m, &terms);
    assert(terms@ =~= Seq::new(
        weights@.len(),
        |i: int| times(weights@[i], rows_seen(rows@)[start + i][j as int]),
    ));
    x
}

/// Computes [`centering_slope`].
pub(crate) fn take_slope<R: Scalar, M: Math<R>, F: Fn(usize) -> R>(
    m: &M,
    weights: &Vec<R>,
    vol_of_vol: R,
    lower: &Vec<Vec<R>>,
    d: usize,
    f: F,
    Ghost(slope): Ghost<spec_fn(int) -> R>,
) -> (x: R)
    requires
        weights@.len() <= lower@.len(),
        forall|i: int| 0 <= i < lower@.len() ==> (#[trigger] lower@[i])@.len() == d,
        forall|j: usize| j < d ==> #[trigger] call_requires(f, (j,)),
        forall|j: usize, x: R| #[trigger] call_ensures(f, (j,), x) && j < d
            ==> x == slope(j as int),
    ensures
        x == centering_slope(weights@, vol_of_vol, rows_seen(lower@), d as int, slope),
{
    let ghost w0 = weights@;
    let ghost l0 = rows_seen(lower@);
    let ghost term = |j: int|
        times(times(times(literal(2), vol_of_vol), exposure(w0, l0, 0, j)), slope(j));
    let terms_at = |j: usize| -> (x: R)
        requires
            j < d,
        ensures
            x == term(j as int),
        {
            m.laws();
            let e = take_exposure(m, weights, lower, 0, j);
            let s = f(j);
            R::from(2u32) * vol_of_vol * e * s
        };
    let terms = build(
        d,
        terms_at,
        Ghost(term),
    );
    let x = take_total(m, &terms);
    assert(terms@ =~= Seq::new(
        d as nat,
        |j: int| times(times(times(literal(2), vol_of_vol), exposure(w0, l0, 0, j)), slope(j)),
    ));
    x
}

/// The derivatives of the centering at a time: with respect to the speeds and,
/// with two factors, to the mixing weight.
pub open spec fn centering_derivative<R: Scalar, L, N: KernelNumerics<R>>(
    m: Model<R>,
    o: N,
    k: KernelView<R, L>,
    matrix: Seq<R>,
    grid: Seq<R>,
    weight: Seq<R>,
) -> spec_fn(int) -> Result<Seq<R>, MonteCarloError> {
    |at: int|
        {
            let n = k.n() as int;
            let d = n + 2;
            let speeds = kernel_speeds(k);
            if gt(grid[at], literal(0)) {
                match step_of(m, o, speeds, matrix, grid[at]) {
                    Err(e) => Err(e),
                    Ok(s) => match step_derivative_of(m, o, speeds, matrix, grid[at]) {
                        Err(e) => Err(e),
                        Ok(ds) => {
                            let slopes = Seq::new(
                                parameter_count(k.n()),
                                |p: int|
                                    if p < n {
                                        centering_slope(
                                            k.weights,
                                            k.vol_of_vol,
                                            s.lower,
                                            d,
                                            |j: int| exposure(k.weights, ds.lower, p * n, j),
                                        )
                                    } else if p == n {
                                        literal(0)
                                    } else {
                                        centering_slope(
                                            k.weights,
                                            k.vol_of_vol,
                                            s.lower,
                                            d,
                                            |j: int| exposure(weight, s.lower, 0, j),
                                        )
                                    },
                            );
                            if m.all_finite(slopes) {
                                Ok(slopes)
                            } else {
                                Err(invalid_field("bergomi_centering_derivative"))
                            }
                        },
                    },
                }
            } else if m.all_finite(zeros::<R>(parameter_count(k.n()))) {
                Ok(zeros(parameter_count(k.n())))
            } else {
                Err(invalid_field("bergomi_centering_derivative"))
            }
        }
}

/// What the parameter derivatives of a kernel need beside the kernel: the
/// derivatives of each step, those of the centering at each time, and those of
/// the weights with respect to the mixing weight.
pub struct BergomiParameterReverse<R> {
    pub steps: Vec<StepDerivative<R>>,
    pub centering: Vec<Vec<R>>,
    pub weight: Vec<R>,
}

/// A [`BergomiParameterReverse`] as a mathematical value.
pub ghost struct ParameterReverseView<R> {
    pub steps: Seq<StepDerivativeView<R>>,
    pub centering: Seq<Seq<R>>,
    pub weight: Seq<R>,
}

impl<R> View for BergomiParameterReverse<R> {
    type V = ParameterReverseView<R>;

    open spec fn view(&self) -> ParameterReverseView<R> {
        ParameterReverseView {
            steps: views(self.steps@),
            centering: rows_seen(self.centering@),
            weight: self.weight@,
        }
    }
}

impl<R> ParameterReverseView<R> {
    /// Prepared for a kernel of `n` factors and `count` steps.
    pub open spec fn of(self, n: nat, count: nat) -> bool {
        &&& self.steps.len() == count
        &&& self.centering.len() == count
        &&& self.weight.len() == n
        &&& forall|i: int| 0 <= i < count ==> (#[trigger] self.steps[i]).of(n)
        &&& forall|i: int|
            0 <= i < count ==> (#[trigger] self.centering[i]).len() == parameter_count(n)
    }
}

/// How the weights of a kernel move with its mixing weight.
pub open spec fn kernel_weight_tangent<R: Scalar, L>(m: Model<R>, k: KernelView<R, L>) -> Seq<R> {
    if k.n() == 1 {
        seq![literal(0)]
    } else {
        weight_tangent(m, k.weights, k.identity[3], k.identity[6])
    }
}

/// The derivatives of the step between two neighbouring times.
pub open spec fn grid_step_derivative<R: Scalar, N: KernelNumerics<R>>(
    m: Model<R>,
    o: N,
    speeds: Seq<R>,
    matrix: Seq<R>,
    grid: Seq<R>,
) -> spec_fn(int) -> Result<StepDerivativeView<R>, MonteCarloError> {
    |i: int| step_derivative_of(m, o, speeds, matrix, minus(grid[i + 1], grid[i]))
}

/// What the parameter derivatives of a kernel need.
pub open spec fn parameter_reverse_of<R: Scalar, L, N: KernelNumerics<R>>(
    m: Model<R>,
    o: N,
    k: KernelView<R, L>,
    sd: R,
    grid: Seq<R>,
) -> Result<ParameterReverseView<R>, MonteCarloError> {
    let matrix = kernel_matrix(k, sd);
    let weight = kernel_weight_tangent(m, k);
    let count = (grid.len() - 1) as nat;
    if k.n() == 2 && le(weight_norm(k.identity[3], k.identity[6]), smallest_pivot()) {
        Err(parameters_unsupported())
    } else {
        match gather(count, grid_step_derivative(m, o, kernel_speeds(k), matrix, grid)) {
            Err(e) => Err(e),
            Ok(steps) => match gather(
                count,
                centering_derivative(m, o, k, matrix, grid, weight),
            ) {
                Err(e) => Err(e),
                Ok(centering) => Ok(ParameterReverseView { steps, centering, weight }),
            },
        }
    }
}

proof fn lemma_block(p: int, n: int)
    requires
        0 <= p < n,
    ensures
        0 <= p * n,
        p * n + n <= n * n,
{
    assert(0 <= p * n && p * n + n <= n * n) by (nonlinear_arith)
        requires
            0 <= p < n,
    ;
}

/// Computes [`centering_derivative`].
fn take_centering_derivative<R: Scalar, L, M: Math<R>, N: KernelNumerics<R>>(
    m: &M,
    o: &N,
    k: &Kernel<R, L>,
    speeds: &Vec<R>,
    matrix: &Vec<R>,
    grid: &Vec<R>,
    weight: &Vec<R>,
    at: usize,
) -> (r: Result<Vec<R>, MonteCarloError>)
    requires
        identified(k@),
        speeds@ == kernel_speeds(k@),
        speeds@.len() == k@.n(),
        matrix@.len() == (k@.n() + 2) * (k@.n() + 2),
        (k@.n() + 2) * (k@.n() + 2) <= usize::MAX,
        weight@.len() == k@.n(),
        at < grid@.len(),
    ensures
        seen(r) == centering_derivative(m.model(), *o, k@, matrix@, grid@, weight@)(at as int),
        r matches Ok(v) ==> v@.len() == parameter_count(k@.n()),
{
    m.laws();
    let n = k.weights.len();
    let d: usize = n + 2;
    let count: usize = if n == 1 {
        2
    } else {
        4
    };
    if !(grid[at] > R::from(0u32)) {
        let none = make_zeros(m, count);
        if !all_finite(m, none.as_slice()) {
            return Err(invalid("bergomi_centering_derivative"));
        }
        return Ok(none);
    }
    let s = match Step::compile(m, o, speeds, matrix, grid[at]) {
        Err(e) => return Err(e),
        Ok(s) => s,
    };
    let ds = match StepDerivative::new(m, o, speeds, matrix, grid[at]) {
        Err(e) => return Err(e),
        Ok(ds) => ds,
    };
    proof {
        assert(s@.of(n as nat));
        assert(ds@.of(n as nat));
        assert forall|i: int| 0 <= i < s.lower@.len() implies (#[trigger] s.lower@[i])@.len()
            == d by {
            assert(s@.lower[i].len() == d);
        }
        assert forall|i: int| 0 <= i < ds.lower@.len() implies (#[trigger] ds.lower@[i])@.len()
            == d by {
            assert(ds@.lower[i].len() == d);
        }
    }
    let ghost slopes = |p: int|
        if p < n {
            centering_slope(
                k@.weights,
                k@.vol_of_vol,
                s@.lower,
                d as int,
                |j: int| exposure(k@.weights, ds@.lower, p * n, j),
            )
        } else if p == n {
            literal(0)
        } else {
            centering_slope(
                k@.weights,
                k@.vol_of_vol,
                s@.lower,
                d as int,
                |j: int| exposure(weight@, s@.lower, 0, j),
            )
        };
    let out_at = |p: usize| -> (x: R)
        requires
            p < count,
        ensures
            x == slopes(p as int),
        {
            m.laws();
            if p < n {
                proof {
                    lemma_block(p as int, n as int);
                    assert(ds.lower@.len() == ds.lower.len());
                }
                let start: usize = p * n;
                let ghost slope = |j: int| exposure(k@.weights, ds@.lower, p * n, j);
                let f = |j: usize| -> (x: R)
                    requires
                        j < d,
                    ensures
                        x == slope(j as int),
                    { take_exposure(m, &k.weights, &ds.lower, start, j) };
                take_slope(m, &k.weights, k.vol_of_vol, &s.lower, d, f, Ghost(slope))
            } else if p == n {
                R::from(0u32)
            } else {
                let ghost slope = |j: int| exposure(weight@, s@.lower, 0, j);
                let f = |j: usize| -> (x: R)
                    requires
                        j < d,
                    ensures
                        x == slope(j as int),
                    { take_exposure(m, weight, &s.lower, 0, j) };
                take_slope(m, &k.weights, k.vol_of_vol, &s.lower, d, f, Ghost(slope))
            }
        };
    let out = build(
        count,
        out_at,
        Ghost(slopes),
    );
    proof {
        assert(out@ =~= Seq::new(
            parameter_count(k@.n()),
            |p: int|
                if p < n {
                    centering_slope(
                        k@.weights,
                        k@.vol_of_vol,
                        s@.lower,
                        d as int,
                        |j: int| exposure(k@.weights, ds@.lower, p * n, j),
                    )
                } else if p == n {
                    literal(0)
                } else {
                    centering_slope(
                        k@.weights,
                        k@.vol_of_vol,
                        s@.lower,
                        d as int,
                        |j: int| exposure(weight@, s@.lower, 0, j),
                    )
                },
        ));
    }
    if !all_finite(m, out.as_slice()) {
        return Err(invalid("bergomi_centering_derivative"));
    }
    Ok(out)
}

impl<R: Scalar> BergomiParameterReverse<R> {
    /// Prepares the parameter derivatives of a kernel.
    pub fn new<L, M: Math<R>, N: KernelNumerics<R>>(
        m: &M,
        o: &N,
        k: &Kernel<R, L>,
        sd: R,
        grid: &Vec<R>,
    ) -> (r: Result<BergomiParameterReverse<R>, MonteCarloError>)
        requires
            identified(k@),
            1 <= grid@.len(),
        ensures
            viewed(r) == parameter_reverse_of(m.model(), *o, k@, sd, grid@),
            r matches Ok(p) ==> p@.of(k@.n(), (grid@.len() - 1) as nat),
    {
        m.laws();
        let speeds = take_speeds(k);
        let matrix = take_matrix(m, k, sd);
        assert(matrix@.len() == matrix.len());
        let weight: Vec<R> = if k.weights.len() == 1 {
            vec![R::from(0u32)]
        } else {
            let theta = k.identity[3];
            let vv = k.identity[6];
            let norm2 = (
                R::from(1u32) - R::from(2u32) * theta
            ) * (
                R::from(1u32) - R::from(2u32) * theta
            ) + R::from(2u32) * theta * (R::from(1u32) - theta) * (R::from(1u32) + vv);
            let bound = make_smallest_pivot(m);
            if norm2 <= bound {
                return Err(refuse_parameters());
            }
            let slope = (R::from(1u32) - vv) * (R::from(2u32) * theta - R::from(1u32)) / norm2;
            let first = R::from(1u32).neg() / m.sqrt(norm2) - k.weights[0] * slope;
            let second = R::from(1u32) / m.sqrt(norm2) - k.weights[1] * slope;
            vec![first, second]
        };
        assert(weight@ =~= kernel_weight_tangent(m.model(), k@));
        let count: usize = grid.len() - 1;
        let ghost law = grid_step_derivative(m.model(), *o, speeds@, matrix@, grid@);
        let ghost n = k@.n();
        let ghost sized = |s: StepDerivative<R>| s@.of(n);
        let steps_at = |i: usize| -> (x: Result<StepDerivative<R>, MonteCarloError>)
            requires
                i < count,
            ensures
                viewed(x) == law(i as int),
                x matches Ok(s) ==> sized(s),
            {
                m.laws();
                StepDerivative::new(m, o, &speeds, &matrix, grid[i + 1] - grid[i])
            };
        let steps = match collect_views(
            count,
            steps_at,
            Ghost(law),
            Ghost(sized),
        ) {
            Err(e) => return Err(e),
            Ok(v) => v,
        };
        let ghost center = centering_derivative(m.model(), *o, k@, matrix@, grid@, weight@);
        let centering_at = |i: usize| -> (x: Result<Vec<R>, MonteCarloError>)
            requires
                i < count,
            ensures
                seen(x) == center(i as int),
                x matches Ok(v) ==> v@.len() == parameter_count(k@.n()),
            { take_centering_derivative(m, o, k, &speeds, &matrix, grid, &weight, i) };
        let centering = match collect_rows(
            count,
            centering_at,
            Ghost(center),
            Ghost(parameter_count(k@.n())),
        ) {
            Err(e) => return Err(e),
            Ok(v) => v,
        };
        Ok(BergomiParameterReverse { steps, centering, weight })
    }

    /// The names of the parameters.
    pub fn labels(&self) -> (v: Vec<&'static str>)
        ensures
            v@ == parameter_labels(self@.weight.len()),
    {
        let v: Vec<&'static str> = if self.weight.len() == 1 {
            vec!["bergomi_mean_reversion[0]", "bergomi_vol_of_vol"]
        } else {
            vec![
                "bergomi_mean_reversion[0]",
                "bergomi_mean_reversion[1]",
                "bergomi_vol_of_vol",
                "bergomi_mixing_weight",
            ]
        };
        assert(v@ =~= parameter_labels(self@.weight.len()));
        v
    }
}

/// The names of the parameters of a kernel of `n` factors.
pub open spec fn parameter_labels(n: nat) -> Seq<&'static str> {
    if n == 1 {
        seq!["bergomi_mean_reversion[0]", "bergomi_vol_of_vol"]
    } else {
        seq![
            "bergomi_mean_reversion[0]",
            "bergomi_mean_reversion[1]",
            "bergomi_vol_of_vol",
            "bergomi_mixing_weight",
        ]
    }
}

/// The factors at the start of the step `i`.
pub open spec fn factors_at<R: Scalar, L>(k: KernelView<R, L>, z: Seq<R>, i: nat) -> Seq<R>
    decreases i,
{
    if i == 0 {
        zeros(k.n())
    } else {
        let x = factors_at(k, z, (i - 1) as nat);
        let step = k.steps[i - 1];
        let now = chunk(z, k.d() as int, i - 1);
        Seq::new(k.n(), |j: int| plus(times(step.decay[j], x[j]), dot(step.lower[j], now)))
    }
}

/// The adjoint of the exponent of the loading of the step `i`.
pub open spec fn exponent_bar<R: Scalar, L>(
    m: Model<R>,
    k: KernelView<R, L>,
    z: Seq<R>,
    bars: Seq<R>,
    i: int,
) -> R {
    times(bars[i], loading_of(m, k, factors_at(k, z, i as nat), i))
}

/// The adjoints of the factors at the start of the step `i`, out of the steps
/// from `i` on.
pub open spec fn factor_bars<R: Scalar, L>(
    m: Model<R>,
    k: KernelView<R, L>,
    z: Seq<R>,
    bars: Seq<R>,
    i: nat,
) -> Seq<R>
    decreases k.steps.len() - i,
{
    if i >= k.steps.len() {
        zeros(k.n())
    } else {
        let later = factor_bars(m, k, z, bars, i + 1);
        let step = k.steps[i as int];
        let q = exponent_bar(m, k, z, bars, i as int);
        Seq::new(
            k.n(),
            |j: int| plus(
                times(later[j], step.decay[j]),
                times(times(q, k.vol_of_vol), k.weights[j]),
            ),
        )
    }
}

/// The products of the adjoints of the factors with the derivatives of their
/// noise, whose rows stand from `start` on.
pub open spec fn noise_terms<R: Scalar>(
    bars: Seq<R>,
    rows: Seq<Seq<R>>,
    start: int,
    now: Seq<R>,
) -> Seq<R> {
    Seq::new(bars.len(), |j: int| times(bars[j], dot(rows[start + j], now)))
}

/// The parameter derivatives out of the steps from `i` on.
pub open spec fn parameter_sweep<R: Scalar, L>(
    m: Model<R>,
    k: KernelView<R, L>,
    p: ParameterReverseView<R>,
    z: Seq<R>,
    bars: Seq<R>,
    i: nat,
) -> Seq<R>
    decreases k.steps.len() - i,
{
    let n = k.n() as int;
    if i >= k.steps.len() {
        zeros(parameter_count(k.n()))
    } else {
        let out = parameter_sweep(m, k, p, z, bars, i + 1);
        let later = factor_bars(m, k, z, bars, i + 1);
        let x = factors_at(k, z, i);
        let now = chunk(z, k.d() as int, i as int);
        let ds = p.steps[i as int];
        let c = p.centering[i as int];
        let center = k.centering[i as int];
        let q = exponent_bar(m, k, z, bars, i as int);
        Seq::new(
            parameter_count(k.n()),
            |a: int|
                if a < n {
                    minus(
                        onto(
                            plus(out[a], times(times(later[a], ds.decay[a]), x[a])),
                            noise_terms(later, ds.lower, a * n, now),
                        ),
                        times(times(q, k.vol_of_vol), c[a]),
                    )
                } else if a == n {
                    plus(out[a], times(q, minus(dot(k.weights, x), times(literal(2), center))))
                } else {
                    plus(out[a], times(times(q, k.vol_of_vol), minus(dot(p.weight, x), c[a])))
                },
        )
    }
}

/// The parameter derivatives of a path, out of the adjoints of its loadings.
pub open spec fn parameter_pullback<R: Scalar, L>(
    m: Model<R>,
    k: KernelView<R, L>,
    p: ParameterReverseView<R>,
    z: Seq<R>,
    bars: Seq<R>,
) -> Result<Seq<R>, MonteCarloError> {
    if p.weight.len() != k.n() {
        Err(invalid_field("bergomi_reverse_family"))
    } else if z.len() != k.d() * k.steps.len() || bars.len() != k.steps.len() {
        Err(invalid_field("bergomi_parameter_reverse_shape"))
    } else {
        let out = parameter_sweep(m, k, p, z, bars, 0);
        if m.all_finite(out) {
            Ok(out)
        } else {
            Err(invalid_field("bergomi_parameter_reverse_result"))
        }
    }
}

proof fn lemma_now(d: int, i: int, count: int)
    requires
        0 <= i < count,
        0 <= d,
    ensures
        0 <= d * i,
        d * i + d <= d * count,
{
    assert(0 <= d * i && d * i + d <= d * count) by (nonlinear_arith)
        requires
            0 <= i < count,
            0 <= d,
    ;
}

/// The factors at the start of each step.
pub(crate) fn trace_factors<R: Scalar, L, M: Math<R>>(m: &M, k: &Kernel<R, L>, z: &Vec<R>) -> (trace:
    Vec<Vec<R>>)
    requires
        k@.valid(),
        z@.len() == k@.d() * k@.steps.len(),
    ensures
        trace@.len() == k@.steps.len(),
        forall|i: int|
            0 <= i < trace@.len() ==> (#[trigger] trace@[i])@ == factors_at(k@, z@, i as nat)
                && trace@[i]@.len() == k@.n(),
{
    let n = k.weights.len();
    let d = k.factor_count();
    let mut trace: Vec<Vec<R>> = Vec::new();
    let mut x = make_zeros(m, n);
    let mut i: usize = 0;
    while i < k.steps.len()
        invariant
            k@.valid(),
            n == k@.n(),
            d == k@.d(),
            z@.len() == k@.d() * k@.steps.len(),
            i <= k@.steps.len(),
            trace@.len() == i,
            x@ == factors_at(k@, z@, i as nat),
            x@.len() == n,
            forall|h: int|
                0 <= h < i ==> (#[trigger] trace@[h])@ == factors_at(k@, z@, h as nat)
                    && trace@[h]@.len() == n,
        decreases k@.steps.len() - i,
    {
        let step = &k.steps[i];
        proof {
            assert(k@.steps[i as int].of(n as nat));
            assert(step@ == k@.steps[i as int]);
            lemma_now(d as int, i as int, k@.steps.len() as int);
            assert(z@.len() == z.len());
        }
        let start: usize = d * i;
        let ghost now = chunk(z@, d as int, i as int);
        let ghost follow = |j: int| factors_at(k@, z@, (i + 1) as nat)[j];
        let next_at = |j: usize| -> (v: R)
            requires
                j < n,
            ensures
                v == follow(j as int),
            {
                m.laws();
                assert(step@.lower[j as int].len() == d);
                assert(step.lower@[j as int]@ == step@.lower[j as int]);
                let noise = dot_at(m, &step.lower[j], z, start);
                step.decay[j] * x[j] + noise
            };
        let next = build(
            n,
            next_at,
            Ghost(follow),
        );
        assert(next@ =~= factors_at(k@, z@, (i + 1) as nat));
        trace.push(x);
        x = next;
        i = i + 1;
    }
    trace
}

/// Computes [`noise_terms`] and adds them to `base`.
pub(crate) fn add_noise<R: Scalar, M: Math<R>>(
    m: &M,
    base: R,
    bars: &Vec<R>,
    rows: &Vec<Vec<R>>,
    start: usize,
    z: &Vec<R>,
    at: usize,
    Ghost(d): Ghost<int>,
) -> (x: R)
    requires
        start + bars@.len() <= rows@.len(),
        0 <= d,
        at + d <= z@.len(),
        forall|i: int| 0 <= i < rows@.len() ==> (#[trigger] rows@[i])@.len() == d,
    ensures
        x == onto(
            base,
            noise_terms(bars@, rows_seen(rows@), start as int, z@.subrange(at as int, at + d)),
        ),
{
    assert(rows@.len() == rows.len());
    let n = bars.len();
    let ghost term = |j: int|
        noise_terms(bars@, rows_seen(rows@), start as int, z@.subrange(at as int, at + d))[j];
    let terms_at = |j: usize| -> (x: R)
        requires
            j < n,
        ensures
            x == term(j as int),
        {
            m.laws();
            assert(rows@[start + j]@.len() == d);
            bars[j] * dot_at(m, &rows[start + j], z, at)
        };
    let terms = build(
        n,
        terms_at,
        Ghost(term),
    );
    assert(terms@ =~= noise_terms(
        bars@,
        rows_seen(rows@),
        start as int,
        z@.subrange(at as int, at + d),
    ));
    add_onto(m, base, &terms)
}

/// The adjoints of the factors at the start of a step, out of those at its end.
pub(crate) fn factor_bars_before<R: Scalar, L, M: Math<R>>(
    m: &M,
    k: &Kernel<R, L>,
    i: usize,
    q: R,
    later: &Vec<R>,
    Ghost(z): Ghost<Seq<R>>,
    Ghost(bars): Ghost<Seq<R>>,
) -> (v: Vec<R>)
    requires
        k@.valid(),
        i < k@.steps.len(),
        later@ == factor_bars(m.model(), k@, z, bars, (i + 1) as nat),
        later@.len() == k@.n(),
        q == exponent_bar(m.model(), k@, z, bars, i as int),
    ensures
        v@ == factor_bars(m.model(), k@, z, bars, i as nat),
        v@.len() == k@.n(),
{
    let n = k.weights.len();
    let step = &k.steps[i];
    proof {
        assert(k@.steps[i as int].of(n as nat));
        assert(step@ == k@.steps[i as int]);
    }
    let ghost follow = |j: int| factor_bars(m.model(), k@, z, bars, i as nat)[j];
    let v_at = |j: usize| -> (x: R)
        requires
            j < n,
        ensures
            x == follow(j as int),
        {
            m.laws();
            later[j] * step.decay[j] + q * k.vol_of_vol * k.weights[j]
        };
    let v = build(
        n,
        v_at,
        Ghost(follow),
    );
    assert(v@ =~= factor_bars(m.model(), k@, z, bars, i as nat));
    v
}

impl<R: Scalar> BergomiParameterReverse<R> {
    /// Takes the parameter derivatives of a path.
    pub fn pullback<L, M: Math<R>>(
        &self,
        m: &M,
        k: &Kernel<R, L>,
        z: &Vec<R>,
        bars: &Vec<R>,
    ) -> (r: Result<Vec<R>, MonteCarloError>)
        requires
            k@.valid(),
            k@.n() == 1 || k@.n() == 2,
            self@.of(self@.weight.len(), k@.steps.len()),
        ensures
            seen(r) == parameter_pullback(m.model(), k@, self@, z@, bars@),
            r matches Ok(v) ==> v@.len() == parameter_count(k@.n()),
    {
        m.laws();
        let n = k.weights.len();
        if self.weight.len() != n {
            return Err(invalid("bergomi_reverse_family"));
        }
        let d = k.factor_count();
        let steps = k.steps.len();
        proof {
            assert(d * steps <= usize::MAX) by (nonlinear_arith)
                requires
                    d * (steps + 1) <= usize::MAX,
                    d >= 0,
            ;
        }
        if z.len() != d * steps || bars.len() != steps {
            return Err(invalid("bergomi_parameter_reverse_shape"));
        }
        let count: usize = if n == 1 {
            2
        } else {
            4
        };
        let trace = trace_factors(m, k, z);
        let mut out = make_zeros(m, count);
        let mut later = make_zeros(m, n);
        let mut left: usize = steps;
        while left > 0
            invariant
                lawful::<R>(),
                k@.valid(),
                n == k@.n(),
                n == 1 || n == 2,
                d == k@.d(),
                steps == k@.steps.len(),
                self@.of(n as nat, steps as nat),
                z@.len() == d * steps,
                bars@.len() == steps,
                count == parameter_count(n as nat),
                trace@.len() == steps,
                forall|i: int|
                    0 <= i < trace@.len() ==> (#[trigger] trace@[i])@ == factors_at(
                        k@,
                        z@,
                        i as nat,
                    ) && trace@[i]@.len() == n,
                left <= steps,
                out@ == parameter_sweep(m.model(), k@, self@, z@, bars@, left as nat),
                out@.len() == count,
                later@ == factor_bars(m.model(), k@, z@, bars@, left as nat),
                later@.len() == n,
            decreases left,
        {
            let i: usize = left - 1;
            let x = &trace[i];
            let ds = &self.steps[i];
            let c = &self.centering[i];
            proof {
                assert(k@.steps[i as int].of(n as nat));
                assert(self@.steps[i as int].of(n as nat));
                assert(self@.centering[i as int].len() == count);
                assert(ds@ == self@.steps[i as int]);
                assert(c@ == self@.centering[i as int]);
                lemma_now(d as int, i as int, steps as int);
                assert(z@.len() == z.len());
                assert forall|a: int| 0 <= a < ds.lower@.len() implies (#[trigger] ds.lower@[a])@.len()
                    == d by {
                    assert(ds@.lower[a].len() == d);
                }
            }
            let start: usize = d * i;
            let ghost now = chunk(z@, d as int, i as int);
            let factor = take_dot(m, &k.weights, x);
            let center = k.centering[i];
            let loading = m.exp(k.vol_of_vol * (factor - center));
            let q = bars[i] * loading;
            assert(q == exponent_bar(m.model(), k@, z@, bars@, i as int));
            let ghost follow = |a: int|
                parameter_sweep(m.model(), k@, self@, z@, bars@, i as nat)[a];
            let next_at = |a: usize| -> (v: R)
                requires
                    a < count,
                ensures
                    v == follow(a as int),
                {
                    m.laws();
                    if a < n {
                        proof {
                            lemma_block(a as int, n as int);
                            assert(ds.lower@.len() == n * n);
                            assert(ds.lower@.len() == ds.lower.len());
                        }
                        let base = out[a] + later[a] * ds.decay[a] * x[a];
                        let value = add_noise(
                            m,
                            base,
                            &later,
                            &ds.lower,
                            a * n,
                            z,
                            start,
                            Ghost(d as int),
                        );
                        value - q * k.vol_of_vol * c[a]
                    } else if a == n {
                        out[a] + q * (factor - R::from(2u32) * center)
                    } else {
                        let df = take_dot(m, &self.weight, x);
                        out[a] + q * k.vol_of_vol * (df - c[a])
                    }
                };
            let next = build(
                count,
                next_at,
                Ghost(follow),
            );
            assert(next@ =~= parameter_sweep(m.model(), k@, self@, z@, bars@, i as nat));
            let before = factor_bars_before(m, k, i, q, &later, Ghost(z@), Ghost(bars@));
            out = next;
            later = before;
            left = i;
        }
        if !all_finite(m, out.as_slice()) {
            return Err(invalid("bergomi_parameter_reverse_result"));
        }
        Ok(out)
    }
}

} // verus!
