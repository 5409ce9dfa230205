//! The derivatives of the volatility loadings with respect to the correlations
//! of the drivers, one symmetric pair of entries at a time, at fixed independent
//! normals.

use crate::bergomi::{step_kernels, step_of, Kernel, KernelView, Step};
use crate::bergomi_reverse::{
    add_noise, exponent_bar, exposure, centering_slope, factor_bars, factor_bars_before, factors_at,
    identified, kernel_matrix, kernel_speeds, noise_terms, reverse_marginal, take_matrix,
    take_slope, take_speeds, trace_factors, weight_norm,
};
use crate::cholesky::{tangent, tangent_columns, tangent_shape};
use crate::dynamics::KernelNumerics;
use crate::errors::{
    invalid, invalid_field, unsupported_feature, MonteCarloError, StochasticDividendError,
};
use crate::linear::{
    are_rows_finite, build, build_rows, chunk, collect, collect_rows, collect_views, dot,
    make_smallest_pivot, onto, rows_finite, rows_seen, smallest_pivot, take_dot, take_total, total,
    viewed, views,
};
use crate::models::Pair;
use crate::pathwise::make_zeros;
use crate::results::{gather, seen};
use crate::sampling::zeros;
use crate::scalar::{
    all_finite, gt, lawful, le, literal, minus, negated, over, plus, times, Math, Model, Scalar,
};
use core::ops::Neg;
use vstd::prelude::*;

verus! {

/// Correlation derivatives need room in the correlations and in the weights.
pub open spec fn correlations_unsupported() -> MonteCarloError {
    unsupported_feature(
        "correlation AAD requires instantaneous and integrated correlation pivots and weight variance > 1e-10; existing price/basic AAD methods remain available",
    )
}

/// Makes [`correlations_unsupported`].
pub fn unsupported() -> (e: MonteCarloError)
    ensures
        e == correlations_unsupported(),
{
    MonteCarloError::StochasticDividend(
        StochasticDividendError::Unsupported {
            feature: "correlation AAD requires instantaneous and integrated correlation pivots and weight variance > 1e-10; existing price/basic AAD methods remain available",
        },
    )
}

/// All pivots are finite and large enough.
pub open spec fn pivots_open<R: Scalar>(m: Model<R>, pivots: Seq<R>) -> bool {
    forall|i: int|
        0 <= i < pivots.len() ==> m.is_finite(#[trigger] pivots[i]) && !le(
            pivots[i],
            smallest_pivot(),
        )
}

/// Tests [`pivots_open`].
pub fn are_pivots_open<R: Scalar, M: Math<R>>(m: &M, pivots: &Vec<R>) -> (b: bool)
    ensures
        b == pivots_open(m.model(), pivots@),
{
    m.laws();
    let bound = make_smallest_pivot(m);
    let mut i: usize = 0;
    while i < pivots.len()
        invariant
            lawful::<R>(),
            bound == smallest_pivot::<R>(),
            i <= pivots@.len(),
            forall|k: int|
                0 <= k < i ==> m.model().is_finite(#[trigger] pivots@[k]) && !le(
                    pivots@[k],
                    smallest_pivot(),
                ),
        decreases pivots@.len() - i,
    {
        if !m.is_finite(pivots[i]) || pivots[i] <= bound {
            assert(!(m.model().is_finite(pivots@[i as int]) && !le(
                pivots@[i as int],
                smallest_pivot(),
            )));
            return false;
        }
        i = i + 1;
    }
    true
}

/// The lower factor of a matrix that is positive definite with room to spare.
pub open spec fn open_factor<R: Scalar, N: KernelNumerics<R>>(
    m: Model<R>,
    o: N,
    matrix: Seq<R>,
    d: usize,
) -> Result<Seq<R>, MonteCarloError> {
    match o.factor_of(matrix, d) {
        None => Err(correlations_unsupported()),
        Some(l) => if pivots_open(m, o.pivots_of(matrix, d)) {
            Ok(l)
        } else {
            Err(correlations_unsupported())
        },
    }
}

/// Computes [`open_factor`].
pub fn factor_spd<R: Scalar, M: Math<R>, N: KernelNumerics<R>>(
    m: &M,
    o: &N,
    matrix: &Vec<R>,
    d: usize,
) -> (r: Result<Vec<R>, MonteCarloError>)
    ensures
        seen(r) == open_factor(m.model(), *o, matrix@, d),
        r matches Ok(l) ==> l@.len() == d * d,
{
    let l = match o.factor(matrix, d) {
        None => return Err(unsupported()),
        Some(l) => l,
    };
    let pivots = o.pivots(matrix, d);
    if !are_pivots_open(m, &pivots) {
        return Err(unsupported());
    }
    Ok(l)
}

/// The number of correlations among the drivers of `n` factors.
pub open spec fn edge_count(n: nat) -> nat {
    if n == 1 {
        3
    } else {
        6
    }
}

/// Whether the correlation `p` is that of the drivers `j` and `i`, with `j`
/// before `i`. The correlations stand row by row.
pub open spec fn is_edge(n: nat, p: int, j: int, i: int) -> bool {
    if n == 1 {
        ||| p == 0 && j == 0 && i == 1
        ||| p == 1 && j == 0 && i == 2
        ||| p == 2 && j == 1 && i == 2
    } else {
        ||| p == 0 && j == 0 && i == 1
        ||| p == 1 && j == 0 && i == 2
        ||| p == 2 && j == 0 && i == 3
        ||| p == 3 && j == 1 && i == 2
        ||| p == 4 && j == 1 && i == 3
        ||| p == 5 && j == 2 && i == 3
    }
}

/// Tests [`is_edge`].
fn edge(n: usize, p: usize, j: usize, i: usize) -> (b: bool)
    ensures
        b == is_edge(n as nat, p as int, j as int, i as int),
{
    if n == 1 {
        p == 0 && j == 0 && i == 1 || p == 1 && j == 0 && i == 2 || p == 2 && j == 1 && i == 2
    } else {
        p == 0 && j == 0 && i == 1 || p == 1 && j == 0 && i == 2 || p == 2 && j == 0 && i == 3 || p
            == 3 && j == 1 && i == 2 || p == 4 && j == 1 && i == 3 || p == 5 && j == 2 && i == 3
    }
}

/// The correlation of two kernels over a step.
pub open spec fn kernel_entry<R: Scalar, N: KernelNumerics<R>>(o: N, kernels: Seq<R>) -> spec_fn(
    int,
) -> Result<R, MonteCarloError> {
    |c: int|
        match o.kernel_correlation_of(
            kernels[c / kernels.len() as int],
            kernels[c % kernels.len() as int],
        ) {
            None => Err(invalid_field("correlation_ou_kernel")),
            Some(x) => Ok(x),
        }
}

/// The derivative of the integrated correlations with respect to the
/// correlation `p`.
pub open spec fn edge_tangent<R: Scalar>(kernel: Seq<R>, n: nat, p: int) -> spec_fn(int, int) -> R {
    |i: int, j: int|
        if is_edge(n, p, j, i) {
            kernel[i * (n + 2) + j]
        } else {
            literal(0)
        }
}

/// The derivative of the loadings of the factor `q % n` with respect to the
/// correlation `q / n`.
pub open spec fn edge_row<R: Scalar>(
    m: Model<R>,
    kernel: Seq<R>,
    l: Seq<R>,
    marginals: Seq<Pair<R>>,
    n: int,
) -> spec_fn(int) -> Seq<R> {
    |q: int|
        {
            let d = n + 2;
            let scale = m.sqrt(marginals[q % n].second);
            let columns = tangent_columns(
                l,
                d,
                edge_tangent(kernel, n as nat, q / n),
                d as nat,
            );
            Seq::new(d as nat, |j: int| times(scale, columns[j][q % n + 2]))
        }
}

/// The derivatives of the loadings of a step with respect to the correlations,
/// correlation by correlation.
pub open spec fn lower_derivatives_of<R: Scalar, N: KernelNumerics<R>>(
    m: Model<R>,
    o: N,
    speeds: Seq<R>,
    matrix: Seq<R>,
    dt: R,
) -> Result<Seq<Seq<R>>, MonteCarloError> {
    let n = speeds.len();
    let d = n + 2;
    match gather(d * d, kernel_entry(o, step_kernels(speeds, dt))) {
        Err(e) => Err(e),
        Ok(kernel) => match open_factor(
            m,
            o,
            Seq::new(d * d, |q: int| times(matrix[q], kernel[q])),
            d as usize,
        ) {
            Err(e) => Err(e),
            Ok(l) => match gather(n, reverse_marginal(o, speeds, dt, "correlation_ou_variance")) {
                Err(e) => Err(e),
                Ok(marginals) => {
                    let rows = Seq::new(
                        edge_count(n) * n,
                        edge_row(m, kernel, l, marginals, n as int),
                    );
                    if rows_finite(m, rows) {
                        Ok(rows)
                    } else {
                        Err(invalid_field("correlation_coefficient_derivative"))
                    }
                },
            },
        },
    }
}

/// The derivatives of the loadings of a step.
pub struct CorrelationStep<R> {
    pub lower: Vec<Vec<R>>,
}

impl<R> View for CorrelationStep<R> {
    type V = Seq<Seq<R>>;

    open spec fn view(&self) -> Seq<Seq<R>> {
        rows_seen(self.lower@)
    }
}

/// Rows for each correlation and each of `n` factors.
pub open spec fn edge_rows_of<R>(rows: Seq<Seq<R>>, n: nat) -> bool {
    &&& rows.len() == edge_count(n) * n
    &&& forall|i: int| 0 <= i < rows.len() ==> (#[trigger] rows[i]).len() == n + 2
}

proof fn lemma_place(c: int, d: int)
    requires
        0 < d,
        0 <= c < d * d,
    ensures
        0 <= c / d < d,
        0 <= c % d < d,
{
    assert(0 <= c / d < d && 0 <= c % d < d) by (nonlinear_arith)
        requires
            0 < d,
            0 <= c < d * d,
    ;
}

proof fn lemma_index(i: int, j: int, d: int)
    requires
        0 <= i < d,
        0 <= j < d,
    ensures
        0 <= i * d,
        0 <= i * d + j < d * d,
{
    assert(0 <= i * d && i * d + j < d * d) by (nonlinear_arith)
        requires
            0 <= i < d,
            0 <= j < d,
    ;
}

proof fn lemma_edge_row(p: int, c: int, n: int)
    requires
        0 <= p < c,
        0 < n,
    ensures
        0 <= p * n,
        p * n + n <= c * n,
{
    assert(0 <= p * n && p * n + n <= c * n) by (nonlinear_arith)
        requires
            0 <= p < c,
            0 < n,
    ;
}

/// Differentiates the loadings of a step.
pub fn lower_derivatives<R: Scalar, M: Math<R>, N: KernelNumerics<R>>(
    m: &M,
    o: &N,
    speeds: &Vec<R>,
    matrix: &Vec<R>,
    dt: R,
) -> (r: Result<CorrelationStep<R>, MonteCarloError>)
    requires
        speeds@.len() == 1 || speeds@.len() == 2,
        matrix@.len() == (speeds@.len() + 2) * (speeds@.len() + 2),
    ensures
        viewed(r) == lower_derivatives_of(m.model(), *o, speeds@, matrix@, dt),
        r matches Ok(s) ==> edge_rows_of(s@, speeds@.len()),
{
    m.laws();
    let n = speeds.len();
    let d: usize = n + 2;
    assert(matrix@.len() == matrix.len());
    let ghost ks = step_kernels(speeds@, dt);
    let ghost kernel_of = |i: int| ks[i];
    let a_at = |i: usize| -> (x: R)
        requires
            i < d,
        ensures
            x == kernel_of(i as int),
        {
            m.laws();
            if i < 2 {
                R::from(0u32)
            } else {
                speeds[i - 2] * dt
            }
        };
    let a = build(
        d,
        a_at,
        Ghost(kernel_of),
    );
    assert(a@ =~= ks);
    let ghost entry = kernel_entry(*o, ks);
    let kernel_at = |q: usize| -> (x: Result<R, MonteCarloError>)
        requires
            q < d * d,
        ensures
            x == entry(q as int),
        {
            proof {
                lemma_place(q as int, d as int);
            }
            match o.kernel_correlation(a[q / d], a[q % d]) {
                None => Err(invalid("correlation_ou_kernel")),
                Some(x) => Ok(x),
            }
        };
    let kernel = match collect(
        d * d,
        kernel_at,
        Ghost(entry),
    ) {
        Err(e) => return Err(e),
        Ok(v) => v,
    };
    let ghost product = |q: int| times(matrix@[q], kernel@[q]);
    let c_at = |q: usize| -> (x: R)
        requires
            q < d * d,
        ensures
            x == product(q as int),
        {
            m.laws();
            matrix[q] * kernel[q]
        };
    let c = build(
        d * d,
        c_at,
        Ghost(product),
    );
    assert(c@ =~= Seq::new((d * d) as nat, |q: int| times(matrix@[q], kernel@[q])));
    let l = match factor_spd(m, o, &c, d) {
        Err(e) => return Err(e),
        Ok(l) => l,
    };
    let ghost law = reverse_marginal(*o, speeds@, dt, "correlation_ou_variance");
    let marginals_at = |i: usize| -> (x: Result<Pair<R>, MonteCarloError>)
        requires
            i < n,
        ensures
            x == law(i as int),
        {
            match o.transition(speeds[i], dt) {
                None => Err(invalid("correlation_ou_variance")),
                Some(p) => Ok(p),
            }
        };
    let marginals = match collect(
        n,
        marginals_at,
        Ghost(law),
    ) {
        Err(e) => return Err(e),
        Ok(v) => v,
    };
    let count: usize = if n == 1 {
        3
    } else {
        6
    };
    let ghost rows = edge_row(m.model(), kernel@, l@, marginals@, n as int);
    let lower_at = |q: usize| -> (row: Vec<R>)
        requires
            q < count * n,
        ensures
            row@ == rows(q as int),
        {
            m.laws();
            let p: usize = q / n;
            let at: usize = q % n;
            let scale = m.sqrt(marginals[at].second);
            let ghost dc = edge_tangent(kernel@, n as nat, p as int);
            let moved = |i: usize, j: usize| -> (x: R)
                requires
                    j < i < d,
                ensures
                    x == dc(i as int, j as int),
                {
                    m.laws();
                    proof {
                        lemma_index(i as int, j as int, d as int);
                    }
                    if edge(n, p, j, i) {
                        kernel[i * d + j]
                    } else {
                        R::from(0u32)
                    }
                };
            let columns = tangent(m, &l, d, moved, Ghost(dc));
            let ghost entries = |j: int| rows(q as int)[j];
            proof {
                tangent_shape(l@, d as int, dc, d as nat);
            }
            let row_at = |j: usize| -> (x: R)
                requires
                    j < d,
                ensures
                    x == entries(j as int),
                {
                    m.laws();
                    assert(rows_seen(columns@)[j as int] == columns@[j as int]@);
                    scale * columns[j][at + 2]
                };
            let row = build(
                d,
                row_at,
                Ghost(entries),
            );
            assert(row@ =~= rows(q as int));
            row
        };
    let lower = build_rows(
        count * n,
        lower_at,
        Ghost(rows),
    );
    if !are_rows_finite(m, &lower) {
        return Err(invalid("correlation_coefficient_derivative"));
    }
    Ok(CorrelationStep { lower })
}

/// What the correlation derivatives of a kernel need beside the kernel: those
/// of the loadings of each step, those of the centering at each time, and those
/// of the weights.
pub struct BergomiCorrelationReverse<R> {
    pub lower: Vec<CorrelationStep<R>>,
    pub centering: Vec<Vec<R>>,
    pub weights: Vec<Vec<R>>,
}

/// A [`BergomiCorrelationReverse`] as a mathematical value.
pub ghost struct CorrelationReverseView<R> {
    pub lower: Seq<Seq<Seq<R>>>,
    pub centering: Seq<Seq<R>>,
    pub weights: Seq<Seq<R>>,
}

impl<R> View for BergomiCorrelationReverse<R> {
    type V = CorrelationReverseView<R>;

    open spec fn view(&self) -> CorrelationReverseView<R> {
        CorrelationReverseView {
            lower: views(self.lower@),
            centering: rows_seen(self.centering@),
            weights: rows_seen(self.weights@),
        }
    }
}

impl<R> CorrelationReverseView<R> {
    /// The number of factors.
    pub open spec fn n(self) -> nat {
        if self.weights.len() == 3 {
            1
        } else {
            2
        }
    }

    /// Prepared for a kernel of `n` factors and `count` steps.
    pub open spec fn of(self, n: nat, count: nat) -> bool {
        &&& n == 1 || n == 2
        &&& self.lower.len() == count
        &&& self.centering.len() == count
        &&& self.weights.len() == edge_count(n)
        &&& forall|i: int| 0 <= i < count ==> edge_rows_of(#[trigger] self.lower[i], n)
        &&& forall|i: int|
            0 <= i < count ==> (#[trigger] self.centering[i]).len() == edge_count(n)
        &&& forall|i: int| 0 <= i < edge_count(n) ==> (#[trigger] self.weights[i]).len() == n
    }
}

/// How the weights of a kernel move with the correlation `p`: those of two
/// factors move with the correlation of the factors.
pub open spec fn edge_weights<R: Scalar, L>(k: KernelView<R, L>) -> spec_fn(int) -> Seq<R> {
    |p: int|
        if k.n() == 2 && p == 5 {
            let theta = k.identity[3];
            let norm2 = weight_norm(theta, k.identity[6]);
            Seq::new(
                k.n(),
                |i: int| over(
                    times(times(negated(k.weights[i]), theta), minus(literal(1), theta)),
                    norm2,
                ),
            )
        } else {
            zeros(k.n())
        }
}

/// The derivative of the exposure to the normal `j` with respect to the
/// correlation `p`.
pub open spec fn exposure_slope<R: Scalar>(
    weights: Seq<R>,
    moved: Seq<R>,
    lower: Seq<Seq<R>>,
    rows: Seq<Seq<R>>,
    start: int,
    j: int,
) -> R {
    total(
        Seq::new(
            weights.len(),
            |i: int| plus(times(moved[i], lower[i][j]), times(weights[i], rows[start + i][j])),
        ),
    )
}

/// The derivative of the centering with respect to the correlation `p`.
pub open spec fn edge_slope<R: Scalar, L>(
    k: KernelView<R, L>,
    lower: Seq<Seq<R>>,
    rows: Seq<Seq<R>>,
) -> spec_fn(int) -> R {
    |p: int|
        centering_slope(
            k.weights,
            k.vol_of_vol,
            lower,
            k.d() as int,
            |j: int|
                exposure_slope(k.weights, edge_weights(k)(p), lower, rows, p * k.n(), j),
        )
}

/// The derivatives of the centering at a time.
pub open spec fn edge_centering<R: Scalar, L, N: KernelNumerics<R>>(
    m: Model<R>,
    o: N,
    k: KernelView<R, L>,
    matrix: Seq<R>,
    grid: Seq<R>,
) -> spec_fn(int) -> Result<Seq<R>, MonteCarloError> {
    |at: int|
        {
            let count = edge_count(k.n());
            let slopes = if gt(grid[at], literal(0)) {
                match step_of(m, o, kernel_speeds(k), matrix, grid[at]) {
                    Err(e) => Err(e),
                    Ok(s) => match lower_derivatives_of(
                        m,
                        o,
                        kernel_speeds(k),
                        matrix,
                        grid[at],
                    ) {
                        Err(e) => Err(e),
                        Ok(rows) => Ok(Seq::new(count, edge_slope(k, s.lower, rows))),
                    },
                }
            } else {
                Ok(zeros(count))
            };
            match slopes {
                Err(e) => Err(e),
                Ok(v) => if m.all_finite(v) {
                    Ok(v)
                } else {
                    Err(invalid_field("correlation_centering_derivative"))
                },
            }
        }
}

/// The derivatives of the loadings of the step between two neighbouring times.
pub open spec fn grid_edges<R: Scalar, N: KernelNumerics<R>>(
    m: Model<R>,
    o: N,
    speeds: Seq<R>,
    matrix: Seq<R>,
    grid: Seq<R>,
) -> spec_fn(int) -> Result<Seq<Seq<R>>, MonteCarloError> {
    |i: int| lower_derivatives_of(m, o, speeds, matrix, minus(grid[i + 1], grid[i]))
}

/// The weights of two factors can be normalised.
pub open spec fn weights_open<R: Scalar, L>(m: Model<R>, k: KernelView<R, L>) -> bool {
    let norm2 = weight_norm(k.identity[3], k.identity[6]);
    k.n() == 1 || m.is_finite(norm2) && !le(norm2, smallest_pivot())
}

/// What the correlation derivatives of a kernel need. The correlations have to
/// be positive definite with room to spare, by themselves and over each step.
pub open spec fn correlation_reverse_of<R: Scalar, L, N: KernelNumerics<R>>(
    m: Model<R>,
    o: N,
    k: KernelView<R, L>,
    sd: R,
    grid: Seq<R>,
) -> Result<CorrelationReverseView<R>, MonteCarloError> {
    let matrix = kernel_matrix(k, sd);
    let count = (grid.len() - 1) as nat;
    if !weights_open(m, k) {
        Err(correlations_unsupported())
    } else {
        match open_factor(m, o, matrix, k.d() as usize) {
            Err(e) => Err(e),
            Ok(l) => match gather(count, grid_edges(m, o, kernel_speeds(k), matrix, grid)) {
                Err(e) => Err(e),
                Ok(lower) => match gather(count, edge_centering(m, o, k, matrix, grid)) {
                    Err(e) => Err(e),
                    Ok(centering) => Ok(
                        CorrelationReverseView {
                            lower,
                            centering,
                            weights: Seq::new(edge_count(k.n()), edge_weights(k)),
                        },
                    ),
                },
            },
        }
    }
}

/// Computes [`edge_centering`].
fn take_edge_centering<R: Scalar, L, M: Math<R>, N: KernelNumerics<R>>(
    m: &M,
    o: &N,
    k: &Kernel<R, L>,
    speeds: &Vec<R>,
    matrix: &Vec<R>,
    grid: &Vec<R>,
    weights: &Vec<Vec<R>>,
    at: usize,
) -> (r: Result<Vec<R>, MonteCarloError>)
    requires
        identified(k@),
        speeds@ == kernel_speeds(k@),
        matrix@.len() == (k@.n() + 2) * (k@.n() + 2),
        weights@.len() == edge_count(k@.n()),
        forall|p: int|
            0 <= p < weights@.len() ==> (#[trigger] weights@[p])@ == edge_weights(k@)(p),
        at < grid@.len(),
    ensures
        seen(r) == edge_centering(m.model(), *o, k@, matrix@, grid@)(at as int),
        r matches Ok(v) ==> v@.len() == edge_count(k@.n()),
{
    m.laws();
    let n = k.weights.len();
    let d: usize = n + 2;
    let count: usize = if n == 1 {
        3
    } else {
        6
    };
    assert(matrix@.len() == matrix.len());
    let out = if grid[at] > R::from(0u32) {
        let s = match Step::compile(m, o, speeds, matrix, grid[at]) {
            Err(e) => return Err(e),
            Ok(s) => s,
        };
        let ds = match lower_derivatives(m, o, speeds, matrix, grid[at]) {
            Err(e) => return Err(e),
            Ok(ds) => ds,
        };
        proof {
            assert(s@.of(n as nat));
            assert(edge_rows_of(ds@, n as nat));
            assert forall|i: int| 0 <= i < s.lower@.len() implies (#[trigger] s.lower@[i])@.len()
                == d by {
                assert(s@.lower[i].len() == d);
            }
            assert forall|i: int| 0 <= i < ds.lower@.len() implies (#[trigger] ds.lower@[i])@.len()
                == d by {
                assert(ds@[i].len() == d);
            }
        }
        let ghost slopes = edge_slope(k@, s@.lower, ds@);
        let v_at = |p: usize| -> (x: R)
            requires
                p < count,
            ensures
                x == slopes(p as int),
            {
                m.laws();
                proof {
                    lemma_edge_row(p as int, count as int, n as int);
                    assert(ds.lower@.len() == ds.lower.len());
                    assert(weights@[p as int]@ == edge_weights(k@)(p as int));
                    assert(edge_weights(k@)(p as int).len() == n);
                }
                let start: usize = p * n;
                let moved = &weights[p];
                let ghost slope = |j: int|
                    exposure_slope(
                        k@.weights,
                        edge_weights(k@)(p as int),
                        s@.lower,
                        ds@,
                        p * k@.n(),
                        j,
                    );
                let f = |j: usize| -> (x: R)
                    requires
                        j < d,
                    ensures
                        x == slope(j as int),
                    {
                        let ghost term = |i: int|
                            plus(
                                times(moved@[i], s@.lower[i][j as int]),
                                times(k@.weights[i], ds@[start + i][j as int]),
                            );
                        let terms_at = |i: usize| -> (x: R)
                            requires
                                i < n,
                            ensures
                                x == term(i as int),
                            {
                                m.laws();
                                assert(s.lower@[i as int]@.len() == d);
                                assert(ds.lower@[start + i]@.len() == d);
                                moved[i] * s.lower[i][j] + k.weights[i] * ds.lower[start
                                    + i][j]
                            };
                        let terms = build(
                            n,
                            terms_at,
                            Ghost(term),
                        );
                        assert(terms@ =~= Seq::new(
                            k@.weights.len(),
                            |i: int|
                                plus(
                                    times(moved@[i], s@.lower[i][j as int]),
                                    times(k@.weights[i], ds@[start + i][j as int]),
                                ),
                        ));
                        take_total(m, &terms)
                    };
                take_slope(m, &k.weights, k.vol_of_vol, &s.lower, d, f, Ghost(slope))
            };
        let v = build(
            count,
            v_at,
            Ghost(slopes),
        );
        assert(v@ =~= Seq::new(edge_count(k@.n()), edge_slope(k@, s@.lower, ds@)));
        v
    } else {
        make_zeros(m, count)
    };
    if !all_finite(m, out.as_slice()) {
        return Err(invalid("correlation_centering_derivative"));
    }
    Ok(out)
}

impl<R: Scalar> BergomiCorrelationReverse<R> {
    /// Prepares the correlation derivatives of a kernel.
    pub fn new<L, M: Math<R>, N: KernelNumerics<R>>(
        m: &M,
        o: &N,
        k: &Kernel<R, L>,
        sd: R,
        grid: &Vec<R>,
    ) -> (r: Result<BergomiCorrelationReverse<R>, MonteCarloError>)
        requires
            identified(k@),
            1 <= grid@.len(),
        ensures
            viewed(r) == correlation_reverse_of(m.model(), *o, k@, sd, grid@),
            r matches Ok(p) ==> p@.of(k@.n(), (grid@.len() - 1) as nat),
    {
        m.laws();
        let n = k.weights.len();
        let speeds = take_speeds(k);
        let matrix = take_matrix(m, k, sd);
        assert(matrix@.len() == matrix.len());
        if n == 2 {
            let theta = k.identity[3];
            let vv = k.identity[6];
            let norm2 = (
                R::from(1u32) - R::from(2u32) * theta
            ) * (
                R::from(1u32) - R::from(2u32) * theta
            ) + R::from(2u32) * theta * (R::from(1u32) - theta) * (R::from(1u32) + vv);
            let bound = make_smallest_pivot(m);
            if !m.is_finite(norm2) || norm2 <= bound {
                return Err(unsupported());
            }
        }
        let edges: usize = if n == 1 {
            3
        } else {
            6
        };
        let ghost moved = edge_weights(k@);
        let weights_at = |p: usize| -> (row: Vec<R>)
            requires
                p < edges,
            ensures
                row@ == moved(p as int),
            {
                m.laws();
                if n == 2 && p == 5 {
                    let theta = k.identity[3];
                    let vv = k.identity[6];
                    let norm2 = (
                        R::from(1u32) - R::from(2u32) * theta
                    ) * (
                        R::from(1u32) - R::from(2u32) * theta
                    ) + R::from(2u32) * theta * (R::from(1u32) - theta) * (R::from(1u32) + vv);
                    let ghost entry = |i: int| edge_weights(k@)(5)[i];
                    let row_at = |i: usize| -> (x: R)
                        requires
                            i < n,
                        ensures
                            x == entry(i as int),
                        {
                            m.laws();
                            k.weights[i].neg() * theta * (R::from(1u32) - theta) / norm2
                        };
                    let row = build(
                        n,
                        row_at,
                        Ghost(entry),
                    );
                    assert(row@ =~= edge_weights(k@)(5));
                    row
                } else {
                    make_zeros(m, n)
                }
            };
        let weights = build_rows(
            edges,
            weights_at,
            Ghost(moved),
        );
        if let Err(e) = factor_spd(m, o, &matrix, n + 2) {
            return Err(e);
        }
        let count: usize = grid.len() - 1;
        let ghost law = grid_edges(m.model(), *o, speeds@, matrix@, grid@);
        let ghost factors = k@.n();
        let ghost sized = |s: CorrelationStep<R>| edge_rows_of(s@, factors);
        let lower_at = |i: usize| -> (x: Result<CorrelationStep<R>, MonteCarloError>)
            requires
                i < count,
            ensures
                viewed(x) == law(i as int),
                x matches Ok(s) ==> sized(s),
            {
                m.laws();
                lower_derivatives(m, o, &speeds, &matrix, grid[i + 1] - grid[i])
            };
        let lower = match collect_views(
            count,
            lower_at,
            Ghost(law),
            Ghost(sized),
        ) {
            Err(e) => return Err(e),
            Ok(v) => v,
        };
        let ghost center = edge_centering(m.model(), *o, k@, matrix@, grid@);
        let centering_at = |i: usize| -> (x: Result<Vec<R>, MonteCarloError>)
            requires
                i < count,
            ensures
                seen(x) == center(i as int),
                x matches Ok(v) ==> v@.len() == edge_count(k@.n()),
            { take_edge_centering(m, o, k, &speeds, &matrix, grid, &weights, i) };
        let centering = match collect_rows(
            count,
            centering_at,
            Ghost(center),
            Ghost(edge_count(k@.n())),
        ) {
            Err(e) => return Err(e),
            Ok(v) => v,
        };
        Ok(BergomiCorrelationReverse { lower, centering, weights })
    }

    /// The names of the correlations.
    pub fn labels(&self) -> (v: Vec<&'static str>)
        ensures
            v@ == correlation_labels(self@.n()),
    {
        let v: Vec<&'static str> = if self.weights.len() == 3 {
            vec![
                "equity_dividend_correlation",
                "spot_volatility_correlation[0]",
                "dividend_volatility_correlation[0]",
            ]
        } else {
            vec![
                "equity_dividend_correlation",
                "spot_volatility_correlation[0]",
                "spot_volatility_correlation[1]",
                "dividend_volatility_correlation[0]",
                "dividend_volatility_correlation[1]",
                "volatility_factor_correlation",
            ]
        };
        assert(v@ =~= correlation_labels(self@.n()));
        v
    }
}

/// The names of the correlations among the drivers of `n` factors.
pub open spec fn correlation_labels(n: nat) -> Seq<&'static str> {
    if n == 1 {
        seq![
            "equity_dividend_correlation",
            "spot_volatility_correlation[0]",
            "dividend_volatility_correlation[0]",
        ]
    } else {
        seq![
            "equity_dividend_correlation",
            "spot_volatility_correlation[0]",
            "spot_volatility_correlation[1]",
            "dividend_volatility_correlation[0]",
            "dividend_volatility_correlation[1]",
            "volatility_factor_correlation",
        ]
    }
}

/// The correlation derivatives out of the steps from `i` on.
pub open spec fn correlation_sweep<R: Scalar, L>(
    m: Model<R>,
    k: KernelView<R, L>,
    p: CorrelationReverseView<R>,
    z: Seq<R>,
    bars: Seq<R>,
    i: nat,
) -> Seq<R>
    decreases k.steps.len() - i,
{
    let n = k.n() as int;
    if i >= k.steps.len() {
        zeros(edge_count(k.n()))
    } else {
        let out = correlation_sweep(m, k, p, z, bars, i + 1);
        let later = factor_bars(m, k, z, bars, i + 1);
        let x = factors_at(k, z, i);
        let now = chunk(z, k.d() as int, i as int);
        let rows = p.lower[i as int];
        let c = p.centering[i as int];
        let q = exponent_bar(m, k, z, bars, i as int);
        Seq::new(
            edge_count(k.n()),
            |a: int|
                plus(
                    onto(out[a], noise_terms(later, rows, a * n, now)),
                    times(times(q, k.vol_of_vol), minus(dot(p.weights[a], x), c[a])),
                ),
        )
    }
}

/// The correlation derivatives of a path, out of the adjoints of its loadings.
pub open spec fn correlation_pullback<R: Scalar, L>(
    m: Model<R>,
    k: KernelView<R, L>,
    p: CorrelationReverseView<R>,
    z: Seq<R>,
    bars: Seq<R>,
) -> Result<Seq<R>, MonteCarloError> {
    if p.n() != k.n() {
        Err(invalid_field("correlation_reverse_family"))
    } else if z.len() != k.d() * k.steps.len() || bars.len() != k.steps.len() {
        Err(invalid_field("correlation_reverse_shape"))
    } else {
        let out = correlation_sweep(m, k, p, z, bars, 0);
        if m.all_finite(out) {
            Ok(out)
        } else {
            Err(invalid_field("correlation_reverse_result"))
        }
    }
}

proof fn lemma_now(d: int, i: int, count: int)
    requires
        0 <= i < count,
        0 <= d,
    ensures
        0 <= d * i,
        d * i + d <= d * count,
{
    assert(0 <= d * i && d * i + d <= d * count) by (nonlinear_arith)
        requires
            0 <= i < count,
            0 <= d,
    ;
}

impl<R: Scalar> BergomiCorrelationReverse<R> {
    /// Takes the correlation derivatives of a path.
    pub fn pullback<L, M: Math<R>>(
        &self,
        m: &M,
        k: &Kernel<R, L>,
        z: &Vec<R>,
        bars: &Vec<R>,
    ) -> (r: Result<Vec<R>, MonteCarloError>)
        requires
            k@.valid(),
            k@.n() == 1 || k@.n() == 2,
            self@.of(self@.n(), k@.steps.len()),
        ensures
            seen(r) == correlation_pullback(m.model(), k@, self@, z@, bars@),
            r matches Ok(v) ==> v@.len() == edge_count(k@.n()),
    {
        m.laws();
        let n = k.weights.len();
        let own: usize = if self.weights.len() == 3 {
            1
        } else {
            2
        };
        if own != n {
            return Err(invalid("correlation_reverse_family"));
        }
        let d = k.factor_count();
        let steps = k.steps.len();
        proof {
            assert(d * steps <= usize::MAX) by (nonlinear_arith)
                requires
                    d * (steps + 1) <= usize::MAX,
                    d >= 0,
            ;
        }
        if z.len() != d * steps || bars.len() != steps {
            return Err(invalid("correlation_reverse_shape"));
        }
        let count: usize = if n == 1 {
            3
        } else {
            6
        };
        let trace = trace_factors(m, k, z);
        let mut out = make_zeros(m, count);
        let mut later = make_zeros(m, n);
        let mut left: usize = steps;
        while left > 0
            invariant
                lawful::<R>(),
                k@.valid(),
                n == k@.n(),
                n == 1 || n == 2,
                d == k@.d(),
                steps == k@.steps.len(),
                self@.of(n as nat, steps as nat),
                z@.len() == d * steps,
                bars@.len() == steps,
                count == edge_count(n as nat),
                trace@.len() == steps,
                forall|i: int|
                    0 <= i < trace@.len() ==> (#[trigger] trace@[i])@ == factors_at(
                        k@,
                        z@,
                        i as nat,
                    ) && trace@[i]@.len() == n,
                left <= steps,
                out@ == correlation_sweep(m.model(), k@, self@, z@, bars@, left as nat),
                out@.len() == count,
                later@ == factor_bars(m.model(), k@, z@, bars@, left as nat),
                later@.len() == n,
            decreases left,
        {
            let i: usize = left - 1;
            let x = &trace[i];
            let ds = &self.lower[i];
            let c = &self.centering[i];
            proof {
                assert(edge_rows_of(self@.lower[i as int], n as nat));
                assert(self@.centering[i as int].len() == count);
                assert(ds@ == self@.lower[i as int]);
                assert(c@ == self@.centering[i as int]);
                lemma_now(d as int, i as int, steps as int);
                assert(z@.len() == z.len());
                assert forall|a: int| 0 <= a < ds.lower@.len() implies (#[trigger] ds.lower@[a])@.len()
                    == d by {
                    assert(ds@[a].len() == d);
                }
            }
            let start: usize = d * i;
            let factor = take_dot(m, &k.weights, x);
            let loading = m.exp(k.vol_of_vol * (factor - k.centering[i]));
            let q = bars[i] * loading;
            assert(q == exponent_bar(m.model(), k@, z@, bars@, i as int));
            let ghost follow = |a: int|
                correlation_sweep(m.model(), k@, self@, z@, bars@, i as nat)[a];
            let next_at = |a: usize| -> (v: R)
                requires
                    a < count,
                ensures
                    v == follow(a as int),
                {
                    m.laws();
                    proof {
                        lemma_edge_row(a as int, count as int, n as int);
                        assert(ds.lower@.len() == ds.lower.len());
                        assert(self@.weights[a as int].len() == n);
                        assert(self.weights@[a as int]@ == self@.weights[a as int]);
                    }
                    let value = add_noise(
                        m,
                        out[a],
                        &later,
                        &ds.lower,
                        a * n,
                        z,
                        start,
                        Ghost(d as int),
                    );
                    let df = take_dot(m, &self.weights[a], x);
                    value + q * k.vol_of_vol * (df - c[a])
                };
            let next = build(
                count,
                next_at,
                Ghost(follow),
            );
            assert(next@ =~= correlation_sweep(m.model(), k@, self@, z@, bars@, i as nat));
            let before = factor_bars_before(m, k, i, q, &later, Ghost(z@), Ghost(bars@));
            out = next;
            later = before;
            left = i;
        }
        if !all_finite(m, out.as_slice()) {
            return Err(invalid("correlation_reverse_result"));
        }
        Ok(out)
    }
}

} // verus!
