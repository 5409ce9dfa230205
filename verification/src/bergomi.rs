//! The joint law of equity, dividends and reverting volatility factors over the
//! steps of a grid. Covariances are integrated over each step before they are
//! factorised.

use crate::dynamics::{DividendDynamics, KernelNumerics};
use crate::errors::{
    invalid, invalid_field, unsupported_feature, MonteCarloError, StochasticDividendError,
};
use crate::linear::{
    build, build_rows, chunk, collect, dot, dot_at, collect_views, rows_seen, viewed, views,
    take_dot, take_total, total,
};
use crate::models::{
    Bergomi1Factor, Bergomi2Factor, BuehlerDividendModel, BuehlerDividendState, Pair,
};
use crate::pathwise::make_zeros;
use crate::results::{gather, gather_values, seen};
use crate::sampling::zeros;
use crate::scalar::{
    ge, gt, is_zero, lawful, literal, minus, plus, same, times, Math, Model, Scalar,
};
use vstd::prelude::*;

verus! {

/// A finite number above zero.
pub open spec fn positive<R: Scalar>(m: Model<R>, x: R) -> bool {
    m.is_finite(x) && gt(x, literal(0))
}

/// A finite number not below zero.
pub open spec fn nonnegative<R: Scalar>(m: Model<R>, x: R) -> bool {
    m.is_finite(x) && ge(x, literal(0))
}

/// Tests [`positive`].
pub fn is_positive<R: Scalar, M: Math<R>>(m: &M, x: R) -> (b: bool)
    ensures
        b == positive(m.model(), x),
{
    m.laws();
    m.is_finite(x) && x > R::from(0u32)
}

/// Tests [`nonnegative`].
pub fn is_nonnegative<R: Scalar, M: Math<R>>(m: &M, x: R) -> (b: bool)
    ensures
        b == nonnegative(m.model(), x),
{
    m.laws();
    m.is_finite(x) && x >= R::from(0u32)
}

/// The factors over one step: how each decays, and how it loads on the
/// independent normals.
pub struct Step<R> {
    pub decay: Vec<R>,
    pub lower: Vec<Vec<R>>,
}

/// A [`Step`] as a mathematical value.
pub ghost struct StepView<R> {
    pub decay: Seq<R>,
    pub lower: Seq<Seq<R>>,
}

impl<R> View for Step<R> {
    type V = StepView<R>;

    open spec fn view(&self) -> StepView<R> {
        StepView { decay: self.decay@, lower: rows_seen(self.lower@) }
    }
}

impl<R> StepView<R> {
    /// A step of `n` factors.
    pub open spec fn of(self, n: nat) -> bool {
        &&& self.decay.len() == n
        &&& self.lower.len() == n
        &&& forall|i: int| 0 <= i < n ==> (#[trigger] self.lower[i]).len() == n + 2
    }
}

/// The speeds of all drivers over a step: none for equity and dividends.
pub open spec fn step_kernels<R: Scalar>(speeds: Seq<R>, dt: R) -> Seq<R> {
    Seq::new(
        speeds.len() + 2,
        |i: int|
            if i < 2 {
                literal(0)
            } else {
                times(speeds[i - 2], dt)
            },
    )
}

/// An entry of the correlation of the drivers integrated over a step.
pub open spec fn integrated_entry<R: Scalar, N: KernelNumerics<R>>(
    o: N,
    kernels: Seq<R>,
    matrix: Seq<R>,
) -> spec_fn(int) -> Result<R, MonteCarloError> {
    |c: int|
        match o.kernel_correlation_of(
            kernels[c / kernels.len() as int],
            kernels[c % kernels.len() as int],
        ) {
            None => Err(invalid_field("bergomi_ou_covariance")),
            Some(x) => Ok(times(matrix[c], x)),
        }
}

/// The decay and the variance of each factor over a step.
pub open spec fn marginal<R: Scalar, N: KernelNumerics<R>>(
    o: N,
    speeds: Seq<R>,
    dt: R,
) -> spec_fn(int) -> Result<Pair<R>, MonteCarloError> {
    |i: int|
        match o.transition_of(speeds[i], dt) {
            None => Err(invalid_field("bergomi_ou_variance")),
            Some(p) => Ok(p),
        }
}

/// The loadings of the factor `i`: its standard deviation times its row of the
/// factorised correlation.
pub open spec fn loading_row<R: Scalar>(
    m: Model<R>,
    marginals: Seq<Pair<R>>,
    factor: Seq<R>,
    d: int,
    i: int,
) -> Seq<R> {
    Seq::new(d as nat, |j: int| times(m.sqrt(marginals[i].second), factor[(i + 2) * d + j]))
}

/// The step that the speeds and the correlations of the drivers make. The
/// correlations stand row by row.
pub open spec fn step_of<R: Scalar, N: KernelNumerics<R>>(
    m: Model<R>,
    o: N,
    speeds: Seq<R>,
    matrix: Seq<R>,
    dt: R,
) -> Result<StepView<R>, MonteCarloError> {
    let n = speeds.len();
    let d = n + 2;
    let kernels = step_kernels(speeds, dt);
    if !positive(m, dt) {
        Err(invalid_field("bergomi_step_length"))
    } else {
        match gather(d * d, integrated_entry(o, kernels, matrix)) {
            Err(e) => Err(e),
            Ok(correlation) => match o.factor_of(correlation, d as usize) {
                None => Err(invalid_field("integrated_equity_dividend_volatility_covariance")),
                Some(factor) => match gather(n, marginal(o, speeds, dt)) {
                    Err(e) => Err(e),
                    Ok(marginals) => Ok(
                        StepView {
                            decay: Seq::new(n, |i: int| marginals[i].first),
                            lower: Seq::new(
                                n,
                                |i: int| loading_row(m, marginals, factor, d as int, i),
                            ),
                        },
                    ),
                },
            },
        }
    }
}

proof fn lemma_entry(i: int, j: int, d: int)
    requires
        0 <= i < d,
        0 <= j < d,
    ensures
        0 <= i * d + j < d * d,
{
    assert(0 <= i * d + j && i * d + j < d * d) by (nonlinear_arith)
        requires
            0 <= i < d,
            0 <= j < d,
    ;
}

proof fn lemma_place(c: int, d: int)
    requires
        0 < d,
        0 <= c < d * d,
    ensures
        0 <= c / d < d,
        0 <= c % d < d,
{
    assert(0 <= c / d < d && 0 <= c % d < d) by (nonlinear_arith)
        requires
            0 < d,
            0 <= c < d * d,
    ;
}

impl<R: Scalar> Step<R> {
    /// Compiles a step.
    pub fn compile<M: Math<R>, N: KernelNumerics<R>>(
        m: &M,
        o: &N,
        speeds: &Vec<R>,
        matrix: &Vec<R>,
        dt: R,
    ) -> (r: Result<Step<R>, MonteCarloError>)
        requires
            (speeds@.len() + 2) * (speeds@.len() + 2) <= usize::MAX,
            matrix@.len() == (speeds@.len() + 2) * (speeds@.len() + 2),
        ensures
            viewed(r) == step_of(m.model(), *o, speeds@, matrix@, dt),
            r matches Ok(s) ==> s@.of(speeds@.len()),
    {
        m.laws();
        if !is_positive(m, dt) {
            return Err(invalid("bergomi_step_length"));
        }
        let n = speeds.len();
        assert(n + 2 <= usize::MAX) by (nonlinear_arith)
            requires
                (n + 2) * (n + 2) <= usize::MAX,
        ;
        let d: usize = n + 2;
        let ghost ks = step_kernels(speeds@, dt);
        let ghost kernel = |i: int| ks[i];
        let kernels_at = |i: usize| -> (x: R)
            requires
                i < d,
            ensures
                x == kernel(i as int),
            {
                m.laws();
                if i < 2 {
                    R::from(0u32)
                } else {
                    speeds[i - 2] * dt
                }
            };
        let kernels = build(
            d,
            kernels_at,
            Ghost(kernel),
        );
        assert(kernels@ =~= ks);
        let ghost entry = integrated_entry(*o, ks, matrix@);
        let correlation_at = |c: usize| -> (x: Result<R, MonteCarloError>)
            requires
                c < d * d,
            ensures
                x == entry(c as int),
            {
                m.laws();
                proof {
                    lemma_place(c as int, d as int);
                }
                match o.kernel_correlation(kernels[c / d], kernels[c % d]) {
                    None => Err(invalid("bergomi_ou_covariance")),
                    Some(x) => Ok(matrix[c] * x),
                }
            };
        let correlation = match collect(
            d * d,
            correlation_at,
            Ghost(entry),
        ) {
            Err(e) => return Err(e),
            Ok(v) => v,
        };
        let factor = match o.factor(&correlation, d) {
            None => return Err(invalid("integrated_equity_dividend_volatility_covariance")),
            Some(v) => v,
        };
        let ghost law = marginal(*o, speeds@, dt);
        let marginals_at = |i: usize| -> (x: Result<Pair<R>, MonteCarloError>)
            requires
                i < n,
            ensures
                x == law(i as int),
            {
                match o.transition(speeds[i], dt) {
                    None => Err(invalid("bergomi_ou_variance")),
                    Some(p) => Ok(p),
                }
            };
        let marginals = match collect(
            n,
            marginals_at,
            Ghost(law),
        ) {
            Err(e) => return Err(e),
            Ok(v) => v,
        };
        let ghost ms = marginals@;
        let ghost decays = |i: int| ms[i].first;
        let decay_at = |i: usize| -> (x: R)
            requires
                i < n,
            ensures
                x == decays(i as int),
            { marginals[i].first };
        let decay = build(
            n,
            decay_at,
            Ghost(decays),
        );
        let ghost model = m.model();
        let ghost rows = |i: int| loading_row(model, ms, factor@, d as int, i);
        let lower_at = |i: usize| -> (row: Vec<R>)
            requires
                i < n,
            ensures
                row@ == rows(i as int),
            {
                let deviation = m.sqrt(marginals[i].second);
                let row_at = |j: usize| -> (x: R)
                    requires
                        j < d,
                    ensures
                        x == times(deviation, factor@[(i + 2) * d + j]),
                    {
                        m.laws();
                        proof {
                            lemma_entry(i + 2, j as int, d as int);
                            lemma_entry(i + 2, 0, d as int);
                        }
                        deviation * factor[(i + 2) * d + j]
                    };
                let row = build(
                    d,
                    row_at,
                    Ghost(|j: int| times(deviation, factor@[(i + 2) * d + j])),
                );
                assert(row@ =~= loading_row(m.model(), marginals@, factor@, d as int, i as int));
                row
            };
        let lower = build_rows(
            n,
            lower_at,
            Ghost(rows),
        );
        let s = Step { decay, lower };
        proof {
            assert(s@.decay =~= Seq::new(n as nat, |i: int| ms[i].first));
            assert(s@.lower =~= Seq::new(
                n as nat,
                |i: int| loading_row(model, ms, factor@, d as int, i),
            ));
        }
        Ok(s)
    }
}

/// The law of one or two volatility factors over a grid.
pub struct Kernel<R, L> {
    pub weights: Vec<R>,
    pub vol_of_vol: R,
    pub steps: Vec<Step<R>>,
    pub centering: Vec<R>,
    /// The parameters that identify the kernel, in a fixed order.
    pub identity: Vec<R>,
    /// The squared leverage in the coordinate of the funded residual equity.
    pub leverage: Option<L>,
}

/// A [`Kernel`] as a mathematical value.
pub ghost struct KernelView<R, L> {
    pub weights: Seq<R>,
    pub vol_of_vol: R,
    pub steps: Seq<StepView<R>>,
    pub centering: Seq<R>,
    pub identity: Seq<R>,
    pub leverage: Option<L>,
}

impl<R, L> View for Kernel<R, L> {
    type V = KernelView<R, L>;

    open spec fn view(&self) -> KernelView<R, L> {
        KernelView {
            weights: self.weights@,
            vol_of_vol: self.vol_of_vol,
            steps: views(self.steps@),
            centering: self.centering@,
            identity: self.identity@,
            leverage: self.leverage,
        }
    }
}

impl<R, L> KernelView<R, L> {
    /// The number of factors.
    pub open spec fn n(self) -> nat {
        self.weights.len()
    }

    /// The number of normals of a step.
    pub open spec fn d(self) -> nat {
        self.weights.len() + 2
    }

    /// Each step and its centering are there, for the factors that there are.
    pub open spec fn valid(self) -> bool {
        &&& self.centering.len() == self.steps.len()
        &&& forall|i: int| 0 <= i < self.steps.len() ==> (#[trigger] self.steps[i]).of(self.n())
        &&& self.d() * (self.steps.len() + 1) <= usize::MAX
    }
}

/// The loading of the weighted factors on the normal `j`.
pub open spec fn weighted<R: Scalar>(weights: Seq<R>, lower: Seq<Seq<R>>, j: int) -> R {
    dot(weights, Seq::new(lower.len(), |i: int| lower[i][j]))
}

/// The variance of the weighted factors over a step: a sum of squares.
pub open spec fn weighted_variance<R: Scalar>(weights: Seq<R>, step: StepView<R>) -> R {
    total(
        Seq::new(
            weights.len() + 2,
            |j: int|
                times(weighted(weights, step.lower, j), weighted(weights, step.lower, j)),
        ),
    )
}

/// What is taken off the weighted factors at a time, so that the mean of the
/// variance is its initial value.
pub open spec fn centering_at<R: Scalar, N: KernelNumerics<R>>(
    m: Model<R>,
    o: N,
    speeds: Seq<R>,
    weights: Seq<R>,
    vol_of_vol: R,
    matrix: Seq<R>,
    grid: Seq<R>,
) -> spec_fn(int) -> Result<R, MonteCarloError> {
    |i: int|
        if same(grid[i], literal(0)) {
            Ok(literal(0))
        } else {
            match step_of(m, o, speeds, matrix, grid[i]) {
                Err(e) => Err(e),
                Ok(step) => {
                    let shift = times(vol_of_vol, weighted_variance(weights, step));
                    if nonnegative(m, shift) {
                        Ok(shift)
                    } else {
                        Err(invalid_field("bergomi_centering"))
                    }
                },
            }
        }
}

/// The step between two neighbouring times.
pub open spec fn grid_step<R: Scalar, N: KernelNumerics<R>>(
    m: Model<R>,
    o: N,
    speeds: Seq<R>,
    matrix: Seq<R>,
    grid: Seq<R>,
) -> spec_fn(int) -> Result<StepView<R>, MonteCarloError> {
    |i: int| step_of(m, o, speeds, matrix, minus(grid[i + 1], grid[i]))
}

/// The kernel that parameters make over a grid. The correlations of the
/// drivers have to be a correlation matrix by themselves, and over each step.
pub open spec fn kernel_of<R: Scalar, N: KernelNumerics<R>>(
    m: Model<R>,
    o: N,
    speeds: Seq<R>,
    weights: Seq<R>,
    vol_of_vol: R,
    matrix: Seq<R>,
    grid: Seq<R>,
    identity: Seq<R>,
) -> Result<KernelView<R, N::Surface>, MonteCarloError> {
    let n = (grid.len() - 1) as nat;
    if o.factor_of(matrix, (speeds.len() + 2) as usize) is None {
        Err(invalid_field("equity_dividend_volatility_correlation_matrix"))
    } else {
        match gather(n, grid_step(m, o, speeds, matrix, grid)) {
            Err(e) => Err(e),
            Ok(steps) => match gather(
                n,
                centering_at(m, o, speeds, weights, vol_of_vol, matrix, grid),
            ) {
                Err(e) => Err(e),
                Ok(centering) => Ok(
                    KernelView { weights, vol_of_vol, steps, centering, identity, leverage: None },
                ),
            },
        }
    }
}

/// Computes [`weighted_variance`].
fn take_variance<R: Scalar, M: Math<R>>(m: &M, weights: &Vec<R>, step: &Step<R>) -> (x: R)
    requires
        step@.of(weights@.len()),
        weights@.len() + 2 <= usize::MAX,
    ensures
        x == weighted_variance(weights@, step@),
{
    let n = weights.len();
    let ghost square = |j: int|
        times(weighted(weights@, step@.lower, j), weighted(weights@, step@.lower, j));
    let squares_at = |j: usize| -> (x: R)
        requires
            j < n + 2,
        ensures
            x == square(j as int),
        {
            m.laws();
            let ghost entry = |i: int| step@.lower[i][j as int];
            let column_at = |i: usize| -> (x: R)
                requires
                    i < n,
                ensures
                    x == entry(i as int),
                {
                    assert(step@.lower[i as int].len() == n + 2);
                    step.lower[i][j]
                };
            let column = build(
                n,
                column_at,
                Ghost(entry),
            );
            let x = take_dot(m, weights, &column);
            proof {
                assert(column@ =~= Seq::new(step@.lower.len(), |i: int| step@.lower[i][j as int]));
            }
            x * x
        };
    let squares = build(
        n + 2,
        squares_at,
        Ghost(square),
    );
    let x = take_total(m, &squares);
    assert(squares@ =~= Seq::new(weights@.len() + 2, square));
    x
}

impl<R: Scalar, L> Kernel<R, L> {
    /// Compiles a kernel.
    pub fn compile<M: Math<R>, N: KernelNumerics<R, Surface = L>>(
        m: &M,
        o: &N,
        speeds: &Vec<R>,
        weights: Vec<R>,
        vol_of_vol: R,
        matrix: &Vec<R>,
        grid: &Vec<R>,
        identity: Vec<R>,
    ) -> (r: Result<Kernel<R, L>, MonteCarloError>)
        requires
            grid@.len() >= 1,
            weights@.len() == speeds@.len(),
            (speeds@.len() + 2) * (speeds@.len() + 2) <= usize::MAX,
            (speeds@.len() + 2) * grid@.len() <= usize::MAX,
            matrix@.len() == (speeds@.len() + 2) * (speeds@.len() + 2),
        ensures
            viewed(r) == kernel_of(
                m.model(),
                *o,
                speeds@,
                weights@,
                vol_of_vol,
                matrix@,
                grid@,
                identity@,
            ),
            r matches Ok(k) ==> k@.valid() && k@.steps.len() == grid@.len() - 1,
    {
        m.laws();
        assert(speeds@.len() + 2 <= usize::MAX) by (nonlinear_arith)
            requires
                (speeds@.len() + 2) * (speeds@.len() + 2) <= usize::MAX,
        ;
        let d: usize = speeds.len() + 2;
        if o.factor(matrix, d).is_none() {
            return Err(invalid("equity_dividend_volatility_correlation_matrix"));
        }
        let n: usize = grid.len() - 1;
        let ghost law = grid_step(m.model(), *o, speeds@, matrix@, grid@);
        let ghost count = speeds@.len();
        let ghost sized = |s: Step<R>| s@.of(count);
        let steps_at = |i: usize| -> (x: Result<Step<R>, MonteCarloError>)
            requires
                i < n,
            ensures
                viewed(x) == law(i as int),
                x matches Ok(s) ==> sized(s),
            {
                m.laws();
                Step::compile(m, o, speeds, matrix, grid[i + 1] - grid[i])
            };
        let steps = match collect_views(
            n,
            steps_at,
            Ghost(law),
            Ghost(sized),
        ) {
            Err(e) => return Err(e),
            Ok(v) => v,
        };
        let ghost center = centering_at(
            m.model(),
            *o,
            speeds@,
            weights@,
            vol_of_vol,
            matrix@,
            grid@,
        );
        let centering_at = |i: usize| -> (x: Result<R, MonteCarloError>)
            requires
                i < n,
            ensures
                x == center(i as int),
            {
                m.laws();
                if grid[i] == R::from(0u32) {
                    Ok(R::from(0u32))
                } else {
                    match Step::compile(m, o, speeds, matrix, grid[i]) {
                        Err(e) => Err(e),
                        Ok(step) => {
                            let shift = vol_of_vol * take_variance(m, &weights, &step);
                            if is_nonnegative(m, shift) {
                                Ok(shift)
                            } else {
                                Err(invalid("bergomi_centering"))
                            }
                        },
                    }
                }
            };
        let centering = match collect(
            n,
            centering_at,
            Ghost(center),
        ) {
            Err(e) => return Err(e),
            Ok(v) => v,
        };
        Ok(Kernel { weights, vol_of_vol, steps, centering, identity, leverage: None })
    }
}

/// The factor `j` after the step `i`.
pub open spec fn factor_after<R: Scalar, L>(
    m: Model<R>,
    k: KernelView<R, L>,
    x: Seq<R>,
    z: Seq<R>,
    i: int,
) -> spec_fn(int) -> Result<R, MonteCarloError> {
    |j: int|
        {
            let d = k.d() as int;
            let value = plus(
                times(k.steps[i].decay[j], x[j]),
                dot(k.steps[i].lower[j], chunk(z, d, i)),
            );
            if m.is_finite(value) {
                Ok(value)
            } else {
                Err(invalid_field("bergomi_state"))
            }
        }
}

/// The multiplier of the volatility over the step `i`, out of the factors at
/// its start.
pub open spec fn loading_of<R: Scalar, L>(
    m: Model<R>,
    k: KernelView<R, L>,
    x: Seq<R>,
    i: int,
) -> R {
    m.exp(times(k.vol_of_vol, minus(dot(k.weights, x), k.centering[i])))
}

/// The loadings of the first `n` steps, and the factors after them.
pub open spec fn loaded<R: Scalar, L>(
    m: Model<R>,
    k: KernelView<R, L>,
    z: Seq<R>,
    n: nat,
) -> Result<(Seq<R>, Seq<R>), MonteCarloError>
    decreases n,
{
    if n == 0 {
        Ok((Seq::empty(), zeros(k.n())))
    } else {
        match loaded(m, k, z, (n - 1) as nat) {
            Err(e) => Err(e),
            Ok((out, x)) => {
                let loading = loading_of(m, k, x, n - 1);
                if !positive(m, loading) {
                    Err(invalid_field("reverse_volatility_loading"))
                } else {
                    match gather(k.n(), factor_after(m, k, x, z, n - 1)) {
                        Err(e) => Err(e),
                        Ok(next) => Ok((out.push(loading), next)),
                    }
                }
            },
        }
    }
}

/// The steps that the normals reach.
pub open spec fn steps_reached<R, L>(k: KernelView<R, L>, z: Seq<R>) -> nat {
    let whole = z.len() / k.d();
    if whole <= k.steps.len() {
        whole
    } else {
        k.steps.len()
    }
}

/// The loadings of the steps that the normals reach. A kernel with a leverage
/// surface has none.
pub open spec fn volatility_loadings_of<R: Scalar, L>(
    m: Model<R>,
    k: KernelView<R, L>,
    z: Seq<R>,
) -> Result<Seq<R>, MonteCarloError> {
    if k.leverage is Some {
        Err(unsupported_feature("residual-equity LSV reverse; use price-only evaluation"))
    } else {
        match loaded(m, k, z, steps_reached(k, z)) {
            Err(e) => Err(e),
            Ok((out, x)) => Ok(out),
        }
    }
}

proof fn loaded_stops<R: Scalar, L>(m: Model<R>, k: KernelView<R, L>, z: Seq<R>, a: nat, n: nat)
    requires
        a <= n,
        loaded(m, k, z, a) is Err,
    ensures
        loaded(m, k, z, n) == loaded(m, k, z, a),
    decreases n,
{
    if a < n {
        loaded_stops(m, k, z, a, (n - 1) as nat);
    }
}

/// The steps that are reached have their normals.
proof fn lemma_chunk(len: int, d: int, i: int)
    requires
        0 < d,
        0 <= i < len / d,
    ensures
        0 <= d * i,
        d * i + d <= len,
{
    assert(0 <= d * i && d * i + d <= len) by (nonlinear_arith)
        requires
            0 < d,
            0 <= i < len / d,
    ;
}

/// The volatility over the step `i`: that of the leverage surface at the funded
/// residual equity where there is one, zero where the initial volatility is,
/// and the initial volatility times the multiplier otherwise.
pub open spec fn step_volatility<R: Scalar, N: KernelNumerics<R>>(
    m: Model<R>,
    o: N,
    k: KernelView<R, N::Surface>,
    sigma0: R,
    grid: Seq<R>,
    state: BuehlerDividendState<R>,
    x: Seq<R>,
    i: int,
) -> Result<R, MonteCarloError> {
    match k.leverage {
        Some(surface) => {
            let residual = times(o.initial_level_of(surface), state.equity);
            if !positive(m, residual) {
                Err(invalid_field("lsv_residual_equity"))
            } else {
                match o.squared_leverage_of(surface, grid[i], residual) {
                    None => Err(invalid_field("lsv_leverage_lookup")),
                    Some(squared) => {
                        let sigma = times(m.sqrt(squared), loading_of(m, k, x, i));
                        if positive(m, sigma) {
                            Ok(sigma)
                        } else {
                            Err(invalid_field("lsv_equity_volatility"))
                        }
                    },
                }
            }
        },
        None => if same(sigma0, literal(0)) {
            Ok(literal(0))
        } else {
            let sigma = times(sigma0, loading_of(m, k, x, i));
            if positive(m, sigma) {
                Ok(sigma)
            } else {
                Err(invalid_field("bergomi_volatility"))
            }
        },
    }
}

/// Equity and dividends at their forwards.
pub open spec fn initial_state<R: Scalar>() -> BuehlerDividendState<R> {
    BuehlerDividendState { equity: literal(1), dividend: literal(1) }
}

/// The states up to the node `n`, and the factors there. The volatility of a
/// step is fixed at its start.
pub open spec fn evolved<R: Scalar, Y: DividendDynamics<R>, N: KernelNumerics<R>>(
    m: Model<R>,
    y: Y,
    o: N,
    k: KernelView<R, N::Surface>,
    model: BuehlerDividendModel<R>,
    sigma0: R,
    grid: Seq<R>,
    z: Seq<R>,
    n: nat,
) -> Result<(Seq<BuehlerDividendState<R>>, Seq<R>), MonteCarloError>
    decreases n,
{
    if n == 0 {
        Ok((seq![initial_state()], zeros(k.n())))
    } else {
        match evolved(m, y, o, k, model, sigma0, grid, z, (n - 1) as nat) {
            Err(e) => Err(e),
            Ok((states, x)) => match step_volatility(
                m,
                o,
                k,
                sigma0,
                grid,
                states.last(),
                x,
                n - 1,
            ) {
                Err(e) => Err(e),
                Ok(sigma) => match y.stepped(
                    model,
                    states.last(),
                    sigma,
                    minus(grid[n as int], grid[n - 1]),
                    Pair {
                        first: chunk(z, k.d() as int, n - 1)[0],
                        second: chunk(z, k.d() as int, n - 1)[1],
                    },
                ) {
                    Err(e) => Err(e),
                    Ok(state) => match gather(k.n(), factor_after(m, k, x, z, n - 1)) {
                        Err(e) => Err(e),
                        Ok(next) => Ok((states.push(state), next)),
                    },
                },
            },
        }
    }
}

proof fn evolved_stops<R: Scalar, Y: DividendDynamics<R>, N: KernelNumerics<R>>(
    m: Model<R>,
    y: Y,
    o: N,
    k: KernelView<R, N::Surface>,
    model: BuehlerDividendModel<R>,
    sigma0: R,
    grid: Seq<R>,
    z: Seq<R>,
    a: nat,
    n: nat,
)
    requires
        a <= n,
        evolved(m, y, o, k, model, sigma0, grid, z, a) is Err,
    ensures
        evolved(m, y, o, k, model, sigma0, grid, z, n) == evolved(
            m,
            y,
            o,
            k,
            model,
            sigma0,
            grid,
            z,
            a,
        ),
    decreases n,
{
    if a < n {
        evolved_stops(m, y, o, k, model, sigma0, grid, z, a, (n - 1) as nat);
    }
}

/// The states of the nodes that the normals reach.
pub open spec fn evolution_of<R: Scalar, Y: DividendDynamics<R>, N: KernelNumerics<R>>(
    m: Model<R>,
    y: Y,
    o: N,
    k: KernelView<R, N::Surface>,
    model: BuehlerDividendModel<R>,
    sigma0: R,
    grid: Seq<R>,
    z: Seq<R>,
) -> Result<Seq<BuehlerDividendState<R>>, MonteCarloError> {
    match evolved(m, y, o, k, model, sigma0, grid, z, steps_reached(k, z)) {
        Err(e) => Err(e),
        Ok((states, x)) => Ok(states),
    }
}

impl<R: Scalar, L> Kernel<R, L> {
    /// The factors after the step `i`.
    fn next_factors<M: Math<R>>(&self, m: &M, x: &Vec<R>, z: &Vec<R>, i: usize) -> (r: Result<
        Vec<R>,
        MonteCarloError,
    >)
        requires
            self@.valid(),
            i < self@.steps.len(),
            x@.len() == self@.n(),
            self@.d() * i + self@.d() <= z@.len(),
        ensures
            seen(r) == gather(self@.n(), factor_after(m.model(), self@, x@, z@, i as int)),
            r matches Ok(v) ==> v@.len() == self@.n(),
    {
        let n = self.weights.len();
        let step = &self.steps[i];
        let ghost view = self@.steps[i as int];
        assert(view.of(n as nat));
        assert(step@ == view);
        assert(self@.d() * i >= 0) by (nonlinear_arith);
        assert(z@.len() == z.len());
        let d: usize = n + 2;
        let start: usize = d * i;
        let ghost after = factor_after(m.model(), self@, x@, z@, i as int);
        let f_at = |j: usize| -> (r: Result<R, MonteCarloError>)
            requires
                j < n,
            ensures
                r == after(j as int),
            {
                m.laws();
                assert(step@.lower[j as int].len() == d);
                assert(step.lower@[j as int]@ == step@.lower[j as int]);
                let noise = dot_at(m, &step.lower[j], z, start);
                let value = step.decay[j] * x[j] + noise;
                assert(z@.subrange(start as int, start + d) == chunk(z@, d as int, i as int));
                if m.is_finite(value) {
                    Ok(value)
                } else {
                    Err(invalid("bergomi_state"))
                }
            };
        collect(
            n,
            f_at,
            Ghost(after),
        )
    }

    /// The multiplier of the volatility over the step `i`.
    fn loading<M: Math<R>>(&self, m: &M, x: &Vec<R>, i: usize) -> (y: R)
        requires
            self@.valid(),
            i < self@.steps.len(),
            x@.len() == self@.n(),
        ensures
            y == loading_of(m.model(), self@, x@, i as int),
    {
        m.laws();
        let factor = take_dot(m, &self.weights, x);
        m.exp(self.vol_of_vol * (factor - self.centering[i]))
    }

    /// The number of steps that the normals reach.
    fn reached(&self, z: &Vec<R>) -> (n: usize)
        requires
            self@.valid(),
        ensures
            n == steps_reached(self@, z@),
            forall|i: int| 0 <= i < n ==> #[trigger] (self@.d() * i) + self@.d() <= z@.len(),
            n <= self@.steps.len(),
    {
        assert(self@.d() <= usize::MAX) by (nonlinear_arith)
            requires
                self@.d() * (self@.steps.len() + 1) <= usize::MAX,
                self@.steps.len() >= 0,
        ;
        let d: usize = self.weights.len() + 2;
        let whole: usize = z.len() / d;
        proof {
            assert forall|i: int| 0 <= i < whole implies #[trigger] (self@.d() * i) + self@.d()
                <= z@.len() by {
                lemma_chunk(z@.len() as int, d as int, i);
            }
        }
        if whole <= self.steps.len() {
            whole
        } else {
            self.steps.len()
        }
    }

    /// The loadings of the steps that the normals reach.
    pub fn volatility_loadings<M: Math<R>>(&self, m: &M, z: &Vec<R>) -> (r: Result<
        Vec<R>,
        MonteCarloError,
    >)
        requires
            self@.valid(),
        ensures
            seen(r) == volatility_loadings_of(m.model(), self@, z@),
            r matches Ok(v) ==> v@.len() == steps_reached(self@, z@) && (forall|i: int|
                0 <= i < v@.len() ==> positive(m.model(), #[trigger] v@[i])),
            r matches Ok(v) ==> self@.starts_at_rest(m.model()) && v@.len() > 0 ==> v@[0]
                == literal::<R>(1),
    {
        m.zero_laws();
        proof {
            loadings_are_positive(m.model(), self@, z@);
            if self@.starts_at_rest(m.model()) {
                first_loading_is_one(m.model(), self@, z@);
            }
        }
        if self.is_lsv() {
            return Err(
                MonteCarloError::StochasticDividend(
                    StochasticDividendError::Unsupported {
                        feature: "residual-equity LSV reverse; use price-only evaluation",
                    },
                ),
            );
        }
        let n = self.reached(z);
        let mut x = make_zeros(m, self.weights.len());
        let mut out: Vec<R> = Vec::new();
        assert(out@ =~= Seq::empty());
        let mut i: usize = 0;
        while i < n
            invariant
                i <= n,
                self@.valid(),
                n == steps_reached(self@, z@),
                n <= self@.steps.len(),
                self@.leverage is None,
                forall|i: int| 0 <= i < n ==> #[trigger] (self@.d() * i) + self@.d() <= z@.len(),
                x@.len() == self@.n(),
                out@.len() == i,
                loaded(m.model(), self@, z@, i as nat) == Ok::<(Seq<R>, Seq<R>), MonteCarloError>(
                    (out@, x@),
                ),
            decreases n - i,
        {
            let ghost here = loaded(m.model(), self@, z@, (i + 1) as nat);
            assert((self@.d() * i) + self@.d() <= z@.len());
            let loading = self.loading(m, &x, i);
            if !is_positive(m, loading) {
                proof {
                    assert(here is Err);
                    loaded_stops(m.model(), self@, z@, (i + 1) as nat, n as nat);
                }
                return Err(invalid("reverse_volatility_loading"));
            }
            match self.next_factors(m, &x, z, i) {
                Err(e) => {
                    proof {
                        assert(here is Err);
                        loaded_stops(m.model(), self@, z@, (i + 1) as nat, n as nat);
                    }
                    return Err(e);
                },
                Ok(next) => {
                    out.push(loading);
                    x = next;
                },
            }
            i = i + 1;
        }
        Ok(out)
    }

    /// Whether the kernel has a leverage surface.
    pub fn is_lsv(&self) -> (b: bool)
        ensures
            b == (self@.leverage is Some),
    {
        self.leverage.is_some()
    }

    /// The leverage surface, where there is one.
    pub fn lsv_surface(&self) -> (s: Option<&L>)
        ensures
            (match s {
                Some(x) => Some(*x),
                None => None,
            }) == self@.leverage,
    {
        self.leverage.as_ref()
    }

    /// The number of normals of a step.
    pub fn factor_count(&self) -> (n: usize)
        requires
            self@.valid(),
        ensures
            n == self@.d(),
    {
        assert(self@.d() <= usize::MAX) by (nonlinear_arith)
            requires
                self@.d() * (self@.steps.len() + 1) <= usize::MAX,
                self@.steps.len() >= 0,
        ;
        self.weights.len() + 2
    }
}

impl<R: Scalar, L> Kernel<R, L> {
    /// The volatility over the step `i`.
    fn volatility<M: Math<R>, N: KernelNumerics<R, Surface = L>>(
        &self,
        m: &M,
        o: &N,
        sigma0: R,
        grid: &Vec<R>,
        state: BuehlerDividendState<R>,
        x: &Vec<R>,
        i: usize,
    ) -> (r: Result<R, MonteCarloError>)
        requires
            self@.valid(),
            i < self@.steps.len(),
            i < grid@.len(),
            x@.len() == self@.n(),
        ensures
            r == step_volatility(m.model(), *o, self@, sigma0, grid@, state, x@, i as int),
    {
        m.laws();
        match &self.leverage {
            Some(surface) => {
                let residual = o.initial_level(surface) * state.equity;
                if !is_positive(m, residual) {
                    return Err(invalid("lsv_residual_equity"));
                }
                let squared = match o.squared_leverage(surface, grid[i], residual) {
                    None => return Err(invalid("lsv_leverage_lookup")),
                    Some(x) => x,
                };
                let multiplier = self.loading(m, x, i);
                let sigma = m.sqrt(squared) * multiplier;
                if !is_positive(m, sigma) {
                    return Err(invalid("lsv_equity_volatility"));
                }
                Ok(sigma)
            },
            None => {
                if sigma0 == R::from(0u32) {
                    return Ok(R::from(0u32));
                }
                let sigma = sigma0 * self.loading(m, x, i);
                if !is_positive(m, sigma) {
                    return Err(invalid("bergomi_volatility"));
                }
                Ok(sigma)
            },
        }
    }

    /// Evolves equity and dividends over the steps that the normals reach.
    pub fn evolve<M: Math<R>, Y: DividendDynamics<R>, N: KernelNumerics<R, Surface = L>>(
        &self,
        m: &M,
        y: &Y,
        o: &N,
        model: BuehlerDividendModel<R>,
        sigma0: R,
        grid: &Vec<R>,
        z: &Vec<R>,
    ) -> (r: Result<Vec<BuehlerDividendState<R>>, MonteCarloError>)
        requires
            self@.valid(),
            grid@.len() == self@.steps.len() + 1,
        ensures
            seen(r) == evolution_of(m.model(), *y, *o, self@, model, sigma0, grid@, z@),
            r matches Ok(v) ==> v@.len() == steps_reached(self@, z@) + 1,
    {
        m.laws();
        let n = self.reached(z);
        let mut x = make_zeros(m, self.weights.len());
        let mut state = BuehlerDividendState { equity: R::from(1u32), dividend: R::from(1u32) };
        let mut states: Vec<BuehlerDividendState<R>> = vec![state];
        assert(states@ =~= seq![initial_state()]);
        let mut i: usize = 0;
        while i < n
            invariant
                i <= n,
                lawful::<R>(),
                self@.valid(),
                grid@.len() == self@.steps.len() + 1,
                n == steps_reached(self@, z@),
                n <= self@.steps.len(),
                forall|i: int| 0 <= i < n ==> #[trigger] (self@.d() * i) + self@.d() <= z@.len(),
                x@.len() == self@.n(),
                states@.len() == i + 1,
                state == states@.last(),
                evolved(m.model(), *y, *o, self@, model, sigma0, grid@, z@, i as nat) == Ok::<
                    (Seq<BuehlerDividendState<R>>, Seq<R>),
                    MonteCarloError,
                >((states@, x@)),
            decreases n - i,
        {
            let ghost here = evolved(
                m.model(),
                *y,
                *o,
                self@,
                model,
                sigma0,
                grid@,
                z@,
                (i + 1) as nat,
            );
            proof {
                assert((self@.d() * i) + self@.d() <= z@.len());
                assert(0 <= self@.d() * i) by (nonlinear_arith);
                assert(z@.len() == z.len());
                if here is Err {
                    evolved_stops(
                        m.model(),
                        *y,
                        *o,
                        self@,
                        model,
                        sigma0,
                        grid@,
                        z@,
                        (i + 1) as nat,
                        n as nat,
                    );
                }
            }
            let sigma = match self.volatility(m, o, sigma0, grid, state, &x, i) {
                Err(e) => return Err(e),
                Ok(sigma) => sigma,
            };
            let start: usize = (self.weights.len() + 2) * i;
            let normals = Pair { first: z[start], second: z[start + 1] };
            let next_state = match y.step(model, state, sigma, grid[i + 1] - grid[i], normals) {
                Err(e) => return Err(e),
                Ok(s) => s,
            };
            let next = match self.next_factors(m, &x, z, i) {
                Err(e) => return Err(e),
                Ok(v) => v,
            };
            state = next_state;
            states.push(state);
            x = next;
            i = i + 1;
        }
        Ok(states)
    }

    /// Attaches a leverage surface, which has to have a row for each step.
    pub fn with_leverage<N: KernelNumerics<R, Surface = L>>(
        self,
        o: &N,
        surface: L,
        grid: &Vec<R>,
    ) -> (r: Result<Kernel<R, L>, MonteCarloError>)
        ensures
            viewed(r) == (if o.covers_all(surface, grid@) {
                Ok(KernelView { leverage: Some(surface), ..self@ })
            } else {
                Err(invalid_field("lsv_leverage_surface"))
            }),
    {
        if !o.covers(&surface, grid) {
            return Err(invalid("lsv_leverage_surface"));
        }
        Ok(
            Kernel {
                weights: self.weights,
                vol_of_vol: self.vol_of_vol,
                steps: self.steps,
                centering: self.centering,
                identity: self.identity,
                leverage: Some(surface),
            },
        )
    }

    /// The name of the scheme.
    pub fn scheme(&self) -> (s: &'static str)
        ensures
            s == scheme_of(self@.n(), self@.leverage is Some),
    {
        if self.weights.len() == 1 {
            if self.is_lsv() {
                "buehler-bergomi-1f-residual-lsv-joint-ou-positive-split-v1"
            } else {
                "buehler-bergomi-1f-joint-ou-positive-split-v1"
            }
        } else if self.is_lsv() {
            "buehler-bergomi-2f-residual-lsv-joint-ou-positive-split-v1"
        } else {
            "buehler-bergomi-2f-joint-ou-positive-split-v1"
        }
    }
}

/// The name of the scheme of `n` factors, with or without leverage.
pub open spec fn scheme_of(n: nat, lsv: bool) -> &'static str {
    if n == 1 {
        if lsv {
            "buehler-bergomi-1f-residual-lsv-joint-ou-positive-split-v1"
        } else {
            "buehler-bergomi-1f-joint-ou-positive-split-v1"
        }
    } else if lsv {
        "buehler-bergomi-2f-residual-lsv-joint-ou-positive-split-v1"
    } else {
        "buehler-bergomi-2f-joint-ou-positive-split-v1"
    }
}

/// The correlations of equity, dividends and one factor.
pub open spec fn one_factor_matrix<R: Scalar>(sd: R, sv: R, dv: R) -> Seq<R> {
    seq![literal(1), sd, sv, sd, literal(1), dv, sv, dv, literal(1)]
}

/// The correlations of equity, dividends and two factors.
pub open spec fn two_factor_matrix<R: Scalar>(sd: R, sv: Pair<R>, dv: Pair<R>, vv: R) -> Seq<R> {
    seq![
        literal(1),
        sd,
        sv.first,
        sv.second,
        sd,
        literal(1),
        dv.first,
        dv.second,
        sv.first,
        dv.first,
        literal(1),
        vv,
        sv.second,
        dv.second,
        vv,
        literal(1),
    ]
}

/// The kernel of a one-factor model.
pub open spec fn one_factor_kernel<R: Scalar, N: KernelNumerics<R>>(
    m: Model<R>,
    o: N,
    dividends: BuehlerDividendModel<R>,
    factor: Bergomi1Factor<R>,
    dv: R,
    grid: Seq<R>,
) -> Result<KernelView<R, N::Surface>, MonteCarloError> {
    kernel_of(
        m,
        o,
        seq![factor.mean_reversion],
        seq![literal(1)],
        factor.vol_of_vol,
        one_factor_matrix(dividends.equity_dividend_correlation, factor.correlation, dv),
        grid,
        seq![factor.mean_reversion, factor.vol_of_vol, factor.correlation, dv],
    )
}

/// The kernel of a two-factor model.
pub open spec fn two_factor_kernel<R: Scalar, N: KernelNumerics<R>>(
    m: Model<R>,
    o: N,
    dividends: BuehlerDividendModel<R>,
    factor: Bergomi2Factor<R>,
    dv: Pair<R>,
    grid: Seq<R>,
) -> Result<KernelView<R, N::Surface>, MonteCarloError> {
    kernel_of(
        m,
        o,
        seq![factor.mean_reversions.first, factor.mean_reversions.second],
        seq![o.weights_of(factor).first, o.weights_of(factor).second],
        factor.vol_of_vol,
        two_factor_matrix(
            dividends.equity_dividend_correlation,
            factor.spot_correlations,
            dv,
            factor.factor_correlation,
        ),
        grid,
        seq![
            factor.mean_reversions.first,
            factor.mean_reversions.second,
            factor.vol_of_vol,
            factor.mixing_weight,
            factor.spot_correlations.first,
            factor.spot_correlations.second,
            factor.factor_correlation,
            dv.first,
            dv.second,
        ],
    )
}

impl<R: Scalar, L> Kernel<R, L> {
    /// Compiles the kernel of a one-factor model.
    pub fn one<M: Math<R>, N: KernelNumerics<R, Surface = L>>(
        m: &M,
        o: &N,
        dividends: BuehlerDividendModel<R>,
        factor: Bergomi1Factor<R>,
        dv: R,
        grid: &Vec<R>,
    ) -> (r: Result<Kernel<R, L>, MonteCarloError>)
        requires
            1 <= grid@.len(),
            3 * grid@.len() <= usize::MAX,
        ensures
            viewed(r) == one_factor_kernel(m.model(), *o, dividends, factor, dv, grid@),
            r matches Ok(k) ==> k@.valid() && k@.n() == 1 && k@.steps.len() == grid@.len() - 1,
            r matches Ok(k) ==> grid@.len() > 1 && is_zero(grid@[0]) && m.model().is_finite(
                factor.vol_of_vol,
            ) ==> k@.starts_at_rest(m.model()),
    {
        m.laws();
        m.zero_laws();
        let one = R::from(1u32);
        let sd = dividends.equity_dividend_correlation;
        let sv = factor.correlation;
        let matrix: Vec<R> = vec![one, sd, sv, sd, one, dv, sv, dv, one];
        assert(matrix@ =~= one_factor_matrix(sd, sv, dv));
        let speeds: Vec<R> = vec![factor.mean_reversion];
        assert(speeds@ =~= seq![factor.mean_reversion]);
        let weights: Vec<R> = vec![one];
        assert(weights@ =~= seq![literal::<R>(1)]);
        let identity: Vec<R> = vec![factor.mean_reversion, factor.vol_of_vol, sv, dv];
        assert(identity@ =~= seq![factor.mean_reversion, factor.vol_of_vol, sv, dv]);
        proof {
            if grid@.len() > 1 && is_zero(grid@[0]) && m.model().is_finite(factor.vol_of_vol) {
                compiled_kernels_start_at_rest(
                    m.model(),
                    *o,
                    speeds@,
                    weights@,
                    factor.vol_of_vol,
                    matrix@,
                    grid@,
                    identity@,
                );
            }
        }
        Kernel::compile(m, o, &speeds, weights, factor.vol_of_vol, &matrix, grid, identity)
    }

    /// Compiles the kernel of a two-factor model.
    pub fn two<M: Math<R>, N: KernelNumerics<R, Surface = L>>(
        m: &M,
        o: &N,
        dividends: BuehlerDividendModel<R>,
        factor: Bergomi2Factor<R>,
        dv: Pair<R>,
        grid: &Vec<R>,
    ) -> (r: Result<Kernel<R, L>, MonteCarloError>)
        requires
            1 <= grid@.len(),
            4 * grid@.len() <= usize::MAX,
        ensures
            viewed(r) == two_factor_kernel(m.model(), *o, dividends, factor, dv, grid@),
            r matches Ok(k) ==> k@.valid() && k@.n() == 2 && k@.steps.len() == grid@.len() - 1,
            r matches Ok(k) ==> grid@.len() > 1 && is_zero(grid@[0]) && m.model().is_finite(
                factor.vol_of_vol,
            ) && m.model().all_finite(k@.weights) ==> k@.starts_at_rest(m.model()),
    {
        m.laws();
        m.zero_laws();
        let one = R::from(1u32);
        let sd = dividends.equity_dividend_correlation;
        let sv = factor.spot_correlations;
        let vv = factor.factor_correlation;
        let matrix: Vec<R> = vec![
            one,
            sd,
            sv.first,
            sv.second,
            sd,
            one,
            dv.first,
            dv.second,
            sv.first,
            dv.first,
            one,
            vv,
            sv.second,
            dv.second,
            vv,
            one,
        ];
        assert(matrix@ =~= two_factor_matrix(sd, sv, dv, vv));
        let k = factor.mean_reversions;
        let speeds: Vec<R> = vec![k.first, k.second];
        assert(speeds@ =~= seq![k.first, k.second]);
        let w = o.normalized_weights(factor);
        let weights: Vec<R> = vec![w.first, w.second];
        assert(weights@ =~= seq![w.first, w.second]);
        let identity: Vec<R> = vec![
            k.first,
            k.second,
            factor.vol_of_vol,
            factor.mixing_weight,
            sv.first,
            sv.second,
            vv,
            dv.first,
            dv.second,
        ];
        assert(identity@ =~= seq![
            k.first,
            k.second,
            factor.vol_of_vol,
            factor.mixing_weight,
            sv.first,
            sv.second,
            vv,
            dv.first,
            dv.second,
        ]);
        proof {
            if grid@.len() > 1 && is_zero(grid@[0]) && m.model().is_finite(factor.vol_of_vol)
                && m.model().all_finite(weights@) {
                compiled_kernels_start_at_rest(
                    m.model(),
                    *o,
                    speeds@,
                    weights@,
                    factor.vol_of_vol,
                    matrix@,
                    grid@,
                    identity@,
                );
            }
        }
        Kernel::compile(m, o, &speeds, weights, factor.vol_of_vol, &matrix, grid, identity)
    }
}

/// Two sets of normals agree on the first `n` steps.
pub open spec fn agree<R, L>(k: KernelView<R, L>, z: Seq<R>, w: Seq<R>, n: nat) -> bool {
    &&& k.d() * n <= z.len()
    &&& k.d() * n <= w.len()
    &&& forall|i: int| 0 <= i < k.d() * n ==> #[trigger] z[i] == w[i]
}

proof fn agree_before<R, L>(k: KernelView<R, L>, z: Seq<R>, w: Seq<R>, n: nat)
    requires
        agree(k, z, w, n),
        n > 0,
    ensures
        agree(k, z, w, (n - 1) as nat),
        chunk(z, k.d() as int, n - 1) == chunk(w, k.d() as int, n - 1),
{
    let d = k.d() as int;
    assert(d * (n - 1) + d == d * n && 0 <= d * (n - 1)) by (nonlinear_arith)
        requires
            n > 0,
            d >= 0,
    ;
    assert(chunk(z, d, n - 1) =~= chunk(w, d, n - 1));
}

proof fn loaded_are_positive<R: Scalar, L>(m: Model<R>, k: KernelView<R, L>, z: Seq<R>, n: nat)
    ensures
        loaded(m, k, z, n) matches Ok((out, _)) ==> {
            &&& out.len() == n
            &&& forall|i: int| 0 <= i < n ==> positive(m, #[trigger] out[i])
            &&& n > 0 ==> out[0] == loading_of(m, k, zeros(k.n()), 0)
        },
    decreases n,
{
    if n > 0 {
        loaded_are_positive(m, k, z, (n - 1) as nat);
    }
}

/// Every loading is finite and positive, and the first is that of factors at rest,
/// whatever the normals.
pub proof fn loadings_are_positive<R: Scalar, L>(m: Model<R>, k: KernelView<R, L>, z: Seq<R>)
    ensures
        volatility_loadings_of(m, k, z) matches Ok(out) ==> {
            &&& forall|i: int| 0 <= i < out.len() ==> positive(m, #[trigger] out[i])
            &&& out.len() > 0 ==> out[0] == loading_of(m, k, zeros(k.n()), 0)
        },
{
    loaded_are_positive(m, k, z, steps_reached(k, z));
}

proof fn dot_with_zeros<R: Scalar>(m: Model<R>, a: Seq<R>, n: nat)
    requires
        m.zeros_behave(),
        m.all_finite(a),
        a.len() <= n,
    ensures
        is_zero(dot(a, zeros(n))),
    decreases a.len(),
{
    if a.len() > 0 {
        assert(m.all_finite(a.drop_last())) by {
            assert forall|i: int| 0 <= i < a.len() - 1 implies m.is_finite(
                #[trigger] a.drop_last()[i],
            ) by {
                assert(a.drop_last()[i] == a[i]);
            }
        }
        dot_with_zeros(m, a.drop_last(), n);
        assert(m.is_finite(a.last()));
        assert(is_zero(times(a.last(), zeros::<R>(n)[a.len() - 1])));
    }
}

impl<R: Scalar, L> KernelView<R, L> {
    /// Finite parameters, and nothing to take off the factors at first.
    pub open spec fn starts_at_rest(self, m: Model<R>) -> bool {
        m.all_finite(self.weights) && m.is_finite(self.vol_of_vol) && is_zero(self.centering[0])
    }
}

/// The first loading of a kernel that starts at rest is one, whatever the normals.
pub proof fn first_loading_is_one<R: Scalar, L>(m: Model<R>, k: KernelView<R, L>, z: Seq<R>)
    requires
        m.zeros_behave(),
        k.starts_at_rest(m),
    ensures
        volatility_loadings_of(m, k, z) matches Ok(out) ==> out.len() > 0 ==> out[0] == literal::<
            R,
        >(1),
{
    loadings_are_positive(m, k, z);
    dot_with_zeros(m, k.weights, k.n());
}

/// A kernel on a grid from the valuation on has nothing to take off at first: with finite
/// weights and volatility of volatility it starts at rest.
pub proof fn compiled_kernels_start_at_rest<R: Scalar, N: KernelNumerics<R>>(
    m: Model<R>,
    o: N,
    speeds: Seq<R>,
    weights: Seq<R>,
    vol_of_vol: R,
    matrix: Seq<R>,
    grid: Seq<R>,
    identity: Seq<R>,
)
    requires
        m.zeros_behave(),
        grid.len() > 1,
        is_zero(grid[0]),
        m.all_finite(weights),
        m.is_finite(vol_of_vol),
    ensures
        kernel_of(m, o, speeds, weights, vol_of_vol, matrix, grid, identity) matches Ok(k)
            ==> k.starts_at_rest(m),
{
    let f = centering_at(m, o, speeds, weights, vol_of_vol, matrix, grid);
    gather_values((grid.len() - 1) as nat, f);
    if let Ok(k) = kernel_of(m, o, speeds, weights, vol_of_vol, matrix, grid, identity) {
        assert(f(0) == Ok::<R, MonteCarloError>(k.centering[0]));
    }
}

/// The loadings of the first steps, and the factors after them, depend on the
/// normals of those steps alone: the loading of a step looks at no normal of
/// its own step or of a later one.
pub proof fn loadings_do_not_look_ahead<R: Scalar, L>(
    m: Model<R>,
    k: KernelView<R, L>,
    z: Seq<R>,
    w: Seq<R>,
    n: nat,
)
    requires
        agree(k, z, w, n),
    ensures
        loaded(m, k, z, n) == loaded(m, k, w, n),
    decreases n,
{
    if n > 0 {
        agree_before(k, z, w, n);
        loadings_do_not_look_ahead(m, k, z, w, (n - 1) as nat);
        if let Ok((out, x)) = loaded(m, k, z, (n - 1) as nat) {
            assert(factor_after(m, k, x, z, n - 1) =~= factor_after(m, k, x, w, n - 1));
        }
    }
}

/// The states of the first nodes depend on the normals of the steps before
/// them alone.
pub proof fn states_do_not_look_ahead<R: Scalar, Y: DividendDynamics<R>, N: KernelNumerics<R>>(
    m: Model<R>,
    y: Y,
    o: N,
    k: KernelView<R, N::Surface>,
    model: BuehlerDividendModel<R>,
    sigma0: R,
    grid: Seq<R>,
    z: Seq<R>,
    w: Seq<R>,
    n: nat,
)
    requires
        agree(k, z, w, n),
    ensures
        evolved(m, y, o, k, model, sigma0, grid, z, n) == evolved(
            m,
            y,
            o,
            k,
            model,
            sigma0,
            grid,
            w,
            n,
        ),
    decreases n,
{
    if n > 0 {
        agree_before(k, z, w, n);
        states_do_not_look_ahead(m, y, o, k, model, sigma0, grid, z, w, (n - 1) as nat);
        if let Ok((states, x)) = evolved(m, y, o, k, model, sigma0, grid, z, (n - 1) as nat) {
            assert(factor_after(m, k, x, z, n - 1) =~= factor_after(m, k, x, w, n - 1));
        }
    }
}

} // verus!
