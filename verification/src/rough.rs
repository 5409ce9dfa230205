//! The joint law of equity, dividends and a fractional volatility driver over
//! the steps of a grid. The newest cell of the driver is exact; older cells have
//! averaged weights.

use crate::bergomi::{
    initial_state, is_nonnegative, is_positive, nonnegative, one_factor_matrix, positive,
};
use crate::dynamics::{DividendDynamics, KernelNumerics};
use crate::errors::{invalid, invalid_field, MonteCarloError};
use crate::linear::{chunk, collect, dot, dot_at, dot_is_local, quarter, rows_seen, viewed};
use crate::models::{BuehlerDividendModel, BuehlerDividendState, Pair, RoughBergomi};
use crate::neumaier::{compensated_sum, sum_compensated};
use crate::results::{gather, seen};
use crate::sampling::half;
use crate::scalar::{lawful, literal, minus, over, plus, same, times, Math, Model, Scalar};
use vstd::prelude::*;

verus! {

/// The steps of the longest grid that is accepted.
pub const MAX_STEPS: usize = 4096;

/// The newest cell of the driver over a step.
#[derive(Clone, Copy, Debug, PartialEq)]
pub struct NearCell<R> {
    pub root_dt: R,
    pub average: R,
    pub residual: R,
}

/// The newest cell over a step of a length.
pub open spec fn near_cell_of<R: Scalar>(m: Model<R>, factor: RoughBergomi<R>, dt: R) -> Result<
    NearCell<R>,
    MonteCarloError,
> {
    let h = factor.hurst;
    let p = plus(h, half());
    let cell = NearCell {
        root_dt: m.sqrt(dt),
        average: over(times(m.sqrt(times(literal(2), h)), m.pow(dt, minus(h, half()))), p),
        residual: over(times(m.pow(dt, h), minus(half(), h)), p),
    };
    if !positive(m, cell.root_dt) {
        Err(invalid_field("rough_step_length"))
    } else if !positive(m, cell.average) {
        Err(invalid_field("rough_near_average"))
    } else if !nonnegative(m, cell.residual) {
        Err(invalid_field("rough_near_residual"))
    } else {
        Ok(cell)
    }
}

impl<R: Scalar> NearCell<R> {
    /// Compiles the newest cell over a step.
    pub fn compile<M: Math<R>>(m: &M, factor: RoughBergomi<R>, dt: R) -> (r: Result<
        NearCell<R>,
        MonteCarloError,
    >)
        ensures
            r == near_cell_of(m.model(), factor, dt),
    {
        m.laws();
        let h = factor.hurst;
        let p = h + (R::from(1u32) / R::from(2u32));
        let cell = NearCell {
            root_dt: m.sqrt(dt),
            average: m.sqrt(R::from(2u32) * h) * m.pow(dt, h - (R::from(1u32) / R::from(2u32))) / p,
            residual: m.pow(dt, h) * ((R::from(1u32) / R::from(2u32)) - h) / p,
        };
        if !is_positive(m, cell.root_dt) {
            return Err(invalid("rough_step_length"));
        }
        if !is_positive(m, cell.average) {
            return Err(invalid("rough_near_average"));
        }
        if !is_nonnegative(m, cell.residual) {
            return Err(invalid("rough_near_residual"));
        }
        Ok(cell)
    }
}

/// The law of a fractional driver over a grid.
pub struct RoughDividendKernel<R> {
    pub factor: RoughBergomi<R>,
    pub dividend_volatility_correlation: R,
    /// The loadings of the driver on the first three normals of a step.
    pub vol_loading: Vec<R>,
    /// The weights of the increments before the newest, node by node.
    pub weights: Vec<Vec<R>>,
    /// The variances of the driver, node by node.
    pub variances: Vec<R>,
    pub steps: Vec<NearCell<R>>,
}

/// A [`RoughDividendKernel`] as a mathematical value.
pub ghost struct RoughKernelView<R> {
    pub factor: RoughBergomi<R>,
    pub dividend_volatility_correlation: R,
    pub vol_loading: Seq<R>,
    pub weights: Seq<Seq<R>>,
    pub variances: Seq<R>,
    pub steps: Seq<NearCell<R>>,
}

impl<R> View for RoughDividendKernel<R> {
    type V = RoughKernelView<R>;

    open spec fn view(&self) -> RoughKernelView<R> {
        RoughKernelView {
            factor: self.factor,
            dividend_volatility_correlation: self.dividend_volatility_correlation,
            vol_loading: self.vol_loading@,
            weights: rows_seen(self.weights@),
            variances: self.variances@,
            steps: self.steps@,
        }
    }
}

impl<R> RoughKernelView<R> {
    /// Each node has its weights and its variance.
    pub open spec fn valid(self) -> bool {
        &&& self.vol_loading.len() == 3
        &&& self.steps.len() <= MAX_STEPS
        &&& self.weights.len() == self.steps.len() + 1
        &&& self.variances.len() == self.steps.len() + 1
        &&& forall|i: int|
            0 < i < self.weights.len() ==> (#[trigger] self.weights[i]).len() == i - 1
    }
}

/// The newest cell of the step between two neighbouring times.
pub open spec fn grid_cell<R: Scalar>(m: Model<R>, factor: RoughBergomi<R>, grid: Seq<R>) -> spec_fn(
    int,
) -> Result<NearCell<R>, MonteCarloError> {
    |i: int| near_cell_of(m, factor, minus(grid[i + 1], grid[i]))
}

/// The kernel of a rough model over a grid.
pub open spec fn rough_kernel_of<R: Scalar, N: KernelNumerics<R>>(
    m: Model<R>,
    o: N,
    dividends: BuehlerDividendModel<R>,
    factor: RoughBergomi<R>,
    dv: R,
    grid: Seq<R>,
) -> Result<RoughKernelView<R>, MonteCarloError> {
    let matrix = one_factor_matrix(dividends.equity_dividend_correlation, factor.correlation, dv);
    if grid.len() < 2 || grid.len() - 1 > MAX_STEPS {
        Err(invalid_field("rough_grid_step_limit_4096"))
    } else {
        match o.factor_of(matrix, 3) {
            None => Err(invalid_field("rough_equity_dividend_volatility_correlation_matrix")),
            Some(l) => match o.volterra_variances_of(factor, grid) {
                None => Err(invalid_field("rough_volterra_weights")),
                Some(variances) => match gather(
                    (grid.len() - 1) as nat,
                    grid_cell(m, factor, grid),
                ) {
                    Err(e) => Err(e),
                    Ok(steps) => Ok(
                        RoughKernelView {
                            factor,
                            dividend_volatility_correlation: dv,
                            vol_loading: seq![l[6], l[7], l[8]],
                            weights: Seq::new(
                                grid.len(),
                                |i: int| o.volterra_row_of(factor, grid, i as usize),
                            ),
                            variances,
                            steps,
                        },
                    ),
                },
            },
        }
    }
}

/// The increment of the driver over the step `i`.
pub open spec fn increment_of<R: Scalar>(k: RoughKernelView<R>, z: Seq<R>, i: int) -> R {
    times(k.steps[i].root_dt, dot(k.vol_loading, chunk(z, 4, i)))
}

/// The newest cell of the driver after the step `i`.
pub open spec fn near_of<R: Scalar>(k: RoughKernelView<R>, z: Seq<R>, i: int) -> R {
    plus(
        times(k.steps[i].average, increment_of(k, z, i)),
        times(k.steps[i].residual, chunk(z, 4, i)[3]),
    )
}

/// What the driver at a node sums: its newest cell, then the weighted older
/// increments from the first on.
pub open spec fn history<R: Scalar>(k: RoughKernelView<R>, z: Seq<R>, node: int) -> Seq<R> {
    seq![near_of(k, z, node - 1)] + Seq::new(
        (node - 1) as nat,
        |j: int| times(k.weights[node][j], increment_of(k, z, j)),
    )
}

/// The driver at a node.
pub open spec fn driver_of<R: Scalar>(
    m: Model<R>,
    k: RoughKernelView<R>,
    z: Seq<R>,
    node: int,
) -> R {
    if node <= 0 {
        literal(0)
    } else {
        compensated_sum(m, history(k, z, node))
    }
}

/// The exponent of the volatility over a step that starts with a driver and its
/// variance.
pub open spec fn rough_loading<R: Scalar>(m: Model<R>, eta: R, driver: R, variance: R) -> R {
    m.exp(
        minus(
            times(times(half(), eta), driver),
            times(times(times(quarter(), eta), eta), variance),
        ),
    )
}

/// The volatility over the step `i`, fixed at its start.
pub open spec fn rough_volatility<R: Scalar>(
    m: Model<R>,
    k: RoughKernelView<R>,
    sigma0: R,
    z: Seq<R>,
    i: int,
) -> Result<R, MonteCarloError> {
    let eta = k.factor.vol_of_vol;
    if same(sigma0, literal(0)) || same(eta, literal(0)) {
        Ok(sigma0)
    } else {
        let sigma = times(
            sigma0,
            rough_loading(m, eta, driver_of(m, k, z, i), k.variances[i]),
        );
        if positive(m, sigma) {
            Ok(sigma)
        } else {
            Err(invalid_field("rough_equity_volatility"))
        }
    }
}

/// The states up to the node `n`.
pub open spec fn rough_evolved<R: Scalar, Y: DividendDynamics<R>>(
    m: Model<R>,
    y: Y,
    k: RoughKernelView<R>,
    model: BuehlerDividendModel<R>,
    sigma0: R,
    grid: Seq<R>,
    z: Seq<R>,
    n: nat,
) -> Result<Seq<BuehlerDividendState<R>>, MonteCarloError>
    decreases n,
{
    if n == 0 {
        Ok(seq![initial_state()])
    } else {
        match rough_evolved(m, y, k, model, sigma0, grid, z, (n - 1) as nat) {
            Err(e) => Err(e),
            Ok(states) => match rough_volatility(m, k, sigma0, z, n - 1) {
                Err(e) => Err(e),
                Ok(sigma) => match y.stepped(
                    model,
                    states.last(),
                    sigma,
                    minus(grid[n as int], grid[n - 1]),
                    Pair { first: chunk(z, 4, n - 1)[0], second: chunk(z, 4, n - 1)[1] },
                ) {
                    Err(e) => Err(e),
                    Ok(state) => if m.is_finite(driver_of(m, k, z, n as int)) {
                        Ok(states.push(state))
                    } else {
                        Err(invalid_field("rough_volterra_history"))
                    },
                },
            },
        }
    }
}

proof fn rough_stops<R: Scalar, Y: DividendDynamics<R>>(
    m: Model<R>,
    y: Y,
    k: RoughKernelView<R>,
    model: BuehlerDividendModel<R>,
    sigma0: R,
    grid: Seq<R>,
    z: Seq<R>,
    a: nat,
    n: nat,
)
    requires
        a <= n,
        rough_evolved(m, y, k, model, sigma0, grid, z, a) is Err,
    ensures
        rough_evolved(m, y, k, model, sigma0, grid, z, n) == rough_evolved(
            m,
            y,
            k,
            model,
            sigma0,
            grid,
            z,
            a,
        ),
    decreases n,
{
    if a < n {
        rough_stops(m, y, k, model, sigma0, grid, z, a, (n - 1) as nat);
    }
}

impl<R: Scalar> RoughDividendKernel<R> {
    /// Compiles the kernel of a rough model.
    pub fn compile<M: Math<R>, N: KernelNumerics<R>>(
        m: &M,
        o: &N,
        dividends: BuehlerDividendModel<R>,
        factor: RoughBergomi<R>,
        dv: R,
        grid: &Vec<R>,
    ) -> (r: Result<RoughDividendKernel<R>, MonteCarloError>)
        ensures
            viewed(r) == rough_kernel_of(m.model(), *o, dividends, factor, dv, grid@),
            r matches Ok(k) ==> k@.valid() && k@.steps.len() == grid@.len() - 1,
    {
        m.laws();
        if grid.len() < 2 || grid.len() - 1 > MAX_STEPS {
            return Err(invalid("rough_grid_step_limit_4096"));
        }
        let one = R::from(1u32);
        let sd = dividends.equity_dividend_correlation;
        let sv = factor.correlation;
        let matrix: Vec<R> = vec![one, sd, sv, sd, one, dv, sv, dv, one];
        assert(matrix@ =~= one_factor_matrix(sd, sv, dv));
        let l = match o.factor(&matrix, 3) {
            None => return Err(invalid("rough_equity_dividend_volatility_correlation_matrix")),
            Some(l) => l,
        };
        let vol_loading: Vec<R> = vec![l[6], l[7], l[8]];
        assert(vol_loading@ =~= seq![l@[6], l@[7], l@[8]]);
        let variances = match o.volterra_variances(factor, grid) {
            None => return Err(invalid("rough_volterra_weights")),
            Some(v) => v,
        };
        let nodes = grid.len();
        let weights = weight_rows(o, factor, grid);
        let n: usize = nodes - 1;
        let ghost cell = grid_cell(m.model(), factor, grid@);
        let steps_at = |i: usize| -> (x: Result<NearCell<R>, MonteCarloError>)
            requires
                i < n,
            ensures
                x == cell(i as int),
            {
                m.laws();
                NearCell::compile(m, factor, grid[i + 1] - grid[i])
            };
        let steps = match collect(
            n,
            steps_at,
            Ghost(cell),
        ) {
            Err(e) => return Err(e),
            Ok(v) => v,
        };
        Ok(
            RoughDividendKernel {
                factor,
                dividend_volatility_correlation: dv,
                vol_loading,
                weights,
                variances,
                steps,
            },
        )
    }

    /// The increment of the driver over a step, and its newest cell after it.
    pub fn innovations<M: Math<R>>(&self, m: &M, step: usize, z: &Vec<R>) -> (r: Pair<R>)
        requires
            self@.valid(),
            step < self@.steps.len(),
            4 * step + 4 <= z@.len(),
        ensures
            r.first == increment_of(self@, z@, step as int),
            r.second == near_of(self@, z@, step as int),
    {
        m.laws();
        let s = self.steps[step];
        assert(z@.len() == z.len());
        let start: usize = 4 * step;
        let noise = dot_at(m, &self.vol_loading, z, start);
        proof {
            dot_is_local(
                self.vol_loading@,
                z@.subrange(start as int, start + 3),
                chunk(z@, 4, step as int),
            );
        }
        let dw = s.root_dt * noise;
        Pair { first: dw, second: s.average * dw + s.residual * z[start + 3] }
    }

    /// The driver after the step `i`, out of the increments before it.
    fn driver_after<M: Math<R>>(
        &self,
        m: &M,
        near: R,
        increments: &Vec<R>,
        i: usize,
        Ghost(z): Ghost<Seq<R>>,
    ) -> (x: R)
        requires
            self@.valid(),
            i < self@.steps.len(),
            near == near_of(self@, z, i as int),
            increments@.len() == i,
            forall|j: int| 0 <= j < i ==> #[trigger] increments@[j] == increment_of(self@, z, j),
        ensures
            x == driver_of(m.model(), self@, z, i + 1),
    {
        let mut terms: Vec<R> = vec![near];
        let row = &self.weights[i + 1];
        assert(self@.weights[i + 1].len() == i);
        assert(row@ == self@.weights[i + 1]);
        m.laws();
        let ghost all = history(self@, z, i + 1);
        assert(terms@ =~= all.take(1));
        let mut j: usize = 0;
        while j < i
            invariant
                lawful::<R>(),
                j <= i,
                row@.len() == i,
                row@ == self@.weights[i + 1],
                increments@.len() == i,
                forall|j: int|
                    0 <= j < i ==> #[trigger] increments@[j] == increment_of(self@, z, j),
                all == history(self@, z, i + 1),
                all.len() == i + 1,
                terms@ == all.take(j + 1),
            decreases i - j,
        {
            assert(all[j + 1] == times(row@[j as int], increment_of(self@, z, j as int)));
            terms.push(row[j] * increments[j]);
            assert(terms@ =~= all.take(j + 2));
            j = j + 1;
        }
        assert(all.take(i + 1) =~= all);
        sum_compensated(m, terms.as_slice())
    }

    /// Evolves equity and dividends over the steps of the normals.
    pub fn evolve<M: Math<R>, Y: DividendDynamics<R>>(
        &self,
        m: &M,
        y: &Y,
        model: BuehlerDividendModel<R>,
        sigma0: R,
        grid: &Vec<R>,
        z: &Vec<R>,
    ) -> (r: Result<Vec<BuehlerDividendState<R>>, MonteCarloError>)
        requires
            self@.valid(),
            grid@.len() == self@.steps.len() + 1,
            z@.len() / 4 <= self@.steps.len(),
        ensures
            seen(r) == rough_evolved(
                m.model(),
                *y,
                self@,
                model,
                sigma0,
                grid@,
                z@,
                z@.len() / 4,
            ),
            r matches Ok(v) ==> v@.len() == z@.len() / 4 + 1,
    {
        m.laws();
        let n: usize = z.len() / 4;
        let eta = self.factor.vol_of_vol;
        let mut increments: Vec<R> = Vec::new();
        let mut driver = R::from(0u32);
        let mut state = BuehlerDividendState { equity: R::from(1u32), dividend: R::from(1u32) };
        let mut states: Vec<BuehlerDividendState<R>> = vec![state];
        assert(states@ =~= seq![initial_state()]);
        let mut i: usize = 0;
        while i < n
            invariant
                lawful::<R>(),
                i <= n,
                n == z@.len() / 4,
                n <= self@.steps.len(),
                self@.valid(),
                grid@.len() == self@.steps.len() + 1,
                eta == self@.factor.vol_of_vol,
                driver == driver_of(m.model(), self@, z@, i as int),
                increments@.len() == i,
                forall|j: int|
                    0 <= j < i ==> #[trigger] increments@[j] == increment_of(self@, z@, j),
                states@.len() == i + 1,
                state == states@.last(),
                rough_evolved(m.model(), *y, self@, model, sigma0, grid@, z@, i as nat) == Ok::<
                    Seq<BuehlerDividendState<R>>,
                    MonteCarloError,
                >(states@),
            decreases n - i,
        {
            proof {
                if rough_evolved(
                    m.model(),
                    *y,
                    self@,
                    model,
                    sigma0,
                    grid@,
                    z@,
                    (i + 1) as nat,
                ) is Err {
                    rough_stops(
                        m.model(),
                        *y,
                        self@,
                        model,
                        sigma0,
                        grid@,
                        z@,
                        (i + 1) as nat,
                        n as nat,
                    );
                }
                assert(z@.len() == z.len());
            }
            let sigma = if sigma0 == R::from(0u32) || eta == R::from(0u32) {
                sigma0
            } else {
                let variance = self.variances[i];
                let sigma = sigma0 * m.exp(
                    (
                        R::from(1u32) / R::from(2u32)
                    ) * eta * driver - (R::from(1u32) / R::from(4u32)) * eta * eta * variance,
                );
                if !is_positive(m, sigma) {
                    return Err(invalid("rough_equity_volatility"));
                }
                sigma
            };
            let normals = Pair { first: z[4 * i], second: z[4 * i + 1] };
            let next = match y.step(model, state, sigma, grid[i + 1] - grid[i], normals) {
                Err(e) => return Err(e),
                Ok(s) => s,
            };
            let moved = self.innovations(m, i, z);
            let after = self.driver_after(m, moved.second, &increments, i, Ghost(z@));
            if !m.is_finite(after) {
                return Err(invalid("rough_volterra_history"));
            }
            state = next;
            states.push(state);
            driver = after;
            increments.push(moved.first);
            i = i + 1;
        }
        Ok(states)
    }

    /// The driver at the start of each step, and its increment over each.
    pub fn driver_path<M: Math<R>>(&self, m: &M, z: &Vec<R>) -> (r: Result<
        (Vec<R>, Vec<R>),
        MonteCarloError,
    >)
        requires
            self@.valid(),
        ensures
            (match r {
                Ok((drivers, increments)) => Ok((drivers@, increments@)),
                Err(e) => Err(e),
            }) == driver_path_of(m.model(), self@, z@),
            r matches Ok((drivers, increments)) ==> drivers@.len() == self@.steps.len()
                && increments@.len() == self@.steps.len(),
    {
        m.laws();
        let n = self.steps.len();
        if z.len() / 4 != n || z.len() % 4 != 0 {
            return Err(invalid("rough_volterra_history"));
        }
        let mut drivers: Vec<R> = Vec::new();
        let mut increments: Vec<R> = Vec::new();
        let mut driver = R::from(0u32);
        let mut i: usize = 0;
        while i < n
            invariant
                i <= n,
                n == self@.steps.len(),
                self@.valid(),
                z@.len() == 4 * self@.steps.len(),
                driver == driver_of(m.model(), self@, z@, i as int),
                drivers@.len() == i,
                increments@.len() == i,
                forall|j: int|
                    0 <= j < i ==> #[trigger] drivers@[j] == driver_of(m.model(), self@, z@, j),
                forall|j: int|
                    0 <= j < i ==> #[trigger] increments@[j] == increment_of(self@, z@, j),
                forall|j: int|
                    0 < j <= i ==> m.model().is_finite(
                        #[trigger] driver_of(m.model(), self@, z@, j),
                    ),
            decreases n - i,
        {
            let moved = self.innovations(m, i, z);
            let after = self.driver_after(m, moved.second, &increments, i, Ghost(z@));
            if !m.is_finite(after) {
                assert(!m.model().is_finite(driver_of(m.model(), self@, z@, i + 1)));
                return Err(invalid("rough_volterra_history"));
            }
            drivers.push(driver);
            driver = after;
            increments.push(moved.first);
            i = i + 1;
        }
        assert(drivers@ =~= Seq::new(n as nat, |i: int| driver_of(m.model(), self@, z@, i)));
        assert(increments@ =~= Seq::new(n as nat, |i: int| increment_of(self@, z@, i)));
        Ok((drivers, increments))
    }
}

/// The driver at the start of each step, and its increment over each. There have to be
/// normals for every step and no more, and every driver has to be finite.
pub open spec fn driver_path_of<R: Scalar>(m: Model<R>, k: RoughKernelView<R>, z: Seq<R>) -> Result<
    (Seq<R>, Seq<R>),
    MonteCarloError,
> {
    let n = k.steps.len();
    if z.len() == 4 * n && forall|j: int|
        0 < j <= n ==> m.is_finite(#[trigger] driver_of(m, k, z, j)) {
        Ok(
            (
                Seq::new(n, |i: int| driver_of(m, k, z, i)),
                Seq::new(n, |i: int| increment_of(k, z, i)),
            ),
        )
    } else {
        Err(invalid_field("rough_volterra_history"))
    }
}

/// The volatility at the start of a step, relative to the initial one.
pub open spec fn loading_at<R: Scalar>(
    m: Model<R>,
    k: RoughKernelView<R>,
    drivers: Seq<R>,
) -> spec_fn(int) -> Result<R, MonteCarloError> {
    |i: int|
        {
            let loading = rough_loading(m, k.factor.vol_of_vol, drivers[i], k.variances[i]);
            if positive(m, loading) {
                Ok(loading)
            } else {
                Err(invalid_field("rough_equity_volatility"))
            }
        }
}

/// The volatility at the start of each step, relative to the initial one.
pub open spec fn rough_loadings<R: Scalar>(m: Model<R>, k: RoughKernelView<R>, z: Seq<R>) -> Result<
    Seq<R>,
    MonteCarloError,
> {
    match driver_path_of(m, k, z) {
        Err(e) => Err(e),
        Ok((drivers, _)) => gather(k.steps.len(), loading_at(m, k, drivers)),
    }
}

impl<R: Scalar> RoughDividendKernel<R> {
    /// Takes the volatility at the start of each step, relative to the initial one.
    pub fn volatility_loadings<M: Math<R>>(&self, m: &M, z: &Vec<R>) -> (r: Result<
        Vec<R>,
        MonteCarloError,
    >)
        requires
            self@.valid(),
        ensures
            seen(r) == rough_loadings(m.model(), self@, z@),
            r matches Ok(v) ==> v@.len() == self@.steps.len(),
    {
        let (drivers, _) = match self.driver_path(m, z) {
            Err(e) => return Err(e),
            Ok(v) => v,
        };
        let eta = self.factor.vol_of_vol;
        let n = drivers.len();
        let ghost law = loading_at(m.model(), self@, drivers@);
        let f_at = |i: usize| -> (x: Result<R, MonteCarloError>)
            requires
                i < n,
            ensures
                x == law(i as int),
            {
                m.laws();
                let (driver, variance) = (drivers[i], self.variances[i]);
                let loading = m.exp(
                    (
                        R::from(1u32) / R::from(2u32)
                    ) * eta * driver - (R::from(1u32) / R::from(4u32)) * eta * eta * variance,
                );
                if !is_positive(m, loading) {
                    return Err(invalid("rough_equity_volatility"));
                }
                Ok(loading)
            };
        collect(
            n,
            f_at,
            Ghost(law),
        )
    }
}

/// The weights of the increments before the newest, node by node.
fn weight_rows<R: Scalar, N: KernelNumerics<R>>(
    o: &N,
    factor: RoughBergomi<R>,
    grid: &Vec<R>,
) -> (v: Vec<Vec<R>>)
    ensures
        rows_seen(v@) == Seq::new(
            grid@.len(),
            |i: int| o.volterra_row_of(factor, grid@, i as usize),
        ),
        forall|i: int| 0 < i < grid@.len() ==> (#[trigger] v@[i])@.len() == i - 1,
        v@.len() == grid@.len(),
{
    let mut v: Vec<Vec<R>> = Vec::new();
    let mut i: usize = 0;
    while i < grid.len()
        invariant
            i <= grid@.len(),
            v@.len() == i,
            forall|k: int|
                0 <= k < i ==> (#[trigger] v@[k])@ == o.volterra_row_of(factor, grid@, k as usize),
            forall|k: int| 0 < k < i ==> (#[trigger] v@[k])@.len() == k - 1,
        decreases grid@.len() - i,
    {
        let row = o.volterra_row(factor, grid, i);
        v.push(row);
        i = i + 1;
    }
    assert(rows_seen(v@) =~= Seq::new(
        grid@.len(),
        |i: int| o.volterra_row_of(factor, grid@, i as usize),
    ));
    v
}

/// Two sets of normals agree on the first `n` steps.
pub open spec fn steps_agree<R>(z: Seq<R>, w: Seq<R>, n: int) -> bool {
    &&& 4 * n <= z.len()
    &&& 4 * n <= w.len()
    &&& forall|i: int| 0 <= i < 4 * n ==> #[trigger] z[i] == w[i]
}

/// The driver at a node depends on the normals of the steps before it alone.
pub proof fn driver_does_not_look_ahead<R: Scalar>(
    m: Model<R>,
    k: RoughKernelView<R>,
    z: Seq<R>,
    w: Seq<R>,
    node: int,
)
    requires
        0 <= node,
        steps_agree(z, w, node),
    ensures
        driver_of(m, k, z, node) == driver_of(m, k, w, node),
{
    if node > 0 {
        assert forall|j: int| 0 <= j < node implies increment_of(k, z, j) == increment_of(k, w, j)
            && near_of(k, z, j) == near_of(k, w, j) by {
            assert(chunk(z, 4, j) =~= chunk(w, 4, j));
        }
        assert(history(k, z, node) =~= history(k, w, node));
    }
}

} // verus!
