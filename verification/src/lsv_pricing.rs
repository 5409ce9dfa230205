//! Pricing under a calibrated leverage model, and the risk of its calibration target.

use crate::engine::{EngineConfig, VarianceReduction};
use crate::errors::{unsupported_risk, LsvError, MonteCarloError};
use crate::estimation::mean_of;
use crate::extension::{begins, rows_extend, statistics_extend, tables_extend};
use crate::hybrid_aad::{blocks_bridged, bridge_blocks};
use crate::linear::{collect, viewed};
use crate::lsv_model::{prices_alike, LsvModel, LsvPriceModel};
use crate::models::Fingerprint;
use crate::pathwise::make_zeros;
use crate::plan::{engine_paths, engine_units};
use crate::results::{gather, gather_failure, gather_values, opt_seen, seen};
use crate::sampling::{apply_sign, half, signed, zeros, Backend, Statistics};
use crate::scalar::{lawful, literal, negated, plus, times, Math, Model, Scalar};
use crate::target_grid::{gather_adjoints, spread, TargetGrid};
use crate::target_risk::{
    error_or, run_target, scramble_target, take_error_or, target_outcome, MeanReverse,
};
use crate::units::{
    column, covers, scramble_row, statistics_of, summarise, table_of, tabulate, Rows, UnitSampler,
};
use core::ops::Neg;
use vstd::prelude::*;

verus! {

/// How the paths of a plan are shared out.
#[derive(Clone, Copy, Debug, PartialEq, Eq)]
pub struct ExecutionPolicy {
    pub worker_count: usize,
    pub chunk_size: Option<usize>,
}

/// A price. Its uncertainty is that of the pricing, given the calibration.
#[derive(Clone, Copy, Debug, PartialEq)]
pub struct LsvPrice<R> {
    pub value: R,
    pub standard_error: R,
    pub independent_sampling_units: u64,
    pub evaluated_paths: u128,
    pub calibration_seed: u64,
    pub plan_fingerprint: Fingerprint,
    pub scheme: &'static str,
}

/// The derivatives with respect to the local variances of the target, the calibration
/// included.
pub struct LsvLocalVarianceRisk<R> {
    pub price: LsvPrice<R>,
    pub time_nodes: Vec<R>,
    pub log_moneyness_nodes: Vec<R>,
    pub node_adjoints: Vec<R>,
    /// The errors of the scrambles, where there are some.
    pub standard_errors: Option<Vec<R>>,
    pub method: &'static str,
}

/// An [`LsvLocalVarianceRisk`] as a mathematical value.
pub ghost struct LsvLocalVarianceRiskView<R> {
    pub price: LsvPrice<R>,
    pub time_nodes: Seq<R>,
    pub log_moneyness_nodes: Seq<R>,
    pub node_adjoints: Seq<R>,
    pub standard_errors: Option<Seq<R>>,
    pub method: &'static str,
}

impl<R> View for LsvLocalVarianceRisk<R> {
    type V = LsvLocalVarianceRiskView<R>;

    open spec fn view(&self) -> LsvLocalVarianceRiskView<R> {
        LsvLocalVarianceRiskView {
            price: self.price,
            time_nodes: self.time_nodes@,
            log_moneyness_nodes: self.log_moneyness_nodes@,
            node_adjoints: self.node_adjoints@,
            standard_errors: opt_seen(self.standard_errors),
            method: self.method,
        }
    }
}

/// A compiled plan: a calibrated model and the target it was calibrated to.
pub struct LsvPricingCore<C, G> {
    pub calibration: C,
    pub original_target: G,
    pub engine: EngineConfig,
    pub policy: ExecutionPolicy,
    /// The failure of the executor, if it could not be made.
    pub executor_failure: Option<MonteCarloError>,
    /// The failure of the quasi-random plan, if it could not be made.
    pub quasi_failure: Option<MonteCarloError>,
    /// The failure of the Brownian bridge, if it could not be made.
    pub bridge_failure: Option<MonteCarloError>,
    /// Whether the payoff has pathwise derivatives, by itself or by smoothing.
    pub risk_supported: bool,
    pub fingerprint: Fingerprint,
    /// The name of the reversal of the calibration.
    pub reverse_method: &'static str,
}

/// `a` with the entries of `b`, weighted, added to its first ones.
pub open spec fn weighted_onto<R: Scalar>(a: Seq<R>, b: Seq<R>, weight: R) -> Seq<R> {
    Seq::new(
        a.len(),
        |i: int|
            if i < b.len() {
                plus(a[i], times(weight, b[i]))
            } else {
                a[i]
            },
    )
}

/// What a path of a model adds to the quantities at a weight, out of its shocks, its
/// number and the quantities so far.
pub type Observed<R> = spec_fn(R, Seq<R>, u64, Seq<R>) -> Result<Seq<R>, MonteCarloError>;

/// A path that adds its weighted payoff.
pub open spec fn price_observed<R: Scalar, C: LsvPriceModel<R>>(c: C) -> Observed<R> {
    |weight: R, shocks: Seq<R>, path: u64, out: Seq<R>|
        match c.states_of(c.initial_f_of(), shocks) {
            Err(e) => Err(e),
            Ok(states) => match c.lsv_payoff_of(states, path, false) {
                Err(e) => Err(e),
                Ok((price, _)) => Ok(out.update(0, plus(out[0], times(weight, price)))),
            },
        }
}

/// A path that adds its weighted payoff, and where the payoff has derivatives, those with
/// respect to the leverage surface.
pub open spec fn risk_observed<R: Scalar, C: LsvModel<R>>(c: C) -> Observed<R> {
    |weight: R, shocks: Seq<R>, path: u64, out: Seq<R>|
        match c.recorded(c.initial_f_of(), shocks) {
            Err(e) => Err(e),
            Ok(record) => match c.lsv_payoff_of(c.recorded_states(record), path, true) {
                Err(e) => Err(e),
                Ok((price, None)) => Ok(out.update(0, plus(out[0], times(weight, price)))),
                Ok((price, Some(seeds))) => match c.leverage_adjoints_of(record, seeds) {
                    Err(e) => Err(e),
                    Ok(adjoints) => Ok(
                        seq![plus(out[0], times(weight, price))] + weighted_onto(
                            out.skip(1),
                            adjoints,
                            weight,
                        ),
                    ),
                },
            },
        }
}

/// Adds the entries of `b`, weighted, to the entries of `a` behind the first.
fn add_weighted<R: Scalar, M: Math<R>>(m: &M, a: &mut Vec<R>, b: &Vec<R>, weight: R)
    requires
        old(a)@.len() >= 1,
    ensures
        final(a)@ == seq![old(a)@[0]] + weighted_onto(old(a)@.skip(1), b@, weight),
{
    m.laws();
    let ghost start = a@;
    let mut i: usize = 0;
    while i < a.len() - 1 && i < b.len()
        invariant
            lawful::<R>(),
            a@.len() == start.len(),
            a@.len() >= 1,
            i <= a@.len() - 1,
            i <= b@.len(),
            a@[0] == start[0],
            forall|k: int|
                0 <= k < i ==> #[trigger] a@[k + 1] == plus(start[k + 1], times(weight, b@[k])),
            forall|k: int| i < k < start.len() ==> #[trigger] a@[k] == start[k],
        decreases a@.len() - i,
    {
        let value = a[i + 1] + weight * b[i];
        a.set(i + 1, value);
        i = i + 1;
    }
    proof {
        let want = seq![start[0]] + weighted_onto(start.skip(1), b@, weight);
        assert forall|k: int| 0 <= k < a@.len() implies a@[k] == want[k] by {
            if k > 0 {
                let j = k - 1;
                assert(a@[j + 1] == want[j + 1]);
            }
        }
        assert(a@ =~= want);
    }
}

/// What a simulation takes from its paths.
trait Evaluation<R: Scalar, M: Math<R>> {
    type Model: LsvPriceModel<R>;

    spec fn model_of(&self) -> Self::Model;

    spec fn observed_of(&self) -> Observed<R>;

    /// The model.
    fn model(&self) -> (c: &Self::Model)
        ensures
            *c == self.model_of(),
    ;

    /// Computes [`Self::observed_of`].
    fn observe(&self, m: &M, weight: R, shocks: &Vec<R>, path: u64, out: Vec<R>) -> (r: Result<
        Vec<R>,
        MonteCarloError,
    >)
        requires
            out@.len() >= 1,
        ensures
            seen(r) == (self.observed_of())(weight, shocks@, path, out@),
            r matches Ok(v) ==> v@.len() == out@.len(),
    ;
}

/// The payoff alone.
struct PriceOnly<'a, R: Scalar, C: LsvPriceModel<R>> {
    c: &'a C,
    number: Ghost<R>,
}

impl<'a, R: Scalar, M: Math<R>, C: LsvPriceModel<R>> Evaluation<R, M> for PriceOnly<'a, R, C> {
    type Model = C;

    closed spec fn model_of(&self) -> C {
        *self.c
    }

    closed spec fn observed_of(&self) -> Observed<R> {
        price_observed(*self.c)
    }

    fn model(&self) -> (c: &C) {
        self.c
    }

    fn observe(&self, m: &M, weight: R, shocks: &Vec<R>, path: u64, out: Vec<R>) -> (r: Result<
        Vec<R>,
        MonteCarloError,
    >) {
        m.laws();
        let mut row = out;
        let states = match self.c.evolve_states(self.c.initial_f(), shocks) {
            Err(e) => return Err(e),
            Ok(s) => s,
        };
        match self.c.lsv_payoff(&states, path, false) {
            Err(e) => Err(e),
            Ok((price, _)) => {
                let value = row[0] + weight * price;
                row.set(0, value);
                Ok(row)
            },
        }
    }
}

/// The payoff with its derivatives, for a model that is calibrated anew.
struct Recalibrated<'a, R: Scalar, C: LsvModel<R>> {
    c: &'a C,
    number: Ghost<R>,
}

impl<'a, R: Scalar, M: Math<R>, C: LsvModel<R>> Evaluation<R, M> for Recalibrated<'a, R, C> {
    type Model = C;

    closed spec fn model_of(&self) -> C {
        *self.c
    }

    closed spec fn observed_of(&self) -> Observed<R> {
        risk_observed(*self.c)
    }

    fn model(&self) -> (c: &C) {
        self.c
    }

    fn observe(&self, m: &M, weight: R, shocks: &Vec<R>, path: u64, out: Vec<R>) -> (r: Result<
        Vec<R>,
        MonteCarloError,
    >) {
        m.laws();
        let mut row = out;
        let record = match self.c.evolve_path(self.c.initial_f(), shocks) {
            Err(e) => return Err(e),
            Ok(p) => p,
        };
        let states = self.c.path_states(&record);
        match self.c.lsv_payoff(&states, path, true) {
            Err(e) => Err(e),
            Ok((price, None)) => {
                let value = row[0] + weight * price;
                row.set(0, value);
                Ok(row)
            },
            Ok((price, Some(seeds))) => {
                let value = row[0] + weight * price;
                row.set(0, value);
                let adjoints = match self.c.leverage_adjoints(&record, &seeds) {
                    Err(e) => return Err(e),
                    Ok(a) => a,
                };
                assert(row@.skip(1) =~= out@.skip(1));
                add_weighted(m, &mut row, &adjoints, weight);
                Ok(row)
            },
        }
    }
}

/// The quantities of one draw: of its path, or half of those of its path and its mirror
/// image each.
pub open spec fn lsv_sampled<R: Scalar>(
    observed: Observed<R>,
    antithetic: bool,
    z: Seq<R>,
    path: u64,
    width: nat,
) -> Result<Seq<R>, MonteCarloError> {
    let one = literal::<R>(1);
    if antithetic {
        match observed(half(), signed(z, one), path, zeros(width)) {
            Err(e) => Err(e),
            Ok(out) => observed(half(), signed(z, negated(one)), path, out),
        }
    } else {
        observed(one, signed(z, one), path, zeros(width))
    }
}

fn sample_lsv<R: Scalar, M: Math<R>, E: Evaluation<R, M>>(
    m: &M,
    e: &E,
    antithetic: bool,
    z: &Vec<R>,
    path: u64,
    width: usize,
) -> (r: Result<Vec<R>, MonteCarloError>)
    requires
        width >= 1,
    ensures
        seen(r) == lsv_sampled(e.observed_of(), antithetic, z@, path, width as nat),
        r matches Ok(v) ==> v@.len() == width,
{
    m.laws();
    let one = R::from(1u32);
    let start = make_zeros(m, width);
    let shocks = apply_sign(m, z, one);
    if !antithetic {
        return e.observe(m, one, &shocks, path, start);
    }
    let weight = one / R::from(2u32);
    let first = match e.observe(m, weight, &shocks, path, start) {
        Err(e) => return Err(e),
        Ok(v) => v,
    };
    let mirrored = apply_sign(m, z, one.neg());
    e.observe(m, weight, &mirrored, path, first)
}

/// The failure that names the entry `index` of an input.
pub open spec fn lsv_field(field: &'static str, index: usize) -> MonteCarloError {
    MonteCarloError::Lsv(LsvError::InvalidInput { field, index })
}

/// The standard normal of a scrambled point in a dimension.
pub open spec fn lsv_normal<R: Scalar, B: Backend<R>>(b: B, scramble: u32, point: u64) -> spec_fn(
    int,
) -> Result<R, MonteCarloError> {
    |d: int|
        match b.uniform_at(scramble, point, d as u32) {
            None => Err(lsv_field("rqmc_coordinate", d as usize)),
            Some(u) => match b.inverse_at(u) {
                None => Err(lsv_field("rqmc_normal", d as usize)),
                Some(z) => Ok(z),
            },
        }
}

fn draw_lsv<R: Scalar, B: Backend<R>>(b: &B, scramble: u32, point: u64, dimension: u32) -> (r:
    Result<Vec<R>, MonteCarloError>)
    ensures
        seen(r) == gather(dimension as nat, lsv_normal(*b, scramble, point)),
{
    let ghost f = lsv_normal(*b, scramble, point);
    let n: usize = dimension as usize;
    let f_at = |d: usize| -> (x: Result<R, MonteCarloError>)
        requires
            d < n,
        ensures
            x == f(d as int),
        {
            match b.uniform(scramble, point, d as u32) {
                None => Err(
                    MonteCarloError::Lsv(
                        LsvError::InvalidInput { field: "rqmc_coordinate", index: d },
                    ),
                ),
                Some(u) => match b.inverse_normal(u) {
                    None => Err(
                        MonteCarloError::Lsv(
                            LsvError::InvalidInput { field: "rqmc_normal", index: d },
                        ),
                    ),
                    Some(z) => Ok(z),
                },
            }
        };
    collect(
        n,
        f_at,
        Ghost(f),
    )
}

/// The draws of a path after the bridge, where it is requested. It takes the draws of
/// each factor on their own, block after block.
pub open spec fn lsv_bridged<R: Scalar, B: Backend<R>>(
    b: B,
    steps: usize,
    bridge: bool,
    z: Seq<R>,
) -> Result<Seq<R>, MonteCarloError> {
    if bridge {
        blocks_bridged(b, z, steps as int, z.len() / steps as nat)
    } else {
        Ok(z)
    }
}

/// The quantities of the draws of a path.
pub open spec fn lsv_drawn<R: Scalar, B: Backend<R>>(
    b: B,
    steps: usize,
    observed: Observed<R>,
    reduction: VarianceReduction,
    drawn: Result<Seq<R>, MonteCarloError>,
    path: u64,
    width: nat,
) -> Result<Seq<R>, MonteCarloError> {
    match drawn {
        Err(e) => Err(e),
        Ok(z) => match lsv_bridged(b, steps, reduction.brownian_bridge, z) {
            Err(e) => Err(e),
            Ok(z) => lsv_sampled(observed, reduction.antithetic, z, path, width),
        },
    }
}

/// The dimension of a quasi-random draw.
pub open spec fn lsv_dimension<R: Scalar, C: LsvPriceModel<R>>(c: C) -> int {
    c.random_blocks_of() * c.step_count_of()
}

/// The rows of a simulation. The points of a scramble are numbered on from those of the
/// scrambles before it.
pub open spec fn lsv_rows<R: Scalar, B: Backend<R>, C: LsvPriceModel<R>>(
    b: B,
    c: C,
    engine: EngineConfig,
    observed: Observed<R>,
    width: nat,
) -> Rows<R> {
    let reduction = engine.reduction();
    Rows {
        width,
        unit: |p: int|
            lsv_drawn(
                b,
                c.step_count_of(),
                observed,
                reduction,
                c.pseudo_shocks_of(engine.seed(), p as u64),
                p as u64,
                width,
            ),
        point: |scramble: u32, p: int|
            lsv_drawn(
                b,
                c.step_count_of(),
                observed,
                reduction,
                gather(lsv_dimension(c) as nat, lsv_normal(b, scramble, p as u64)),
                (scramble * engine.points() + p) as u64,
                width,
            ),
    }
}

/// The rows of a price.
pub open spec fn price_rows<R: Scalar, B: Backend<R>, C: LsvPriceModel<R>>(
    b: B,
    c: C,
    engine: EngineConfig,
) -> Rows<R> {
    lsv_rows(b, c, engine, price_observed(c), 1)
}

/// The rows of a price with the derivatives with respect to the leverage surface.
pub open spec fn risk_rows<R: Scalar, B: Backend<R>, C: LsvModel<R>>(
    b: B,
    c: C,
    engine: EngineConfig,
) -> Rows<R> {
    lsv_rows(b, c, engine, risk_observed(c), 1 + c.squared_leverage_of().len())
}

struct LsvSampler<'a, R: Scalar, M: Math<R>, B: Backend<R>, E: Evaluation<R, M>> {
    m: &'a M,
    b: &'a B,
    e: E,
    engine: EngineConfig,
    reduction: VarianceReduction,
    seed: u64,
    points: u64,
    dimension: u32,
    width: usize,
    number: Ghost<R>,
}

impl<'a, R: Scalar, M: Math<R>, B: Backend<R>, E: Evaluation<R, M>> LsvSampler<'a, R, M, B, E> {
    #[verifier::type_invariant]
    spec fn inv(self) -> bool {
        &&& self.reduction == self.engine.reduction()
        &&& self.seed == self.engine.seed()
        &&& self.points == self.engine.points()
        &&& self.engine is RandomizedQuasiMonteCarlo ==> self.dimension == lsv_dimension(
            self.e.model_of(),
        )
        &&& self.width >= 1
        &&& self.reduction.brownian_bridge ==> self.e.model_of().step_count_of() > 0
    }

    fn sample(&self, z: Vec<R>, path: u64) -> (r: Result<Vec<R>, MonteCarloError>)
        ensures
            seen(r) == lsv_drawn(
                *self.b,
                self.e.model_of().step_count_of(),
                self.e.observed_of(),
                self.reduction,
                Ok(z@),
                path,
                self.width as nat,
            ),
            r matches Ok(v) ==> v@.len() == self.width,
    {
        proof {
            use_type_invariant(self);
        }
        let moved = if self.reduction.brownian_bridge {
            match bridge_blocks(self.b, &z, self.e.model().step_count()) {
                Err(e) => return Err(e),
                Ok(v) => v,
            }
        } else {
            z
        };
        sample_lsv(self.m, &self.e, self.reduction.antithetic, &moved, path, self.width)
    }
}

impl<'a, R: Scalar, M: Math<R>, B: Backend<R>, E: Evaluation<R, M>> UnitSampler<R> for LsvSampler<
    'a,
    R,
    M,
    B,
    E,
> {
    closed spec fn rows(&self) -> Rows<R> {
        lsv_rows(
            *self.b,
            self.e.model_of(),
            self.engine,
            self.e.observed_of(),
            self.width as nat,
        )
    }

    open spec fn unit_exists(&self, unit: u64) -> bool {
        true
    }

    closed spec fn point_exists(&self, scramble: u32, point: u64) -> bool {
        self.engine is RandomizedQuasiMonteCarlo && scramble * self.points + point <= u64::MAX
    }

    fn sample_unit(&self, unit: u64) -> (r: Result<Vec<R>, MonteCarloError>) {
        proof {
            use_type_invariant(self);
        }
        let z = match self.e.model().pseudo_shocks(self.seed, unit) {
            Err(e) => return Err(e),
            Ok(z) => z,
        };
        self.sample(z, unit)
    }

    fn sample_point(&self, scramble: u32, point: u64) -> (r: Result<Vec<R>, MonteCarloError>) {
        proof {
            use_type_invariant(self);
        }
        let z = match draw_lsv(self.b, scramble, point, self.dimension) {
            Err(e) => return Err(e),
            Ok(z) => z,
        };
        proof {
            let (s, n) = (scramble as int, self.points as int);
            assert(s * n >= 0) by (nonlinear_arith)
                requires
                    s >= 0,
                    n >= 0,
            ;
        }
        let path: u64 = (scramble as u64) * self.points + point;
        self.sample(z, path)
    }
}

/// The derivatives of the target out of those of the leverage surface: through the
/// calibration, then from the refined times back to those of the target.
pub open spec fn lsv_reverse<R: Scalar, C: LsvModel<R>, G: TargetGrid<R>>(c: C, g: G) -> spec_fn(
    Seq<R>,
) -> Result<Seq<R>, MonteCarloError> {
    |leverage: Seq<R>|
        match c.reversed_leverage(leverage) {
            Err(e) => Err(e),
            Ok(refined) => spread(g, c.refined_times_of(), refined, refined.len()),
        }
}

/// The reversal of the calibration is that of the target, and both can be counted.
pub open spec fn lsv_fits<R: Scalar, C: LsvModel<R>, G: TargetGrid<R>>(c: C, g: G) -> bool {
    &&& c.squared_leverage_of().len() < usize::MAX
    &&& g.values_of().len() < usize::MAX
    &&& forall|a: Seq<R>|
        #[trigger] c.reversed_leverage(a) matches Ok(refined) ==> refined.len()
            == c.refined_times_of().len() * g.log_moneyness_nodes_of().len()
}

struct LsvReverse<'a, R: Scalar, M: Math<R>, C: LsvModel<R>, G: TargetGrid<R>> {
    m: &'a M,
    c: &'a C,
    g: &'a G,
    number: Ghost<R>,
}

impl<'a, R: Scalar, M: Math<R>, C: LsvModel<R>, G: TargetGrid<R>> LsvReverse<'a, R, M, C, G> {
    #[verifier::type_invariant]
    spec fn inv(self) -> bool {
        lsv_fits(*self.c, *self.g)
    }
}

impl<'a, R: Scalar, M: Math<R>, C: LsvModel<R>, G: TargetGrid<R>> MeanReverse<R> for LsvReverse<
    'a,
    R,
    M,
    C,
    G,
> {
    closed spec fn reverse_of(&self) -> spec_fn(Seq<R>) -> Result<Seq<R>, MonteCarloError> {
        lsv_reverse(*self.c, *self.g)
    }

    closed spec fn size(&self) -> nat {
        self.g.values_of().len()
    }

    fn reverse(&self, mean: &Vec<R>) -> (r: Result<Vec<R>, MonteCarloError>) {
        proof {
            use_type_invariant(self);
        }
        match self.c.reverse_leverage(mean) {
            Err(e) => Err(e),
            Ok(refined) => {
                let grid = self.c.refined_times();
                gather_adjoints(self.m, self.g, &grid, &refined)
            },
        }
    }
}

/// Why a plan cannot be run: its executor, the dimension of a quasi-random draw, the
/// quasi-random plan, the bridge.
pub open spec fn lsv_refusal<R: Scalar, C: LsvPriceModel<R>, G>(p: LsvPricingCore<C, G>) -> Option<
    MonteCarloError,
> {
    if p.executor_failure is Some {
        p.executor_failure
    } else if p.engine is RandomizedQuasiMonteCarlo && lsv_dimension(p.calibration) > u32::MAX {
        Some(lsv_field("random_dimension", 0))
    } else if p.engine is RandomizedQuasiMonteCarlo && p.quasi_failure is Some {
        p.quasi_failure
    } else if p.engine.reduction().brownian_bridge {
        p.bridge_failure
    } else {
        None
    }
}

/// The price out of its statistics.
pub open spec fn lsv_price<R: Scalar, C: LsvPriceModel<R>, G>(
    m: Model<R>,
    p: LsvPricingCore<C, G>,
    s: Statistics<R>,
) -> Result<LsvPrice<R>, MonteCarloError> {
    let units = p.engine.units();
    match error_or(m, s, units, lsv_field("estimator_standard_error", 0)) {
        Err(e) => Err(e),
        Ok(standard_error) => Ok(
            LsvPrice {
                value: mean_of(m, s, units),
                standard_error,
                independent_sampling_units: units,
                evaluated_paths: p.engine.paths() as u128,
                calibration_seed: p.calibration.particles_of().seed,
                plan_fingerprint: p.fingerprint,
                scheme: p.calibration.scheme_of(),
            },
        ),
    }
}

/// The price of a plan.
pub open spec fn lsv_evaluated<R: Scalar, B: Backend<R>, C: LsvPriceModel<R>, G>(
    m: Model<R>,
    b: B,
    p: LsvPricingCore<C, G>,
) -> Result<LsvPrice<R>, MonteCarloError> {
    match lsv_refusal::<R, C, G>(p) {
        Some(e) => Err(e),
        None => match table_of(m, b, price_rows(b, p.calibration, p.engine), p.engine, false) {
            Err(e) => Err(e),
            Ok(table) => lsv_price(m, p, statistics_of(b, p.engine, false, table, 1)[0]),
        },
    }
}

/// The local-variance risk of a plan: a payoff with derivatives, a trace to reverse,
/// then the simulation.
pub open spec fn lsv_local_variance<
    R: Scalar,
    B: Backend<R>,
    C: LsvModel<R>,
    G: TargetGrid<R>,
>(m: Model<R>, b: B, p: LsvPricingCore<C, G>) -> Result<
    LsvLocalVarianceRiskView<R>,
    MonteCarloError,
> {
    if !p.risk_supported {
        Err(unsupported_risk("LSV discontinuous payoff requires explicit smoothing"))
    } else if !p.calibration.particles_of().retain_reverse_trace {
        Err(MonteCarloError::Lsv(LsvError::ReverseTraceNotRetained))
    } else {
        match lsv_refusal::<R, C, G>(p) {
            Some(e) => Err(e),
            None => match target_outcome(
                m,
                b,
                risk_rows(b, p.calibration, p.engine),
                p.engine,
                lsv_reverse(p.calibration, p.original_target),
                p.original_target.values_of().len(),
                lsv_field("estimator_standard_error", 0),
            ) {
                Err(e) => Err(e),
                Ok(o) => match lsv_price(m, p, o.price) {
                    Err(e) => Err(e),
                    Ok(price) => Ok(
                        LsvLocalVarianceRiskView {
                            price,
                            time_nodes: p.original_target.time_nodes_of(),
                            log_moneyness_nodes: p.original_target.log_moneyness_nodes_of(),
                            node_adjoints: o.derivatives,
                            standard_errors: o.standard_errors,
                            method: p.reverse_method,
                        },
                    ),
                },
            },
        }
    }
}

impl<C, G> LsvPricingCore<C, G> {
    /// The plan can be priced: it has sampling units, its paths can be numbered and its
    /// draws counted.
    pub open spec fn priceable<R: Scalar>(self) -> bool where C: LsvPriceModel<R> {
        &&& lsv_dimension::<R, C>(self.calibration) <= usize::MAX
        &&& self.engine.units() > 0
        &&& self.engine.units() * self.engine.points() <= u64::MAX
        &&& self.engine.reduction().brownian_bridge ==> self.calibration.step_count_of() > 0
    }

    /// The plan can be priced, and its calibration reversed to its target.
    pub open spec fn valid<R: Scalar>(self) -> bool where C: LsvModel<R>, G: TargetGrid<R> {
        &&& self.priceable::<R>()
        &&& lsv_fits::<R, C, G>(self.calibration, self.original_target)
    }

    fn check<R: Scalar>(&self) -> (e: Option<MonteCarloError>) where C: LsvPriceModel<R>
        requires
            self.priceable::<R>(),
        ensures
            e == lsv_refusal::<R, C, G>(*self),
    {
        if self.executor_failure.is_some() {
            return self.executor_failure;
        }
        let reduction = match self.engine {
            EngineConfig::PseudoMonteCarlo(c) => c.variance_reduction,
            EngineConfig::RandomizedQuasiMonteCarlo(c) => {
                let (blocks, steps) = (
                    self.calibration.random_blocks(),
                    self.calibration.step_count(),
                );
                let dimension: usize = blocks * steps;
                if dimension as u64 > u32::MAX as u64 {
                    return Some(
                        MonteCarloError::Lsv(
                            LsvError::InvalidInput { field: "random_dimension", index: 0 },
                        ),
                    );
                }
                if self.quasi_failure.is_some() {
                    return self.quasi_failure;
                }
                c.variance_reduction
            },
        };
        if reduction.brownian_bridge {
            self.bridge_failure
        } else {
            None
        }
    }

    fn price<R: Scalar, M: Math<R>>(&self, m: &M, s: Statistics<R>) -> (r: Result<
        LsvPrice<R>,
        MonteCarloError,
    >) where C: LsvPriceModel<R>
        ensures
            r == lsv_price(m.model(), *self, s),
    {
        m.laws();
        let units = engine_units(&self.engine);
        match take_error_or(
            m,
            s,
            units,
            MonteCarloError::Lsv(
                LsvError::InvalidInput { field: "estimator_standard_error", index: 0 },
            ),
        ) {
            Err(e) => Err(e),
            Ok(standard_error) => Ok(
                LsvPrice {
                    value: s.total / m.of(units),
                    standard_error,
                    independent_sampling_units: units,
                    evaluated_paths: engine_paths(&self.engine),
                    calibration_seed: self.calibration.particles().seed,
                    plan_fingerprint: self.fingerprint,
                    scheme: self.calibration.scheme(),
                },
            ),
        }
    }

    fn sampler<'a, R: Scalar, M: Math<R>, B: Backend<R>, E: Evaluation<R, M, Model = C>>(
        &'a self,
        m: &'a M,
        b: &'a B,
        e: E,
        width: usize,
    ) -> (s: LsvSampler<'a, R, M, B, E>) where C: LsvPriceModel<R>
        requires
            self.priceable::<R>(),
            lsv_refusal::<R, C, G>(*self) is None,
            e.model_of() == self.calibration,
            width >= 1,
        ensures
            s.rows() == lsv_rows(
                *b,
                self.calibration,
                self.engine,
                e.observed_of(),
                width as nat,
            ),
            covers(s, self.engine),
    {
        let (reduction, seed, points) = match self.engine {
            EngineConfig::PseudoMonteCarlo(c) => (c.variance_reduction, c.master_seed, 1u64),
            EngineConfig::RandomizedQuasiMonteCarlo(c) => (
                c.variance_reduction,
                c.master_seed,
                c.points_per_scramble,
            ),
        };
        let (blocks, steps) = (self.calibration.random_blocks(), self.calibration.step_count());
        let dimension: usize = blocks * steps;
        let s = LsvSampler {
            m,
            b,
            e,
            engine: self.engine,
            reduction,
            seed,
            points,
            dimension: dimension as u32,
            width,
            number: Ghost(arbitrary()),
        };
        proof {
            if let EngineConfig::RandomizedQuasiMonteCarlo(c) = self.engine {
                assert forall|scramble: u32, point: u64|
                    scramble < c.scramble_count && point
                        < c.points_per_scramble implies #[trigger] s.point_exists(
                            scramble,
                            point,
                        ) by {
                    let (a, n, u) = (scramble as int, points as int, c.scramble_count as int);
                    assert(a * n + n <= u * n) by (nonlinear_arith)
                        requires
                            0 <= a < u,
                            0 <= n,
                    ;
                }
            }
        }
        s
    }

    /// Prices the plan.
    pub fn evaluate<R: Scalar, M: Math<R>, B: Backend<R>>(&self, m: &M, b: &B) -> (r: Result<
        LsvPrice<R>,
        MonteCarloError,
    >) where C: LsvPriceModel<R>
        requires
            self.priceable::<R>(),
        ensures
            r == lsv_evaluated(m.model(), *b, *self),
    {
        if let Some(e) = self.check() {
            return Err(e);
        }
        let e = PriceOnly { c: &self.calibration, number: Ghost(arbitrary()) };
        let s = self.sampler(m, b, e, 1);
        let table = match tabulate(m, b, &s, &self.engine, false, 1) {
            Err(e) => return Err(e),
            Ok(t) => t,
        };
        let statistics = summarise(b, &self.engine, false, &table, 1, 1);
        self.price(m, statistics[0])
    }

    /// The derivatives with respect to the local variances that were calibrated to. The
    /// calibration moves with them.
    pub fn evaluate_local_variance_risk<R: Scalar, M: Math<R>, B: Backend<R>>(
        &self,
        m: &M,
        b: &B,
    ) -> (r: Result<LsvLocalVarianceRisk<R>, MonteCarloError>) where
        C: LsvModel<R>,
        G: TargetGrid<R>,

        requires
            self.valid::<R>(),
        ensures
            viewed(r) == lsv_local_variance(m.model(), *b, *self),
            r matches Ok(risk) ==> risk@.node_adjoints.len()
                == self.original_target.values_of().len(),
    {
        if !self.risk_supported {
            return Err(
                MonteCarloError::UnsupportedRiskForModel {
                    model: "LSV discontinuous payoff requires explicit smoothing",
                },
            );
        }
        if !self.calibration.particles().retain_reverse_trace {
            return Err(MonteCarloError::Lsv(LsvError::ReverseTraceNotRetained));
        }
        if let Some(e) = self.check() {
            return Err(e);
        }
        let width: usize = 1 + self.calibration.squared_leverage().len();
        let e = Recalibrated { c: &self.calibration, number: Ghost(arbitrary()) };
        let s = self.sampler(m, b, e, width);
        let reverse = LsvReverse {
            m,
            c: &self.calibration,
            g: &self.original_target,
            number: Ghost(arbitrary()),
        };
        let o = match run_target(
            m,
            b,
            &s,
            &self.engine,
            width,
            &reverse,
            MonteCarloError::Lsv(
                LsvError::InvalidInput { field: "estimator_standard_error", index: 0 },
            ),
        ) {
            Err(e) => return Err(e),
            Ok(o) => o,
        };
        match self.price(m, o.price) {
            Err(e) => Err(e),
            Ok(price) => Ok(
                LsvLocalVarianceRisk {
                    price,
                    time_nodes: self.original_target.time_nodes(),
                    log_moneyness_nodes: self.original_target.log_moneyness_nodes(),
                    node_adjoints: o.derivatives,
                    standard_errors: o.standard_errors,
                    method: self.reverse_method,
                },
            ),
        }
    }
}

/// A recorded path has the states of the path, and a payoff is the same with its
/// derivatives and without.
pub open spec fn records_faithfully<R: Scalar, C: LsvModel<R>>(c: C) -> bool {
    &&& forall|initial: R, shocks: Seq<R>|
        #[trigger] c.recorded(initial, shocks) matches Ok(p) ==> c.states_of(initial, shocks)
            == Ok::<Seq<R>, MonteCarloError>(c.recorded_states(p))
    &&& forall|states: Seq<R>, path: u64|
        #[trigger] c.lsv_payoff_of(states, path, true) matches Ok((price, _)) ==> (
        c.lsv_payoff_of(states, path, false) matches Ok((same, _)) && same == price)
}

proof fn observed_begins<R: Scalar, C: LsvModel<R>>(
    c: C,
    weight: R,
    shocks: Seq<R>,
    path: u64,
    out: Seq<R>,
)
    requires
        records_faithfully(c),
        out.len() >= 1,
    ensures
        begins(
            price_observed(c)(weight, shocks, path, out.take(1)),
            risk_observed(c)(weight, shocks, path, out),
            1,
            out.len(),
        ),
{
    if let Ok(v) = risk_observed(c)(weight, shocks, path, out) {
        let record = c.recorded(c.initial_f_of(), shocks)->Ok_0;
        let states = c.recorded_states(record);
        assert(c.states_of(c.initial_f_of(), shocks) == Ok::<Seq<R>, MonteCarloError>(states));
        let price = c.lsv_payoff_of(states, path, true)->Ok_0.0;
        assert(c.lsv_payoff_of(states, path, false)->Ok_0.0 == price);
        let value = plus(out[0], times(weight, price));
        assert(out.take(1).update(0, value) =~= v.take(1));
    }
}

proof fn drawn_begins<R: Scalar, B: Backend<R>, C: LsvModel<R>>(
    b: B,
    c: C,
    reduction: VarianceReduction,
    drawn: Result<Seq<R>, MonteCarloError>,
    path: u64,
    width: nat,
)
    requires
        records_faithfully(c),
        width >= 1,
    ensures
        begins(
            lsv_drawn(b, c.step_count_of(), price_observed(c), reduction, drawn, path, 1),
            lsv_drawn(b, c.step_count_of(), risk_observed(c), reduction, drawn, path, width),
            1,
            width,
        ),
{
    if let Ok(z) = drawn {
        if let Ok(z) = lsv_bridged(b, c.step_count_of(), reduction.brownian_bridge, z) {
            let one = literal::<R>(1);
            let (up, down) = (signed(z, one), signed(z, negated(one)));
            assert(zeros::<R>(width).take(1) =~= zeros::<R>(1));
            observed_begins(c, one, up, path, zeros(width));
            observed_begins(c, half(), up, path, zeros(width));
            if let Ok(out) = risk_observed(c)(half(), up, path, zeros(width)) {
                observed_begins(c, half(), down, path, out);
            }
        }
    }
}

proof fn lsv_rows_extend<R: Scalar, B: Backend<R>, C: LsvModel<R>>(
    b: B,
    c: C,
    engine: EngineConfig,
)
    requires
        records_faithfully(c),
    ensures
        rows_extend(price_rows(b, c, engine), risk_rows(b, c, engine)),
{
    let (n, w) = (price_rows(b, c, engine), risk_rows(b, c, engine));
    let reduction = engine.reduction();
    assert forall|p: int| begins((n.unit)(p), #[trigger] (w.unit)(p), n.width, w.width) by {
        drawn_begins(
            b,
            c,
            reduction,
            c.pseudo_shocks_of(engine.seed(), p as u64),
            p as u64,
            w.width,
        );
    }
    assert forall|scramble: u32, p: int|
        begins((n.point)(scramble, p), #[trigger] (w.point)(scramble, p), n.width, w.width) by {
        drawn_begins(
            b,
            c,
            reduction,
            gather(lsv_dimension(c) as nat, lsv_normal(b, scramble, p as u64)),
            (scramble * engine.points() + p) as u64,
            w.width,
        );
    }
}

/// The price of a plan is the one that its local-variance risk reports.
pub proof fn risk_selection_preserves_price<
    R: Scalar,
    B: Backend<R>,
    C: LsvModel<R>,
    G: TargetGrid<R>,
>(m: Model<R>, b: B, p: LsvPricingCore<C, G>)
    requires
        records_faithfully::<R, C>(p.calibration),
    ensures
        lsv_local_variance(m, b, p) matches Ok(risk) ==> lsv_evaluated(m, b, p) == Ok::<
            LsvPrice<R>,
            MonteCarloError,
        >(risk.price),
{
    if let Ok(risk) = lsv_local_variance(m, b, p) {
        let c = p.calibration;
        let (n, w) = (price_rows(b, c, p.engine), risk_rows(b, c, p.engine));
        lsv_rows_extend(b, c, p.engine);
        tables_extend(m, b, n, w, p.engine);
        let reverse = lsv_reverse::<R, C, G>(c, p.original_target);
        match p.engine {
            EngineConfig::PseudoMonteCarlo(_) => {
                let t = table_of(m, b, w, p.engine, false)->Ok_0;
                let u = table_of(m, b, n, p.engine, false)->Ok_0;
                statistics_extend(b, p.engine, u, t, 1, w.width);
            },
            EngineConfig::RandomizedQuasiMonteCarlo(q) => {
                let f = scramble_target(m, b, w, q.points_per_scramble, reverse);
                let g = scramble_row(m, b, w, false, q.points_per_scramble);
                let count = q.scramble_count as nat;
                let table = gather(count, f)->Ok_0;
                gather_values(count, f);
                gather_failure(count, f);
                assert forall|i: int| 0 <= i < count implies (#[trigger] g(i)) is Ok by {
                    assert(f(i) is Ok);
                }
                gather_failure(count, g);
                gather_values(count, g);
                let t = gather(count, g)->Ok_0;
                let u = table_of(m, b, n, p.engine, false)->Ok_0;
                statistics_extend(b, p.engine, u, t, 1, w.width);
                assert forall|i: int| 0 <= i < count implies table[i][0] == t[i][0] by {
                    assert(f(i) == Ok::<Seq<R>, MonteCarloError>(table[i]));
                    assert(g(i) == Ok::<Seq<R>, MonteCarloError>(t[i]));
                }
                assert(column(table, 0) =~= column(t, 0));
            },
        }
    }
}

/// Plans that differ in no more than what their calibrations keep for a reversal, their
/// targets and their fingerprints have the same price, bit for bit, or the same failure.
pub proof fn plans_that_price_alike<
    R: Scalar,
    B: Backend<R>,
    C: LsvPriceModel<R>,
    D: LsvPriceModel<R>,
    G,
    H,
>(m: Model<R>, b: B, p: LsvPricingCore<C, G>, q: LsvPricingCore<D, H>)
    requires
        prices_alike::<R, C, D>(p.calibration, q.calibration),
        p.engine == q.engine,
        p.executor_failure == q.executor_failure,
        p.quasi_failure == q.quasi_failure,
        p.bridge_failure == q.bridge_failure,
    ensures
        lsv_evaluated(m, b, q) == (match lsv_evaluated(m, b, p) {
            Err(e) => Err::<LsvPrice<R>, MonteCarloError>(e),
            Ok(price) => Ok(LsvPrice { plan_fingerprint: q.fingerprint, ..price }),
        }),
{
    let (c, d) = (p.calibration, q.calibration);
    let (f, g) = (price_observed::<R, C>(c), price_observed::<R, D>(d));
    assert forall|weight: R, shocks: Seq<R>, path: u64, out: Seq<R>| #[trigger]
        f(weight, shocks, path, out) == g(weight, shocks, path, out) by {
        assert(c.states_of(c.initial_f_of(), shocks) == d.states_of(d.initial_f_of(), shocks));
        if let Ok(states) = c.states_of(c.initial_f_of(), shocks) {
            assert(c.lsv_payoff_of(states, path, false) == d.lsv_payoff_of(states, path, false));
        }
    }
    assert(f =~= g);
    let (x, y) = (price_rows(b, c, p.engine), price_rows(b, d, q.engine));
    assert forall|unit: int| #[trigger] (x.unit)(unit) == (y.unit)(unit) by {
        let seed = p.engine.seed();
        assert(c.pseudo_shocks_of(seed, unit as u64) == d.pseudo_shocks_of(seed, unit as u64));
    }
    assert(x.unit =~= y.unit);
    assert(x.point =~= y.point);
}

/// A payoff without derivatives is refused before a missing trace is.
pub proof fn unsupported_payoff_precedes_missing_trace<
    R: Scalar,
    B: Backend<R>,
    C: LsvModel<R>,
    G: TargetGrid<R>,
>(m: Model<R>, b: B, p: LsvPricingCore<C, G>)
    ensures
        !p.risk_supported ==> lsv_local_variance(m, b, p) == Err::<
            LsvLocalVarianceRiskView<R>,
            MonteCarloError,
        >(unsupported_risk("LSV discontinuous payoff requires explicit smoothing")),
        p.risk_supported && !p.calibration.particles_of().retain_reverse_trace
            ==> lsv_local_variance(m, b, p) == Err::<LsvLocalVarianceRiskView<R>, MonteCarloError>(
            MonteCarloError::Lsv(LsvError::ReverseTraceNotRetained),
        ),
{
}

} // verus!
