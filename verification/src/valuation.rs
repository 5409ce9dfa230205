//! The valuation of a plan: which simulation prices it, and what it returns.

use crate::engine::{EngineConfig, PseudoMonteCarlo, RandomizedQuasiMonteCarlo};
use crate::early_exercise::exercise_executed;
use crate::errors::MonteCarloError;
use crate::local_vol::{average_pair, paired_row, reflect, reflected};
use crate::local_vol_paths::LocalVolPaths;
use crate::local_vol_valuation::{local_vol_executed, runnable};
use crate::pathwise::{make_zeros, LocalVolPlan};
use crate::plan::{engine_paths, engine_units};
use crate::pricing::{
    describe_run, engine_estimator, estimator_of, make_price, price_variance, priced, reported,
    run_diagnostics, take_price_variance, MonteCarloPrice, PriceReport,
};
use crate::report::{
    diagnostics_of, estimate_from_statistics, estimate_of, extrapolation_warnings,
    extrapolation_warnings_of, fixed_risk_report, published, replay_of, risk_report_of, Estimate,
    Publication,
};
use crate::results::seen;
use crate::sampling::{
    draw_normals, draw_quasi_normals, path_normals, quasi_normals, zeros, Backend, Statistics,
};
use crate::scalar::{literal, same, Math, Model, Scalar};
use crate::simulation::{SimulationPlan, PATHWISE_COMPONENTS, PRICE};
use crate::spot_paths::{ExercisePolicies, SpotPaths};
use crate::units::{statistics_of, summarise, table_of, tabulate, Rows, UnitSampler};
use crate::vega_kt::VegaBuckets;
use vstd::prelude::*;

verus! {

/// The spot cannot move.
pub open spec fn still<R: Scalar>(plan: SimulationPlan<R>) -> bool {
    same(plan.total_variance, literal(0))
}

/// The normals of a draw: one for each observation, all zero where the spot
/// cannot move.
pub open spec fn plan_normals<R: Scalar, B: Backend<R>>(
    b: B,
    plan: SimulationPlan<R>,
    unit: u64,
) -> Seq<R> {
    if still(plan) {
        zeros(plan.observation_count as nat)
    } else {
        path_normals(b, unit, plan.observation_count as u32)
    }
}

/// The normals of a point of a scramble.
pub open spec fn plan_quasi_normals<R: Scalar, B: Backend<R>>(
    b: B,
    plan: SimulationPlan<R>,
    scramble: u32,
    point: u64,
) -> Result<Seq<R>, MonteCarloError> {
    if still(plan) {
        Ok(zeros(plan.observation_count as nat))
    } else {
        quasi_normals(b, scramble, point, plan.observation_count as u32)
    }
}

impl<R: Scalar> SimulationPlan<R> {
    /// Whether the spot cannot move.
    pub fn is_still<M: Math<R>>(&self, m: &M) -> (b: bool)
        ensures
            b == still(*self),
    {
        m.laws();
        self.total_variance == R::from(0u32)
    }

    /// Draws the normals of a path.
    pub fn normals<M: Math<R>, B: Backend<R>>(&self, m: &M, b: &B, unit: u64) -> (z: Vec<R>)
        requires
            still(*self) || self.observation_count <= u32::MAX,
        ensures
            z@ == plan_normals(*b, *self, unit),
    {
        if self.is_still(m) {
            make_zeros(m, self.observation_count)
        } else {
            draw_normals(b, unit, self.observation_count as u32)
        }
    }

    /// Draws the normals of a point of a scramble.
    pub fn rqmc_normals<M: Math<R>, B: Backend<R>>(
        &self,
        m: &M,
        b: &B,
        scramble: u32,
        point: u64,
    ) -> (r: Result<Vec<R>, MonteCarloError>)
        requires
            still(*self) || self.observation_count <= u32::MAX,
        ensures
            seen(r) == plan_quasi_normals(*b, *self, scramble, point),
    {
        if self.is_still(m) {
            Ok(make_zeros(m, self.observation_count))
        } else {
            draw_quasi_normals(b, scramble, point, self.observation_count as u32)
        }
    }
}

/// The quantities of one set of normals: price and risk where risk was asked
/// for, price and bridges of a continuously monitored barrier, or the price
/// alone.
pub open spec fn spot_row<R: Scalar, W: SpotPaths<R>>(
    w: W,
    plan: SimulationPlan<R>,
    normals: Seq<R>,
) -> Result<Seq<R>, MonteCarloError> {
    if plan.risk_requested() {
        w.pathwise_values_of(normals)
    } else if plan.continuous_barrier {
        w.barrier_values_of(normals)
    } else {
        match w.payoff_of(normals) {
            Err(e) => Err(e),
            Ok(price) => Ok(zeros(PATHWISE_COMPONENTS as nat).update(PRICE as int, price)),
        }
    }
}

/// The quantities of a draw and of its mate.
pub open spec fn spot_pair<R: Scalar, W: SpotPaths<R>>(
    w: W,
    plan: SimulationPlan<R>,
    antithetic: bool,
    normals: Result<Seq<R>, MonteCarloError>,
) -> Result<Seq<R>, MonteCarloError> {
    match normals {
        Err(e) => Err(e),
        Ok(z) => paired_row(antithetic, spot_row(w, plan, z), spot_row(w, plan, reflected(z))),
    }
}

/// The rows of a plan on an engine.
pub open spec fn spot_rows<R: Scalar, B: Backend<R>, W: SpotPaths<R>>(
    b: B,
    w: W,
    plan: SimulationPlan<R>,
    engine: EngineConfig,
) -> Rows<R> {
    let antithetic = engine.reduction().antithetic;
    Rows {
        width: PATHWISE_COMPONENTS as nat,
        unit: |unit: int|
            spot_pair(w, plan, antithetic, Ok(plan_normals(b, plan, unit as u64))),
        point: |scramble: u32, point: int|
            spot_pair(
                w,
                plan,
                antithetic,
                plan_quasi_normals(b, plan, scramble, point as u64),
            ),
    }
}

/// The draws of a plan.
struct SpotSampler<'a, R: Scalar, M: Math<R>, B: Backend<R>, W: SpotPaths<R>> {
    m: &'a M,
    b: &'a B,
    w: &'a W,
    plan: &'a SimulationPlan<R>,
    engine: &'a EngineConfig,
    antithetic: bool,
}

impl<'a, R: Scalar, M: Math<R>, B: Backend<R>, W: SpotPaths<R>> SpotSampler<'a, R, M, B, W> {
    #[verifier::type_invariant]
    spec fn inv(self) -> bool {
        self.plan.observation_count <= u32::MAX && self.antithetic
            == self.engine.reduction().antithetic
    }

    /// Evaluates one set of normals.
    fn one(&self, normals: &Vec<R>) -> (r: Result<Vec<R>, MonteCarloError>)
        ensures
            seen(r) == spot_row(*self.w, *self.plan, normals@),
            r matches Ok(v) ==> v@.len() == PATHWISE_COMPONENTS,
    {
        if self.plan.risk_enabled() {
            self.w.pathwise_values(normals)
        } else if self.plan.continuous_barrier {
            self.w.barrier_values(normals)
        } else {
            match self.w.payoff(normals) {
                Err(e) => Err(e),
                Ok(price) => {
                    let mut row = make_zeros(self.m, PATHWISE_COMPONENTS);
                    row.set(PRICE, price);
                    Ok(row)
                },
            }
        }
    }

    /// Evaluates a draw and its mate.
    fn pair(&self, normals: &Vec<R>) -> (r: Result<Vec<R>, MonteCarloError>)
        ensures
            seen(r) == spot_pair(*self.w, *self.plan, self.antithetic, Ok(normals@)),
            r matches Ok(v) ==> v@.len() == PATHWISE_COMPONENTS,
    {
        let primary = match self.one(normals) {
            Err(e) => return Err(e),
            Ok(v) => v,
        };
        if !self.antithetic {
            return Ok(primary);
        }
        let mate_normals = reflect(self.m, normals);
        match self.one(&mate_normals) {
            Err(e) => Err(e),
            Ok(mate) => Ok(average_pair(self.m, &primary, &mate)),
        }
    }
}

impl<'a, R: Scalar, M: Math<R>, B: Backend<R>, W: SpotPaths<R>> UnitSampler<R> for SpotSampler<
    'a,
    R,
    M,
    B,
    W,
> {
    closed spec fn rows(&self) -> Rows<R> {
        spot_rows(*self.b, *self.w, *self.plan, *self.engine)
    }

    open spec fn unit_exists(&self, unit: u64) -> bool {
        true
    }

    open spec fn point_exists(&self, scramble: u32, point: u64) -> bool {
        true
    }

    fn sample_unit(&self, unit: u64) -> (r: Result<Vec<R>, MonteCarloError>) {
        proof {
            use_type_invariant(self);
        }
        let normals = self.plan.normals(self.m, self.b, unit);
        self.pair(&normals)
    }

    fn sample_point(&self, scramble: u32, point: u64) -> (r: Result<Vec<R>, MonteCarloError>) {
        proof {
            use_type_invariant(self);
        }
        match self.plan.rqmc_normals(self.m, self.b, scramble, point) {
            Err(e) => Err(e),
            Ok(normals) => self.pair(&normals),
        }
    }
}

/// The price of the statistics of a constant-volatility run: its variance, its
/// estimate, its risk report and its diagnostics, in this order.
pub open spec fn spot_price<R: Scalar, Q: Publication<R>, V>(
    m: Model<R>,
    q: Q,
    plan: SimulationPlan<R>,
    engine: EngineConfig,
    s: Seq<Statistics<R>>,
) -> Result<PriceReport<R, V>, MonteCarloError> {
    let estimator = estimator_of(engine);
    let units = engine.units();
    match price_variance(s[PRICE as int], units, still(plan)) {
        Err(e) => Err(e),
        Ok(variance) => match published(
            q,
            estimate_of(m, s[PRICE as int], units, literal(1), plan.normal_quantile, estimator),
        ) {
            Err(e) => Err(e),
            Ok(value) => match risk_report_of(m, q, plan, s, units, estimator) {
                Err(e) => Err(e),
                Ok(risks) => match diagnostics_of(m, q, plan, s, units, estimator) {
                    Err(e) => Err(e),
                    Ok(diagnostics) => Ok(
                        priced(m, plan, engine, s, value, variance, risks, None, diagnostics),
                    ),
                },
            },
        },
    }
}

/// The price of a constant-volatility plan on an engine.
pub open spec fn spot_executed<R: Scalar, B: Backend<R>, W: SpotPaths<R>, Q: Publication<R>, V>(
    m: Model<R>,
    b: B,
    w: W,
    q: Q,
    plan: SimulationPlan<R>,
    engine: EngineConfig,
) -> Result<PriceReport<R, V>, MonteCarloError> {
    match plan.executor_failure {
        Some(e) => Err(e),
        None => if engine is RandomizedQuasiMonteCarlo && plan.observation_count > u32::MAX {
            Err(MonteCarloError::RqmcPlan)
        } else if engine is RandomizedQuasiMonteCarlo && plan.quasi_failure is Some {
            Err(plan.quasi_failure->0)
        } else {
            match table_of(m, b, spot_rows(b, w, plan, engine), engine, false) {
                Err(e) => Err(e),
                Ok(table) => spot_price(
                    m,
                    q,
                    plan,
                    engine,
                    statistics_of(b, engine, false, table, PATHWISE_COMPONENTS as nat),
                ),
            }
        },
    }
}

/// A payoff that is already fixed: its value without uncertainty, and the risk
/// that was asked for as zero.
pub open spec fn fixed_payoff_executed<
    R: Scalar,
    B: Backend<R>,
    W: SpotPaths<R>,
    Q: Publication<R>,
    V,
>(
    m: Model<R>,
    b: B,
    w: W,
    q: Q,
    plan: SimulationPlan<R>,
) -> Result<PriceReport<R, V>, MonteCarloError> {
    let engine = plan.engine;
    let zero = b.two_pass_of(seq![literal(0)]);
    let estimator = estimator_of(engine);
    let units = engine.units();
    match w.payoff_of(Seq::empty()) {
        Err(e) => Err(e),
        Ok(value) => match published(
            q,
            Estimate {
                value,
                standard_error: literal(0),
                lower: value,
                upper: value,
                estimator,
                independent_units: units,
            },
        ) {
            Err(e) => Err(e),
            Ok(estimate) => match fixed_risk_report(q, plan, units, estimator) {
                Err(e) => Err(e),
                Ok(risks) => match diagnostics_of(
                    m,
                    q,
                    plan,
                    Seq::new(PATHWISE_COMPONENTS as nat, |i: int| zero),
                    units,
                    estimator,
                ) {
                    Err(e) => Err(e),
                    Ok(risk_diagnostics) => Ok(
                        PriceReport {
                            value: estimate,
                            risks,
                            vega_kt: None,
                            warnings: extrapolation_warnings_of(
                                plan.discount_region,
                                plan.dividend_region,
                            ),
                            replay: replay_of(plan),
                            sampling_variance: literal(0),
                            estimator_variance: literal(0),
                            risk_diagnostics,
                            independent_sampling_units: units,
                            evaluated_paths: engine.paths() as u128,
                            diagnostics: run_diagnostics(plan, engine, false, None),
                            early_exercise: None,
                        },
                    ),
                },
            },
        },
    }
}

impl<R: Scalar> SimulationPlan<R> {
    /// Prices the statistics of a run.
    fn price_spot<M: Math<R>, Q: Publication<R>, V>(
        &self,
        m: &M,
        q: &Q,
        engine: &EngineConfig,
        s: &Vec<Statistics<R>>,
    ) -> (r: Result<MonteCarloPrice<R, V>, MonteCarloError>)
        requires
            s@.len() == PATHWISE_COMPONENTS,
        ensures
            reported(r) == spot_price::<R, Q, V>(m.model(), *q, *self, *engine, s@),
    {
        m.laws();
        let units = engine_units(engine);
        let estimator = engine_estimator(engine);
        let variance = match take_price_variance(m, s[PRICE], units, self.is_still(m)) {
            Err(e) => return Err(e),
            Ok(variance) => variance,
        };
        let value = match estimate_from_statistics(
            m,
            q,
            s[PRICE],
            units,
            R::from(1u32),
            self.normal_quantile,
            estimator,
        ) {
            Err(e) => return Err(e),
            Ok(value) => value,
        };
        let risks = match self.build_risk_report(m, q, s, units, estimator) {
            Err(e) => return Err(e),
            Ok(risks) => risks,
        };
        let diagnostics = match self.build_risk_diagnostics(m, q, s, units, estimator) {
            Err(e) => return Err(e),
            Ok(diagnostics) => diagnostics,
        };
        Ok(make_price(m, self, engine, s, value, variance, risks, None, diagnostics))
    }

    /// Runs a constant-volatility plan on an engine.
    fn execute_spot<M: Math<R>, B: Backend<R>, W: SpotPaths<R>, Q: Publication<R>, V>(
        &self,
        m: &M,
        b: &B,
        w: &W,
        q: &Q,
        engine: EngineConfig,
    ) -> (r: Result<MonteCarloPrice<R, V>, MonteCarloError>)
        requires
            engine is PseudoMonteCarlo ==> self.observation_count <= u32::MAX,
        ensures
            reported(r) == spot_executed::<R, B, W, Q, V>(m.model(), *b, *w, *q, *self, engine),
    {
        if let Some(e) = self.executor_failure {
            return Err(e);
        }
        let antithetic = match engine {
            EngineConfig::PseudoMonteCarlo(c) => c.variance_reduction.antithetic,
            EngineConfig::RandomizedQuasiMonteCarlo(c) => {
                if self.observation_count as u64 > u32::MAX as u64 {
                    return Err(MonteCarloError::RqmcPlan);
                }
                if let Some(e) = self.quasi_failure {
                    return Err(e);
                }
                c.variance_reduction.antithetic
            },
        };
        let sampler = SpotSampler { m, b, w, plan: self, engine: &engine, antithetic };
        let table = match tabulate(m, b, &sampler, &engine, false, PATHWISE_COMPONENTS) {
            Err(e) => return Err(e),
            Ok(table) => table,
        };
        let s = summarise(b, &engine, false, &table, PATHWISE_COMPONENTS, PATHWISE_COMPONENTS);
        self.price_spot(m, q, &engine, &s)
    }

    /// Prices a payoff that is already fixed.
    pub fn execute_fixed_payoff<
        M: Math<R>,
        B: Backend<R>,
        W: SpotPaths<R>,
        Q: Publication<R>,
        V,
    >(
        &self,
        m: &M,
        b: &B,
        w: &W,
        q: &Q,
    ) -> (r: Result<MonteCarloPrice<R, V>, MonteCarloError>)
        ensures
            reported(r) == fixed_payoff_executed::<R, B, W, Q, V>(m.model(), *b, *w, *q, *self),
    {
        m.laws();
        let none: Vec<R> = Vec::new();
        assert(none@ =~= Seq::empty());
        let value = match w.payoff(&none) {
            Err(e) => return Err(e),
            Ok(value) => value,
        };
        let units = engine_units(&self.engine);
        let estimator = engine_estimator(&self.engine);
        let estimate = Estimate {
            value,
            standard_error: R::from(0u32),
            lower: value,
            upper: value,
            estimator,
            independent_units: units,
        };
        if let Some(e) = q.refusal(&estimate) {
            return Err(e);
        }
        let risks = match self.fixed_payoff_risk_report(m, q, estimator, units) {
            Err(e) => return Err(e),
            Ok(risks) => risks,
        };
        let nothing: Vec<R> = vec![R::from(0u32)];
        assert(nothing@ =~= seq![literal::<R>(0)]);
        let zero = b.two_pass(&nothing);
        let risk_diagnostics = match self.fixed_payoff_risk_diagnostics(
            m,
            q,
            zero,
            estimator,
            units,
        ) {
            Err(e) => return Err(e),
            Ok(diagnostics) => diagnostics,
        };
        Ok(
            MonteCarloPrice {
                value: estimate,
                risks,
                vega_kt: None,
                warnings: extrapolation_warnings(
                    self.discount_region,
                    self.dividend_region,
                ),
                replay: self.replay_metadata(),
                sampling_variance: R::from(0u32),
                estimator_variance: R::from(0u32),
                risk_diagnostics,
                independent_sampling_units: units,
                evaluated_paths: engine_paths(&self.engine),
                diagnostics: describe_run(self, &self.engine, false, None),
                early_exercise: None,
            },
        )
    }
}

/// The price of a plan with something to observe: that of its local volatility
/// where it has one.
pub open spec fn engine_executed<
    R: Scalar,
    B: Backend<R>,
    S: SpotPaths<R>,
    W: LocalVolPaths<R>,
    K: VegaBuckets<R>,
    Q: Publication<R>,
>(
    m: Model<R>,
    b: B,
    spot: S,
    w: W,
    k: K,
    q: Q,
    plan: SimulationPlan<R>,
    lv: Option<LocalVolPlan<R>>,
    engine: EngineConfig,
) -> Result<PriceReport<R, K::Report>, MonteCarloError> {
    match lv {
        Some(l) => local_vol_executed(m, b, w, k, q, plan, l, engine),
        None => spot_executed::<R, B, S, Q, K::Report>(m, b, spot, q, plan, engine),
    }
}

/// The price of a plan: that of its exercise policy where it can be exercised
/// early, that of its fixed payoff where nothing is left to observe, and that
/// of its engine otherwise.
pub open spec fn executed<
    R: Scalar,
    B: Backend<R>,
    S: SpotPaths<R>,
    W: LocalVolPaths<R>,
    K: VegaBuckets<R>,
    Q: Publication<R>,
    X: ExercisePolicies<R>,
>(
    m: Model<R>,
    b: B,
    spot: S,
    w: W,
    k: K,
    q: Q,
    x: X,
    plan: SimulationPlan<R>,
    lv: Option<LocalVolPlan<R>>,
    training: Option<EngineConfig>,
    dimension: u32,
) -> Result<PriceReport<R, K::Report>, MonteCarloError> {
    match training {
        Some(t) => exercise_executed(m, b, w, k, q, x, plan, lv, t, dimension),
        None => if plan.observation_count == 0 {
            fixed_payoff_executed::<R, B, S, Q, K::Report>(m, b, spot, q, plan)
        } else {
            engine_executed(m, b, spot, w, k, q, plan, lv, plan.engine)
        },
    }
}

impl<R: Scalar> SimulationPlan<R> {
    /// Prices the plan on a pseudo-random engine.
    pub fn execute_pseudo<
        M: Math<R>,
        B: Backend<R>,
        S: SpotPaths<R>,
        W: LocalVolPaths<R>,
        K: VegaBuckets<R>,
        Q: Publication<R>,
    >(
        &self,
        m: &M,
        b: &B,
        spot: &S,
        w: &W,
        k: &K,
        q: &Q,
        lv: &Option<LocalVolPlan<R>>,
        engine: PseudoMonteCarlo,
    ) -> (r: Result<MonteCarloPrice<R, K::Report>, MonteCarloError>)
        requires
            self.observation_count <= u32::MAX,
            *lv matches Some(l) ==> runnable(*self, *w, l, EngineConfig::PseudoMonteCarlo(engine)),
        ensures
            reported(r) == engine_executed(
                m.model(),
                *b,
                *spot,
                *w,
                *k,
                *q,
                *self,
                *lv,
                EngineConfig::PseudoMonteCarlo(engine),
            ),
    {
        match lv {
            Some(l) => self.execute_local_vol_pseudo(m, b, w, k, q, l, engine),
            None => self.execute_spot(m, b, spot, q, EngineConfig::PseudoMonteCarlo(engine)),
        }
    }

    /// Prices the plan on a scrambled engine.
    pub fn execute_rqmc<
        M: Math<R>,
        B: Backend<R>,
        S: SpotPaths<R>,
        W: LocalVolPaths<R>,
        K: VegaBuckets<R>,
        Q: Publication<R>,
    >(
        &self,
        m: &M,
        b: &B,
        spot: &S,
        w: &W,
        k: &K,
        q: &Q,
        lv: &Option<LocalVolPlan<R>>,
        engine: RandomizedQuasiMonteCarlo,
    ) -> (r: Result<MonteCarloPrice<R, K::Report>, MonteCarloError>)
        requires
            *lv matches Some(l) ==> runnable(
                *self,
                *w,
                l,
                EngineConfig::RandomizedQuasiMonteCarlo(engine),
            ),
        ensures
            reported(r) == engine_executed(
                m.model(),
                *b,
                *spot,
                *w,
                *k,
                *q,
                *self,
                *lv,
                EngineConfig::RandomizedQuasiMonteCarlo(engine),
            ),
    {
        match lv {
            Some(l) => self.execute_local_vol_rqmc(m, b, w, k, q, l, engine),
            None => self.execute_spot(
                m,
                b,
                spot,
                q,
                EngineConfig::RandomizedQuasiMonteCarlo(engine),
            ),
        }
    }

    /// Prices the plan. `training` is the engine of its exercise policy, where
    /// it can be exercised early.
    pub fn execute<
        M: Math<R>,
        B: Backend<R>,
        S: SpotPaths<R>,
        W: LocalVolPaths<R>,
        K: VegaBuckets<R>,
        Q: Publication<R>,
        X: ExercisePolicies<R>,
    >(
        &self,
        m: &M,
        b: &B,
        spot: &S,
        w: &W,
        k: &K,
        q: &Q,
        x: &X,
        lv: &Option<LocalVolPlan<R>>,
        training: Option<EngineConfig>,
        dimension: u32,
    ) -> (r: Result<MonteCarloPrice<R, K::Report>, MonteCarloError>)
        requires
            training is Some == self.early_exercise,
            lv is Some == self.local_volatility,
            self.engine is PseudoMonteCarlo ==> self.observation_count <= u32::MAX,
            *lv matches Some(l) ==> runnable(*self, *w, l, self.engine),
        ensures
            reported(r) == executed(
                m.model(),
                *b,
                *spot,
                *w,
                *k,
                *q,
                *x,
                *self,
                *lv,
                training,
                dimension,
            ),
    {
        if let Some(t) = training {
            return self.execute_early_exercise(m, b, w, k, q, x, lv, t, dimension);
        }
        if self.observation_count == 0 {
            return self.execute_fixed_payoff(m, b, spot, q);
        }
        match self.engine {
            EngineConfig::PseudoMonteCarlo(c) => self.execute_pseudo(
                m,
                b,
                spot,
                w,
                k,
                q,
                lv,
                c,
            ),
            EngineConfig::RandomizedQuasiMonteCarlo(c) => self.execute_rqmc(
                m,
                b,
                spot,
                w,
                k,
                q,
                lv,
                c,
            ),
        }
    }
}

/// A request for a price: the engine it names, and what compiling it gave.
pub struct PricingRequest<R> {
    pub engine: EngineConfig,
    pub compiled: Result<CompiledPlan<R>, MonteCarloError>,
}

/// A compiled plan: the simulation, its local volatility, the engine that
/// trains its exercise policy, and the dimension of the random numbers of that policy.
pub struct CompiledPlan<R> {
    pub plan: SimulationPlan<R>,
    pub local_volatility: Option<LocalVolPlan<R>>,
    pub training: Option<EngineConfig>,
    pub dimension: u32,
}

impl<R: Scalar> CompiledPlan<R> {
    /// The plan can be run: its parts are those that it names, its observations can be
    /// counted, and so can the rows of its local volatility.
    pub open spec fn valid<W: LocalVolPaths<R>>(self, w: W) -> bool {
        &&& self.training is Some == self.plan.early_exercise
        &&& self.local_volatility is Some == self.plan.local_volatility
        &&& self.plan.engine is PseudoMonteCarlo ==> self.plan.observation_count <= u32::MAX
        &&& self.local_volatility matches Some(l) ==> runnable(self.plan, w, l, self.plan.engine)
    }
}

/// The price of a request: the failure to compile it, or the price of its plan.
pub open spec fn request_price<
    R: Scalar,
    B: Backend<R>,
    S: SpotPaths<R>,
    W: LocalVolPaths<R>,
    K: VegaBuckets<R>,
    Q: Publication<R>,
    X: ExercisePolicies<R>,
>(
    m: Model<R>,
    b: B,
    spot: S,
    w: W,
    k: K,
    q: Q,
    x: X,
    request: PricingRequest<R>,
) -> Result<PriceReport<R, K::Report>, MonteCarloError> {
    match request.compiled {
        Err(e) => Err(e),
        Ok(c) => executed(
            m,
            b,
            spot,
            w,
            k,
            q,
            x,
            c.plan,
            c.local_volatility,
            c.training,
            c.dimension,
        ),
    }
}

/// Prices a request.
pub fn price_monte_carlo<
    R: Scalar,
    M: Math<R>,
    B: Backend<R>,
    S: SpotPaths<R>,
    W: LocalVolPaths<R>,
    K: VegaBuckets<R>,
    Q: Publication<R>,
    X: ExercisePolicies<R>,
>(
    m: &M,
    b: &B,
    spot: &S,
    w: &W,
    k: &K,
    q: &Q,
    x: &X,
    request: &PricingRequest<R>,
) -> (r: Result<MonteCarloPrice<R, K::Report>, MonteCarloError>)
    requires
        request.compiled matches Ok(c) ==> c.valid(*w),
    ensures
        reported(r) == request_price(m.model(), *b, *spot, *w, *k, *q, *x, *request),
{
    match &request.compiled {
        Err(e) => Err(*e),
        Ok(c) => c.plan.execute(
            m,
            b,
            spot,
            w,
            k,
            q,
            x,
            &c.local_volatility,
            c.training,
            c.dimension,
        ),
    }
}

/// Prices a request on a pseudo-random engine, and refuses any other.
pub fn price_pseudo_monte_carlo<
    R: Scalar,
    M: Math<R>,
    B: Backend<R>,
    S: SpotPaths<R>,
    W: LocalVolPaths<R>,
    K: VegaBuckets<R>,
    Q: Publication<R>,
    X: ExercisePolicies<R>,
>(
    m: &M,
    b: &B,
    spot: &S,
    w: &W,
    k: &K,
    q: &Q,
    x: &X,
    request: &PricingRequest<R>,
) -> (r: Result<MonteCarloPrice<R, K::Report>, MonteCarloError>)
    requires
        request.compiled matches Ok(c) ==> c.valid(*w),
    ensures
        reported(r) == (if request.engine is PseudoMonteCarlo {
            request_price(m.model(), *b, *spot, *w, *k, *q, *x, *request)
        } else {
            Err(MonteCarloError::UnsupportedEngine)
        }),
{
    match request.engine {
        EngineConfig::PseudoMonteCarlo(_) => price_monte_carlo(m, b, spot, w, k, q, x, request),
        EngineConfig::RandomizedQuasiMonteCarlo(_) => Err(MonteCarloError::UnsupportedEngine),
    }
}

/// A payoff that is already fixed has no sampling error: its variances are
/// zero, and its interval is its value.
pub proof fn fixed_payoff_is_certain<
    R: Scalar,
    B: Backend<R>,
    S: SpotPaths<R>,
    Q: Publication<R>,
    V,
>(m: Model<R>, b: B, spot: S, q: Q, plan: SimulationPlan<R>)
    ensures
        fixed_payoff_executed::<R, B, S, Q, V>(m, b, spot, q, plan) matches Ok(p) ==> {
            &&& p.sampling_variance == literal::<R>(0)
            &&& p.estimator_variance == literal::<R>(0)
            &&& p.value.standard_error == literal::<R>(0)
            &&& p.value.lower == p.value.value
            &&& p.value.upper == p.value.value
            &&& spot.payoff_of(Seq::empty()) == Ok::<R, MonteCarloError>(p.value.value)
        },
{
}

} // verus!
