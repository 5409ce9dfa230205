//! Prices and statistics of local-volatility plans.

use crate::engine::{EngineConfig, PseudoMonteCarlo, RandomizedQuasiMonteCarlo};
use crate::errors::MonteCarloError;
use crate::estimation::mean_of;
use crate::local_vol::{
    bump_spots, check_coverage, coverage_of, full_width, local_vol_table, sample_local_vol,
    LocalVolRun, RunView,
};
use crate::local_vol_paths::LocalVolPaths;
use crate::pathwise::{BumpSpots, LocalVolPlan};
use crate::plan::engine_units;
use crate::pricing::{
    engine_estimator, estimator_of, make_price, price_variance, priced, reported,
    take_price_variance, MonteCarloPrice, PriceReport,
};
use crate::report::{
    estimate_from_statistics, estimate_of, local_vol_methods, published, risk_report_of,
    unvalidated, Publication,
};
use crate::results::seen;
use crate::sampling::{Backend, Statistics};
use crate::scalar::{literal, Math, Model, Scalar};
use crate::simulation::{SimulationPlan, PATHWISE_COMPONENTS, PRICE, VEGA};
use crate::units::{column, rectangular, rows_of, statistics_of, summarise, take_column};
use crate::vega_kt::{build_vega_kt_result, join_tails, tails, vega_kt_of, VegaBuckets};
use vstd::prelude::*;

verus! {

/// What a bucketed simulation gives: the statistics of the quantities, and the
/// bucketed vega of the same sampling units.
pub open spec fn bucketed<R: Scalar, B: Backend<R>, K: VegaBuckets<R>>(
    m: Model<R>,
    b: B,
    k: K,
    engine: EngineConfig,
    table: Seq<Seq<R>>,
    count: usize,
) -> Result<(Seq<Statistics<R>>, K::Report), MonteCarloError> {
    let s = statistics_of(b, engine, true, table, PATHWISE_COMPONENTS as nat);
    match vega_kt_of(
        m,
        k,
        mean_of(m, s[VEGA as int], engine.units()),
        column(table, PRICE as int),
        tails(table, PATHWISE_COMPONENTS as int, table.len()),
        count,
    ) {
        Err(e) => Err(e),
        Ok(report) => Ok((s, report)),
    }
}

/// Takes the statistics and the bucketed vega of a table.
fn take_bucketed<R: Scalar, M: Math<R>, B: Backend<R>, K: VegaBuckets<R>>(
    m: &M,
    b: &B,
    k: &K,
    engine: &EngineConfig,
    table: &Vec<Vec<R>>,
    count: usize,
) -> (r: Result<(Vec<Statistics<R>>, K::Report), MonteCarloError>)
    requires
        PATHWISE_COMPONENTS + count <= usize::MAX,
        rectangular(table@, (PATHWISE_COMPONENTS + count) as nat),
    ensures
        (match r {
            Ok((s, report)) => Ok((s@, report)),
            Err(e) => Err(e),
        }) == bucketed(m.model(), *b, *k, *engine, rows_of(table@), count),
        r matches Ok((s, report)) ==> s@.len() == PATHWISE_COMPONENTS,
{
    let s = summarise(
        b,
        engine,
        true,
        table,
        PATHWISE_COMPONENTS + count,
        PATHWISE_COMPONENTS,
    );
    let prices = take_column(table, PRICE);
    let samples = join_tails(table, PATHWISE_COMPONENTS);
    match build_vega_kt_result(m, k, s[VEGA], engine_units(engine), &prices, &samples, count) {
        Err(e) => Err(e),
        Ok(report) => Ok((s, report)),
    }
}

/// The failure of the bridge of an engine, where it is requested.
pub open spec fn bridge_error<R: Scalar>(plan: SimulationPlan<R>, engine: EngineConfig) -> Option<
    MonteCarloError,
> {
    if engine is RandomizedQuasiMonteCarlo && engine.reduction().brownian_bridge {
        plan.bridge_failure
    } else {
        None
    }
}

/// The failure of the bridge of an engine.
fn bridge_refusal<R: Scalar>(plan: &SimulationPlan<R>, engine: &EngineConfig) -> (e: Option<
    MonteCarloError,
>)
    ensures
        e == bridge_error(*plan, *engine),
{
    match engine {
        EngineConfig::PseudoMonteCarlo(_) => None,
        EngineConfig::RandomizedQuasiMonteCarlo(c) => if c.variance_reduction.brownian_bridge {
            plan.bridge_failure
        } else {
            None
        },
    }
}

/// The statistics of a plan under a frozen exercise policy: the policy has to
/// cover the paths, the bridge and the executor have to stand, and the bumped
/// spots have to be admissible, in this order.
pub open spec fn fixed_policy_statistics<R: Scalar, B: Backend<R>, W: LocalVolPaths<R>>(
    m: Model<R>,
    b: B,
    w: W,
    plan: SimulationPlan<R>,
    lv: LocalVolPlan<R>,
    engine: EngineConfig,
    dimension: u32,
    stops: Seq<usize>,
) -> Result<Seq<Statistics<R>>, MonteCarloError> {
    match coverage_of(engine, stops.len()) {
        Err(e) => Err(e),
        Ok(_) => match bridge_error(plan, engine) {
            Some(e) => Err(e),
            None => match plan.executor_failure {
                Some(e) => Err(e),
                None => match bump_spots(m, w, plan) {
                    Err(e) => Err(e),
                    Ok(bumps) => match local_vol_table(
                        m,
                        b,
                        w,
                        plan,
                        lv,
                        RunView { engine, dimension, bumps, stops: Some(stops) },
                        false,
                    ) {
                        Err(e) => Err(e),
                        Ok(table) => Ok(
                            statistics_of(b, engine, false, table, PATHWISE_COMPONENTS as nat),
                        ),
                    },
                },
            },
        },
    }
}

/// The statistics and the bucketed vega of a plan under a frozen exercise
/// policy.
pub open spec fn fixed_policy_bucketed<
    R: Scalar,
    B: Backend<R>,
    W: LocalVolPaths<R>,
    K: VegaBuckets<R>,
>(
    m: Model<R>,
    b: B,
    w: W,
    k: K,
    plan: SimulationPlan<R>,
    lv: LocalVolPlan<R>,
    engine: EngineConfig,
    dimension: u32,
    stops: Seq<usize>,
) -> Result<(Seq<Statistics<R>>, K::Report), MonteCarloError> {
    match coverage_of(engine, stops.len()) {
        Err(e) => Err(e),
        Ok(_) => match lv.buckets {
            None => Err(MonteCarloError::MissingLocalVolatilityReportingBasis),
            Some(count) => match bridge_error(plan, engine) {
                Some(e) => Err(e),
                None => match bump_spots(m, w, plan) {
                    Err(e) => Err(e),
                    Ok(bumps) => match local_vol_table(
                        m,
                        b,
                        w,
                        plan,
                        lv,
                        RunView { engine, dimension, bumps, stops: Some(stops) },
                        true,
                    ) {
                        Err(e) => Err(e),
                        Ok(table) => bucketed(m, b, k, engine, table, count),
                    },
                },
            },
        },
    }
}

/// A local-volatility plan can be run on an engine: its rows can be indexed,
/// the expiry of a barrier is observed, and the points of a scrambled engine can be counted.
pub open spec fn runnable<R: Scalar, W: LocalVolPaths<R>>(
    plan: SimulationPlan<R>,
    w: W,
    lv: LocalVolPlan<R>,
    engine: EngineConfig,
) -> bool {
    &&& lv.valid()
    &&& plan.continuous_barrier ==> lv.expiry_observation < w.observations_expected()
    &&& full_width(lv) <= usize::MAX
    &&& engine matches EngineConfig::RandomizedQuasiMonteCarlo(c) ==> c.scramble_count
        * c.points_per_scramble <= u64::MAX
}

impl<R: Scalar> SimulationPlan<R> {
    /// The statistics of the plan on an engine, under a frozen exercise policy.
    fn fixed_policy_run<M: Math<R>, B: Backend<R>, W: LocalVolPaths<R>>(
        &self,
        m: &M,
        b: &B,
        w: &W,
        lv: &LocalVolPlan<R>,
        engine: EngineConfig,
        dimension: u32,
        stopping_indices: Vec<usize>,
    ) -> (r: Result<Vec<Statistics<R>>, MonteCarloError>)
        requires
            runnable(*self, *w, *lv, engine),
        ensures
            seen(r) == fixed_policy_statistics(
                m.model(),
                *b,
                *w,
                *self,
                *lv,
                engine,
                dimension,
                stopping_indices@,
            ),
            r matches Ok(s) ==> s@.len() == PATHWISE_COMPONENTS,
    {
        if let Err(e) = check_coverage(&engine, &stopping_indices) {
            return Err(e);
        }
        if let Some(e) = bridge_refusal(self, &engine) {
            return Err(e);
        }
        if let Some(e) = self.executor_failure {
            return Err(e);
        }
        let bumps = match self.local_vol_bump_runtimes(m, w) {
            Err(e) => return Err(e),
            Ok(bumps) => bumps,
        };
        let run = LocalVolRun {
            engine,
            dimension,
            bumps,
            stopping_indices: Some(stopping_indices),
        };
        let table = match sample_local_vol(m, b, w, self, lv, &run, false) {
            Err(e) => return Err(e),
            Ok(table) => table,
        };
        let columns: usize = match lv.buckets {
            Some(count) => PATHWISE_COMPONENTS + count,
            None => PATHWISE_COMPONENTS,
        };
        Ok(summarise(b, &engine, false, &table, columns, PATHWISE_COMPONENTS))
    }

    /// The statistics and the bucketed vega of the plan on an engine, under a
    /// frozen exercise policy.
    fn fixed_policy_bucketed_run<
        M: Math<R>,
        B: Backend<R>,
        W: LocalVolPaths<R>,
        K: VegaBuckets<R>,
    >(
        &self,
        m: &M,
        b: &B,
        w: &W,
        k: &K,
        lv: &LocalVolPlan<R>,
        engine: EngineConfig,
        dimension: u32,
        stopping_indices: Vec<usize>,
    ) -> (r: Result<(Vec<Statistics<R>>, K::Report), MonteCarloError>)
        requires
            runnable(*self, *w, *lv, engine),
        ensures
            (match r {
                Ok((s, report)) => Ok((s@, report)),
                Err(e) => Err(e),
            }) == fixed_policy_bucketed(
                m.model(),
                *b,
                *w,
                *k,
                *self,
                *lv,
                engine,
                dimension,
                stopping_indices@,
            ),
            r matches Ok((s, report)) ==> s@.len() == PATHWISE_COMPONENTS,
    {
        if let Err(e) = check_coverage(&engine, &stopping_indices) {
            return Err(e);
        }
        let count = match lv.buckets {
            None => return Err(MonteCarloError::MissingLocalVolatilityReportingBasis),
            Some(count) => count,
        };
        if let Some(e) = bridge_refusal(self, &engine) {
            return Err(e);
        }
        let bumps = match self.local_vol_bump_runtimes(m, w) {
            Err(e) => return Err(e),
            Ok(bumps) => bumps,
        };
        let run = LocalVolRun {
            engine,
            dimension,
            bumps,
            stopping_indices: Some(stopping_indices),
        };
        match sample_local_vol(m, b, w, self, lv, &run, true) {
            Err(e) => Err(e),
            Ok(table) => take_bucketed(m, b, k, &engine, &table, count),
        }
    }
}

/// The price of the statistics of a local-volatility run: its estimate, its
/// variance and its risk report, in this order.
pub open spec fn local_vol_price<R: Scalar, Q: Publication<R>, V>(
    m: Model<R>,
    q: Q,
    plan: SimulationPlan<R>,
    engine: EngineConfig,
    s: Seq<Statistics<R>>,
    vega_kt: Option<V>,
) -> Result<PriceReport<R, V>, MonteCarloError> {
    let estimator = estimator_of(engine);
    match published(
        q,
        estimate_of(
            m,
            s[PRICE as int],
            engine.units(),
            literal(1),
            plan.normal_quantile,
            estimator,
        ),
    ) {
        Err(e) => Err(e),
        Ok(value) => match price_variance(s[PRICE as int], engine.units(), false) {
            Err(e) => Err(e),
            Ok(variance) => match risk_report_of(m, q, plan, s, engine.units(), estimator) {
                Err(e) => Err(e),
                Ok(risks) => Ok(
                    priced(
                        m,
                        plan,
                        engine,
                        s,
                        value,
                        variance,
                        risks,
                        vega_kt,
                        unvalidated(local_vol_methods(plan)),
                    ),
                ),
            },
        },
    }
}

/// The failure of the parts of a run: of a scrambled engine the number of steps, the
/// quasi-random plan and the bridge come first.
pub open spec fn parts_error<R: Scalar>(
    plan: SimulationPlan<R>,
    lv: LocalVolPlan<R>,
    engine: EngineConfig,
) -> Option<MonteCarloError> {
    if engine is RandomizedQuasiMonteCarlo && lv.step_count > u32::MAX {
        Some(MonteCarloError::RqmcPlan)
    } else if engine is RandomizedQuasiMonteCarlo && plan.quasi_failure is Some {
        plan.quasi_failure
    } else if bridge_error(plan, engine) is Some {
        bridge_error(plan, engine)
    } else {
        plan.executor_failure
    }
}

/// The price of a local-volatility plan on an engine, with its bucketed vega,
/// where the bumped spots are known.
pub open spec fn bucketed_executed<
    R: Scalar,
    B: Backend<R>,
    W: LocalVolPaths<R>,
    K: VegaBuckets<R>,
    Q: Publication<R>,
>(
    m: Model<R>,
    b: B,
    w: W,
    k: K,
    q: Q,
    plan: SimulationPlan<R>,
    lv: LocalVolPlan<R>,
    engine: EngineConfig,
    dimension: u32,
    bumps: Option<BumpSpots<R>>,
) -> Result<PriceReport<R, K::Report>, MonteCarloError> {
    match lv.buckets {
        None => Err(MonteCarloError::MissingLocalVolatilityReportingBasis),
        Some(count) => match local_vol_table(
            m,
            b,
            w,
            plan,
            lv,
            RunView { engine, dimension, bumps, stops: None },
            true,
        ) {
            Err(e) => Err(e),
            Ok(table) => match bucketed(m, b, k, engine, table, count) {
                Err(e) => Err(e),
                Ok((s, report)) => local_vol_price(m, q, plan, engine, s, Some(report)),
            },
        },
    }
}

/// The price of a local-volatility plan on an engine, with the bucketed vega
/// where it was asked for.
pub open spec fn local_vol_executed<
    R: Scalar,
    B: Backend<R>,
    W: LocalVolPaths<R>,
    K: VegaBuckets<R>,
    Q: Publication<R>,
>(
    m: Model<R>,
    b: B,
    w: W,
    k: K,
    q: Q,
    plan: SimulationPlan<R>,
    lv: LocalVolPlan<R>,
    engine: EngineConfig,
) -> Result<PriceReport<R, K::Report>, MonteCarloError> {
    match parts_error(plan, lv, engine) {
        Some(e) => Err(e),
        None => match bump_spots(m, w, plan) {
            Err(e) => Err(e),
            Ok(bumps) => {
                let dimension = lv.step_count as u32;
                if lv.buckets is Some {
                bucketed_executed(m, b, w, k, q, plan, lv, engine, dimension, bumps)
            } else {
                match local_vol_table(
                    m,
                    b,
                    w,
                    plan,
                    lv,
                    RunView { engine, dimension, bumps, stops: None },
                    false,
                ) {
                    Err(e) => Err(e),
                    Ok(table) => local_vol_price(
                        m,
                        q,
                        plan,
                        engine,
                        statistics_of(b, engine, false, table, PATHWISE_COMPONENTS as nat),
                        None,
                    ),
                }
                }
            },
        },
    }
}

impl<R: Scalar> SimulationPlan<R> {
    /// Prices the statistics of a local-volatility run.
    fn price_local_vol<M: Math<R>, Q: Publication<R>, V>(
        &self,
        m: &M,
        q: &Q,
        engine: &EngineConfig,
        s: &Vec<Statistics<R>>,
        vega_kt: Option<V>,
    ) -> (r: Result<MonteCarloPrice<R, V>, MonteCarloError>)
        requires
            s@.len() == PATHWISE_COMPONENTS,
        ensures
            reported(r) == local_vol_price(m.model(), *q, *self, *engine, s@, vega_kt),
    {
        m.laws();
        let units = engine_units(engine);
        let estimator = engine_estimator(engine);
        let value = match estimate_from_statistics(
            m,
            q,
            s[PRICE],
            units,
            R::from(1u32),
            self.normal_quantile,
            estimator,
        ) {
            Err(e) => return Err(e),
            Ok(value) => value,
        };
        let variance = match take_price_variance(m, s[PRICE], units, false) {
            Err(e) => return Err(e),
            Ok(variance) => variance,
        };
        let risks = match self.build_risk_report(m, q, s, units, estimator) {
            Err(e) => return Err(e),
            Ok(risks) => risks,
        };
        let diagnostics = self.build_local_vol_risk_diagnostics(m);
        Ok(make_price(m, self, engine, s, value, variance, risks, vega_kt, diagnostics))
    }

    /// Runs the plan with its buckets on an engine: every sampling unit gives its
    /// quantities and its buckets together.
    fn execute_bucketed<
        M: Math<R>,
        B: Backend<R>,
        W: LocalVolPaths<R>,
        K: VegaBuckets<R>,
        Q: Publication<R>,
    >(
        &self,
        m: &M,
        b: &B,
        w: &W,
        k: &K,
        q: &Q,
        lv: &LocalVolPlan<R>,
        engine: EngineConfig,
        dimension: u32,
        bumps: Option<BumpSpots<R>>,
    ) -> (r: Result<MonteCarloPrice<R, K::Report>, MonteCarloError>)
        requires
            runnable(*self, *w, *lv, engine),
        ensures
            reported(r) == bucketed_executed(
                m.model(),
                *b,
                *w,
                *k,
                *q,
                *self,
                *lv,
                engine,
                dimension,
                bumps,
            ),
    {
        let count = match lv.buckets {
            None => return Err(MonteCarloError::MissingLocalVolatilityReportingBasis),
            Some(count) => count,
        };
        let run = LocalVolRun { engine, dimension, bumps, stopping_indices: None };
        let table = match sample_local_vol(m, b, w, self, lv, &run, true) {
            Err(e) => return Err(e),
            Ok(table) => table,
        };
        match take_bucketed(m, b, k, &engine, &table, count) {
            Err(e) => Err(e),
            Ok((s, report)) => self.price_local_vol(m, q, &engine, &s, Some(report)),
        }
    }

    /// Runs the plan without buckets on an engine.
    fn execute_plain<M: Math<R>, B: Backend<R>, W: LocalVolPaths<R>, Q: Publication<R>, V>(
        &self,
        m: &M,
        b: &B,
        w: &W,
        q: &Q,
        lv: &LocalVolPlan<R>,
        engine: EngineConfig,
        dimension: u32,
        bumps: Option<BumpSpots<R>>,
    ) -> (r: Result<MonteCarloPrice<R, V>, MonteCarloError>)
        requires
            runnable(*self, *w, *lv, engine),
            lv.buckets is None,
        ensures
            reported(r) == (match local_vol_table(
                m.model(),
                *b,
                *w,
                *self,
                *lv,
                (RunView { engine, dimension, bumps, stops: None }),
                false,
            ) {
                Err(e) => Err(e),
                Ok(table) => local_vol_price::<R, Q, V>(
                    m.model(),
                    *q,
                    *self,
                    engine,
                    statistics_of(*b, engine, false, table, PATHWISE_COMPONENTS as nat),
                    None,
                ),
            }),
    {
        let run = LocalVolRun { engine, dimension, bumps, stopping_indices: None };
        let table = match sample_local_vol(m, b, w, self, lv, &run, false) {
            Err(e) => return Err(e),
            Ok(table) => table,
        };
        let s = summarise(b, &engine, false, &table, PATHWISE_COMPONENTS, PATHWISE_COMPONENTS);
        self.price_local_vol(m, q, &engine, &s, None)
    }

    /// Prices the plan with its bucketed vega on a pseudo-random engine.
    pub fn execute_local_vol_pseudo_with_vega_kt<
        M: Math<R>,
        B: Backend<R>,
        W: LocalVolPaths<R>,
        K: VegaBuckets<R>,
        Q: Publication<R>,
    >(
        &self,
        m: &M,
        b: &B,
        w: &W,
        k: &K,
        q: &Q,
        lv: &LocalVolPlan<R>,
        engine: PseudoMonteCarlo,
        dimension: u32,
        bumps: Option<BumpSpots<R>>,
    ) -> (r: Result<MonteCarloPrice<R, K::Report>, MonteCarloError>)
        requires
            runnable(*self, *w, *lv, EngineConfig::PseudoMonteCarlo(engine)),
        ensures
            reported(r) == bucketed_executed(
                m.model(),
                *b,
                *w,
                *k,
                *q,
                *self,
                *lv,
                EngineConfig::PseudoMonteCarlo(engine),
                dimension,
                bumps,
            ),
    {
        self.execute_bucketed(
            m,
            b,
            w,
            k,
            q,
            lv,
            EngineConfig::PseudoMonteCarlo(engine),
            dimension,
            bumps,
        )
    }

    /// Prices the plan on a pseudo-random engine. With buckets it is the bucketed
    /// simulation that prices it.
    pub fn execute_local_vol_pseudo<
        M: Math<R>,
        B: Backend<R>,
        W: LocalVolPaths<R>,
        K: VegaBuckets<R>,
        Q: Publication<R>,
    >(
        &self,
        m: &M,
        b: &B,
        w: &W,
        k: &K,
        q: &Q,
        lv: &LocalVolPlan<R>,
        engine: PseudoMonteCarlo,
    ) -> (r: Result<MonteCarloPrice<R, K::Report>, MonteCarloError>)
        requires
            runnable(*self, *w, *lv, EngineConfig::PseudoMonteCarlo(engine)),
        ensures
            reported(r) == local_vol_executed(
                m.model(),
                *b,
                *w,
                *k,
                *q,
                *self,
                *lv,
                EngineConfig::PseudoMonteCarlo(engine),
            ),
    {
        if let Some(e) = self.executor_failure {
            return Err(e);
        }
        let dimension: u32 = #[verifier::truncate] (lv.step_count as u32);
        let bumps = match self.local_vol_bump_runtimes(m, w) {
            Err(e) => return Err(e),
            Ok(bumps) => bumps,
        };
        if lv.buckets.is_some() {
            return self.execute_local_vol_pseudo_with_vega_kt(
                m,
                b,
                w,
                k,
                q,
                lv,
                engine,
                dimension,
                bumps,
            );
        }
        self.execute_plain(m, b, w, q, lv, EngineConfig::PseudoMonteCarlo(engine), dimension, bumps)
    }

    /// The statistics of the plan on a pseudo-random engine, under a frozen exercise
    /// policy.
    pub fn local_vol_fixed_policy_pseudo_statistics<
        M: Math<R>,
        B: Backend<R>,
        W: LocalVolPaths<R>,
    >(
        &self,
        m: &M,
        b: &B,
        w: &W,
        lv: &LocalVolPlan<R>,
        engine: PseudoMonteCarlo,
        dimension: u32,
        stopping_indices: Vec<usize>,
    ) -> (r: Result<Vec<Statistics<R>>, MonteCarloError>)
        requires
            runnable(*self, *w, *lv, EngineConfig::PseudoMonteCarlo(engine)),
        ensures
            seen(r) == fixed_policy_statistics(
                m.model(),
                *b,
                *w,
                *self,
                *lv,
                EngineConfig::PseudoMonteCarlo(engine),
                dimension,
                stopping_indices@,
            ),
            r matches Ok(s) ==> s@.len() == PATHWISE_COMPONENTS,
    {
        self.fixed_policy_run(
            m,
            b,
            w,
            lv,
            EngineConfig::PseudoMonteCarlo(engine),
            dimension,
            stopping_indices,
        )
    }

    /// The statistics and the bucketed vega of the plan on a pseudo-random engine,
    /// under a frozen exercise policy.
    pub fn local_vol_fixed_policy_pseudo_statistics_with_vega_kt<
        M: Math<R>,
        B: Backend<R>,
        W: LocalVolPaths<R>,
        K: VegaBuckets<R>,
    >(
        &self,
        m: &M,
        b: &B,
        w: &W,
        k: &K,
        lv: &LocalVolPlan<R>,
        engine: PseudoMonteCarlo,
        dimension: u32,
        stopping_indices: Vec<usize>,
    ) -> (r: Result<(Vec<Statistics<R>>, K::Report), MonteCarloError>)
        requires
            runnable(*self, *w, *lv, EngineConfig::PseudoMonteCarlo(engine)),
        ensures
            (match r {
                Ok((s, report)) => Ok((s@, report)),
                Err(e) => Err(e),
            }) == fixed_policy_bucketed(
                m.model(),
                *b,
                *w,
                *k,
                *self,
                *lv,
                EngineConfig::PseudoMonteCarlo(engine),
                dimension,
                stopping_indices@,
            ),
            r matches Ok((s, report)) ==> s@.len() == PATHWISE_COMPONENTS,
    {
        self.fixed_policy_bucketed_run(
            m,
            b,
            w,
            k,
            lv,
            EngineConfig::PseudoMonteCarlo(engine),
            dimension,
            stopping_indices,
        )
    }

    /// Prices the plan with its bucketed vega on a scrambled engine.
    pub fn execute_local_vol_rqmc_with_vega_kt<
        M: Math<R>,
        B: Backend<R>,
        W: LocalVolPaths<R>,
        K: VegaBuckets<R>,
        Q: Publication<R>,
    >(
        &self,
        m: &M,
        b: &B,
        w: &W,
        k: &K,
        q: &Q,
        lv: &LocalVolPlan<R>,
        engine: RandomizedQuasiMonteCarlo,
        dimension: u32,
        bumps: Option<BumpSpots<R>>,
    ) -> (r: Result<MonteCarloPrice<R, K::Report>, MonteCarloError>)
        requires
            runnable(*self, *w, *lv, EngineConfig::RandomizedQuasiMonteCarlo(engine)),
        ensures
            reported(r) == bucketed_executed(
                m.model(),
                *b,
                *w,
                *k,
                *q,
                *self,
                *lv,
                EngineConfig::RandomizedQuasiMonteCarlo(engine),
                dimension,
                bumps,
            ),
    {
        self.execute_bucketed(
            m,
            b,
            w,
            k,
            q,
            lv,
            EngineConfig::RandomizedQuasiMonteCarlo(engine),
            dimension,
            bumps,
        )
    }

    /// Prices the plan on a scrambled engine. With buckets it is the bucketed
    /// simulation that prices it.
    pub fn execute_local_vol_rqmc<
        M: Math<R>,
        B: Backend<R>,
        W: LocalVolPaths<R>,
        K: VegaBuckets<R>,
        Q: Publication<R>,
    >(
        &self,
        m: &M,
        b: &B,
        w: &W,
        k: &K,
        q: &Q,
        lv: &LocalVolPlan<R>,
        engine: RandomizedQuasiMonteCarlo,
    ) -> (r: Result<MonteCarloPrice<R, K::Report>, MonteCarloError>)
        requires
            runnable(*self, *w, *lv, EngineConfig::RandomizedQuasiMonteCarlo(engine)),
        ensures
            reported(r) == local_vol_executed(
                m.model(),
                *b,
                *w,
                *k,
                *q,
                *self,
                *lv,
                EngineConfig::RandomizedQuasiMonteCarlo(engine),
            ),
    {
        if lv.step_count as u64 > u32::MAX as u64 {
            return Err(MonteCarloError::RqmcPlan);
        }
        if let Some(e) = self.quasi_failure {
            return Err(e);
        }
        if let Some(e) = bridge_refusal(self, &EngineConfig::RandomizedQuasiMonteCarlo(engine)) {
            return Err(e);
        }
        if let Some(e) = self.executor_failure {
            return Err(e);
        }
        let dimension: u32 = #[verifier::truncate] (lv.step_count as u32);
        let bumps = match self.local_vol_bump_runtimes(m, w) {
            Err(e) => return Err(e),
            Ok(bumps) => bumps,
        };
        if lv.buckets.is_some() {
            return self.execute_local_vol_rqmc_with_vega_kt(
                m,
                b,
                w,
                k,
                q,
                lv,
                engine,
                dimension,
                bumps,
            );
        }
        self.execute_plain(
            m,
            b,
            w,
            q,
            lv,
            EngineConfig::RandomizedQuasiMonteCarlo(engine),
            dimension,
            bumps,
        )
    }

    /// The statistics of the plan on a scrambled engine, under a frozen exercise
    /// policy.
    pub fn local_vol_fixed_policy_rqmc_statistics<
        M: Math<R>,
        B: Backend<R>,
        W: LocalVolPaths<R>,
    >(
        &self,
        m: &M,
        b: &B,
        w: &W,
        lv: &LocalVolPlan<R>,
        engine: RandomizedQuasiMonteCarlo,
        dimension: u32,
        stopping_indices: Vec<usize>,
    ) -> (r: Result<Vec<Statistics<R>>, MonteCarloError>)
        requires
            runnable(*self, *w, *lv, EngineConfig::RandomizedQuasiMonteCarlo(engine)),
        ensures
            seen(r) == fixed_policy_statistics(
                m.model(),
                *b,
                *w,
                *self,
                *lv,
                EngineConfig::RandomizedQuasiMonteCarlo(engine),
                dimension,
                stopping_indices@,
            ),
            r matches Ok(s) ==> s@.len() == PATHWISE_COMPONENTS,
    {
        self.fixed_policy_run(
            m,
            b,
            w,
            lv,
            EngineConfig::RandomizedQuasiMonteCarlo(engine),
            dimension,
            stopping_indices,
        )
    }

    /// The statistics and the bucketed vega of the plan on a scrambled engine,
    /// under a frozen exercise policy.
    pub fn local_vol_fixed_policy_rqmc_statistics_with_vega_kt<
        M: Math<R>,
        B: Backend<R>,
        W: LocalVolPaths<R>,
        K: VegaBuckets<R>,
    >(
        &self,
        m: &M,
        b: &B,
        w: &W,
        k: &K,
        lv: &LocalVolPlan<R>,
        engine: RandomizedQuasiMonteCarlo,
        dimension: u32,
        stopping_indices: Vec<usize>,
    ) -> (r: Result<(Vec<Statistics<R>>, K::Report), MonteCarloError>)
        requires
            runnable(*self, *w, *lv, EngineConfig::RandomizedQuasiMonteCarlo(engine)),
        ensures
            (match r {
                Ok((s, report)) => Ok((s@, report)),
                Err(e) => Err(e),
            }) == fixed_policy_bucketed(
                m.model(),
                *b,
                *w,
                *k,
                *self,
                *lv,
                EngineConfig::RandomizedQuasiMonteCarlo(engine),
                dimension,
                stopping_indices@,
            ),
            r matches Ok((s, report)) ==> s@.len() == PATHWISE_COMPONENTS,
    {
        self.fixed_policy_bucketed_run(
            m,
            b,
            w,
            k,
            lv,
            EngineConfig::RandomizedQuasiMonteCarlo(engine),
            dimension,
            stopping_indices,
        )
    }
}

} // verus!
