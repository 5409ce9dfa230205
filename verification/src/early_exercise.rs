//! Early exercise: a policy is trained on one set of paths, frozen, and valued
//! on another; its risk holds the policy fixed.

use crate::engine::{EngineConfig, RandomizedQuasiMonteCarlo};
use crate::errors::MonteCarloError;
use crate::local_vol_paths::LocalVolPaths;
use crate::local_vol_valuation::{fixed_policy_bucketed, fixed_policy_statistics, runnable};
use crate::models::Fingerprint;
use crate::pathwise::LocalVolPlan;
use crate::plan::{engine_paths, engine_units};
use crate::pricing::{
    describe_run, engine_estimator, estimator_of, reported, run_diagnostics,
    EarlyExerciseDiagnostics, ExerciseReport, MonteCarloDiagnostics, MonteCarloPrice,
    PayoffValuationKind, PriceReport,
};
use crate::report::{
    diagnostics_of, empty_risk_diagnostics, estimate_from_statistics, estimate_of,
    extrapolation_warnings, extrapolation_warnings_of, frozen, local_vol_methods, no_methods,
    published, replay_of, risk_report_of, unvalidated, Publication, RiskDiagnostics, RiskReport,
};
use crate::sampling::{Backend, Statistics};
use crate::scalar::{lawful, literal, over, times, Math, Model, Scalar};
use crate::simulation::{Checksums, RandomDomain, SimulationPlan};
use crate::spot_paths::ExercisePolicies;
use crate::vega_kt::VegaBuckets;
use vstd::prelude::*;

verus! {

/// The discounted cash flows of training paths: each times the discount factor
/// of its stopping index.
pub open spec fn in_sample_cashflows<R: Scalar>(
    cashflows: Seq<R>,
    stops: Seq<usize>,
    discounts: Seq<R>,
) -> Seq<R> {
    Seq::new(
        if cashflows.len() <= stops.len() {
            cashflows.len()
        } else {
            stops.len()
        },
        |i: int| times(cashflows[i], discounts[stops[i] as int]),
    )
}

/// Discounts the cash flows of training paths.
pub fn discount_cashflows<R: Scalar, M: Math<R>>(
    m: &M,
    cashflows: &Vec<R>,
    stops: &Vec<usize>,
    discounts: &Vec<R>,
) -> (v: Vec<R>)
    requires
        forall|i: int| 0 <= i < stops@.len() ==> #[trigger] stops@[i] < discounts@.len(),
    ensures
        v@ == in_sample_cashflows(cashflows@, stops@, discounts@),
{
    m.laws();
    let mut v: Vec<R> = Vec::new();
    let mut i: usize = 0;
    while i < cashflows.len() && i < stops.len()
        invariant
            lawful::<R>(),
            i <= cashflows@.len(),
            i <= stops@.len(),
            forall|i: int| 0 <= i < stops@.len() ==> #[trigger] stops@[i] < discounts@.len(),
            v@.len() == i,
            forall|k: int|
                0 <= k < i ==> #[trigger] v@[k] == times(
                    cashflows@[k],
                    discounts@[stops@[k] as int],
                ),
        decreases cashflows@.len() - i,
    {
        v.push(cashflows[i] * discounts[stops[i]]);
        i = i + 1;
    }
    assert(v@ =~= in_sample_cashflows(cashflows@, stops@, discounts@));
    v
}

/// The fraction of the paths that stop at each exercise date.
pub open spec fn exercise_fractions<R: Scalar>(
    m: Model<R>,
    counts: Seq<u64>,
    paths: u64,
) -> Seq<R> {
    Seq::new(counts.len(), |i: int| over(m.of(counts[i]), m.of(paths)))
}

/// Takes the fraction of the paths that stop at each exercise date.
pub fn take_fractions<R: Scalar, M: Math<R>>(m: &M, counts: &Vec<u64>, paths: u64) -> (v: Vec<R>)
    ensures
        v@ == exercise_fractions(m.model(), counts@, paths),
{
    m.laws();
    let all = m.of(paths);
    let mut v: Vec<R> = Vec::new();
    let mut i: usize = 0;
    while i < counts.len()
        invariant
            lawful::<R>(),
            i <= counts@.len(),
            all == m.model().of(paths),
            v@.len() == i,
            forall|k: int|
                0 <= k < i ==> #[trigger] v@[k] == over(m.model().of(counts@[k]), all),
        decreases counts@.len() - i,
    {
        v.push(m.of(counts[i]) / all);
        i = i + 1;
    }
    assert(v@ =~= exercise_fractions(m.model(), counts@, paths));
    v
}

/// The risk of a plan under a frozen policy: its report, its bucketed vega and
/// its diagnostics.
pub ghost struct FrozenRisk<R, V> {
    pub risks: RiskReport<R>,
    pub vega_kt: Option<V>,
    pub diagnostics: RiskDiagnostics<R>,
}

/// No risk.
pub open spec fn no_risk<R: Scalar, V>(plan: SimulationPlan<R>) -> FrozenRisk<R, V> {
    FrozenRisk {
        risks: RiskReport { delta: None, gamma: None, vega: None },
        vega_kt: None,
        diagnostics: unvalidated(no_methods(plan.smile_dynamics)),
    }
}

/// The statistics behind the risk of a frozen policy, with the bucketed vega of
/// a local volatility that was asked for one.
pub open spec fn frozen_statistics<
    R: Scalar,
    B: Backend<R>,
    W: LocalVolPaths<R>,
    K: VegaBuckets<R>,
    X: ExercisePolicies<R>,
>(
    m: Model<R>,
    b: B,
    w: W,
    k: K,
    x: X,
    plan: SimulationPlan<R>,
    lv: Option<LocalVolPlan<R>>,
    engine: EngineConfig,
    dimension: u32,
    stops: Seq<usize>,
) -> Result<(Seq<Statistics<R>>, Option<K::Report>), MonteCarloError> {
    match lv {
        None => match x.constant_vol_statistics_of(engine, stops) {
            Err(e) => Err(e),
            Ok(s) => Ok((s, None)),
        },
        Some(lv) => if lv.buckets is Some {
            match fixed_policy_bucketed(m, b, w, k, plan, lv, engine, dimension, stops) {
                Err(e) => Err(e),
                Ok((s, report)) => Ok((s, Some(report))),
            }
        } else {
            match fixed_policy_statistics(m, b, w, plan, lv, engine, dimension, stops) {
                Err(e) => Err(e),
                Ok(s) => Ok((s, None)),
            }
        },
    }
}

/// Whether a plan with early exercise estimates any risk.
pub open spec fn frozen_risk_wanted<R: Scalar>(
    plan: SimulationPlan<R>,
    lv: Option<LocalVolPlan<R>>,
) -> bool {
    plan.risk_requested() || (lv matches Some(l) && l.buckets is Some)
}

/// The risk of a plan under a frozen policy.
pub open spec fn frozen_risk<
    R: Scalar,
    B: Backend<R>,
    W: LocalVolPaths<R>,
    K: VegaBuckets<R>,
    Q: Publication<R>,
    X: ExercisePolicies<R>,
>(
    m: Model<R>,
    b: B,
    w: W,
    k: K,
    q: Q,
    x: X,
    plan: SimulationPlan<R>,
    lv: Option<LocalVolPlan<R>>,
    engine: EngineConfig,
    dimension: u32,
    stops: Seq<usize>,
    policy: Fingerprint,
) -> Result<FrozenRisk<R, K::Report>, MonteCarloError> {
    if !frozen_risk_wanted(plan, lv) {
        Ok(no_risk(plan))
    } else {
        match frozen_statistics(m, b, w, k, x, plan, lv, engine, dimension, stops) {
            Err(e) => Err(e),
            Ok((s, vega_kt)) => match risk_report_of(
                m,
                q,
                plan,
                s,
                engine.units(),
                estimator_of(engine),
            ) {
                Err(e) => Err(e),
                Ok(risks) => if lv is Some {
                    Ok(
                        FrozenRisk {
                            risks,
                            vega_kt,
                            diagnostics: frozen(unvalidated(local_vol_methods(plan)), policy),
                        },
                    )
                } else {
                    match diagnostics_of(m, q, plan, s, engine.units(), estimator_of(engine)) {
                        Err(e) => Err(e),
                        Ok(d) => Ok(FrozenRisk { risks, vega_kt, diagnostics: frozen(d, policy) }),
                    }
                },
            },
        }
    }
}

/// Training and valuation run on engines of the same kind.
pub open spec fn same_kind(training: EngineConfig, valuation: EngineConfig) -> bool {
    (training is PseudoMonteCarlo) == (valuation is PseudoMonteCarlo)
}

/// The policy that the training paths give, and the valuation paths under it.
pub open spec fn policy_of<R: Scalar, X: ExercisePolicies<R>>(
    x: X,
    training: EngineConfig,
    valuation: EngineConfig,
) -> Result<(X::Matrices, X::Fitted, X::Matrices, X::Valued), MonteCarloError> {
    match x.matrices_of(true, training) {
        Err(e) => Err(e),
        Ok(trained_on) => match x.metadata_failure_of() {
            Some(e) => Err(e),
            None => match x.trained(trained_on) {
                Err(e) => Err(e),
                Ok(fitted) => match x.matrices_of(false, valuation) {
                    Err(e) => Err(e),
                    Ok(valued_on) => match x.valued(fitted, valued_on) {
                        Err(e) => Err(e),
                        Ok(valued) => Ok((trained_on, fitted, valued_on, valued)),
                    },
                },
            },
        },
    }
}

/// The mean of a few values.
pub open spec fn unit_mean<R: Scalar, B: Backend<R>>(m: Model<R>, b: B, values: Seq<R>) -> R {
    over(b.two_pass_of(values).total, m.of(values.len() as u64))
}

/// The sample variance, or zero where there is none.
pub open spec fn variance_or_zero<R: Scalar>(s: Statistics<R>) -> R {
    match s.sample_variance {
        Some(v) => v,
        None => literal(0),
    }
}

/// The checksums of the tables of an engine, where it has some.
pub open spec fn engine_checksums(engine: EngineConfig, tables: Checksums) -> Option<Checksums> {
    if engine is RandomizedQuasiMonteCarlo {
        Some(tables)
    } else {
        None
    }
}

fn take_checksums(engine: &EngineConfig, tables: Checksums) -> (c: Option<Checksums>)
    ensures
        c == engine_checksums(*engine, tables),
{
    match engine {
        EngineConfig::PseudoMonteCarlo(_) => None,
        EngineConfig::RandomizedQuasiMonteCarlo(_) => Some(tables),
    }
}

/// What the random numbers of an engine are for: scrambled points are for nothing else,
/// and pseudo-random ones are for `pseudo`.
pub open spec fn engine_domain(engine: EngineConfig, pseudo: RandomDomain) -> RandomDomain {
    if engine is RandomizedQuasiMonteCarlo {
        RandomDomain::RqmcScramble
    } else {
        pseudo
    }
}

fn take_domain(engine: &EngineConfig, pseudo: RandomDomain) -> (d: RandomDomain)
    ensures
        d == engine_domain(*engine, pseudo),
{
    match engine {
        EngineConfig::PseudoMonteCarlo(_) => pseudo,
        EngineConfig::RandomizedQuasiMonteCarlo(_) => RandomDomain::RqmcScramble,
    }
}

/// The diagnostics of a run with early exercise: the payoff is the contractual
/// one, the tables are those of the valuation, and there is no state and no bridge.
pub open spec fn exercise_diagnostics<R: Scalar>(
    plan: SimulationPlan<R>,
    engine: EngineConfig,
    tables: Checksums,
) -> MonteCarloDiagnostics<R> {
    MonteCarloDiagnostics {
        checksums: engine_checksums(engine, tables),
        valuation_kind: PayoffValuationKind::ExactContractual,
        payoff_smoothing: None,
        path_state: None,
        ..run_diagnostics(plan, engine, true, None)
    }
}

/// The price of a plan with early exercise.
pub open spec fn exercise_executed<
    R: Scalar,
    B: Backend<R>,
    W: LocalVolPaths<R>,
    K: VegaBuckets<R>,
    Q: Publication<R>,
    X: ExercisePolicies<R>,
>(
    m: Model<R>,
    b: B,
    w: W,
    k: K,
    q: Q,
    x: X,
    plan: SimulationPlan<R>,
    lv: Option<LocalVolPlan<R>>,
    training: EngineConfig,
    dimension: u32,
) -> Result<PriceReport<R, K::Report>, MonteCarloError> {
    let engine = plan.engine;
    let units = engine.units();
    if !same_kind(training, engine) {
        Err(MonteCarloError::UnsupportedEngine)
    } else {
        match policy_of(x, training, engine) {
            Err(e) => Err(e),
            Ok((trained_on, fitted, valued_on, valued)) => match x.unit_values_of(
                x.cashflows_of(valued),
                engine,
            ) {
                Err(e) => Err(e),
                Ok(values) => {
                    let s = b.two_pass_of(values);
                    match published(
                        q,
                        estimate_of(
                            m,
                            s,
                            units,
                            literal(1),
                            plan.normal_quantile,
                            estimator_of(engine),
                        ),
                    ) {
                        Err(e) => Err(e),
                        Ok(value) => match x.unit_values_of(
                            in_sample_cashflows(
                                x.realized_of(fitted),
                                x.training_stops_of(fitted),
                                x.discounts_of(),
                            ),
                            training,
                        ) {
                            Err(e) => Err(e),
                            Ok(in_sample) => match frozen_risk(
                                m,
                                b,
                                w,
                                k,
                                q,
                                x,
                                plan,
                                lv,
                                engine,
                                dimension,
                                x.stops_of(valued),
                                x.fingerprint_of(valued),
                            ) {
                                Err(e) => Err(e),
                                Ok(risk) => Ok(
                                    PriceReport {
                                        value,
                                        risks: risk.risks,
                                        vega_kt: risk.vega_kt,
                                        warnings: extrapolation_warnings_of(
                                            plan.discount_region,
                                            plan.dividend_region,
                                        ),
                                        replay: replay_of(plan),
                                        sampling_variance: variance_or_zero(s),
                                        estimator_variance: over(variance_or_zero(s), m.of(units)),
                                        risk_diagnostics: risk.diagnostics,
                                        independent_sampling_units: units,
                                        evaluated_paths: engine.paths() as u128,
                                        diagnostics: exercise_diagnostics(
                                            plan,
                                            engine,
                                            x.checksums_of(valued_on),
                                        ),
                                        early_exercise: Some(
                                            ExerciseReport {
                                                policy_fingerprint: x.fingerprint_of(valued),
                                                training_random_domain: engine_domain(
                                                    training,
                                                    x.training_domain_of(),
                                                ),
                                                valuation_random_domain: engine_domain(
                                                    engine,
                                                    RandomDomain::Valuation,
                                                ),
                                                training_checksums: engine_checksums(
                                                    training,
                                                    x.checksums_of(trained_on),
                                                ),
                                                valuation_checksums: engine_checksums(
                                                    engine,
                                                    x.checksums_of(valued_on),
                                                ),
                                                training_sampling_units: training.units(),
                                                training_trajectories: x.path_count_of(
                                                    trained_on,
                                                ) as u64,
                                                valuation_sampling_units: units,
                                                valuation_trajectories: x.path_count_of(
                                                    valued_on,
                                                ) as u64,
                                                in_sample_value: unit_mean(m, b, in_sample),
                                                exercise_dates: x.dates_of(),
                                                exercise_counts: x.counts_of(valued),
                                                exercise_probabilities: exercise_fractions(
                                                    m,
                                                    x.counts_of(valued),
                                                    x.path_count_of(valued_on) as u64,
                                                ),
                                                stopping_indices: x.stops_of(valued),
                                                dividend_collisions: x.collisions_of(),
                                                policy: x.details_of(fitted),
                                            },
                                        ),
                                    },
                                ),
                            },
                        },
                    }
                },
            },
        }
    }
}

/// Copies stopping indices.
fn copy_indices(v: &Vec<usize>) -> (c: Vec<usize>)
    ensures
        c@ == v@,
{
    let mut c: Vec<usize> = Vec::new();
    let mut i: usize = 0;
    while i < v.len()
        invariant
            i <= v@.len(),
            c@ == v@.take(i as int),
        decreases v@.len() - i,
    {
        c.push(v[i]);
        i = i + 1;
        assert(c@ =~= v@.take(i as int));
    }
    assert(v@.take(i as int) =~= v@);
    c
}

impl<R: Scalar> SimulationPlan<R> {
    /// Estimates the risk of the plan under a frozen policy.
    fn freeze_risk<
        M: Math<R>,
        B: Backend<R>,
        W: LocalVolPaths<R>,
        K: VegaBuckets<R>,
        Q: Publication<R>,
        X: ExercisePolicies<R>,
    >(
        &self,
        m: &M,
        b: &B,
        w: &W,
        k: &K,
        q: &Q,
        x: &X,
        lv: &Option<LocalVolPlan<R>>,
        engine: EngineConfig,
        dimension: u32,
        stops: &Vec<usize>,
        policy: Fingerprint,
    ) -> (r: Result<(RiskReport<R>, Option<K::Report>, RiskDiagnostics<R>), MonteCarloError>)
        requires
            *lv matches Some(l) ==> runnable(*self, *w, l, engine),
        ensures
            (match r {
                Ok((risks, vega_kt, diagnostics)) => Ok(
                    (FrozenRisk { risks, vega_kt, diagnostics }),
                ),
                Err(e) => Err(e),
            }) == frozen_risk(
                m.model(),
                *b,
                *w,
                *k,
                *q,
                *x,
                *self,
                *lv,
                engine,
                dimension,
                stops@,
                policy,
            ),
    {
        let bucketed = match lv {
            Some(l) => l.buckets.is_some(),
            None => false,
        };
        if !self.risk_enabled() && !bucketed {
            return Ok(
                (
                    RiskReport { delta: None, gamma: None, vega: None },
                    None,
                    empty_risk_diagnostics(self.smile_dynamics),
                ),
            );
        }
        let indices = copy_indices(stops);
        let (s, vega_kt): (Vec<Statistics<R>>, Option<K::Report>) = match lv {
            None => match x.constant_vol_statistics(engine, &indices) {
                Err(e) => return Err(e),
                Ok(s) => (s, None),
            },
            Some(l) => match engine {
                EngineConfig::PseudoMonteCarlo(c) => if bucketed {
                    match self.local_vol_fixed_policy_pseudo_statistics_with_vega_kt(
                        m,
                        b,
                        w,
                        k,
                        l,
                        c,
                        dimension,
                        indices,
                    ) {
                        Err(e) => return Err(e),
                        Ok((s, report)) => (s, Some(report)),
                    }
                } else {
                    match self.local_vol_fixed_policy_pseudo_statistics(
                        m,
                        b,
                        w,
                        l,
                        c,
                        dimension,
                        indices,
                    ) {
                        Err(e) => return Err(e),
                        Ok(s) => (s, None),
                    }
                },
                EngineConfig::RandomizedQuasiMonteCarlo(c) => if bucketed {
                    match self.local_vol_fixed_policy_rqmc_statistics_with_vega_kt(
                        m,
                        b,
                        w,
                        k,
                        l,
                        c,
                        dimension,
                        indices,
                    ) {
                        Err(e) => return Err(e),
                        Ok((s, report)) => (s, Some(report)),
                    }
                } else {
                    match self.local_vol_fixed_policy_rqmc_statistics(
                        m,
                        b,
                        w,
                        l,
                        c,
                        dimension,
                        indices,
                    ) {
                        Err(e) => return Err(e),
                        Ok(s) => (s, None),
                    }
                },
            },
        };
        let units = engine_units(&engine);
        let estimator = engine_estimator(&engine);
        let risks = match self.build_risk_report(m, q, &s, units, estimator) {
            Err(e) => return Err(e),
            Ok(risks) => risks,
        };
        let diagnostics = if lv.is_some() {
            self.build_local_vol_fixed_policy_risk_diagnostics(m, policy)
        } else {
            match self.build_fixed_policy_risk_diagnostics(m, q, &s, units, estimator, policy) {
                Err(e) => return Err(e),
                Ok(d) => d,
            }
        };
        Ok((risks, vega_kt, diagnostics))
    }
}

impl<R: Scalar> SimulationPlan<R> {
    /// Trains the policy, values it and takes its risk. Both engines are of the
    /// same kind.
    fn execute_policy<
        M: Math<R>,
        B: Backend<R>,
        W: LocalVolPaths<R>,
        K: VegaBuckets<R>,
        Q: Publication<R>,
        X: ExercisePolicies<R>,
    >(
        &self,
        m: &M,
        b: &B,
        w: &W,
        k: &K,
        q: &Q,
        x: &X,
        lv: &Option<LocalVolPlan<R>>,
        training: EngineConfig,
        dimension: u32,
    ) -> (r: Result<MonteCarloPrice<R, K::Report>, MonteCarloError>)
        requires
            same_kind(training, self.engine),
            *lv matches Some(l) ==> runnable(*self, *w, l, self.engine),
        ensures
            reported(r) == exercise_executed(
                m.model(),
                *b,
                *w,
                *k,
                *q,
                *x,
                *self,
                *lv,
                training,
                dimension,
            ),
    {
        m.laws();
        let engine = self.engine;
        let trained_on = match x.matrices(true, training) {
            Err(e) => return Err(e),
            Ok(v) => v,
        };
        if let Some(e) = x.metadata_failure() {
            return Err(e);
        }
        let fitted = match x.train(&trained_on) {
            Err(e) => return Err(e),
            Ok(v) => v,
        };
        let valued_on = match x.matrices(false, engine) {
            Err(e) => return Err(e),
            Ok(v) => v,
        };
        let valued = match x.value(&fitted, &valued_on) {
            Err(e) => return Err(e),
            Ok(v) => v,
        };
        let cashflows = x.discounted_cashflows(&valued);
        let values = match x.unit_values(&cashflows, engine) {
            Err(e) => return Err(e),
            Ok(v) => v,
        };
        let s = b.two_pass(&values);
        let units = engine_units(&engine);
        let value = match estimate_from_statistics(
            m,
            q,
            s,
            units,
            R::from(1u32),
            self.normal_quantile,
            engine_estimator(&engine),
        ) {
            Err(e) => return Err(e),
            Ok(v) => v,
        };
        let sampling_variance = match s.sample_variance {
            Some(v) => v,
            None => R::from(0u32),
        };
        let estimator_variance = sampling_variance / m.of(units);
        let realized = x.realized_cashflows(&fitted);
        let training_stops = x.training_stops(&fitted);
        let discounts = x.discount_factors();
        let discounted = discount_cashflows(m, &realized, &training_stops, &discounts);
        let in_sample = match x.unit_values(&discounted, training) {
            Err(e) => return Err(e),
            Ok(v) => v,
        };
        let in_sample_value = b.two_pass(&in_sample).total / m.of(in_sample.len() as u64);
        let stopping_indices = x.stopping_indices(&valued);
        let policy_fingerprint = x.policy_fingerprint(&valued);
        let (risks, vega_kt, risk_diagnostics) = match self.freeze_risk(
            m,
            b,
            w,
            k,
            q,
            x,
            lv,
            engine,
            dimension,
            &stopping_indices,
            policy_fingerprint,
        ) {
            Err(e) => return Err(e),
            Ok(v) => v,
        };
        let exercise_counts = x.exercise_counts(&valued);
        let valuation_trajectories = x.path_count(&valued_on) as u64;
        let exercise_probabilities = take_fractions(m, &exercise_counts, valuation_trajectories);
        let mut diagnostics = describe_run(self, &engine, true, None);
        diagnostics.valuation_kind = PayoffValuationKind::ExactContractual;
        diagnostics.payoff_smoothing = None;
        diagnostics.path_state = None;
        let valuation_checksums = take_checksums(&engine, x.table_checksums(&valued_on));
        diagnostics.checksums = valuation_checksums;
        Ok(
            MonteCarloPrice {
                value,
                risks,
                vega_kt,
                warnings: extrapolation_warnings(
                    self.discount_region,
                    self.dividend_region,
                ),
                replay: self.replay_metadata(),
                sampling_variance,
                estimator_variance,
                risk_diagnostics,
                independent_sampling_units: units,
                evaluated_paths: engine_paths(&engine),
                diagnostics,
                early_exercise: Some(
                    EarlyExerciseDiagnostics {
                        policy_fingerprint,
                        training_random_domain: take_domain(&training, x.training_domain()),
                        valuation_random_domain: take_domain(&engine, RandomDomain::Valuation),
                        training_checksums: take_checksums(
                            &training,
                            x.table_checksums(&trained_on),
                        ),
                        valuation_checksums,
                        training_sampling_units: engine_units(&training),
                        training_trajectories: x.path_count(&trained_on) as u64,
                        valuation_sampling_units: units,
                        valuation_trajectories,
                        in_sample_value,
                        exercise_dates: x.exercise_dates(),
                        exercise_counts,
                        exercise_probabilities,
                        stopping_indices,
                        dividend_collisions: x.dividend_collisions(),
                        policy: x.policy_details(&fitted),
                    },
                ),
            },
        )
    }

    /// Prices a plan with early exercise on scrambled engines: `training` for
    /// the policy, and the plan's own for its value.
    pub fn execute_early_exercise_rqmc<
        M: Math<R>,
        B: Backend<R>,
        W: LocalVolPaths<R>,
        K: VegaBuckets<R>,
        Q: Publication<R>,
        X: ExercisePolicies<R>,
    >(
        &self,
        m: &M,
        b: &B,
        w: &W,
        k: &K,
        q: &Q,
        x: &X,
        lv: &Option<LocalVolPlan<R>>,
        training: RandomizedQuasiMonteCarlo,
        dimension: u32,
    ) -> (r: Result<MonteCarloPrice<R, K::Report>, MonteCarloError>)
        requires
            self.engine is RandomizedQuasiMonteCarlo,
            *lv matches Some(l) ==> runnable(*self, *w, l, self.engine),
        ensures
            reported(r) == exercise_executed(
                m.model(),
                *b,
                *w,
                *k,
                *q,
                *x,
                *self,
                *lv,
                EngineConfig::RandomizedQuasiMonteCarlo(training),
                dimension,
            ),
    {
        self.execute_policy(
            m,
            b,
            w,
            k,
            q,
            x,
            lv,
            EngineConfig::RandomizedQuasiMonteCarlo(training),
            dimension,
        )
    }

    /// Prices a plan with early exercise. Training and valuation must use
    /// engines of the same kind.
    pub fn execute_early_exercise<
        M: Math<R>,
        B: Backend<R>,
        W: LocalVolPaths<R>,
        K: VegaBuckets<R>,
        Q: Publication<R>,
        X: ExercisePolicies<R>,
    >(
        &self,
        m: &M,
        b: &B,
        w: &W,
        k: &K,
        q: &Q,
        x: &X,
        lv: &Option<LocalVolPlan<R>>,
        training: EngineConfig,
        dimension: u32,
    ) -> (r: Result<MonteCarloPrice<R, K::Report>, MonteCarloError>)
        requires
            *lv matches Some(l) ==> runnable(*self, *w, l, self.engine),
        ensures
            reported(r) == exercise_executed(
                m.model(),
                *b,
                *w,
                *k,
                *q,
                *x,
                *self,
                *lv,
                training,
                dimension,
            ),
    {
        match (training, self.engine) {
            (
                EngineConfig::RandomizedQuasiMonteCarlo(t),
                EngineConfig::RandomizedQuasiMonteCarlo(_),
            ) => self.execute_early_exercise_rqmc(m, b, w, k, q, x, lv, t, dimension),
            (EngineConfig::PseudoMonteCarlo(_), EngineConfig::PseudoMonteCarlo(_)) =>
                self.execute_policy(m, b, w, k, q, x, lv, training, dimension),
            _ => Err(MonteCarloError::UnsupportedEngine),
        }
    }
}

} // verus!
