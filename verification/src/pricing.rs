//! The result of a valuation, and how it is made of the statistics of a
//! simulation.

use crate::engine::EngineConfig;
use crate::errors::MonteCarloError;
use crate::models::Fingerprint;
use crate::plan::{engine_paths, engine_units};
use crate::report::{
    barrier_diagnostics_of, extrapolation_warnings, extrapolation_warnings_of, replay_of,
    BarrierBridgeDiagnostics, Estimate, PayoffSmoothingDiagnostics, PricingWarning,
    ReplayMetadata, ReplayView, RiskDiagnostics, RiskReport,
};
use crate::sampling::Statistics;
use crate::scalar::{literal, over, Math, Model, Scalar};
use crate::simulation::{
    Checksums, CurveRegion, EstimatorKind, ExecutionPolicies, RandomDomain, SimulationPlan,
    PATHWISE_COMPONENTS,
};
use crate::spot_paths::ExercisePolicyDetails;
use vstd::prelude::*;

verus! {

/// Whether the payoff that was valued is the contractual one.
#[derive(Clone, Copy, Debug, PartialEq, Eq, Structural)]
pub enum PayoffValuationKind {
    ExactContractual,
    SmoothedSurrogate,
}

/// How a price was made.
#[derive(Clone, Copy, Debug)]
pub struct MonteCarloDiagnostics<R> {
    pub master_seed: u64,
    pub estimator: EstimatorKind,
    pub scramble_count: Option<u32>,
    pub checksums: Option<Checksums>,
    pub execution: ExecutionPolicies,
    pub antithetic: bool,
    pub discount_region: CurveRegion,
    pub dividend_region: CurveRegion,
    pub payoff_fingerprint: Fingerprint,
    pub valuation_kind: PayoffValuationKind,
    pub payoff_smoothing: Option<PayoffSmoothingDiagnostics<R>>,
    /// The number of the description of the path state, if there is one.
    pub path_state: Option<u64>,
    pub barrier_bridge: Option<BarrierBridgeDiagnostics<R>>,
}

/// How an exercise policy was trained and used.
pub struct EarlyExerciseDiagnostics<R> {
    pub policy_fingerprint: Fingerprint,
    pub training_random_domain: RandomDomain,
    pub valuation_random_domain: RandomDomain,
    /// The checksums of the tables of the training, where they are quasi-random.
    pub training_checksums: Option<Checksums>,
    /// The checksums of the tables of the valuation, where they are quasi-random.
    pub valuation_checksums: Option<Checksums>,
    pub training_sampling_units: u64,
    pub training_trajectories: u64,
    pub valuation_sampling_units: u64,
    pub valuation_trajectories: u64,
    /// The value of the policy on the paths that it was trained on.
    pub in_sample_value: R,
    pub exercise_dates: Vec<i64>,
    pub exercise_counts: Vec<u64>,
    pub exercise_probabilities: Vec<R>,
    pub stopping_indices: Vec<usize>,
    /// The exercise dates that a dividend falls on.
    pub dividend_collisions: Vec<i64>,
    pub policy: ExercisePolicyDetails<R>,
}

/// A price with its risk and diagnostics. `V` is a bucketed vega.
pub struct MonteCarloPrice<R, V> {
    pub value: Estimate<R>,
    pub risks: RiskReport<R>,
    pub vega_kt: Option<V>,
    pub warnings: Vec<PricingWarning>,
    pub replay: ReplayMetadata,
    pub sampling_variance: R,
    pub estimator_variance: R,
    pub risk_diagnostics: RiskDiagnostics<R>,
    pub independent_sampling_units: u64,
    pub evaluated_paths: u128,
    pub diagnostics: MonteCarloDiagnostics<R>,
    pub early_exercise: Option<EarlyExerciseDiagnostics<R>>,
}

/// How an exercise policy was trained and used, with its vectors as sequences.
pub ghost struct ExerciseReport<R> {
    pub policy_fingerprint: Fingerprint,
    pub training_random_domain: RandomDomain,
    pub valuation_random_domain: RandomDomain,
    /// The checksums of the tables of the training, where they are quasi-random.
    pub training_checksums: Option<Checksums>,
    /// The checksums of the tables of the valuation, where they are quasi-random.
    pub valuation_checksums: Option<Checksums>,
    pub training_sampling_units: u64,
    pub training_trajectories: u64,
    pub valuation_sampling_units: u64,
    pub valuation_trajectories: u64,
    pub in_sample_value: R,
    pub exercise_dates: Seq<i64>,
    pub exercise_counts: Seq<u64>,
    pub exercise_probabilities: Seq<R>,
    pub stopping_indices: Seq<usize>,
    /// The exercise dates that a dividend falls on.
    pub dividend_collisions: Seq<i64>,
    pub policy: ExercisePolicyDetails<R>,
}

/// A price with its vectors as sequences.
pub ghost struct PriceReport<R, V> {
    pub value: Estimate<R>,
    pub risks: RiskReport<R>,
    pub vega_kt: Option<V>,
    pub warnings: Seq<PricingWarning>,
    pub replay: ReplayView,
    pub sampling_variance: R,
    pub estimator_variance: R,
    pub risk_diagnostics: RiskDiagnostics<R>,
    pub independent_sampling_units: u64,
    pub evaluated_paths: u128,
    pub diagnostics: MonteCarloDiagnostics<R>,
    pub early_exercise: Option<ExerciseReport<R>>,
}

impl<R> EarlyExerciseDiagnostics<R> {
    pub open spec fn report(self) -> ExerciseReport<R> {
        ExerciseReport {
            policy_fingerprint: self.policy_fingerprint,
            training_random_domain: self.training_random_domain,
            valuation_random_domain: self.valuation_random_domain,
            training_checksums: self.training_checksums,
            valuation_checksums: self.valuation_checksums,
            training_sampling_units: self.training_sampling_units,
            training_trajectories: self.training_trajectories,
            valuation_sampling_units: self.valuation_sampling_units,
            valuation_trajectories: self.valuation_trajectories,
            in_sample_value: self.in_sample_value,
            exercise_dates: self.exercise_dates@,
            exercise_counts: self.exercise_counts@,
            exercise_probabilities: self.exercise_probabilities@,
            stopping_indices: self.stopping_indices@,
            dividend_collisions: self.dividend_collisions@,
            policy: self.policy,
        }
    }
}

impl<R, V> MonteCarloPrice<R, V> {
    pub open spec fn report(self) -> PriceReport<R, V> {
        PriceReport {
            value: self.value,
            risks: self.risks,
            vega_kt: self.vega_kt,
            warnings: self.warnings@,
            replay: self.replay@,
            sampling_variance: self.sampling_variance,
            estimator_variance: self.estimator_variance,
            risk_diagnostics: self.risk_diagnostics,
            independent_sampling_units: self.independent_sampling_units,
            evaluated_paths: self.evaluated_paths,
            diagnostics: self.diagnostics,
            early_exercise: match self.early_exercise {
                Some(e) => Some(e.report()),
                None => None,
            },
        }
    }
}

/// A result with its price as a report.
pub open spec fn reported<R, V>(r: Result<MonteCarloPrice<R, V>, MonteCarloError>) -> Result<
    PriceReport<R, V>,
    MonteCarloError,
> {
    match r {
        Ok(p) => Ok(p.report()),
        Err(e) => Err(e),
    }
}

/// The estimator of an engine.
pub open spec fn estimator_of(engine: EngineConfig) -> EstimatorKind {
    match engine {
        EngineConfig::PseudoMonteCarlo(_) => EstimatorKind::PseudoMonteCarlo,
        EngineConfig::RandomizedQuasiMonteCarlo(_) => EstimatorKind::RandomizedQuasiMonteCarlo,
    }
}

/// The estimator of an engine.
pub fn engine_estimator(engine: &EngineConfig) -> (k: EstimatorKind)
    ensures
        k == estimator_of(*engine),
{
    match engine {
        EngineConfig::PseudoMonteCarlo(_) => EstimatorKind::PseudoMonteCarlo,
        EngineConfig::RandomizedQuasiMonteCarlo(_) => EstimatorKind::RandomizedQuasiMonteCarlo,
    }
}

/// How a plan values its payoff.
pub open spec fn valuation_kind_of<R>(plan: SimulationPlan<R>) -> PayoffValuationKind {
    if plan.payoff_smoothing is Some {
        PayoffValuationKind::SmoothedSurrogate
    } else {
        PayoffValuationKind::ExactContractual
    }
}

/// The diagnostics of an engine, and of a payoff as the plan has it. Tables of
/// a quasi-random plan have checksums where they were made.
pub open spec fn run_diagnostics<R: Scalar>(
    plan: SimulationPlan<R>,
    engine: EngineConfig,
    tables: bool,
    barrier_bridge: Option<BarrierBridgeDiagnostics<R>>,
) -> MonteCarloDiagnostics<R> {
    MonteCarloDiagnostics {
        master_seed: match engine {
            EngineConfig::PseudoMonteCarlo(c) => c.master_seed,
            EngineConfig::RandomizedQuasiMonteCarlo(c) => c.master_seed,
        },
        estimator: estimator_of(engine),
        scramble_count: match engine {
            EngineConfig::PseudoMonteCarlo(_) => None,
            EngineConfig::RandomizedQuasiMonteCarlo(c) => Some(c.scramble_count),
        },
        checksums: if tables && engine is RandomizedQuasiMonteCarlo {
            Some(plan.checksums)
        } else {
            None
        },
        execution: plan.execution,
        antithetic: engine.reduction().antithetic,
        discount_region: plan.discount_region,
        dividend_region: plan.dividend_region,
        payoff_fingerprint: plan.payoff_fingerprint,
        valuation_kind: valuation_kind_of(plan),
        payoff_smoothing: match plan.payoff_smoothing {
            Some(smoothing) => Some(
                PayoffSmoothingDiagnostics {
                    smoothing,
                    endpoint_count: plan.payoff_smoothing_endpoint_count,
                    dividend_jump_count: plan.payoff_smoothing_dividend_jump_count,
                },
            ),
            None => None,
        },
        path_state: plan.path_state,
        barrier_bridge,
    }
}

/// Describes a run.
pub fn describe_run<R: Scalar>(
    plan: &SimulationPlan<R>,
    engine: &EngineConfig,
    tables: bool,
    barrier_bridge: Option<BarrierBridgeDiagnostics<R>>,
) -> (d: MonteCarloDiagnostics<R>)
    ensures
        d == run_diagnostics(*plan, *engine, tables, barrier_bridge),
{
    let valuation_kind = if plan.payoff_smoothing.is_some() {
        PayoffValuationKind::SmoothedSurrogate
    } else {
        PayoffValuationKind::ExactContractual
    };
    match engine {
        EngineConfig::PseudoMonteCarlo(c) => MonteCarloDiagnostics {
            master_seed: c.master_seed,
            estimator: EstimatorKind::PseudoMonteCarlo,
            scramble_count: None,
            checksums: None,
            execution: plan.execution,
            antithetic: c.variance_reduction.antithetic,
            discount_region: plan.discount_region,
            dividend_region: plan.dividend_region,
            payoff_fingerprint: plan.payoff_fingerprint,
            valuation_kind,
            payoff_smoothing: plan.payoff_smoothing_diagnostics(),
            path_state: plan.path_state,
            barrier_bridge,
        },
        EngineConfig::RandomizedQuasiMonteCarlo(c) => MonteCarloDiagnostics {
            master_seed: c.master_seed,
            estimator: EstimatorKind::RandomizedQuasiMonteCarlo,
            scramble_count: Some(c.scramble_count),
            checksums: if tables {
                Some(plan.checksums)
            } else {
                None
            },
            execution: plan.execution,
            antithetic: c.variance_reduction.antithetic,
            discount_region: plan.discount_region,
            dividend_region: plan.dividend_region,
            payoff_fingerprint: plan.payoff_fingerprint,
            valuation_kind,
            payoff_smoothing: plan.payoff_smoothing_diagnostics(),
            path_state: plan.path_state,
            barrier_bridge,
        },
    }
}

/// The sample variance of a price. It is required, unless the spot cannot move.
pub open spec fn price_variance<R: Scalar>(
    s: Statistics<R>,
    units: u64,
    still: bool,
) -> Result<R, MonteCarloError> {
    if still {
        Ok(literal(0))
    } else {
        match s.sample_variance {
            Some(v) => Ok(v),
            None => Err(MonteCarloError::InsufficientSamplingUnits { count: units }),
        }
    }
}

/// Takes the sample variance of a price.
pub fn take_price_variance<R: Scalar, M: Math<R>>(
    m: &M,
    s: Statistics<R>,
    units: u64,
    still: bool,
) -> (r: Result<R, MonteCarloError>)
    ensures
        r == price_variance(s, units, still),
{
    m.laws();
    if still {
        return Ok(R::from(0u32));
    }
    match s.sample_variance {
        Some(v) => Ok(v),
        None => Err(MonteCarloError::InsufficientSamplingUnits { count: units }),
    }
}

/// The price that the statistics of a run make: its estimate, its variance and
/// its risk report, and the diagnostics given.
pub open spec fn priced<R: Scalar, V>(
    m: Model<R>,
    plan: SimulationPlan<R>,
    engine: EngineConfig,
    s: Seq<Statistics<R>>,
    value: Estimate<R>,
    variance: R,
    risks: RiskReport<R>,
    vega_kt: Option<V>,
    risk_diagnostics: RiskDiagnostics<R>,
) -> PriceReport<R, V> {
    PriceReport {
        value,
        risks,
        vega_kt,
        warnings: extrapolation_warnings_of(plan.discount_region, plan.dividend_region),
        replay: replay_of(plan),
        sampling_variance: variance,
        estimator_variance: over(variance, m.of(engine.units())),
        risk_diagnostics,
        independent_sampling_units: engine.units(),
        evaluated_paths: engine.paths() as u128,
        diagnostics: run_diagnostics(
            plan,
            engine,
            true,
            barrier_diagnostics_of(m, plan, s, engine.units()),
        ),
        early_exercise: None,
    }
}

/// Makes a price of its parts.
pub fn make_price<R: Scalar, M: Math<R>, V>(
    m: &M,
    plan: &SimulationPlan<R>,
    engine: &EngineConfig,
    s: &Vec<Statistics<R>>,
    value: Estimate<R>,
    variance: R,
    risks: RiskReport<R>,
    vega_kt: Option<V>,
    risk_diagnostics: RiskDiagnostics<R>,
) -> (p: MonteCarloPrice<R, V>)
    requires
        s@.len() == PATHWISE_COMPONENTS,
    ensures
        p.report() == priced(
            m.model(),
            *plan,
            *engine,
            s@,
            value,
            variance,
            risks,
            vega_kt,
            risk_diagnostics,
        ),
        p.evaluated_paths == engine.paths(),
{
    m.laws();
    let units = engine_units(engine);
    let barrier = plan.barrier_bridge_diagnostics(m, s, units);
    MonteCarloPrice {
        value,
        risks,
        vega_kt,
        warnings: extrapolation_warnings(plan.discount_region, plan.dividend_region),
        replay: plan.replay_metadata(),
        sampling_variance: variance,
        estimator_variance: variance / m.of(units),
        risk_diagnostics,
        independent_sampling_units: units,
        evaluated_paths: engine_paths(engine),
        diagnostics: describe_run(plan, engine, true, barrier),
        early_exercise: None,
    }
}

} // verus!
