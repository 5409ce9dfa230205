//! Estimates, risk reports and diagnostics.

use crate::errors::MonteCarloError;
use crate::estimation::mean_of;
use crate::models::Fingerprint;
use crate::sampling::Statistics;
use crate::scalar::{literal, minus, over, plus, times, Math, Model, Scalar};
use crate::simulation::{
    resolve_spot_bump, resolved_bump, CurveRegion, EstimatorKind, PayoffSmoothing, SimulationPlan,
    SmileDynamics, BARRIER_BRIDGE_HIT_WEIGHT, BARRIER_CERTAIN_SURVIVAL_COUNT,
    BARRIER_DIVIDEND_JUMP_HIT, BARRIER_ENDPOINT_HIT, BARRIER_FINITE_CORRECTION_COUNT,
    BARRIER_INTERVAL_COUNT, BARRIER_SURVIVAL_UNDERFLOW_COUNT, BARRIER_ZERO_VARIANCE_COUNT,
    BUMP_DELTA, BUMP_GAMMA, BUMP_VEGA, DELTA, DELTA_DIFFERENCE, GAMMA, GAMMA_DIFFERENCE,
    PATHWISE_COMPONENTS, VEGA, VEGA_DIFFERENCE,
};
use vstd::prelude::*;

verus! {

/// A value with its standard error and confidence interval.
#[derive(Clone, Copy, Debug, PartialEq)]
pub struct Estimate<R> {
    pub value: R,
    pub standard_error: R,
    pub lower: R,
    pub upper: R,
    pub estimator: EstimatorKind,
    pub independent_units: u64,
}

/// What an estimate has to satisfy to be published.
pub trait Publication<R: Scalar> {
    /// The failure of an estimate that cannot be published.
    spec fn refusal_of(&self, estimate: Estimate<R>) -> Option<MonteCarloError>;

    /// Refuses an estimate that cannot be published.
    fn refusal(&self, estimate: &Estimate<R>) -> (r: Option<MonteCarloError>)
        ensures
            r == self.refusal_of(*estimate),
    ;
}

/// The unit of a risk number.
#[derive(Clone, Copy, Debug, PartialEq, Eq, Structural)]
pub enum RiskUnit {
    DeltaRaw,
    DeltaOnePercentSpot,
    GammaRaw,
    GammaOnePercentSpotSquared,
    VegaRaw,
    VegaOneVolPoint,
}

/// A risk number, raw and scaled to a market move.
#[derive(Clone, Copy, Debug, PartialEq)]
pub struct RiskEstimate<R> {
    pub raw: Estimate<R>,
    pub market_scaled: Estimate<R>,
    pub raw_unit: RiskUnit,
    pub market_scaled_unit: RiskUnit,
}

/// How a risk number was computed.
#[derive(Clone, Copy, Debug, PartialEq, Eq, Structural)]
pub enum RiskMethod {
    AadReverse,
    CentralBumpOfAadDelta,
    CentralBump,
}

/// What is held fixed under a bump when the holder may exercise.
#[derive(Clone, Copy, Debug, PartialEq, Eq, Structural)]
pub enum ExerciseStrategyRisk {
    FixedExerciseStrategy,
}

/// Whether the stopping indices move under a bump.
#[derive(Clone, Copy, Debug, PartialEq, Eq, Structural)]
pub enum StoppingIndexRisk {
    FrozenStoppingIndices,
}

/// A bumped revaluation beside the primary risk number.
#[derive(Clone, Copy, Debug, PartialEq)]
pub struct RiskValidation<R> {
    pub bump_and_revalue: Estimate<R>,
    pub bump_minus_primary: Estimate<R>,
}

/// How each risk number was computed, and with which bumps.
#[derive(Clone, Copy, Debug)]
pub struct RiskMethodMetadata<R> {
    pub delta: Option<RiskMethod>,
    pub gamma: Option<RiskMethod>,
    pub vega: Option<RiskMethod>,
    pub smile_dynamics: SmileDynamics,
    pub gamma_spot_bump: Option<R>,
    pub validation_spot_bump: Option<R>,
    pub validation_volatility_bump: Option<R>,
    pub exercise_strategy: Option<ExerciseStrategyRisk>,
    pub stopping_indices: Option<StoppingIndexRisk>,
    pub exercise_policy_fingerprint: Option<Fingerprint>,
}

/// How the risk numbers were computed and validated.
#[derive(Clone, Copy, Debug)]
pub struct RiskDiagnostics<R> {
    pub methods: RiskMethodMetadata<R>,
    pub delta_validation: Option<RiskValidation<R>>,
    pub gamma_validation: Option<RiskValidation<R>>,
    pub vega_validation: Option<RiskValidation<R>>,
}

/// The risk numbers that were asked for.
#[derive(Clone, Copy, Debug)]
pub struct RiskReport<R> {
    pub delta: Option<RiskEstimate<R>>,
    pub gamma: Option<RiskEstimate<R>>,
    pub vega: Option<RiskEstimate<R>>,
}

/// The estimate of a quantity over its sampling units, times `scale`: the mean,
/// the standard error of the mean, and the interval of one quantile around it.
/// Without a sample variance the standard error is zero.
pub open spec fn estimate_of<R: Scalar>(
    m: Model<R>,
    s: Statistics<R>,
    units: u64,
    scale: R,
    quantile: R,
    estimator: EstimatorKind,
) -> Estimate<R> {
    let inverse = over(literal(1), m.of(units));
    let value = times(times(s.total, inverse), scale);
    let variance = match s.sample_variance {
        Some(v) => v,
        None => literal(0),
    };
    let error = times(m.sqrt(times(variance, inverse)), scale);
    let half_width = times(quantile, error);
    Estimate {
        value,
        standard_error: error,
        lower: minus(value, half_width),
        upper: plus(value, half_width),
        estimator,
        independent_units: units,
    }
}

/// An estimate, unless it cannot be published.
pub open spec fn published<R: Scalar, Q: Publication<R>>(q: Q, e: Estimate<R>) -> Result<
    Estimate<R>,
    MonteCarloError,
> {
    match q.refusal_of(e) {
        Some(error) => Err(error),
        None => Ok(e),
    }
}

/// Publishes an estimate.
fn publish<R: Scalar, Q: Publication<R>>(q: &Q, e: Estimate<R>) -> (r: Result<
    Estimate<R>,
    MonteCarloError,
>)
    ensures
        r == published(*q, e),
{
    match q.refusal(&e) {
        Some(error) => Err(error),
        None => Ok(e),
    }
}

/// Estimates a quantity over its sampling units.
pub fn estimate_from_statistics<R: Scalar, M: Math<R>, Q: Publication<R>>(
    m: &M,
    q: &Q,
    s: Statistics<R>,
    units: u64,
    scale: R,
    quantile: R,
    estimator: EstimatorKind,
) -> (r: Result<Estimate<R>, MonteCarloError>)
    ensures
        r == published(*q, estimate_of(m.model(), s, units, scale, quantile, estimator)),
{
    m.laws();
    let inverse = R::from(1u32) / m.of(units);
    let value = s.total * inverse * scale;
    let variance = match s.sample_variance {
        Some(v) => v,
        None => R::from(0u32),
    };
    let error = m.sqrt(variance * inverse) * scale;
    let half_width = quantile * error;
    publish(
        q,
        Estimate {
            value,
            standard_error: error,
            lower: value - half_width,
            upper: value + half_width,
            estimator,
            independent_units: units,
        },
    )
}

/// A risk number, raw and scaled; the raw one is published first.
pub open spec fn risk_of<R: Scalar, Q: Publication<R>>(
    q: Q,
    raw: Estimate<R>,
    scaled: Estimate<R>,
    raw_unit: RiskUnit,
    market_scaled_unit: RiskUnit,
) -> Result<RiskEstimate<R>, MonteCarloError> {
    match published(q, raw) {
        Err(e) => Err(e),
        Ok(raw) => match published(q, scaled) {
            Err(e) => Err(e),
            Ok(market_scaled) => Ok(
                RiskEstimate { raw, market_scaled, raw_unit, market_scaled_unit },
            ),
        },
    }
}

/// Estimates a risk number, raw and scaled to a market move.
pub fn risk_estimate<R: Scalar, M: Math<R>, Q: Publication<R>>(
    m: &M,
    q: &Q,
    s: Statistics<R>,
    units: u64,
    market_scale: R,
    raw_unit: RiskUnit,
    market_scaled_unit: RiskUnit,
    quantile: R,
    estimator: EstimatorKind,
) -> (r: Result<RiskEstimate<R>, MonteCarloError>)
    ensures
        r == risk_of(
            *q,
            estimate_of(m.model(), s, units, literal(1), quantile, estimator),
            estimate_of(m.model(), s, units, market_scale, quantile, estimator),
            raw_unit,
            market_scaled_unit,
        ),
{
    m.laws();
    let raw = match estimate_from_statistics(
        m,
        q,
        s,
        units,
        R::from(1u32),
        quantile,
        estimator,
    ) {
        Err(e) => return Err(e),
        Ok(raw) => raw,
    };
    let market_scaled = match estimate_from_statistics(
        m,
        q,
        s,
        units,
        market_scale,
        quantile,
        estimator,
    ) {
        Err(e) => return Err(e),
        Ok(scaled) => scaled,
    };
    Ok(RiskEstimate { raw, market_scaled, raw_unit, market_scaled_unit })
}

/// The estimate that is zero without uncertainty.
pub open spec fn zero_estimate<R: Scalar>(estimator: EstimatorKind, units: u64) -> Estimate<R> {
    Estimate {
        value: literal(0),
        standard_error: literal(0),
        lower: literal(0),
        upper: literal(0),
        estimator,
        independent_units: units,
    }
}

/// A risk number that is zero without uncertainty.
pub fn zero_risk_estimate<R: Scalar, M: Math<R>, Q: Publication<R>>(
    m: &M,
    q: &Q,
    estimator: EstimatorKind,
    units: u64,
    raw_unit: RiskUnit,
    market_scaled_unit: RiskUnit,
) -> (r: Result<RiskEstimate<R>, MonteCarloError>)
    ensures
        r == risk_of(
            *q,
            zero_estimate(estimator, units),
            zero_estimate(estimator, units),
            raw_unit,
            market_scaled_unit,
        ),
{
    m.laws();
    let zero = R::from(0u32);
    let e = Estimate {
        value: zero,
        standard_error: zero,
        lower: zero,
        upper: zero,
        estimator,
        independent_units: units,
    };
    let raw = match publish(q, e) {
        Err(e) => return Err(e),
        Ok(raw) => raw,
    };
    let market_scaled = match publish(q, e) {
        Err(e) => return Err(e),
        Ok(scaled) => scaled,
    };
    Ok(RiskEstimate { raw, market_scaled, raw_unit, market_scaled_unit })
}

/// A bumped revaluation and its distance from the primary risk number.
pub open spec fn validation_of<R: Scalar, Q: Publication<R>>(
    m: Model<R>,
    q: Q,
    bump: Statistics<R>,
    difference: Statistics<R>,
    units: u64,
    quantile: R,
    estimator: EstimatorKind,
) -> Result<RiskValidation<R>, MonteCarloError> {
    match published(q, estimate_of(m, bump, units, literal(1), quantile, estimator)) {
        Err(e) => Err(e),
        Ok(bump_and_revalue) => match published(
            q,
            estimate_of(m, difference, units, literal(1), quantile, estimator),
        ) {
            Err(e) => Err(e),
            Ok(bump_minus_primary) => Ok(RiskValidation { bump_and_revalue, bump_minus_primary }),
        },
    }
}

/// Estimates a bumped revaluation and its distance from the primary number.
pub fn risk_validation<R: Scalar, M: Math<R>, Q: Publication<R>>(
    m: &M,
    q: &Q,
    bump: Statistics<R>,
    difference: Statistics<R>,
    units: u64,
    quantile: R,
    estimator: EstimatorKind,
) -> (r: Result<RiskValidation<R>, MonteCarloError>)
    ensures
        r == validation_of(m.model(), *q, bump, difference, units, quantile, estimator),
{
    m.laws();
    let one = R::from(1u32);
    let bump_and_revalue = match estimate_from_statistics(
        m,
        q,
        bump,
        units,
        one,
        quantile,
        estimator,
    ) {
        Err(e) => return Err(e),
        Ok(e) => e,
    };
    let bump_minus_primary = match estimate_from_statistics(
        m,
        q,
        difference,
        units,
        one,
        quantile,
        estimator,
    ) {
        Err(e) => return Err(e),
        Ok(e) => e,
    };
    Ok(RiskValidation { bump_and_revalue, bump_minus_primary })
}

/// An optional computation: absent, or present unless it fails.
pub open spec fn wanted<T>(asked: bool, r: Result<T, MonteCarloError>) -> Result<
    Option<T>,
    MonteCarloError,
> {
    if !asked {
        Ok(None)
    } else {
        match r {
            Ok(t) => Ok(Some(t)),
            Err(e) => Err(e),
        }
    }
}

/// Three optional risk numbers in the order delta, gamma, vega; the first that
/// fails is the failure.
pub open spec fn three<T>(
    delta: Result<Option<T>, MonteCarloError>,
    gamma: Result<Option<T>, MonteCarloError>,
    vega: Result<Option<T>, MonteCarloError>,
) -> Result<(Option<T>, Option<T>, Option<T>), MonteCarloError> {
    match delta {
        Err(e) => Err(e),
        Ok(d) => match gamma {
            Err(e) => Err(e),
            Ok(g) => match vega {
                Err(e) => Err(e),
                Ok(v) => Ok((d, g, v)),
            },
        },
    }
}

/// One percent.
pub open spec fn one_percent<R: Scalar>() -> R {
    over(literal(1), literal(100))
}

/// The risk report of the statistics of a plan: what was asked for, raw and
/// scaled to one percent of the spot, its square, and one volatility point.
pub open spec fn risk_report_of<R: Scalar, Q: Publication<R>>(
    m: Model<R>,
    q: Q,
    plan: SimulationPlan<R>,
    s: Seq<Statistics<R>>,
    units: u64,
    estimator: EstimatorKind,
) -> Result<RiskReport<R>, MonteCarloError> {
    let one = literal(1);
    let spot_move = times(plan.spot, one_percent());
    let number = |at: int, scale: R, raw: RiskUnit, scaled: RiskUnit|
        risk_of(
            q,
            estimate_of(m, s[at], units, one, plan.normal_quantile, estimator),
            estimate_of(m, s[at], units, scale, plan.normal_quantile, estimator),
            raw,
            scaled,
        );
    match three(
        wanted(
            plan.request_delta,
            number(DELTA as int, spot_move, RiskUnit::DeltaRaw, RiskUnit::DeltaOnePercentSpot),
        ),
        wanted(
            plan.request_gamma is Some,
            number(
                GAMMA as int,
                times(spot_move, spot_move),
                RiskUnit::GammaRaw,
                RiskUnit::GammaOnePercentSpotSquared,
            ),
        ),
        wanted(
            plan.request_vega,
            number(VEGA as int, one_percent(), RiskUnit::VegaRaw, RiskUnit::VegaOneVolPoint),
        ),
    ) {
        Err(e) => Err(e),
        Ok((delta, gamma, vega)) => Ok(RiskReport { delta, gamma, vega }),
    }
}

/// The report of a payoff that is already fixed: every number that was asked
/// for is zero.
pub open spec fn fixed_risk_report<R: Scalar, Q: Publication<R>>(
    q: Q,
    plan: SimulationPlan<R>,
    units: u64,
    estimator: EstimatorKind,
) -> Result<RiskReport<R>, MonteCarloError> {
    let number = |raw: RiskUnit, scaled: RiskUnit|
        risk_of(
            q,
            zero_estimate::<R>(estimator, units),
            zero_estimate(estimator, units),
            raw,
            scaled,
        );
    match three(
        wanted(plan.request_delta, number(RiskUnit::DeltaRaw, RiskUnit::DeltaOnePercentSpot)),
        wanted(
            plan.request_gamma is Some,
            number(RiskUnit::GammaRaw, RiskUnit::GammaOnePercentSpotSquared),
        ),
        wanted(plan.request_vega, number(RiskUnit::VegaRaw, RiskUnit::VegaOneVolPoint)),
    ) {
        Err(e) => Err(e),
        Ok((delta, gamma, vega)) => Ok(RiskReport { delta, gamma, vega }),
    }
}

/// The methods that a reverse sweep with a bumped validation uses.
pub open spec fn reverse_methods<R: Scalar>(plan: SimulationPlan<R>) -> RiskMethodMetadata<R> {
    RiskMethodMetadata {
        delta: if plan.request_delta {
            Some(RiskMethod::AadReverse)
        } else {
            None
        },
        gamma: if plan.request_gamma is Some {
            Some(RiskMethod::CentralBumpOfAadDelta)
        } else {
            None
        },
        vega: if plan.request_vega {
            Some(RiskMethod::AadReverse)
        } else {
            None
        },
        gamma_spot_bump: match plan.request_gamma {
            Some(bump) => Some(resolved_bump(bump, plan.spot)),
            None => None,
        },
        validation_spot_bump: if plan.risk_requested() {
            Some(plan.validation_spot_bump)
        } else {
            None
        },
        validation_volatility_bump: if plan.request_vega {
            Some(plan.validation_volatility_bump)
        } else {
            None
        },
        ..no_methods(plan.smile_dynamics)
    }
}

/// The methods of a local-volatility plan: bumped spots, a reverse sweep for
/// the vega, and no validation.
pub open spec fn local_vol_methods<R: Scalar>(plan: SimulationPlan<R>) -> RiskMethodMetadata<R> {
    RiskMethodMetadata {
        delta: if plan.request_delta {
            Some(RiskMethod::CentralBump)
        } else {
            None
        },
        gamma: if plan.request_gamma is Some {
            Some(RiskMethod::CentralBump)
        } else {
            None
        },
        vega: if plan.request_vega {
            Some(RiskMethod::AadReverse)
        } else {
            None
        },
        gamma_spot_bump: match plan.request_gamma {
            Some(bump) => Some(resolved_bump(bump, plan.spot)),
            None => None,
        },
        validation_spot_bump: if plan.request_delta || plan.request_gamma is Some {
            Some(plan.validation_spot_bump)
        } else {
            None
        },
        ..no_methods(plan.smile_dynamics)
    }
}

/// No methods.
pub open spec fn no_methods<R: Scalar>(smile_dynamics: SmileDynamics) -> RiskMethodMetadata<R> {
    RiskMethodMetadata {
        delta: None,
        gamma: None,
        vega: None,
        smile_dynamics,
        gamma_spot_bump: None,
        validation_spot_bump: None,
        validation_volatility_bump: None,
        exercise_strategy: None,
        stopping_indices: None,
        exercise_policy_fingerprint: None,
    }
}

/// Diagnostics without validation.
pub open spec fn unvalidated<R: Scalar>(methods: RiskMethodMetadata<R>) -> RiskDiagnostics<R> {
    RiskDiagnostics {
        methods,
        delta_validation: None,
        gamma_validation: None,
        vega_validation: None,
    }
}

/// The diagnostics of the statistics of a plan.
pub open spec fn diagnostics_of<R: Scalar, Q: Publication<R>>(
    m: Model<R>,
    q: Q,
    plan: SimulationPlan<R>,
    s: Seq<Statistics<R>>,
    units: u64,
    estimator: EstimatorKind,
) -> Result<RiskDiagnostics<R>, MonteCarloError> {
    let check = |bump: int, difference: int|
        validation_of(m, q, s[bump], s[difference], units, plan.normal_quantile, estimator);
    match three(
        wanted(plan.request_delta, check(BUMP_DELTA as int, DELTA_DIFFERENCE as int)),
        wanted(plan.request_gamma is Some, check(BUMP_GAMMA as int, GAMMA_DIFFERENCE as int)),
        wanted(plan.request_vega, check(BUMP_VEGA as int, VEGA_DIFFERENCE as int)),
    ) {
        Err(e) => Err(e),
        Ok((delta_validation, gamma_validation, vega_validation)) => Ok(
            RiskDiagnostics {
                methods: reverse_methods(plan),
                delta_validation,
                gamma_validation,
                vega_validation,
            },
        ),
    }
}

/// Diagnostics of a plan whose exercise policy is frozen under the bumps.
pub open spec fn frozen<R: Scalar>(d: RiskDiagnostics<R>, policy: Fingerprint) -> RiskDiagnostics<
    R,
> {
    RiskDiagnostics {
        methods: RiskMethodMetadata {
            exercise_strategy: Some(ExerciseStrategyRisk::FixedExerciseStrategy),
            stopping_indices: Some(StoppingIndexRisk::FrozenStoppingIndices),
            exercise_policy_fingerprint: Some(policy),
            ..d.methods
        },
        ..d
    }
}

/// Diagnostics of a plan without risk.
pub fn empty_risk_diagnostics<R: Scalar>(smile_dynamics: SmileDynamics) -> (d: RiskDiagnostics<R>)
    ensures
        d == unvalidated(no_methods::<R>(smile_dynamics)),
{
    RiskDiagnostics {
        methods: RiskMethodMetadata {
            delta: None,
            gamma: None,
            vega: None,
            smile_dynamics,
            gamma_spot_bump: None,
            validation_spot_bump: None,
            validation_volatility_bump: None,
            exercise_strategy: None,
            stopping_indices: None,
            exercise_policy_fingerprint: None,
        },
        delta_validation: None,
        gamma_validation: None,
        vega_validation: None,
    }
}

/// How a barrier that is monitored continuously decides a hit.
#[derive(Clone, Copy, Debug, PartialEq, Eq, Structural)]
pub enum BarrierHitIndicatorMode {
    Exact,
    CompactC2,
}

/// What the bridges of a continuously monitored barrier did, on average.
#[derive(Clone, Copy, Debug, PartialEq)]
pub struct BarrierBridgeDiagnostics<R> {
    /// Also selects the interface and the policy version of the bridge.
    pub indicator_mode: BarrierHitIndicatorMode,
    pub endpoint_hit_fraction: R,
    pub dividend_jump_hit_fraction: R,
    pub mean_conditional_bridge_hit_weight: R,
    pub mean_interval_count: R,
    pub mean_finite_correction_count: R,
    pub mean_zero_variance_count: R,
    pub mean_survival_underflow_count: R,
    pub mean_certain_survival_count: R,
}

/// The smoothing of a payoff and what it was applied to.
#[derive(Clone, Copy, Debug, PartialEq)]
pub struct PayoffSmoothingDiagnostics<R> {
    pub smoothing: PayoffSmoothing<R>,
    pub endpoint_count: usize,
    pub dividend_jump_count: usize,
}

/// The barrier diagnostics of the statistics of a plan.
pub open spec fn barrier_diagnostics_of<R: Scalar>(
    m: Model<R>,
    plan: SimulationPlan<R>,
    s: Seq<Statistics<R>>,
    units: u64,
) -> Option<BarrierBridgeDiagnostics<R>> {
    if !plan.continuous_barrier {
        None
    } else {
        Some(
            BarrierBridgeDiagnostics {
                indicator_mode: if plan.payoff_smoothing is Some {
                    BarrierHitIndicatorMode::CompactC2
                } else {
                    BarrierHitIndicatorMode::Exact
                },
                endpoint_hit_fraction: mean_of(m, s[BARRIER_ENDPOINT_HIT as int], units),
                dividend_jump_hit_fraction: mean_of(m, s[BARRIER_DIVIDEND_JUMP_HIT as int], units),
                mean_conditional_bridge_hit_weight: mean_of(
                    m,
                    s[BARRIER_BRIDGE_HIT_WEIGHT as int],
                    units,
                ),
                mean_interval_count: mean_of(m, s[BARRIER_INTERVAL_COUNT as int], units),
                mean_finite_correction_count: mean_of(
                    m,
                    s[BARRIER_FINITE_CORRECTION_COUNT as int],
                    units,
                ),
                mean_zero_variance_count: mean_of(m, s[BARRIER_ZERO_VARIANCE_COUNT as int], units),
                mean_survival_underflow_count: mean_of(
                    m,
                    s[BARRIER_SURVIVAL_UNDERFLOW_COUNT as int],
                    units,
                ),
                mean_certain_survival_count: mean_of(
                    m,
                    s[BARRIER_CERTAIN_SURVIVAL_COUNT as int],
                    units,
                ),
            },
        )
    }
}

impl<R: Scalar> SimulationPlan<R> {
    /// The smoothing of the payoff, where there is one.
    pub fn payoff_smoothing_diagnostics(&self) -> (d: Option<PayoffSmoothingDiagnostics<R>>)
        ensures
            d == (match self.payoff_smoothing {
                Some(smoothing) => Some(
                    PayoffSmoothingDiagnostics {
                        smoothing,
                        endpoint_count: self.payoff_smoothing_endpoint_count,
                        dividend_jump_count: self.payoff_smoothing_dividend_jump_count,
                    },
                ),
                None => None,
            }),
    {
        match self.payoff_smoothing {
            Some(smoothing) => Some(
                PayoffSmoothingDiagnostics {
                    smoothing,
                    endpoint_count: self.payoff_smoothing_endpoint_count,
                    dividend_jump_count: self.payoff_smoothing_dividend_jump_count,
                },
            ),
            None => None,
        }
    }

    /// What the bridges of a continuously monitored barrier did.
    pub fn barrier_bridge_diagnostics<M: Math<R>>(
        &self,
        m: &M,
        s: &Vec<Statistics<R>>,
        units: u64,
    ) -> (d: Option<BarrierBridgeDiagnostics<R>>)
        requires
            s@.len() == PATHWISE_COMPONENTS,
        ensures
            d == barrier_diagnostics_of(m.model(), *self, s@, units),
    {
        if !self.continuous_barrier {
            return None;
        }
        m.laws();
        let count = m.of(units);
        Some(
            BarrierBridgeDiagnostics {
                indicator_mode: if self.payoff_smoothing.is_some() {
                    BarrierHitIndicatorMode::CompactC2
                } else {
                    BarrierHitIndicatorMode::Exact
                },
                endpoint_hit_fraction: s[BARRIER_ENDPOINT_HIT].total / count,
                dividend_jump_hit_fraction: s[BARRIER_DIVIDEND_JUMP_HIT].total / count,
                mean_conditional_bridge_hit_weight: s[BARRIER_BRIDGE_HIT_WEIGHT].total / count,
                mean_interval_count: s[BARRIER_INTERVAL_COUNT].total / count,
                mean_finite_correction_count: s[BARRIER_FINITE_CORRECTION_COUNT].total / count,
                mean_zero_variance_count: s[BARRIER_ZERO_VARIANCE_COUNT].total / count,
                mean_survival_underflow_count: s[BARRIER_SURVIVAL_UNDERFLOW_COUNT].total / count,
                mean_certain_survival_count: s[BARRIER_CERTAIN_SURVIVAL_COUNT].total / count,
            },
        )
    }

    /// The report of a payoff that is already fixed.
    pub fn fixed_payoff_risk_report<M: Math<R>, Q: Publication<R>>(
        &self,
        m: &M,
        q: &Q,
        estimator: EstimatorKind,
        units: u64,
    ) -> (r: Result<RiskReport<R>, MonteCarloError>)
        ensures
            r == fixed_risk_report(*q, *self, units, estimator),
    {
        let delta = if self.request_delta {
            match zero_risk_estimate(
                m,
                q,
                estimator,
                units,
                RiskUnit::DeltaRaw,
                RiskUnit::DeltaOnePercentSpot,
            ) {
                Err(e) => return Err(e),
                Ok(x) => Some(x),
            }
        } else {
            None
        };
        let gamma = if self.request_gamma.is_some() {
            match zero_risk_estimate(
                m,
                q,
                estimator,
                units,
                RiskUnit::GammaRaw,
                RiskUnit::GammaOnePercentSpotSquared,
            ) {
                Err(e) => return Err(e),
                Ok(x) => Some(x),
            }
        } else {
            None
        };
        let vega = if self.request_vega {
            match zero_risk_estimate(
                m,
                q,
                estimator,
                units,
                RiskUnit::VegaRaw,
                RiskUnit::VegaOneVolPoint,
            ) {
                Err(e) => return Err(e),
                Ok(x) => Some(x),
            }
        } else {
            None
        };
        Ok(RiskReport { delta, gamma, vega })
    }

    /// The risk report of the statistics of the plan.
    pub fn build_risk_report<M: Math<R>, Q: Publication<R>>(
        &self,
        m: &M,
        q: &Q,
        s: &Vec<Statistics<R>>,
        units: u64,
        estimator: EstimatorKind,
    ) -> (r: Result<RiskReport<R>, MonteCarloError>)
        requires
            s@.len() == PATHWISE_COMPONENTS,
        ensures
            r == risk_report_of(m.model(), *q, *self, s@, units, estimator),
    {
        m.laws();
        let percent = R::from(1u32) / R::from(100u32);
        let spot_move = self.spot * percent;
        let delta = if self.request_delta {
            match risk_estimate(
                m,
                q,
                s[DELTA],
                units,
                spot_move,
                RiskUnit::DeltaRaw,
                RiskUnit::DeltaOnePercentSpot,
                self.normal_quantile,
                estimator,
            ) {
                Err(e) => return Err(e),
                Ok(x) => Some(x),
            }
        } else {
            None
        };
        let gamma = if self.request_gamma.is_some() {
            match risk_estimate(
                m,
                q,
                s[GAMMA],
                units,
                spot_move * spot_move,
                RiskUnit::GammaRaw,
                RiskUnit::GammaOnePercentSpotSquared,
                self.normal_quantile,
                estimator,
            ) {
                Err(e) => return Err(e),
                Ok(x) => Some(x),
            }
        } else {
            None
        };
        let vega = if self.request_vega {
            match risk_estimate(
                m,
                q,
                s[VEGA],
                units,
                percent,
                RiskUnit::VegaRaw,
                RiskUnit::VegaOneVolPoint,
                self.normal_quantile,
                estimator,
            ) {
                Err(e) => return Err(e),
                Ok(x) => Some(x),
            }
        } else {
            None
        };
        Ok(RiskReport { delta, gamma, vega })
    }

    /// The diagnostics of the statistics of the plan.
    pub fn build_risk_diagnostics<M: Math<R>, Q: Publication<R>>(
        &self,
        m: &M,
        q: &Q,
        s: &Vec<Statistics<R>>,
        units: u64,
        estimator: EstimatorKind,
    ) -> (r: Result<RiskDiagnostics<R>, MonteCarloError>)
        requires
            s@.len() == PATHWISE_COMPONENTS,
        ensures
            r == diagnostics_of(m.model(), *q, *self, s@, units, estimator),
    {
        let quantile = self.normal_quantile;
        let delta_validation = if self.request_delta {
            match risk_validation(
                m,
                q,
                s[BUMP_DELTA],
                s[DELTA_DIFFERENCE],
                units,
                quantile,
                estimator,
            ) {
                Err(e) => return Err(e),
                Ok(v) => Some(v),
            }
        } else {
            None
        };
        let gamma_validation = if self.request_gamma.is_some() {
            match risk_validation(
                m,
                q,
                s[BUMP_GAMMA],
                s[GAMMA_DIFFERENCE],
                units,
                quantile,
                estimator,
            ) {
                Err(e) => return Err(e),
                Ok(v) => Some(v),
            }
        } else {
            None
        };
        let vega_validation = if self.request_vega {
            match risk_validation(
                m,
                q,
                s[BUMP_VEGA],
                s[VEGA_DIFFERENCE],
                units,
                quantile,
                estimator,
            ) {
                Err(e) => return Err(e),
                Ok(v) => Some(v),
            }
        } else {
            None
        };
        let empty: RiskDiagnostics<R> = empty_risk_diagnostics(self.smile_dynamics);
        let mut methods = empty.methods;
        if self.request_delta {
            methods.delta = Some(RiskMethod::AadReverse);
        }
        if let Some(bump) = self.request_gamma {
            methods.gamma = Some(RiskMethod::CentralBumpOfAadDelta);
            methods.gamma_spot_bump = Some(resolve_spot_bump(m, bump, self.spot));
        }
        if self.request_vega {
            methods.vega = Some(RiskMethod::AadReverse);
            methods.validation_volatility_bump = Some(self.validation_volatility_bump);
        }
        if self.risk_enabled() {
            methods.validation_spot_bump = Some(self.validation_spot_bump);
        }
        Ok(RiskDiagnostics { methods, delta_validation, gamma_validation, vega_validation })
    }

    /// The diagnostics of a payoff that is already fixed: those of statistics
    /// that are all `zero`.
    pub fn fixed_payoff_risk_diagnostics<M: Math<R>, Q: Publication<R>>(
        &self,
        m: &M,
        q: &Q,
        zero: Statistics<R>,
        estimator: EstimatorKind,
        units: u64,
    ) -> (r: Result<RiskDiagnostics<R>, MonteCarloError>)
        ensures
            r == diagnostics_of(
                m.model(),
                *q,
                *self,
                Seq::new(PATHWISE_COMPONENTS as nat, |i: int| zero),
                units,
                estimator,
            ),
    {
        let mut s: Vec<Statistics<R>> = Vec::new();
        let mut i: usize = 0;
        while i < PATHWISE_COMPONENTS
            invariant
                i <= PATHWISE_COMPONENTS,
                s@.len() == i,
                forall|k: int| 0 <= k < i ==> #[trigger] s@[k] == zero,
            decreases PATHWISE_COMPONENTS - i,
        {
            s.push(zero);
            i = i + 1;
        }
        assert(s@ =~= Seq::new(PATHWISE_COMPONENTS as nat, |i: int| zero));
        self.build_risk_diagnostics(m, q, &s, units, estimator)
    }

    /// The diagnostics of a local-volatility plan.
    pub fn build_local_vol_risk_diagnostics<M: Math<R>>(&self, m: &M) -> (d: RiskDiagnostics<R>)
        ensures
            d == unvalidated(local_vol_methods(*self)),
    {
        let mut d: RiskDiagnostics<R> = empty_risk_diagnostics(self.smile_dynamics);
        if self.request_delta {
            d.methods.delta = Some(RiskMethod::CentralBump);
        }
        if let Some(bump) = self.request_gamma {
            d.methods.gamma = Some(RiskMethod::CentralBump);
            d.methods.gamma_spot_bump = Some(resolve_spot_bump(m, bump, self.spot));
        }
        if self.request_vega {
            d.methods.vega = Some(RiskMethod::AadReverse);
        }
        if self.request_delta || self.request_gamma.is_some() {
            d.methods.validation_spot_bump = Some(self.validation_spot_bump);
        }
        d
    }

    /// The diagnostics of a plan whose exercise policy is frozen.
    pub fn build_fixed_policy_risk_diagnostics<M: Math<R>, Q: Publication<R>>(
        &self,
        m: &M,
        q: &Q,
        s: &Vec<Statistics<R>>,
        units: u64,
        estimator: EstimatorKind,
        policy: Fingerprint,
    ) -> (r: Result<RiskDiagnostics<R>, MonteCarloError>)
        requires
            s@.len() == PATHWISE_COMPONENTS,
        ensures
            r == (match diagnostics_of(m.model(), *q, *self, s@, units, estimator) {
                Ok(d) => Ok(frozen(d, policy)),
                Err(e) => Err(e),
            }),
    {
        match self.build_risk_diagnostics(m, q, s, units, estimator) {
            Err(e) => Err(e),
            Ok(d) => Ok(freeze(d, policy)),
        }
    }

    /// The diagnostics of a local-volatility plan whose exercise policy is
    /// frozen.
    pub fn build_local_vol_fixed_policy_risk_diagnostics<M: Math<R>>(
        &self,
        m: &M,
        policy: Fingerprint,
    ) -> (d: RiskDiagnostics<R>)
        ensures
            d == frozen(unvalidated(local_vol_methods(*self)), policy),
    {
        freeze(self.build_local_vol_risk_diagnostics(m), policy)
    }
}

/// Marks the exercise policy as frozen.
fn freeze<R: Scalar>(d: RiskDiagnostics<R>, policy: Fingerprint) -> (f: RiskDiagnostics<R>)
    ensures
        f == frozen(d, policy),
{
    let mut d = d;
    d.methods.exercise_strategy = Some(ExerciseStrategyRisk::FixedExerciseStrategy);
    d.methods.stopping_indices = Some(StoppingIndexRisk::FrozenStoppingIndices);
    d.methods.exercise_policy_fingerprint = Some(policy);
    d
}

/// A warning that accompanies a price.
#[derive(Clone, Copy, Debug, PartialEq, Eq)]
pub struct PricingWarning {
    pub code: &'static str,
    pub message: &'static str,
}

/// The warnings of curves that are read beyond their pillars: the discount
/// curve first.
pub open spec fn extrapolation_warnings_of(
    discount: CurveRegion,
    dividend: CurveRegion,
) -> Seq<PricingWarning> {
    let first = PricingWarning {
        code: "discount_curve_extrapolation",
        message: "expiry uses flat-forward discount-curve extrapolation",
    };
    let second = PricingWarning {
        code: "dividend_curve_extrapolation",
        message: "expiry uses flat-forward dividend-curve extrapolation",
    };
    if discount.extrapolated && dividend.extrapolated {
        seq![first, second]
    } else if discount.extrapolated {
        seq![first]
    } else if dividend.extrapolated {
        seq![second]
    } else {
        Seq::empty()
    }
}

/// What a price needs to be computed again.
pub struct ReplayMetadata {
    pub schema_version: u32,
    pub request_fingerprint: Fingerprint,
    pub version: &'static str,
    /// The operating system and the architecture, with a dash between them.
    pub platform: String,
    /// The number of the migration of the request, if it was migrated.
    pub migration: Option<u64>,
}

/// A [`ReplayMetadata`] as a mathematical value.
pub ghost struct ReplayView {
    pub schema_version: u32,
    pub request_fingerprint: Fingerprint,
    pub version: &'static str,
    pub platform: Seq<char>,
    pub migration: Option<u64>,
}

impl View for ReplayMetadata {
    type V = ReplayView;

    open spec fn view(&self) -> ReplayView {
        ReplayView {
            schema_version: self.schema_version,
            request_fingerprint: self.request_fingerprint,
            version: self.version,
            platform: self.platform@,
            migration: self.migration,
        }
    }
}

/// What the price of a plan needs to be computed again.
pub open spec fn replay_of<R: Scalar>(plan: SimulationPlan<R>) -> ReplayView {
    ReplayView {
        schema_version: plan.provenance.schema_version,
        request_fingerprint: plan.request_fingerprint,
        version: plan.provenance.version,
        platform: plan.provenance.operating_system@ + "-"@ + plan.provenance.architecture@,
        migration: plan.provenance.migration,
    }
}

impl<R: Scalar> SimulationPlan<R> {
    /// What the price needs to be computed again.
    pub fn replay_metadata(&self) -> (r: ReplayMetadata)
        ensures
            r@ == replay_of(*self),
    {
        let mut platform = String::from_str(self.provenance.operating_system);
        platform.append("-");
        platform.append(self.provenance.architecture);
        ReplayMetadata {
            schema_version: self.provenance.schema_version,
            request_fingerprint: self.request_fingerprint,
            version: self.provenance.version,
            platform,
            migration: self.provenance.migration,
        }
    }
}

/// Warns of curves that are read beyond their pillars.
pub fn extrapolation_warnings(discount: CurveRegion, dividend: CurveRegion) -> (w: Vec<
    PricingWarning,
>)
    ensures
        w@ == extrapolation_warnings_of(discount, dividend),
{
    let mut warnings: Vec<PricingWarning> = Vec::new();
    if discount.is_extrapolated() {
        warnings.push(
            PricingWarning {
                code: "discount_curve_extrapolation",
                message: "expiry uses flat-forward discount-curve extrapolation",
            },
        );
    }
    if dividend.is_extrapolated() {
        warnings.push(
            PricingWarning {
                code: "dividend_curve_extrapolation",
                message: "expiry uses flat-forward dividend-curve extrapolation",
            },
        );
    }
    assert(warnings@ =~= extrapolation_warnings_of(discount, dividend));
    warnings
}

/// Freezing the exercise policy changes no number and no bump.
pub proof fn freezing_keeps_numbers<R: Scalar>(d: RiskDiagnostics<R>, policy: Fingerprint)
    ensures
        frozen(d, policy).delta_validation == d.delta_validation,
        frozen(d, policy).gamma_validation == d.gamma_validation,
        frozen(d, policy).vega_validation == d.vega_validation,
        frozen(d, policy).methods.delta == d.methods.delta,
        frozen(d, policy).methods.gamma == d.methods.gamma,
        frozen(d, policy).methods.vega == d.methods.vega,
        frozen(frozen(d, policy), policy) == frozen(d, policy),
{
}

/// A report holds a number exactly when it was asked for.
pub proof fn report_holds_what_was_asked<R: Scalar, Q: Publication<R>>(
    m: Model<R>,
    q: Q,
    plan: SimulationPlan<R>,
    s: Seq<Statistics<R>>,
    units: u64,
    estimator: EstimatorKind,
)
    ensures
        risk_report_of(m, q, plan, s, units, estimator) matches Ok(r) ==> {
            &&& r.delta is Some <==> plan.request_delta
            &&& r.gamma is Some <==> plan.request_gamma is Some
            &&& r.vega is Some <==> plan.request_vega
        },
        fixed_risk_report(q, plan, units, estimator) matches Ok(r) ==> {
            &&& r.delta is Some <==> plan.request_delta
            &&& r.gamma is Some <==> plan.request_gamma is Some
            &&& r.vega is Some <==> plan.request_vega
        },
{
}

/// The functions behind a [`SuppliedPublication`], as mathematical functions.
#[verifier::reject_recursive_types(R)]
pub ghost struct SuppliedPublicationModel<R> {
    pub refusal: spec_fn(Estimate<R>) -> Option<MonteCarloError>,
}

/// A [`Publication`] whose rule is supplied.
#[verifier::reject_recursive_types(R)]
pub struct SuppliedPublication<R: Scalar, FRefusal: Fn(&Estimate<R>) -> Option<MonteCarloError>> {
    refusal: FRefusal,
    model: Ghost<SuppliedPublicationModel<R>>,
}

impl<
    R: Scalar,
    FRefusal: Fn(&Estimate<R>) -> Option<MonteCarloError>,
> SuppliedPublication<R, FRefusal> {
    #[verifier::type_invariant]
    closed spec fn inv(self) -> bool {
        Self::callable(self.refusal)
            && Self::computes(self.refusal, self.model@)
    }

    /// The functions accept every argument.
    pub open spec fn callable(refusal: FRefusal) -> bool {
        &&& forall|estimate: &Estimate<R>| #[trigger] call_requires(refusal, (estimate,))
    }

    /// The functions compute those of the model.
    pub open spec fn computes(refusal: FRefusal, model: SuppliedPublicationModel<R>) -> bool {
        &&& forall|estimate: &Estimate<R>, result: Option<MonteCarloError>| #[trigger]
            call_ensures(refusal, (estimate,), result) ==> result == (model.refusal)(*estimate)
    }

    /// The functions that were supplied.
    pub closed spec fn supplied(self) -> SuppliedPublicationModel<R> {
        self.model@
    }

    /// Takes functions that give the same result whenever they are given the
    /// same arguments.
    pub fn new(refusal: FRefusal) -> (s: Self)
        requires
            Self::callable(refusal),
            exists|model: SuppliedPublicationModel<R>| #[trigger] Self::computes(refusal, model),
        ensures
            Self::computes(refusal, s.supplied()),
    {
        let ghost model = choose|model: SuppliedPublicationModel<R>| #[trigger]
            Self::computes(refusal, model);
        SuppliedPublication { refusal, model: Ghost(model) }
    }

    /// Takes functions that are known to compute `model`.
    pub fn with_model(refusal: FRefusal, model: Ghost<SuppliedPublicationModel<R>>) -> (s: Self)
        requires
            Self::callable(refusal),
            Self::computes(refusal, model@),
        ensures
            s.supplied() == model@,
    {
        SuppliedPublication { refusal, model }
    }
}

impl<
    R: Scalar,
    FRefusal: Fn(&Estimate<R>) -> Option<MonteCarloError>,
> Publication<R> for SuppliedPublication<R, FRefusal> {
    open spec fn refusal_of(&self, estimate: Estimate<R>) -> Option<MonteCarloError> {
        (self.supplied().refusal)(estimate)
    }

    fn refusal(&self, estimate: &Estimate<R>) -> (r: Option<MonteCarloError>) {
        proof {
            use_type_invariant(self);
        }
        (self.refusal)(estimate)
    }
}

} // verus!
