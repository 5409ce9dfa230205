//! The stochastic-dividend plan and its price.

use crate::engine::EngineConfig;
use crate::estimation::Job;
use crate::models::{BuehlerDividendModel, Fingerprint, LsvCalibration};
use crate::scalar::Scalar;
use vstd::prelude::*;

verus! {

/// A price with its Monte Carlo uncertainty.
#[derive(Clone, Copy, Debug, PartialEq)]
pub struct StochasticDividendPrice<R> {
    pub value: R,
    pub standard_error: R,
    pub independent_sampling_units: u64,
    pub evaluated_paths: u128,
    pub plan_fingerprint: Fingerprint,
    pub scheme: &'static str,
}

/// A compiled plan: residual equity with a stochastic cash reserve.
pub struct StochasticDividendPricingPlan<R, P> {
    /// The compiled path.
    pub path: P,
    /// Whether the path carries a leverage surface.
    pub path_is_lsv: bool,
    /// The dividend model of the path.
    pub model: BuehlerDividendModel<R>,
    /// The simulation.
    pub job: Job,
    pub fingerprint: Fingerprint,
    pub scheme: &'static str,
    /// The time at which the payoff is paid.
    pub payment_time: R,
    /// Whether the payoff has pathwise derivatives, by itself or by smoothing.
    pub risk_supported: bool,
    /// The calibration, where there is one.
    pub lsv: Option<LsvCalibration<R>>,
}

/// The independent sampling units of an engine.
pub fn engine_units(engine: &EngineConfig) -> (units: u64)
    ensures
        units == engine.units(),
{
    match engine {
        EngineConfig::PseudoMonteCarlo(config) => config.independent_sampling_units,
        EngineConfig::RandomizedQuasiMonteCarlo(config) => config.scramble_count as u64,
    }
}

/// The paths that an engine evaluates.
pub fn engine_paths(engine: &EngineConfig) -> (paths: u128)
    ensures
        paths == engine.paths(),
{
    match engine {
        EngineConfig::PseudoMonteCarlo(config) => config.evaluated_paths(),
        EngineConfig::RandomizedQuasiMonteCarlo(config) => config.evaluated_paths(),
    }
}

/// The price of a plan with the given value and standard error.
pub open spec fn price_of<R, P>(
    plan: StochasticDividendPricingPlan<R, P>,
    value: R,
    standard_error: R,
) -> StochasticDividendPrice<R> {
    StochasticDividendPrice {
        value,
        standard_error,
        independent_sampling_units: plan.job.engine.units(),
        evaluated_paths: plan.job.engine.paths() as u128,
        plan_fingerprint: plan.fingerprint,
        scheme: plan.scheme,
    }
}

impl<R: Scalar, P> StochasticDividendPricingPlan<R, P> {
    /// Labels a value and its standard error as the price of the plan.
    pub fn price(&self, value: R, standard_error: R) -> (p: StochasticDividendPrice<R>)
        ensures
            p == price_of(*self, value, standard_error),
            p.evaluated_paths == self.job.engine.paths(),
    {
        StochasticDividendPrice {
            value,
            standard_error,
            independent_sampling_units: engine_units(&self.job.engine),
            evaluated_paths: engine_paths(&self.job.engine),
            plan_fingerprint: self.fingerprint,
            scheme: self.scheme,
        }
    }
}

} // verus!
