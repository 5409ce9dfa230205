//! The plan of a simulation of spot paths: what it prices, which risk it was
//! asked for, and the layout of what a path yields.

use crate::engine::EngineConfig;
use crate::errors::MonteCarloError;
use crate::models::Fingerprint;
use crate::scalar::{times, Math, Scalar};
use vstd::prelude::*;

verus! {

/// The quantities of a path, by their place.
pub const PRICE: usize = 0;

pub const DELTA: usize = 1;

pub const GAMMA: usize = 2;

pub const VEGA: usize = 3;

pub const BUMP_DELTA: usize = 4;

pub const BUMP_GAMMA: usize = 5;

pub const BUMP_VEGA: usize = 6;

pub const DELTA_DIFFERENCE: usize = 7;

pub const GAMMA_DIFFERENCE: usize = 8;

pub const VEGA_DIFFERENCE: usize = 9;

pub const BARRIER_ENDPOINT_HIT: usize = 10;

pub const BARRIER_DIVIDEND_JUMP_HIT: usize = 11;

pub const BARRIER_BRIDGE_HIT_WEIGHT: usize = 12;

pub const BARRIER_INTERVAL_COUNT: usize = 13;

pub const BARRIER_FINITE_CORRECTION_COUNT: usize = 14;

pub const BARRIER_ZERO_VARIANCE_COUNT: usize = 15;

pub const BARRIER_SURVIVAL_UNDERFLOW_COUNT: usize = 16;

pub const BARRIER_CERTAIN_SURVIVAL_COUNT: usize = 17;

/// The number of quantities of a path.
pub const PATHWISE_COMPONENTS: usize = 18;

/// A bump of the spot, absolute or relative to the spot.
#[derive(Clone, Copy, Debug, PartialEq)]
pub enum SpotBump<R> {
    Absolute(R),
    Relative(R),
}

/// How the smile moves with the spot.
#[derive(Clone, Copy, Debug, PartialEq, Eq, Structural)]
pub enum SmileDynamics {
    StickyStrike,
    StickyMoneyness,
    StickyLocalVolatility,
}

/// A smoothing of the payoff.
#[derive(Clone, Copy, Debug, PartialEq)]
pub struct PayoffSmoothing<R> {
    pub width: R,
}

/// Which estimator an estimate comes from.
#[derive(Clone, Copy, Debug, PartialEq, Eq, Structural)]
pub enum EstimatorKind {
    PseudoMonteCarlo,
    RandomizedQuasiMonteCarlo,
}

/// The absolute bump of the spot.
pub open spec fn resolved_bump<R: Scalar>(bump: SpotBump<R>, spot: R) -> R {
    match bump {
        SpotBump::Absolute(h) => h,
        SpotBump::Relative(h) => times(h, spot),
    }
}

/// The absolute bump of the spot.
pub fn resolve_spot_bump<R: Scalar, M: Math<R>>(m: &M, bump: SpotBump<R>, spot: R) -> (h: R)
    ensures
        h == resolved_bump(bump, spot),
{
    m.laws();
    match bump {
        SpotBump::Absolute(h) => h,
        SpotBump::Relative(h) => h * spot,
    }
}

/// The checksums of the quasi-random tables.
#[derive(Clone, Copy, Debug, PartialEq, Eq, Structural)]
pub struct Checksums {
    pub direction: u64,
    pub scramble: u64,
}

/// Where a date lies on a curve: the number of its region, and whether that one is
/// beyond the pillars.
#[derive(Clone, Copy, Debug, PartialEq, Eq, Structural)]
pub struct CurveRegion {
    pub number: u32,
    pub extrapolated: bool,
}

impl CurveRegion {
    /// Whether the region is beyond the pillars.
    pub fn is_extrapolated(&self) -> (b: bool)
        ensures
            b == self.extrapolated,
    {
        self.extrapolated
    }
}

/// What a stream of random numbers is for.
#[derive(Clone, Copy, Debug, PartialEq, Eq, Structural)]
pub enum RandomDomain {
    Valuation,
    LsmTrain,
    RqmcScramble,
}

/// The policies that a plan is run by.
#[derive(Clone, Copy, Debug, PartialEq, Eq, Structural)]
pub struct ExecutionPolicies {
    pub policy_version: u32,
    pub worker_threads: usize,
    pub reduction_block_size: usize,
    pub aad_tile_policy_version: u32,
    pub aad_tile_capacity: usize,
    pub checkpoint_policy_version: u32,
    pub checkpoint_interval: usize,
}

/// What made a plan out of a request: the schema of the request, the version of the
/// program and the machine that it runs on.
#[derive(Clone, Copy, Debug)]
pub struct Provenance {
    pub schema_version: u32,
    pub version: &'static str,
    pub operating_system: &'static str,
    pub architecture: &'static str,
    /// The number of the migration of the request, if it was migrated.
    pub migration: Option<u64>,
}

/// What the results of a plan depend on.
#[derive(Clone, Copy, Debug)]
pub struct SimulationPlan<R> {
    pub spot: R,
    pub discount: R,
    pub request_delta: bool,
    pub request_gamma: Option<SpotBump<R>>,
    pub request_vega: bool,
    pub validation_spot_bump: R,
    pub validation_volatility_bump: R,
    pub smile_dynamics: SmileDynamics,
    pub payoff_smoothing: Option<PayoffSmoothing<R>>,
    pub payoff_smoothing_endpoint_count: usize,
    pub payoff_smoothing_dividend_jump_count: usize,
    /// Whether a barrier is monitored continuously.
    pub continuous_barrier: bool,
    /// Whether the holder may exercise before expiry.
    pub early_exercise: bool,
    /// The number of contractual observations.
    pub observation_count: usize,
    /// Whether the model is a local volatility.
    pub local_volatility: bool,
    /// The two-sided normal quantile of the confidence intervals.
    pub normal_quantile: R,
    /// The fingerprint of the request.
    pub request_fingerprint: Fingerprint,
    pub provenance: Provenance,
    pub execution: ExecutionPolicies,
    /// The fingerprint of the payoff.
    pub payoff_fingerprint: Fingerprint,
    /// The number of the description of the path state, if there is one.
    pub path_state: Option<u64>,
    /// The variance of the logarithm of the spot to expiry.
    pub total_variance: R,
    /// The region of the discount curve that the expiry lies in.
    pub discount_region: CurveRegion,
    /// The region of the dividend curve that the expiry lies in.
    pub dividend_region: CurveRegion,
    pub engine: EngineConfig,
    /// The failure of the executor, if it could not be made.
    pub executor_failure: Option<MonteCarloError>,
    /// The failure of the quasi-random plan, if it could not be made.
    pub quasi_failure: Option<MonteCarloError>,
    /// The failure of the Brownian bridge, if it could not be made.
    pub bridge_failure: Option<MonteCarloError>,
    /// The checksums of the quasi-random tables.
    pub checksums: Checksums,
}

impl<R: Scalar> SimulationPlan<R> {
    /// Whether any risk was asked for.
    pub open spec fn risk_requested(self) -> bool {
        self.request_delta || self.request_gamma is Some || self.request_vega
    }

    /// Whether any risk was asked for.
    pub fn risk_enabled(&self) -> (b: bool)
        ensures
            b == self.risk_requested(),
    {
        self.request_delta || self.request_gamma.is_some() || self.request_vega
    }
}

} // verus!
