//! What the engine refuses, and why.

use vstd::prelude::*;

verus! {

/// A stochastic-dividend input that is refused.
#[derive(Clone, Copy, Debug, PartialEq, Eq)]
pub enum StochasticDividendError {
    /// The named input or intermediate value is out of its domain.
    Invalid { field: &'static str },
    /// The named capability is not offered.
    Unsupported { feature: &'static str },
}

/// A Hull--White input that is refused.
#[derive(Clone, Copy, Debug, PartialEq, Eq)]
pub enum HullWhiteError {
    /// The entry `index` of the named input is out of its domain.
    InvalidInput { field: &'static str, index: usize },
    /// A state that has to be positive is not.
    NonPositiveState { step: usize },
}

/// A regression matrix whose shape cannot be met.
#[derive(Clone, Copy, Debug, PartialEq, Eq)]
pub enum LsmNumericalError {
    /// The number of entries does not fit the machine.
    MatrixShapeOverflow,
    /// The number of immediate values is not the number of paths.
    ImmediateValueLengthMismatch { expected: usize, actual: usize },
}

/// A failure of a leverage calibration.
#[derive(Clone, Copy, Debug, PartialEq, Eq)]
pub enum LsvError {
    /// The entry `index` of the named input is out of its domain.
    InvalidInput { field: &'static str, index: usize },
    /// The calibration kept no trace to reverse.
    ReverseTraceNotRetained,
    /// A failure of the calibration itself, by its code.
    Calibration { code: u32 },
}

/// The failures of a valuation.
#[derive(Clone, Copy, Debug, PartialEq, Eq)]
pub enum MonteCarloError {
    /// A stochastic-dividend failure.
    StochasticDividend(StochasticDividendError),
    /// A Hull--White failure.
    HullWhite(HullWhiteError),
    /// A regression failure.
    Lsm(LsmNumericalError),
    /// The engine requested is not the one that the entry point runs.
    UnsupportedEngine,
    /// The model requested cannot be priced this way.
    UnsupportedModel { model: &'static str },
    /// The risk requested is not offered for the model.
    UnsupportedRiskForModel { model: &'static str },
    /// Too few sampling units for a variance.
    InsufficientSamplingUnits { count: u64 },
    /// A bucketed report was requested without a reporting basis.
    MissingLocalVolatilityReportingBasis,
    /// The reporting basis does not match the surface.
    MismatchedLocalVolatilityReportingBasis,
    /// A local-volatility failure, by its code.
    LocalVol { code: u32 },
    /// A calibration failure.
    Lsv(LsvError),
    /// The quasi-random plan cannot be made.
    RqmcPlan,
    /// A number that cannot stand in a result, by its name.
    ResultBuild { field: &'static str },
    /// A failure of the surroundings, by its code.
    Component { code: u32 },
}

/// The failure that names the input `field`.
pub fn invalid(field: &'static str) -> (e: MonteCarloError)
    ensures
        e == MonteCarloError::StochasticDividend(StochasticDividendError::Invalid { field }),
{
    MonteCarloError::StochasticDividend(StochasticDividendError::Invalid { field })
}

/// The failure that [`invalid`] makes.
pub open spec fn invalid_field(field: &'static str) -> MonteCarloError {
    MonteCarloError::StochasticDividend(StochasticDividendError::Invalid { field })
}

/// The failure that names a risk which the model does not offer.
pub open spec fn unsupported_risk(model: &'static str) -> MonteCarloError {
    MonteCarloError::UnsupportedRiskForModel { model }
}

/// The failure that names a capability which is not offered.
pub open spec fn unsupported_feature(feature: &'static str) -> MonteCarloError {
    MonteCarloError::StochasticDividend(StochasticDividendError::Unsupported { feature })
}

} // verus!
