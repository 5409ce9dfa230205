//! The parameters of the models.

use vstd::prelude::*;

verus! {

/// The values of two factors.
#[derive(Clone, Copy, Debug, PartialEq)]
pub struct Pair<R> {
    pub first: R,
    pub second: R,
}

/// One-factor Bergomi volatility.
#[derive(Clone, Copy, Debug, PartialEq)]
pub struct Bergomi1Factor<R> {
    pub mean_reversion: R,
    pub vol_of_vol: R,
    /// The correlation of the spot and the volatility factor.
    pub correlation: R,
}

/// Two-factor Bergomi volatility.
#[derive(Clone, Copy, Debug, PartialEq)]
pub struct Bergomi2Factor<R> {
    pub mean_reversions: Pair<R>,
    pub vol_of_vol: R,
    pub mixing_weight: R,
    /// The correlations of the spot and the volatility factors.
    pub spot_correlations: Pair<R>,
    /// The correlation of the two volatility factors.
    pub factor_correlation: R,
}

/// Rough Bergomi volatility.
#[derive(Clone, Copy, Debug, PartialEq)]
pub struct RoughBergomi<R> {
    pub hurst: R,
    pub vol_of_vol: R,
    pub correlation: R,
}

/// Cash dividends that revert to a level linked to the equity.
#[derive(Clone, Copy, Debug, PartialEq)]
pub struct BuehlerDividendModel<R> {
    pub mean_reversion: R,
    pub equity_linkage: R,
    pub dividend_volatility: R,
    pub equity_dividend_correlation: R,
}

/// Equity and dividends, each relative to its forward.
#[derive(Clone, Copy, Debug, PartialEq)]
pub struct BuehlerDividendState<R> {
    pub equity: R,
    pub dividend: R,
}

/// The calibration behind a residual-equity leverage surface.
#[derive(Clone, Copy, Debug, PartialEq)]
pub enum LsvCalibration<R> {
    One { factor: Bergomi1Factor<R>, dividend_volatility_correlation: R },
    Two { factor: Bergomi2Factor<R>, dividend_volatility_correlations: Pair<R> },
    Rough { factor: RoughBergomi<R>, dividend_volatility_correlation: R },
}

/// The digest of everything that determines a plan.
#[derive(Clone, Copy, Debug, PartialEq, Eq)]
pub struct Fingerprint {
    pub bytes: [u8; 32],
}

} // verus!
