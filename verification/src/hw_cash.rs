//! The value of a cash dividend under stochastic rates: a claim is a bond times
//! an affine function of equity and dividends, whose coefficients are Gaussian
//! tilts integrated up to the payment.

use crate::bergomi::{is_nonnegative, nonnegative};
use crate::errors::{invalid, invalid_field, MonteCarloError};
use crate::models::BuehlerDividendModel;
use crate::quadrature::{cuts_of, integrate_panels, make_cuts, panels, Tolerance};
use crate::rates::{
    correlated, rate_field, transition_of, HullWhite1Factor, HybridCorrelation, RatesView,
};
use crate::results::seen;
use crate::scalar::{literal, minus, negated, over, same, times, Math, Model, Scalar};
use core::ops::Neg;
use vstd::prelude::*;

verus! {

/// Equity and dividends beside rates: the dividend model, the volatility of
/// equity, and the correlations of equity and of dividends with the rate.
#[derive(Clone, Copy, Debug)]
pub struct CashInputs<R> {
    pub dividends: BuehlerDividendModel<R>,
    pub sigma: R,
    pub rho_f: R,
    pub rho_d: R,
}

/// The correlations of an equity that moves with the rate alone.
pub open spec fn rate_driver<R: Scalar>() -> HybridCorrelation<R> {
    HybridCorrelation {
        equity_second: literal(0),
        equity_rate: literal(1),
        second_rate: literal(0),
    }
}

/// The integral of the volatility of the rate times its duration, up to a
/// maturity.
pub open spec fn rate_integral<R: Scalar>(
    m: Model<R>,
    rates: RatesView<R>,
    t: R,
    maturity: R,
) -> Result<
    R,
    MonteCarloError,
> {
    if !correlated(m, rate_driver::<R>()) {
        Err(rate_field("correlation", 0))
    } else {
        match transition_of(m, rates, t, maturity, literal(0), rate_driver()) {
            Err(e) => Err(e),
            Ok(x) => Ok(x.covariance[3][0]),
        }
    }
}

/// Computes [`rate_integral`].
pub fn rate_brownian_integral<R: Scalar, M: Math<R>>(
    m: &M,
    rates: &HullWhite1Factor<R>,
    t: R,
    maturity: R,
) -> (r: Result<R, MonteCarloError>)
    requires
        rates@.valid(),
    ensures
        r == rate_integral(m.model(), rates@, t, maturity),
{
    m.laws();
    let zero = R::from(0u32);
    let correlation = match HybridCorrelation::new(m, zero, R::from(1u32), zero) {
        Err(e) => return Err(e),
        Ok(c) => c,
    };
    match rates.transition(m, t, maturity, zero, correlation) {
        Err(e) => Err(e),
        Ok(x) => {
            assert(x@.covariance[3] == x.covariance@[3]@);
            Ok(x.covariance[3][0])
        },
    }
}

/// The tolerance of the integrals of claims.
pub open spec fn cash_tolerance<R: Scalar>() -> Tolerance<R> {
    Tolerance {
        absolute: over(literal(1), times(literal(1000000), literal(1000000))),
        relative: over(literal(1), times(literal(1000000), literal(100000))),
        field: "cash_quadrature_convergence",
    }
}

/// Makes [`cash_tolerance`].
pub fn make_cash_tolerance<R: Scalar, M: Math<R>>(m: &M) -> (t: Tolerance<R>)
    ensures
        t == cash_tolerance::<R>(),
{
    m.laws();
    Tolerance {
        absolute: R::from(1u32) / (R::from(1000000u32) * R::from(1000000u32)),
        relative: R::from(1u32) / (R::from(1000000u32) * R::from(100000u32)),
        field: "cash_quadrature_convergence",
    }
}

/// How deep the integrals of claims are halved.
pub const CASH_DEPTH: u32 = 20;

/// What is integrated back from the payment: the part of the claim that follows
/// equity, and the part that is certain.
pub open spec fn cash_integrand<R: Scalar>(
    m: Model<R>,
    rates: RatesView<R>,
    x: CashInputs<R>,
    total: R,
    maturity: R,
) -> spec_fn(R) -> Result<Seq<R>, MonteCarloError> {
    let k = x.dividends.mean_reversion;
    let alpha = x.dividends.equity_linkage;
    let cf = times(x.sigma, x.rho_f);
    let cd = times(x.dividends.dividend_volatility, x.rho_d);
    |v: R|
        match rate_integral(m, rates, minus(maturity, v), maturity) {
            Err(e) => Err(e),
            Ok(tail) => {
                let common = minus(times(negated(k), v), times(cd, tail));
                let first = if same(alpha, literal(0)) {
                    literal(0)
                } else {
                    times(k, m.exp(minus(common, times(cf, minus(total, tail)))))
                };
                let second = if same(alpha, literal(1)) {
                    literal(0)
                } else {
                    times(k, m.exp(common))
                };
                if nonnegative(m, first) && nonnegative(m, second) {
                    Ok(seq![first, second])
                } else {
                    Err(invalid_field("cash_quadrature_integrand"))
                }
            },
        }
}

fn cash_integrand_at<R: Scalar, M: Math<R>>(
    m: &M,
    rates: &HullWhite1Factor<R>,
    x: CashInputs<R>,
    total: R,
    maturity: R,
    v: R,
) -> (r: Result<Vec<R>, MonteCarloError>)
    requires
        rates@.valid(),
    ensures
        seen(r) == cash_integrand(m.model(), rates@, x, total, maturity)(v),
        r matches Ok(y) ==> y@.len() == 2,
{
    m.laws();
    let k = x.dividends.mean_reversion;
    let alpha = x.dividends.equity_linkage;
    let cf = x.sigma * x.rho_f;
    let cd = x.dividends.dividend_volatility * x.rho_d;
    let tail = match rate_brownian_integral(m, rates, maturity - v, maturity) {
        Err(e) => return Err(e),
        Ok(y) => y,
    };
    let common = k.neg() * v - cd * tail;
    let first = if alpha == R::from(0u32) {
        R::from(0u32)
    } else {
        k * m.exp(common - cf * (total - tail))
    };
    let second = if alpha == R::from(1u32) {
        R::from(0u32)
    } else {
        k * m.exp(common)
    };
    if !is_nonnegative(m, first) || !is_nonnegative(m, second) {
        return Err(invalid("cash_quadrature_integrand"));
    }
    let y = vec![first, second];
    assert(y@ =~= seq![first, second]);
    Ok(y)
}

/// The coefficients of equity, of dividends and of one in the value of a claim,
/// relative to its bond.
pub open spec fn cash_coefficients_of<R: Scalar>(
    m: Model<R>,
    rates: RatesView<R>,
    x: CashInputs<R>,
    t: R,
    maturity: R,
) -> Result<Seq<R>, MonteCarloError> {
    let tau = minus(maturity, t);
    let k = x.dividends.mean_reversion;
    let alpha = x.dividends.equity_linkage;
    let cf = times(x.sigma, x.rho_f);
    let cd = times(x.dividends.dividend_volatility, x.rho_d);
    let zero = literal::<R>(0);
    if rates.deterministic() || (same(cf, zero) && same(cd, zero)) || (same(alpha, zero) && same(
        cd,
        zero,
    )) {
        let complement = negated(m.exp_m1(times(negated(k), tau)));
        Ok(
            seq![
                times(alpha, complement),
                m.exp(times(negated(k), tau)),
                times(minus(literal(1), alpha), complement),
            ],
        )
    } else {
        match rate_integral(m, rates, t, maturity) {
            Err(e) => Err(e),
            Ok(total) => {
                let by = m.exp(minus(times(negated(k), tau), times(cd, total)));
                if same(k, zero) {
                    Ok(seq![zero, by, zero])
                } else {
                    let cuts = cuts_of(m, rates.volatility_times, t, maturity);
                    match panels(
                        m,
                        cash_integrand(m, rates, x, total, maturity),
                        2,
                        cuts,
                        tau,
                        cash_tolerance(),
                        CASH_DEPTH as nat,
                        (cuts.len() - 1) as nat,
                    ) {
                        Err(e) => Err(e),
                        Ok(v) => {
                            let first = times(alpha, v[0]);
                            let last = times(minus(literal(1), alpha), v[1]);
                            if nonnegative(m, first) && nonnegative(m, by) && nonnegative(m, last) {
                                Ok(seq![first, by, last])
                            } else {
                                Err(invalid_field("conditional_cash_coefficient"))
                            }
                        },
                    }
                }
            },
        }
    }
}

/// Takes the coefficients of a claim.
pub fn cash_coefficients<R: Scalar, M: Math<R>>(
    m: &M,
    rates: &HullWhite1Factor<R>,
    x: CashInputs<R>,
    t: R,
    maturity: R,
) -> (r: Result<Vec<R>, MonteCarloError>)
    requires
        rates@.valid(),
    ensures
        seen(r) == cash_coefficients_of(m.model(), rates@, x, t, maturity),
        r matches Ok(v) ==> v@.len() == 3,
{
    m.laws();
    let zero = R::from(0u32);
    let tau = maturity - t;
    let k = x.dividends.mean_reversion;
    let alpha = x.dividends.equity_linkage;
    let cf = x.sigma * x.rho_f;
    let cd = x.dividends.dividend_volatility * x.rho_d;
    if rates.is_deterministic(m) || (cf == zero && cd == zero) || (alpha == zero && cd == zero) {
        let decay = m.exp(k.neg() * tau);
        let grown = m.exp_m1(k.neg() * tau);
        let complement = grown.neg();
        let first = alpha * complement;
        let last = (R::from(1u32) - alpha) * complement;
        let v = vec![first, decay, last];
        assert(v@ =~= seq![first, decay, last]);
        return Ok(v);
    }
    let total = match rate_brownian_integral(m, rates, t, maturity) {
        Err(e) => return Err(e),
        Ok(y) => y,
    };
    let by = m.exp(k.neg() * tau - cd * total);
    if k == zero {
        let v = vec![zero, by, zero];
        assert(v@ =~= seq![zero, by, zero]);
        return Ok(v);
    }
    let ghost g = cash_integrand(m.model(), rates@, x, total, maturity);
    let f = |v: R| -> (y: Result<Vec<R>, MonteCarloError>)
        ensures
            seen(y) == g(v),
            y matches Ok(w) ==> w@.len() == 2,
        { cash_integrand_at(m, rates, x, total, maturity, v) };
    let cuts = make_cuts(m, &rates.volatility_times, t, maturity);
    let v = match integrate_panels(
        m,
        &f,
        Ghost(g),
        2,
        &cuts,
        tau,
        make_cash_tolerance(m),
        CASH_DEPTH,
    ) {
        Err(e) => return Err(e),
        Ok(v) => v,
    };
    let first = alpha * v[0];
    let last = (R::from(1u32) - alpha) * v[1];
    if !is_nonnegative(m, first) || !is_nonnegative(m, by) || !is_nonnegative(m, last) {
        return Err(invalid("conditional_cash_coefficient"));
    }
    let v = vec![first, by, last];
    assert(v@ =~= seq![first, by, last]);
    Ok(v)
}

} // verus!
