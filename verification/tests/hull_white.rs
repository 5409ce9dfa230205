//! Conditional cash under stochastic rates, and its derivatives.

use pricing::dynamics::{DividendDynamics, SuppliedDividendDynamics, SuppliedKernelNumerics};
use pricing::errors::{MonteCarloError, StochasticDividendError};
use pricing::hw_cash::{cash_coefficients, rate_brownian_integral, CashInputs};
use pricing::hw_cash_risk::{
    b_mean_reversion_derivative, cash_coefficient_derivatives, cash_coefficient_jacobian,
    cash_coefficient_rate_derivatives, integrated_b, integrated_b_mean_reversion_derivative,
    rate_brownian_integral_derivatives,
};
use pricing::hw_correlation_risk::{
    covariance_derivatives as correlation_directions, HullWhiteCorrelationSensitivityContext,
};
use pricing::hw_path::StochasticDividendHullWhitePathPlan;
use pricing::hw_rate_risk::{cholesky_direction, covariance_derivatives};
use pricing::models::{
    Bergomi2Factor, BuehlerDividendModel, BuehlerDividendState, Pair, RoughBergomi,
};
use pricing::rate_market::{MixedEvent, SuppliedRateMarket};
use pricing::rates::{b, covariance_loading, HullWhite1Factor, HybridCorrelation};
use pricing::scalar::{Arithmetic, Elementary, Math};

fn apply(f: Elementary, x: f64) -> f64 {
    match f {
        Elementary::Exp => x.exp(),
        Elementary::ExpM1 => x.exp_m1(),
        Elementary::Ln => x.ln(),
        Elementary::Ln1p => x.ln_1p(),
        Elementary::Sqrt => x.sqrt(),
        Elementary::Abs => x.abs(),
    }
}

fn arithmetic() -> impl Math<f64> {
    Arithmetic::new(
        apply,
        |x: f64, y: f64| x.powf(y),
        |x: f64| x.is_finite(),
        |n: u64| n as f64,
        |x: f64, y: f64| x.total_cmp(&y).is_lt(),
    )
}

/// The average of `exp(-x u)` over the unit interval.
fn phi(x: f64) -> f64 {
    if x == 0.0 {
        1.0
    } else {
        -(-x).exp_m1() / x
    }
}

fn kernel_correlation(a: f64, b: f64) -> Option<f64> {
    if a == b {
        Some(1.0)
    } else {
        Some(phi(a + b) / (phi(2.0 * a) * phi(2.0 * b)).sqrt())
    }
}

fn cholesky(c: &Vec<f64>, n: usize) -> Option<Vec<f64>> {
    let mut l = vec![0.0; n * n];
    for i in 0..n {
        for j in 0..=i {
            let mut x = c[i * n + j];
            for k in 0..j {
                x -= l[i * n + k] * l[j * n + k];
            }
            if i == j {
                if x < -1e-12 {
                    return None;
                }
                l[i * n + i] = x.max(0.0).sqrt();
            } else if l[j * n + j] > 0.0 {
                l[i * n + j] = x / l[j * n + j];
            }
        }
    }
    Some(l)
}

fn pivots(c: &Vec<f64>, n: usize) -> Vec<f64> {
    let l = cholesky(c, n).unwrap();
    (0..n).map(|i| l[i * n + i] * l[i * n + i]).collect()
}

fn transition(speed: f64, time: f64) -> Option<Pair<f64>> {
    Some(Pair { first: (-speed * time).exp(), second: time * phi(2.0 * speed * time) })
}

fn normalized_weights(f: Bergomi2Factor<f64>) -> Pair<f64> {
    let (a, b) = (1.0 - f.mixing_weight, f.mixing_weight);
    let norm = (a * a + b * b + 2.0 * a * b * f.factor_correlation).sqrt();
    Pair { first: a / norm, second: b / norm }
}

fn dynamics() -> impl DividendDynamics<f64> {
    SuppliedDividendDynamics::new(
        |k: f64, t: f64| Pair { first: (-k * t).exp(), second: -(-k * t).exp_m1() },
        |w: Pair<f64>, x: f64, y: f64| w.first * x + w.second * y,
        |d: BuehlerDividendModel<f64>, f: f64| d.equity_linkage * f + 1.0 - d.equity_linkage,
        |_: BuehlerDividendModel<f64>, s: BuehlerDividendState<f64>, _: f64, _: f64, _: Pair<f64>| Ok(s),
    )
}

fn cash(k: f64, alpha: f64, nu: f64, rho: f64) -> BuehlerDividendModel<f64> {
    BuehlerDividendModel {
        mean_reversion: k,
        equity_linkage: alpha,
        dividend_volatility: nu,
        equity_dividend_correlation: rho,
    }
}

fn inputs(
    dividends: BuehlerDividendModel<f64>,
    sigma: f64,
    rho_f: f64,
    rho_d: f64,
) -> CashInputs<f64> {
    CashInputs { dividends, sigma, rho_f, rho_d }
}

/// The variance of the integral of a rate of constant unit volatility.
fn unit_variance(a: f64, t: f64) -> f64 {
    if a == 0.0 {
        t * t * t / 3.0
    } else {
        (t + 2.0 * (-a * t).exp_m1() / a - (-2.0 * a * t).exp_m1() / (2.0 * a)) / (a * a)
    }
}

#[test]
fn gaussian_tilt_coefficients_satisfy_discounted_cash_backward_equation() {
    let m = arithmetic();
    let (t, maturity, sigma, nu, rf, rd) = (0.31, 1.43, 0.2, 0.35, 0.25, -0.2);
    let model = cash(0.7, 0.6, nu, -0.25);
    let (f, y, x) = (1.3, 0.9, 0.012);
    for a in [0.0, 0.4] {
        let sr = 0.04;
        let rates = HullWhite1Factor::new(&m, a, vec![0.0], vec![sr]).unwrap();
        // A discount curve of a constant rate of 0.05.
        let bond_price = |time: f64| {
            let variance = unit_variance(a, maturity - time) - unit_variance(a, maturity)
                + unit_variance(a, time);
            (
                -0.05 * (maturity - time) - b(&m, a, maturity - time) * x + 0.5 * sr * sr * variance
            ).exp()
        };
        let price = |time: f64| {
            let c = cash_coefficients(
                &m,
                &rates,
                inputs(model, sigma, rf, rd),
                time,
                maturity,
            ).unwrap();
            bond_price(time) * (c[0] * f + c[1] * y + c[2])
        };
        let c = cash_coefficients(&m, &rates, inputs(model, sigma, rf, rd), t, maturity).unwrap();
        let p = price(t);
        let bond = bond_price(t);
        let df = bond * c[0];
        let dy = bond * c[1];
        let duration = b(&m, a, maturity - t);
        let h = 1e-5;
        let time_derivative = (price(t + h) - price(t - h)) / (2.0 * h);
        let shift = 0.5 * sr * sr * b(&m, a, t) * b(&m, a, t);
        let rate = 0.05 + x + shift;
        // Other second derivatives vanish because the claim is affine in f,Y.
        let residual = time_derivative
            + model.mean_reversion * (
                model.equity_linkage * f + 1.0 - model.equity_linkage - y
            ) * dy
            + a * x * duration * p
            + 0.5 * sr * sr * duration * duration * p
            - rf * sigma * f * sr * duration * df
            - rd * nu * y * sr * duration * dy
            - rate * p;
        assert!(residual.abs() < 2e-8, "a={a}, PDE residual={residual}");
    }
}

#[test]
fn future_rate_knots_change_conditional_cash_and_zero_rate_limit_is_exact() {
    let m = arithmetic();
    let model = cash(0.7, 0.6, 0.35, -0.25);
    let zero = HullWhite1Factor::new(&m, 0.4, vec![0.0, 0.8], vec![0.0, 0.0]).unwrap();
    let c = cash_coefficients(&m, &zero, inputs(model, 0.2, 0.25, -0.2), 0.3, 1.4).unwrap();
    let z = -0.7_f64 * (1.4 - 0.3);
    assert_eq!(c, [0.6 * -z.exp_m1(), z.exp(), 0.4 * -z.exp_m1()]);
    let flat = HullWhite1Factor::new(&m, 0.4, vec![0.0], vec![0.03]).unwrap();
    let changed = HullWhite1Factor::new(&m, 0.4, vec![0.0, 1.1], vec![0.03, 0.09]).unwrap();
    let a = cash_coefficients(&m, &flat, inputs(model, 0.2, 0.25, -0.2), 0.3, 1.4).unwrap();
    let b = cash_coefficients(&m, &changed, inputs(model, 0.2, 0.25, -0.2), 0.3, 1.4).unwrap();
    assert!((a[1] - b[1]).abs() > 1e-5);
    // Deterministic cash always has unit discounted-factor forecast.
    let fixed = cash(0.7, 0.0, 0.0, -0.25);
    let c = cash_coefficients(&m, &changed, inputs(fixed, 0.2, 0.25, -0.2), 0.3, 1.4).unwrap();
    assert!((c[1] + c[2] - 1.0).abs() < 2e-12);
}

#[test]
fn correlation_cholesky_and_cash_directions_match_two_width_recompiles() {
    let m = arithmetic();
    for a in [0.0, 0.4] {
        let rates =
            HullWhite1Factor::new(&m, a, vec![0.0, 0.4, 1.15], vec![0.04, 0.07, 0.09]).unwrap();
        for rho in [[0.0; 3], [-0.25, 0.25, -0.2]] {
            let covariance = |r: [f64; 3]| {
                rates
                    .transition(
                        &m,
                        0.2,
                        1.0,
                        0.0,
                        HybridCorrelation::new(&m, r[0], r[1], r[2]).unwrap(),
                    )
                    .unwrap()
                    .covariance
            };
            let loading = covariance_loading(&m, &covariance(rho)).unwrap();
            let directions = correlation_directions(&m, &rates, 0.2, 1.0).unwrap();
            for (p, dcov) in directions.iter().enumerate() {
                let derivative = cholesky_direction(&m, &loading, dcov).unwrap();
                for h in [1e-5, 1e-6] {
                    let mut up = rho;
                    let mut down = rho;
                    up[p] += h;
                    down[p] -= h;
                    let upper = covariance_loading(&m, &covariance(up)).unwrap();
                    let lower = covariance_loading(&m, &covariance(down)).unwrap();
                    for (i, row) in derivative.iter().enumerate() {
                        for (j, &value) in row.iter().enumerate() {
                            let fd = (upper[i][j] - lower[i][j]) / (2.0 * h);
                            assert!(
                                (value - fd).abs() < 3e-8,
                                "Cholesky a={a}, rho={rho:?}, p={p}, {i},{j}, {value} != {fd}"
                            );
                        }
                    }
                }
            }
            for d in [
                [0.7, 0.6, 0.35],
                [0.0, 0.6, 0.35],
                [0.7, 0.0, 0.0],
                [0.7, 1.0, 0.35],
            ] {
                let at = |r: [f64; 3]| inputs(cash(d[0], d[1], d[2], r[0]), 0.2, r[1], r[2]);
                let derivatives =
                    cash_coefficient_derivatives(&m, &rates, at(rho), 0.2, 1.4).unwrap();
                for (p, derivative) in derivatives.iter().enumerate() {
                    for h in [1e-5, 1e-6] {
                        let mut up = rho;
                        let mut down = rho;
                        up[p] += h;
                        down[p] -= h;
                        let upper = cash_coefficients(&m, &rates, at(up), 0.2, 1.4).unwrap();
                        let lower = cash_coefficients(&m, &rates, at(down), 0.2, 1.4).unwrap();
                        for (i, &value) in derivative.iter().enumerate() {
                            let fd = (upper[i] - lower[i]) / (2.0 * h);
                            assert!(
                                (value - fd).abs() < 3e-8,
                                "cash a={a}, rho={rho:?}, p={p}, i={i}, {value} != {fd}"
                            );
                        }
                    }
                }
            }
        }
    }
}

#[test]
fn instantaneous_boundary_is_rejected_when_integrated_covariance_is_full_rank() {
    let m = arithmetic();
    let rates = HullWhite1Factor::new(&m, 0.4, vec![0.0, 0.3], vec![0.04, 0.07]).unwrap();
    let market = SuppliedRateMarket::new(
        || 100.0,
        || -> Vec<MixedEvent<f64>> { vec![MixedEvent {
            event: 1,
            ex_time: 1.0,
            fixed_cash: 2.0,
            beta: 0.0,
        }] },
        |t: f64| -> Result<f64, MonteCarloError> { Ok((-0.05 * t).exp()) },
        |t: f64| -> Result<f64, MonteCarloError> { Ok((-0.02 * t).exp()) },
        |_: &HullWhite1Factor<f64>, t: f64, s: f64| -> Result<f64, MonteCarloError> {
            Ok((-0.05 * (s - t)).exp())
        },
        |_: &HullWhite1Factor<f64>, t: f64| -> Result<f64, MonteCarloError> {
            Ok(0.04 * 0.04 * unit_variance(0.4, t))
        },
        || vec![0.0, 1.0],
        || vec![0.0, 1.0],
        |_: f64, _: f64, out: &Vec<f64>| -> Result<Vec<f64>, MonteCarloError> { Ok(out.clone()) },
        |_: f64, _: f64, out: &Vec<f64>| -> Result<Vec<f64>, MonteCarloError> { Ok(out.clone()) },
    );
    let x = inputs(cash(0.7, 0.6, 0.35, 0.0), 0.2, 1.0, 0.0);
    let path =
        StochasticDividendHullWhitePathPlan::compile_bs(
            &m,
            &market,
            &rates,
            x,
            vec![0.0, 1.0],
        ).unwrap();
    let cov = rates
        .transition(&m, 0.0, 1.0, 0.0, HybridCorrelation::new(&m, 0.0, 1.0, 0.0).unwrap())
        .unwrap()
        .covariance;
    for (i, row) in cov.iter().enumerate() {
        assert!(path.steps[0].noise[i][i] / row[i].sqrt() > 1e-6);
    }
    let numerics = SuppliedKernelNumerics::new(
        kernel_correlation,
        cholesky,
        pivots,
        |_: RoughBergomi<f64>, _: &Vec<f64>| -> Option<Vec<f64>> { None },
        |_: RoughBergomi<f64>, _: &Vec<f64>, _: usize| -> Vec<f64> { vec![] },
        transition,
        |_: &(), _: &Vec<f64>| -> bool { true },
        |_: &()| -> f64 { 1.0 },
        |_: &(), _: f64, _: f64| -> Option<f64> { Some(1.0) },
        normalized_weights,
    );
    let refused = HullWhiteCorrelationSensitivityContext::new(&m, &numerics, &rates, x, &path);
    assert!(matches!(
        refused,
        Err(MonteCarloError::StochasticDividend(StochasticDividendError::Invalid {
            field: "singular_hw_correlation_adjoint"
        }))
    ));
    // Away from the boundary the derivatives can be had.
    let x = inputs(cash(0.7, 0.6, 0.35, 0.0), 0.2, 0.5, 0.0);
    let path =
        StochasticDividendHullWhitePathPlan::compile_bs(
            &m,
            &market,
            &rates,
            x,
            vec![0.0, 1.0],
        ).unwrap();
    let found = HullWhiteCorrelationSensitivityContext::new(
        &m,
        &numerics,
        &rates,
        x,
        &path,
    ).unwrap();
    assert_eq!(found.labels().len(), 3);
}

#[test]
fn rate_integral_derivatives_match_piecewise_parameter_bumps() {
    let m = arithmetic();
    let a = 0.37;
    let times = vec![0.0, 0.4, 1.05];
    let vols = vec![0.025, 0.061, 0.044];
    let rates = HullWhite1Factor::new(&m, a, times.clone(), vols.clone()).unwrap();
    let start = 0.16;
    let maturity = 1.42;
    let tangent = rate_brownian_integral_derivatives(&m, &rates, start, maturity);
    let value = |aa: f64, vv: &[f64]| {
        rate_brownian_integral(
            &m,
            &HullWhite1Factor::new(&m, aa, times.clone(), vv.to_vec()).unwrap(),
            start,
            maturity,
        )
        .unwrap()
    };
    let h = 1e-6;
    let fd_a = (value(a + h, &vols) - value(a - h, &vols)) / (2.0 * h);
    assert!((tangent[0] - fd_a).abs() < 2e-10);
    for j in 0..vols.len() {
        let mut up = vols.clone();
        let mut down = vols.clone();
        up[j] += h;
        down[j] -= h;
        let fd = (value(a, &up) - value(a, &down)) / (2.0 * h);
        assert!((tangent[j + 1] - fd).abs() < 2e-10, "knot {j}: {} vs {fd}", tangent[j + 1]);
    }
}

#[test]
fn mean_reversion_loading_derivatives_have_stable_zero_limit() {
    let m = arithmetic();
    for h in [1e-4, 0.3, 2.0] {
        let a = 0.0;
        let epsilon = 1e-6;
        let b_fd = (b(&m, a + epsilon, h) - b(&m, a, h)) / epsilon;
        let ib_fd = (integrated_b(&m, a + epsilon, h) - integrated_b(&m, a, h)) / epsilon;
        assert!((b_mean_reversion_derivative(&m, a, h) - b_fd).abs() < 2e-6 * h * h);
        assert!(
            (integrated_b_mean_reversion_derivative(&m, a, h) - ib_fd).abs() < 2e-6 * h * h * h
        );
    }
}

#[test]
fn joint_covariance_and_conditional_claim_tangents_match_parameter_bumps() {
    let m = arithmetic();
    let times = vec![0.0, 0.35, 0.8, 1.2];
    let vols = vec![0.03, 0.055, 0.04, 0.07];
    let rates = HullWhite1Factor::new(&m, 0.42, times.clone(), vols.clone()).unwrap();
    let corr = HybridCorrelation::new(&m, -0.25, 0.22, -0.18).unwrap();
    // The matrices one behind the other, row by row.
    let derivative = covariance_derivatives(&m, &rates, corr, 0.1, 1.0).unwrap();
    assert_eq!(derivative.len(), 5 * 16);
    let bump_rates = |parameter: usize, bump: f64| {
        let mut a = 0.42;
        let mut bumped_vols = vols.clone();
        if parameter == 0 {
            a += bump;
        } else {
            bumped_vols[parameter - 1] += bump;
        }
        HullWhite1Factor::new(&m, a, times.clone(), bumped_vols).unwrap()
    };
    let h = 1e-6;
    for p in 0..5 {
        let up = bump_rates(p, h).transition(&m, 0.1, 1.0, 0.0, corr).unwrap().covariance;
        let down = bump_rates(p, -h).transition(&m, 0.1, 1.0, 0.0, corr).unwrap().covariance;
        for i in 0..4 {
            for j in 0..4 {
                let fd = (up[i][j] - down[i][j]) / (2.0 * h);
                let value = derivative[16 * p + 4 * i + j];
                assert!((value - fd).abs() < 2e-9, "covariance p={p} ({i},{j}): {value} vs {fd}");
            }
        }
    }
    let x = inputs(cash(0.73, 0.61, 0.32, -0.25), 0.2, 0.22, -0.18);
    let coefficient = cash_coefficient_rate_derivatives(&m, &rates, x, 0.21, 1.43).unwrap();
    assert_eq!(coefficient.len(), 5);
    for (p, coefficient_row) in coefficient.iter().enumerate() {
        let value = |r: &HullWhite1Factor<f64>| cash_coefficients(&m, r, x, 0.21, 1.43).unwrap();
        let up = value(&bump_rates(p, h));
        let down = value(&bump_rates(p, -h));
        for c in 0..3 {
            let fd = (up[c] - down[c]) / (2.0 * h);
            assert!(
                (coefficient_row[c] - fd).abs() < 3e-8,
                "cash coefficient p={p} c={c}: {} vs {fd}",
                coefficient_row[c]
            );
        }
    }
}

#[test]
fn cash_coefficient_partials_include_zero_branches_and_future_rate_knots() {
    let m = arithmetic();
    let y = dynamics();
    for sr in [0.0, 0.04] {
        let rates =
            HullWhite1Factor::new(
                &m,
                0.4,
                vec![0.0, 0.8, 1.2],
                vec![sr, sr * 1.4, sr * 0.7],
            ).unwrap();
        for k in [0.0, 0.7] {
            for alpha in [0.0, 0.6, 1.0] {
                for nu in [0.0, 0.35] {
                    for sigma in [0.0, 0.2] {
                        let from = [sigma, k, alpha, nu];
                        let at = |x: [f64; 4]| inputs(
                            cash(x[1], x[2], x[3], -0.25),
                            x[0],
                            0.25,
                            -0.2,
                        );
                        let coefficient =
                            |x: [f64; 4]| cash_coefficients(&m, &rates, at(x), 0.31, 1.43).unwrap();
                        let jac =
                            cash_coefficient_jacobian(
                                &m,
                                &y,
                                &rates,
                                at(from),
                                0.31,
                                1.43,
                            ).unwrap();
                        for (j, row) in jac.iter().enumerate() {
                            let inward = from[j] == 0.0 || (j == 2 && alpha == 1.0);
                            for h in [1e-5, 1e-6] {
                                let mut up = from;
                                let mut down = from;
                                let signed = if j == 2 && alpha == 1.0 { -h } else { h };
                                up[j] += signed;
                                if !inward {
                                    down[j] -= signed;
                                }
                                let u = coefficient(up);
                                let d = coefficient(down);
                                for (c, &derivative) in row.iter().enumerate() {
                                    let fd = (u[c] - d[c]) / (
                                        if inward { signed } else { 2.0 * signed }
                                    );
                                    let budget = if inward { 2e-5 } else { 3e-7 };
                                    assert!(
                                        (derivative - fd).abs() < budget,
                                        "inputs={from:?} sr={sr}, j={j} c={c}, AAD={derivative} FD={fd}"
                                    );
                                }
                            }
                        }
                    }
                }
            }
        }
    }
}

#[test]
fn zero_mean_reversion_tilt_and_linkage_limits_match_independent_integrals() {
    // a=0, constant sr: L(t,T)=sr*(T-t)^2/2. Independent midpoint
    // integration of elementary exponentials checks kappa's *nonzero*
    // derivative even though the primal A,C are zero at kappa=0.
    let m = arithmetic();
    let rates = HullWhite1Factor::new(&m, 0.0, vec![0.0], vec![0.04]).unwrap();
    let (tau, sigma, rf, rd): (f64, f64, f64, f64) = (1.12, 0.2, 0.25, -0.2);
    let x = inputs(cash(0.0, 0.6, 0.35, -0.25), sigma, rf, rd);
    let jac = cash_coefficient_jacobian(&m, &dynamics(), &rates, x, 0.31, 1.43).unwrap();
    let total = 0.04 * tau * tau / 2.0;
    let by = (-0.35 * rd * total).exp();
    assert!((jac[1][1] + tau * by).abs() < 2e-14);
    assert!((jac[3][1] + rd * total * by).abs() < 2e-14);
    let mut expected = [0.0; 2];
    let n = 20_000;
    for i in 0..n {
        let v = tau * (i as f64 + 0.5) / n as f64;
        let tail = 0.04 * v * v / 2.0;
        expected[0] += 0.6 * (
            -0.35 * rd * tail - sigma * rf * (total - tail)
        ).exp() * tau / n as f64;
        expected[1] += 0.4 * (-0.35 * rd * tail).exp() * tau / n as f64;
    }
    assert!((jac[1][0] - expected[0]).abs() < 2e-11);
    assert!((jac[1][2] - expected[1]).abs() < 2e-11);
    assert_eq!(jac[0], [0.0; 3]);
    assert_eq!(jac[2], [0.0; 3]);
}
