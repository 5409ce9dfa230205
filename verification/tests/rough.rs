//! Rough volatility beside equity and dividends.

use pricing::dynamics::{KernelNumerics, SuppliedKernelNumerics};
use pricing::errors::{MonteCarloError, StochasticDividendError};
use pricing::models::{Bergomi2Factor, BuehlerDividendModel, Pair, RoughBergomi};
use pricing::rough::RoughDividendKernel;
use pricing::rough_reverse::{log_weight_h, RoughCorrelationReverse, RoughParameterReverse};
use pricing::scalar::{Arithmetic, Elementary, Math};

fn apply(f: Elementary, x: f64) -> f64 {
    match f {
        Elementary::Exp => x.exp(),
        Elementary::ExpM1 => x.exp_m1(),
        Elementary::Ln => x.ln(),
        Elementary::Ln1p => x.ln_1p(),
        Elementary::Sqrt => x.sqrt(),
        Elementary::Abs => x.abs(),
    }
}

fn arithmetic() -> impl Math<f64> {
    Arithmetic::new(
        apply,
        |x: f64, y: f64| x.powf(y),
        |x: f64| x.is_finite(),
        |n: u64| n as f64,
        |x: f64, y: f64| x.total_cmp(&y).is_lt(),
    )
}

/// The average of `exp(-x u)` over the unit interval.
fn phi(x: f64) -> f64 {
    if x == 0.0 {
        1.0
    } else {
        -(-x).exp_m1() / x
    }
}

fn kernel_correlation(a: f64, b: f64) -> Option<f64> {
    if a == b {
        Some(1.0)
    } else {
        Some(phi(a + b) / (phi(2.0 * a) * phi(2.0 * b)).sqrt())
    }
}

fn cholesky(c: &Vec<f64>, n: usize) -> Option<Vec<f64>> {
    let mut l = vec![0.0; n * n];
    for i in 0..n {
        for j in 0..=i {
            let mut x = c[i * n + j];
            for k in 0..j {
                x -= l[i * n + k] * l[j * n + k];
            }
            if i == j {
                if x < -1e-12 {
                    return None;
                }
                l[i * n + i] = x.max(0.0).sqrt();
            } else if l[j * n + j] > 0.0 {
                l[i * n + j] = x / l[j * n + j];
            }
        }
    }
    Some(l)
}

fn pivots(c: &Vec<f64>, n: usize) -> Vec<f64> {
    let l = cholesky(c, n).unwrap();
    (0..n).map(|i| l[i * n + i] * l[i * n + i]).collect()
}

fn transition(speed: f64, time: f64) -> Option<Pair<f64>> {
    Some(Pair { first: (-speed * time).exp(), second: time * phi(2.0 * speed * time) })
}

fn normalized_weights(f: Bergomi2Factor<f64>) -> Pair<f64> {
    let (a, b) = (1.0 - f.mixing_weight, f.mixing_weight);
    let norm = (a * a + b * b + 2.0 * a * b * f.factor_correlation).sqrt();
    Pair { first: a / norm, second: b / norm }
}

/// The mean of the power kernel over the lags between `lo` and `hi`.
fn average_kernel(h: f64, lo: f64, hi: f64) -> f64 {
    let p = h + 0.5;
    (2.0 * h).sqrt() * (hi.powf(p) - lo.powf(p)) / (p * (hi - lo))
}

fn volterra_row(f: RoughBergomi<f64>, times: &Vec<f64>, node: usize) -> Vec<f64> {
    if node == 0 {
        return vec![];
    }
    let t = times[node];
    (0..node - 1)
        .map(|j| average_kernel(f.hurst, t - times[j + 1], t - times[j]))
        .collect()
}

fn volterra_variances(f: RoughBergomi<f64>, times: &Vec<f64>) -> Option<Vec<f64>> {
    let all = (0..times.len())
        .map(|i| {
            if i == 0 {
                return 0.0;
            }
            let near = (times[i] - times[i - 1]).powf(2.0 * f.hurst);
            volterra_row(f, times, i)
                .iter()
                .enumerate()
                .fold(near, |v, (j, w)| v + w * w * (times[j + 1] - times[j]))
        })
        .collect();
    Some(all)
}

fn numerics() -> impl KernelNumerics<f64, Surface = f64> {
    SuppliedKernelNumerics::new(
        kernel_correlation,
        cholesky,
        pivots,
        volterra_variances,
        volterra_row,
        transition,
        |_: &f64, _: &Vec<f64>| true,
        |s: &f64| *s,
        |_: &f64, _: f64, _: f64| None,
        normalized_weights,
    )
}

fn kernel(h: f64, eta: f64, rho: [f64; 3], times: &Vec<f64>) -> RoughDividendKernel<f64> {
    let dividends = BuehlerDividendModel {
        mean_reversion: 0.7,
        equity_linkage: 0.6,
        dividend_volatility: 0.35,
        equity_dividend_correlation: rho[0],
    };
    let factor = RoughBergomi { hurst: h, vol_of_vol: eta, correlation: rho[1] };
    RoughDividendKernel::compile(&arithmetic(), &numerics(), dividends, factor, rho[2], times)
        .unwrap()
}

const RHO: [f64; 3] = [-0.25, -0.4, 0.15];

/// The loadings of an increment and of its near cell on the normals of a step.
fn basis(k: &RoughDividendKernel<f64>, step: usize) -> ([f64; 4], [f64; 4]) {
    let m = arithmetic();
    let mut dw = [0.0; 4];
    let mut near = [0.0; 4];
    for j in 0..4 {
        let mut z = vec![0.0; 4 * (step + 1)];
        z[4 * step + j] = 1.0;
        let p = k.innovations(&m, step, &z);
        dw[j] = p.first;
        near[j] = p.second;
    }
    (dw, near)
}

#[test]
fn near_cell_joint_covariance_matches_independent_power_integrals() {
    for h in [0.01, 0.1, 0.49, 0.5] {
        for dt in [0.0001_f64, 0.17, 1.3] {
            let [sd, sv, dv] = RHO;
            let k = kernel(h, 0.6, RHO, &vec![0.0, dt]);
            let mut rows = [[0.0; 4]; 4];
            rows[0][0] = dt.sqrt();
            rows[1][0] = sd * dt.sqrt();
            rows[1][1] = ((1.0 - sd) * (1.0 + sd)).sqrt() * dt.sqrt();
            let (dw, near) = basis(&k, 0);
            rows[2] = dw;
            rows[3] = near;
            let c =
                |i: usize, j: usize| rows[i].iter().zip(rows[j]).map(|(x, y)| x * y).sum::<f64>();
            let power = (2.0 * h).sqrt() * dt.powf(h + 0.5) / (h + 0.5);
            for (i, j, expected) in [
                (0, 1, sd * dt),
                (0, 2, sv * dt),
                (1, 2, dv * dt),
                (0, 3, sv * power),
                (1, 3, dv * power),
                (2, 3, power),
                (2, 2, dt),
                (3, 3, dt.powf(2.0 * h)),
            ] {
                assert!((c(i, j) - expected).abs() < 2e-13, "H={h} dt={dt} ({i},{j})");
            }
            if h == 0.5 {
                assert_eq!(k.steps[0].residual, 0.0);
            }
        }
    }
}

#[test]
fn discrete_history_variance_and_centering_match_normal_basis() {
    let times = vec![0.0_f64, 0.07, 0.21, 0.64, 1.0];
    for h in [0.03, 0.1, 0.5] {
        let k = kernel(h, 0.6, RHO, &times);
        for i in 1..times.len() {
            let mut variance = 0.0;
            for cell in 0..i {
                let (dw, near) = basis(&k, cell);
                for j in 0..4 {
                    let coefficient = if cell == i - 1 {
                        near[j]
                    } else {
                        k.weights[i][cell] * dw[j]
                    };
                    variance += coefficient * coefficient;
                }
            }
            assert!((variance - k.variances[i]).abs() < 3e-13);
            let expected = (0.5 * 0.6_f64.powi(2) * (variance - k.variances[i])).exp();
            assert!((expected - 1.0).abs() < 2e-13);
            if h < 0.5 && i > 1 {
                assert!(k.variances[i] < times[i].powf(2.0 * h));
            }
        }
    }
}

#[test]
fn coefficient_tangents_preserve_joint_covariance_and_marginal_centering() {
    let (m, o) = (arithmetic(), numerics());
    for h in [0.01, 0.1, 0.49, 0.5] {
        for rho in [[0.0; 3], RHO, [0.8, 0.6, 0.5]] {
            let times = vec![0.0, 0.031, 0.17, 0.36, 1.0];
            let k = kernel(h, 0.6, rho, &times);
            let ctx = RoughCorrelationReverse::new(&m, &o, &k, rho[0]).unwrap();
            let b = ((1.0 - rho[0]) * (1.0 + rho[0])).sqrt();
            for (p, tangent) in ctx.volatility_loading.iter().enumerate() {
                let eps = 1e-6;
                let mut up = rho;
                let mut down = rho;
                up[p] += eps;
                down[p] -= eps;
                let u = kernel(h, 0.6, up, &times);
                let d = kernel(h, 0.6, down, &times);
                for (j, &value) in tangent.iter().enumerate() {
                    let fd = (u.vol_loading[j] - d.vol_loading[j]) / (2.0 * eps);
                    assert!((value - fd).abs() < 3e-8);
                }
                for cell in k.steps.iter() {
                    let f = [cell.root_dt, 0.0, 0.0, 0.0];
                    let div = [rho[0] * cell.root_dt, b * cell.root_dt, 0.0, 0.0];
                    let mut dv = [0.0; 4];
                    let mut dd = [0.0; 4];
                    let mut vol = [0.0; 4];
                    for (j, &v) in k.vol_loading.iter().enumerate() {
                        vol[j] = cell.root_dt * v;
                        dv[j] = cell.root_dt * tangent[j];
                    }
                    if p == 0 {
                        dd = [cell.root_dt, -rho[0] / b * cell.root_dt, 0.0, 0.0];
                    }
                    let near: [f64; 4] = std::array::from_fn(|j| {
                        cell.average * vol[j] + if j == 3 { cell.residual } else { 0.0 }
                    });
                    let dn = dv.map(|x| cell.average * x);
                    let dot = |a: [f64; 4], b: [f64; 4]| {
                        a.iter().zip(b).map(|(a, b)| a * b).sum::<f64>()
                    };
                    let dt = cell.root_dt * cell.root_dt;
                    for (actual, expected) in [
                        (dot(f, dd), if p == 0 { dt } else { 0.0 }),
                        (dot(f, dv), if p == 1 { dt } else { 0.0 }),
                        (dot(dd, vol) + dot(div, dv), if p == 2 { dt } else { 0.0 }),
                        (dot(f, dn), if p == 1 { dt * cell.average } else { 0.0 }),
                        (
                            dot(dd, near) + dot(div, dn),
                            if p == 2 { dt * cell.average } else { 0.0 },
                        ),
                        (2.0 * dot(vol, dv), 0.0),
                        (2.0 * dot(near, dn), 0.0),
                    ] {
                        assert!(
                            (actual - expected).abs() < 2e-12,
                            "H={h} p={p} {actual} vs {expected}"
                        );
                    }
                }
                assert_eq!(u.variances, k.variances);
                assert_eq!(d.variances, k.variances);
            }
        }
    }
}

fn history() -> (Vec<f64>, Vec<f64>, Vec<f64>) {
    (
        vec![0.0, 0.031, 0.17, 0.36, 0.8, 1.0],
        (0..20).map(|i| ((i as f64 + 0.4) * 1.7).sin()).collect(),
        vec![0.3, -0.7, 0.2, 0.9, -0.1],
    )
}

fn weighted(k: &RoughDividendKernel<f64>, z: &Vec<f64>, seeds: &Vec<f64>) -> f64 {
    k.volatility_loadings(&arithmetic(), z)
        .unwrap()
        .iter()
        .zip(seeds)
        .map(|(v, s)| v * s)
        .sum::<f64>()
}

#[test]
fn history_transpose_matches_recompiled_loadings_and_is_causal() {
    let (m, o) = (arithmetic(), numerics());
    let (times, z, seeds) = history();
    for h in [0.01, 0.1, 0.49, 0.5] {
        for eta in [0.0, 0.6] {
            for rho in [[0.0; 3], RHO] {
                let k = kernel(h, eta, rho, &times);
                let ctx = RoughCorrelationReverse::new(&m, &o, &k, rho[0]).unwrap();
                let actual = ctx.pullback(&m, &k, &z, &seeds).unwrap();
                let value = |rho: [f64; 3]| weighted(&kernel(h, eta, rho, &times), &z, &seeds);
                for (p, &aad) in actual.iter().enumerate() {
                    for eps in [1e-5, 1e-6] {
                        let mut up = rho;
                        let mut down = rho;
                        up[p] += eps;
                        down[p] -= eps;
                        let fd = (value(up) - value(down)) / (2.0 * eps);
                        assert!((aad - fd).abs() < 3e-8, "H={h} eta={eta} p={p} {aad} vs {fd}");
                    }
                }
                if eta == 0.0 {
                    assert_eq!(actual, [0.0; 3]);
                }
                let mut future = z.clone();
                future[16..].fill(5.0);
                assert_eq!(actual, ctx.pullback(&m, &k, &future, &seeds).unwrap());
                let mut bad = seeds.clone();
                bad[0] = f64::NAN;
                assert!(ctx.pullback(&m, &k, &z, &bad).is_err());
                assert!(ctx.pullback(&m, &k, &z[..19].to_vec(), &seeds).is_err());
                let mut bad = z.clone();
                bad[0] = f64::NAN;
                assert!(ctx.pullback(&m, &k, &bad, &seeds).is_err());
            }
        }
    }
}

#[test]
fn kernel_h_derivatives_match_independent_power_integral_quadrature() {
    let m = arithmetic();
    for h in [0.01_f64, 0.1, 0.49, 0.5] {
        for (lo, hi) in [(0.1_f64, 0.100001), (0.1, 0.3), (1.0, 2.0)] {
            let n = 2048;
            let dx = (hi - lo) / n as f64;
            let mut sum = 0.0;
            let mut plain = 0.0;
            for j in 0..=n {
                let x = lo + dx * j as f64;
                let c = if j == 0 || j == n {
                    1.0
                } else if j % 2 == 0 {
                    2.0
                } else {
                    4.0
                };
                plain += c * (2.0 * h).sqrt() * x.powf(h - 0.5);
                sum += c * (2.0 * h).sqrt() * x.powf(h - 0.5) * (0.5 / h + x.ln());
            }
            let expected = sum * dx / (3.0 * (hi - lo));
            let average = plain * dx / (3.0 * (hi - lo));
            let actual = average * log_weight_h(&m, h, lo, hi);
            assert!(
                (actual - expected).abs() < 2e-10,
                "H={h}, lags=({lo},{hi}): {actual} vs {expected}"
            );
        }
    }
}

#[test]
fn history_reverse_matches_recompiled_loadings_including_endpoint_and_eta_zero() {
    let m = arithmetic();
    let (times, z, seeds) = history();
    for h in [0.01, 0.1, 0.49, 0.5] {
        for eta in [0.0, 0.6] {
            let k = kernel(h, eta, RHO, &times);
            let ctx = RoughParameterReverse::new(&m, &k, &times).unwrap();
            let actual = ctx.pullback(&m, &k, &z, &seeds).unwrap();
            let value = |h: f64, eta: f64| weighted(&kernel(h, eta, RHO, &times), &z, &seeds);
            for (p, aad) in [actual.first, actual.second].into_iter().enumerate() {
                let eps = 1e-7;
                let expected = if p == 0 {
                    if h == 0.5 {
                        (value(h, eta) - value(h - eps, eta)) / eps
                    } else {
                        (value(h + eps, eta) - value(h - eps, eta)) / (2.0 * eps)
                    }
                } else if eta == 0.0 {
                    (value(h, eta + eps) - value(h, eta)) / eps
                } else {
                    (value(h, eta + eps) - value(h, eta - eps)) / (2.0 * eps)
                };
                assert!(
                    (aad - expected).abs() < 3e-6,
                    "H={h}, eta={eta}, p={p}: {aad} vs {expected}"
                );
            }
            let mut future = z.clone();
            future[16..].fill(5.0);
            assert_eq!(
                k.volatility_loadings(&m, &z).unwrap(),
                k.volatility_loadings(&m, &future).unwrap()
            );
            assert_eq!(actual, ctx.pullback(&m, &k, &future, &seeds).unwrap());
        }
    }
}

#[test]
fn normals_that_do_not_fill_the_steps_are_refused() {
    let m = arithmetic();
    let (times, z, _) = history();
    let k = kernel(0.1, 0.6, RHO, &times);
    for bad in [z[..16].to_vec(), z[..19].to_vec(), vec![]] {
        assert_eq!(
            k.volatility_loadings(&m, &bad),
            Err(MonteCarloError::StochasticDividend(StochasticDividendError::Invalid {
                field: "rough_volterra_history"
            }))
        );
    }
}
