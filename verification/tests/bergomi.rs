//! Bergomi volatility factors beside equity and dividends.

use pricing::bergomi::{Kernel, Step};
use pricing::bergomi_reverse::{log_phi_derivative, StepDerivative};
use pricing::correlation_reverse::{lower_derivatives, BergomiCorrelationReverse};
use pricing::dynamics::{KernelNumerics, SuppliedDividendDynamics, SuppliedKernelNumerics};
use pricing::errors::{MonteCarloError, StochasticDividendError};
use pricing::models::{
    Bergomi1Factor, Bergomi2Factor, BuehlerDividendModel, BuehlerDividendState, Pair, RoughBergomi,
};
use pricing::scalar::{Arithmetic, Elementary, Math};

fn apply(f: Elementary, x: f64) -> f64 {
    match f {
        Elementary::Exp => x.exp(),
        Elementary::ExpM1 => x.exp_m1(),
        Elementary::Ln => x.ln(),
        Elementary::Ln1p => x.ln_1p(),
        Elementary::Sqrt => x.sqrt(),
        Elementary::Abs => x.abs(),
    }
}

fn arithmetic() -> impl Math<f64> {
    Arithmetic::new(
        apply,
        |x: f64, y: f64| x.powf(y),
        |x: f64| x.is_finite(),
        |n: u64| n as f64,
        |x: f64, y: f64| x.total_cmp(&y).is_lt(),
    )
}

/// The average of `exp(-x u)` over the unit interval.
fn phi(x: f64) -> f64 {
    if x == 0.0 {
        1.0
    } else {
        -(-x).exp_m1() / x
    }
}

fn kernel_correlation(a: f64, b: f64) -> Option<f64> {
    if a == b {
        Some(1.0)
    } else {
        Some(phi(a + b) / (phi(2.0 * a) * phi(2.0 * b)).sqrt())
    }
}

fn cholesky(c: &Vec<f64>, n: usize) -> Option<Vec<f64>> {
    let mut l = vec![0.0; n * n];
    for i in 0..n {
        for j in 0..=i {
            let mut x = c[i * n + j];
            for k in 0..j {
                x -= l[i * n + k] * l[j * n + k];
            }
            if i == j {
                if x < -1e-12 {
                    return None;
                }
                l[i * n + i] = x.max(0.0).sqrt();
            } else if l[j * n + j] > 0.0 {
                l[i * n + j] = x / l[j * n + j];
            }
        }
    }
    Some(l)
}

fn pivots(c: &Vec<f64>, n: usize) -> Vec<f64> {
    let l = cholesky(c, n).unwrap();
    (0..n).map(|i| l[i * n + i] * l[i * n + i]).collect()
}

fn transition(speed: f64, time: f64) -> Option<Pair<f64>> {
    Some(Pair { first: (-speed * time).exp(), second: time * phi(2.0 * speed * time) })
}

fn normalized_weights(f: Bergomi2Factor<f64>) -> Pair<f64> {
    let (a, b) = (1.0 - f.mixing_weight, f.mixing_weight);
    let norm = (a * a + b * b + 2.0 * a * b * f.factor_correlation).sqrt();
    Pair { first: a / norm, second: b / norm }
}

/// A surface of one squared leverage.
struct Flat {
    squared: f64,
    start: f64,
    rows: usize,
}

fn numerics() -> impl KernelNumerics<f64, Surface = Flat> {
    SuppliedKernelNumerics::new(
        kernel_correlation,
        cholesky,
        pivots,
        |_: RoughBergomi<f64>, _: &Vec<f64>| None,
        |_: RoughBergomi<f64>, _: &Vec<f64>, node: usize| vec![0.0; node.saturating_sub(1)],
        transition,
        |s: &Flat, grid: &Vec<f64>| s.rows == grid.len(),
        |s: &Flat| s.start,
        |s: &Flat, _: f64, _: f64| Some(s.squared),
        normalized_weights,
    )
}

const MATRIX: [[f64; 4]; 4] = [
    [1.0, -0.25, -0.4, -0.2],
    [-0.25, 1.0, 0.15, -0.1],
    [-0.4, 0.15, 1.0, 0.3],
    [-0.2, -0.1, 0.3, 1.0],
];

fn flat(matrix: &[[f64; 4]; 4]) -> Vec<f64> {
    matrix.iter().flatten().copied().collect()
}

fn dividends() -> BuehlerDividendModel<f64> {
    BuehlerDividendModel {
        mean_reversion: 0.7,
        equity_linkage: 0.6,
        dividend_volatility: 0.35,
        equity_dividend_correlation: -0.25,
    }
}

fn two_factors() -> Bergomi2Factor<f64> {
    Bergomi2Factor {
        mean_reversions: Pair { first: 0.8, second: 2.1 },
        vol_of_vol: 0.3,
        mixing_weight: 0.35,
        spot_correlations: Pair { first: -0.4, second: -0.2 },
        factor_correlation: 0.3,
    }
}

#[test]
fn joint_ou_covariance_matches_direct_integrals() {
    let (m, o) = (arithmetic(), numerics());
    for k in [0.0, 1e-12, 0.8, 20.0] {
        let rates = [0.0, 0.0, k, 2.1];
        for dt in [0.03_f64, 0.5, 1.7] {
            let step = Step::compile(&m, &o, &vec![k, 2.1], &flat(&MATRIX), dt).unwrap();
            let mut l = [[0.0; 4]; 4];
            l[0][0] = dt.sqrt();
            l[1][0] = -0.25 * dt.sqrt();
            l[1][1] = (1.0_f64 - 0.25 * 0.25).sqrt() * dt.sqrt();
            for j in 0..4 {
                l[2][j] = step.lower[0][j];
                l[3][j] = step.lower[1][j];
            }
            for i in 0..4 {
                for j in 0..4 {
                    let n = 2048;
                    let integral: f64 = (0..=n)
                        .map(|q| {
                            let weight = if q == 0 || q == n {
                                1.0
                            } else if q % 2 == 0 {
                                2.0
                            } else {
                                4.0
                            };
                            weight * (-(rates[i] + rates[j]) * dt * q as f64 / n as f64).exp()
                        })
                        .sum::<f64>()
                        * dt
                        / (3 * n) as f64;
                    let actual: f64 = (0..4).map(|c| l[i][c] * l[j][c]).sum();
                    assert!(
                        (actual - MATRIX[i][j] * integral).abs() < 2e-10,
                        "k={k}, dt={dt}, ({i},{j}), {actual} vs {}",
                        MATRIX[i][j] * integral
                    );
                }
            }
        }
    }
}

#[test]
fn centering_equals_unconditional_weighted_ou_variance() {
    let (m, o) = (arithmetic(), numerics());
    let times = vec![0.0, 0.13, 0.5, 1.0];
    let kernel = Kernel::two(
        &m,
        &o,
        dividends(),
        two_factors(),
        Pair { first: 0.15, second: -0.1 },
        &times,
    )
    .unwrap();
    let p = normalized_weights(two_factors());
    let w = [p.first, p.second];
    for (i, &t) in times[..3].iter().enumerate() {
        let b = |k: f64| -(-k * t).exp_m1() / k;
        let variance =
            w[0] * w[0] * b(1.6) + w[1] * w[1] * b(4.2) + 2.0 * w[0] * w[1] * 0.3 * b(2.9);
        assert!((kernel.centering[i] - 0.3 * variance).abs() < 2e-15);
    }
}

#[test]
fn constant_residual_lsv_matches_flat_bergomi_volatility() {
    let (m, o) = (arithmetic(), numerics());
    let y = SuppliedDividendDynamics::new(
        |speed: f64, time: f64| {
            let kept = (-speed * time).exp();
            Pair { first: kept, second: 1.0 - kept }
        },
        |w: Pair<f64>, current: f64, target: f64| w.first * current + w.second * target,
        |d: BuehlerDividendModel<f64>, equity: f64| {
            1.0 + d.equity_linkage * (equity - 1.0)
        },
        |d: BuehlerDividendModel<f64>,
         s: BuehlerDividendState<f64>,
         volatility: f64,
         time: f64,
         z: Pair<f64>| {
            let root = time.sqrt();
            let rho = d.equity_dividend_correlation;
            let w = rho * z.first + (1.0 - rho * rho).sqrt() * z.second;
            let kept = (-d.mean_reversion * time).exp();
            let target = 1.0 + d.equity_linkage * (s.equity - 1.0);
            Ok::<BuehlerDividendState<f64>, MonteCarloError>(BuehlerDividendState {
                equity: s.equity
                    * (volatility * root * z.first - 0.5 * volatility * volatility * time).exp(),
                dividend: (kept * s.dividend + (1.0 - kept) * target)
                    * (d.dividend_volatility * root * w
                        - 0.5 * d.dividend_volatility * d.dividend_volatility * time)
                        .exp(),
            })
        },
    );
    let factor = Bergomi1Factor { mean_reversion: 0.8, vol_of_vol: 0.0, correlation: -0.4 };
    let times = vec![0.0, 0.5, 1.0];
    let normals = vec![0.2, -0.7, 1.1, -0.3, 0.5, -1.4];
    let plain = Kernel::one(&m, &o, dividends(), factor, 0.15, &times)
        .unwrap()
        .evolve(&m, &y, &o, dividends(), 0.2, &times, &normals)
        .unwrap();
    let surface = Flat { squared: 0.04, start: 90.0, rows: 3 };
    let kernel = Kernel::one(&m, &o, dividends(), factor, 0.15, &times)
        .unwrap()
        .with_leverage(&o, surface, &times)
        .unwrap();
    assert_eq!(
        kernel.scheme(),
        "buehler-bergomi-1f-residual-lsv-joint-ou-positive-split-v1"
    );
    let lsv = kernel.evolve(&m, &y, &o, dividends(), 0.0, &times, &normals).unwrap();
    assert_eq!(plain.len(), 3);
    for (a, b) in plain.iter().zip(lsv.iter()) {
        assert!((a.equity - b.equity).abs() < 2e-15);
        assert!((a.dividend - b.dividend).abs() < 2e-15);
    }
    assert!(lsv[2].equity != 1.0);
}

#[test]
fn loadings_start_at_one_and_stay_positive() {
    let (m, o) = (arithmetic(), numerics());
    let factor = Bergomi1Factor { mean_reversion: 0.8, vol_of_vol: 0.9, correlation: -0.4 };
    let times = vec![0.0, 0.5, 1.0];
    let kernel = Kernel::one(&m, &o, dividends(), factor, 0.15, &times).unwrap();
    let normals = vec![0.2, -0.7, 1.1, -0.3, 0.5, -1.4];
    let v = kernel.volatility_loadings(&m, &normals).unwrap();
    assert_eq!(v.len(), 2);
    assert_eq!(v[0], 1.0);
    assert!(v[1] > 0.0 && v[1] != 1.0);
}

#[test]
fn surface_without_a_row_for_each_step_is_refused() {
    let (m, o) = (arithmetic(), numerics());
    let factor = Bergomi1Factor { mean_reversion: 0.8, vol_of_vol: 0.0, correlation: -0.4 };
    let times = vec![0.0, 0.5, 1.0];
    let kernel = Kernel::one(&m, &o, dividends(), factor, 0.15, &times).unwrap();
    assert!(!kernel.is_lsv());
    assert_eq!(kernel.factor_count(), 3);
    assert_eq!(kernel.scheme(), "buehler-bergomi-1f-joint-ou-positive-split-v1");
    let short = Flat { squared: 0.04, start: 90.0, rows: 2 };
    assert!(matches!(
        kernel.with_leverage(&o, short, &times),
        Err(MonteCarloError::StochasticDividend(StochasticDividendError::Invalid {
            field: "lsv_leverage_surface"
        }))
    ));
}

const EDGES: [(usize, usize); 6] = [(0, 1), (0, 2), (0, 3), (1, 2), (1, 3), (2, 3)];

#[test]
fn correlation_coefficients_match_factor_bumps_including_zero_entries() {
    let (m, o) = (arithmetic(), numerics());
    let identity = [
        [1.0, 0.0, 0.0, 0.0],
        [0.0, 1.0, 0.0, 0.0],
        [0.0, 0.0, 1.0, 0.0],
        [0.0, 0.0, 0.0, 1.0],
    ];
    for matrix in [MATRIX, identity] {
        for k in [[0.0, 0.0], [1e-7, 1e-7], [0.8, 2.1], [30.0, 0.2]] {
            for dt in [0.003, 0.125, 1.3] {
                let speeds = k.to_vec();
                let tangent = lower_derivatives(&m, &o, &speeds, &flat(&matrix), dt).unwrap();
                for (p, &(i, j)) in EDGES.iter().enumerate() {
                    let h = 1e-6;
                    let mut a = matrix;
                    let mut b = matrix;
                    a[i][j] += h;
                    a[j][i] += h;
                    b[i][j] -= h;
                    b[j][i] -= h;
                    let a = Step::compile(&m, &o, &speeds, &flat(&a), dt).unwrap();
                    let b = Step::compile(&m, &o, &speeds, &flat(&b), dt).unwrap();
                    for q in 0..2 {
                        for n in 0..4 {
                            let value = tangent.lower[2 * p + q][n];
                            let fd = (a.lower[q][n] - b.lower[q][n]) / (2.0 * h);
                            assert!(
                                (value - fd).abs() < 3e-6,
                                "k={k:?}, dt={dt}, p={p}, ({q},{n}), aad={value}, fd={fd}"
                            );
                        }
                    }
                }
            }
        }
    }
}

#[test]
fn factor_correlation_centering_matches_independent_ou_moment_formula() {
    let (m, o) = (arithmetic(), numerics());
    let times = vec![0.0, 0.13, 0.5, 1.0];
    let kernel = Kernel::two(
        &m,
        &o,
        dividends(),
        two_factors(),
        Pair { first: 0.15, second: -0.1 },
        &times,
    )
    .unwrap();
    let p = BergomiCorrelationReverse::new(&m, &o, &kernel, -0.25, &times).unwrap();
    let q = normalized_weights(two_factors());
    let w = [q.first, q.second];
    for (i, &t) in times[..times.len() - 1].iter().enumerate() {
        let integral = |rate: f64| -(-rate * t).exp_m1() / rate;
        let cov = 0.3 * integral(2.9);
        let variance =
            w[0] * w[0] * integral(1.6) + w[1] * w[1] * integral(4.2) + 2.0 * w[0] * w[1] * cov;
        let norm2 = 0.65_f64.powi(2) + 0.35_f64.powi(2) + 2.0 * 0.65 * 0.35 * 0.3;
        let expected =
            0.3 * (2.0 * w[0] * w[1] * integral(2.9) - 2.0 * 0.65 * 0.35 / norm2 * variance);
        assert!((p.centering[i][5] - expected).abs() < 2e-13);
        assert!(p.centering[i][..5].iter().all(|v| v.abs() < 2e-13));
    }
}

#[test]
fn coefficient_derivatives_match_recompiled_ou_factors_including_zero_decay_rate() {
    let (m, o) = (arithmetic(), numerics());
    let matrix = flat(&MATRIX);
    for k in [[0.0, 0.0], [1e-7, 1e-7], [0.8, 2.1], [30.0, 0.2]] {
        for dt in [0.003, 0.125, 1.3] {
            let ds = StepDerivative::new(&m, &o, &k.to_vec(), &matrix, dt).unwrap();
            for p in 0..2 {
                let h = 1e-6;
                let mut plus = k;
                plus[p] += h;
                let mut minus = k;
                minus[p] = (minus[p] - h).max(0.0);
                let a = Step::compile(&m, &o, &plus.to_vec(), &matrix, dt).unwrap();
                let b = Step::compile(&m, &o, &minus.to_vec(), &matrix, dt).unwrap();
                for i in 0..2 {
                    for j in 0..4 {
                        let fd = (a.lower[i][j] - b.lower[i][j]) / (plus[p] - minus[p]);
                        let analytic = ds.lower[2 * p + i][j];
                        assert!(
                            (analytic - fd).abs() < 3e-6,
                            "k={k:?}, dt={dt}, p={p}, i={i}, j={j}, analytic={analytic}, fd={fd}"
                        );
                    }
                }
                let fd = (a.decay[p] - b.decay[p]) / (plus[p] - minus[p]);
                assert!((ds.decay[p] - fd).abs() < 3e-6);
            }
        }
    }
}

#[test]
fn log_phi_derivative_has_stable_zero_and_large_argument_limits() {
    let m = arithmetic();
    assert_eq!(log_phi_derivative(&m, 0.0), -0.5);
    assert!((log_phi_derivative(&m, 1e-12) + 0.5 - 1e-12 / 12.0).abs() < 1e-16);
    assert!((log_phi_derivative(&m, 1000.0) + 0.001).abs() < 1e-16);
    for x in [0.0, 0.000999, 0.001001, 0.5, 10.0] {
        let mut den = 0.0;
        let mut num = 0.0;
        for i in 0..=4096 {
            let t = f64::from(i) / 4096.0;
            let w = if i == 0 || i == 4096 {
                1.0
            } else if i % 2 == 0 {
                2.0
            } else {
                4.0
            };
            den += w * (-x * t).exp();
            num -= w * t * (-x * t).exp();
        }
        assert!((log_phi_derivative(&m, x) - num / den).abs() < 2e-12, "x={x}");
    }
}
