//! Bumped risk of dividend plans with a calibrated leverage surface.

use pricing::backend::SuppliedBackend;
use pricing::engine::{
    EngineConfig, PseudoMonteCarlo, RandomizedQuasiMonteCarlo, VarianceReduction,
};
use pricing::errors::{MonteCarloError, StochasticDividendError};
use pricing::estimation::Job;
use pricing::lsv_model::LsvParticleConfig;
use pricing::models::{
    Bergomi1Factor, Bergomi2Factor, BuehlerDividendModel, Fingerprint, LsvCalibration, Pair,
    RoughBergomi,
};
use pricing::plan::StochasticDividendPricingPlan;
use pricing::sampling::{Backend, Statistics};
use pricing::scalar::{Arithmetic, Elementary, Math};
use pricing::supplied_world::SuppliedWorld;
use pricing::world::World;

fn apply(f: Elementary, x: f64) -> f64 {
    match f {
        Elementary::Exp => x.exp(),
        Elementary::ExpM1 => x.exp_m1(),
        Elementary::Ln => x.ln(),
        Elementary::Ln1p => x.ln_1p(),
        Elementary::Sqrt => x.sqrt(),
        Elementary::Abs => x.abs(),
    }
}

fn arithmetic() -> impl Math<f64> {
    Arithmetic::new(
        apply,
        |x: f64, y: f64| x.powf(y),
        |x: f64| x.is_finite(),
        |n: u64| n as f64,
        |x: f64, y: f64| x.total_cmp(&y).is_lt(),
    )
}

/// A uniform in the open unit interval, by mixing the bits of its place.
fn mixed(a: u64, b: u64, c: u64) -> f64 {
    let mut x = a
        .wrapping_mul(0x9e37_79b9_7f4a_7c15)
        .wrapping_add(b.wrapping_mul(0xbf58_476d_1ce4_e5b9))
        .wrapping_add(c.wrapping_mul(0x94d0_49bb_1331_11eb));
    x = (x ^ (x >> 30)).wrapping_mul(0xbf58_476d_1ce4_e5b9);
    x = (x ^ (x >> 27)).wrapping_mul(0x94d0_49bb_1331_11eb);
    ((x ^ (x >> 31)) >> 11) as f64 / (1u64 << 53) as f64 + 2.0_f64.powi(-54)
}

/// Close to the inverse of the normal distribution function.
fn inverse(u: f64) -> f64 {
    (u / (1.0 - u)).ln() / 1.702
}

fn statistics(v: &Vec<f64>) -> Statistics<f64> {
    let total: f64 = v.iter().sum();
    let mean = total / v.len() as f64;
    let squares: f64 = v.iter().map(|x| (x - mean) * (x - mean)).sum();
    let sample_variance = if v.len() > 1 { Some(squares / (v.len() - 1) as f64) } else { None };
    Statistics { total, sample_variance }
}

fn backend() -> impl Backend<f64> {
    SuppliedBackend::new(
        |path: u64, dimension: u32| inverse(mixed(path, dimension as u64, 7)),
        |scramble: u32, point: u64, dimension: u32| Some(
            mixed(point, dimension as u64, 100 + scramble as u64),
        ),
        |u: f64| Some(inverse(u)),
        |draws: &Vec<f64>| -> Result<Vec<f64>, MonteCarloError> {
            // The draws in reverse order, as a bridge that is easily told apart.
            Ok(draws.iter().rev().cloned().collect())
        },
        |v: &Vec<f64>| statistics(v),
        |v: &Vec<f64>| statistics(v),
    )
}

/// A path is what it was made of: its factors, its correlations with the dividends,
/// its surface, its dividend model, its constant volatility and its times.
#[derive(Clone, Debug, PartialEq)]
struct Path {
    factors: Vec<f64>,
    correlations: Vec<f64>,
    surface: f64,
    dividends: Vec<f64>,
    volatility: f64,
    times: Vec<f64>,
}

fn one() -> Bergomi1Factor<f64> {
    Bergomi1Factor { mean_reversion: 0.8, vol_of_vol: 0.5, correlation: -0.4 }
}

fn two() -> Bergomi2Factor<f64> {
    Bergomi2Factor {
        mean_reversions: Pair { first: 0.8, second: 4.0 },
        vol_of_vol: 0.5,
        mixing_weight: 0.3,
        spot_correlations: Pair { first: -0.4, second: -0.3 },
        factor_correlation: 0.2,
    }
}

fn dividends() -> BuehlerDividendModel<f64> {
    BuehlerDividendModel {
        mean_reversion: 0.7,
        equity_linkage: 0.6,
        dividend_volatility: 0.35,
        equity_dividend_correlation: -0.25,
    }
}

fn of_one(f: &Bergomi1Factor<f64>) -> Vec<f64> {
    vec![f.mean_reversion, f.vol_of_vol, f.correlation]
}

fn of_two(f: &Bergomi2Factor<f64>) -> Vec<f64> {
    vec![
        f.mean_reversions.first,
        f.mean_reversions.second,
        f.vol_of_vol,
        f.mixing_weight,
        f.spot_correlations.first,
        f.spot_correlations.second,
        f.factor_correlation,
    ]
}

fn of_dividends(d: &BuehlerDividendModel<f64>) -> Vec<f64> {
    vec![d.mean_reversion, d.equity_linkage, d.dividend_volatility, d.equity_dividend_correlation]
}

/// The surface that a calibration gives.
fn surface(factors: &[f64]) -> f64 {
    factors.iter().enumerate().map(|(i, x)| (10 + i) as f64 * x).sum()
}

/// What a path pays: its parameters weighted by their places, the surface by one
/// hundred, the constant volatility by one thousand, and the square of the first factor.
fn paid(p: &Path) -> f64 {
    let all = p.factors.iter().chain(&p.correlations).chain(&p.dividends);
    all.enumerate().map(|(i, x)| (1 + i) as f64 * x).sum::<f64>()
        + 100.0 * p.surface
        + 1000.0 * p.volatility
        + p.factors[0] * p.factors[0]
}

fn base(two_factors: bool) -> Path {
    let factors = if two_factors { of_two(&two()) } else { of_one(&one()) };
    Path {
        surface: surface(&factors),
        factors,
        correlations: if two_factors { vec![0.15, 0.1] } else { vec![0.15] },
        dividends: of_dividends(&dividends()),
        volatility: 0.0,
        times: vec![0.0, 0.5, 1.0],
    }
}

const TARGET: f64 = 0.04;

const RISKY_SPOT: f64 = 90.0;

fn particles() -> LsvParticleConfig<f64> {
    LsvParticleConfig {
        particle_count: 64,
        seed: 71,
        log_bandwidth: 0.5,
        minimum_effective_samples: 2.0,
        retain_reverse_trace: false,
    }
}

/// A surface scales with what it is calibrated to, the equity it starts from and the
/// number of its particles.
fn calibrated(
    factors: &[f64],
    target: f64,
    initial: f64,
    p: LsvParticleConfig<f64>,
) -> Result<f64, MonteCarloError> {
    let scale = target / TARGET * (initial / RISKY_SPOT) * (p.particle_count as f64 / 64.0);
    Ok(scale * surface(factors))
}

fn attached(p: &Path, factors: Vec<f64>, correlations: Vec<f64>, surface: f64) -> Result<
    Path,
    MonteCarloError,
> {
    Ok(Path { factors, correlations, surface, ..p.clone() })
}

fn world(two_factors: bool) -> impl World<f64, Path = Path> {
    world_on(base(two_factors).surface, |times: &Vec<f64>, last: f64| {
        assert_eq!(last, times[times.len() - 1]);
        Ok(times.clone())
    })
}

fn world_on(
    kept: f64,
    grid: impl Fn(&Vec<f64>, f64) -> Result<Vec<f64>, MonteCarloError>,
) -> impl World<f64, Path = Path> {
    SuppliedWorld::new(
        kept,
        TARGET,
        particles(),
        |f: &Bergomi1Factor<f64>| f.mean_reversion > 0.0,
        |f: &Bergomi2Factor<f64>| f.vol_of_vol > 0.0,
        |d: &BuehlerDividendModel<f64>| d.dividend_volatility >= 0.0,
        |target: &f64, f: &Bergomi1Factor<f64>, initial: f64, p: LsvParticleConfig<f64>| {
            calibrated(&of_one(f), *target, initial, p)
        },
        |target: &f64, f: &Bergomi2Factor<f64>, initial: f64, p: LsvParticleConfig<f64>| {
            calibrated(&of_two(f), *target, initial, p)
        },
        |p: &Path, f: &Bergomi1Factor<f64>, rho: f64, s: &f64| {
            attached(p, of_one(f), vec![rho], *s)
        },
        |p: &Path, f: &Bergomi2Factor<f64>, rho: Pair<f64>, s: &f64| {
            attached(p, of_two(f), vec![rho.first, rho.second], *s)
        },
        |p: &Path, f: &RoughBergomi<f64>, rho: f64, s: &f64| {
            attached(p, vec![f.hurst, f.vol_of_vol, f.correlation], vec![rho], *s)
        },
        grid,
        |d: &BuehlerDividendModel<f64>, volatility: f64, grid: &Vec<f64>| -> Result<
            Path,
            MonteCarloError,
        > {
            Ok(Path {
                factors: vec![],
                correlations: vec![],
                surface: 0.0,
                dividends: of_dividends(d),
                volatility,
                times: grid.clone(),
            })
        },
        |p: &Path| p.times.clone(),
        |_: &Path| RISKY_SPOT,
        |p: &Path| p.times.len() as u32,
        |_: &Path| 2,
        |p: &Path, z: &Vec<f64>| -> Result<Vec<f64>, MonteCarloError> { Ok(
            vec![paid(p), z.iter().sum()],
        ) },
        |_: &Path, _: usize, s: &f64| -> Result<f64, MonteCarloError> { Ok(*s) },
        |_: &Path, spots: &Vec<f64>| -> Result<f64, MonteCarloError> { Ok(
            spots[0] * (1.0 + 0.1 * spots[1]),
        ) },
    )
}

fn engine(quasi: bool) -> EngineConfig {
    let variance_reduction = VarianceReduction { antithetic: true, brownian_bridge: quasi };
    if quasi {
        EngineConfig::RandomizedQuasiMonteCarlo(RandomizedQuasiMonteCarlo {
            points_per_scramble: 4,
            scramble_count: 3,
            master_seed: 5,
            variance_reduction,
        })
    } else {
        EngineConfig::PseudoMonteCarlo(PseudoMonteCarlo {
            independent_sampling_units: 8,
            master_seed: 5,
            variance_reduction,
        })
    }
}

fn plan(two_factors: bool, quasi: bool) -> StochasticDividendPricingPlan<f64, Path> {
    StochasticDividendPricingPlan {
        path: base(two_factors),
        path_is_lsv: true,
        model: dividends(),
        job: Job {
            engine: engine(quasi),
            dimension: 3,
            factors: 1,
            executor_failure: None,
            quasi_failure: None,
            bridge_failure: None,
        },
        fingerprint: Fingerprint { bytes: [4; 32] },
        scheme: "scheme",
        payment_time: 1.1,
        risk_supported: true,
        lsv: Some(if two_factors {
            LsvCalibration::Two {
                factor: two(),
                dividend_volatility_correlations: Pair { first: 0.15, second: 0.1 },
            }
        } else {
            LsvCalibration::One { factor: one(), dividend_volatility_correlation: 0.15 }
        }),
    }
}

/// Reflected draws leave the mean of what is paid.
fn close(found: &[f64], expected: &[f64]) {
    assert_eq!(found.len(), expected.len());
    for (x, y) in found.iter().zip(expected) {
        assert!((x - y).abs() < 1e-6 * (1.0 + y.abs()), "{found:?} != {expected:?}");
    }
}

#[test]
fn factors_are_bumped_with_a_recalibration() {
    let (m, b) = (arithmetic(), backend());
    for quasi in [false, true] {
        let (p, w) = (plan(false, quasi), world(false));
        let risk = p.evaluate_lsv_bergomi_parameter_risk(&m, &b, &w, 0.01, 0.02).ok().unwrap();
        close(&[risk.price.value], &[paid(&base(false))]);
        // The surface moves with each factor.
        close(&risk.derivatives, &[1.0 + 1000.0 + 2.0 * 0.8, 2.0 + 1100.0]);
        assert_eq!(risk.mean_reversion_derivative(), risk.derivatives[0]);
        assert_eq!(risk.vol_of_vol_derivative(), risk.derivatives[1]);
        assert_eq!(risk.parameter_labels, ["bergomi_mean_reversion", "bergomi_vol_of_vol"]);
        let (p, w) = (plan(true, quasi), world(true));
        let risk =
            p.evaluate_lsv_bergomi_two_factor_parameter_risk(
                &m,
                &b,
                &w,
                [0.01, 0.01],
                0.01,
                0.01,
            ).ok().unwrap();
        close(&risk.derivatives, &[1001.0 + 1.6, 1102.0, 1203.0, 1304.0]);
        assert_eq!(risk.mixing_weight_derivative(), risk.derivatives[3]);
    }
}

#[test]
fn correlations_with_dividends_keep_the_surface() {
    let (m, b) = (arithmetic(), backend());
    let (p, w) = (plan(false, false), world(false));
    let risk = p.evaluate_lsv_correlation_risk(&m, &b, &w, 0.01, 0.02).ok().unwrap();
    close(&risk.derivatives, &[3.0 + 1200.0, 4.0]);
    assert_eq!(risk.correlation_bumps, [0.01, 0.02]);
    // The bump of the dividends moves neither the price nor what equity is worth.
    let other = p.evaluate_lsv_correlation_risk(&m, &b, &w, 0.01, 0.005).ok().unwrap();
    assert_eq!(other.price, risk.price);
    assert_eq!(other.derivatives[0], risk.derivatives[0]);
    let (p, w) = (plan(true, true), world(true));
    let risk = p
        .evaluate_lsv_bergomi_two_factor_correlation_risk(
            &m,
            &b,
            &w,
            [0.01, 0.01],
            0.01,
            [0.01, 0.01],
        )
        .ok()
        .unwrap();
    close(&risk.derivatives, &[1405.0, 1506.0, 1607.0, 8.0, 9.0]);
    assert_eq!(risk.factor_correlation_derivative(), risk.derivatives[2]);
}

#[test]
fn dividend_models_are_bumped_with_the_calibration_they_have() {
    let (m, b) = (arithmetic(), backend());
    let (p, w) = (plan(false, true), world(false));
    let risk = p.evaluate_lsv_dividend_model_risk(&m, &b, &w, 0.01, 0.01, 0.01, 0.01).ok().unwrap();
    close(&risk.derivatives, &[5.0, 6.0, 7.0, 8.0]);
    assert_eq!(risk.equity_linkage_derivative(), risk.derivatives[1]);
    assert!(risk.standard_errors.iter().all(|e| *e < 1e-6));
    // The surface and the factors of every calibration stay as they are.
    let (p, w) = (plan(true, false), world(true));
    let risk = p.evaluate_lsv_dividend_model_risk(&m, &b, &w, 0.01, 0.01, 0.01, 0.01).ok().unwrap();
    close(&[risk.price.value], &[paid(&base(true))]);
    close(&risk.derivatives, &[10.0, 11.0, 12.0, 13.0]);
    let mut p = plan(false, false);
    let rough = RoughBergomi { hurst: 0.2, vol_of_vol: 0.5, correlation: -0.4 };
    p.lsv = Some(LsvCalibration::Rough { factor: rough, dividend_volatility_correlation: 0.15 });
    let risk = p.evaluate_lsv_dividend_model_risk(&m, &b, &world(false), 0.01, 0.01, 0.01, 0.01);
    close(&risk.ok().unwrap().derivatives, &[5.0, 6.0, 7.0, 8.0]);
}

#[test]
fn dividend_models_keep_the_draws_of_the_plan() {
    let (m, b) = (arithmetic(), backend());
    let p = plan(false, false);
    let shorter = world_on(p.path.surface, |times: &Vec<f64>, _: f64| Ok(times[1..].to_vec()));
    assert_eq!(
        p.evaluate_lsv_dividend_model_risk(&m, &b, &shorter, 0.01, 0.01, 0.01, 0.01).map(|_| ()),
        Err(MonteCarloError::StochasticDividend(StochasticDividendError::Invalid {
            field: "lsv_dividend_model_random_dimension",
        }))
    );
    let failing = world_on(p.path.surface, |_: &Vec<f64>, _: f64| {
        Err(MonteCarloError::LocalVol { code: 2 })
    });
    assert_eq!(
        p.evaluate_lsv_dividend_model_risk(&m, &b, &failing, 0.01, 0.01, 0.01, 0.01).map(|_| ()),
        Err(MonteCarloError::LocalVol { code: 2 })
    );
}

#[test]
fn each_refusal_of_bumped_risk_is_named() {
    let (m, b) = (arithmetic(), backend());
    let (p, w) = (plan(false, false), world(false));
    let refused = |r: Result<(), MonteCarloError>| match r {
        Err(MonteCarloError::UnsupportedRiskForModel { model }) => model,
        Err(MonteCarloError::StochasticDividend(StochasticDividendError::Invalid {
            field,
        })) => field,
        _ => panic!("not refused"),
    };
    assert_eq!(
        refused(
            plan(true, false).evaluate_lsv_correlation_risk(
                &m,
                &b,
                &world(true),
                0.01,
                0.01,
            ).map(|_| ()),
        ),
        "1F Bergomi LSV correlation risk does not apply to a 2F plan"
    );
    let mut none = plan(false, false);
    none.lsv = None;
    assert_eq!(
        refused(none.evaluate_lsv_correlation_risk(&m, &b, &w, 0.01, 0.01).map(|_| ())),
        "Bergomi LSV correlation risk requires a stochastic-dividend residual LSV plan"
    );
    assert_eq!(
        refused(p.evaluate_lsv_correlation_risk(&m, &b, &w, 0.01, 0.9).map(|_| ())),
        "lsv_bergomi_dividend_volatility_correlation_bump"
    );
    let mut rigid = plan(false, false);
    rigid.risk_supported = false;
    assert_eq!(
        refused(rigid.evaluate_lsv_correlation_risk(&m, &b, &w, 0.01, 0.01).map(|_| ())),
        "stochastic-dividend LSV discontinuous payoff requires explicit smoothing"
    );
    let mut broken = plan(false, false);
    broken.job.executor_failure = Some(MonteCarloError::Component { code: 3 });
    assert_eq!(
        broken.evaluate_lsv_correlation_risk(&m, &b, &w, 0.01, 0.01).map(|_| ()),
        Err(MonteCarloError::Component { code: 3 })
    );
}
