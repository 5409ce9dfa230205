//! Compiling requests into plans, and what identifies a plan.

use pricing::compile_world::{CompileWorld, PlanRequest, SuppliedCompileWorld};
use pricing::dividend_compiler::{DividendCompiler, SuppliedDividendCompiler};
use pricing::dynamics::{KernelNumerics, SuppliedKernelNumerics};
use pricing::engine::{EngineConfig, PseudoMonteCarlo, VarianceReduction};
use pricing::errors::{HullWhiteError, MonteCarloError, StochasticDividendError};
use pricing::hybrid_context::HullWhiteEquityPricingPlan;
use pricing::identity::LsvLeverageSurface;
use pricing::lsv_model::LsvParticleConfig;
use pricing::models::{
    Bergomi1Factor, Bergomi2Factor, BuehlerDividendModel, Fingerprint, LsvCalibration, Pair,
    RoughBergomi,
};
use pricing::plan::{StochasticDividendPrice, StochasticDividendPricingPlan};
use pricing::rates::{HullWhite1Factor, HybridCorrelation};
use pricing::reverse::{DividendPath, PathNode};
use pricing::scalar::{Arithmetic, Elementary, Math};
use pricing::stochastic_volatility::{StochasticVolatilityPricingPlan, SuppliedHybridCompiler};
use pricing::target_grid::{SuppliedTargetGrid, TargetGrid};

fn apply(f: Elementary, x: f64) -> f64 {
    match f {
        Elementary::Exp => x.exp(),
        Elementary::ExpM1 => x.exp_m1(),
        Elementary::Ln => x.ln(),
        Elementary::Ln1p => x.ln_1p(),
        Elementary::Sqrt => x.sqrt(),
        Elementary::Abs => x.abs(),
    }
}

fn arithmetic() -> impl Math<f64> {
    Arithmetic::new(
        apply,
        |x: f64, y: f64| x.powf(y),
        |x: f64| x.is_finite(),
        |n: u64| n as f64,
        |x: f64, y: f64| x.total_cmp(&y).is_lt(),
    )
}

type Surface = LsvLeverageSurface<f64>;
type Path = DividendPath<f64, Surface>;
type Made = Result<Path, MonteCarloError>;
type Hybrid = Result<HullWhiteEquityPricingPlan<f64>, MonteCarloError>;
type Calibrated = Result<Surface, MonteCarloError>;
type Plan = StochasticDividendPricingPlan<f64, Path>;

fn world() -> impl CompileWorld<f64> {
    SuppliedCompileWorld::new(
        || -> Result<Vec<f64>, MonteCarloError> { Ok(vec![0.5]) },
        || Fingerprint { bytes: [2; 32] },
        |required: &Vec<f64>, _: f64| -> Result<Vec<f64>, MonteCarloError> {
            let mut grid = required.clone();
            grid.push(0.0);
            grid.sort_by(|x, y| x.total_cmp(y));
            grid.dedup();
            Ok(grid)
        },
        || None,
        |dimension: u32| if dimension > 90 { Some(MonteCarloError::RqmcPlan) } else { None },
        |_: &Vec<f64>| -> Option<MonteCarloError> { None },
        |_: &HullWhite1Factor<f64>, _: f64, _: f64| -> Result<f64, MonteCarloError> { Ok(1.0) },
        |_: &HullWhite1Factor<f64>, _: f64, _: f64, _: f64| -> Result<f64, MonteCarloError> { Ok(1.0) },
        |x: f64| x.to_bits(),
    )
}

fn path(d: BuehlerDividendModel<f64>, volatility: f64, grid: &Vec<f64>) -> Path {
    DividendPath {
        nodes: grid
            .iter()
            .map(|&time| PathNode {
                time,
                equity_coefficient: 80.0,
                dividend_coefficient: 0.0,
                constant: 20.0,
                event_mean_cash: None,
            })
            .collect(),
        times: grid.clone(),
        model: d,
        volatility,
        dimension: 2 * (grid.len() - 1),
        bergomi: None,
        rough: None,
        rough_leverage: None,
    }
}

/// The path with the draws of more factors.
fn widened(p: &Path, factors: usize) -> Path {
    let mut wider = path(p.model, p.volatility, &p.times);
    wider.dimension = factors * (p.times.len() - 1);
    wider
}

/// Numerics for which every driver is its newest cell.
fn rough_numerics() -> impl KernelNumerics<f64, Surface = ()> {
    SuppliedKernelNumerics::new(
        |_: f64, _: f64| -> Option<f64> { Some(1.0) },
        |_: &Vec<f64>, n: usize| -> Option<Vec<f64>> {
            Some((0..n * n).map(|i| if i % (n + 1) == 0 { 1.0 } else { 0.0 }).collect())
        },
        |_: &Vec<f64>, n: usize| -> Vec<f64> { vec![1.0; n] },
        |_: RoughBergomi<f64>, times: &Vec<f64>| -> Option<Vec<f64>> { Some(times.clone()) },
        |_: RoughBergomi<f64>, _: &Vec<f64>, node: usize| -> Vec<f64> {
            vec![0.0; node.saturating_sub(1)]
        },
        |_: f64, _: f64| -> Option<Pair<f64>> { None },
        |_: &(), _: &Vec<f64>| -> bool { true },
        |_: &()| -> f64 { 1.0 },
        |_: &(), _: f64, _: f64| -> Option<f64> { Some(1.0) },
        |_: Bergomi2Factor<f64>| Pair { first: 1.0, second: 0.0 },
    )
}

fn compiler() -> impl DividendCompiler<f64, Surface = Surface> {
    SuppliedDividendCompiler::new(
        |d: BuehlerDividendModel<f64>, volatility: f64, grid: &Vec<f64>| -> Made {
            Ok(path(d, volatility, grid))
        },
        |p: &Path, _: Bergomi1Factor<f64>, _: f64| -> Made { Ok(widened(p, 3)) },
        |p: &Path, _: Bergomi2Factor<f64>, _: Pair<f64>| -> Made { Ok(widened(p, 4)) },
        |p: &Path, _: Bergomi1Factor<f64>, _: f64, _: Surface| -> Made { Ok(widened(p, 3)) },
        |p: &Path, _: Bergomi2Factor<f64>, _: Pair<f64>, _: Surface| -> Made {
            Ok(widened(p, 4))
        },
        |grid: &Vec<f64>, values: &Vec<f64>, _: Bergomi1Factor<f64>, f: f64, _: LsvParticleConfig<f64>| -> Calibrated {
            Ok(surface(grid, values, f))
        },
        |grid: &Vec<f64>, values: &Vec<f64>, _: Bergomi2Factor<f64>, f: f64, _: LsvParticleConfig<f64>| -> Calibrated {
            Ok(surface(grid, values, f))
        },
        |_: &Path| 80.0,
        |p: &Path| p.dimension / (p.times.len() - 1),
        |p: &Path| if p.dimension
            == 2 * (p.times.len() - 1) { "base" } else { "buehler-residual-lsv" },
        || "base",
        |p: &Path| vec![p.dimension as u8],
        || -> Result<Vec<f64>, MonteCarloError> { Ok(vec![0.5, 1.0]) },
        |_: &Vec<f64>, values: &Vec<f64>| -> Option<MonteCarloError> {
            if values.iter().all(|v| *v > 0.0) { None } else { Some(MonteCarloError::LocalVol {
                code: 2,
            }) }
        },
        || vec![0.4, 1.5],
    )
}

fn surface(grid: &Vec<f64>, values: &Vec<f64>, initial_f: f64) -> Surface {
    LsvLeverageSurface {
        times: grid.clone(),
        log_nodes: vec![0.0],
        squared_leverage: values.clone(),
        initial_f,
    }
}

fn request() -> PlanRequest<f64> {
    PlanRequest {
        delta: false,
        gamma: false,
        vega: false,
        vega_kt: false,
        volatility: Some(0.25),
        expiry: 1.0,
        payment: 1.1,
        engine: EngineConfig::PseudoMonteCarlo(PseudoMonteCarlo {
            independent_sampling_units: 8,
            master_seed: 5,
            variance_reduction: VarianceReduction { antithetic: false, brownian_bridge: false },
        }),
        pathwise: false,
        smoothed: true,
    }
}

fn dividends() -> BuehlerDividendModel<f64> {
    BuehlerDividendModel {
        mean_reversion: 0.7,
        equity_linkage: 0.6,
        dividend_volatility: 0.35,
        equity_dividend_correlation: -0.25,
    }
}

fn one() -> Bergomi1Factor<f64> {
    Bergomi1Factor { mean_reversion: 0.8, vol_of_vol: 0.5, correlation: -0.4 }
}

fn two() -> Bergomi2Factor<f64> {
    Bergomi2Factor {
        mean_reversions: Pair { first: 0.8, second: 4.0 },
        vol_of_vol: 0.5,
        mixing_weight: 0.3,
        spot_correlations: Pair { first: -0.4, second: -0.3 },
        factor_correlation: 0.2,
    }
}

fn digest(parts: &[&[u8]]) -> [u8; 32] {
    *blake3::hash(&parts.concat()).as_bytes()
}

fn bytes(numbers: &[f64]) -> Vec<u8> {
    numbers.iter().flat_map(|x| x.to_bits().to_le_bytes()).collect()
}

fn feature(r: Result<Plan, MonteCarloError>) -> &'static str {
    match r {
        Err(MonteCarloError::StochasticDividend(StochasticDividendError::Unsupported {
            feature,
        })) => feature,
        Err(MonteCarloError::StochasticDividend(StochasticDividendError::Invalid {
            field,
        })) => field,
        _ => panic!("not refused"),
    }
}

#[test]
fn plans_look_at_every_time_up_to_the_expiry() {
    let (m, z, k) = (arithmetic(), world(), compiler());
    let plan: Plan = Plan::compile_bs(&m, &z, &k, &request(), dividends(), 0.5).ok().unwrap();
    // The dividend after the expiry has no node.
    assert_eq!(*plan.time_nodes(), [0.0, 0.4, 0.5, 1.0]);
    assert_eq!(plan.random_factor_count(), 2);
    assert_eq!(plan.job.dimension, 6);
    assert_eq!(plan.payment_time, 1.1);
    assert_eq!(plan.scheme(), "base");
    assert!(plan.risk_supported && !plan.path_is_lsv && plan.lsv.is_none());
    assert_eq!(plan.risky_spot(&k), 80.0);
    let numbers = bytes(&[0.7, 0.6, 0.35, -0.25, 0.5, 0.0, 0.4, 0.5, 1.0]);
    let base = digest(&[b"base", b"rank-major-before-correlation-price-only", &[2; 32], &numbers]);
    assert_eq!(plan.plan_fingerprint().bytes, base);
    let factors: Plan = Plan::compile_bergomi(
        &m,
        &z,
        &k,
        &request(),
        dividends(),
        one(),
        0.15,
        0.5,
    ).ok().unwrap();
    assert_eq!(factors.random_factor_count(), 3);
    assert_eq!(factors.plan_fingerprint().bytes, digest(&[&base, &[9]]));
    let both = Pair { first: 0.15, second: 0.1 };
    let factors: Plan =
        Plan::compile_bergomi_two_factor(
            &m,
            &z,
            &k,
            &request(),
            dividends(),
            two(),
            both,
            0.5,
        ).ok().unwrap();
    assert_eq!(factors.plan_fingerprint().bytes, digest(&[&base, &[12]]));
    let o = rough_numerics();
    let rough = RoughBergomi { hurst: 0.2, vol_of_vol: 0.5, correlation: -0.4 };
    let driven: Plan =
        Plan::compile_rough_bergomi(&m, &o, &z, &k, &request(), dividends(), rough, 0.15, 0.5)
            .ok()
            .unwrap();
    assert_eq!(driven.path.random_factor_count(), 4);
    assert_eq!(driven.path.dimension, 4 * (driven.path.times.len() - 1));
    assert!(driven.path.rough.is_some());
    let rough = RoughBergomi { hurst: 0.0, ..rough };
    let refused =
        Plan::compile_rough_bergomi(&m, &o, &z, &k, &request(), dividends(), rough, 0.15, 0.5);
    assert!(matches!(
        refused,
        Err(MonteCarloError::StochasticDividend(StochasticDividendError::Invalid {
            field: "rough_near_average"
        }))
    ));
}

#[test]
fn requests_for_more_than_a_price_are_refused() {
    let (m, z, k) = (arithmetic(), world(), compiler());
    let compile = |q: PlanRequest<f64>| feature(Plan::compile_bs(&m, &z, &k, &q, dividends(), 0.5));
    let mut q = request();
    q.vega_kt = true;
    assert_eq!(compile(q), "Greeks; submit a price-only request");
    let mut q = request();
    q.volatility = None;
    assert_eq!(compile(q), "nonconstant residual-equity volatility");
    let mut q = request();
    q.expiry = 0.0;
    assert_eq!(compile(q), "positive_horizon");
}

fn target(variance: f64) -> impl TargetGrid<f64> {
    SuppliedTargetGrid::new(
        || vec![0.0, 0.7, 2.0],
        || vec![0.0],
        move || vec![variance; 3],
        move |_: f64, _: f64| -> Result<f64, MonteCarloError> { Ok(variance) },
        |_: f64, _: f64, _: f64, nodes: &Vec<f64>| -> Result<Vec<f64>, MonteCarloError> { Ok(nodes.clone()) },
    )
}

fn particles() -> LsvParticleConfig<f64> {
    LsvParticleConfig {
        particle_count: 64,
        seed: 71,
        log_bandwidth: 0.5,
        minimum_effective_samples: 2.0,
        retain_reverse_trace: true,
    }
}

#[test]
fn leverage_plans_are_calibrated_on_their_grid() {
    let (m, z, k) = (arithmetic(), world(), compiler());
    let plan: Plan = Plan::compile_bergomi_lsv(
        &m, &z, &k, &request(), &Some(target(0.04)), dividends(), one(), 0.15, particles(), 0.5,
    )
    .ok()
    .unwrap();
    // The times of the target are nodes too.
    assert_eq!(*plan.time_nodes(), [0.0, 0.4, 0.5, 0.7, 1.0]);
    assert!(plan.path_is_lsv);
    assert_eq!(
        plan.lsv,
        Some(LsvCalibration::One { factor: one(), dividend_volatility_correlation: 0.15 })
    );
    let numbers = bytes(&[0.7, 0.6, 0.35, -0.25, 0.5, 0.0, 0.4, 0.5, 0.7, 1.0]);
    let base = digest(&[b"buehler-residual-lsv-base-v1", &[2; 32], &numbers]);
    let moved = digest(&[&base, &[12]]);
    let whole = digest(&[
        &moved,
        b"particle-calibration-v1",
        &64u64.to_le_bytes(),
        &71u64.to_le_bytes(),
        &bytes(&[0.5, 2.0]),
        &[1],
    ]);
    assert_eq!(plan.plan_fingerprint().bytes, whole);
    // A price under a calibrated surface is conditional on its calibration.
    let price = StochasticDividendPrice {
        value: 1.0,
        standard_error: 0.1,
        independent_sampling_units: 8,
        evaluated_paths: 8,
        plan_fingerprint: plan.plan_fingerprint(),
        scheme: plan.scheme(),
    };
    assert_eq!(price.uncertainty_scope(), "pricing_conditional_on_calibration");
    assert_eq!(StochasticDividendPrice {
        scheme: "base",
        ..price
    }.uncertainty_scope(), "pricing_only");
    let both = Pair { first: 0.15, second: 0.1 };
    assert!(Plan::compile_bergomi_two_factor_lsv(
        &m, &z, &k, &request(), &Some(target(0.04)), dividends(), two(), both, particles(), 0.5,
    )
    .is_ok());
}

#[test]
fn leverage_plans_need_a_target() {
    let (m, z, k) = (arithmetic(), world(), compiler());
    let compile = |q: PlanRequest<f64>, variance: Option<f64>| {
        Plan::compile_bergomi_lsv(
            &m, &z, &k, &q, &variance.map(target), dividends(), one(), 0.15, particles(), 0.5,
        )
    };
    assert_eq!(
        feature(compile(request(), None)),
        "residual-equity LSV requires a LocalVolatility calibration target"
    );
    let mut q = request();
    q.gamma = true;
    assert_eq!(
        feature(compile(q, Some(0.04))),
        "Delta, Gamma and scalar Vega for residual-equity LSV; use the dedicated recalibration-aware risk methods"
    );
    assert!(matches!(compile(request(), Some(-0.04)), Err(MonteCarloError::LocalVol { code: 2 })));
}

/// A plan that remembers the volatility and the correlation it was compiled with.
fn hybrid(
    factors: usize,
    rates: &HullWhite1Factor<f64>,
    correlation: f64,
) -> HullWhiteEquityPricingPlan<f64> {
    assert!(rates.is_deterministic(&arithmetic()));
    HullWhiteEquityPricingPlan {
        engine: request().engine,
        executor_failure: None,
        quasi_failure: None,
        bridge_failure: None,
        time_nodes: vec![0.0, 1.0],
        random_factor_count: factors,
        risky_spot: correlation,
        payment_time: 1.0,
        risk_supported: true,
        affine_dividends: None,
        calibration: None,
        market_iv_target: None,
        direct_rough: false,
        fingerprint: Fingerprint { bytes: [7; 32] },
        scheme: "scheme",
        calibration_method: None,
        calibration_seed: None,
        cash_dividend_model: None,
        aad_method: "method",
        market_iv_interpolation: "none",
    }
}

#[test]
fn stochastic_volatility_is_compiled_with_rates_that_do_not_move() {
    let m = arithmetic();
    let compiler = SuppliedHybridCompiler::new(
        |_: &(), _: Bergomi1Factor<f64>, r: &HullWhite1Factor<f64>, c: HybridCorrelation<f64>, _: f64, _: &()| -> Hybrid {
            assert_eq!((c.equity_rate, c.second_rate), (0.0, 0.0));
            Ok(hybrid(3, r, c.equity_second))
        },
        |_: &(), _: Bergomi2Factor<f64>, r: &HullWhite1Factor<f64>, rate: f64, rates: Pair<f64>, _: f64, _: &()| -> Hybrid {
            assert_eq!((rate, rates.first, rates.second), (0.0, 0.0, 0.0));
            Ok(hybrid(4, r, 0.0))
        },
        |_: &(), f: RoughBergomi<f64>, r: &HullWhite1Factor<f64>, c: HybridCorrelation<f64>, _: f64, _: &()| -> Hybrid {
            Ok(hybrid(5, r, c.equity_second + f.hurst))
        },
    );
    let plan = StochasticVolatilityPricingPlan::compile_bergomi(
        &m,
        &compiler,
        &(),
        one(),
        0.5,
        &(),
    ).ok().unwrap();
    assert_eq!(plan.risky_spot(), -0.4);
    assert_eq!(plan.random_factor_count(), 3);
    assert_eq!(plan.plan_fingerprint(), Fingerprint { bytes: [7; 32] });
    let plan =
        StochasticVolatilityPricingPlan::compile_bergomi_two_factor(
            &m,
            &compiler,
            &(),
            two(),
            0.5,
            &(),
        ).ok().unwrap();
    assert_eq!(plan.random_factor_count(), 4);
    let rough = RoughBergomi { hurst: 0.2, vol_of_vol: 0.5, correlation: -0.4 };
    let plan =
        StochasticVolatilityPricingPlan::compile_rough_bergomi(
            &m,
            &compiler,
            &(),
            rough,
            0.5,
            &(),
        ).ok().unwrap();
    assert_eq!(plan.risky_spot(), -0.2);
    let wild = Bergomi1Factor { correlation: -1.5, ..one() };
    let refused = StochasticVolatilityPricingPlan::compile_bergomi(
        &m,
        &compiler,
        &(),
        wild,
        0.5,
        &(),
    );
    assert!(matches!(
        refused.map(|_| ()),
        Err(MonteCarloError::HullWhite(HullWhiteError::InvalidInput {
            field: "correlation",
            index: 0,
        }))
    ));
}
