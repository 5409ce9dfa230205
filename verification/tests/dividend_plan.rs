//! Plans with stochastic dividends, and their first- and second-order risk.

use pricing::affine::AffineSpot;
use pricing::backend::SuppliedBackend;
use pricing::bergomi::Kernel;
use pricing::dynamics::{
    DividendDynamics, KernelNumerics, SuppliedDividendDynamics, SuppliedKernelNumerics,
};
use pricing::engine::{
    EngineConfig, PseudoMonteCarlo, RandomizedQuasiMonteCarlo, VarianceReduction,
};
use pricing::errors::{LsvError, MonteCarloError, StochasticDividendError};
use pricing::estimation::Job;
use pricing::market::{CarryMarket, CashEvent, SuppliedCarryMarket};
use pricing::models::{
    Bergomi1Factor, Bergomi2Factor, BuehlerDividendModel, BuehlerDividendState, Fingerprint,
    LsvCalibration, Pair, RoughBergomi,
};
use pricing::plan::StochasticDividendPricingPlan;
use pricing::plan_world::{PlanWorld, SuppliedPlanWorld};
use pricing::residual_world::{ResidualWorld, SuppliedResidualWorld};
use pricing::reverse::{DividendPath, PathNode, ReverseContext, SpotSeed};
use pricing::sampling::{Backend, Statistics};
use pricing::scalar::{Arithmetic, Elementary, Math};
use pricing::simulation::SpotBump;
use pricing::target_grid::{SuppliedTargetGrid, TargetGrid};
use pricing::vega_kt::SuppliedVegaBuckets;

fn apply(f: Elementary, x: f64) -> f64 {
    match f {
        Elementary::Exp => x.exp(),
        Elementary::ExpM1 => x.exp_m1(),
        Elementary::Ln => x.ln(),
        Elementary::Ln1p => x.ln_1p(),
        Elementary::Sqrt => x.sqrt(),
        Elementary::Abs => x.abs(),
    }
}

fn arithmetic() -> impl Math<f64> {
    Arithmetic::new(
        apply,
        |x: f64, y: f64| x.powf(y),
        |x: f64| x.is_finite(),
        |n: u64| n as f64,
        |x: f64, y: f64| x.total_cmp(&y).is_lt(),
    )
}

/// A uniform in the open unit interval, by mixing the bits of its place.
fn mixed(a: u64, b: u64, c: u64) -> f64 {
    let mut x = a
        .wrapping_mul(0x9e37_79b9_7f4a_7c15)
        .wrapping_add(b.wrapping_mul(0xbf58_476d_1ce4_e5b9))
        .wrapping_add(c.wrapping_mul(0x94d0_49bb_1331_11eb));
    x = (x ^ (x >> 30)).wrapping_mul(0xbf58_476d_1ce4_e5b9);
    x = (x ^ (x >> 27)).wrapping_mul(0x94d0_49bb_1331_11eb);
    ((x ^ (x >> 31)) >> 11) as f64 / (1u64 << 53) as f64 + 2.0_f64.powi(-54)
}

/// Close to the inverse of the normal distribution function.
fn inverse(u: f64) -> f64 {
    (u / (1.0 - u)).ln() / 1.702
}

fn statistics(v: &Vec<f64>) -> Statistics<f64> {
    let total: f64 = v.iter().sum();
    let mean = total / v.len() as f64;
    let squares: f64 = v.iter().map(|x| (x - mean) * (x - mean)).sum();
    let sample_variance = if v.len() > 1 { Some(squares / (v.len() - 1) as f64) } else { None };
    Statistics { total, sample_variance }
}

fn backend() -> impl Backend<f64> {
    SuppliedBackend::new(
        |path: u64, dimension: u32| inverse(mixed(path, dimension as u64, 7)),
        |scramble: u32, point: u64, dimension: u32| Some(
            mixed(point, dimension as u64, 100 + scramble as u64),
        ),
        |u: f64| Some(inverse(u)),
        |draws: &Vec<f64>| -> Result<Vec<f64>, MonteCarloError> {
            // The draws in reverse order, as a bridge that is easily told apart.
            Ok(draws.iter().rev().cloned().collect())
        },
        |v: &Vec<f64>| statistics(v),
        |v: &Vec<f64>| statistics(v),
    )
}

/// The average of `exp(-x u)` over the unit interval.
fn phi(x: f64) -> f64 {
    if x == 0.0 {
        1.0
    } else {
        -(-x).exp_m1() / x
    }
}

fn kernel_correlation(a: f64, b: f64) -> Option<f64> {
    if a == b {
        Some(1.0)
    } else {
        Some(phi(a + b) / (phi(2.0 * a) * phi(2.0 * b)).sqrt())
    }
}

fn cholesky(c: &Vec<f64>, n: usize) -> Option<Vec<f64>> {
    let mut l = vec![0.0; n * n];
    for i in 0..n {
        for j in 0..=i {
            let mut x = c[i * n + j];
            for k in 0..j {
                x -= l[i * n + k] * l[j * n + k];
            }
            if i == j {
                if x < -1e-12 {
                    return None;
                }
                l[i * n + i] = x.max(0.0).sqrt();
            } else if l[j * n + j] > 0.0 {
                l[i * n + j] = x / l[j * n + j];
            }
        }
    }
    Some(l)
}

fn pivots(c: &Vec<f64>, n: usize) -> Vec<f64> {
    let l = cholesky(c, n).unwrap();
    (0..n).map(|i| l[i * n + i] * l[i * n + i]).collect()
}

fn transition(speed: f64, time: f64) -> Option<Pair<f64>> {
    Some(Pair { first: (-speed * time).exp(), second: time * phi(2.0 * speed * time) })
}

fn normalized_weights(f: Bergomi2Factor<f64>) -> Pair<f64> {
    let (a, b) = (1.0 - f.mixing_weight, f.mixing_weight);
    let norm = (a * a + b * b + 2.0 * a * b * f.factor_correlation).sqrt();
    Pair { first: a / norm, second: b / norm }
}

fn average_kernel(h: f64, lo: f64, hi: f64) -> f64 {
    let p = h + 0.5;
    (2.0 * h).sqrt() * (hi.powf(p) - lo.powf(p)) / (p * (hi - lo))
}

fn volterra_row(f: RoughBergomi<f64>, times: &Vec<f64>, node: usize) -> Vec<f64> {
    if node == 0 {
        return vec![];
    }
    let t = times[node];
    (0..node - 1)
        .map(|j| average_kernel(f.hurst, t - times[j + 1], t - times[j]))
        .collect()
}

fn volterra_variances(f: RoughBergomi<f64>, times: &Vec<f64>) -> Option<Vec<f64>> {
    let all = (0..times.len())
        .map(|i| {
            if i == 0 {
                return 0.0;
            }
            let near = (times[i] - times[i - 1]).powf(2.0 * f.hurst);
            volterra_row(f, times, i)
                .iter()
                .enumerate()
                .fold(near, |v, (j, w)| v + w * w * (times[j + 1] - times[j]))
        })
        .collect();
    Some(all)
}

fn numerics() -> impl KernelNumerics<f64, Surface = ()> {
    SuppliedKernelNumerics::new(
        kernel_correlation,
        cholesky,
        pivots,
        volterra_variances,
        volterra_row,
        transition,
        |_: &(), _: &Vec<f64>| -> bool { true },
        |_: &()| -> f64 { 1.0 },
        |_: &(), _: f64, _: f64| -> Option<f64> { Some(1.0) },
        normalized_weights,
    )
}

/// Equity moves between two halves of the reversion of the dividends.
fn dynamics() -> impl DividendDynamics<f64> {
    let decay = |k: f64, t: f64| Pair { first: (-k * t).exp(), second: -(-k * t).exp_m1() };
    let blend = |w: Pair<f64>, x: f64, y: f64| w.first * x + w.second * y;
    let target = |d: BuehlerDividendModel<f64>, f: f64| d.equity_linkage * f + 1.0
        - d.equity_linkage;
    SuppliedDividendDynamics::new(
        decay,
        blend,
        target,
        move |d: BuehlerDividendModel<f64>,
              s: BuehlerDividendState<f64>,
              sigma: f64,
              dt: f64,
              z: Pair<f64>|
              -> Result<BuehlerDividendState<f64>, MonteCarloError> {
            let w = decay(d.mean_reversion, 0.5 * dt);
            let half = blend(w, s.dividend, target(d, s.equity));
            let rho = d.equity_dividend_correlation;
            let e = rho * z.first + ((1.0 - rho) * (1.0 + rho)).sqrt() * z.second;
            let (u, v) = (sigma * dt.sqrt(), d.dividend_volatility * dt.sqrt());
            let equity = s.equity * (-0.5 * u * u + u * z.first).exp();
            let dividend = blend(w, half * (-0.5 * v * v + v * e).exp(), target(d, equity));
            Ok(BuehlerDividendState { equity, dividend })
        },
    )
}

const PILLARS: [f64; 4] = [0.0, 0.5, 1.0, 2.0];
const TIMES: [f64; 4] = [0.0, 0.4, 0.8, 1.0];
const EVENTS: [f64; 3] = [0.4, 0.8, 1.5];
const PAYMENT: f64 = 1.1;

/// The volatility factors of a plan.
#[derive(Clone, Copy, PartialEq)]
enum Factors {
    Zero,
    One,
    Two,
    Rough,
}

#[derive(Clone)]
struct Inputs {
    factors: Factors,
    spot: f64,
    sigma: f64,
    dividends: BuehlerDividendModel<f64>,
    cash: [f64; 3],
    discount: [f64; 4],
    repo: [f64; 4],
    one: Bergomi1Factor<f64>,
    two: Bergomi2Factor<f64>,
    rough: RoughBergomi<f64>,
    dividend_volatility: Pair<f64>,
}

fn base(factors: Factors) -> Inputs {
    Inputs {
        factors,
        spot: 100.0,
        sigma: 0.25,
        dividends: BuehlerDividendModel {
            mean_reversion: 0.7,
            equity_linkage: 0.6,
            dividend_volatility: 0.35,
            equity_dividend_correlation: -0.25,
        },
        cash: [3.0, 2.0, 4.0],
        discount: [0.0, -0.02, -0.05, -0.09],
        repo: [0.0, -0.004, -0.01, -0.015],
        one: Bergomi1Factor { mean_reversion: 0.8, vol_of_vol: 0.5, correlation: -0.4 },
        two: Bergomi2Factor {
            mean_reversions: Pair { first: 0.8, second: 4.0 },
            vol_of_vol: 0.5,
            mixing_weight: 0.3,
            spot_correlations: Pair { first: -0.4, second: -0.3 },
            factor_correlation: 0.2,
        },
        rough: RoughBergomi { hurst: 0.2, vol_of_vol: 0.6, correlation: -0.4 },
        dividend_volatility: Pair { first: 0.15, second: 0.1 },
    }
}

fn interpolate(log_df: &[f64; 4], t: f64) -> f64 {
    let mut i = 1;
    while i < 3 && PILLARS[i] < t {
        i += 1;
    }
    let w = (t - PILLARS[i - 1]) / (PILLARS[i] - PILLARS[i - 1]);
    (1.0 - w) * log_df[i - 1] + w * log_df[i]
}

fn transpose(t: f64, seed: f64, out: &Vec<f64>) -> Result<Vec<f64>, MonteCarloError> {
    let mut out = out.clone();
    let mut i = 1;
    while i < 3 && PILLARS[i] < t {
        i += 1;
    }
    let w = (t - PILLARS[i - 1]) / (PILLARS[i] - PILLARS[i - 1]);
    if i > 1 {
        out[i - 1] += (1.0 - w) * seed;
    }
    out[i] += w * seed;
    Ok(out)
}

fn growth(p: &Inputs, t: f64) -> f64 {
    (interpolate(&p.repo, t) - interpolate(&p.discount, t)).exp()
}

fn market(p: &Inputs) -> impl CarryMarket<f64> {
    let (a, c, d) = (p.clone(), p.clone(), p.clone());
    SuppliedCarryMarket::new(
        move || a.spot,
        move |t: f64| -> Result<f64, MonteCarloError> { Ok(c.spot * growth(&c, t)) },
        move || -> Vec<CashEvent<f64>> {
            (0..3)
                .map(|i| CashEvent {
                    event: 10 + i as u64,
                    ex_time: EVENTS[i],
                    fixed_cash: d.cash[i],
                })
                .collect()
        },
        || PILLARS.to_vec(),
        || PILLARS.to_vec(),
        transpose,
        transpose,
    )
}

/// The spot is a residual equity and a reserve for all cash to come.
fn path(p: &Inputs) -> DividendPath<f64, ()> {
    let times = TIMES.to_vec();
    let risky = p.spot - (0..3).map(|i| p.cash[i] / growth(p, EVENTS[i])).sum::<f64>();
    let (k, alpha) = (p.dividends.mean_reversion, p.dividends.equity_linkage);
    let nodes = times
        .iter()
        .map(|&time| {
            let mut node = PathNode {
                time,
                equity_coefficient: growth(p, time) * risky,
                dividend_coefficient: 0.0,
                constant: 0.0,
                event_mean_cash: None,
            };
            for i in 0..3 {
                if EVENTS[i] == time {
                    node.event_mean_cash = Some(p.cash[i]);
                } else if EVENTS[i] > time {
                    let reserve = p.cash[i] * growth(p, time) / growth(p, EVENTS[i]);
                    let kept = (-k * (EVENTS[i] - time)).exp();
                    node.equity_coefficient += reserve * alpha * (1.0 - kept);
                    node.dividend_coefficient += reserve * kept;
                    node.constant += reserve * (1.0 - alpha) * (1.0 - kept);
                }
            }
            node
        })
        .collect();
    let (m, o) = (arithmetic(), numerics());
    let (dimension, bergomi) = match p.factors {
        Factors::Zero | Factors::Rough => (6, None),
        Factors::One => {
            (9, Kernel::one(&m, &o, p.dividends, p.one, p.dividend_volatility.first, &times).ok())
        },
        Factors::Two => (
            12,
            Kernel::two(&m, &o, p.dividends, p.two, p.dividend_volatility, &times).ok(),
        ),
    };
    assert_eq!(bergomi.is_none(), matches!(p.factors, Factors::Zero | Factors::Rough));
    let path = DividendPath {
        nodes,
        times,
        model: p.dividends,
        volatility: p.sigma,
        dimension,
        bergomi,
        rough: None,
        rough_leverage: None,
    };
    if p.factors == Factors::Rough {
        return path.with_rough_bergomi(&m, &o, p.rough, p.dividend_volatility.first).ok().unwrap();
    }
    path
}

fn evolve(path: &DividendPath<f64, ()>, z: &Vec<f64>) -> Result<
    Vec<BuehlerDividendState<f64>>,
    MonteCarloError,
> {
    let (m, y, o) = (arithmetic(), dynamics(), numerics());
    if let Some(kernel) = &path.bergomi {
        return kernel.evolve(&m, &y, &o, path.model, path.volatility, &path.times, z);
    }
    if let Some(kernel) = &path.rough {
        return kernel.evolve(&m, &y, path.model, path.volatility, &path.times, z);
    }
    let mut states = vec![BuehlerDividendState { equity: 1.0, dividend: 1.0 }];
    for i in 0..3 {
        let pair = Pair { first: z[2 * i], second: z[2 * i + 1] };
        states.push(y.step(path.model, states[i], path.volatility, TIMES[i + 1] - TIMES[i], pair)?);
    }
    Ok(states)
}

fn copied(p: &DividendPath<f64, ()>) -> DividendPath<f64, ()> {
    DividendPath {
        nodes: p.nodes.clone(),
        times: p.times.clone(),
        model: p.model,
        volatility: p.volatility,
        dimension: p.dimension,
        bergomi: None,
        rough: None,
        rough_leverage: None,
    }
}

fn world(p: &Inputs) -> impl PlanWorld<
    f64,
    Surface = (),
    Spot = AffineSpot<f64>,
    Market = impl CarryMarket<f64>,
> {
    let df = interpolate(&p.discount, PAYMENT).exp();
    let paid = move |spots: &Vec<AffineSpot<f64>>| {
        let last = spots[3].post;
        df * (0.3 * spots[1].post + 0.2 * spots[1].pre.unwrap() + last * last / 100.0)
    };
    let (a, c, d) = (p.clone(), p.clone(), p.clone());
    SuppliedPlanWorld::new(
        evolve,
        |node: PathNode<f64>, s: BuehlerDividendState<f64>| -> Result<
            AffineSpot<f64>,
            MonteCarloError,
        > {
            let post = node.equity_coefficient * s.equity + node.dividend_coefficient * s.dividend
                + node.constant;
            Ok(AffineSpot { post, pre: node.event_mean_cash.map(|cash| post + cash * s.dividend) })
        },
        move |_: &Vec<f64>, spots: &Vec<AffineSpot<f64>>| -> Result<f64, MonteCarloError> { Ok(paid(spots)) },
        move |_: &Vec<f64>, spots: &Vec<AffineSpot<f64>>| -> Result<
            (f64, Vec<SpotSeed<f64>>),
            MonteCarloError,
        > {
            let mut seeds = vec![SpotSeed { post: 0.0, pre: 0.0 }; 4];
            seeds[1] = SpotSeed { post: 0.3 * df, pre: 0.2 * df };
            seeds[3].post = df * spots[3].post / 50.0;
            Ok((paid(spots), seeds))
        },
        move |spot: f64| Ok(market(&Inputs { spot, ..a.clone() })),
        move |m| -> Result<DividendPath<f64, ()>, MonteCarloError> {
            Ok(path(&Inputs { spot: CarryMarket::<f64>::spot(m), ..c.clone() }))
        },
        move |m| -> Result<DividendPath<f64, ()>, MonteCarloError> {
            Ok(path(&Inputs { spot: CarryMarket::<f64>::spot(m), ..d.clone() }))
        },
        |p: &DividendPath<f64, ()>| p.nodes[0].equity_coefficient,
        |initial: f64| -> Result<(), MonteCarloError> {
            // The surface is anchored at what is left of the spot.
            if initial > 0.0 { Ok(()) } else { Err(MonteCarloError::Component { code: 5 }) }
        },
        |p: &DividendPath<f64, ()>, _: Bergomi1Factor<f64>, _: f64, _: ()| -> Result<
            DividendPath<f64, ()>,
            MonteCarloError,
        > {
            Ok(copied(p))
        },
        |p: &DividendPath<f64, ()>, _: Bergomi2Factor<f64>, _: Pair<f64>, _: ()| -> Result<
            DividendPath<f64, ()>,
            MonteCarloError,
        > {
            Ok(DividendPath { dimension: 99, ..copied(p) })
        },
        |_: &DividendPath<f64, ()>, _: RoughBergomi<f64>, _: f64, _: ()| -> Result<
            DividendPath<f64, ()>,
            MonteCarloError,
        > {
            Err(MonteCarloError::Component { code: 6 })
        },
        |x: f64| x.to_bits(),
    )
}

fn engine(quasi: bool) -> EngineConfig {
    let variance_reduction = VarianceReduction { antithetic: true, brownian_bridge: quasi };
    if quasi {
        EngineConfig::RandomizedQuasiMonteCarlo(RandomizedQuasiMonteCarlo {
            points_per_scramble: 4,
            scramble_count: 3,
            master_seed: 5,
            variance_reduction,
        })
    } else {
        EngineConfig::PseudoMonteCarlo(PseudoMonteCarlo {
            independent_sampling_units: 8,
            master_seed: 5,
            variance_reduction,
        })
    }
}

fn plan(p: &Inputs, quasi: bool) -> StochasticDividendPricingPlan<f64, DividendPath<f64, ()>> {
    let path = path(p);
    StochasticDividendPricingPlan {
        job: Job {
            engine: engine(quasi),
            dimension: path.dimension as u32,
            factors: path.dimension / 3,
            executor_failure: None,
            quasi_failure: None,
            bridge_failure: None,
        },
        path,
        path_is_lsv: false,
        model: p.dividends,
        fingerprint: Fingerprint { bytes: [4; 32] },
        scheme: "scheme",
        payment_time: PAYMENT,
        risk_supported: true,
        lsv: None,
    }
}

fn value(p: &Inputs, quasi: bool) -> f64 {
    plan(p, quasi).evaluate(&arithmetic(), &backend(), &world(p)).unwrap().value
}

/// The inputs with one of them moved.
fn moved(factors: Factors, label: &str, h: f64) -> Inputs {
    let mut p = base(factors);
    match (label, factors) {
        ("spot", _) => p.spot += h,
        ("initial_volatility", _) => p.sigma += h,
        ("dividend_mean_reversion", _) => p.dividends.mean_reversion += h,
        ("equity_linkage", _) => p.dividends.equity_linkage += h,
        ("dividend_volatility", _) => p.dividends.dividend_volatility += h,
        ("cash_mean[10]", _) => p.cash[0] += h,
        ("cash_mean[11]", _) => p.cash[1] += h,
        ("cash_mean[12]", _) => p.cash[2] += h,
        ("discount_log_df[1]", _) => p.discount[1] += h,
        ("discount_log_df[2]", _) => p.discount[2] += h,
        ("discount_log_df[3]", _) => p.discount[3] += h,
        ("repo_spread_log_df[1]", _) => p.repo[1] += h,
        ("repo_spread_log_df[2]", _) => p.repo[2] += h,
        ("repo_spread_log_df[3]", _) => p.repo[3] += h,
        ("bergomi_mean_reversion[0]", Factors::One) => p.one.mean_reversion += h,
        ("bergomi_vol_of_vol", Factors::One) => p.one.vol_of_vol += h,
        ("spot_volatility_correlation[0]", Factors::One) => p.one.correlation += h,
        ("rough_hurst", _) => p.rough.hurst += h,
        ("rough_vol_of_vol", _) => p.rough.vol_of_vol += h,
        ("bergomi_mean_reversion[0]", _) => p.two.mean_reversions.first += h,
        ("bergomi_mean_reversion[1]", _) => p.two.mean_reversions.second += h,
        ("bergomi_vol_of_vol", _) => p.two.vol_of_vol += h,
        ("bergomi_mixing_weight", _) => p.two.mixing_weight += h,
        ("spot_volatility_correlation[0]", _) => p.two.spot_correlations.first += h,
        ("spot_volatility_correlation[1]", _) => p.two.spot_correlations.second += h,
        ("volatility_factor_correlation", _) => p.two.factor_correlation += h,
        ("dividend_volatility_correlation[0]", _) => p.dividend_volatility.first += h,
        ("dividend_volatility_correlation[1]", _) => p.dividend_volatility.second += h,
        ("equity_dividend_correlation", _) => p.dividends.equity_dividend_correlation += h,
        _ => panic!("{label}"),
    }
    p
}

#[test]
fn first_order_risk_of_every_scope_matches_moved_inputs() {
    let (m, bk, y, o) = (arithmetic(), backend(), dynamics(), numerics());
    for (factors, quasi, widths) in [
        (Factors::Zero, false, [16, 17]),
        (Factors::One, true, [18, 21]),
        (Factors::Two, false, [20, 26]),
    ] {
        let p = base(factors);
        let w = world(&p);
        let c = w.market_at(p.spot).ok().unwrap();
        let plan = plan(&p, quasi);
        let price = plan.evaluate(&m, &bk, &w).unwrap();
        let basic = plan.evaluate_aad(&m, &bk, &y, &o, &w, &c).ok().unwrap();
        let correlations = plan.evaluate_correlation_aad(&m, &bk, &y, &o, &w, &c).ok().unwrap();
        let mut risks = vec![basic, correlations];
        if factors != Factors::Zero {
            let own = plan.evaluate_bergomi_aad(&m, &bk, &y, &o, &w, &c).ok().unwrap();
            assert_eq!(own.derivatives.len(), widths[0]);
            risks.push(own);
        } else {
            assert!(plan.evaluate_bergomi_aad(&m, &bk, &y, &o, &w, &c).is_err());
        }
        assert_eq!(risks[0].derivatives.len(), 16);
        assert_eq!(risks[1].derivatives.len(), widths[1]);
        for risk in &risks {
            assert!((risk.price.value - price.value).abs() < 1e-12);
            assert_eq!(risk.derivatives[..16], risks[0].derivatives[..]);
            assert!(risk.standard_errors.iter().all(|e| *e >= 0.0));
            for (label, derivative) in risk.parameter_labels.iter().zip(&risk.derivatives) {
                let name = label.text();
                if name == "discount_log_df[0]" || name == "repo_spread_log_df[0]" {
                    assert_eq!(*derivative, 0.0);
                    continue;
                }
                let h = 1e-5;
                let fd = (
                    value(&moved(factors, &name, h), quasi) - value(
                        &moved(factors, &name, -h),
                        quasi,
                    )
                )
                    / (2.0 * h);
                assert!(
                    (fd - derivative).abs() < 1e-5 * (1.0 + fd.abs()),
                    "{name}: {derivative} != {fd}",
                );
            }
        }
        // The report reads its numbers by their names.
        let risk = &risks[0];
        assert_eq!(risk.delta(), risk.derivatives[0]);
        assert_eq!(risk.initial_volatility_vega(), risk.derivatives[1]);
        assert_eq!(risk.cash_mean_adjoints(), risk.derivatives[5..8]);
    }
}

#[test]
fn rough_plans_have_risk_but_for_their_correlations() {
    let (m, bk, y, o) = (arithmetic(), backend(), dynamics(), numerics());
    for quasi in [false, true] {
        let p = base(Factors::Rough);
        let w = world(&p);
        let c = w.market_at(p.spot).ok().unwrap();
        let plan = plan(&p, quasi);
        assert_eq!(plan.path.random_factor_count(), 4);
        let basic = plan.evaluate_aad(&m, &bk, &y, &o, &w, &c).ok().unwrap();
        let own = plan.evaluate_bergomi_aad(&m, &bk, &y, &o, &w, &c).ok().unwrap();
        assert_eq!(own.derivatives[..16], basic.derivatives[..]);
        assert_eq!(own.parameter_labels.len(), 18);
        assert!((own.price.value - value(&p, quasi)).abs() < 1e-12);
        for (label, derivative) in own.parameter_labels.iter().zip(&own.derivatives) {
            let name = label.text();
            if name == "discount_log_df[0]" || name == "repo_spread_log_df[0]" {
                continue;
            }
            let h = 1e-5;
            let up = value(&moved(Factors::Rough, &name, h), quasi);
            let down = value(&moved(Factors::Rough, &name, -h), quasi);
            let fd = (up - down) / (2.0 * h);
            assert!(
                (fd - derivative).abs() < 1e-5 * (1.0 + fd.abs()),
                "{name}: {derivative} != {fd}",
            );
        }
        assert!(matches!(
            plan.evaluate_correlation_aad(&m, &bk, &y, &o, &w, &c).map(|_| ()),
            Err(MonteCarloError::StochasticDividend(StochasticDividendError::Unsupported {
                feature: "rough correlation AAD"
            }))
        ));
        let gamma =
            plan.evaluate_gamma(&m, &bk, &y, &w, &c, SpotBump::Relative(0.01)).ok().unwrap();
        let at = |spot: f64| value(&Inputs { spot, ..base(Factors::Rough) }, quasi);
        let second = (at(100.1) - 2.0 * at(100.0) + at(99.9)) / 0.01;
        assert!((gamma.gamma_estimates[1] - second).abs() < 1e-6);
    }
}

#[test]
fn enabling_correlations_changes_nothing_where_it_fails() {
    let (m, y, o) = (arithmetic(), dynamics(), numerics());
    let p = base(Factors::Rough);
    let c = market(&p);
    let path = path(&p);
    let mut k = ReverseContext::new(&m, &y, &c, &path, PAYMENT).ok().unwrap();
    let before = k.labels.clone();
    assert!(k.enable_correlations(&m, &o, &path).is_err());
    assert_eq!(k.labels, before);
    assert!(k.correlation_start.is_none() && k.rough.is_none());
}

#[test]
fn spot_alone_is_the_first_derivative() {
    let (m, y) = (arithmetic(), dynamics());
    let p = base(Factors::One);
    let (c, path) = (market(&p), path(&p));
    let k = ReverseContext::new(&m, &y, &c, &path, PAYMENT).ok().unwrap();
    let z: Vec<f64> = (0..9).map(|i| ((i as f64 + 0.4) * 1.7).sin()).collect();
    let states = evolve(&path, &z).unwrap();
    let seeds: Vec<SpotSeed<f64>> =
        (0..4).map(|i| SpotSeed { post: 0.3 * i as f64, pre: 0.1 }).collect();
    let all = k.pullback(&m, &y, &path, &z, &states, &seeds, 2.0).ok().unwrap();
    assert_eq!(k.spot_pullback(&m, &states, &seeds), Ok(all[0]));
    // Without seeds both are nothing, whatever the sign of the payoff.
    let quiet = vec![SpotSeed { post: 0.0, pre: 0.0 }; 4];
    let none = k.pullback(&m, &y, &path, &z, &states, &quiet, -2.0).ok().unwrap();
    assert_eq!(none[0], 0.0);
    assert_eq!(k.spot_pullback(&m, &states, &quiet), Ok(0.0));
    let market = k.market_reconstruction_pullback(&m, &states, &seeds, 2.0).ok().unwrap();
    assert_eq!(market[0], all[0]);
    assert_eq!(market[5..], all[5..]);
    assert!(k.market_reconstruction_pullback(&m, &states, &vec![], 2.0).is_err());
}

#[test]
fn gamma_is_the_difference_of_pathwise_deltas() {
    let (m, bk, y) = (arithmetic(), backend(), dynamics());
    let p = base(Factors::Zero);
    let w = world(&p);
    let c = w.market_at(p.spot).ok().unwrap();
    let plan = plan(&p, false);
    let gamma = plan.evaluate_gamma(&m, &bk, &y, &w, &c, SpotBump::Relative(0.01)).ok().unwrap();
    let at = |spot: f64| value(&Inputs { spot, ..base(Factors::Zero) }, false);
    let h = 0.1;
    let second = (at(100.0 + h) - 2.0 * at(100.0) + at(100.0 - h)) / (h * h);
    for estimate in &gamma.gamma_estimates {
        assert!((estimate - second).abs() < 1e-6);
    }
    assert_eq!(gamma.spot, 100.0);
    assert_eq!(gamma.spot_bumps, [0.5, 1.0, 2.0]);
    let delta = (at(100.0 + h) - at(100.0 - h)) / (2.0 * h);
    assert!((gamma.delta - delta).abs() < 1e-6);
    assert!((gamma.price.value - at(100.0)).abs() < 1e-12);
}

#[test]
fn plans_without_derivatives_refuse_risk() {
    let (m, bk, y, o) = (arithmetic(), backend(), dynamics(), numerics());
    let p = base(Factors::Zero);
    let w = world(&p);
    let c = w.market_at(p.spot).ok().unwrap();
    let mut rigid = plan(&p, false);
    rigid.risk_supported = false;
    let refused = |r: Result<(), MonteCarloError>| matches!(r, Err(MonteCarloError::UnsupportedRiskForModel { .. }));
    assert!(refused(rigid.evaluate_aad(&m, &bk, &y, &o, &w, &c).map(|_| ())));
    assert!(
        refused(rigid.evaluate_gamma(&m, &bk, &y, &w, &c, SpotBump::Relative(0.01)).map(|_| ()))
    );
    assert!(rigid.evaluate(&m, &bk, &w).is_ok());
    let mut lsv = plan(&p, false);
    lsv.path_is_lsv = true;
    assert!(refused(lsv.evaluate_gamma(&m, &bk, &y, &w, &c, SpotBump::Relative(0.01)).map(|_| ())));
    let mut broken = plan(&p, false);
    broken.job.executor_failure = Some(MonteCarloError::Component { code: 3 });
    assert_eq!(broken.evaluate(&m, &bk, &w).map(|_| ()), Err(MonteCarloError::Component {
        code: 3,
    }));
}

/// A plan whose leverage is the target itself: three rows of one local variance.
fn lsv_plan(quasi: bool) -> StochasticDividendPricingPlan<f64, DividendPath<f64, ()>> {
    let p = base(Factors::Zero);
    let mut plan = plan(&p, quasi);
    plan.path_is_lsv = true;
    plan.lsv = Some(LsvCalibration::One { factor: p.one, dividend_volatility_correlation: 0.15 });
    plan
}

/// The spots of a path whose steps have their own variances.
fn stepped(p: &Inputs, variances: [f64; 3], z: &[f64]) -> Vec<AffineSpot<f64>> {
    let (path, y, w) = (path(p), dynamics(), world(p));
    let mut states = vec![BuehlerDividendState { equity: 1.0, dividend: 1.0 }];
    for i in 0..3 {
        let pair = Pair { first: z[2 * i], second: z[2 * i + 1] };
        let dt = TIMES[i + 1] - TIMES[i];
        states.push(y.step(path.model, states[i], variances[i].sqrt(), dt, pair).unwrap());
    }
    (0..4).map(|i| w.spots(path.nodes[i], states[i]).unwrap()).collect()
}

fn seeded(spots: &[AffineSpot<f64>], seeds: &[SpotSeed<f64>]) -> f64 {
    spots.iter().zip(seeds).map(|(s, bar)| bar.post * s.post + bar.pre * s.pre.unwrap_or(0.0)).sum()
}

fn residual(trace: bool) -> impl ResidualWorld<f64> {
    let p = base(Factors::Zero);
    let a = p.clone();
    SuppliedResidualWorld::new(
        || Some(80.0),
        || 80.0,
        || 3,
        move || trace,
        move |z: &Vec<f64>,
              _: &Vec<BuehlerDividendState<f64>>,
              seeds: &Vec<SpotSeed<f64>>|
              -> Result<Vec<f64>, MonteCarloError> {
            let h = 1e-5;
            Ok((0..3)
                .map(|i| {
                    let at = |h: f64| {
                        let mut v = [a.sigma * a.sigma; 3];
                        v[i] += h;
                        seeded(&stepped(&a, v, z), seeds)
                    };
                    (at(h) - at(-h)) / (2.0 * h)
                })
                .collect())
        },
        |adjoints: &Vec<f64>| -> Result<Vec<f64>, MonteCarloError> { Ok(adjoints.clone()) },
        || vec![0.0, 0.4, 0.8],
        || true,
        || 1,
        |row: &Vec<f64>| -> Result<Vec<f64>, MonteCarloError> { Ok(row.clone()) },
        |maturity: f64| if maturity > 0.0 { Some(0) } else { None },
        |_: usize, _: f64, density: &Vec<f64>| -> Result<Vec<f64>, MonteCarloError> { Ok(density.clone()) },
    )
}

fn target(variance: f64) -> impl TargetGrid<f64> {
    SuppliedTargetGrid::new(
        || vec![0.0, 0.4, 0.8],
        || vec![0.0],
        move || vec![variance; 3],
        move |_: f64, _: f64| -> Result<f64, MonteCarloError> { Ok(variance) },
        |t: f64, _: f64, adjoint: f64, nodes: &Vec<f64>| -> Result<Vec<f64>, MonteCarloError> {
            let mut nodes = nodes.clone();
            nodes[if t < 0.4 { 0 } else if t < 0.8 { 1 } else { 2 }] += adjoint;
            Ok(nodes)
        },
    )
}

#[test]
fn residual_leverage_risk_agrees_with_constant_volatility() {
    let (m, bk, y, o) = (arithmetic(), backend(), dynamics(), numerics());
    let p = base(Factors::Zero);
    let w = world(&p);
    let c = w.market_at(p.spot).ok().unwrap();
    for quasi in [false, true] {
        let whole = plan(&p, quasi).evaluate_aad(&m, &bk, &y, &o, &w, &c).ok().unwrap();
        let lsv = lsv_plan(quasi);
        let v = residual(true);
        let spot = lsv.evaluate_lsv_spot_risk(&m, &bk, &y, &w, &v, &c).ok().unwrap();
        assert!((spot.delta - whole.delta()).abs() < 1e-9);
        assert!((spot.price.value - whole.price.value).abs() < 1e-12);
        let market = lsv.evaluate_lsv_market_risk(&m, &bk, &y, &w, &v, &c).ok().unwrap();
        assert!((market.delta - whole.delta()).abs() < 1e-6);
        let close = |found: &[f64], expected: &[f64]| {
            assert_eq!(found.len(), expected.len());
            for (x, y) in found.iter().zip(expected) {
                assert!((x - y).abs() < 1e-4, "{found:?} != {expected:?}");
            }
        };
        close(&market.cash_mean_adjoints, &whole.derivatives[5..8]);
        close(&market.discount_log_df_adjoints, &whole.derivatives[8..12]);
        close(&market.repo_spread_log_df_adjoints, &whole.derivatives[12..16]);
        let local = lsv.evaluate_local_variance_risk(
            &m,
            &bk,
            &w,
            &v,
            &target(p.sigma * p.sigma),
        ).ok().unwrap();
        // A volatility moves every local variance.
        let vega: f64 = local.node_adjoints.iter().map(|x| 2.0 * p.sigma * x).sum();
        assert!((vega - whole.initial_volatility_vega()).abs() < 1e-4);
        assert_eq!(local.standard_errors.is_some(), quasi);
        let buckets = SuppliedVegaBuckets::new(
            |_: &Vec<f64>, samples: &Vec<f64>, _: usize| -> Result<f64, MonteCarloError> {
                Ok(samples.iter().sum::<f64>() / samples.len() as f64)
            },
            |mean: &f64| vec![*mean],
            |means: &Vec<f64>, remainder: f64, total: f64| -> Result<[f64; 3], MonteCarloError> {
                Ok([means[0], remainder, total])
            },
            || false,
            |_: &Vec<f64>, _: usize| -> Result<(), MonteCarloError> { Ok(()) },
            || 1,
            |_: usize, p: [f64; 3], _: f64, _: Option<()>| -> Result<[f64; 3], MonteCarloError> { Ok(p) },
        );
        let report = lsv.evaluate_vega_kt(
            &m,
            &bk,
            &w,
            &v,
            &target(p.sigma * p.sigma),
            &buckets,
        ).ok().unwrap();
        assert!((report[2] - vega).abs() < 1e-9);
        assert!((report[0] + report[1] - report[2]).abs() < 1e-9);
        // The row of the valuation date stays out of the buckets.
        assert!((report[1] - 2.0 * p.sigma * local.node_adjoints[0]).abs() < 1e-9);
    }
}

#[test]
fn residual_risk_needs_a_residual_plan_and_its_trace() {
    let (m, bk, y) = (arithmetic(), backend(), dynamics());
    let p = base(Factors::Zero);
    let w = world(&p);
    let c = w.market_at(p.spot).ok().unwrap();
    let g = target(0.0625);
    let plain = plan(&p, false);
    let v = residual(true);
    let refused = |r: Result<(), MonteCarloError>| matches!(r, Err(MonteCarloError::UnsupportedRiskForModel { .. }));
    assert!(refused(plain.evaluate_lsv_spot_risk(&m, &bk, &y, &w, &v, &c).map(|_| ())));
    assert!(refused(plain.evaluate_lsv_market_risk(&m, &bk, &y, &w, &v, &c).map(|_| ())));
    assert!(refused(plain.evaluate_local_variance_risk(&m, &bk, &w, &v, &g).map(|_| ())));
    assert_eq!(
        lsv_plan(false).evaluate_local_variance_risk(&m, &bk, &w, &residual(false), &g).map(|_| ()),
        Err(MonteCarloError::Lsv(LsvError::ReverseTraceNotRetained))
    );
    // The gamma of a residual plan anchors its surface anew.
    let bump = SpotBump::Relative(0.01);
    let gamma = lsv_plan(false).evaluate_lsv_gamma(&m, &bk, &y, &w, &c, bump).ok().unwrap();
    let flat = plain.evaluate_gamma(&m, &bk, &y, &w, &c, bump).ok().unwrap();
    assert_eq!(gamma.gamma_estimates, flat.gamma_estimates);
    // Its price and its delta are those of the spot risk.
    let spot = lsv_plan(false)
        .evaluate_lsv_spot_risk(&m, &bk, &y, &w, &residual(false), &c)
        .ok()
        .unwrap();
    assert_eq!(gamma.price.value.to_bits(), spot.price.value.to_bits());
    assert_eq!(gamma.delta.to_bits(), spot.delta.to_bits());
    assert_eq!(gamma.delta_standard_error.to_bits(), spot.delta_standard_error.to_bits());
    assert_eq!(gamma.payoff_evaluations, 7 * gamma.price.evaluated_paths);
    assert!(refused(plain.evaluate_lsv_gamma(&m, &bk, &y, &w, &c, bump).map(|_| ())));
    // A surface that changes the draws cannot be compared with the plan.
    let mut two = lsv_plan(false);
    let correlations = Pair { first: 0.15, second: 0.1 };
    two.lsv = Some(LsvCalibration::Two {
        factor: p.two,
        dividend_volatility_correlations: correlations,
    });
    assert!(matches!(
        two.evaluate_lsv_gamma(&m, &bk, &y, &w, &c, bump).map(|_| ()),
        Err(MonteCarloError::StochasticDividend(StochasticDividendError::Invalid {
            field: "lsv_gamma_random_dimension"
        }))
    ));
}
