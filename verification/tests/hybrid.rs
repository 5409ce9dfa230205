//! First-order risk of plans of equity and rates.

use pricing::affine::{AffineDividendPlan, AffineSpot, HybridState};
use pricing::backend::SuppliedBackend;
use pricing::engine::{
    EngineConfig, PseudoMonteCarlo, RandomizedQuasiMonteCarlo, VarianceReduction,
};
use pricing::errors::MonteCarloError;
use pricing::hybrid_context::HullWhiteEquityPricingPlan;
use pricing::hybrid_world::{
    HullWhiteDividendNodeAdjoints, HullWhitePrice, HybridWorld, LeverageReverse, MarketAdjoints,
    PathReverse, SuppliedHybridWorld,
};
use pricing::models::Fingerprint;
use pricing::paid_market::{PaidDividend, PaidMarket, SuppliedPaidMarket};
use pricing::reverse::SpotSeed;
use pricing::sampling::{Backend, Statistics};
use pricing::scalar::{Arithmetic, Elementary, Math};

fn apply(f: Elementary, x: f64) -> f64 {
    match f {
        Elementary::Exp => x.exp(),
        Elementary::ExpM1 => x.exp_m1(),
        Elementary::Ln => x.ln(),
        Elementary::Ln1p => x.ln_1p(),
        Elementary::Sqrt => x.sqrt(),
        Elementary::Abs => x.abs(),
    }
}

fn arithmetic() -> impl Math<f64> {
    Arithmetic::new(
        apply,
        |x: f64, y: f64| x.powf(y),
        |x: f64| x.is_finite(),
        |n: u64| n as f64,
        |x: f64, y: f64| x.total_cmp(&y).is_lt(),
    )
}

/// A uniform in the open unit interval, by mixing the bits of its place.
fn mixed(a: u64, b: u64, c: u64) -> f64 {
    let mut x = a
        .wrapping_mul(0x9e37_79b9_7f4a_7c15)
        .wrapping_add(b.wrapping_mul(0xbf58_476d_1ce4_e5b9))
        .wrapping_add(c.wrapping_mul(0x94d0_49bb_1331_11eb));
    x = (x ^ (x >> 30)).wrapping_mul(0xbf58_476d_1ce4_e5b9);
    x = (x ^ (x >> 27)).wrapping_mul(0x94d0_49bb_1331_11eb);
    ((x ^ (x >> 31)) >> 11) as f64 / (1u64 << 53) as f64 + 2.0_f64.powi(-54)
}

/// Close to the inverse of the normal distribution function.
fn inverse(u: f64) -> f64 {
    (u / (1.0 - u)).ln() / 1.702
}

fn statistics(v: &Vec<f64>) -> Statistics<f64> {
    let total: f64 = v.iter().sum();
    let mean = total / v.len() as f64;
    let squares: f64 = v.iter().map(|x| (x - mean) * (x - mean)).sum();
    let sample_variance = if v.len() > 1 { Some(squares / (v.len() - 1) as f64) } else { None };
    Statistics { total, sample_variance }
}

fn backend() -> impl Backend<f64> {
    SuppliedBackend::new(
        |path: u64, dimension: u32| inverse(mixed(path, dimension as u64, 7)),
        |scramble: u32, point: u64, dimension: u32| Some(
            mixed(point, dimension as u64, 100 + scramble as u64),
        ),
        |u: f64| Some(inverse(u)),
        |draws: &Vec<f64>| -> Result<Vec<f64>, MonteCarloError> {
            // The draws in reverse order, as a bridge that is easily told apart.
            Ok(draws.iter().rev().cloned().collect())
        },
        |v: &Vec<f64>| statistics(v),
        |v: &Vec<f64>| statistics(v),
    )
}

const PILLARS: [f64; 4] = [0.0, 0.5, 1.0, 2.0];
const TIMES: [f64; 4] = [0.0, 0.4, 0.8, 1.0];

#[derive(Clone)]
struct Inputs {
    spot: f64,
    sigma: f64,
    discount: [f64; 4],
    dividend: [f64; 4],
}

fn base() -> Inputs {
    Inputs {
        spot: 100.0,
        sigma: 0.25,
        discount: [0.0, -0.02, -0.05, -0.09],
        dividend: [0.0, -0.004, -0.01, -0.015],
    }
}

fn interpolate(log_df: &[f64; 4], t: f64) -> f64 {
    let mut i = 1;
    while i < 3 && PILLARS[i] < t {
        i += 1;
    }
    let w = (t - PILLARS[i - 1]) / (PILLARS[i] - PILLARS[i - 1]);
    (1.0 - w) * log_df[i - 1] + w * log_df[i]
}

fn transpose(t: f64, seed: f64, out: &Vec<f64>) -> Result<Vec<f64>, MonteCarloError> {
    let mut out = out.clone();
    let mut i = 1;
    while i < 3 && PILLARS[i] < t {
        i += 1;
    }
    let w = (t - PILLARS[i - 1]) / (PILLARS[i] - PILLARS[i - 1]);
    if i > 1 {
        out[i - 1] += (1.0 - w) * seed;
    }
    out[i] += w * seed;
    Ok(out)
}

/// A rate whose integral has a variance of 0.0001 a year.
fn market(p: &Inputs) -> impl PaidMarket<f64> {
    let (a, c) = (p.clone(), p.clone());
    SuppliedPaidMarket::new(
        || vec![PaidDividend { ex_time: 0.4, fixed_cash: 3.0, beta: 0.1 }],
        move |t: f64| -> Result<f64, MonteCarloError> { Ok(interpolate(&a.discount, t)) },
        move |t: f64| -> Result<f64, MonteCarloError> { Ok(interpolate(&c.dividend, t)) },
        |from: f64, to: f64| -> Result<f64, MonteCarloError> { Ok(0.00005 * (to - from)) },
        || PILLARS.to_vec(),
        || PILLARS.to_vec(),
        transpose,
        transpose,
    )
}

/// The states of a path, and the draws of its equity.
type Recorded = (Vec<HybridState<f64>>, Vec<f64>);

/// The normals come one factor behind the other.
fn record(p: &Inputs, z: &Vec<f64>) -> Recorded {
    let mut states =
        vec![HybridState {
            normalized_equity: p.spot,
            rate_factor: 0.0,
            integrated_rate_factor: 0.0,
        }];
    for i in 0..3 {
        let root = (TIMES[i + 1] - TIMES[i]).sqrt();
        let u = p.sigma * root;
        states.push(HybridState {
            normalized_equity: states[i].normalized_equity * (u * z[i] - 0.5 * u * u).exp(),
            rate_factor: 0.0,
            integrated_rate_factor: states[i].integrated_rate_factor + 0.01 * root * z[3 + i],
        });
    }
    (states, z[..3].to_vec())
}

fn world(p: &Inputs) -> impl HybridWorld<f64> {
    let df = interpolate(&p.discount, 1.0).exp();
    let (a, c) = (p.clone(), p.clone());
    SuppliedHybridWorld::new(
        |p: &HullWhiteEquityPricingPlan<f64>| -> Result<HullWhitePrice<f64>, MonteCarloError> {
            // The price names the plan that it is of.
            if p.random_factor_count == 0 {
                return Err(MonteCarloError::RqmcPlan);
            }
            Ok(HullWhitePrice {
                value: p.risky_spot,
                standard_error: 0.0,
                independent_sampling_units: 1,
                evaluated_paths: 1,
                plan_fingerprint: p.fingerprint,
                scheme: p.scheme,
                calibration_method: p.calibration_method,
                calibration_seed: p.calibration_seed,
                cash_dividend_model: p.cash_dividend_model,
            })
        },
        || 4,
        || 4,
        || 4,
        || 0,
        || 0,
        |path: u64| -> Result<Vec<f64>, MonteCarloError> {
            Ok((0..6).map(|i| inverse(mixed(path, i, 9))).collect())
        },
        move |z: &Vec<f64>| -> Result<Recorded, MonteCarloError> { Ok(record(&a, z)) },
        |path: &Recorded| path.0.clone(),
        |t: f64, x: f64| -> Result<f64, MonteCarloError> { Ok((-0.00005 * t - x).exp()) },
        |_: f64, _: f64, _: f64| -> Result<f64, MonteCarloError> { Ok(1.0) },
        move |_: &Vec<f64>, spots: &Vec<AffineSpot<f64>>| -> Result<
            (f64, Vec<SpotSeed<f64>>),
            MonteCarloError,
        > {
            let last = spots[3].post;
            let mut seeds = vec![SpotSeed { post: 0.0, pre: 0.0 }; 4];
            seeds[1] = SpotSeed { post: 0.3 * df, pre: 0.2 * df };
            seeds[3].post = df * last / 50.0;
            Ok(
                (
                    df * (0.3 * spots[1].post + 0.2 * spots[1].pre.unwrap() + last * last / 100.0),
                    seeds,
                ),
            )
        },
        |_: &Vec<f64>, _: &Vec<f64>| -> Result<
            Vec<AffineSpot<f64>>,
            MonteCarloError,
        > { unreachable!() },
        || -> Option<()> { None },
        |_: &Vec<f64>| -> Result<(), MonteCarloError> { unreachable!() },
        |_: &()| -> Vec<f64> { unreachable!() },
        |_: &()| -> Vec<usize> { unreachable!() },
        |_: &(), _: usize, _: f64, _: f64| -> Result<
            AffineSpot<f64>,
            MonteCarloError,
        > { unreachable!() },
        |_: &(),
         _: usize,
         _: f64,
         _: f64,
         _: SpotSeed<f64>,
         _: &HullWhiteDividendNodeAdjoints<f64>|
         -> Result<(f64, HullWhiteDividendNodeAdjoints<f64>), MonteCarloError> { unreachable!() },
        move |path: &Recorded, seeds: &Vec<f64>| -> Result<PathReverse<f64>, MonteCarloError> {
            let (mut spot, mut volatility, mut moved) = (0.0, 0.0, 0.0);
            for i in 0..4 {
                let weight = seeds[i] * path.0[i].normalized_equity;
                spot += weight / c.spot;
                volatility += weight * (moved - c.sigma * TIMES[i]);
                if i < 3 {
                    moved += (TIMES[i + 1] - TIMES[i]).sqrt() * path.1[i];
                }
            }
            Ok(PathReverse {
                initial_spot: spot,
                bs_volatility: Some(volatility),
                dividends: None,
                squared_leverage: vec![],
            })
        },
        |_: &(), _: &Vec<HullWhiteDividendNodeAdjoints<f64>>| -> Result<
            MarketAdjoints<f64>,
            MonteCarloError,
        > {
            unreachable!()
        },
        |_: &Vec<f64>| -> Result<LeverageReverse<f64>, MonteCarloError> { unreachable!() },
        |_: &Vec<f64>, _: &Vec<f64>| -> Result<Vec<f64>, MonteCarloError> { unreachable!() },
    )
}

fn engine(quasi: bool) -> EngineConfig {
    let variance_reduction = VarianceReduction { antithetic: true, brownian_bridge: quasi };
    if quasi {
        EngineConfig::RandomizedQuasiMonteCarlo(RandomizedQuasiMonteCarlo {
            points_per_scramble: 4,
            scramble_count: 3,
            master_seed: 5,
            variance_reduction,
        })
    } else {
        EngineConfig::PseudoMonteCarlo(PseudoMonteCarlo {
            independent_sampling_units: 8,
            master_seed: 5,
            variance_reduction,
        })
    }
}

fn plan(p: &Inputs, quasi: bool) -> HullWhiteEquityPricingPlan<f64> {
    HullWhiteEquityPricingPlan {
        engine: engine(quasi),
        executor_failure: None,
        quasi_failure: None,
        bridge_failure: None,
        time_nodes: TIMES.to_vec(),
        random_factor_count: 2,
        risky_spot: p.spot,
        payment_time: 1.0,
        risk_supported: true,
        affine_dividends: AffineDividendPlan::new(&arithmetic(), &market(p), TIMES.to_vec()).ok(),
        calibration: None,
        market_iv_target: None,
        direct_rough: false,
        fingerprint: Fingerprint { bytes: [6; 32] },
        scheme: "scheme",
        calibration_method: None,
        calibration_seed: None,
        cash_dividend_model: Some("affine-paid-cash-realized-carry-v1"),
        aad_method: "method",
        market_iv_interpolation: "none",
    }
}

fn moved(label: &str, h: f64) -> Inputs {
    let mut p = base();
    match label {
        "spot" => p.spot += h,
        "bs_volatility" => p.sigma += h,
        "discount_log_df[1]" => p.discount[1] += h,
        "discount_log_df[2]" => p.discount[2] += h,
        "discount_log_df[3]" => p.discount[3] += h,
        "dividend_log_df[1]" => p.dividend[1] += h,
        "dividend_log_df[2]" => p.dividend[2] += h,
        "dividend_log_df[3]" => p.dividend[3] += h,
        _ => panic!("{label}"),
    }
    p
}

#[test]
fn equity_and_rate_risk_matches_moved_inputs() {
    let (m, b) = (arithmetic(), backend());
    for quasi in [false, true] {
        let at = |p: &Inputs| plan(p, quasi).evaluate_aad(
            &m,
            &b,
            &world(p),
            &market(p),
        ).ok().unwrap();
        let risk = at(&base());
        assert_eq!(risk.parameter_labels.len(), 10);
        assert_eq!(risk.standard_errors.is_some(), quasi);
        assert_eq!(risk.price.evaluated_paths, if quasi { 24 } else { 16 });
        for (label, derivative) in risk.parameter_labels.iter().zip(&risk.derivatives) {
            let name = label.text();
            if name.ends_with("log_df[0]") {
                assert_eq!(*derivative, 0.0);
                continue;
            }
            let h = 1e-5;
            let fd = (
                at(&moved(&name, h)).price.value - at(&moved(&name, -h)).price.value
            ) / (2.0 * h);
            assert!(
                (fd - derivative).abs() < 1e-5 * (1.0 + fd.abs()),
                "{name}: {derivative} != {fd}",
            );
        }
        assert_eq!(risk.delta(), risk.derivatives[0]);
        assert_eq!(risk.discount_log_df_adjoints(), risk.derivatives[2..6]);
        assert_eq!(risk.dividend_log_df_adjoints(), risk.derivatives[6..10]);
    }
}

#[test]
fn equity_and_rate_risk_needs_derivatives_and_an_executor() {
    let (m, b) = (arithmetic(), backend());
    let p = base();
    let evaluate = |plan: HullWhiteEquityPricingPlan<f64>| {
        plan.evaluate_aad(&m, &b, &world(&p), &market(&p)).map(|_| ())
    };
    let mut rigid = plan(&p, false);
    rigid.risk_supported = false;
    assert!(matches!(evaluate(rigid), Err(MonteCarloError::UnsupportedRiskForModel { .. })));
    let mut broken = plan(&p, false);
    broken.executor_failure = Some(MonteCarloError::Component { code: 3 });
    assert_eq!(evaluate(broken), Err(MonteCarloError::Component { code: 3 }));
    let mut quasi = plan(&p, true);
    quasi.quasi_failure = Some(MonteCarloError::RqmcPlan);
    assert_eq!(evaluate(quasi), Err(MonteCarloError::RqmcPlan));
}
