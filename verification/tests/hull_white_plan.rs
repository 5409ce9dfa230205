//! Plans with stochastic dividends and rates, and their first-order risk.

use pricing::affine::AffineSpot;
use pricing::backend::SuppliedBackend;
use pricing::compile_world::{CompileWorld, PlanRequest, SuppliedCompileWorld};
use pricing::dynamics::{
    DividendDynamics, KernelNumerics, SuppliedDividendDynamics, SuppliedKernelNumerics,
};
use pricing::engine::{
    EngineConfig, PseudoMonteCarlo, RandomizedQuasiMonteCarlo, VarianceReduction,
};
use pricing::errors::{MonteCarloError, StochasticDividendError};
use pricing::hw_path::StochasticDividendHullWhiteState;
use pricing::hw_plan::StochasticDividendHullWhitePricingPlan;
use pricing::models::{
    Bergomi2Factor, BuehlerDividendModel, BuehlerDividendState, Fingerprint, Pair, RoughBergomi,
};
use pricing::rate_market::{MixedEvent, RateMarket, SuppliedRateMarket};
use pricing::rates::{b, HullWhite1Factor};
use pricing::reverse::{Label, SpotSeed};
use pricing::sampling::{Backend, Statistics};
use pricing::scalar::{Arithmetic, Elementary, Math};
use pricing::spot_payoff::{SpotPayoff, SuppliedSpotPayoff};

fn apply(f: Elementary, x: f64) -> f64 {
    match f {
        Elementary::Exp => x.exp(),
        Elementary::ExpM1 => x.exp_m1(),
        Elementary::Ln => x.ln(),
        Elementary::Ln1p => x.ln_1p(),
        Elementary::Sqrt => x.sqrt(),
        Elementary::Abs => x.abs(),
    }
}

fn arithmetic() -> impl Math<f64> {
    Arithmetic::new(
        apply,
        |x: f64, y: f64| x.powf(y),
        |x: f64| x.is_finite(),
        |n: u64| n as f64,
        |x: f64, y: f64| x.total_cmp(&y).is_lt(),
    )
}

/// A uniform in the open unit interval, by mixing the bits of its place.
fn mixed(a: u64, b: u64, c: u64) -> f64 {
    let mut x = a
        .wrapping_mul(0x9e37_79b9_7f4a_7c15)
        .wrapping_add(b.wrapping_mul(0xbf58_476d_1ce4_e5b9))
        .wrapping_add(c.wrapping_mul(0x94d0_49bb_1331_11eb));
    x = (x ^ (x >> 30)).wrapping_mul(0xbf58_476d_1ce4_e5b9);
    x = (x ^ (x >> 27)).wrapping_mul(0x94d0_49bb_1331_11eb);
    ((x ^ (x >> 31)) >> 11) as f64 / (1u64 << 53) as f64 + 2.0_f64.powi(-54)
}

/// Close to the inverse of the normal distribution function.
fn inverse(u: f64) -> f64 {
    (u / (1.0 - u)).ln() / 1.702
}

fn statistics(v: &Vec<f64>) -> Statistics<f64> {
    let total: f64 = v.iter().sum();
    let mean = total / v.len() as f64;
    let squares: f64 = v.iter().map(|x| (x - mean) * (x - mean)).sum();
    let sample_variance = if v.len() > 1 { Some(squares / (v.len() - 1) as f64) } else { None };
    Statistics { total, sample_variance }
}

fn backend() -> impl Backend<f64> {
    SuppliedBackend::new(
        |path: u64, dimension: u32| inverse(mixed(path, dimension as u64, 7)),
        |scramble: u32, point: u64, dimension: u32| Some(
            mixed(point, dimension as u64, 100 + scramble as u64),
        ),
        |u: f64| Some(inverse(u)),
        |draws: &Vec<f64>| -> Result<Vec<f64>, MonteCarloError> {
            // The draws in reverse order, as a bridge that is easily told apart.
            Ok(draws.iter().rev().cloned().collect())
        },
        |v: &Vec<f64>| statistics(v),
        |v: &Vec<f64>| statistics(v),
    )
}

/// The average of `exp(-x u)` over the unit interval.
fn phi(x: f64) -> f64 {
    if x == 0.0 {
        1.0
    } else {
        -(-x).exp_m1() / x
    }
}

fn kernel_correlation(a: f64, b: f64) -> Option<f64> {
    if a == b {
        Some(1.0)
    } else {
        Some(phi(a + b) / (phi(2.0 * a) * phi(2.0 * b)).sqrt())
    }
}

fn cholesky(c: &Vec<f64>, n: usize) -> Option<Vec<f64>> {
    let mut l = vec![0.0; n * n];
    for i in 0..n {
        for j in 0..=i {
            let mut x = c[i * n + j];
            for k in 0..j {
                x -= l[i * n + k] * l[j * n + k];
            }
            if i == j {
                if x < -1e-12 {
                    return None;
                }
                l[i * n + i] = x.max(0.0).sqrt();
            } else if l[j * n + j] > 0.0 {
                l[i * n + j] = x / l[j * n + j];
            }
        }
    }
    Some(l)
}

fn pivots(c: &Vec<f64>, n: usize) -> Vec<f64> {
    let l = cholesky(c, n).unwrap();
    (0..n).map(|i| l[i * n + i] * l[i * n + i]).collect()
}

fn transition(speed: f64, time: f64) -> Option<Pair<f64>> {
    Some(Pair { first: (-speed * time).exp(), second: time * phi(2.0 * speed * time) })
}

fn normalized_weights(f: Bergomi2Factor<f64>) -> Pair<f64> {
    let (a, b) = (1.0 - f.mixing_weight, f.mixing_weight);
    let norm = (a * a + b * b + 2.0 * a * b * f.factor_correlation).sqrt();
    Pair { first: a / norm, second: b / norm }
}

fn numerics() -> impl KernelNumerics<f64> {
    SuppliedKernelNumerics::new(
        kernel_correlation,
        cholesky,
        pivots,
        |_: RoughBergomi<f64>, _: &Vec<f64>| -> Option<Vec<f64>> { None },
        |_: RoughBergomi<f64>, _: &Vec<f64>, _: usize| -> Vec<f64> { vec![] },
        transition,
        |_: &(), _: &Vec<f64>| -> bool { true },
        |_: &()| -> f64 { 1.0 },
        |_: &(), _: f64, _: f64| -> Option<f64> { Some(1.0) },
        normalized_weights,
    )
}

/// Equity moves between two halves of the reversion of the dividends.
fn dynamics() -> impl DividendDynamics<f64> {
    let decay = |k: f64, t: f64| Pair { first: (-k * t).exp(), second: -(-k * t).exp_m1() };
    let blend = |w: Pair<f64>, x: f64, y: f64| w.first * x + w.second * y;
    let target = |d: BuehlerDividendModel<f64>, f: f64| d.equity_linkage * f + 1.0
        - d.equity_linkage;
    SuppliedDividendDynamics::new(
        decay,
        blend,
        target,
        move |d: BuehlerDividendModel<f64>,
              s: BuehlerDividendState<f64>,
              sigma: f64,
              dt: f64,
              z: Pair<f64>|
              -> Result<BuehlerDividendState<f64>, MonteCarloError> {
            let w = decay(d.mean_reversion, 0.5 * dt);
            let half = blend(w, s.dividend, target(d, s.equity));
            let rho = d.equity_dividend_correlation;
            let e = rho * z.first + ((1.0 - rho) * (1.0 + rho)).sqrt() * z.second;
            let (u, v) = (sigma * dt.sqrt(), d.dividend_volatility * dt.sqrt());
            let equity = s.equity * (-0.5 * u * u + u * z.first).exp();
            let dividend = blend(w, half * (-0.5 * v * v + v * e).exp(), target(d, equity));
            Ok(BuehlerDividendState { equity, dividend })
        },
    )
}

const PILLARS: [f64; 4] = [0.0, 0.5, 1.0, 2.0];
const KNOTS: [f64; 2] = [0.0, 0.6];
const EXPIRY: f64 = 1.0;
const PAYMENT: f64 = 1.1;

#[derive(Clone)]
struct Inputs {
    spot: f64,
    sigma: f64,
    reversion: f64,
    linkage: f64,
    volatility: f64,
    correlations: [f64; 3],
    cash: [f64; 3],
    discount: [f64; 4],
    repo: [f64; 4],
    rate_reversion: f64,
    rate_volatilities: [f64; 2],
}

fn base() -> Inputs {
    Inputs {
        spot: 100.0,
        sigma: 0.25,
        reversion: 0.7,
        linkage: 0.6,
        volatility: 0.35,
        correlations: [-0.25, 0.2, -0.15],
        cash: [3.0, 2.0, 4.0],
        discount: [0.0, -0.02, -0.05, -0.09],
        repo: [0.0, -0.004, -0.01, -0.015],
        rate_reversion: 0.4,
        rate_volatilities: [0.02, 0.03],
    }
}

fn interpolate(log_df: &[f64; 4], t: f64) -> f64 {
    let mut i = 1;
    while i < 3 && PILLARS[i] < t {
        i += 1;
    }
    let w = (t - PILLARS[i - 1]) / (PILLARS[i] - PILLARS[i - 1]);
    (1.0 - w) * log_df[i - 1] + w * log_df[i]
}

fn transpose(t: f64, seed: f64, out: &Vec<f64>) -> Result<Vec<f64>, MonteCarloError> {
    let mut out = out.clone();
    let mut i = 1;
    while i < 3 && PILLARS[i] < t {
        i += 1;
    }
    let w = (t - PILLARS[i - 1]) / (PILLARS[i] - PILLARS[i - 1]);
    if i > 1 {
        out[i - 1] += (1.0 - w) * seed;
    }
    out[i] += w * seed;
    Ok(out)
}

/// The integral of a squared duration.
fn squared(a: f64, t: f64) -> f64 {
    (t + 2.0 * (-a * t).exp_m1() / a - (-2.0 * a * t).exp_m1() / (2.0 * a)) / (a * a)
}

/// The variance that the rate between two times gives its integral up to the second.
fn variance(p: &Inputs, from: f64, to: f64) -> f64 {
    let ends = [KNOTS[1], f64::INFINITY];
    (0..2)
        .map(|i| {
            let (lo, hi) = (KNOTS[i].max(from), ends[i].min(to));
            let v = p.rate_volatilities[i];
            if lo < hi {
                v * v * (squared(p.rate_reversion, to - lo) - squared(p.rate_reversion, to - hi))
            } else {
                0.0
            }
        })
        .sum()
}

/// The logarithm of a bond without its rate factor, relative to the curve.
fn convexity(p: &Inputs, from: f64, to: f64) -> f64 {
    0.5 * (variance(p, from, to) - variance(p, 0.0, to) + variance(p, 0.0, from))
}

fn market(p: &Inputs) -> impl RateMarket<f64> {
    let (a, c, d, e, f, g) = (p.clone(), p.clone(), p.clone(), p.clone(), p.clone(), p.clone());
    SuppliedRateMarket::new(
        move || a.spot,
        move || -> Vec<MixedEvent<f64>> {
            [0.4, 0.8, 1.5]
                .iter()
                .zip(&c.cash)
                .enumerate()
                .map(|(i, (&ex_time, &fixed_cash))| MixedEvent {
                    event: 10 + i as u64,
                    ex_time,
                    fixed_cash,
                    beta: 0.0,
                })
                .collect()
        },
        move |t: f64| -> Result<f64, MonteCarloError> { Ok(interpolate(&d.discount, t).exp()) },
        move |t: f64| -> Result<f64, MonteCarloError> { Ok(interpolate(&e.repo, t).exp()) },
        move |_: &HullWhite1Factor<f64>, t: f64, s: f64| -> Result<f64, MonteCarloError> {
            Ok(
                (
                    interpolate(&f.discount, s) - interpolate(&f.discount, t) + convexity(&f, t, s)
                ).exp(),
            )
        },
        move |_: &HullWhite1Factor<f64>, t: f64| -> Result<f64, MonteCarloError> {
            Ok(variance(&g, 0.0, t))
        },
        || PILLARS.to_vec(),
        || PILLARS.to_vec(),
        transpose,
        transpose,
    )
}

fn world(p: &Inputs) -> impl CompileWorld<f64> {
    let (c, d) = (p.clone(), p.clone());
    SuppliedCompileWorld::new(
        || -> Result<Vec<f64>, MonteCarloError> { Ok(vec![0.5]) },
        || Fingerprint { bytes: [2; 32] },
        |required: &Vec<f64>, _: f64| -> Result<Vec<f64>, MonteCarloError> {
            let mut grid = required.clone();
            grid.push(0.0);
            grid.sort_by(|x, y| x.total_cmp(y));
            grid.dedup();
            Ok(grid)
        },
        || None,
        |_: u32| -> Option<MonteCarloError> { None },
        |_: &Vec<f64>| -> Option<MonteCarloError> { None },
        move |_: &HullWhite1Factor<f64>, t: f64, x: f64| -> Result<f64, MonteCarloError> { Ok(
            (-0.5 * variance(&c, 0.0, t) - x).exp(),
        ) },
        move |_: &HullWhite1Factor<f64>, t: f64, s: f64, x: f64| -> Result<f64, MonteCarloError> {
            Ok((convexity(&d, t, s) - b(&arithmetic(), d.rate_reversion, s - t) * x).exp())
        },
        |x: f64| x.to_bits(),
    )
}

/// A smooth payoff of the spots on both sides of a dividend and at the expiry.
fn product(p: &Inputs) -> impl SpotPayoff<f64> {
    let df = interpolate(&p.discount, PAYMENT).exp();
    SuppliedSpotPayoff::new(
        move |grid: &Vec<f64>, spots: &Vec<AffineSpot<f64>>| -> Result<f64, MonteCarloError> {
            let i = grid.iter().position(|&t| t == 0.4).unwrap();
            let last = spots[spots.len() - 1].post;
            Ok(df * (0.3 * spots[i].post + 0.2 * spots[i].pre.unwrap() + last * last / 100.0))
        },
        move |grid: &Vec<f64>, spots: &Vec<AffineSpot<f64>>| -> Result<
            (f64, Vec<SpotSeed<f64>>),
            MonteCarloError,
        > {
            let i = grid.iter().position(|&t| t == 0.4).unwrap();
            let n = spots.len() - 1;
            let last = spots[n].post;
            let mut seeds = vec![SpotSeed { post: 0.0, pre: 0.0 }; n + 1];
            seeds[i] = SpotSeed { post: 0.3 * df, pre: 0.2 * df };
            seeds[n].post = df * last / 50.0;
            Ok(
                (
                    df * (0.3 * spots[i].post + 0.2 * spots[i].pre.unwrap() + last * last / 100.0),
                    seeds,
                ),
            )
        },
    )
}

fn engine(quasi: bool) -> EngineConfig {
    let variance_reduction = VarianceReduction { antithetic: true, brownian_bridge: quasi };
    if quasi {
        EngineConfig::RandomizedQuasiMonteCarlo(RandomizedQuasiMonteCarlo {
            points_per_scramble: 4,
            scramble_count: 3,
            master_seed: 5,
            variance_reduction,
        })
    } else {
        EngineConfig::PseudoMonteCarlo(PseudoMonteCarlo {
            independent_sampling_units: 8,
            master_seed: 5,
            variance_reduction,
        })
    }
}

fn request(p: &Inputs, quasi: bool) -> PlanRequest<f64> {
    PlanRequest {
        delta: false,
        gamma: false,
        vega: false,
        vega_kt: false,
        volatility: Some(p.sigma),
        expiry: EXPIRY,
        payment: PAYMENT,
        engine: engine(quasi),
        pathwise: true,
        smoothed: false,
    }
}

fn compile(p: &Inputs, q: PlanRequest<f64>) -> Result<
    StochasticDividendHullWhitePricingPlan<f64>,
    MonteCarloError,
> {
    let m = arithmetic();
    let rates = HullWhite1Factor::new(
        &m,
        p.rate_reversion,
        KNOTS.to_vec(),
        p.rate_volatilities.to_vec(),
    )?;
    let dividends = BuehlerDividendModel {
        mean_reversion: p.reversion,
        equity_linkage: p.linkage,
        dividend_volatility: p.volatility,
        equity_dividend_correlation: p.correlations[0],
    };
    let (w, c) = (world(p), market(p));
    StochasticDividendHullWhitePricingPlan::compile_bs(
        &m, &w, &c, q, dividends, rates, p.correlations[1], p.correlations[2], 0.5,
    )
}

fn value(p: &Inputs, quasi: bool) -> f64 {
    let plan = compile(p, request(p, quasi)).ok().unwrap();
    plan.evaluate(&arithmetic(), &backend(), &dynamics(), &product(p)).unwrap().value
}

/// The inputs with one of them moved.
fn moved(label: &Label, h: f64) -> Inputs {
    let mut p = base();
    match *label {
        Label::Named("spot") => p.spot += h,
        Label::Named("initial_volatility") => p.sigma += h,
        Label::Named("dividend_mean_reversion") => p.reversion += h,
        Label::Named("equity_linkage") => p.linkage += h,
        Label::Named("dividend_volatility") => p.volatility += h,
        Label::Named("rate_mean_reversion") => p.rate_reversion += h,
        Label::Named("equity_dividend_correlation") => p.correlations[0] += h,
        Label::Named("equity_rate_correlation") => p.correlations[1] += h,
        Label::Named("dividend_rate_correlation") => p.correlations[2] += h,
        Label::Indexed { name: "cash_mean", index } => p.cash[index as usize - 10] += h,
        Label::Indexed { name: "discount_log_df", index } => p.discount[index as usize] += h,
        Label::Indexed { name: "repo_spread_log_df", index } => p.repo[index as usize] += h,
        Label::Indexed {
            name: "rate_volatility",
            index,
        } => p.rate_volatilities[index as usize] += h,
        _ => panic!("{}", label.text()),
    }
    p
}

#[test]
fn first_order_risk_matches_recompiled_plans() {
    let p = base();
    let (m, bk, y, o, c, w) = (
        arithmetic(),
        backend(),
        dynamics(),
        numerics(),
        market(&p),
        product(&p),
    );
    for quasi in [false, true] {
        let plan = compile(&p, request(&p, quasi)).ok().unwrap();
        let price = plan.evaluate(&m, &bk, &y, &w).unwrap();
        let basic = plan.evaluate_aad(&m, &bk, &y, &o, &c, &w).ok().unwrap();
        let rates = plan.evaluate_hull_white_aad(&m, &bk, &y, &o, &c, &w).ok().unwrap();
        let correlations = plan.evaluate_correlation_aad(&m, &bk, &y, &o, &c, &w).ok().unwrap();
        assert_eq!(basic.parameter_labels.len(), 16);
        assert_eq!(rates.parameter_labels.len(), 19);
        assert_eq!(correlations.parameter_labels.len(), 22);
        // The correlations append to the parameters of the rate.
        assert_eq!(correlations.parameter_labels[..19], rates.parameter_labels[..]);
        assert_eq!(correlations.derivatives[..19], rates.derivatives[..]);
        assert_eq!(correlations.standard_errors[..19], rates.standard_errors[..]);
        assert_eq!(correlations.price.value.to_bits(), rates.price.value.to_bits());
        for risk in [&basic, &rates, &correlations] {
            // Risk keeps the price, and wider scopes append to the narrowest.
            assert!((risk.price.value - price.value).abs() < 1e-12);
            assert_eq!(risk.parameter_labels[..16], basic.parameter_labels[..]);
            assert_eq!(risk.derivatives[..16], basic.derivatives[..]);
            for (label, derivative) in risk.parameter_labels.iter().zip(&risk.derivatives) {
                if matches!(label, Label::Indexed {
                    name: "discount_log_df" | "repo_spread_log_df",
                    index: 0,
                }) {
                    assert_eq!(*derivative, 0.0);
                    continue;
                }
                let h = 1e-5;
                let fd = (
                    value(&moved(label, h), quasi) - value(&moved(label, -h), quasi)
                ) / (2.0 * h);
                assert!(
                    (fd - derivative).abs() < 1e-5 * (1.0 + fd.abs()),
                    "{}: {derivative} != {fd}",
                    label.text()
                );
            }
        }
    }
}

#[test]
fn reserve_and_equity_make_up_the_spot() {
    let p = base();
    let m = arithmetic();
    let plan = compile(&p, request(&p, false)).ok().unwrap();
    let claims: f64 = plan.path.nodes[0]
        .claims
        .iter()
        .map(|c| c.carry_weight * c.amount * (c.equity + c.dividend + c.constant))
        .sum();
    assert!((plan.path.risky_spot + claims - p.spot).abs() < 1e-12);
    let start = StochasticDividendHullWhiteState::initial(&m);
    for c in &plan.path.nodes[0].claims {
        assert_eq!(c.value(&m, start), Ok(plan.path.initial_claims[c.index]));
    }
    assert_eq!(plan.cash_times().len(), 3);
    // The claims stay as they are when the spot moves.
    let left = |spot: f64| plan.path.risky_spot_at(&m, spot);
    assert_eq!(left(p.spot), Ok(plan.path.risky_spot));
    let apart = left(p.spot + 1.0).unwrap() - left(p.spot - 2.0).unwrap();
    assert!((apart - 3.0).abs() < 1e-12);
    assert!(left(0.0).is_err() && left(claims).is_err());
    assert_eq!(plan.time_nodes()[0], 0.0);
    assert_eq!(plan.random_factor_count(), 4);
    assert!((plan.risky_spot() - plan.path.risky_spot).abs() == 0.0);
    // At the start the spot is what was put in.
    let states = plan.path.evolve_path(
        &m,
        &dynamics(),
        &vec![0.0; plan.path.dimension as usize],
    ).ok().unwrap();
    let spot = plan.path.spots(&m, 0, states[0]).unwrap();
    assert!((spot.post - p.spot).abs() < 1e-12);
    assert_eq!(spot.pre, None);
    // A dividend is paid between the two spots of its node.
    let i = plan.time_nodes().iter().position(|&t| t == 0.4).unwrap();
    let spot = plan.path.spots(&m, i, states[i]).unwrap();
    assert!((spot.pre.unwrap() - spot.post - 3.0 * states[i].factors().dividend).abs() < 1e-12);
}

#[test]
fn later_normals_leave_earlier_states_as_they_are() {
    let p = base();
    let (m, y) = (arithmetic(), dynamics());
    let path = compile(&p, request(&p, false)).ok().unwrap().path;
    let n = path.dimension as usize;
    let z: Vec<f64> = (0..n).map(|i| ((i as f64 + 0.4) * 1.7).sin()).collect();
    let states = path.evolve_path(&m, &y, &z).ok().unwrap();
    assert_eq!(states.len(), n / 4 + 1);
    for kept in 0..n / 4 {
        let mut w = z.clone();
        w[4 * kept..].fill(0.3);
        let other = path.evolve_path(&m, &y, &w).ok().unwrap();
        assert_eq!(other[..=kept], states[..=kept]);
        assert!(other[kept + 1] != states[kept + 1]);
    }
}

#[test]
fn refused_requests_name_their_reason() {
    let p = base();
    let unsupported = |q: PlanRequest<f64>| match compile(&p, q) {
        Err(MonteCarloError::StochasticDividend(StochasticDividendError::Unsupported {
            feature,
        })) => feature,
        _ => panic!("not refused"),
    };
    let mut q = request(&p, false);
    q.delta = true;
    assert_eq!(unsupported(q), "HW stochastic-dividend Greeks; submit a price-only request");
    let mut q = request(&p, false);
    q.volatility = None;
    assert_eq!(unsupported(q), "stochastic residual volatility with stochastic-dividend HW");
    let invalid = |p: &Inputs, q: PlanRequest<f64>| match compile(p, q) {
        Err(MonteCarloError::StochasticDividend(StochasticDividendError::Invalid {
            field,
        })) => field,
        _ => panic!("not refused"),
    };
    let mut q = request(&p, false);
    q.payment = 0.9;
    assert_eq!(invalid(&p, q), "positive_horizon_and_payment");
    let mut q = request(&p, false);
    q.volatility = Some(-0.1);
    assert_eq!(invalid(&p, q), "equity_volatility");
}

#[test]
fn risk_needs_a_payoff_with_derivatives() {
    let p = base();
    let mut q = request(&p, false);
    q.pathwise = false;
    let plan = compile(&p, q).ok().unwrap();
    let (m, bk, y, o, c, w) = (
        arithmetic(),
        backend(),
        dynamics(),
        numerics(),
        market(&p),
        product(&p),
    );
    assert!(plan.evaluate(&m, &bk, &y, &w).is_ok());
    assert!(plan.evaluate_aad(&m, &bk, &y, &o, &c, &w).is_err());
}

#[test]
fn plans_of_other_inputs_have_other_fingerprints() {
    let p = base();
    let of = |p: &Inputs| compile(p, request(p, false)).ok().unwrap().plan_fingerprint();
    assert_eq!(of(&p), of(&base()));
    let mut other = base();
    other.rate_volatilities[1] = 0.031;
    assert_ne!(of(&p), of(&other));
    let mut other = base();
    other.correlations[2] = -0.16;
    assert_ne!(of(&p), of(&other));
}
