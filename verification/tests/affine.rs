//! Dividends that are paid in cash, on paths of a normalised equity.

use pricing::affine::{AffineDividendPlan, AffineSpot, HybridState};
use pricing::errors::{HullWhiteError, MonteCarloError};
use pricing::paid_market::{PaidDividend, PaidMarket, SuppliedPaidMarket};
use pricing::reverse::SpotSeed;
use pricing::scalar::{Arithmetic, Elementary, Math};

fn apply(f: Elementary, x: f64) -> f64 {
    match f {
        Elementary::Exp => x.exp(),
        Elementary::ExpM1 => x.exp_m1(),
        Elementary::Ln => x.ln(),
        Elementary::Ln1p => x.ln_1p(),
        Elementary::Sqrt => x.sqrt(),
        Elementary::Abs => x.abs(),
    }
}

fn arithmetic() -> impl Math<f64> {
    Arithmetic::new(
        apply,
        |x: f64, y: f64| x.powf(y),
        |x: f64| x.is_finite(),
        |n: u64| n as f64,
        |x: f64, y: f64| x.total_cmp(&y).is_lt(),
    )
}

const TIMES: [f64; 5] = [0.0, 0.25, 0.5, 1.0, 2.0];

/// Adds a seed of a curve whose logarithm is linear between its pillars; the first
/// pillar is fixed.
fn transpose(time: f64, seed: f64, out: &Vec<f64>) -> Result<Vec<f64>, MonteCarloError> {
    let mut out = out.clone();
    let mut i = 1;
    while i < TIMES.len() - 1 && TIMES[i] < time {
        i += 1;
    }
    let right = (time - TIMES[i - 1]) / (TIMES[i] - TIMES[i - 1]);
    out[i] += seed * right;
    if i > 1 {
        out[i - 1] += seed * (1.0 - right);
    }
    Ok(out)
}

/// The variance of the integral of a rate that reverts at a speed of 0.1.
fn variance(sigma: f64, t: f64) -> f64 {
    let a = 0.1;
    sigma * sigma * (
        t + 2.0 * (-a * t).exp_m1() / a - (-2.0 * a * t).exp_m1() / (2.0 * a)
    ) / (a * a)
}

fn relative_discount(sigma: f64, t: f64, integrated: f64) -> f64 {
    (-0.5 * variance(sigma, t) - integrated).exp()
}

fn market(cash: &[(f64, f64, f64)], r: f64, q: f64, sigma: f64) -> impl PaidMarket<f64> {
    let schedule: Vec<PaidDividend<f64>> = cash
        .iter()
        .map(|&(ex_time, fixed_cash, beta)| PaidDividend { ex_time, fixed_cash, beta })
        .collect();
    SuppliedPaidMarket::new(
        move || schedule.clone(),
        move |t: f64| -> Result<f64, MonteCarloError> { Ok(-r * t) },
        move |t: f64| -> Result<f64, MonteCarloError> { Ok(-q * t) },
        move |from: f64, to: f64| -> Result<f64, MonteCarloError> {
            Ok(0.5 * (variance(sigma, to) - variance(sigma, from)))
        },
        || TIMES.to_vec(),
        || TIMES.to_vec(),
        transpose,
        transpose,
    )
}

fn states() -> Vec<HybridState<f64>> {
    [0.0, 0.004, -0.002, 0.007]
        .iter()
        .enumerate()
        .map(|(i, &integrated)| HybridState {
            normalized_equity: 100.0 + 2.0 * i as f64,
            rate_factor: 0.01,
            integrated_rate_factor: integrated,
        })
        .collect()
}

#[test]
fn deterministic_rate_limit_matches_common_forward_and_event_order() {
    let m = arithmetic();
    let schedule = [(0.0, 2.0, 0.02), (0.5, 4.0, 0.1), (1.0, 1.0, 0.03)];
    let times = [0.0, 0.25, 0.5, 1.0];
    let plan = AffineDividendPlan::new(
        &m,
        &market(&schedule, 0.05, 0.02, 0.0),
        times.to_vec(),
    ).unwrap();
    let state = HybridState {
        normalized_equity: 100.0,
        rate_factor: 0.0,
        integrated_rate_factor: 0.0,
    };
    let path = plan.record(&m, &vec![state; times.len()]).unwrap();
    let mut forward: f64 = 100.0;
    let mut before = 0.0;
    for (i, &t) in times.iter().enumerate() {
        forward *= (0.03_f64 * (t - before)).exp();
        before = t;
        if let Some(&(_, cash, beta)) = schedule.iter().find(|e| e.0 == t) {
            forward = (1.0 - beta) * forward - cash;
        }
        let expected = forward;
        assert!((path.spots[i].post - expected).abs() < 1e-12);
        if let Some(d) = plan.events[i] {
            let pre = path.spots[i].pre.unwrap();
            assert!((path.spots[i].post - ((1.0 - d.beta) * pre - d.fixed_cash)).abs() < 1e-12);
        }
    }
}

#[test]
fn zero_equity_vol_discounted_gains_are_pathwise_constant() {
    let m = arithmetic();
    let schedule = [(0.0, 2.0, 0.02), (0.5, 4.0, 0.1), (1.0, 1.0, 0.03)];
    let times = [0.0, 0.25, 0.5, 1.0];
    let plan = AffineDividendPlan::new(
        &m,
        &market(&schedule, 0.05, 0.0, 0.03),
        times.to_vec(),
    ).unwrap();
    let mut states = states();
    for (state, &t) in states.iter_mut().zip(&times) {
        state.normalized_equity = 100.0 / relative_discount(0.03, t, state.integrated_rate_factor);
    }
    let path = plan.record(&m, &states).unwrap();
    let mut dividends = 0.0;
    for (i, &t) in times.iter().enumerate() {
        let df = (-0.05 * t).exp() * relative_discount(0.03, t, states[i].integrated_rate_factor);
        if let Some(d) = plan.events[i] {
            dividends += df * (d.fixed_cash + d.beta * path.spots[i].pre.unwrap());
        }
        assert!((df * path.spots[i].post + dividends - 100.0).abs() < 2e-12);
    }
}

#[test]
fn observation_reverse_matches_curve_and_state_finite_differences() {
    let m = arithmetic();
    let schedule = [(0.0, 2.0, 0.02), (0.5, 4.0, 0.1), (1.0, 1.0, 0.03)];
    let times = [0.0, 0.25, 0.5, 1.0];
    let c = market(&schedule, 0.05, 0.02, 0.03);
    let plan = AffineDividendPlan::new(&m, &c, times.to_vec()).unwrap();
    let states = states();
    let path = plan.record(&m, &states).unwrap();
    let seeds: Vec<SpotSeed<f64>> = [(0.3, 0.2), (0.1, 0.0), (0.4, 0.3), (0.7, 0.6)]
        .iter()
        .map(|&(post, pre)| SpotSeed { post, pre })
        .collect();
    let objective = |p: &AffineDividendPlan<f64>, s: &Vec<HybridState<f64>>| {
        p.record(&m, s)
            .unwrap()
            .spots
            .iter()
            .zip(&seeds)
            .map(|(spot, seed)| seed.post * spot.post + seed.pre * spot.pre.unwrap_or(0.0))
            .sum::<f64>()
    };
    let adj = plan.reverse(&m, &c, &path, &states, &seeds, 1.0).unwrap();
    let h = 1e-5;
    for i in 0..states.len() {
        let mut up = states.clone();
        let mut down = states.clone();
        up[i].normalized_equity += h;
        down[i].normalized_equity -= h;
        let fd = (objective(&plan, &up) - objective(&plan, &down)) / (2.0 * h);
        assert!((fd - adj.equity[i]).abs() < 1e-8);
    }
    for discount in [true, false] {
        let bump = |amount: f64| {
            let c = market(
                &schedule,
                0.05 + if discount { amount } else { 0.0 },
                0.02 + if discount { 0.0 } else { amount },
                0.03,
            );
            let p = AffineDividendPlan::new(&m, &c, times.to_vec()).unwrap();
            objective(&p, &states)
        };
        let fd = (bump(h) - bump(-h)) / (2.0 * h);
        let bars = if discount { &adj.discount_log_df } else { &adj.dividend_log_df };
        let expected: f64 = bars.iter().zip(&TIMES).map(|(bar, t)| -t * bar).sum();
        assert!((fd - expected).abs() < 1e-7, "{fd} != {expected}");
        assert_eq!(bars[0], 0.0);
    }
}

#[test]
fn future_dividends_do_not_create_a_reserve_or_affect_paths() {
    let m = arithmetic();
    let times = vec![0.0, 0.25, 0.5, 1.0];
    let a = market(&[(0.5, 4.0, 0.1)], 0.05, 0.02, 0.03);
    let b = market(&[(0.5, 4.0, 0.1), (2.0, 1000.0, 0.2)], 0.05, 0.02, 0.03);
    let a = AffineDividendPlan::new(&m, &a, times.clone()).unwrap();
    let b = AffineDividendPlan::new(&m, &b, times).unwrap();
    assert_eq!(a.record(&m, &states()).unwrap().spots, b.record(&m, &states()).unwrap().spots);
}

#[test]
fn missing_events_and_nonpositive_spots_are_rejected() {
    let m = arithmetic();
    let c = market(&[(0.5, 200.0, 0.0)], 0.05, 0.02, 0.02);
    assert!(AffineDividendPlan::new(&m, &c, vec![0.0, 1.0]).is_err());
    let plan = AffineDividendPlan::new(&m, &c, vec![0.0, 0.25, 0.5, 1.0]).unwrap();
    assert!(matches!(
        plan.record(&m, &states()),
        Err(MonteCarloError::HullWhite(HullWhiteError::NonPositiveState { step: 2 }))
    ));
}

fn refused<T>(r: Result<T, MonteCarloError>) -> (&'static str, usize) {
    match r {
        Err(MonteCarloError::HullWhite(HullWhiteError::InvalidInput {
            field,
            index,
        })) => (field, index),
        _ => panic!("not refused"),
    }
}

#[test]
fn each_misshapen_input_is_named() {
    let m = arithmetic();
    let c = market(&[(0.5, 4.0, 0.1)], 0.05, 0.02, 0.03);
    let plan = |grid: Vec<f64>| AffineDividendPlan::new(&m, &c, grid);
    assert_eq!(refused(plan(vec![0.0])), ("affine_dividend_time_grid", 0));
    assert_eq!(refused(plan(vec![0.25, 0.5])), ("affine_dividend_time_grid", 0));
    assert_eq!(refused(plan(vec![0.0, 0.5, 0.5])), ("affine_dividend_time_order", 2));
    assert_eq!(refused(plan(vec![0.0, 1.0])), ("missing_affine_dividend_time", 0));
    let whole = market(&[(0.5, 4.0, 1.0)], 0.05, 0.02, 0.03);
    assert_eq!(
        refused(AffineDividendPlan::new(&m, &whole, vec![0.0, 0.5])),
        ("affine_dividend_scale", 1)
    );
    let p = plan(vec![0.0, 0.25, 0.5, 1.0]).unwrap();
    assert_eq!(refused(p.record(&m, &states()[..3].to_vec())), ("affine_dividend_state_shape", 0));
    let path = p.record(&m, &states()).unwrap();
    let quiet = SpotSeed { post: 0.0, pre: 0.0 };
    let reverse = |seeds: Vec<SpotSeed<f64>>, multiplier: f64| {
        refused(p.reverse(&m, &c, &path, &states(), &seeds, multiplier))
    };
    assert_eq!(reverse(vec![quiet; 3], 1.0), ("affine_dividend_adjoint_shape", 0));
    assert_eq!(reverse(vec![quiet; 4], f64::NAN), ("affine_dividend_adjoint_multiplier", 0));
    let mut odd = vec![quiet; 4];
    odd[1].pre = 1.0;
    assert_eq!(reverse(odd, 1.0), ("unexpected_pre_dividend_adjoint", 1));
    let mut large = vec![quiet; 4];
    large[3].post = f64::INFINITY;
    assert_eq!(reverse(large, 1.0), ("affine_dividend_adjoint_value", 3));
}

#[test]
fn recorded_spots_are_positive_on_both_sides_of_a_dividend() {
    let m = arithmetic();
    let c = market(&[(0.5, 4.0, 0.1)], 0.05, 0.02, 0.03);
    let p = AffineDividendPlan::new(&m, &c, vec![0.0, 0.25, 0.5, 1.0]).unwrap();
    let path = p.record(&m, &states()).unwrap();
    assert_eq!(path.spots[0], AffineSpot { post: 100.0, pre: None });
    for (i, spot) in path.spots.iter().enumerate() {
        assert!(spot.post > 0.0);
        assert_eq!(spot.pre.is_some(), i == 2);
        assert!(spot.pre.unwrap_or(1.0) > 0.0);
    }
    let left = p.scale(&m, 2, true) * 0.9;
    assert!((left - p.scale(&m, 2, false)).abs() < 1e-15);
}

/// A plan, its states, seeds and adjoints at a multiplier.
fn reversed(multiplier: f64) -> (Vec<f64>, Vec<f64>, Vec<f64>) {
    let m = arithmetic();
    let c = market(&[(0.0, 2.0, 0.02), (0.5, 4.0, 0.1)], 0.05, 0.02, 0.03);
    let p = AffineDividendPlan::new(&m, &c, vec![0.0, 0.25, 0.5, 1.0]).unwrap();
    let path = p.record(&m, &states()).unwrap();
    let seeds: Vec<SpotSeed<f64>> = [(0.3, 0.2), (0.1, 0.0), (0.4, 0.3), (0.7, 0.0)]
        .iter()
        .map(|&(post, pre)| SpotSeed { post, pre })
        .collect();
    let a = p.reverse(&m, &c, &path, &states(), &seeds, multiplier).unwrap();
    (a.equity, a.discount_log_df, a.dividend_log_df)
}

#[test]
fn adjoints_are_proportional_to_the_multiplier() {
    let times = |v: &Vec<f64>, k: f64| v.iter().map(|x| x * k).collect::<Vec<f64>>();
    let (equity, discount, dividend) = reversed(1.0);
    assert!(equity[0] > 0.0 && discount[1] != 0.0 && dividend[1] != 0.0);
    for k in [2.0, 0.5, -4.0] {
        let scaled = reversed(k);
        assert_eq!(scaled, (times(&equity, k), times(&discount, k), times(&dividend, k)));
    }
}

#[test]
fn adjoints_weigh_any_move_as_the_seeds_weigh_the_spots() {
    let m = arithmetic();
    let (equity, discount, dividend) = reversed(3.0);
    let seeds = [(0.3, 0.2), (0.1, 0.0), (0.4, 0.3), (0.7, 0.0)];
    let ways = [0.7, -1.1, 0.4, 0.9];
    let weighed = |h: f64| {
        let c = market(&[(0.0, 2.0, 0.02), (0.5, 4.0, 0.1)], 0.05 + 0.8 * h, 0.02 - 0.3 * h, 0.03);
        let p = AffineDividendPlan::new(&m, &c, vec![0.0, 0.25, 0.5, 1.0]).unwrap();
        let mut moved = states();
        for (state, way) in moved.iter_mut().zip(ways) {
            state.normalized_equity += h * way;
        }
        let path = p.record(&m, &moved).unwrap();
        path.spots
            .iter()
            .zip(seeds)
            .map(|(spot, (post, pre))| 3.0 * (post * spot.post + pre * spot.pre.unwrap_or(0.0)))
            .sum::<f64>()
    };
    let fd = (weighed(1e-5) - weighed(-1e-5)) / 2e-5;
    let curves: f64 = (0..5).map(|j| TIMES[j] * (0.3 * dividend[j] - 0.8 * discount[j])).sum();
    let moved: f64 = equity.iter().zip(ways).map(|(a, way)| a * way).sum::<f64>() + curves;
    assert!((fd - moved).abs() < 1e-6, "{fd} {moved}");
}

#[test]
fn equity_adjoints_are_the_seeds_times_the_scales() {
    let m = arithmetic();
    let c = market(&[(0.0, 2.0, 0.02), (0.5, 4.0, 0.1)], 0.05, 0.02, 0.03);
    let p = AffineDividendPlan::new(&m, &c, vec![0.0, 0.25, 0.5, 1.0]).unwrap();
    let (equity, discount, dividend) = reversed(1.5);
    assert_eq!(equity[1], 0.1 * 1.5 * p.scale(&m, 1, false));
    assert_eq!(equity[2], (0.4 + 0.3 / (1.0 - 0.1)) * 1.5 * p.scale(&m, 2, false));
    // The pillar at the valuation does not move.
    assert_eq!((discount[0], dividend[0]), (0.0, 0.0));
}
