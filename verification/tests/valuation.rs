//! Prices of simulations with a constant or a local volatility.

use pricing::backend::SuppliedBackend;
use pricing::engine::{
    EngineConfig, PseudoMonteCarlo, RandomizedQuasiMonteCarlo, VarianceReduction,
};
use pricing::errors::{LsmNumericalError, MonteCarloError};
use pricing::local_vol_paths::{
    BarrierPayoff, BridgeCounts, BridgeShape, DatedAdjoint, Deposit, ExerciseCashflowSelection,
    Fixing, FixingDate, GraphPayoff, Interval, IntervalAdjoint, LocalVolPaths, Observation,
    SuppliedLocalVolPaths,
};
use pricing::models::Fingerprint;
use pricing::pathwise::{find_row, take_fixings, LocalVolPlan};
use pricing::pricing::{MonteCarloPrice, PayoffValuationKind};
use pricing::report::{Estimate, RiskMethod, SuppliedPublication};
use pricing::sampling::{Backend, Statistics};
use pricing::scalar::{Arithmetic, Elementary, Math};
use pricing::simulation::{
    Checksums, CurveRegion, EstimatorKind, ExecutionPolicies, PayoffSmoothing, Provenance,
    RandomDomain, SimulationPlan, SmileDynamics, SpotBump, DELTA,
};
use pricing::spot_paths::{
    ExercisePolicies, ExercisePolicyDetails, SpotPaths, SuppliedExercisePolicies, SuppliedSpotPaths,
};
use pricing::valuation::{
    price_monte_carlo, price_pseudo_monte_carlo, CompiledPlan, PricingRequest,
};
use pricing::vega_kt::{SuppliedVegaBuckets, VegaBuckets};

fn apply(f: Elementary, x: f64) -> f64 {
    match f {
        Elementary::Exp => x.exp(),
        Elementary::ExpM1 => x.exp_m1(),
        Elementary::Ln => x.ln(),
        Elementary::Ln1p => x.ln_1p(),
        Elementary::Sqrt => x.sqrt(),
        Elementary::Abs => x.abs(),
    }
}

fn arithmetic() -> impl Math<f64> {
    Arithmetic::new(
        apply,
        |x: f64, y: f64| x.powf(y),
        |x: f64| x.is_finite(),
        |n: u64| n as f64,
        |x: f64, y: f64| x.total_cmp(&y).is_lt(),
    )
}

/// A uniform in the open unit interval, by mixing the bits of its place.
fn mixed(a: u64, b: u64, c: u64) -> f64 {
    let mut x = a
        .wrapping_mul(0x9e37_79b9_7f4a_7c15)
        .wrapping_add(b.wrapping_mul(0xbf58_476d_1ce4_e5b9))
        .wrapping_add(c.wrapping_mul(0x94d0_49bb_1331_11eb));
    x = (x ^ (x >> 30)).wrapping_mul(0xbf58_476d_1ce4_e5b9);
    x = (x ^ (x >> 27)).wrapping_mul(0x94d0_49bb_1331_11eb);
    ((x ^ (x >> 31)) >> 11) as f64 / (1u64 << 53) as f64 + 2.0_f64.powi(-54)
}

/// Close to the inverse of the normal distribution function.
fn inverse(u: f64) -> f64 {
    (u / (1.0 - u)).ln() / 1.702
}

fn statistics(v: &Vec<f64>) -> Statistics<f64> {
    let total: f64 = v.iter().sum();
    let mean = total / v.len() as f64;
    let squares: f64 = v.iter().map(|x| (x - mean) * (x - mean)).sum();
    let sample_variance = if v.len() > 1 { Some(squares / (v.len() - 1) as f64) } else { None };
    Statistics { total, sample_variance }
}

fn backend() -> impl Backend<f64> {
    SuppliedBackend::new(
        |path: u64, dimension: u32| inverse(mixed(path, dimension as u64, 7)),
        |scramble: u32, point: u64, dimension: u32| Some(
            mixed(point, dimension as u64, 100 + scramble as u64),
        ),
        |u: f64| Some(inverse(u)),
        |draws: &Vec<f64>| -> Result<Vec<f64>, MonteCarloError> {
            // The draws in reverse order, as a bridge that is easily told apart.
            Ok(draws.iter().rev().cloned().collect())
        },
        |v: &Vec<f64>| statistics(v),
        |v: &Vec<f64>| statistics(v),
    )
}

fn pseudo(units: u64, antithetic: bool) -> EngineConfig {
    EngineConfig::PseudoMonteCarlo(PseudoMonteCarlo {
        independent_sampling_units: units,
        master_seed: 42,
        variance_reduction: VarianceReduction { antithetic, brownian_bridge: false },
    })
}

fn scrambled(antithetic: bool) -> EngineConfig {
    EngineConfig::RandomizedQuasiMonteCarlo(RandomizedQuasiMonteCarlo {
        points_per_scramble: 8,
        scramble_count: 4,
        master_seed: 819,
        variance_reduction: VarianceReduction { antithetic, brownian_bridge: false },
    })
}

fn plan(engine: EngineConfig) -> SimulationPlan<f64> {
    SimulationPlan {
        spot: 100.0,
        discount: 0.95,
        request_delta: false,
        request_gamma: None,
        request_vega: false,
        validation_spot_bump: 0.01,
        validation_volatility_bump: 0.001,
        smile_dynamics: SmileDynamics::StickyStrike,
        payoff_smoothing: None,
        payoff_smoothing_endpoint_count: 0,
        payoff_smoothing_dividend_jump_count: 0,
        continuous_barrier: false,
        early_exercise: false,
        observation_count: 2,
        local_volatility: false,
        normal_quantile: 1.96,
        request_fingerprint: Fingerprint { bytes: [1; 32] },
        provenance: Provenance {
            schema_version: 3,
            version: "1.2.0",
            operating_system: "linux",
            architecture: "x86_64",
            migration: Some(4),
        },
        execution: ExecutionPolicies {
            policy_version: 1,
            worker_threads: 2,
            reduction_block_size: 64,
            aad_tile_policy_version: 5,
            aad_tile_capacity: 16,
            checkpoint_policy_version: 6,
            checkpoint_interval: 8,
        },
        payoff_fingerprint: Fingerprint { bytes: [2; 32] },
        path_state: Some(9),
        total_variance: 0.04,
        discount_region: CurveRegion { number: 1, extrapolated: false },
        dividend_region: CurveRegion { number: 1, extrapolated: false },
        engine,
        executor_failure: None,
        quasi_failure: None,
        bridge_failure: None,
        checksums: Checksums { direction: 5, scramble: 6 },
    }
}

/// A call at 100 on two steps of a volatility of 0.2, discounted.
fn call(spot: f64, z: &[f64]) -> f64 {
    let root = 0.2 * 0.5_f64.sqrt();
    let s = spot * z.iter().map(|z| root * z - 0.5 * root * root).sum::<f64>().exp();
    0.95 * (s - 100.0).max(0.0)
}

fn spots() -> impl SpotPaths<f64> {
    SuppliedSpotPaths::new(
        |z: &Vec<f64>| -> Result<Vec<f64>, MonteCarloError> {
            let mut v = vec![0.0; 18];
            v[0] = call(100.0, z);
            v[1] = if v[0] > 0.0 { (v[0] / 0.95 + 100.0) * 0.0095 } else { 0.0 };
            v[2] = 0.02;
            v[3] = 40.0;
            v[4] = v[1] + 0.001;
            v[7] = 0.001;
            Ok(v)
        },
        |z: &Vec<f64>| -> Result<Vec<f64>, MonteCarloError> {
            let mut v = vec![0.0; 18];
            v[0] = call(100.0, z);
            v[10] = 1.0;
            v[13] = 2.0;
            Ok(v)
        },
        |z: &Vec<f64>| -> Result<f64, MonteCarloError> { Ok(call(100.0, z)) },
    )
}

type Path = (Vec<f64>, Vec<f64>);

fn states(variance: f64, spot: f64, shocks: &[f64]) -> Vec<f64> {
    let root = (variance * 0.5).sqrt();
    let mut s = vec![spot];
    for z in shocks {
        s.push(s[s.len() - 1] * (root * z - 0.5 * root * root).exp());
    }
    s
}

fn local_vol(variance: f64) -> impl LocalVolPaths<f64> {
    SuppliedLocalVolPaths::new(
        move |_: bool, spot: f64, shocks: &Vec<f64>, _: u64| -> Result<Path, MonteCarloError> {
            Ok((states(variance, spot, shocks), shocks.clone()))
        },
        |p: &Path| p.0.len(),
        || 1,
        |p: &Path, _: f64| -> Result<Vec<Observation<f64>>, MonteCarloError> {
            Ok(vec![Observation { node: 2, post_spot: p.0[2], pre_dividend_spot: None }])
        },
        // A barrier that survives with a probability of one half.
        |_: &Path, _: f64| -> Result<f64, MonteCarloError> { Ok(0.5) },
        |bridge: &f64| *bridge,
        |terminal: f64, survival: f64| BarrierPayoff {
            value: survival * (terminal - 100.0).max(0.0),
            terminal_derivative: if terminal > 100.0 { survival } else { 0.0 },
            survival_derivative: (terminal - 100.0).max(0.0),
        },
        |_: &f64| BridgeCounts {
            endpoint_hit: 0.0,
            dividend_jump_hit: 0.0,
            bridge_hit_weight: 0.5,
            interval_count: 2.0,
            finite_correction_count: 2.0,
            zero_variance_count: 0.0,
            survival_underflow_count: 0.0,
            certain_survival_count: 0.0,
        },
        |_: &f64| BridgeShape::Exact { endpoint_touched: false, dividend_jump_touched: false },
        |_: &f64| -> Vec<Interval> { vec![] },
        |_: &f64, _: f64| -> Vec<IntervalAdjoint<f64>> { vec![] },
        |_: &f64, _: f64| -> Vec<Deposit<f64>> { vec![] },
        |_: &Path, _: &f64, _: &Vec<f64>, seeds: &Vec<f64>| seeds.clone(),
        |_: &Path, _: &f64, _: &Vec<f64>, grid: &Vec<f64>| grid.clone(),
        |_: &f64| 0,
        |output: Option<usize>, fixings: &Vec<Fixing<f64>>| -> Result<
            GraphPayoff<f64>,
            MonteCarloError,
        > {
            // The second output pays a fixed amount.
            let s = fixings[0].spot.unwrap();
            let (value, slope) = match output {
                Some(1) => (3.0, 0.0),
                _ => ((s - 100.0).max(0.0), if s > 100.0 { 1.0 } else { 0.0 }),
            };
            let adjoint = DatedAdjoint { underlying: 7, date: 20, value: slope };
            Ok(GraphPayoff {
                value,
                terminal_adjoints: vec![adjoint],
                pre_dividend_adjoints: vec![],
            })
        },
        move |p: &Path, seeds: &Vec<f64>| -> Result<Vec<f64>, MonteCarloError> {
            // The middle of each row drives its step.
            let mut grid = vec![0.0; 6];
            for i in 0..2 {
                let slope = 0.5 * (0.5 / variance).sqrt() * p.1[i] - 0.25;
                grid[3 * i + 1] = seeds[2] * p.0[2] * slope;
            }
            Ok(grid)
        },
        |nodes: &Vec<f64>| -> Result<Vec<f64>, MonteCarloError> { Ok(nodes.clone()) },
        |x: f64| x.to_bits(),
        |_: usize, _: f64, density: &Vec<f64>| -> Result<Vec<f64>, MonteCarloError> { Ok(density.clone()) },
        |index: usize| -> Result<ExerciseCashflowSelection<f64>, MonteCarloError> {
            Ok(ExerciseCashflowSelection { output_index: index, discount: 0.9 })
        },
        |spot: f64| if spot > 0.0 { None } else { Some(MonteCarloError::LocalVol { code: 9 }) },
        |seed: u64, path: u64, _: bool| -> Result<Vec<f64>, MonteCarloError> {
            Ok((0..2).map(|i| inverse(mixed(path, i, seed))).collect())
        },
        move |spot: f64, shocks: &Vec<f64>, _: u64, selected: Option<ExerciseCashflowSelection<f64>>| -> Result<f64, MonteCarloError> {
            let discount = selected.map_or(0.95, |s| s.discount);
            Ok(discount * (states(variance, spot, shocks)[2] - 100.0).max(0.0))
        },
    )
}

fn local_plan(variance: f64, buckets: Option<usize>) -> LocalVolPlan<f64> {
    LocalVolPlan {
        has_dividends: false,
        underlying: 7,
        dates: vec![Some(20)],
        slopes: vec![Some(1.0)],
        pre_dividend_slopes: vec![None],
        expiry_observation: 0,
        grid_values: vec![variance; 6],
        time_nodes: vec![0.0, 0.5],
        row_length: 3,
        buckets,
        step_count: 2,
        fixing_dates: vec![FixingDate { underlying: 7, date: 20 }],
        density_maturities: vec![0.5f64.to_bits()],
    }
}

/// A report of buckets: the means, the remainder and the total.
fn buckets() -> impl VegaBuckets<f64, Report = (Vec<f64>, f64, f64)> {
    SuppliedVegaBuckets::new(
        |_: &Vec<f64>, samples: &Vec<f64>, count: usize| -> Result<Vec<f64>, MonteCarloError> {
            let n = samples.len() / count;
            Ok((0..count)
                .map(|j| samples.iter().skip(j).step_by(count).sum::<f64>() / n as f64)
                .collect())
        },
        |means: &Vec<f64>| means.clone(),
        |means: &Vec<f64>, remainder: f64, total: f64| -> Result<
            (Vec<f64>, f64, f64),
            MonteCarloError,
        > {
            Ok((means.clone(), remainder, total))
        },
        || false,
        |_: &Vec<f64>, _: usize| -> Result<(), MonteCarloError> { Ok(()) },
        || 1,
        |_: usize, p: (Vec<f64>, f64, f64), _: Vec<f64>, _: Option<()>| -> Result<
            (Vec<f64>, f64, f64),
            MonteCarloError,
        > {
            Ok(p)
        },
    )
}

/// Policies that stop the even paths at the first of two dates.
fn policies() -> impl ExercisePolicies<f64> {
    SuppliedExercisePolicies::new(
        |training: bool, e: EngineConfig| -> Result<Vec<f64>, MonteCarloError> {
            let n = match e {
                EngineConfig::PseudoMonteCarlo(c) => c.independent_sampling_units,
                EngineConfig::RandomizedQuasiMonteCarlo(c) => c.points_per_scramble * c.scramble_count as u64,
            };
            Ok((0..n).map(|i| i as f64 + if training { 0.5 } else { 0.0 }).collect())
        },
        |v: &Vec<f64>| v.len(),
        || None,
        |v: &Vec<f64>| -> Result<Vec<f64>, MonteCarloError> { Ok(v.clone()) },
        |_: &Vec<f64>, v: &Vec<f64>| -> Result<Vec<f64>, MonteCarloError> { Ok(v.clone()) },
        |v: &Vec<f64>| v.clone(),
        |v: &Vec<f64>| (0..v.len()).map(|i| i % 2).collect(),
        |v: &Vec<f64>| vec![(v.len() as u64 + 1) / 2, v.len() as u64 / 2],
        |_: &Vec<f64>| Fingerprint { bytes: [8; 32] },
        || vec![0.99, 0.98],
        |v: &Vec<f64>| v.clone(),
        |v: &Vec<f64>| (0..v.len()).map(|i| i % 2).collect(),
        |v: &Vec<f64>| Checksums { direction: v.len() as u64, scramble: (2.0 * v[0]) as u64 },
        || RandomDomain::LsmTrain,
        || vec![730, 740],
        || vec![740],
        |v: &Vec<f64>| ExercisePolicyDetails {
            regression_diagnostics: vec![v.clone()],
            policy_basis: vec![0, 1, 2],
            itm_abs_tolerance: 1e-9,
            cpqr_config: vec![1e-12],
            max_matrix_elements: 4096,
            decision_models: vec![vec![0.5, 0.25], vec![0.75]],
        },
        |values: &Vec<f64>, e: EngineConfig| -> Result<Vec<f64>, MonteCarloError> {
            Ok(match e {
                EngineConfig::PseudoMonteCarlo(_) => values.clone(),
                EngineConfig::RandomizedQuasiMonteCarlo(c) => values
                    .chunks(c.points_per_scramble as usize)
                    .map(|v| v.iter().sum::<f64>() / v.len() as f64)
                    .collect(),
            })
        },
        |_: EngineConfig, stops: &Vec<usize>| -> Result<Vec<Statistics<f64>>, MonteCarloError> {
            Ok(vec![Statistics { total: stops.len() as f64 * 0.5, sample_variance: Some(0.0) }; 18])
        },
    )
}

fn request(
    plan: SimulationPlan<f64>,
    lv: Option<LocalVolPlan<f64>>,
    training: Option<EngineConfig>,
) -> PricingRequest<f64> {
    PricingRequest {
        engine: plan.engine,
        compiled: Ok(CompiledPlan { plan, local_volatility: lv, training, dimension: 2 }),
    }
}

type Report = (Vec<f64>, f64, f64);

fn price(r: &PricingRequest<f64>) -> Result<MonteCarloPrice<f64, Report>, MonteCarloError> {
    let q = SuppliedPublication::new(|e: &Estimate<f64>| -> Option<MonteCarloError> {
        if e.value.is_finite() { None } else { Some(MonteCarloError::Component { code: 1 }) }
    });
    price_monte_carlo(
        &arithmetic(),
        &backend(),
        &spots(),
        &local_vol(0.04),
        &buckets(),
        &q,
        &policies(),
        r,
    )
}

fn priced(r: &PricingRequest<f64>) -> MonteCarloPrice<f64, Report> {
    match price(r) {
        Ok(p) => p,
        Err(e) => panic!("{e:?}"),
    }
}

fn refusal(r: &PricingRequest<f64>) -> MonteCarloError {
    match price(r) {
        Ok(_) => panic!("not refused"),
        Err(e) => e,
    }
}

fn normals(path: u64) -> Vec<f64> {
    (0..2).map(|i| inverse(mixed(path, i, 7))).collect()
}

fn reflected(z: &[f64]) -> Vec<f64> {
    z.iter().map(|z| -z).collect()
}

#[test]
fn price_is_the_mean_over_its_sampling_units() {
    for antithetic in [false, true] {
        let p = priced(&request(plan(pseudo(32, antithetic)), None, None));
        let values: Vec<f64> = (0..32)
            .map(|i| {
                let z = normals(i);
                if antithetic {
                    0.5 * (call(100.0, &z) + call(100.0, &reflected(&z)))
                } else {
                    call(100.0, &z)
                }
            })
            .collect();
        let s = statistics(&values);
        let (mean, variance) = (s.total / 32.0, s.sample_variance.unwrap());
        let error = (variance / 32.0).sqrt();
        assert!((p.value.value - mean).abs() < 1e-12);
        assert!((p.value.standard_error - error).abs() < 1e-12);
        assert!((p.value.lower - (mean - 1.96 * error)).abs() < 1e-12);
        assert!((p.value.upper - (mean + 1.96 * error)).abs() < 1e-12);
        assert_eq!(p.value.estimator, EstimatorKind::PseudoMonteCarlo);
        assert!((p.sampling_variance - variance).abs() < 1e-12);
        assert!((p.estimator_variance - variance / 32.0).abs() < 1e-12);
        assert_eq!(p.independent_sampling_units, 32);
        // Reflected draws double the paths, not the sampling units.
        assert_eq!(p.evaluated_paths, if antithetic { 64 } else { 32 });
        assert!(p.risks.delta.is_none() && p.risks.gamma.is_none() && p.risks.vega.is_none());
        assert_eq!(p.diagnostics.scramble_count, None);
        assert_eq!(p.diagnostics.master_seed, 42);
        assert!(p.warnings.is_empty());
        assert!(p.vega_kt.is_none() && p.early_exercise.is_none());
    }
}

#[test]
fn scrambles_are_the_sampling_units_of_a_quasi_random_engine() {
    let p = priced(&request(plan(scrambled(false)), None, None));
    let means: Vec<f64> = (0..4)
        .map(|s| {
            (0..8)
                .map(|i| {
                    let z: Vec<f64> = (0..2).map(|d| inverse(mixed(i, d, 100 + s))).collect();
                    call(100.0, &z)
                })
                .sum::<f64>()
                / 8.0
        })
        .collect();
    let s = statistics(&means);
    assert!((p.value.value - s.total / 4.0).abs() < 1e-12);
    assert!((p.value.standard_error - (s.sample_variance.unwrap() / 4.0).sqrt()).abs() < 1e-12);
    assert_eq!(p.independent_sampling_units, 4);
    assert_eq!(p.evaluated_paths, 32);
    assert_eq!(p.diagnostics.scramble_count, Some(4));
    assert_eq!(p.diagnostics.checksums, Some(Checksums { direction: 5, scramble: 6 }));
}

#[test]
fn payoff_without_observations_is_certain() {
    let mut c = plan(scrambled(true));
    c.observation_count = 0;
    c.request_delta = true;
    c.discount_region = CurveRegion { number: 2, extrapolated: true };
    let p = priced(&request(c, None, None));
    assert_eq!(p.value.value, call(100.0, &[]));
    assert_eq!(p.value.standard_error, 0.0);
    assert_eq!(p.value.lower, p.value.upper);
    assert_eq!(p.risks.delta.unwrap().raw.value, 0.0);
    assert!(p.risks.vega.is_none());
    assert_eq!(p.warnings.len(), 1);
    assert_eq!(p.warnings[0].code, "discount_curve_extrapolation");
    assert_eq!(p.diagnostics.discount_region, CurveRegion { number: 2, extrapolated: true });
    assert_eq!(p.diagnostics.checksums, None);
}

#[test]
fn prices_say_how_they_were_made() {
    for engine in [pseudo(8, false), scrambled(false)] {
        for (local, exercise) in [(false, false), (true, false), (false, true)] {
            let mut c = plan(engine);
            c.local_volatility = local;
            c.early_exercise = exercise;
            let p = priced(&request(
                c,
                if local { Some(local_plan(0.04, None)) } else { None },
                if exercise { Some(engine) } else { None },
            ));
            assert_eq!(p.diagnostics.execution, c.execution);
            assert_eq!(p.diagnostics.payoff_fingerprint, Fingerprint { bytes: [2; 32] });
            assert_eq!(p.diagnostics.dividend_region, c.dividend_region);
            // Policies are trained and valued on matrices, which keep no state.
            assert_eq!(p.diagnostics.path_state, if exercise { None } else { Some(9) });
            assert_eq!(p.replay.schema_version, 3);
            assert_eq!(p.replay.request_fingerprint, Fingerprint { bytes: [1; 32] });
            assert_eq!(p.replay.version, "1.2.0");
            assert_eq!(p.replay.platform, "linux-x86_64");
            assert_eq!(p.replay.migration, Some(4));
        }
    }
}

#[test]
fn spot_that_cannot_move_draws_no_normals() {
    let mut c = plan(pseudo(4, false));
    c.total_variance = 0.0;
    let p = priced(&request(c, None, None));
    assert_eq!(p.value.value, call(100.0, &[0.0, 0.0]));
    assert_eq!(p.value.standard_error, 0.0);
}

#[test]
fn risk_is_reported_where_it_was_asked_for() {
    let mut c = plan(pseudo(32, false));
    c.request_delta = true;
    c.request_vega = true;
    let with = priced(&request(c, None, None));
    let without = priced(&request(plan(pseudo(32, false)), None, None));
    // Asking for risk does not move the price.
    assert_eq!(with.value, without.value);
    let delta = with.risks.delta.unwrap();
    assert!((delta.market_scaled.value - delta.raw.value).abs() < 1e-12);
    assert!(delta.raw.value > 0.0);
    let vega = with.risks.vega.unwrap();
    assert_eq!(vega.raw.value, 40.0);
    assert!((vega.market_scaled.value - 0.4).abs() < 1e-12);
    assert!(with.risks.gamma.is_none());
    assert_eq!(with.risk_diagnostics.methods.delta, Some(RiskMethod::AadReverse));
    assert_eq!(with.risk_diagnostics.methods.gamma, None);
    let checked = with.risk_diagnostics.delta_validation.unwrap();
    assert!((checked.bump_minus_primary.value - 0.001).abs() < 1e-12);
}

#[test]
fn continuous_barriers_and_smoothing_are_described() {
    let mut c = plan(pseudo(8, false));
    c.continuous_barrier = true;
    c.payoff_smoothing = Some(PayoffSmoothing { width: 0.5 });
    c.payoff_smoothing_endpoint_count = 3;
    let p = priced(&request(c, None, None));
    let d = p.diagnostics.barrier_bridge.unwrap();
    assert_eq!(d.endpoint_hit_fraction, 1.0);
    assert_eq!(d.mean_interval_count, 2.0);
    assert_eq!(p.diagnostics.valuation_kind, PayoffValuationKind::SmoothedSurrogate);
    assert_eq!(p.diagnostics.payoff_smoothing.unwrap().endpoint_count, 3);
}

#[test]
fn failures_are_handed_on() {
    let broken = PricingRequest {
        engine: pseudo(8, false),
        compiled: Err(MonteCarloError::UnsupportedModel { model: "other" }),
    };
    assert_eq!(refusal(&broken), MonteCarloError::UnsupportedModel { model: "other" });
    let q = SuppliedPublication::new(|_: &Estimate<f64>| -> Option<MonteCarloError> {
        Some(MonteCarloError::Component { code: 1 })
    });
    let (m, b, s, w, k, x) = (
        arithmetic(),
        backend(),
        spots(),
        local_vol(0.04),
        buckets(),
        policies(),
    );
    let r = price_monte_carlo(
        &m,
        &b,
        &s,
        &w,
        &k,
        &q,
        &x,
        &request(plan(pseudo(8, false)), None, None),
    );
    assert_eq!(r.map(|_| ()), Err(MonteCarloError::Component { code: 1 }));
    let r = price_pseudo_monte_carlo(
        &m,
        &b,
        &s,
        &w,
        &k,
        &q,
        &x,
        &request(plan(scrambled(false)), None, None),
    );
    assert_eq!(r.map(|_| ()), Err(MonteCarloError::UnsupportedEngine));
    let mut c = plan(pseudo(8, false));
    c.executor_failure = Some(MonteCarloError::Component { code: 2 });
    assert_eq!(refusal(&request(c, None, None)), MonteCarloError::Component { code: 2 });
    let mut c = plan(scrambled(false));
    c.quasi_failure = Some(MonteCarloError::RqmcPlan);
    assert_eq!(refusal(&request(c, None, None)), MonteCarloError::RqmcPlan);
    assert_eq!(
        refusal(&request(plan(pseudo(1, false)), None, None)),
        MonteCarloError::InsufficientSamplingUnits { count: 1 }
    );
}

fn local_price(
    variance: f64,
    c: SimulationPlan<f64>,
    buckets_asked: Option<usize>,
) -> MonteCarloPrice<f64, Report> {
    let q = SuppliedPublication::new(|_: &Estimate<f64>| -> Option<MonteCarloError> { None });
    let r = request(c, Some(local_plan(variance, buckets_asked)), None);
    match price_monte_carlo(
        &arithmetic(),
        &backend(),
        &spots(),
        &local_vol(variance),
        &buckets(),
        &q,
        &policies(),
        &r,
    ) {
        Ok(p) => p,
        Err(e) => panic!("{e:?}"),
    }
}

#[test]
fn local_volatility_risk_matches_bumped_revaluations() {
    for engine in [pseudo(32, true), scrambled(true)] {
        let mut c = plan(engine);
        c.local_volatility = true;
        let plain = local_price(0.04, c, None);
        c.request_delta = true;
        c.request_gamma = Some(SpotBump::Relative(0.001));
        c.validation_spot_bump = 0.1;
        c.request_vega = true;
        let p = local_price(0.04, c, None);
        assert_eq!(p.value, plain.value);
        let moved = |spot: f64, variance: f64| {
            let mut c = plan(engine);
            c.local_volatility = true;
            c.spot = spot;
            local_price(variance, c, None).value.value
        };
        let (up, down) = (moved(100.1, 0.04), moved(99.9, 0.04));
        assert!((p.risks.delta.unwrap().raw.value - (up - down) / 0.2).abs() < 1e-9);
        let second = (up - 2.0 * plain.value.value + down) / 0.01;
        assert!((p.risks.gamma.unwrap().raw.value - second).abs() < 1e-8);
        let h = 1e-7;
        let bumped = |volatility: f64| moved(100.0, volatility * volatility);
        let vega = (bumped(0.2 + h) - bumped(0.2 - h)) / (2.0 * h);
        assert!((p.risks.vega.unwrap().raw.value - vega).abs() < 1e-4, "{vega}");
    }
}

#[test]
fn bucketed_vega_adds_up_to_what_it_projects() {
    for engine in [pseudo(32, false), scrambled(false)] {
        let mut c = plan(engine);
        c.local_volatility = true;
        c.request_vega = true;
        let plain = local_price(0.04, c, None);
        let p = local_price(0.04, c, Some(3));
        assert!((p.value.value - plain.value.value).abs() < 1e-12);
        let vega = p.risks.vega.unwrap().raw.value;
        assert!((vega - plain.risks.vega.unwrap().raw.value).abs() < 1e-12);
        let (means, remainder, total) = p.vega_kt.unwrap();
        assert_eq!(means.len(), 3);
        assert!((means.iter().sum::<f64>() + remainder - total).abs() < 1e-9);
        assert!((total - vega).abs() < 1e-9);
        // The row of the valuation date is not reported.
        assert!(means[1] != 0.0 && remainder != 0.0);
    }
}

#[test]
fn payoffs_read_the_first_observation_of_a_date() {
    let mut lv = local_plan(0.04, None);
    lv.dates = vec![None, Some(20), Some(20), Some(30)];
    lv.fixing_dates = vec![
        FixingDate { underlying: 7, date: 20 },
        FixingDate { underlying: 7, date: 40 },
        FixingDate { underlying: 8, date: 20 },
        FixingDate { underlying: 7, date: 30 },
    ];
    let seen: Vec<Observation<f64>> = (0..4)
        .map(|i| Observation {
            node: i,
            post_spot: 100.0 + i as f64,
            pre_dividend_spot: if i == 3 { Some(105.0) } else { None },
        })
        .collect();
    let fixings = take_fixings(&lv, &seen);
    assert_eq!(fixings.iter().map(|f| f.spot).collect::<Vec<_>>(), [
        Some(101.0),
        None,
        None,
        Some(103.0),
    ]);
    assert_eq!(fixings[3].pre_dividend_spot, Some(105.0));
    assert_eq!(find_row(&vec![5, 9, 9], 9), Some(1));
    assert_eq!(find_row(&vec![5, 9, 9], 7), None);
}

#[test]
fn local_volatility_counts_its_steps_and_needs_positive_spots() {
    let q = SuppliedPublication::new(|_: &Estimate<f64>| -> Option<MonteCarloError> { None });
    let (m, b, w, k) = (arithmetic(), backend(), local_vol(0.04), buckets());
    let engine = scrambled(false);
    let mut c = plan(engine);
    c.local_volatility = true;
    let mut lv = local_plan(0.04, None);
    if let EngineConfig::RandomizedQuasiMonteCarlo(e) = engine {
        assert!(c.execute_local_vol_rqmc(&m, &b, &w, &k, &q, &lv, e).is_ok());
        lv.step_count = 1 << 32;
        let r = c.execute_local_vol_rqmc(&m, &b, &w, &k, &q, &lv, e);
        assert_eq!(r.err(), Some(MonteCarloError::RqmcPlan));
        lv.step_count = 2;
        c.request_delta = true;
        c.validation_spot_bump = 100.0;
        let r = c.execute_local_vol_rqmc(&m, &b, &w, &k, &q, &lv, e);
        assert_eq!(r.err(), Some(MonteCarloError::ResultBuild { field: "spot" }));
    }
    let mut c = plan(engine);
    c.observation_count = 1 << 32;
    if let EngineConfig::RandomizedQuasiMonteCarlo(e) = engine {
        let r = c.execute_rqmc(&m, &b, &spots(), &w, &k, &q, &None, e);
        assert_eq!(r.err(), Some(MonteCarloError::RqmcPlan));
    }
}

#[test]
fn frozen_policies_discount_their_bumps_too() {
    let (m, w) = (arithmetic(), local_vol(0.04));
    let mut c = plan(pseudo(8, false));
    c.local_volatility = true;
    c.request_delta = true;
    c.validation_spot_bump = 0.1;
    let lv = local_plan(0.04, None);
    let bumps = c.local_vol_bump_runtimes(&m, &w).unwrap();
    let shocks = vec![0.3, 0.2];
    let delta = |discount: f64| {
        let s = ExerciseCashflowSelection { output_index: 0, discount };
        c.local_vol_fixed_policy_pathwise_values(&m, &w, &lv, bumps, &shocks, 0, s)
            .ok()
            .unwrap()
            .values[DELTA]
    };
    assert!(delta(0.9) > 0.0);
    assert!((delta(0.9) / delta(0.45) - 2.0).abs() < 1e-12);
}

#[test]
fn bucketed_vega_needs_its_buckets() {
    let q = SuppliedPublication::new(|_: &Estimate<f64>| -> Option<MonteCarloError> { None });
    let lv = local_plan(0.04, None);
    let (m, b, w, k) = (arithmetic(), backend(), local_vol(0.04), buckets());
    let missing = Some(MonteCarloError::MissingLocalVolatilityReportingBasis);
    let engine = pseudo(8, false);
    if let EngineConfig::PseudoMonteCarlo(e) = engine {
        let r = plan(engine)
            .execute_local_vol_pseudo_with_vega_kt(&m, &b, &w, &k, &q, &lv, e, 2, None);
        assert_eq!(r.err(), missing);
    }
    let engine = scrambled(false);
    if let EngineConfig::RandomizedQuasiMonteCarlo(e) = engine {
        let r = plan(engine)
            .execute_local_vol_rqmc_with_vega_kt(&m, &b, &w, &k, &q, &lv, e, 2, None);
        assert_eq!(r.err(), missing);
    }
}

#[test]
fn barrier_of_a_local_volatility_pays_what_survives() {
    let mut c = plan(pseudo(32, false));
    c.local_volatility = true;
    let plain = local_price(0.04, c, None);
    c.continuous_barrier = true;
    let p = local_price(0.04, c, None);
    assert!((p.value.value - 0.5 * plain.value.value).abs() < 1e-12);
    assert_eq!(p.diagnostics.barrier_bridge.unwrap().mean_conditional_bridge_hit_weight, 0.5);
}

#[test]
fn early_exercise_values_the_policy_out_of_sample() {
    let mut c = plan(pseudo(8, false));
    c.early_exercise = true;
    let p = priced(&request(c, None, Some(pseudo(4, false))));
    // The values of the paths are their numbers.
    assert!((p.value.value - 3.5).abs() < 1e-12);
    let d = p.early_exercise.unwrap();
    assert_eq!(d.policy_fingerprint, Fingerprint { bytes: [8; 32] });
    assert_eq!(d.training_sampling_units, 4);
    assert_eq!(d.valuation_trajectories, 8);
    assert_eq!(d.exercise_counts, [4, 4]);
    assert_eq!(d.exercise_probabilities, [0.5, 0.5]);
    assert_eq!(d.stopping_indices, [0, 1, 0, 1, 0, 1, 0, 1]);
    let trained = [0.5 * 0.99, 1.5 * 0.98, 2.5 * 0.99, 3.5 * 0.98];
    assert!((d.in_sample_value - trained.iter().sum::<f64>() / 4.0).abs() < 1e-12);
    assert_eq!(d.training_random_domain, RandomDomain::LsmTrain);
    assert_eq!(d.valuation_random_domain, RandomDomain::Valuation);
    assert_eq!((d.training_checksums, d.valuation_checksums), (None, None));
    assert_eq!(p.diagnostics.checksums, None);
    assert_eq!(d.exercise_dates, [730, 740]);
    assert_eq!(d.dividend_collisions, [740]);
    assert_eq!(d.policy.regression_diagnostics, [vec![0.5, 1.5, 2.5, 3.5]]);
    assert_eq!(d.policy.policy_basis, [0, 1, 2]);
    assert_eq!(d.policy.itm_abs_tolerance, 1e-9);
    assert_eq!(d.policy.cpqr_config, [1e-12]);
    assert_eq!(d.policy.max_matrix_elements, 4096);
    assert_eq!(d.policy.decision_models, [vec![0.5, 0.25], vec![0.75]]);
}

#[test]
fn scrambled_policies_report_the_tables_of_training_and_valuation() {
    let mut c = plan(scrambled(false));
    c.early_exercise = true;
    let p = priced(&request(c, None, Some(scrambled(false))));
    let d = p.early_exercise.unwrap();
    assert_eq!(d.training_random_domain, RandomDomain::RqmcScramble);
    assert_eq!(d.valuation_random_domain, RandomDomain::RqmcScramble);
    assert_eq!(d.training_checksums, Some(Checksums { direction: 32, scramble: 1 }));
    assert_eq!(d.valuation_checksums, Some(Checksums { direction: 32, scramble: 0 }));
    assert_eq!(p.diagnostics.checksums, d.valuation_checksums);
}

#[test]
fn early_exercise_engines_have_to_agree() {
    let mut c = plan(pseudo(8, false));
    c.early_exercise = true;
    assert_eq!(
        refusal(&request(c, None, Some(scrambled(false)))),
        MonteCarloError::UnsupportedEngine
    );
    let overflow = MonteCarloError::Lsm(LsmNumericalError::MatrixShapeOverflow);
    assert_ne!(overflow, MonteCarloError::UnsupportedEngine);
}

#[test]
fn frozen_policies_select_the_cash_flow_of_each_path() {
    for engine in [pseudo(8, false), scrambled(false)] {
        let mut c = plan(engine);
        c.early_exercise = true;
        c.local_volatility = true;
        c.request_vega = true;
        let p = priced(&request(c, Some(local_plan(0.04, None)), Some(engine)));
        assert!(p.risks.vega.is_some());
        assert_eq!(
            p.risk_diagnostics.methods.exercise_policy_fingerprint,
            Some(Fingerprint { bytes: [8; 32] })
        );
    }
}
