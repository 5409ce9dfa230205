//! Pricing under a calibrated leverage model.

use pricing::backend::SuppliedBackend;
use pricing::engine::{
    EngineConfig, PseudoMonteCarlo, RandomizedQuasiMonteCarlo, VarianceReduction,
};
use pricing::errors::{LsvError, MonteCarloError};
use pricing::lsv_compiler::{LsvCompiler, SuppliedLsvCompiler};
use pricing::lsv_model::{
    LsvModel, LsvParticleConfig, LsvPriceModel, SuppliedLsvModel, SuppliedLsvPriceModel,
};
use pricing::lsv_plan::{BergomiLsvPricingPlan, LsvRequest, RoughBergomiLsvPricingPlan};
use pricing::lsv_pricing::{ExecutionPolicy, LsvPricingCore};
use pricing::models::{Fingerprint, RoughBergomi};
use pricing::sampling::{Backend, Statistics};
use pricing::scalar::{Arithmetic, Elementary, Math};
use pricing::target_grid::{SuppliedTargetGrid, TargetGrid};

fn apply(f: Elementary, x: f64) -> f64 {
    match f {
        Elementary::Exp => x.exp(),
        Elementary::ExpM1 => x.exp_m1(),
        Elementary::Ln => x.ln(),
        Elementary::Ln1p => x.ln_1p(),
        Elementary::Sqrt => x.sqrt(),
        Elementary::Abs => x.abs(),
    }
}

fn arithmetic() -> impl Math<f64> {
    Arithmetic::new(
        apply,
        |x: f64, y: f64| x.powf(y),
        |x: f64| x.is_finite(),
        |n: u64| n as f64,
        |x: f64, y: f64| x.total_cmp(&y).is_lt(),
    )
}

/// A uniform in the open unit interval, by mixing the bits of its place.
fn mixed(a: u64, b: u64, c: u64) -> f64 {
    let mut x = a
        .wrapping_mul(0x9e37_79b9_7f4a_7c15)
        .wrapping_add(b.wrapping_mul(0xbf58_476d_1ce4_e5b9))
        .wrapping_add(c.wrapping_mul(0x94d0_49bb_1331_11eb));
    x = (x ^ (x >> 30)).wrapping_mul(0xbf58_476d_1ce4_e5b9);
    x = (x ^ (x >> 27)).wrapping_mul(0x94d0_49bb_1331_11eb);
    ((x ^ (x >> 31)) >> 11) as f64 / (1u64 << 53) as f64 + 2.0_f64.powi(-54)
}

/// Close to the inverse of the normal distribution function.
fn inverse(u: f64) -> f64 {
    (u / (1.0 - u)).ln() / 1.702
}

fn statistics(v: &Vec<f64>) -> Statistics<f64> {
    let total: f64 = v.iter().sum();
    let mean = total / v.len() as f64;
    let squares: f64 = v.iter().map(|x| (x - mean) * (x - mean)).sum();
    let sample_variance = if v.len() > 1 { Some(squares / (v.len() - 1) as f64) } else { None };
    Statistics { total, sample_variance }
}

fn backend() -> impl Backend<f64> {
    SuppliedBackend::new(
        |path: u64, dimension: u32| inverse(mixed(path, dimension as u64, 7)),
        |scramble: u32, point: u64, dimension: u32| Some(
            mixed(point, dimension as u64, 100 + scramble as u64),
        ),
        |u: f64| Some(inverse(u)),
        |draws: &Vec<f64>| -> Result<Vec<f64>, MonteCarloError> {
            // The draws in reverse order, as a bridge that is easily told apart.
            Ok(draws.iter().rev().cloned().collect())
        },
        |v: &Vec<f64>| statistics(v),
        |v: &Vec<f64>| statistics(v),
    )
}

const NODES: [f64; 3] = [0.0, 0.5, 1.0];

/// A grid of three times and three levels of moneyness, constant between its nodes.
fn target(values: Vec<f64>) -> impl TargetGrid<f64> {
    let at = |t: f64, x: f64| {
        let i = if t < 0.5 { 0 } else if t < 1.0 { 1 } else { 2 };
        let j = if x < 0.0 { 0 } else if x < 0.8 { 1 } else { 2 };
        3 * i + j
    };
    let kept = values.clone();
    SuppliedTargetGrid::new(
        || NODES.to_vec(),
        || vec![-0.8, 0.0, 0.8],
        move || kept.clone(),
        move |t: f64, x: f64| -> Result<f64, MonteCarloError> { Ok(values[at(t, x)]) },
        move |t: f64, x: f64, adjoint: f64, nodes: &Vec<f64>| -> Result<Vec<f64>, MonteCarloError> {
            let mut nodes = nodes.clone();
            nodes[at(t, x)] += adjoint;
            Ok(nodes)
        },
    )
}

fn particles(trace: bool) -> LsvParticleConfig<f64> {
    LsvParticleConfig {
        particle_count: 64,
        seed: 71,
        log_bandwidth: 0.5,
        minimum_effective_samples: 2.0,
        retain_reverse_trace: trace,
    }
}

fn evolve(variances: &[f64], initial: f64, shocks: &[f64]) -> Vec<f64> {
    let mut states = vec![initial];
    for i in 0..2 {
        let root = (variances[3 * i + 1] * 0.5).sqrt();
        let f = states[i] * (root * shocks[2 * i] - 0.5 * root * root).exp();
        states.push(f);
    }
    states
}

/// A model whose leverage is the target itself, on two steps of two normals. It has
/// nothing but prices.
fn priced(variances: Vec<f64>, trace: bool) -> impl LsvPriceModel<f64> {
    let kept = variances.clone();
    SuppliedLsvPriceModel::new(
        || "bergomi-1f-lsv-v1",
        || 2,
        || 2,
        || 100.0,
        move || kept.clone(),
        move || particles(trace),
        |seed: u64, path: u64| -> Result<Vec<f64>, MonteCarloError> {
            Ok((0..4).map(|i| inverse(mixed(path, i, seed))).collect())
        },
        move |initial: f64, shocks: &Vec<f64>| -> Result<Vec<f64>, MonteCarloError> {
            Ok(evolve(&variances, initial, shocks))
        },
        |states: &Vec<f64>, _: u64, risk: bool| -> Result<
            (f64, Option<Vec<f64>>),
            MonteCarloError,
        > {
            let paid = (states[2] - 100.0).max(0.0) * 0.95;
            let slope = if states[2] > 100.0 { 0.95 } else { 0.0 };
            Ok((paid, if risk { Some(vec![0.0, 0.0, slope]) } else { None }))
        },
    )
}

/// The same model with its reversal.
fn calibrated(variances: Vec<f64>, trace: bool) -> impl LsvModel<f64> {
    let (c, d) = (variances.clone(), variances.clone());
    SuppliedLsvModel::new(
        priced(variances, trace),
        move |initial: f64, shocks: &Vec<f64>| -> Result<(Vec<f64>, Vec<f64>), MonteCarloError> {
            Ok((evolve(&c, initial, shocks), shocks.clone()))
        },
        |path: &(Vec<f64>, Vec<f64>)| path.0.clone(),
        move |path: &(Vec<f64>, Vec<f64>), seeds: &Vec<f64>| -> Result<Vec<f64>, MonteCarloError> {
            let mut out = vec![0.0; 9];
            for i in 0..2 {
                let slope = 0.5 * (0.5 / d[3 * i + 1]).sqrt() * path.1[2 * i] - 0.25;
                out[3 * i + 1] = seeds[2] * path.0[2] * slope;
            }
            Ok(out)
        },
        |adjoints: &Vec<f64>| -> Result<Vec<f64>, MonteCarloError> { Ok(adjoints.clone()) },
        || NODES.to_vec(),
    )
}

fn engine(qmc: bool) -> EngineConfig {
    if qmc {
        EngineConfig::RandomizedQuasiMonteCarlo(RandomizedQuasiMonteCarlo {
            points_per_scramble: 16,
            scramble_count: 4,
            master_seed: 819,
            variance_reduction: VarianceReduction { antithetic: true, brownian_bridge: true },
        })
    } else {
        EngineConfig::PseudoMonteCarlo(PseudoMonteCarlo {
            independent_sampling_units: 32,
            master_seed: 42,
            variance_reduction: VarianceReduction { antithetic: false, brownian_bridge: false },
        })
    }
}

fn compiler() -> impl LsvCompiler<f64> {
    SuppliedLsvCompiler::new(
        || None,
        || Fingerprint { bytes: [3; 32] },
        || Ok(NODES.to_vec()),
        |_: &Vec<f64>, values: &Vec<f64>| -> Option<MonteCarloError> {
            if values.len() == 9 { None } else { Some(MonteCarloError::LocalVol { code: 1 }) }
        },
        || 100.0,
        || None,
        |_: &Vec<f64>, _: &Vec<f64>, values: &Vec<f64>, _: f64, p: LsvParticleConfig<f64>| {
            Ok(calibrated(values.clone(), p.retain_reverse_trace))
        },
        |_, _: &Vec<f64>| -> Option<MonteCarloError> { None },
        |_| -> Option<MonteCarloError> { None },
        |_: &Vec<f64>| -> Option<MonteCarloError> { None },
        |x: f64| x.to_bits(),
    )
}

fn request(values: Vec<f64>, qmc: bool) -> LsvRequest<impl TargetGrid<f64>> {
    LsvRequest {
        target: Some(target(values)),
        delta: false,
        gamma: false,
        vega: false,
        vega_kt: false,
        engine: engine(qmc),
        policy: ExecutionPolicy { worker_count: 1, chunk_size: Some(16) },
        pathwise: true,
        smoothed: false,
        reverse_method: "lsv-particle-reverse-v1",
    }
}

fn plan(qmc: bool, trace: bool) -> BergomiLsvPricingPlan<impl LsvModel<f64>, impl TargetGrid<f64>> {
    let w = compiler();
    match BergomiLsvPricingPlan::compile(
        &w,
        request(vec![0.04; 9], qmc),
        1,
        vec![0.7, 0.3, -0.4],
        particles(trace),
    ) {
        Ok(p) => p,
        Err(e) => panic!("{e:?}"),
    }
}

#[test]
fn price_only_core_needs_no_recording_or_reverse_implementation() {
    let (m, b) = (arithmetic(), backend());
    for qmc in [false, true] {
        let p = plan(qmc, false);
        let expected = p.evaluate(&m, &b).unwrap();
        let c = p.core;
        let price_only = LsvPricingCore {
            calibration: priced(vec![0.04; 9], false),
            original_target: c.original_target,
            engine: c.engine,
            policy: c.policy,
            executor_failure: c.executor_failure,
            quasi_failure: c.quasi_failure,
            bridge_failure: c.bridge_failure,
            risk_supported: c.risk_supported,
            fingerprint: c.fingerprint,
            reverse_method: c.reverse_method,
        };
        assert_eq!(price_only.evaluate(&m, &b).unwrap(), expected);
        assert_eq!(expected.independent_sampling_units, if qmc { 4 } else { 32 });
        assert_eq!(expected.evaluated_paths, if qmc { 128 } else { 32 });
        assert!(expected.value > 0.0 && expected.standard_error > 0.0);
    }
}

#[test]
fn risk_selection_preserves_price_and_trace_error_precedence() {
    let (m, b) = (arithmetic(), backend());
    let p = plan(false, false);
    let expected = p.evaluate(&m, &b).unwrap();
    assert_eq!(
        expected.value.to_bits(),
        plan(false, true).evaluate(&m, &b).unwrap().value.to_bits()
    );
    assert!(matches!(
        p.evaluate_local_variance_risk(&m, &b),
        Err(MonteCarloError::Lsv(LsvError::ReverseTraceNotRetained))
    ));
    // The trace moves the price of neither engine, only the fingerprint.
    let (kept, dropped) = (plan(true, true), plan(true, false));
    let with_trace = kept.evaluate(&m, &b).unwrap();
    let without = dropped.evaluate(&m, &b).unwrap();
    assert_eq!(with_trace.value.to_bits(), without.value.to_bits());
    assert_eq!(with_trace.standard_error.to_bits(), without.standard_error.to_bits());
    assert_eq!(without.plan_fingerprint, dropped.plan_fingerprint());
    assert_ne!(without.plan_fingerprint, with_trace.plan_fingerprint);
    assert_eq!(kept.calibration().particles(), particles(true));
    assert_eq!(dropped.calibration().particles(), particles(false));
    // An unsupported payoff takes precedence over missing trace.
    let mut core = p.core;
    core.risk_supported = false;
    assert!(matches!(
        core.evaluate_local_variance_risk(&m, &b),
        Err(MonteCarloError::UnsupportedRiskForModel { .. })
    ));
    let w = compiler();
    let rough = match RoughBergomiLsvPricingPlan::compile(
        &w,
        request(vec![0.04; 9], false),
        RoughBergomi { hurst: 0.2, vol_of_vol: 0.5, correlation: -0.4 },
        particles(false),
    ) {
        Ok(p) => p,
        Err(e) => panic!("{e:?}"),
    };
    assert!(rough.evaluate(&m, &b).is_ok());
    assert!(matches!(
        rough.evaluate_local_variance_risk(&m, &b),
        Err(MonteCarloError::Lsv(LsvError::ReverseTraceNotRetained))
    ));
}

#[test]
fn local_variance_risk_matches_bumped_targets_and_keeps_the_price() {
    let (m, b) = (arithmetic(), backend());
    for qmc in [false, true] {
        let p = plan(qmc, true);
        let risk = match p.evaluate_local_variance_risk(&m, &b) {
            Ok(r) => r,
            Err(e) => panic!("{e:?}"),
        };
        let price = p.evaluate(&m, &b).unwrap();
        assert_eq!(risk.price, price);
        assert_eq!(risk.method, "lsv-particle-reverse-v1");
        assert_eq!(risk.standard_errors.is_some(), qmc);
        assert_eq!(risk.time_nodes, NODES);
        let value = |values: Vec<f64>| {
            let w = compiler();
            match BergomiLsvPricingPlan::compile(
                &w,
                request(values, qmc),
                1,
                vec![0.7, 0.3, -0.4],
                particles(true),
            ) {
                Ok(p) => p.evaluate(&m, &b).unwrap().value,
                Err(e) => panic!("{e:?}"),
            }
        };
        for node in 0..9 {
            let h = 1e-8;
            let mut up = vec![0.04; 9];
            let mut down = vec![0.04; 9];
            up[node] += h;
            down[node] -= h;
            let fd = (value(up) - value(down)) / (2.0 * h);
            assert!((fd - risk.node_adjoints[node]).abs() < 1e-4, "{node}: {fd}");
        }
        assert!(risk.node_adjoints[1] != 0.0);
    }
}

#[test]
fn requests_without_a_target_or_with_other_risk_are_refused() {
    let w = compiler();
    // Whether a trace is kept makes no difference.
    for trace in [false, true] {
        let compile = |q| {
            let parameters = vec![0.7, 0.3, -0.4];
            BergomiLsvPricingPlan::compile(&w, q, 1, parameters, particles(trace)).map(|_| ())
        };
        let mut q = request(vec![0.04; 9], false);
        q.target = None;
        assert!(matches!(compile(q), Err(MonteCarloError::UnsupportedModel { .. })));
        let mut q = request(vec![0.04; 9], false);
        q.vega_kt = true;
        assert!(matches!(compile(q), Err(MonteCarloError::UnsupportedRiskForModel { .. })));
        assert_eq!(compile(request(vec![0.04; 9], false)), Ok(()));
    }
}

#[test]
fn plans_are_identified_by_the_digest_of_what_they_depend_on() {
    let plain = plan(false, false).plan_fingerprint();
    let mut message: Vec<u8> = b"pricing/bergomi-lsv-plan/v2\0".to_vec();
    message.extend([3u8; 32]);
    for x in [0.7_f64, 0.3, -0.4, 0.5, 2.0] {
        message.extend(x.to_bits().to_be_bytes());
    }
    message.extend(64u64.to_be_bytes());
    message.extend(71u64.to_be_bytes());
    message.push(0);
    for _ in 0..9 {
        message.extend(0.04_f64.to_bits().to_be_bytes());
    }
    assert_eq!(plain.bytes, *blake3::hash(&message).as_bytes());
    assert_ne!(plain.bytes, plan(false, true).plan_fingerprint().bytes);
}
