//! The small parts that prices and risk are made of.

use pricing::backend::SuppliedBackend;
use pricing::bumps::{bump_sizes, shift, validate_bump, validate_bumps, Bump, Domain};
use pricing::early_exercise::{discount_cashflows, take_fractions};
use pricing::engine::{PseudoMonteCarlo, RandomizedQuasiMonteCarlo, VarianceReduction};
use pricing::errors::{MonteCarloError, StochasticDividendError};
use pricing::estimation::{estimate, estimate_together, estimator_error};
use pricing::fingerprint::Message;
use pricing::linear::{add_onto, are_rows_finite, dot_at, take_dot, take_total};
use pricing::models::Fingerprint;
use pricing::neumaier::{sum_compensated, NeumaierSum};
use pricing::quadrature::{make_cuts, simpson};
use pricing::report::{
    estimate_from_statistics, extrapolation_warnings, risk_estimate, zero_risk_estimate, Estimate,
    RiskUnit, SuppliedPublication,
};
use pricing::reverse::Label;
use pricing::sampling::{
    accumulate, apply_sign, bridge_factors, draw_normals, draw_quasi_normals, Backend, Statistics,
};
use pricing::scalar::{Arithmetic, Elementary, Math};
use pricing::simulation::{resolve_spot_bump, CurveRegion, EstimatorKind, SpotBump};
use pricing::units::take_column;

fn apply(f: Elementary, x: f64) -> f64 {
    match f {
        Elementary::Exp => x.exp(),
        Elementary::ExpM1 => x.exp_m1(),
        Elementary::Ln => x.ln(),
        Elementary::Ln1p => x.ln_1p(),
        Elementary::Sqrt => x.sqrt(),
        Elementary::Abs => x.abs(),
    }
}

fn arithmetic() -> impl Math<f64> {
    Arithmetic::new(
        apply,
        |x: f64, y: f64| x.powf(y),
        |x: f64| x.is_finite(),
        |n: u64| n as f64,
        |x: f64, y: f64| x.total_cmp(&y).is_lt(),
    )
}

/// A uniform in the open unit interval, by mixing the bits of its place.
fn mixed(a: u64, b: u64, c: u64) -> f64 {
    let mut x = a
        .wrapping_mul(0x9e37_79b9_7f4a_7c15)
        .wrapping_add(b.wrapping_mul(0xbf58_476d_1ce4_e5b9))
        .wrapping_add(c.wrapping_mul(0x94d0_49bb_1331_11eb));
    x = (x ^ (x >> 30)).wrapping_mul(0xbf58_476d_1ce4_e5b9);
    x = (x ^ (x >> 27)).wrapping_mul(0x94d0_49bb_1331_11eb);
    ((x ^ (x >> 31)) >> 11) as f64 / (1u64 << 53) as f64 + 2.0_f64.powi(-54)
}

/// Close to the inverse of the normal distribution function.
fn inverse(u: f64) -> f64 {
    (u / (1.0 - u)).ln() / 1.702
}

fn statistics(v: &Vec<f64>) -> Statistics<f64> {
    let total: f64 = v.iter().sum();
    let mean = total / v.len() as f64;
    let squares: f64 = v.iter().map(|x| (x - mean) * (x - mean)).sum();
    let sample_variance = if v.len() > 1 { Some(squares / (v.len() - 1) as f64) } else { None };
    Statistics { total, sample_variance }
}

fn backend() -> impl Backend<f64> {
    SuppliedBackend::new(
        |path: u64, dimension: u32| inverse(mixed(path, dimension as u64, 7)),
        |scramble: u32, point: u64, dimension: u32| Some(
            mixed(point, dimension as u64, 100 + scramble as u64),
        ),
        |u: f64| Some(inverse(u)),
        |draws: &Vec<f64>| -> Result<Vec<f64>, MonteCarloError> {
            // The draws in reverse order, as a bridge that is easily told apart.
            Ok(draws.iter().rev().cloned().collect())
        },
        |v: &Vec<f64>| statistics(v),
        |v: &Vec<f64>| statistics(v),
    )
}

fn named<T>(r: Result<T, MonteCarloError>) -> &'static str {
    match r {
        Err(MonteCarloError::StochasticDividend(StochasticDividendError::Invalid {
            field,
        })) => field,
        _ => panic!("not refused"),
    }
}

#[test]
fn compensated_sums_keep_what_rounding_loses() {
    let m = arithmetic();
    assert_eq!(sum_compensated(&m, &[1.0, 1e100, 1.0, -1e100]), 2.0);
    assert_eq!(sum_compensated::<f64, _>(&m, &[]), 0.0);
    // A sum goes on where it stopped.
    let mut s = NeumaierSum::new(&m);
    for x in [1.0, 1e100] {
        s.accumulate(&m, x);
    }
    for x in [1.0, -1e100] {
        s.accumulate(&m, x);
    }
    assert_eq!(s.total(&m), 2.0);
}

#[test]
fn products_read_no_more_than_they_multiply() {
    let m = arithmetic();
    let a = vec![1.0, 2.0];
    assert_eq!(take_dot(&m, &a, &vec![3.0, 4.0]), 11.0);
    assert_eq!(take_dot(&m, &a, &vec![3.0, 4.0, f64::NAN]), 11.0);
    assert_eq!(dot_at(&m, &a, &vec![9.0, 3.0, 4.0], 1), 11.0);
    assert_eq!(take_total(&m, &vec![1.0, 2.0, 3.0]), 6.0);
    assert_eq!(add_onto(&m, 10.0, &vec![1.0, 2.0]), 13.0);
    assert!(are_rows_finite(&m, &vec![vec![1.0], vec![]]));
    assert!(!are_rows_finite(&m, &vec![vec![1.0], vec![f64::INFINITY]]));
}

#[test]
fn panels_lie_between_the_knots_in_order() {
    let m = arithmetic();
    let cuts = make_cuts(&m, &vec![0.0, 0.5, 0.75, 2.0], 0.25, 1.0);
    assert_eq!(cuts, [0.0, 0.25, 0.5, 0.75]);
    assert_eq!(make_cuts(&m, &vec![0.0], 0.25, 1.0), [0.0, 0.75]);
    // Simpson's rule is exact up to the third power.
    let cube = |x: f64| vec![x * x * x, 1.0];
    let s = simpson(&m, 0.0, 2.0, &cube(0.0), &cube(1.0), &cube(2.0));
    assert!((s[0] - 4.0).abs() < 1e-14);
    assert!((s[1] - 2.0).abs() < 1e-14);
}

#[test]
fn bumps_stay_in_their_domain_and_move_their_parameter() {
    let m = arithmetic();
    let check = |domain, parameter, bump| validate_bump(
        &m,
        domain,
        parameter,
        bump,
        "bump",
    ).is_ok();
    assert!(check(Domain::Nonnegative, 0.1, 0.1));
    assert!(!check(Domain::Nonnegative, 0.1, 0.2));
    assert!(!check(Domain::Nonnegative, 0.1, 0.0));
    assert!(!check(Domain::Nonnegative, f64::NAN, 0.1));
    assert!(!check(Domain::Nonnegative, 1.0, 1e-20));
    assert!(check(Domain::UnitInterval, 0.5, 0.5));
    assert!(!check(Domain::UnitInterval, 0.9, 0.2));
    assert!(check(Domain::Correlation, -0.5, 0.5));
    assert!(!check(Domain::Correlation, -0.9, 0.2));
    let bump = |size, field| Bump { domain: Domain::Nonnegative, parameter: 1.0, size, field };
    let bumps = vec![bump(0.1, "first"), bump(2.0, "second"), bump(-1.0, "third")];
    assert_eq!(named(validate_bumps(&m, &bumps)), "second");
    assert_eq!(bump_sizes(&bumps), [0.1, 2.0, -1.0]);
    assert_eq!(shift(&m, 1.0, 0.25, true), 1.25);
    assert_eq!(shift(&m, 1.0, 0.25, false), 0.75);
    assert_eq!(resolve_spot_bump(&m, SpotBump::Relative(0.01), 50.0), 0.5);
    assert_eq!(resolve_spot_bump(&m, SpotBump::Absolute(0.01), 50.0), 0.01);
}

#[test]
fn factors_pass_through_the_bridge_one_by_one() {
    let b = backend();
    // The bridge reverses the draws of each of two interleaved factors.
    let z = bridge_factors(&b, vec![1.0, 10.0, 2.0, 20.0, 3.0, 30.0], 2).unwrap();
    assert_eq!(z, [3.0, 30.0, 2.0, 20.0, 1.0, 10.0]);
    assert_eq!(apply_sign(&arithmetic(), &vec![1.0, -2.0], -1.0), [-1.0, 2.0]);
    let mut total = vec![1.0, 2.0];
    accumulate(&arithmetic(), &mut total, &vec![10.0, 20.0]);
    assert_eq!(total, [11.0, 22.0]);
    assert_eq!(draw_normals(&b, 3, 2), [b.normal(3, 0), b.normal(3, 1)]);
    let z = draw_quasi_normals(&b, 1, 3, 2).unwrap();
    assert_eq!(z[1], inverse(mixed(3, 1, 101)));
    assert_eq!(take_column(&vec![vec![1.0, 2.0], vec![3.0, 4.0]], 1), [2.0, 4.0]);
}

#[test]
fn points_that_cannot_be_had_are_refused() {
    let b = SuppliedBackend::new(
        |_: u64, _: u32| 0.0,
        |_: u32, _: u64, dimension: u32| if dimension == 0 { Some(0.5) } else { None },
        |u: f64| Some(u),
        |draws: &Vec<f64>| -> Result<Vec<f64>, MonteCarloError> { Ok(draws.clone()) },
        |v: &Vec<f64>| statistics(v),
        |v: &Vec<f64>| statistics(v),
    );
    assert_eq!(draw_quasi_normals(&b, 0, 0, 1), Ok(vec![0.5]));
    assert!(draw_quasi_normals(&b, 0, 0, 2).is_err());
}

#[test]
fn reflected_draws_double_the_paths() {
    let reduction = |antithetic| VarianceReduction { antithetic, brownian_bridge: false };
    for (antithetic, paths) in [(false, 1), (true, 2)] {
        let pseudo = PseudoMonteCarlo {
            independent_sampling_units: 7,
            master_seed: 1,
            variance_reduction: reduction(antithetic),
        };
        assert_eq!(pseudo.evaluated_paths(), 7 * paths);
        let quasi = RandomizedQuasiMonteCarlo {
            points_per_scramble: u64::MAX,
            scramble_count: u32::MAX,
            master_seed: 1,
            variance_reduction: reduction(antithetic),
        };
        assert_eq!(quasi.evaluated_paths(), u64::MAX as u128 * u32::MAX as u128 * paths);
    }
}

#[test]
fn estimates_are_means_with_their_errors() {
    let m = arithmetic();
    let s = Statistics { total: 12.0, sample_variance: Some(16.0) };
    assert_eq!(estimator_error(&m, s, 4, "error"), Ok(2.0));
    let alone = Statistics { total: 12.0, sample_variance: None };
    assert_eq!(
        estimator_error(&m, alone, 1, "error"),
        Err(MonteCarloError::InsufficientSamplingUnits { count: 1 })
    );
    let wide = Statistics { total: 12.0, sample_variance: Some(f64::INFINITY) };
    assert_eq!(named(estimator_error(&m, wide, 4, "error")), "error");
    let e = estimate(&m, &vec![s, s], 4, "error", "value").ok().unwrap();
    assert_eq!(e.values, [3.0, 3.0]);
    assert_eq!(e.errors, [2.0, 2.0]);
    let e = estimate_together(&m, &vec![s], 4, "value").ok().unwrap();
    assert_eq!((e.values[0], e.errors[0]), (3.0, 2.0));
    let lost = Statistics { total: f64::NAN, sample_variance: Some(16.0) };
    assert_eq!(named(estimate(&m, &vec![s, lost], 4, "error", "value").map(|_| ())), "value");
    assert_eq!(named(estimate_together(&m, &vec![lost], 4, "together").map(|_| ())), "together");
}

#[test]
fn reports_scale_to_market_moves() {
    let m = arithmetic();
    let q = SuppliedPublication::new(|e: &Estimate<f64>| -> Option<MonteCarloError> {
        if e.value < 1e6 { None } else { Some(MonteCarloError::Component { code: 4 }) }
    });
    let s = Statistics { total: 12.0, sample_variance: Some(16.0) };
    let kind = EstimatorKind::PseudoMonteCarlo;
    let e = estimate_from_statistics(&m, &q, s, 4, 0.5, 2.0, kind).unwrap();
    assert_eq!((e.value, e.standard_error, e.lower, e.upper), (1.5, 1.0, -0.5, 3.5));
    let r = risk_estimate(
        &m,
        &q,
        s,
        4,
        0.01,
        RiskUnit::VegaRaw,
        RiskUnit::VegaOneVolPoint,
        2.0,
        kind,
    ).unwrap();
    assert_eq!(r.raw.value, 3.0);
    assert!((r.market_scaled.value - 0.03).abs() < 1e-15);
    assert_eq!(r.market_scaled_unit, RiskUnit::VegaOneVolPoint);
    let none = zero_risk_estimate(
        &m,
        &q,
        kind,
        4,
        RiskUnit::DeltaRaw,
        RiskUnit::DeltaOnePercentSpot,
    ).unwrap();
    assert_eq!((none.raw.value, none.market_scaled.upper), (0.0, 0.0));
    let large = Statistics { total: 4e7, sample_variance: Some(0.0) };
    assert_eq!(
        estimate_from_statistics(&m, &q, large, 4, 1.0, 2.0, kind),
        Err(MonteCarloError::Component { code: 4 })
    );
    let region = |extrapolated| CurveRegion { number: 0, extrapolated };
    let codes = |a, b| {
        let warnings = extrapolation_warnings(region(a), region(b));
        warnings.iter().map(|w| w.code).collect::<Vec<_>>()
    };
    assert_eq!(codes(false, false).len(), 0);
    assert_eq!(codes(true, true), ["discount_curve_extrapolation", "dividend_curve_extrapolation"]);
}

#[test]
fn exercised_cash_flows_are_discounted_from_their_dates() {
    let m = arithmetic();
    let v = discount_cashflows(&m, &vec![10.0, 20.0], &vec![1, 0], &vec![0.5, 0.25]);
    assert_eq!(v, [2.5, 10.0]);
    assert_eq!(take_fractions(&m, &vec![1, 3], 4), [0.25, 0.75]);
}

#[test]
fn names_carry_their_numbers() {
    assert_eq!(Label::Named("spot").text(), "spot");
    let at = |index| Label::Indexed { name: "cash_mean", index }.text();
    assert_eq!(at(0), "cash_mean[0]");
    assert_eq!(at(17), "cash_mean[17]");
    assert_eq!(at(u64::MAX), "cash_mean[18446744073709551615]");
    assert_ne!(at(1), at(10));
}

#[test]
fn messages_hold_their_bytes_and_are_digested() {
    let mut message = Message::new();
    message.push_text("tag\0");
    message.push_byte(9);
    message.push_u64(0x0102_0304_0506_0708);
    message.push_u64_reversed(0x0102_0304_0506_0708);
    message.push_all(&vec![1, 2]);
    message.push_all_reversed(&vec![3]);
    message.push_fingerprint(&Fingerprint { bytes: [5; 32] });
    let mut expected: Vec<u8> = b"tag\0".to_vec();
    expected.push(9);
    expected.extend(0x0102_0304_0506_0708u64.to_le_bytes());
    expected.extend(0x0102_0304_0506_0708u64.to_be_bytes());
    expected.extend(1u64.to_le_bytes());
    expected.extend(2u64.to_le_bytes());
    expected.extend(3u64.to_be_bytes());
    expected.extend([5u8; 32]);
    assert_eq!(message.bytes, expected);
    assert_eq!(message.fingerprint().bytes, *blake3::hash(&expected).as_bytes());
    assert_ne!(message.fingerprint().bytes, Message::new().fingerprint().bytes);
}
