//! The joint law of equity and rates over a step.

use pricing::errors::{HullWhiteError, MonteCarloError};
use pricing::rates::{covariance_loading, deterministic_rates, HullWhite1Factor, HybridCorrelation};
use pricing::scalar::{Arithmetic, Elementary, Math};

fn apply(f: Elementary, x: f64) -> f64 {
    match f {
        Elementary::Exp => x.exp(),
        Elementary::ExpM1 => x.exp_m1(),
        Elementary::Ln => x.ln(),
        Elementary::Ln1p => x.ln_1p(),
        Elementary::Sqrt => x.sqrt(),
        Elementary::Abs => x.abs(),
    }
}

fn arithmetic() -> impl Math<f64> {
    Arithmetic::new(
        apply,
        |x: f64, y: f64| x.powf(y),
        |x: f64| x.is_finite(),
        |n: u64| n as f64,
        |x: f64, y: f64| x.total_cmp(&y).is_lt(),
    )
}

#[test]
fn piecewise_joint_rate_covariance_matches_direct_kernel_quadrature() {
    let m = arithmetic();
    let rates = HullWhite1Factor::new(&m, 0.4, vec![0.0, 0.35], vec![0.03, 0.07]).unwrap();
    let corr = HybridCorrelation::new(&m, -0.25, 0.2, -0.3).unwrap();
    let c = rates.transition(&m, 0.1, 0.9, 0.0, corr).unwrap().covariance;
    let l = covariance_loading(&m, &c).unwrap();
    let mut reference = [[0.0; 4]; 4];
    for (lo, hi, sr) in [(0.1, 0.35, 0.03), (0.35, 0.9, 0.07)] {
        let n = 2000;
        let h = (hi - lo) / n as f64;
        for index in 0..=n {
            let u = lo + index as f64 * h;
            let z = 0.9 - u;
            let kernel = [
                1.0,
                1.0,
                sr * (-0.4_f64 * z).exp(),
                sr * (-(-0.4 * z).exp_m1()) / 0.4,
            ];
            let rho = [
                [1.0, -0.25, 0.2, 0.2],
                [-0.25, 1.0, -0.3, -0.3],
                [0.2, -0.3, 1.0, 1.0],
                [0.2, -0.3, 1.0, 1.0],
            ];
            let w = if index == 0 || index == n {
                1.0
            } else if index % 2 == 0 {
                2.0
            } else {
                4.0
            };
            for (i, row) in reference.iter_mut().enumerate() {
                for (j, value) in row.iter_mut().enumerate() {
                    *value += h * w / 3.0 * kernel[i] * kernel[j] * rho[i][j];
                }
            }
        }
    }
    for (i, row) in c.iter().enumerate() {
        for (j, &value) in row.iter().enumerate() {
            let reconstructed: f64 = l[i].iter().zip(&l[j]).map(|(x, y)| x * y).sum();
            assert!((value - reference[i][j]).abs() < 2e-13);
            assert!((value - reconstructed).abs() < 2e-13);
        }
    }
}

#[test]
fn rates_and_correlations_out_of_their_domain_are_refused() {
    let m = arithmetic();
    let refused = |field, index| Err(MonteCarloError::HullWhite(HullWhiteError::InvalidInput {
        field,
        index,
    }));
    assert_eq!(
        HullWhite1Factor::new(&m, -0.1, vec![0.0], vec![0.03]).map(|_| ()),
        refused("mean_reversion", 0)
    );
    assert_eq!(
        HullWhite1Factor::new(&m, 0.1, vec![0.0, 1.0], vec![0.03]).map(|_| ()),
        refused("volatility_times", 2)
    );
    assert_eq!(HybridCorrelation::new(&m, 0.9, 0.9, -0.9).map(|_| ()), refused("correlation", 0));
    assert!(HybridCorrelation::new(&m, 0.5, 0.5, 0.5).is_ok());
}

#[test]
fn rates_that_do_not_move_have_no_variance() {
    let m = arithmetic();
    let rates = deterministic_rates(&m).unwrap();
    assert!(rates.is_deterministic(&m));
    let corr = HybridCorrelation::new(&m, -0.25, 0.2, -0.3).unwrap();
    let c = rates.transition(&m, 0.0, 0.5, 0.0, corr).unwrap().covariance;
    assert_eq!(c[0][0], 0.5);
    assert_eq!(c[0][1], -0.125);
    assert_eq!(c[2][2], 0.0);
    assert_eq!(c[3][3], 0.0);
}
