//! What bumped revaluations are: the derivative of a price that is linear in its parameters
//! with respect to each of them, in the order in which they are named, and gamma the slope
//! of a delta that is linear in the spot.

use crate::bumps::{
    bump_estimates, central_difference, difference_quantities, differences, moved, scenario_value,
    sizes, Bump,
};
use crate::dividend_gamma::{
    gamma_at, gamma_finish, ladder, scenario_spot, spot_adjoint_of, ScenarioView,
};
use crate::early_exercise::{exercise_fractions, in_sample_cashflows, unit_mean};
use crate::errors::MonteCarloError;
use crate::estimation::Job;
use crate::local_vol_laws::cancelled;
use crate::lsv_risk::{
    bumped, correlation_bumps, correlation_labels, correlation_risk, correlation_scenario,
    dividend_model_bumps, dividend_model_labels, dividend_model_risk, dividend_model_scenario,
    parameter_bumps, parameter_labels, parameter_risk, parameter_scenario,
    two_factor_correlation_bumps, two_factor_correlation_labels, two_factor_correlation_risk,
    two_factor_correlation_scenario, two_factor_parameter_bumps, two_factor_parameter_labels,
    two_factor_parameter_risk, two_factor_parameter_scenario,
};
use crate::models::{
    Bergomi1Factor, Bergomi2Factor, BuehlerDividendModel, BuehlerDividendState, LsvCalibration,
    Pair,
};
use crate::plan::StochasticDividendPricingPlan;
use crate::plan_world::PlanWorld;
use crate::results::{gather, gather_values};
use crate::sampling::{half, Backend};
use crate::scalar::{exact, literal, over, times, Model, Scalar};
use crate::simulation::{resolved_bump, SpotBump};
use crate::simulation_laws::{a_fixed_quantity_is_its_estimate, adds_up, counts, draw_count, sum_of};
use crate::world::{dividend_scenario, path_value, recalibrated_one, recalibrated_two, World};
use vstd::prelude::*;

verus! {

/// A parameter that is moved up lies above where it was by its bump, and one that is moved
/// down below it by as much.
pub proof fn moves_go_both_ways<R: Scalar>(value: spec_fn(R) -> real, parameter: R, bump: R)
    requires
        exact(value),
    ensures
        value(moved(parameter, bump, true)) == value(parameter) + value(bump),
        value(moved(parameter, bump, false)) == value(parameter) - value(bump),
{
}

/// The central difference of a linear price is its slope, whatever the bump.
pub proof fn central_differences_differentiate<R: Scalar>(
    value: spec_fn(R) -> real,
    m: Model<R>,
    down: R,
    up: R,
    bump: R,
    at: real,
    slope: real,
)
    requires
        counts(m, value),
        value(bump) != 0 as real,
        value(up) == at + slope * value(bump),
        value(down) == at - slope * value(bump),
    ensures
        value(central_difference(down, up, bump)) == slope,
{
    let h = value(bump);
    let two = literal::<R>(2);
    assert(value(two) == 2 as real);
    assert(value(times(two, bump)) == 2 as real * h);
    let x = value(central_difference(down, up, bump));
    assert(x * (2 as real * h) == value(up) - value(down));
    assert(slope * (2 as real * h) == 2 as real * (slope * h)) by (nonlinear_arith);
    cancelled(x, slope, 2 as real * h);
}

/// The paths of a bumped plan are worth a number that is linear in each parameter: `at` on the
/// base path, and `slopes` times the bumps more or less on the scenarios, down first.
pub open spec fn linear_scenarios<R: Scalar, W: World<R>>(
    value: spec_fn(R) -> real,
    w: W,
    base: W::Path,
    scenarios: Seq<W::Path>,
    bumps: Seq<R>,
    at: real,
    slopes: Seq<real>,
) -> bool {
    &&& scenarios.len() == 2 * bumps.len()
    &&& slopes.len() == bumps.len()
    &&& forall|z: Seq<R>| #[trigger] path_value(w, base, z) matches Ok(v) ==> value(v) == at
    &&& forall|j: int, z: Seq<R>|
        0 <= j < bumps.len() ==> (#[trigger] path_value(w, scenarios[2 * j], z) matches Ok(v)
            ==> value(v) == at - slopes[j] * value(bumps[j]))
    &&& forall|j: int, z: Seq<R>|
        0 <= j < bumps.len() ==> (#[trigger] path_value(w, scenarios[2 * j + 1], z) matches Ok(v)
            ==> value(v) == at + slopes[j] * value(bumps[j]))
    &&& forall|j: int| 0 <= j < bumps.len() ==> value(#[trigger] bumps[j]) != 0 as real
}

proof fn linear_rows<R: Scalar, W: World<R>>(
    value: spec_fn(R) -> real,
    m: Model<R>,
    w: W,
    base: W::Path,
    scenarios: Seq<W::Path>,
    bumps: Seq<R>,
    at: real,
    slopes: Seq<real>,
    z: Seq<R>,
)
    requires
        counts(m, value),
        linear_scenarios(value, w, base, scenarios, bumps, at, slopes),
    ensures
        differences(w, base, scenarios, bumps)(z) matches Ok(row) ==> row.len() == 1 + bumps.len()
            && value(row[0]) == at && (forall|j: int|
            0 <= j < bumps.len() ==> value(#[trigger] row[1 + j]) == slopes[j]),
{
    if let Ok(row) = differences(w, base, scenarios, bumps)(z) {
        let f = scenario_value(w, base, scenarios, z);
        let n = (1 + scenarios.len()) as nat;
        gather_values(n, f);
        let values = gather(n, f)->Ok_0;
        assert(f(0) == Ok::<R, MonteCarloError>(values[0]));
        assert(path_value(w, base, z) is Ok);
        assert forall|j: int| 0 <= j < bumps.len() implies value(#[trigger] row[1 + j])
            == slopes[j] by {
            assert(f(2 * j + 1) == Ok::<R, MonteCarloError>(values[2 * j + 1]));
            assert(f(2 * j + 2) == Ok::<R, MonteCarloError>(values[2 * j + 2]));
            assert(path_value(w, scenarios[2 * j], z) is Ok);
            assert(path_value(w, scenarios[2 * j + 1], z) is Ok);
            assert(value(bumps[j]) != 0 as real);
            central_differences_differentiate(
                value,
                m,
                values[2 * j + 1],
                values[2 * j + 2],
                bumps[j],
                at,
                slopes[j],
            );
        }
    }
}

/// The estimates of a bumped plan whose paths are worth a number that is linear in each
/// parameter are that number and its slopes, each in the place of its parameter.
pub proof fn bumps_find_the_slopes<R: Scalar, B: Backend<R>, W: World<R>>(
    value: spec_fn(R) -> real,
    m: Model<R>,
    b: B,
    w: W,
    base: W::Path,
    scenarios: Seq<W::Path>,
    bumps: Seq<R>,
    job: Job,
    error_field: &'static str,
    field: &'static str,
    at: real,
    slopes: Seq<real>,
)
    requires
        counts(m, value),
        adds_up(value, b),
        draw_count(job.engine) > 0,
        linear_scenarios(value, w, base, scenarios, bumps, at, slopes),
    ensures
        bump_estimates(m, b, w, base, scenarios, bumps, job, error_field, field) matches Ok(
            (values, errors),
        ) ==> {
            &&& values.len() == 1 + bumps.len()
            &&& value(values[0]) == at
            &&& forall|j: int| 0 <= j < bumps.len() ==> value(#[trigger] values[1 + j]) == slopes[j]
        },
{
    let q = difference_quantities(w, base, scenarios, bumps);
    assert forall|z: Seq<R>| #[trigger]
        (q.terms)(z) matches Ok(row) ==> row.len() == q.width && value(row[0]) == at && (forall|
            j: int,
        |
            0 <= j < bumps.len() ==> value(#[trigger] row[1 + j]) == slopes[j]) by {
        linear_rows(value, m, w, base, scenarios, bumps, at, slopes, z);
    }
    if let Ok((values, errors)) = bump_estimates(
        m,
        b,
        w,
        base,
        scenarios,
        bumps,
        job,
        error_field,
        field,
    ) {
        a_fixed_quantity_is_its_estimate(value, m, b, q, job, 0, at);
        assert forall|j: int| 0 <= j < bumps.len() implies value(#[trigger] values[1 + j])
            == slopes[j] by {
            assert(1 + j < q.width);
            a_fixed_quantity_is_its_estimate(value, m, b, q, job, 1 + j, slopes[j]);
        }
    }
}

proof fn bumped_finds_the_slopes<R: Scalar, B: Backend<R>, W: World<R>>(
    value: spec_fn(R) -> real,
    m: Model<R>,
    b: B,
    w: W,
    plan: StochasticDividendPricingPlan<R, W::Path>,
    bumps: Seq<Bump<R>>,
    scenario: spec_fn(int) -> Result<W::Path, MonteCarloError>,
    labels: Seq<&'static str>,
    error_field: &'static str,
    field: &'static str,
    method: &'static str,
    at: real,
    slopes: Seq<real>,
)
    requires
        counts(m, value),
        adds_up(value, b),
        draw_count(plan.job.engine) > 0,
        slopes.len() == bumps.len(),
        forall|z: Seq<R>| #[trigger] path_value(w, plan.path, z) matches Ok(v) ==> value(v) == at,
        forall|j: int| 0 <= j < bumps.len() ==> value(#[trigger] bumps[j].size) != 0 as real,
        forall|k: int, z: Seq<R>|
            0 <= k < 2 * bumps.len() ==> (scenario(k) matches Ok(p) ==> (#[trigger] path_value(
                w,
                scenario(k)->Ok_0,
                z,
            ) matches Ok(v) ==> value(v) == (if k % 2 == 1 {
                at + slopes[k / 2] * value(bumps[k / 2].size)
            } else {
                at - slopes[k / 2] * value(bumps[k / 2].size)
            }))),
    ensures
        bumped(m, b, w, plan, bumps, scenario, labels, error_field, field, method) matches Ok(r)
            ==> {
            &&& value(r.price.value) == at
            &&& r.derivatives.len() == bumps.len()
            &&& forall|j: int|
                0 <= j < bumps.len() ==> value(#[trigger] r.derivatives[j]) == slopes[j]
        },
{
    if let Ok(r) = bumped(m, b, w, plan, bumps, scenario, labels, error_field, field, method) {
        let n = (2 * bumps.len()) as nat;
        let scenarios = gather(n, scenario)->Ok_0;
        gather_values(n, scenario);
        let s = sizes(bumps);
        assert forall|j: int| 0 <= j < s.len() implies value(#[trigger] s[j]) != 0 as real by {
            assert(value(bumps[j].size) != 0 as real);
        }
        assert forall|j: int, z: Seq<R>| 0 <= j < s.len() implies (#[trigger] path_value(
            w,
            scenarios[2 * j],
            z,
        ) matches Ok(v) ==> value(v) == at - slopes[j] * value(s[j])) by {
            let k = 2 * j;
            assert(scenario(k) == Ok::<W::Path, MonteCarloError>(scenarios[k]));
            assert(k % 2 == 0 && k / 2 == j);
            assert(path_value(w, scenario(k)->Ok_0, z) == path_value(w, scenarios[k], z));
        }
        assert forall|j: int, z: Seq<R>| 0 <= j < s.len() implies (#[trigger] path_value(
            w,
            scenarios[2 * j + 1],
            z,
        ) matches Ok(v) ==> value(v) == at + slopes[j] * value(s[j])) by {
            let k = 2 * j + 1;
            assert(scenario(k) == Ok::<W::Path, MonteCarloError>(scenarios[k]));
            assert(k % 2 == 1 && k / 2 == j);
            assert(path_value(w, scenario(k)->Ok_0, z) == path_value(w, scenarios[k], z));
        }
        bumps_find_the_slopes(
            value,
            m,
            b,
            w,
            plan.path,
            scenarios,
            s,
            plan.job,
            error_field,
            field,
            at,
            slopes,
        );
        let estimates = bump_estimates(
            m,
            b,
            w,
            plan.path,
            scenarios,
            s,
            plan.job,
            error_field,
            field,
        )->Ok_0;
        assert forall|j: int| 0 <= j < bumps.len() implies value(#[trigger] r.derivatives[j])
            == slopes[j] by {
            assert(r.derivatives[j] == estimates.0[1 + j]);
        }
    }
}

/// How much more a number is that has a slope in a parameter, where the parameter has
/// moved.
pub open spec fn gain<R>(value: spec_fn(R) -> real, slope: real, from: R, to: R) -> real {
    slope * (value(to) - value(from))
}

proof fn gains<R: Scalar>(value: spec_fn(R) -> real, slope: real, parameter: R, bump: R)
    requires
        exact(value),
    ensures
        gain(value, slope, parameter, parameter) == 0 as real,
        gain(value, slope, parameter, moved(parameter, bump, true)) == slope * value(bump),
        gain(value, slope, parameter, moved(parameter, bump, false)) == -(slope * value(bump)),
{
    let h = value(bump);
    moves_go_both_ways(value, parameter, bump);
    assert(value(moved(parameter, bump, true)) - value(parameter) == h);
    assert(value(moved(parameter, bump, false)) - value(parameter) == -h);
    assert(slope * (0 as real) == 0 as real && slope * (-h) == -(slope * h)) by (nonlinear_arith);
}

/// What a number that is linear in the parameters of a one-factor model is: `at` the model
/// `from`, and so much more for each parameter that lies higher, in the order mean reversion,
/// volatility of volatility, correlation of equity and volatility, correlation of dividends
/// and volatility.
pub open spec fn linear_one<R>(
    value: spec_fn(R) -> real,
    from: Bergomi1Factor<R>,
    from_correlation: R,
    at: real,
    slopes: Seq<real>,
    f: Bergomi1Factor<R>,
    correlation: R,
) -> real {
    at + gain(value, slopes[0], from.mean_reversion, f.mean_reversion) + gain(
        value,
        slopes[1],
        from.vol_of_vol,
        f.vol_of_vol,
    ) + gain(value, slopes[2], from.correlation, f.correlation) + gain(
        value,
        slopes[3],
        from_correlation,
        correlation,
    )
}

/// A world in which the paths of a one-factor model, calibrated anew or not, are worth a
/// number that is linear in its parameters.
pub open spec fn linear_in_one_factor<R: Scalar, W: World<R>>(
    value: spec_fn(R) -> real,
    w: W,
    path: W::Path,
    from: Bergomi1Factor<R>,
    from_correlation: R,
    at: real,
    slopes: Seq<real>,
) -> bool {
    &&& forall|z: Seq<R>| #[trigger] path_value(w, path, z) matches Ok(v) ==> value(v) == at
    &&& forall|f: Bergomi1Factor<R>, c: R, z: Seq<R>|
        recalibrated_one(w, path, f, c) is Ok ==> (#[trigger] path_value(
            w,
            recalibrated_one(w, path, f, c)->Ok_0,
            z,
        ) matches Ok(v) ==> value(v) == linear_one(value, from, from_correlation, at, slopes, f, c))
    &&& forall|f: Bergomi1Factor<R>, c: R, z: Seq<R>|
        w.attached_one(path, f, c, w.surface_of()) is Ok ==> (#[trigger] path_value(
            w,
            w.attached_one(path, f, c, w.surface_of())->Ok_0,
            z,
        ) matches Ok(v) ==> value(v) == linear_one(value, from, from_correlation, at, slopes, f, c))
}

/// What a number that is linear in the parameters of a two-factor model is: `at` the model
/// `from`, and so much more for each parameter that lies higher, in the order of the two mean
/// reversions, the volatility of volatility, the mixing weight, the two correlations of the
/// spot, that of the factors, and the two of the dividends.
pub open spec fn linear_two<R>(
    value: spec_fn(R) -> real,
    from: Bergomi2Factor<R>,
    from_correlations: Pair<R>,
    at: real,
    slopes: Seq<real>,
    f: Bergomi2Factor<R>,
    correlations: Pair<R>,
) -> real {
    at + gain(value, slopes[0], from.mean_reversions.first, f.mean_reversions.first) + gain(
        value,
        slopes[1],
        from.mean_reversions.second,
        f.mean_reversions.second,
    ) + gain(value, slopes[2], from.vol_of_vol, f.vol_of_vol) + gain(
        value,
        slopes[3],
        from.mixing_weight,
        f.mixing_weight,
    ) + gain(value, slopes[4], from.spot_correlations.first, f.spot_correlations.first) + gain(
        value,
        slopes[5],
        from.spot_correlations.second,
        f.spot_correlations.second,
    ) + gain(value, slopes[6], from.factor_correlation, f.factor_correlation) + gain(
        value,
        slopes[7],
        from_correlations.first,
        correlations.first,
    ) + gain(value, slopes[8], from_correlations.second, correlations.second)
}

/// A world in which the paths of a two-factor model, calibrated anew or not, are worth a
/// number that is linear in its parameters.
pub open spec fn linear_in_two_factors<R: Scalar, W: World<R>>(
    value: spec_fn(R) -> real,
    w: W,
    path: W::Path,
    from: Bergomi2Factor<R>,
    from_correlations: Pair<R>,
    at: real,
    slopes: Seq<real>,
) -> bool {
    &&& forall|z: Seq<R>| #[trigger] path_value(w, path, z) matches Ok(v) ==> value(v) == at
    &&& forall|f: Bergomi2Factor<R>, c: Pair<R>, z: Seq<R>|
        recalibrated_two(w, path, f, c) is Ok ==> (#[trigger] path_value(
            w,
            recalibrated_two(w, path, f, c)->Ok_0,
            z,
        ) matches Ok(v) ==> value(v) == linear_two(
            value,
            from,
            from_correlations,
            at,
            slopes,
            f,
            c,
        ))
    &&& forall|f: Bergomi2Factor<R>, c: Pair<R>, z: Seq<R>|
        w.attached_two(path, f, c, w.surface_of()) is Ok ==> (#[trigger] path_value(
            w,
            w.attached_two(path, f, c, w.surface_of())->Ok_0,
            z,
        ) matches Ok(v) ==> value(v) == linear_two(
            value,
            from,
            from_correlations,
            at,
            slopes,
            f,
            c,
        ))
}

/// A world in which the paths of a dividend model are worth a number that is linear in its
/// parameters: `at` the model `from`, and so much more for each parameter that lies higher,
/// in the order mean reversion, equity linkage, volatility, correlation with the equity.
pub open spec fn linear_in_dividends<R: Scalar, W: World<R>>(
    value: spec_fn(R) -> real,
    w: W,
    path: W::Path,
    calibration: LsvCalibration<R>,
    from: BuehlerDividendModel<R>,
    at: real,
    slopes: Seq<real>,
) -> bool {
    &&& forall|z: Seq<R>| #[trigger] path_value(w, path, z) matches Ok(v) ==> value(v) == at
    &&& forall|d: BuehlerDividendModel<R>, z: Seq<R>|
        dividend_scenario(w, path, calibration, d) is Ok ==> (#[trigger] path_value(
            w,
            dividend_scenario(w, path, calibration, d)->Ok_0,
            z,
        ) matches Ok(v) ==> value(v) == at + gain(
            value,
            slopes[0],
            from.mean_reversion,
            d.mean_reversion,
        ) + gain(value, slopes[1], from.equity_linkage, d.equity_linkage) + gain(
            value,
            slopes[2],
            from.dividend_volatility,
            d.dividend_volatility,
        ) + gain(
            value,
            slopes[3],
            from.equity_dividend_correlation,
            d.equity_dividend_correlation,
        ))
}

/// The bumps are of some size.
pub open spec fn all_move<R>(value: spec_fn(R) -> real, sizes: Seq<R>, n: nat) -> bool {
    sizes.len() == n && (forall|i: int| 0 <= i < n ==> value(#[trigger] sizes[i]) != 0 as real)
}

/// The parameter risk of a one-factor plan reports the slope in the mean reversion and then
/// that in the volatility of volatility.
#[verifier::rlimit(40)]
#[verifier::spinoff_prover]
pub proof fn parameter_risk_reports_its_slopes<R: Scalar, B: Backend<R>, W: World<R>>(
    value: spec_fn(R) -> real,
    m: Model<R>,
    b: B,
    w: W,
    plan: StochasticDividendPricingPlan<R, W::Path>,
    factor: Bergomi1Factor<R>,
    correlation: R,
    sizes: Seq<R>,
    at: real,
    slopes: Seq<real>,
)
    requires
        counts(m, value),
        adds_up(value, b),
        draw_count(plan.job.engine) > 0,
        all_move(value, sizes, 2),
        plan.lsv == Some(
            (LsvCalibration::One { factor, dividend_volatility_correlation: correlation }),
        ),
        slopes.len() == 4,
        linear_in_one_factor(value, w, plan.path, factor, correlation, at, slopes),
    ensures
        parameter_risk(m, b, w, plan, sizes) matches Ok(r) ==> {
            &&& value(r.price.value) == at
            &&& r.derivatives.len() == 2
            &&& value(r.derivatives[0]) == slopes[0]
            &&& value(r.derivatives[1]) == slopes[1]
        },
{
    let bumps = parameter_bumps(factor, correlation, sizes);
    let f = parameter_scenario(w, plan.path, factor, correlation, sizes);
    let s = seq![slopes[0], slopes[1]];
    gains(value, slopes[0], factor.mean_reversion, sizes[0]);
    gains(value, slopes[1], factor.vol_of_vol, sizes[1]);
    gains(value, slopes[2], factor.correlation, sizes[0]);
    gains(value, slopes[3], correlation, sizes[0]);
    assert forall|j: int| 0 <= j < 2 implies value(#[trigger] bumps[j].size) != 0 as real by {
        assert(bumps[j].size == sizes[j]);
    }
    assert forall|k: int, z: Seq<R>| 0 <= k < 4 implies (f(k) matches Ok(q) ==> (
    #[trigger] path_value(w, f(k)->Ok_0, z) matches Ok(v) ==> value(v) == (if k % 2 == 1 {
        at + s[k / 2] * value(bumps[k / 2].size)
    } else {
        at - s[k / 2] * value(bumps[k / 2].size)
    }))) by {
        let up = k % 2 == 1;
        if f(k) is Ok {
            if k / 2 == 0 {
                let x = Bergomi1Factor {
                    mean_reversion: moved(factor.mean_reversion, sizes[0], up),
                    ..factor
                };
                assert(f(k) == recalibrated_one(w, plan.path, x, correlation));
                let next = recalibrated_one(w, plan.path, x, correlation)->Ok_0;
                assert(path_value(w, next, z) == path_value(w, f(k)->Ok_0, z));
            } else if k / 2 == 1 {
                let x = Bergomi1Factor {
                    vol_of_vol: moved(factor.vol_of_vol, sizes[1], up),
                    ..factor
                };
                assert(f(k) == recalibrated_one(w, plan.path, x, correlation));
                let next = recalibrated_one(w, plan.path, x, correlation)->Ok_0;
                assert(path_value(w, next, z) == path_value(w, f(k)->Ok_0, z));
            }
        }
    }
    if let Ok(r) = parameter_risk(m, b, w, plan, sizes) {
        bumped_finds_the_slopes(
            value,
            m,
            b,
            w,
            plan,
            bumps,
            f,
            parameter_labels(),
            "lsv_bergomi_parameter_standard_error",
            "lsv_bergomi_parameter_risk_estimator",
            "buehler-residual-lsv-common-noise-full-recalibration-bergomi-1f-v1",
            at,
            s,
        );
        assert(value(r.derivatives[0]) == s[0]);
        assert(value(r.derivatives[1]) == s[1]);
    }
}

/// The correlation risk of a one-factor plan reports the slope in the correlation of equity
/// and volatility and then that in the correlation of dividends and volatility.
#[verifier::rlimit(40)]
#[verifier::spinoff_prover]
pub proof fn correlation_risk_reports_its_slopes<R: Scalar, B: Backend<R>, W: World<R>>(
    value: spec_fn(R) -> real,
    m: Model<R>,
    b: B,
    w: W,
    plan: StochasticDividendPricingPlan<R, W::Path>,
    factor: Bergomi1Factor<R>,
    correlation: R,
    sizes: Seq<R>,
    at: real,
    slopes: Seq<real>,
)
    requires
        counts(m, value),
        adds_up(value, b),
        draw_count(plan.job.engine) > 0,
        all_move(value, sizes, 2),
        plan.lsv == Some(
            (LsvCalibration::One { factor, dividend_volatility_correlation: correlation }),
        ),
        slopes.len() == 4,
        linear_in_one_factor(value, w, plan.path, factor, correlation, at, slopes),
    ensures
        correlation_risk(m, b, w, plan, sizes) matches Ok(r) ==> {
            &&& value(r.price.value) == at
            &&& r.derivatives.len() == 2
            &&& value(r.derivatives[0]) == slopes[2]
            &&& value(r.derivatives[1]) == slopes[3]
        },
{
    let bumps = correlation_bumps(factor, correlation, sizes);
    let f = correlation_scenario(w, plan.path, factor, correlation, sizes);
    let s = seq![slopes[2], slopes[3]];
    gains(value, slopes[2], factor.correlation, sizes[0]);
    gains(value, slopes[3], correlation, sizes[1]);
    gains(value, slopes[0], factor.mean_reversion, sizes[0]);
    gains(value, slopes[1], factor.vol_of_vol, sizes[0]);
    assert forall|j: int| 0 <= j < 2 implies value(#[trigger] bumps[j].size) != 0 as real by {
        assert(bumps[j].size == sizes[j]);
    }
    assert forall|k: int, z: Seq<R>| 0 <= k < 4 implies (f(k) matches Ok(q) ==> (
    #[trigger] path_value(w, f(k)->Ok_0, z) matches Ok(v) ==> value(v) == (if k % 2 == 1 {
        at + s[k / 2] * value(bumps[k / 2].size)
    } else {
        at - s[k / 2] * value(bumps[k / 2].size)
    }))) by {
        let up = k % 2 == 1;
        if f(k) is Ok {
            if k / 2 == 0 {
                let x = Bergomi1Factor {
                    correlation: moved(factor.correlation, sizes[0], up),
                    ..factor
                };
                assert(f(k) == recalibrated_one(w, plan.path, x, correlation));
                let next = recalibrated_one(w, plan.path, x, correlation)->Ok_0;
                assert(path_value(w, next, z) == path_value(w, f(k)->Ok_0, z));
            } else if k / 2 == 1 {
                let y = moved(correlation, sizes[1], up);
                assert(f(k) == w.attached_one(plan.path, factor, y, w.surface_of()));
                assert(path_value(
                    w,
                    w.attached_one(plan.path, factor, y, w.surface_of())->Ok_0,
                    z,
                ) == path_value(w, f(k)->Ok_0, z));
            }
        }
    }
    if let Ok(r) = correlation_risk(m, b, w, plan, sizes) {
        bumped_finds_the_slopes(
            value,
            m,
            b,
            w,
            plan,
            bumps,
            f,
            correlation_labels(),
            "lsv_correlation_standard_error",
            "lsv_correlation_risk_estimator",
            "buehler-residual-lsv-common-noise-bergomi-1f-correlation-v1",
            at,
            s,
        );
        assert(value(r.derivatives[0]) == s[0]);
        assert(value(r.derivatives[1]) == s[1]);
    }
}

/// The parameter risk of a two-factor plan reports the slopes in the two mean reversions, the
/// volatility of volatility and the mixing weight, in that order.
#[verifier::rlimit(40)]
#[verifier::spinoff_prover]
pub proof fn two_factor_parameter_risk_reports_its_slopes<R: Scalar, B: Backend<R>, W: World<R>>(
    value: spec_fn(R) -> real,
    m: Model<R>,
    b: B,
    w: W,
    plan: StochasticDividendPricingPlan<R, W::Path>,
    factor: Bergomi2Factor<R>,
    correlations: Pair<R>,
    sizes: Seq<R>,
    at: real,
    slopes: Seq<real>,
)
    requires
        counts(m, value),
        adds_up(value, b),
        draw_count(plan.job.engine) > 0,
        all_move(value, sizes, 4),
        plan.lsv == Some(
            (LsvCalibration::Two { factor, dividend_volatility_correlations: correlations }),
        ),
        slopes.len() == 9,
        linear_in_two_factors(value, w, plan.path, factor, correlations, at, slopes),
    ensures
        two_factor_parameter_risk(m, b, w, plan, sizes) matches Ok(r) ==> {
            &&& value(r.price.value) == at
            &&& r.derivatives.len() == 4
            &&& value(r.derivatives[0]) == slopes[0]
            &&& value(r.derivatives[1]) == slopes[1]
            &&& value(r.derivatives[2]) == slopes[2]
            &&& value(r.derivatives[3]) == slopes[3]
        },
{
    let bumps = two_factor_parameter_bumps(factor, correlations, sizes);
    let f = two_factor_parameter_scenario(w, plan.path, factor, correlations, sizes);
    let s = seq![slopes[0], slopes[1], slopes[2], slopes[3]];
    gains(value, slopes[0], factor.mean_reversions.first, sizes[0]);
    gains(value, slopes[1], factor.mean_reversions.second, sizes[1]);
    gains(value, slopes[2], factor.vol_of_vol, sizes[2]);
    gains(value, slopes[3], factor.mixing_weight, sizes[3]);
    gains(value, slopes[4], factor.spot_correlations.first, sizes[0]);
    gains(value, slopes[5], factor.spot_correlations.second, sizes[0]);
    gains(value, slopes[6], factor.factor_correlation, sizes[0]);
    gains(value, slopes[7], correlations.first, sizes[0]);
    gains(value, slopes[8], correlations.second, sizes[0]);
    assert forall|j: int| 0 <= j < 4 implies value(#[trigger] bumps[j].size) != 0 as real by {
        assert(bumps[j].size == sizes[j]);
    }
    assert forall|k: int, z: Seq<R>| 0 <= k < 8 implies (f(k) matches Ok(q) ==> (
    #[trigger] path_value(w, f(k)->Ok_0, z) matches Ok(v) ==> value(v) == (if k % 2 == 1 {
        at + s[k / 2] * value(bumps[k / 2].size)
    } else {
        at - s[k / 2] * value(bumps[k / 2].size)
    }))) by {
        let up = k % 2 == 1;
        if f(k) is Ok {
            if k / 2 == 0 {
                let x = Bergomi2Factor {
                    mean_reversions: (Pair {
                        first: moved(factor.mean_reversions.first, sizes[0], up),
                        ..factor.mean_reversions
                    }),
                    ..factor
                };
                assert(f(k) == recalibrated_two(w, plan.path, x, correlations));
                let next = recalibrated_two(w, plan.path, x, correlations)->Ok_0;
                assert(path_value(w, next, z) == path_value(w, f(k)->Ok_0, z));
            } else if k / 2 == 1 {
                let x = Bergomi2Factor {
                    mean_reversions: (Pair {
                        second: moved(factor.mean_reversions.second, sizes[1], up),
                        ..factor.mean_reversions
                    }),
                    ..factor
                };
                assert(f(k) == recalibrated_two(w, plan.path, x, correlations));
                let next = recalibrated_two(w, plan.path, x, correlations)->Ok_0;
                assert(path_value(w, next, z) == path_value(w, f(k)->Ok_0, z));
            } else if k / 2 == 2 {
                let x = Bergomi2Factor {
                    vol_of_vol: moved(factor.vol_of_vol, sizes[2], up),
                    ..factor
                };
                assert(f(k) == recalibrated_two(w, plan.path, x, correlations));
                let next = recalibrated_two(w, plan.path, x, correlations)->Ok_0;
                assert(path_value(w, next, z) == path_value(w, f(k)->Ok_0, z));
            } else if k / 2 == 3 {
                let x = Bergomi2Factor {
                    mixing_weight: moved(factor.mixing_weight, sizes[3], up),
                    ..factor
                };
                assert(f(k) == recalibrated_two(w, plan.path, x, correlations));
                let next = recalibrated_two(w, plan.path, x, correlations)->Ok_0;
                assert(path_value(w, next, z) == path_value(w, f(k)->Ok_0, z));
            }
        }
    }
    if let Ok(r) = two_factor_parameter_risk(m, b, w, plan, sizes) {
        bumped_finds_the_slopes(
            value,
            m,
            b,
            w,
            plan,
            bumps,
            f,
            two_factor_parameter_labels(),
            "lsv_bergomi_two_factor_parameter_standard_error",
            "lsv_bergomi_two_factor_parameter_risk_estimator",
            "buehler-residual-lsv-common-noise-full-recalibration-bergomi-2f-v1",
            at,
            s,
        );
        assert(value(r.derivatives[0]) == s[0]);
        assert(value(r.derivatives[1]) == s[1]);
        assert(value(r.derivatives[2]) == s[2]);
        assert(value(r.derivatives[3]) == s[3]);
    }
}

/// The correlation risk of a two-factor plan reports the slopes in the two correlations of the
/// spot, in that of the factors and in the two of the dividends, in that order.
#[verifier::rlimit(40)]
#[verifier::spinoff_prover]
pub proof fn two_factor_correlation_risk_reports_its_slopes<R: Scalar, B: Backend<R>, W: World<R>>(
    value: spec_fn(R) -> real,
    m: Model<R>,
    b: B,
    w: W,
    plan: StochasticDividendPricingPlan<R, W::Path>,
    factor: Bergomi2Factor<R>,
    correlations: Pair<R>,
    sizes: Seq<R>,
    at: real,
    slopes: Seq<real>,
)
    requires
        counts(m, value),
        adds_up(value, b),
        draw_count(plan.job.engine) > 0,
        all_move(value, sizes, 5),
        plan.lsv == Some(
            (LsvCalibration::Two { factor, dividend_volatility_correlations: correlations }),
        ),
        slopes.len() == 9,
        linear_in_two_factors(value, w, plan.path, factor, correlations, at, slopes),
    ensures
        two_factor_correlation_risk(m, b, w, plan, sizes) matches Ok(r) ==> {
            &&& value(r.price.value) == at
            &&& r.derivatives.len() == 5
            &&& value(r.derivatives[0]) == slopes[4]
            &&& value(r.derivatives[1]) == slopes[5]
            &&& value(r.derivatives[2]) == slopes[6]
            &&& value(r.derivatives[3]) == slopes[7]
            &&& value(r.derivatives[4]) == slopes[8]
        },
{
    let bumps = two_factor_correlation_bumps(factor, correlations, sizes);
    let f = two_factor_correlation_scenario(w, plan.path, factor, correlations, sizes);
    let s = seq![slopes[4], slopes[5], slopes[6], slopes[7], slopes[8]];
    gains(value, slopes[4], factor.spot_correlations.first, sizes[0]);
    gains(value, slopes[5], factor.spot_correlations.second, sizes[1]);
    gains(value, slopes[6], factor.factor_correlation, sizes[2]);
    gains(value, slopes[7], correlations.first, sizes[3]);
    gains(value, slopes[8], correlations.second, sizes[4]);
    gains(value, slopes[0], factor.mean_reversions.first, sizes[0]);
    gains(value, slopes[1], factor.mean_reversions.second, sizes[0]);
    gains(value, slopes[2], factor.vol_of_vol, sizes[0]);
    gains(value, slopes[3], factor.mixing_weight, sizes[0]);
    assert forall|j: int| 0 <= j < 5 implies value(#[trigger] bumps[j].size) != 0 as real by {
        assert(bumps[j].size == sizes[j]);
    }
    assert forall|k: int, z: Seq<R>| 0 <= k < 10 implies (f(k) matches Ok(q) ==> (
    #[trigger] path_value(w, f(k)->Ok_0, z) matches Ok(v) ==> value(v) == (if k % 2 == 1 {
        at + s[k / 2] * value(bumps[k / 2].size)
    } else {
        at - s[k / 2] * value(bumps[k / 2].size)
    }))) by {
        let up = k % 2 == 1;
        if f(k) is Ok {
            if k / 2 == 0 {
                let x = Bergomi2Factor {
                    spot_correlations: (Pair {
                        first: moved(factor.spot_correlations.first, sizes[0], up),
                        ..factor.spot_correlations
                    }),
                    ..factor
                };
                assert(f(k) == recalibrated_two(w, plan.path, x, correlations));
                let next = recalibrated_two(w, plan.path, x, correlations)->Ok_0;
                assert(path_value(w, next, z) == path_value(w, f(k)->Ok_0, z));
            } else if k / 2 == 1 {
                let x = Bergomi2Factor {
                    spot_correlations: (Pair {
                        second: moved(factor.spot_correlations.second, sizes[1], up),
                        ..factor.spot_correlations
                    }),
                    ..factor
                };
                assert(f(k) == recalibrated_two(w, plan.path, x, correlations));
                let next = recalibrated_two(w, plan.path, x, correlations)->Ok_0;
                assert(path_value(w, next, z) == path_value(w, f(k)->Ok_0, z));
            } else if k / 2 == 2 {
                let x = Bergomi2Factor {
                    factor_correlation: moved(factor.factor_correlation, sizes[2], up),
                    ..factor
                };
                assert(f(k) == recalibrated_two(w, plan.path, x, correlations));
                let next = recalibrated_two(w, plan.path, x, correlations)->Ok_0;
                assert(path_value(w, next, z) == path_value(w, f(k)->Ok_0, z));
            } else if k / 2 == 3 {
                let y = Pair { first: moved(correlations.first, sizes[3], up), ..correlations };
                assert(f(k) == w.attached_two(plan.path, factor, y, w.surface_of()));
                assert(path_value(
                    w,
                    w.attached_two(plan.path, factor, y, w.surface_of())->Ok_0,
                    z,
                ) == path_value(w, f(k)->Ok_0, z));
            } else if k / 2 == 4 {
                let y = Pair { second: moved(correlations.second, sizes[4], up), ..correlations };
                assert(f(k) == w.attached_two(plan.path, factor, y, w.surface_of()));
                assert(path_value(
                    w,
                    w.attached_two(plan.path, factor, y, w.surface_of())->Ok_0,
                    z,
                ) == path_value(w, f(k)->Ok_0, z));
            }
        }
    }
    if let Ok(r) = two_factor_correlation_risk(m, b, w, plan, sizes) {
        bumped_finds_the_slopes(
            value,
            m,
            b,
            w,
            plan,
            bumps,
            f,
            two_factor_correlation_labels(),
            "lsv_bergomi_two_factor_correlation_standard_error",
            "lsv_bergomi_two_factor_correlation_risk_estimator",
            "buehler-residual-lsv-common-noise-bergomi-2f-correlation-v1",
            at,
            s,
        );
        assert(value(r.derivatives[0]) == s[0]);
        assert(value(r.derivatives[1]) == s[1]);
        assert(value(r.derivatives[2]) == s[2]);
        assert(value(r.derivatives[3]) == s[3]);
        assert(value(r.derivatives[4]) == s[4]);
    }
}

/// The dividend model risk of a plan reports the slopes in the mean reversion, the equity
/// linkage, the volatility and the correlation with the equity, in that order.
#[verifier::rlimit(40)]
#[verifier::spinoff_prover]
pub proof fn dividend_model_risk_reports_its_slopes<R: Scalar, B: Backend<R>, W: World<R>>(
    value: spec_fn(R) -> real,
    m: Model<R>,
    b: B,
    w: W,
    plan: StochasticDividendPricingPlan<R, W::Path>,
    calibration: LsvCalibration<R>,
    sizes: Seq<R>,
    at: real,
    slopes: Seq<real>,
)
    requires
        counts(m, value),
        adds_up(value, b),
        draw_count(plan.job.engine) > 0,
        all_move(value, sizes, 4),
        plan.lsv == Some(calibration),
        slopes.len() == 4,
        linear_in_dividends(value, w, plan.path, calibration, plan.model, at, slopes),
    ensures
        dividend_model_risk(m, b, w, plan, sizes) matches Ok(r) ==> {
            &&& value(r.price.value) == at
            &&& r.derivatives.len() == 4
            &&& value(r.derivatives[0]) == slopes[0]
            &&& value(r.derivatives[1]) == slopes[1]
            &&& value(r.derivatives[2]) == slopes[2]
            &&& value(r.derivatives[3]) == slopes[3]
        },
{
    let bumps = dividend_model_bumps(plan.model, sizes);
    let f = dividend_model_scenario(w, plan.path, calibration, plan.model, sizes);
    let s = seq![slopes[0], slopes[1], slopes[2], slopes[3]];
    gains(value, slopes[0], plan.model.mean_reversion, sizes[0]);
    gains(value, slopes[1], plan.model.equity_linkage, sizes[1]);
    gains(value, slopes[2], plan.model.dividend_volatility, sizes[2]);
    gains(value, slopes[3], plan.model.equity_dividend_correlation, sizes[3]);
    assert forall|j: int| 0 <= j < 4 implies value(#[trigger] bumps[j].size) != 0 as real by {
        assert(bumps[j].size == sizes[j]);
    }
    assert forall|k: int, z: Seq<R>| 0 <= k < 8 implies (f(k) matches Ok(q) ==> (
    #[trigger] path_value(w, f(k)->Ok_0, z) matches Ok(v) ==> value(v) == (if k % 2 == 1 {
        at + s[k / 2] * value(bumps[k / 2].size)
    } else {
        at - s[k / 2] * value(bumps[k / 2].size)
    }))) by {
        let up = k % 2 == 1;
        if f(k) is Ok {
            if k / 2 == 0 {
                let x = BuehlerDividendModel {
                    mean_reversion: moved(plan.model.mean_reversion, sizes[0], up),
                    ..plan.model
                };
                assert(f(k) == dividend_scenario(w, plan.path, calibration, x));
                let next = dividend_scenario(w, plan.path, calibration, x)->Ok_0;
                assert(path_value(w, next, z) == path_value(w, f(k)->Ok_0, z));
            } else if k / 2 == 1 {
                let x = BuehlerDividendModel {
                    equity_linkage: moved(plan.model.equity_linkage, sizes[1], up),
                    ..plan.model
                };
                assert(f(k) == dividend_scenario(w, plan.path, calibration, x));
                let next = dividend_scenario(w, plan.path, calibration, x)->Ok_0;
                assert(path_value(w, next, z) == path_value(w, f(k)->Ok_0, z));
            } else if k / 2 == 2 {
                let x = BuehlerDividendModel {
                    dividend_volatility: moved(plan.model.dividend_volatility, sizes[2], up),
                    ..plan.model
                };
                assert(f(k) == dividend_scenario(w, plan.path, calibration, x));
                let next = dividend_scenario(w, plan.path, calibration, x)->Ok_0;
                assert(path_value(w, next, z) == path_value(w, f(k)->Ok_0, z));
            } else if k / 2 == 3 {
                let x = BuehlerDividendModel {
                    equity_dividend_correlation: moved(
                        plan.model.equity_dividend_correlation,
                        sizes[3],
                        up,
                    ),
                    ..plan.model
                };
                assert(f(k) == dividend_scenario(w, plan.path, calibration, x));
                let next = dividend_scenario(w, plan.path, calibration, x)->Ok_0;
                assert(path_value(w, next, z) == path_value(w, f(k)->Ok_0, z));
            }
        }
    }
    if let Ok(r) = dividend_model_risk(m, b, w, plan, sizes) {
        bumped_finds_the_slopes(
            value,
            m,
            b,
            w,
            plan,
            bumps,
            f,
            dividend_model_labels(),
            "lsv_dividend_model_standard_error",
            "lsv_dividend_model_risk_estimator",
            "buehler-residual-lsv-common-noise-fixed-calibration-dividend-model-v1",
            at,
            s,
        );
        assert(value(r.derivatives[0]) == s[0]);
        assert(value(r.derivatives[1]) == s[1]);
        assert(value(r.derivatives[2]) == s[2]);
        assert(value(r.derivatives[3]) == s[3]);
    }
}

/// The ladder of a gamma is half of its bump, the bump, and its double.
pub proof fn ladders_halve_and_double<R: Scalar>(value: spec_fn(R) -> real, m: Model<R>, h: R)
    requires
        counts(m, value),
    ensures
        ladder(h).len() == 3,
        2 as real * value(ladder(h)[0]) == value(h),
        ladder(h)[1] == h,
        value(ladder(h)[2]) == 2 as real * value(h),
{
    let (one, two) = (literal::<R>(1), literal::<R>(2));
    assert(value(one) == 1 as real && value(two) == 2 as real);
    assert(value(over(one, two)) * value(two) == value(one));
    let (a, x) = (value(half::<R>()), value(h));
    assert(2 as real * (a * x) == x) by (nonlinear_arith)
        requires
            a * 2 as real == 1 as real,
    ;
}

/// A relative bump is that share of the spot, and an absolute one is itself.
pub proof fn bumps_resolve<R: Scalar>(value: spec_fn(R) -> real, h: R, spot: R)
    requires
        exact(value),
    ensures
        value(resolved_bump(SpotBump::Relative(h), spot)) == value(h) * value(spot),
        resolved_bump(SpotBump::Absolute(h), spot) == h,
{
}

/// Where the delta of every scenario is linear in its spot, gamma is the slope, at each bump.
pub proof fn gamma_is_the_slope_of_delta<R: Scalar, W: PlanWorld<R>>(
    value: spec_fn(R) -> real,
    m: Model<R>,
    w: W,
    scenarios: Seq<ScenarioView<R, W::Surface>>,
    bumps: Seq<R>,
    states: Seq<BuehlerDividendState<R>>,
    spot: R,
    j: int,
    at: real,
    slope: real,
)
    requires
        counts(m, value),
        0 <= j < bumps.len(),
        value(bumps[j]) != 0 as real,
        forall|q: int|
            0 <= q < 2 * bumps.len() ==> (spot_adjoint_of(m, w, #[trigger] scenarios[q], states)
                matches Ok((_, delta)) ==> value(delta) == at + slope * value(
                scenario_spot(spot, bumps, q),
            )),
    ensures
        gamma_at(m, w, scenarios, bumps, states)(j) matches Ok(gamma) ==> value(gamma) == slope,
{
    if let Ok(gamma) = gamma_at(m, w, scenarios, bumps, states)(j) {
        let (d, u) = (scenarios[2 * j], scenarios[2 * j + 1]);
        let down = spot_adjoint_of(m, w, d, states)->Ok_0.1;
        let up = spot_adjoint_of(m, w, u, states)->Ok_0.1;
        let (s, h) = (value(spot), value(bumps[j]));
        assert((2 * j) / 2 == j && (2 * j + 1) / 2 == j && (2 * j) % 2 == 0 && (2 * j + 1) % 2
            == 1);
        assert(value(scenario_spot(spot, bumps, 2 * j)) == s - h);
        assert(value(scenario_spot(spot, bumps, 2 * j + 1)) == s + h);
        assert(slope * (s + h) == slope * s + slope * h && slope * (s - h) == slope * s - slope
            * h) by (nonlinear_arith);
        central_differences_differentiate(
            value,
            m,
            down,
            up,
            bumps[j],
            at + slope * s,
            slope,
        );
    }
}

/// The gaps beside three gammas are how far each lies above the next, and nothing where
/// they agree.
pub proof fn gaps_are_differences<R: Scalar>(
    value: spec_fn(R) -> real,
    m: Model<R>,
    row: Seq<R>,
    field: &'static str,
)
    requires
        exact(value),
        row.len() == 5,
    ensures
        gamma_finish(m, field)(row) matches Ok(all) ==> {
            &&& all.len() == 7
            &&& all.take(5) == row
            &&& value(all[3]) + value(all[5]) == value(all[2])
            &&& value(all[4]) + value(all[6]) == value(all[3])
        },
{
    if let Ok(all) = gamma_finish(m, field)(row) {
        assert(all.take(5) =~= row);
    }
}

/// The discounted cash flow of a training path is its own, discounted by the factor of its
/// own stop: it does not depend on another path, nor on the factor of another stop.
pub proof fn training_paths_stop_on_their_own<R: Scalar>(
    value: spec_fn(R) -> real,
    cashflows: Seq<R>,
    others: Seq<R>,
    stops: Seq<usize>,
    other_stops: Seq<usize>,
    discounts: Seq<R>,
    other_discounts: Seq<R>,
    i: int,
)
    requires
        exact(value),
        cashflows.len() == stops.len(),
        others.len() == cashflows.len(),
        other_stops.len() == stops.len(),
        0 <= i < cashflows.len(),
        cashflows[i] == others[i],
        stops[i] == other_stops[i],
        discounts[stops[i] as int] == other_discounts[stops[i] as int],
    ensures
        in_sample_cashflows(cashflows, stops, discounts).len() == cashflows.len(),
        in_sample_cashflows(cashflows, stops, discounts)[i] == in_sample_cashflows(
            others,
            other_stops,
            other_discounts,
        )[i],
        value(discounts[stops[i] as int]) == 1 as real ==> value(
            in_sample_cashflows(cashflows, stops, discounts)[i],
        ) == value(cashflows[i]),
        value(cashflows[i]) == 1 as real ==> value(
            in_sample_cashflows(cashflows, stops, discounts)[i],
        ) == value(discounts[stops[i] as int]),
{
    let (a, b) = (value(cashflows[i]), value(discounts[stops[i] as int]));
    assert(a * (1 as real) == a && (1 as real) * b == b) by (nonlinear_arith);
}

/// The fraction of the paths that stop at a date, times the number of paths, is how many
/// stop there.
pub proof fn fractions_count_paths<R: Scalar>(
    value: spec_fn(R) -> real,
    m: Model<R>,
    stopped: Seq<u64>,
    paths: u64,
    i: int,
)
    requires
        counts(m, value),
        paths > 0,
        0 <= i < stopped.len(),
    ensures
        exercise_fractions(m, stopped, paths).len() == stopped.len(),
        value(exercise_fractions(m, stopped, paths)[i]) * paths as int as real
            == stopped[i] as int as real,
{
    assert(value(m.of(paths)) == paths as int as real);
    assert(value(m.of(stopped[i])) == stopped[i] as int as real);
}

/// The mean of a few values, times their number, is what they add up to.
pub proof fn unit_means_are_averages<R: Scalar, B: Backend<R>>(
    value: spec_fn(R) -> real,
    m: Model<R>,
    b: B,
    values: Seq<R>,
)
    requires
        counts(m, value),
        adds_up(value, b),
        0 < values.len() <= u64::MAX,
    ensures
        value(unit_mean(m, b, values)) * values.len() as real == sum_of(value, values),
{
    let n = values.len() as u64;
    assert(value(m.of(n)) == n as int as real);
}

} // verus!
