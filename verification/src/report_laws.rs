//! What a report says: an estimate is the mean that its total stands for, with an interval
//! around it that is as wide as its error, a scaled risk number is the raw one times the move
//! that it is scaled to, and each number is that of its own quantity.

use crate::engine::EngineConfig;
use crate::errors::MonteCarloError;
use crate::estimation::mean_of;
use crate::local_vol::reflected;
use crate::local_vol_laws::cancelled;
use crate::pricing::priced;
use crate::report::{
    barrier_diagnostics_of, diagnostics_of, estimate_of, one_percent, risk_report_of, Estimate,
    Publication, RiskDiagnostics, RiskReport,
};
use crate::sampling::{Backend, Statistics};
use crate::scalar::{literal, over, times, Model, Scalar};
use crate::simulation::{
    EstimatorKind, SimulationPlan, BARRIER_BRIDGE_HIT_WEIGHT, BARRIER_CERTAIN_SURVIVAL_COUNT,
    BARRIER_DIVIDEND_JUMP_HIT, BARRIER_ENDPOINT_HIT, BARRIER_FINITE_CORRECTION_COUNT,
    BARRIER_INTERVAL_COUNT, BARRIER_SURVIVAL_UNDERFLOW_COUNT, BARRIER_ZERO_VARIANCE_COUNT,
    BUMP_DELTA, BUMP_GAMMA, BUMP_VEGA, DELTA, DELTA_DIFFERENCE, GAMMA, GAMMA_DIFFERENCE,
    PATHWISE_COMPONENTS, PRICE, VEGA, VEGA_DIFFERENCE,
};
use crate::simulation_laws::{
    adds_up, counts, draw_count, pairs_are_averaged, roots, what_no_draw_moves_is_its_estimate,
};
use crate::spot_paths::SpotPaths;
use crate::units::{statistics_of, table_of};
use crate::valuation::{
    plan_normals, plan_quasi_normals, spot_executed, spot_pair, spot_row, spot_rows,
};
use vstd::prelude::*;

verus! {

proof fn inverses(total: real, inverse: real, scale: real, k: real)
    requires
        inverse * k == 1 as real,
    ensures
        total * inverse * scale * k == total * scale,
        inverse * k * scale == scale,
{
    let t = total * inverse;
    assert(t * k == total) by (nonlinear_arith)
        requires
            t == total * inverse,
            inverse * k == 1 as real,
    ;
    assert(t * scale * k == (t * k) * scale) by (nonlinear_arith);
    assert((1 as real) * scale == scale) by (nonlinear_arith);
}

/// An estimate times the number of units is the total times the scale. Its interval lies
/// evenly around it, as far out as the quantile times the error, and the error, squared and
/// times the number of units, is the sample variance times the scale squared.
pub proof fn estimates_are_scaled_means<R: Scalar>(
    value: spec_fn(R) -> real,
    m: Model<R>,
    s: Statistics<R>,
    units: u64,
    scale: R,
    quantile: R,
    estimator: EstimatorKind,
)
    requires
        counts(m, value),
        units > 0,
    ensures
        ({
            let e = estimate_of(m, s, units, scale, quantile, estimator);
            let k = units as int as real;
            &&& value(e.value) * k == value(s.total) * value(scale)
            &&& value(e.upper) - value(e.value) == value(quantile) * value(e.standard_error)
            &&& value(e.value) - value(e.lower) == value(quantile) * value(e.standard_error)
            &&& roots(m, value) && (s.sample_variance matches Some(v) && value(v) >= 0 as real)
                ==> value(e.standard_error) * value(e.standard_error) * k == value(
                s.sample_variance->0,
            ) * (value(scale) * value(scale))
            &&& e.independent_units == units && e.estimator == estimator
        }),
{
    let k = units as int as real;
    let one = literal::<R>(1);
    let inverse = over(one, m.of(units));
    assert(value(one) == 1 as real);
    assert(value(m.of(units)) == k);
    assert(value(inverse) * k == 1 as real);
    inverses(value(s.total), value(inverse), value(scale), k);
    if roots(m, value) && (s.sample_variance matches Some(v) && value(v) >= 0 as real) {
        let v = s.sample_variance->0;
        let x = times(v, inverse);
        let (a, b, c) = (value(v), value(inverse), value(x));
        assert(b > 0 as real) by (nonlinear_arith)
            requires
                b * k == 1 as real,
                k > 0 as real,
        ;
        assert(c >= 0 as real) by (nonlinear_arith)
            requires
                c == a * b,
                a >= 0 as real,
                b > 0 as real,
        ;
        let r = value(m.sqrt(x));
        let t = value(scale);
        assert(r * r == c);
        let e = r * t;
        assert(e * e == (r * r) * (t * t)) by (nonlinear_arith)
            requires
                e == r * t,
        ;
        inverses(a, b, t * t, k);
    }
}

/// A report of risk numbers holds for each number the mean of its own quantity, and scaled it
/// is the change for a move of the spot by a hundredth, for a move of the spot by a hundredth
/// on either side, and for a move of the volatility by a hundredth.
pub proof fn risks_are_scaled_to_a_hundredth<R: Scalar, Q: Publication<R>>(
    value: spec_fn(R) -> real,
    m: Model<R>,
    q: Q,
    plan: SimulationPlan<R>,
    s: Seq<Statistics<R>>,
    units: u64,
    estimator: EstimatorKind,
)
    requires
        counts(m, value),
        units > 0,
    ensures
        risk_report_of(m, q, plan, s, units, estimator) matches Ok(r) ==> {
            let k = units as int as real;
            let spot = value(plan.spot);
            &&& r.delta matches Some(d) ==> value(d.raw.value) * k == value(s[DELTA as int].total)
                && value(d.market_scaled.value) * 100 as real == value(d.raw.value) * spot
            &&& r.gamma matches Some(g) ==> value(g.raw.value) * k == value(s[GAMMA as int].total)
                && value(g.market_scaled.value) * 10000 as real == value(g.raw.value) * (spot
                * spot)
            &&& r.vega matches Some(v) ==> value(v.raw.value) * k == value(s[VEGA as int].total)
                && value(v.market_scaled.value) * 100 as real == value(v.raw.value)
        },
{
    let (one, hundred) = (literal::<R>(1), literal::<R>(100));
    assert(value(one) == 1 as real && value(hundred) == 100 as real);
    let p = one_percent::<R>();
    assert(value(p) * 100 as real == 1 as real);
    let spot_move = times(plan.spot, p);
    let x = plan.normal_quantile;
    let k = units as int as real;
    estimates_are_scaled_means(value, m, s[DELTA as int], units, one, x, estimator);
    estimates_are_scaled_means(value, m, s[DELTA as int], units, spot_move, x, estimator);
    estimates_are_scaled_means(value, m, s[GAMMA as int], units, one, x, estimator);
    estimates_are_scaled_means(
        value,
        m,
        s[GAMMA as int],
        units,
        times(spot_move, spot_move),
        x,
        estimator,
    );
    estimates_are_scaled_means(value, m, s[VEGA as int], units, one, x, estimator);
    estimates_are_scaled_means(value, m, s[VEGA as int], units, p, x, estimator);
    if let Ok(r) = risk_report_of(m, q, plan, s, units, estimator) {
        if let Some(d) = r.delta {
            let t = value(s[DELTA as int].total);
            scaled_by(value(d.raw.value), value(d.market_scaled.value), t, k, value(spot_move));
            hundredth(value(plan.spot), value(p));
            let (a, b, c) = (value(d.raw.value), value(spot_move), value(plan.spot));
            assert(a * b * 100 as real == a * c) by (nonlinear_arith)
                requires
                    b * 100 as real == c,
            ;
        }
        if let Some(g) = r.gamma {
            let t = value(s[GAMMA as int].total);
            let y = value(times(spot_move, spot_move));
            scaled_by(value(g.raw.value), value(g.market_scaled.value), t, k, y);
            hundredth(value(plan.spot), value(p));
            let (a, b, c) = (value(g.raw.value), value(spot_move), value(plan.spot));
            assert(b * b * 10000 as real == c * c) by (nonlinear_arith)
                requires
                    b * 100 as real == c,
            ;
            assert(a * y * 10000 as real == a * (y * 10000 as real)) by (nonlinear_arith);
        }
        if let Some(v) = r.vega {
            let t = value(s[VEGA as int].total);
            scaled_by(value(v.raw.value), value(v.market_scaled.value), t, k, value(p));
            let (a, b) = (value(v.raw.value), value(p));
            assert(a * b * 100 as real == a) by (nonlinear_arith)
                requires
                    b * 100 as real == 1 as real,
            ;
        }
    }
}

proof fn hundredth(spot: real, p: real)
    requires
        p * 100 as real == 1 as real,
    ensures
        spot * p * 100 as real == spot,
{
    assert(spot * p * 100 as real == spot) by (nonlinear_arith)
        requires
            p * 100 as real == 1 as real,
    ;
}

proof fn scaled_by(raw: real, scaled: real, total: real, k: real, scale: real)
    requires
        k != 0 as real,
        raw * k == total * 1 as real,
        scaled * k == total * scale,
    ensures
        scaled == raw * scale,
        raw * k == total,
{
    assert(total * 1 as real == total) by (nonlinear_arith);
    assert((raw * scale) * k == (raw * k) * scale) by (nonlinear_arith);
    cancelled(scaled, raw * scale, k);
}

/// A validation holds the mean of the bumped revaluation and the mean of its distance from
/// the primary number, each that of its own risk.
pub proof fn validations_are_means<R: Scalar, Q: Publication<R>>(
    value: spec_fn(R) -> real,
    m: Model<R>,
    q: Q,
    plan: SimulationPlan<R>,
    s: Seq<Statistics<R>>,
    units: u64,
    estimator: EstimatorKind,
)
    requires
        counts(m, value),
        units > 0,
    ensures
        diagnostics_of(m, q, plan, s, units, estimator) matches Ok(r) ==> {
            let k = units as int as real;
            &&& r.delta_validation matches Some(d) ==> value(d.bump_and_revalue.value) * k == value(
                s[BUMP_DELTA as int].total,
            ) && value(d.bump_minus_primary.value) * k == value(s[DELTA_DIFFERENCE as int].total)
            &&& r.gamma_validation matches Some(d) ==> value(d.bump_and_revalue.value) * k == value(
                s[BUMP_GAMMA as int].total,
            ) && value(d.bump_minus_primary.value) * k == value(s[GAMMA_DIFFERENCE as int].total)
            &&& r.vega_validation matches Some(d) ==> value(d.bump_and_revalue.value) * k == value(
                s[BUMP_VEGA as int].total,
            ) && value(d.bump_minus_primary.value) * k == value(s[VEGA_DIFFERENCE as int].total)
        },
{
    let one = literal::<R>(1);
    let x = plan.normal_quantile;
    assert(value(one) == 1 as real);
    unscaled(value, m, s[BUMP_DELTA as int], units, x, estimator);
    unscaled(value, m, s[DELTA_DIFFERENCE as int], units, x, estimator);
    unscaled(value, m, s[BUMP_GAMMA as int], units, x, estimator);
    unscaled(value, m, s[GAMMA_DIFFERENCE as int], units, x, estimator);
    unscaled(value, m, s[BUMP_VEGA as int], units, x, estimator);
    unscaled(value, m, s[VEGA_DIFFERENCE as int], units, x, estimator);
}

proof fn unscaled<R: Scalar>(
    value: spec_fn(R) -> real,
    m: Model<R>,
    s: Statistics<R>,
    units: u64,
    quantile: R,
    estimator: EstimatorKind,
)
    requires
        counts(m, value),
        units > 0,
    ensures
        value(estimate_of(m, s, units, literal(1), quantile, estimator).value)
            * units as int as real == value(s.total),
{
    let one = literal::<R>(1);
    assert(value(one) == 1 as real);
    estimates_are_scaled_means(value, m, s, units, one, quantile, estimator);
    let t = value(s.total);
    assert(t * 1 as real == t) by (nonlinear_arith);
}

/// Each barrier diagnostic is the mean of its own quantity.
pub proof fn barrier_diagnostics_are_means<R: Scalar>(
    value: spec_fn(R) -> real,
    m: Model<R>,
    plan: SimulationPlan<R>,
    s: Seq<Statistics<R>>,
    units: u64,
)
    requires
        counts(m, value),
        units > 0,
    ensures
        barrier_diagnostics_of(m, plan, s, units) matches Some(d) ==> {
            let k = units as int as real;
            &&& value(d.endpoint_hit_fraction) * k == value(s[BARRIER_ENDPOINT_HIT as int].total)
            &&& value(d.dividend_jump_hit_fraction) * k == value(
                s[BARRIER_DIVIDEND_JUMP_HIT as int].total,
            )
            &&& value(d.mean_conditional_bridge_hit_weight) * k == value(
                s[BARRIER_BRIDGE_HIT_WEIGHT as int].total,
            )
            &&& value(d.mean_interval_count) * k == value(s[BARRIER_INTERVAL_COUNT as int].total)
            &&& value(d.mean_finite_correction_count) * k == value(
                s[BARRIER_FINITE_CORRECTION_COUNT as int].total,
            )
            &&& value(d.mean_zero_variance_count) * k == value(
                s[BARRIER_ZERO_VARIANCE_COUNT as int].total,
            )
            &&& value(d.mean_survival_underflow_count) * k == value(
                s[BARRIER_SURVIVAL_UNDERFLOW_COUNT as int].total,
            )
            &&& value(d.mean_certain_survival_count) * k == value(
                s[BARRIER_CERTAIN_SURVIVAL_COUNT as int].total,
            )
        },
{
    assert(value(m.of(units)) == units as int as real);
}

/// A price reports as many units as the engine has, twice as many paths as draws where each
/// has a mirror image, and for the variance of the estimator that of the sample over the
/// number of units.
pub proof fn prices_count_their_paths<R: Scalar, V>(
    value: spec_fn(R) -> real,
    m: Model<R>,
    plan: SimulationPlan<R>,
    engine: EngineConfig,
    s: Seq<Statistics<R>>,
    estimate: Estimate<R>,
    variance: R,
    risks: RiskReport<R>,
    vega_kt: Option<V>,
    diagnostics: RiskDiagnostics<R>,
)
    requires
        counts(m, value),
        engine.units() > 0,
        engine.paths() <= u128::MAX,
    ensures
        ({
            let r = priced(
                m,
                plan,
                engine,
                s,
                estimate,
                variance,
                risks,
                vega_kt,
                diagnostics,
            );
            &&& value(r.estimator_variance) * engine.units() as int as real == value(variance)
            &&& r.independent_sampling_units == engine.units()
            &&& r.evaluated_paths == draw_count(engine) * (if engine.reduction().antithetic {
                2int
            } else {
                1int
            })
        }),
{
    let n = engine.units();
    assert(value(m.of(n)) == n as int as real);
    match engine {
        EngineConfig::PseudoMonteCarlo(c) => {
            assert(engine.paths() >= 0) by (nonlinear_arith)
                requires
                    engine.paths() == c.independent_sampling_units * (
                    if engine.reduction().antithetic {
                        2int
                    } else {
                        1int
                    }),
            ;
        },
        EngineConfig::RandomizedQuasiMonteCarlo(c) => {
            let (a, b) = (c.points_per_scramble as int, c.scramble_count as int);
            assert(a * b == b * a && a * b >= 0) by (nonlinear_arith)
                requires
                    a >= 0,
                    b >= 0,
            ;
        },
    }
}

proof fn pairs_are_alike<R: Scalar, W: SpotPaths<R>>(
    value: spec_fn(R) -> real,
    m: Model<R>,
    w: W,
    plan: SimulationPlan<R>,
    antithetic: bool,
    normals: Result<Seq<R>, MonteCarloError>,
    j: int,
    x: real,
)
    requires
        counts(m, value),
        0 <= j < PATHWISE_COMPONENTS,
        forall|z: Seq<R>| #[trigger]
            spot_row(w, plan, z) matches Ok(row) ==> row.len() == PATHWISE_COMPONENTS && value(
                row[j],
            ) == x,
    ensures
        spot_pair(w, plan, antithetic, normals) matches Ok(row) ==> value(row[j]) == x,
{
    if let Ok(z) = normals {
        let a = spot_row(w, plan, z);
        let b = spot_row(w, plan, reflected(z));
        pairs_are_averaged(value, m, a, b, j);
    }
}

/// A quantity of a constant-volatility plan that no draw moves is its own mean: with and
/// without mirror images, for either engine.
pub proof fn a_still_quantity_is_its_mean<R: Scalar, B: Backend<R>, W: SpotPaths<R>>(
    value: spec_fn(R) -> real,
    m: Model<R>,
    b: B,
    w: W,
    plan: SimulationPlan<R>,
    engine: EngineConfig,
    j: int,
    x: real,
)
    requires
        counts(m, value),
        adds_up(value, b),
        draw_count(engine) > 0,
        0 <= j < PATHWISE_COMPONENTS,
        forall|z: Seq<R>| #[trigger]
            spot_row(w, plan, z) matches Ok(row) ==> row.len() == PATHWISE_COMPONENTS && value(
                row[j],
            ) == x,
    ensures
        table_of(m, b, spot_rows(b, w, plan, engine), engine, false) matches Ok(table) ==> value(
            mean_of(
                m,
                statistics_of(b, engine, false, table, PATHWISE_COMPONENTS as nat)[j],
                engine.units(),
            ),
        ) == x,
{
    let rows = spot_rows(b, w, plan, engine);
    let antithetic = engine.reduction().antithetic;
    assert forall|p: int| #[trigger] (rows.unit)(p) matches Ok(row) ==> value(row[j]) == x by {
        let z = Ok(plan_normals(b, plan, p as u64));
        pairs_are_alike(value, m, w, plan, antithetic, z, j, x);
    }
    assert forall|s: u32, p: int| #[trigger] (rows.point)(s, p) matches Ok(row) ==> value(row[j])
        == x by {
        let z = plan_quasi_normals(b, plan, s, p as u64);
        pairs_are_alike(value, m, w, plan, antithetic, z, j, x);
    }
    what_no_draw_moves_is_its_estimate(
        value,
        m,
        b,
        rows,
        engine,
        false,
        PATHWISE_COMPONENTS as nat,
        j,
        x,
    );
}

proof fn mean_and_total<R: Scalar>(
    value: spec_fn(R) -> real,
    m: Model<R>,
    s: Statistics<R>,
    units: u64,
    estimate: real,
    x: real,
)
    requires
        counts(m, value),
        units > 0,
        value(mean_of(m, s, units)) == x,
        estimate * units as int as real == value(s.total),
    ensures
        estimate == x,
{
    assert(value(m.of(units)) == units as int as real);
    cancelled(estimate, x, units as int as real);
}

/// A payoff that is the same number under all normals is its own price under a
/// constant-volatility plan that asks for no risk.
pub proof fn a_fixed_payoff_is_its_spot_price<
    R: Scalar,
    B: Backend<R>,
    W: SpotPaths<R>,
    Q: Publication<R>,
    V,
>(
    value: spec_fn(R) -> real,
    m: Model<R>,
    b: B,
    w: W,
    q: Q,
    plan: SimulationPlan<R>,
    engine: EngineConfig,
    x: real,
)
    requires
        counts(m, value),
        adds_up(value, b),
        draw_count(engine) > 0,
        engine.units() > 0,
        !plan.risk_requested(),
        !plan.continuous_barrier,
        forall|z: Seq<R>| #[trigger] w.payoff_of(z) matches Ok(v) ==> value(v) == x,
    ensures
        spot_executed::<R, B, W, Q, V>(m, b, w, q, plan, engine) matches Ok(r) ==> value(
            r.value.value,
        ) == x,
{
    if let Ok(r) = spot_executed::<R, B, W, Q, V>(m, b, w, q, plan, engine) {
        let table = table_of(m, b, spot_rows(b, w, plan, engine), engine, false)->Ok_0;
        let s = statistics_of(b, engine, false, table, PATHWISE_COMPONENTS as nat);
        a_still_quantity_is_its_mean(value, m, b, w, plan, engine, PRICE as int, x);
        unscaled(
            value,
            m,
            s[PRICE as int],
            engine.units(),
            plan.normal_quantile,
            r.value.estimator,
        );
        mean_and_total(value, m, s[PRICE as int], engine.units(), value(r.value.value), x);
    }
}

/// The price, delta, gamma and vega of a constant-volatility plan are those of its paths,
/// each its own, where no draw moves them.
pub proof fn fixed_risks_are_reported<
    R: Scalar,
    B: Backend<R>,
    W: SpotPaths<R>,
    Q: Publication<R>,
    V,
>(
    value: spec_fn(R) -> real,
    m: Model<R>,
    b: B,
    w: W,
    q: Q,
    plan: SimulationPlan<R>,
    engine: EngineConfig,
    price: real,
    delta: real,
    gamma: real,
    vega: real,
)
    requires
        counts(m, value),
        adds_up(value, b),
        draw_count(engine) > 0,
        engine.units() > 0,
        plan.risk_requested(),
        forall|z: Seq<R>| #[trigger]
            w.pathwise_values_of(z) matches Ok(row) ==> row.len() == PATHWISE_COMPONENTS && value(
                row[PRICE as int],
            ) == price && value(row[DELTA as int]) == delta && value(row[GAMMA as int]) == gamma
                && value(row[VEGA as int]) == vega,
    ensures
        spot_executed::<R, B, W, Q, V>(m, b, w, q, plan, engine) matches Ok(r) ==> {
            &&& value(r.value.value) == price
            &&& r.risks.delta matches Some(d) ==> value(d.raw.value) == delta
            &&& r.risks.gamma matches Some(g) ==> value(g.raw.value) == gamma
            &&& r.risks.vega matches Some(v) ==> value(v.raw.value) == vega
        },
{
    if let Ok(r) = spot_executed::<R, B, W, Q, V>(m, b, w, q, plan, engine) {
        let table = table_of(m, b, spot_rows(b, w, plan, engine), engine, false)->Ok_0;
        let s = statistics_of(b, engine, false, table, PATHWISE_COMPONENTS as nat);
        let n = engine.units();
        a_still_quantity_is_its_mean(value, m, b, w, plan, engine, PRICE as int, price);
        a_still_quantity_is_its_mean(value, m, b, w, plan, engine, DELTA as int, delta);
        a_still_quantity_is_its_mean(value, m, b, w, plan, engine, GAMMA as int, gamma);
        a_still_quantity_is_its_mean(value, m, b, w, plan, engine, VEGA as int, vega);
        unscaled(value, m, s[PRICE as int], n, plan.normal_quantile, r.value.estimator);
        mean_and_total(value, m, s[PRICE as int], n, value(r.value.value), price);
        risks_are_scaled_to_a_hundredth(value, m, q, plan, s, n, r.value.estimator);
        if let Some(d) = r.risks.delta {
            mean_and_total(value, m, s[DELTA as int], n, value(d.raw.value), delta);
        }
        if let Some(g) = r.risks.gamma {
            mean_and_total(value, m, s[GAMMA as int], n, value(g.raw.value), gamma);
        }
        if let Some(v) = r.risks.vega {
            mean_and_total(value, m, s[VEGA as int], n, value(v.raw.value), vega);
        }
    }
}

} // verus!
