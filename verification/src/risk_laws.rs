//! What risk numbers are: a basis point of a rate is a hundredth of a hundredth of it for as
//! long as its pillar is away, a bucketed vega and its remainder make the whole vega, what
//! is laid out in a row is found in its own place again, and adjoints carried back through
//! an interpolation are its transpose.

use crate::affine::AffineSpot;
use crate::affine_laws::pairing;
use crate::bump_laws::unit_means_are_averages;
use crate::dividend_aad::node_dv01;
use crate::early_exercise::{exercise_executed, in_sample_cashflows, policy_of};
use crate::engine::EngineConfig;
use crate::errors::MonteCarloError;
use crate::estimation::mean_of;
use crate::hybrid_aad::{
    blocks_bridged, draw_dimension, flat, hybrid_error, hybrid_outcome, hybrid_quantities,
    hybrid_rows, hybrid_sampled, hybrid_terms, point_normal, relative_factor, scramble_risk,
    through_calibration, unflat,
};
use crate::hybrid_context::{HullWhiteEquityPricingPlan, HybridContextView};
use crate::hybrid_risk::{discount_dv01, HybridRiskView};
use crate::hybrid_world::{fitting, flat_len, HybridWorld, NodeAdjointsView};
use crate::linear::basis_point;
use crate::local_vol_laws::cancelled;
use crate::local_vol_paths::LocalVolPaths;
use crate::local_vol_valuation::bucketed;
use crate::neumaier::compensated_sum;
use crate::paid_market::PaidMarket;
use crate::pathwise::LocalVolPlan;
use crate::plan::StochasticDividendPricingPlan;
use crate::report::Publication;
use crate::report_laws::estimates_are_scaled_means;
use crate::residual_risk::{adjoint_dv01, market_report};
use crate::residual_target::volatility_adjoint;
use crate::results::{gather, gather_failure, gather_values};
use crate::reverse::ContextView;
use crate::sampling::{as_they_are, finished, zeros, Backend, Quantities, Statistics};
use crate::scalar::{exact, literal, minus, negated, over, times, Model, Scalar};
use crate::simulation::{SimulationPlan, PATHWISE_COMPONENTS, PRICE, VEGA};
use crate::simulation_laws::{
    adds_up, compensated_sums_add_up, contributions_are_averaged, counts, draw_count, draws_total,
    estimates_are_averages, roots, sum_of, what_no_draw_moves_is_its_estimate,
};
use crate::spot_paths::ExercisePolicies;
use crate::target_grid::{spread, TargetGrid};
use crate::units::{column, scramble_row, table_of};
use crate::vega_kt::{tails, vega_kt_from, VegaBuckets};
use vstd::prelude::*;

verus! {

proof fn basis_points<R: Scalar>(value: spec_fn(R) -> real, m: Model<R>, pillar: R, derivative: R)
    requires
        counts(m, value),
    ensures
        10000 as real * value(times(times(negated(basis_point()), pillar), derivative)) == -(value(
            pillar,
        ) * value(derivative)),
{
    let (one, many) = (literal::<R>(1), literal::<R>(10000));
    assert(value(one) == 1 as real && value(many) == 10000 as real);
    assert(value(over(one, many)) * value(many) == value(one));
    let (p, a, d) = (value(basis_point::<R>()), value(pillar), value(derivative));
    let x = (-p) * a;
    assert(10000 as real * x == -a) by (nonlinear_arith)
        requires
            x == (-p) * a,
            p * 10000 as real == 1 as real,
    ;
    assert(10000 as real * (x * d) == (10000 as real * x) * d && (-a) * d == -(a * d))
        by (nonlinear_arith);
}

/// The effect of a basis point of a rate, ten thousand times, is that of the whole rate:
/// less by the time of its pillar times the derivative of the logarithm of its discount
/// factor, which stands in the place of the pillar.
pub proof fn basis_points_move_rates<R: Scalar>(
    value: spec_fn(R) -> real,
    m: Model<R>,
    derivatives: Seq<R>,
    pillars: Seq<R>,
    start: int,
    r: HybridRiskView<R>,
    i: int,
)
    requires
        counts(m, value),
        0 <= i,
    ensures
        i < pillars.len() ==> 10000 as real * value(node_dv01(derivatives, pillars, start)[i])
            == -(value(pillars[i]) * value(derivatives[start + i])),
        i < pillars.len() && i < derivatives.len() ==> 10000 as real * value(
            adjoint_dv01(derivatives, pillars)[i],
        ) == -(value(pillars[i]) * value(derivatives[i])),
        i < r.discount_times.len() ==> 10000 as real * value(discount_dv01(r)[i]) == -(value(
            r.discount_times[i],
        ) * value(r.derivatives[r.curve_start() + i])),
{
    if i < pillars.len() {
        basis_points(value, m, pillars[i], derivatives[start + i]);
        basis_points(value, m, pillars[i], derivatives[i]);
    }
    if i < r.discount_times.len() {
        basis_points(value, m, r.discount_times[i], r.derivatives[r.curve_start() + i]);
    }
}

/// The derivative with respect to a volatility, times that volatility, is twice the variance
/// times the derivative with respect to the variance.
pub proof fn volatilities_are_roots_of_variances<R: Scalar>(
    value: spec_fn(R) -> real,
    m: Model<R>,
    variances: Seq<R>,
    adjoints: Seq<R>,
    i: int,
)
    requires
        counts(m, value),
        roots(m, value),
        value(variances[i]) >= 0 as real,
    ensures
        volatility_adjoint(m, variances, adjoints)(i) matches Ok(x) ==> value(x) * value(
            m.sqrt(variances[i]),
        ) == 2 as real * (value(variances[i]) * value(adjoints[i])),
{
    let two = literal::<R>(2);
    assert(value(two) == 2 as real);
    let (s, v, a) = (value(m.sqrt(variances[i])), value(variances[i]), value(adjoints[i]));
    assert(s * s == v);
    let x = 2 as real * s * a;
    assert(x * s == 2 as real * ((s * s) * a)) by (nonlinear_arith)
        requires
            x == 2 as real * s * a,
    ;
}

/// A report of market risk holds the estimates one after the other and all of them: the
/// price, the spot, the cash dividends, the discount pillars, and then the repo pillars.
pub proof fn market_reports_hold_all_estimates<R, P>(
    plan: StochasticDividendPricingPlan<R, P>,
    k: ContextView<R>,
    values: Seq<R>,
    errors: Seq<R>,
)
    requires
        values.len() >= 2 + k.cash_times.len() + k.discount_times.len(),
        errors.len() == values.len(),
    ensures
        ({
            let r = market_report(plan, k, values, errors);
            &&& seq![r.price.value, r.delta] + r.cash_mean_adjoints + r.discount_log_df_adjoints
                + r.repo_spread_log_df_adjoints == values
            &&& seq![r.price.standard_error, r.delta_standard_error] + r.cash_mean_standard_errors
                + r.discount_log_df_standard_errors + r.repo_spread_log_df_standard_errors == errors
            &&& r.cash_mean_adjoints.len() == r.cash_times.len()
            &&& r.discount_log_df_adjoints.len() == r.discount_times.len()
            &&& r.cash_times == k.cash_times && r.discount_times == k.discount_times
                && r.repo_spread_times == k.repo_spread_times
        }),
{
    let r = market_report(plan, k, values, errors);
    assert(seq![r.price.value, r.delta] + r.cash_mean_adjoints + r.discount_log_df_adjoints
        + r.repo_spread_log_df_adjoints =~= values);
    assert(seq![r.price.standard_error, r.delta_standard_error] + r.cash_mean_standard_errors
        + r.discount_log_df_standard_errors + r.repo_spread_log_df_standard_errors =~= errors);
}

proof fn flat_places<R>(nodes: Seq<NodeAdjointsView<R>>, counts: Seq<usize>, i: int)
    requires
        fitting(nodes, counts),
        0 <= i < nodes.len(),
    ensures
        flat(nodes).len() == flat_len(counts),
        flat_len(counts.take(i)) + 2 + counts[i] <= flat_len(counts),
        flat(nodes)[flat_len(counts.take(i)) as int] == nodes[i].scale,
        flat(nodes)[flat_len(counts.take(i)) + 1int] == nodes[i].deterministic_reserve,
        flat(nodes).subrange(
            flat_len(counts.take(i)) + 2int,
            flat_len(counts.take(i)) + 2int + counts[i],
        ) == nodes[i].bond_amounts,
    decreases nodes.len(),
{
    let (short, fewer) = (nodes.drop_last(), counts.drop_last());
    assert(fitting(short, fewer));
    let n = nodes.last();
    flat_sizes(short, fewer);
    assert(counts.take(nodes.len() - 1) =~= fewer);
    if i == nodes.len() - 1 {
        let s = flat_len(fewer) as int;
        assert(flat(nodes).subrange(s + 2, s + 2 + counts[i]) =~= n.bond_amounts);
    } else {
        flat_places(short, fewer, i);
        assert(fewer.take(i) =~= counts.take(i));
        let s = flat_len(counts.take(i)) as int;
        assert(flat(nodes).subrange(s + 2, s + 2 + counts[i]) =~= flat(short).subrange(
            s + 2,
            s + 2 + counts[i],
        ));
    }
}

proof fn flat_sizes<R>(nodes: Seq<NodeAdjointsView<R>>, counts: Seq<usize>)
    requires
        fitting(nodes, counts),
    ensures
        flat(nodes).len() == flat_len(counts),
    decreases nodes.len(),
{
    if nodes.len() > 0 {
        assert(fitting(nodes.drop_last(), counts.drop_last()));
        flat_sizes(nodes.drop_last(), counts.drop_last());
    }
}

/// Adjoints of nodes that are laid out in a row behind three numbers are found again.
pub proof fn laid_out_nodes_are_found<R>(
    nodes: Seq<NodeAdjointsView<R>>,
    counts: Seq<usize>,
    first: Seq<R>,
    rest: Seq<R>,
)
    requires
        fitting(nodes, counts),
        first.len() == 3,
    ensures
        unflat(counts, first + flat(nodes) + rest) == nodes,
{
    let row = first + flat(nodes) + rest;
    let found = unflat(counts, row);
    assert forall|i: int| 0 <= i < nodes.len() implies found[i] == nodes[i] by {
        flat_places(nodes, counts, i);
        let s = flat_len(counts.take(i)) as int;
        assert(row.subrange(3 + s + 2, 3 + s + 2 + counts[i]) =~= flat(nodes).subrange(
            s + 2,
            s + 2 + counts[i],
        ));
    }
    assert(found =~= nodes);
}

/// The standard error of a price with hybrid risk, squared and multiplied by the number of
/// units, is the sample variance.
pub proof fn hybrid_errors_shrink_with_the_units<R: Scalar>(
    value: spec_fn(R) -> real,
    m: Model<R>,
    s: Statistics<R>,
    units: u64,
)
    requires
        counts(m, value),
        roots(m, value),
        units > 0,
        s.sample_variance matches Some(v) ==> value(v) >= 0 as real,
    ensures
        hybrid_error(m, s, units) matches Ok(e) ==> (s.sample_variance matches Some(v) && value(e)
            >= 0 as real && value(e) * value(e) * units as int as real == value(v)),
{
    if let Some(v) = s.sample_variance {
        let k = units as int as real;
        assert(value(m.of(units)) == k);
        let q = over(v, m.of(units));
        let (a, b) = (value(q), value(v));
        assert(a >= 0 as real) by (nonlinear_arith)
            requires
                a * k == b,
                b >= 0 as real,
                k > 0 as real,
        ;
        assert(value(m.sqrt(q)) >= 0 as real);
    }
}

proof fn first_means<R: Scalar, B: Backend<R>, W: HybridWorld<R>, C: PaidMarket<R>>(
    m: Model<R>,
    b: B,
    w: W,
    c: C,
    plan: HullWhiteEquityPricingPlan<R>,
    k: HybridContextView<W::Dividends>,
    points: u64,
    table: Seq<Seq<R>>,
    means: Seq<Seq<R>>,
)
    requires
        k.width() > 0,
        gather(
            plan.engine.units() as nat,
            scramble_risk(m, b, w, c, plan, k, points),
        ) == Ok::<Seq<Seq<R>>, MonteCarloError>(table),
        gather(
            plan.engine.units() as nat,
            scramble_row(
                m,
                b,
                hybrid_rows(b, w, hybrid_quantities(m, w, c, plan, k), plan),
                false,
                points,
            ),
        ) == Ok::<Seq<Seq<R>>, MonteCarloError>(means),
    ensures
        column(table, 0) == column(means, 0),
{
    let n = plan.engine.units() as nat;
    let q = hybrid_quantities(m, w, c, plan, k);
    let f = scramble_risk(m, b, w, c, plan, k, points);
    let g = scramble_row(m, b, hybrid_rows(b, w, q, plan), false, points);
    gather_values(n, f);
    gather_values(n, g);
    assert forall|i: int| 0 <= i < n implies column(table, 0)[i] == column(means, 0)[i] by {
        assert(f(i) == Ok::<Seq<R>, MonteCarloError>(table[i]));
        assert(g(i) == Ok::<Seq<R>, MonteCarloError>(means[i]));
    }
    assert(column(table, 0) =~= column(means, 0));
}

/// A derivative that every scramble agrees on is the derivative reported.
pub proof fn scrambles_that_agree_are_reported<
    R: Scalar,
    B: Backend<R>,
    W: HybridWorld<R>,
    C: PaidMarket<R>,
>(
    value: spec_fn(R) -> real,
    m: Model<R>,
    b: B,
    w: W,
    c: C,
    plan: HullWhiteEquityPricingPlan<R>,
    k: HybridContextView<W::Dividends>,
    points: u64,
    j: int,
    x: real,
)
    requires
        counts(m, value),
        adds_up(value, b),
        plan.engine matches EngineConfig::RandomizedQuasiMonteCarlo(q) && q.scramble_count > 0
            && q.points_per_scramble == points,
        0 <= j,
        forall|s: int| #[trigger]
            scramble_risk(m, b, w, c, plan, k, points)(s) matches Ok(row) ==> value(row[j]) == x,
    ensures
        hybrid_outcome(m, b, w, c, plan, k) matches Ok(o) ==> {
            &&& j == 0 ==> value(mean_of(m, o.price, plan.engine.units())) == x
            &&& 1 <= j <= o.derivatives.len() ==> value(o.derivatives[j - 1]) == x
        },
{
    if let Ok(o) = hybrid_outcome(m, b, w, c, plan, k) {
        let n = plan.engine.units();
        let f = scramble_risk(m, b, w, c, plan, k, points);
        let table = gather(n as nat, f)->Ok_0;
        gather_values(n as nat, f);
        let col = column(table, j);
        assert forall|i: int| 0 <= i < col.len() implies value(#[trigger] col[i]) == x by {
            assert(f(i) == Ok::<Seq<R>, MonteCarloError>(table[i]));
        }
        equal_sum(value, col, x);
        assert(value(m.of(n)) == n as int as real);
        let mean = mean_of(m, b.two_pass_of(col), n);
        let y = n as int as real;
        assert(x * y == y * x) by (nonlinear_arith);
        cancelled(value(mean), x, y);
    }
}

proof fn equal_sum<R>(value: spec_fn(R) -> real, s: Seq<R>, x: real)
    requires
        forall|i: int| 0 <= i < s.len() ==> value(#[trigger] s[i]) == x,
    ensures
        sum_of(value, s) == s.len() as real * x,
    decreases s.len(),
{
    if s.len() > 0 {
        equal_sum(value, s.drop_last(), x);
        assert(value(s[s.len() - 1]) == x);
        let n = s.len() as real;
        assert((n - 1 as real) * x + x == n * x) by (nonlinear_arith);
        assert(s.drop_last().len() as real == n - 1 as real);
    } else {
        assert(0 as real * x == 0 as real) by (nonlinear_arith);
    }
}

/// The price with hybrid risk is the average over its draws.
pub proof fn hybrid_prices_are_averages<
    R: Scalar,
    B: Backend<R>,
    W: HybridWorld<R>,
    C: PaidMarket<R>,
>(
    value: spec_fn(R) -> real,
    m: Model<R>,
    b: B,
    w: W,
    c: C,
    plan: HullWhiteEquityPricingPlan<R>,
    k: HybridContextView<W::Dividends>,
)
    requires
        counts(m, value),
        adds_up(value, b),
        draw_count(plan.engine) > 0,
        k.width() > 0,
    ensures
        hybrid_outcome(m, b, w, c, plan, k) matches Ok(o) ==> value(
            mean_of(m, o.price, plan.engine.units()),
        ) * draw_count(plan.engine) as real == draws_total(
            value,
            hybrid_rows(b, w, hybrid_quantities(m, w, c, plan, k), plan),
            plan.engine,
            0,
        ),
{
    let q = hybrid_quantities(m, w, c, plan, k);
    let rows = hybrid_rows(b, w, q, plan);
    estimates_are_averages(value, m, b, rows, plan.engine, false, q.width, 0);
    if let Ok(o) = hybrid_outcome(m, b, w, c, plan, k) {
        hybrid_tables_exist(m, b, w, c, plan, k);
        if let EngineConfig::RandomizedQuasiMonteCarlo(e) = plan.engine {
            let n = plan.engine.units() as nat;
            let f = scramble_risk(m, b, w, c, plan, k, e.points_per_scramble);
            let g = scramble_row(m, b, rows, false, e.points_per_scramble);
            let table = gather(n, f)->Ok_0;
            first_means(m, b, w, c, plan, k, e.points_per_scramble, table, gather(n, g)->Ok_0);
        }
    }
}

proof fn hybrid_tables_exist<R: Scalar, B: Backend<R>, W: HybridWorld<R>, C: PaidMarket<R>>(
    m: Model<R>,
    b: B,
    w: W,
    c: C,
    plan: HullWhiteEquityPricingPlan<R>,
    k: HybridContextView<W::Dividends>,
)
    ensures
        hybrid_outcome(m, b, w, c, plan, k) is Ok ==> table_of(
            m,
            b,
            hybrid_rows(b, w, hybrid_quantities(m, w, c, plan, k), plan),
            plan.engine,
            false,
        ) is Ok,
{
    if hybrid_outcome(m, b, w, c, plan, k) is Ok {
        if let EngineConfig::RandomizedQuasiMonteCarlo(e) = plan.engine {
            let n = plan.engine.units() as nat;
            let rows = hybrid_rows(b, w, hybrid_quantities(m, w, c, plan, k), plan);
            let f = scramble_risk(m, b, w, c, plan, k, e.points_per_scramble);
            let g = scramble_row(m, b, rows, false, e.points_per_scramble);
            gather_values(n, f);
            assert forall|i: int| 0 <= i < n implies #[trigger] g(i) is Ok by {
                assert(f(i) == Ok::<Seq<R>, MonteCarloError>(gather(n, f)->Ok_0[i]));
            }
            gather_failure(n, g);
        }
    }
}

/// Rates that discount every payment alike, and a payoff that is the same on all spots.
pub open spec fn pays_alike<R: Scalar, W: HybridWorld<R>>(
    value: spec_fn(R) -> real,
    w: W,
    discount: real,
    bond: real,
    payoff: real,
) -> bool {
    &&& forall|t: R, x: R| #[trigger]
        w.relative_discount_of(t, x) matches Ok(a) ==> value(a) == discount
    &&& forall|t: R, u: R, x: R| #[trigger]
        w.relative_bond_of(t, u, x) matches Ok(a) ==> value(a) == bond
    &&& forall|grid: Seq<R>, spots: Seq<AffineSpot<R>>| #[trigger]
        w.payoff_adjoints_of(grid, spots) matches Ok((p, _)) ==> value(p) == payoff
}

proof fn finished_alike<R: Scalar>(
    value: spec_fn(R) -> real,
    m: Model<R>,
    q: Quantities<R>,
    z: Seq<R>,
    x: real,
)
    requires
        counts(m, value),
        q.finish == as_they_are::<R>(),
        q.width > 0,
        forall|z: Seq<R>| #[trigger]
            (q.terms)(z) matches Ok(row) ==> row.len() == q.width && value(row[0]) == x,
    ensures
        forall|antithetic: bool| #[trigger]
            finished(q, antithetic, z) matches Ok(row) ==> value(row[0]) == x,
{
    contributions_are_averaged(value, m, q.terms, z, 0);
    assert forall|antithetic: bool| #[trigger]
        finished(q, antithetic, z) matches Ok(row) ==> value(row[0]) == x by {
        if antithetic {
            assert(finished(q, true, z) matches Ok(row) ==> value(row[0]) == x);
        } else {
            assert(finished(q, false, z) matches Ok(row) ==> value(row[0]) == x);
        }
    }
}

proof fn hybrid_draws_are_alike<R: Scalar, B: Backend<R>, W: HybridWorld<R>, C: PaidMarket<R>>(
    value: spec_fn(R) -> real,
    m: Model<R>,
    b: B,
    w: W,
    c: C,
    plan: HullWhiteEquityPricingPlan<R>,
    k: HybridContextView<W::Dividends>,
    z: Seq<R>,
    discount: real,
    bond: real,
    payoff: real,
)
    requires
        counts(m, value),
        k.width() > 0,
        pays_alike(value, w, discount, bond, payoff),
        forall|z: Seq<R>| #[trigger]
            hybrid_terms(m, w, c, plan, k)(z) matches Ok(row) ==> row.len() == k.width(),
    ensures
        hybrid_sampled(b, hybrid_quantities(m, w, c, plan, k), plan, z) matches Ok(row) ==> value(
            row[0],
        ) == payoff * (discount * bond),
{
    let q = hybrid_quantities(m, w, c, plan, k);
    let x = payoff * (discount * bond);
    let f = hybrid_terms(m, w, c, plan, k);
    assert(q.terms == f);
    assert forall|y: Seq<R>| #[trigger] f(y) matches Ok(row) ==> row.len() == q.width && value(
        row[0],
    ) == x by {
        if let Ok(path) = w.recorded(y) {
            if let Ok(rd) = relative_factor(w, plan, w.states_of(path)) {
                assert(value(rd) == discount * bond);
            }
        }
    }
    let steps = plan.time_nodes@.len() - 1;
    finished_alike(value, m, q, z, x);
    if let Ok(y) = blocks_bridged(b, z, steps, z.len() / (steps as nat)) {
        finished_alike(value, m, q, y, x);
    }
}

/// A payoff that is the same on all spots is its own price with hybrid risk, times what every
/// payment is discounted by: with and without mirror images, for either engine.
pub proof fn a_fixed_payoff_is_its_hybrid_price<
    R: Scalar,
    B: Backend<R>,
    W: HybridWorld<R>,
    C: PaidMarket<R>,
>(
    value: spec_fn(R) -> real,
    m: Model<R>,
    b: B,
    w: W,
    c: C,
    plan: HullWhiteEquityPricingPlan<R>,
    k: HybridContextView<W::Dividends>,
    discount: real,
    bond: real,
    payoff: real,
)
    requires
        counts(m, value),
        adds_up(value, b),
        draw_count(plan.engine) > 0,
        k.width() > 0,
        pays_alike(value, w, discount, bond, payoff),
        forall|z: Seq<R>| #[trigger]
            hybrid_terms(m, w, c, plan, k)(z) matches Ok(row) ==> row.len() == k.width(),
    ensures
        hybrid_outcome(m, b, w, c, plan, k) matches Ok(o) ==> value(
            mean_of(m, o.price, plan.engine.units()),
        ) == payoff * (discount * bond),
{
    let q = hybrid_quantities(m, w, c, plan, k);
    let rows = hybrid_rows(b, w, q, plan);
    let x = payoff * (discount * bond);
    assert forall|p: int| #[trigger] (rows.unit)(p) matches Ok(row) ==> value(row[0]) == x by {
        if let Ok(z) = w.pseudo_shocks_of(p as u64) {
            hybrid_draws_are_alike(value, m, b, w, c, plan, k, z, discount, bond, payoff);
        }
    }
    assert forall|s: u32, p: int| #[trigger] (rows.point)(s, p) matches Ok(row) ==> value(row[0])
        == x by {
        if let Ok(z) = gather(draw_dimension(plan) as nat, point_normal(b, s, p as u64)) {
            hybrid_draws_are_alike(value, m, b, w, c, plan, k, z, discount, bond, payoff);
        }
    }
    if let Ok(o) = hybrid_outcome(m, b, w, c, plan, k) {
        hybrid_tables_exist(m, b, w, c, plan, k);
        hybrid_prices_are_averages(value, m, b, w, c, plan, k);
        what_no_draw_moves_is_its_estimate(value, m, b, rows, plan.engine, false, q.width, 0, x);
        estimates_are_averages(value, m, b, rows, plan.engine, false, q.width, 0);
        let n = draw_count(plan.engine) as real;
        cancelled(value(mean_of(m, o.price, plan.engine.units())), x, n);
    }
}

/// What is reversed through a calibration keeps the spot of the paths and adds that of the
/// calibration, and the quotes end with what they add up to.
pub proof fn calibrations_add_their_spot<R: Scalar, W: HybridWorld<R>>(
    value: spec_fn(R) -> real,
    m: Model<R>,
    w: W,
    plan: HullWhiteEquityPricingPlan<R>,
    k: HybridContextView<W::Dividends>,
    mean: Seq<R>,
)
    requires
        exact(value),
    ensures
        through_calibration(m, w, plan, k, mean) matches Ok(p) ==> {
            &&& plan.calibration is None ==> value(p.spot) == value(mean[1])
            &&& plan.calibration is Some ==> (w.leverage_reversed(
                mean.skip(3 + k.coefficient_count as int),
            ) matches Ok(back) && value(p.spot) - value(back.initial_spot) == value(mean[1]))
            &&& p.quotes.len() > 0 ==> value(p.quotes.last()) == sum_of(value, p.quotes.drop_last())
        },
{
    if let Ok(p) = through_calibration(m, w, plan, k, mean) {
        if plan.calibration is Some && plan.market_iv_target is Some {
            let back = w.leverage_reversed(mean.skip(3 + k.coefficient_count as int))->Ok_0;
            let q = w.market_iv_reversed(back.local_variance, back.forward_log_density)->Ok_0;
            compensated_sums_add_up(value, m, q);
            assert(p.quotes.drop_last() =~= q);
        }
    }
}

/// Of a row of tails, each is found in its own place.
pub proof fn tails_are_found<R>(
    table: Seq<Seq<R>>,
    skipped: int,
    width: nat,
    k: nat,
    i: int,
    j: int,
)
    requires
        0 <= skipped,
        k <= table.len(),
        forall|r: int| 0 <= r < k ==> (#[trigger] table[r]).len() == skipped + width,
        0 <= i < k,
        0 <= j < width,
    ensures
        tails(table, skipped, k).len() == k * width,
        0 <= i * width + j < k * width,
        tails(table, skipped, k)[i * width + j] == table[i][skipped + j],
    decreases k,
{
    tails_are_sized(table, skipped, width, k);
    tails_are_sized(table, skipped, width, (k - 1) as nat);
    assert(0 <= i * width + j < k * width && (k - 1) * width == k * width - width)
        by (nonlinear_arith)
        requires
            0 <= i < k,
            0 <= j < width,
    ;
    if i < k - 1 {
        tails_are_found(table, skipped, width, (k - 1) as nat, i, j);
    } else {
        assert(table[k - 1].len() == skipped + width);
    }
}

proof fn tails_are_sized<R>(table: Seq<Seq<R>>, skipped: int, width: nat, k: nat)
    requires
        0 <= skipped,
        k <= table.len(),
        forall|r: int| 0 <= r < k ==> (#[trigger] table[r]).len() == skipped + width,
    ensures
        tails(table, skipped, k).len() == k * width,
    decreases k,
{
    if k > 0 {
        tails_are_sized(table, skipped, width, (k - 1) as nat);
        assert(table[k - 1].len() == skipped + width);
        assert((k - 1) * width + width == k * width) by (nonlinear_arith);
    } else {
        assert(0 * width == 0) by (nonlinear_arith);
    }
}

/// A bucketed vega is made of the price and the vega of each unit and of its buckets, and of
/// nothing else that the unit holds.
pub proof fn buckets_see_prices_and_vegas<R: Scalar, B: Backend<R>, K: VegaBuckets<R>>(
    m: Model<R>,
    b: B,
    k: K,
    engine: EngineConfig,
    table: Seq<Seq<R>>,
    other: Seq<Seq<R>>,
    count: usize,
)
    requires
        table.len() == other.len(),
        forall|i: int|
            0 <= i < table.len() ==> (#[trigger] table[i])[PRICE as int] == other[i][PRICE as int]
                && table[i][VEGA as int] == other[i][VEGA as int] && table[i].skip(
                PATHWISE_COMPONENTS as int,
            ) == other[i].skip(PATHWISE_COMPONENTS as int),
    ensures
        bucketed(m, b, k, engine, table, count) is Ok <==> bucketed(
            m,
            b,
            k,
            engine,
            other,
            count,
        ) is Ok,
        bucketed(m, b, k, engine, table, count) matches Ok((_, report)) ==> report == bucketed(
            m,
            b,
            k,
            engine,
            other,
            count,
        )->Ok_0.1,
{
    assert(column(table, PRICE as int) =~= column(other, PRICE as int));
    assert(column(table, VEGA as int) =~= column(other, VEGA as int));
    same_tails(table, other, PATHWISE_COMPONENTS as int, table.len());
}

proof fn same_tails<R>(table: Seq<Seq<R>>, other: Seq<Seq<R>>, skipped: int, k: nat)
    requires
        k <= table.len(),
        table.len() == other.len(),
        forall|i: int|
            0 <= i < table.len() ==> (#[trigger] table[i]).skip(skipped) == other[i].skip(skipped),
    ensures
        tails(table, skipped, k) == tails(other, skipped, k),
    decreases k,
{
    if k > 0 {
        same_tails(table, other, skipped, (k - 1) as nat);
        assert(table[k - 1].skip(skipped) == other[k - 1].skip(skipped));
    }
}

/// Two ways to project and to report that agree wherever the buckets and the remainder make
/// up the vega.
pub open spec fn project_alike<R: Scalar, K: VegaBuckets<R>>(
    value: spec_fn(R) -> real,
    k: K,
    other: K,
    estimates: K::Estimates,
    vega: R,
) -> bool {
    let means = k.raw_means_of(estimates);
    &&& other.raw_means_of(estimates) == means
    &&& forall|remainder: R, total: R|
        value(total) == value(vega) && sum_of(value, means) + value(remainder) == value(total)
            ==> #[trigger] k.projection_of(means, remainder, total) == other.projection_of(
            means,
            remainder,
            total,
        )
    &&& k.covariance_wanted() == other.covariance_wanted()
    &&& forall|samples: Seq<R>, count: usize| #[trigger]
        k.covariance_of(samples, count) == other.covariance_of(samples, count)
    &&& k.density_rows_of() == other.density_rows_of()
    &&& forall|row: usize, p: K::Projection, e: K::Estimates, c: Option<K::Covariance>| #[trigger]
        k.report_of(row, p, e, c) == other.report_of(row, p, e, c)
}

/// The buckets and the remainder of a bucketed vega make up the whole vega: nothing else is
/// asked of a projection.
pub proof fn buckets_and_remainder_make_the_vega<R: Scalar, K: VegaBuckets<R>>(
    value: spec_fn(R) -> real,
    m: Model<R>,
    k: K,
    other: K,
    estimates: K::Estimates,
    vega: R,
    samples: Seq<R>,
    count: usize,
)
    requires
        exact(value),
        project_alike(value, k, other, estimates, vega),
    ensures
        vega_kt_from(m, k, estimates, vega, samples, count) == vega_kt_from(
            m,
            other,
            estimates,
            vega,
            samples,
            count,
        ),
{
    let means = k.raw_means_of(estimates);
    compensated_sums_add_up(value, m, means);
    let remainder = minus(vega, compensated_sum(m, means));
    assert(sum_of(value, means) + value(remainder) == value(vega));
    assert(k.projection_of(means, remainder, vega) == other.projection_of(means, remainder, vega));
    assert(k.covariance_of(samples, count) == other.covariance_of(samples, count));
    if let Ok(p) = k.projection_of(means, remainder, vega) {
        let row = (k.density_rows_of() - 1) as usize;
        assert(forall|c: Option<K::Covariance>| #[trigger]
            k.report_of(row, p, estimates, c) == other.report_of(row, p, estimates, c));
    }
}

/// Accumulation is the transpose of an interpolation that moves by `moved` where the nodes
/// move by `nodes`.
pub open spec fn accumulates<R: Scalar, G: TargetGrid<R>>(
    value: spec_fn(R) -> real,
    g: G,
    nodes: Seq<real>,
    moved: spec_fn(R, R) -> real,
) -> bool {
    forall|t: R, x: R, a: R, before: Seq<R>|
        before.len() == nodes.len() ==> (#[trigger] g.accumulation_of(t, x, a, before) matches Ok(
            after,
        ) ==> after.len() == nodes.len() && pairing(value, after, nodes, nodes.len()) == pairing(
            value,
            before,
            nodes,
            nodes.len(),
        ) + value(a) * moved(t, x))
}

/// What the first `n` adjoints make of the moves of an interpolation, time by time.
pub open spec fn interpolated_moves<R: Scalar>(
    value: spec_fn(R) -> real,
    grid: Seq<R>,
    x: Seq<R>,
    adjoints: Seq<R>,
    moved: spec_fn(R, R) -> real,
    n: nat,
) -> real
    decreases n,
{
    if n == 0 {
        0 as real
    } else {
        let q = n - 1;
        interpolated_moves(value, grid, x, adjoints, moved, (n - 1) as nat) + value(adjoints[q])
            * moved(grid[q / x.len() as int], x[q % x.len() as int])
    }
}

/// Adjoints on other times are carried back to a target by the transpose of the interpolation
/// that refined it: against any move of the nodes they are what they are against the moves of
/// the refined variances.
pub proof fn spreading_transposes_refinement<R: Scalar, G: TargetGrid<R>>(
    value: spec_fn(R) -> real,
    g: G,
    grid: Seq<R>,
    adjoints: Seq<R>,
    nodes: Seq<real>,
    moved: spec_fn(R, R) -> real,
    n: nat,
)
    requires
        exact(value),
        nodes.len() == g.values_of().len(),
        accumulates(value, g, nodes, moved),
    ensures
        spread(g, grid, adjoints, n) matches Ok(a) ==> a.len() == nodes.len() && pairing(
            value,
            a,
            nodes,
            nodes.len(),
        ) == interpolated_moves(value, grid, g.log_moneyness_nodes_of(), adjoints, moved, n),
    decreases n,
{
    if n == 0 {
        nothing_pairs(value, zeros::<R>(nodes.len()), nodes, nodes.len());
    } else {
        spreading_transposes_refinement(value, g, grid, adjoints, nodes, moved, (n - 1) as nat);
    }
}

proof fn nothing_pairs<R: Scalar>(value: spec_fn(R) -> real, a: Seq<R>, d: Seq<real>, n: nat)
    requires
        n <= a.len(),
        forall|i: int| 0 <= i < n ==> value(#[trigger] a[i]) == 0 as real,
    ensures
        pairing(value, a, d, n) == 0 as real,
    decreases n,
{
    if n > 0 {
        nothing_pairs(value, a, d, (n - 1) as nat);
        let x = d[n - 1];
        assert(value(a[n - 1]) == 0 as real);
        assert(0 as real * x == 0 as real) by (nonlinear_arith);
    }
}

/// The price of a plan with early exercise is the average of what its units pay, and what it
/// says of the exercises is counted: the share of a date, times the paths, is the number of
/// paths that stop there, and the value in the sample is the average over the training units.
pub proof fn exercise_prices_are_averages<
    R: Scalar,
    B: Backend<R>,
    W: LocalVolPaths<R>,
    K: VegaBuckets<R>,
    Q: Publication<R>,
    X: ExercisePolicies<R>,
>(
    value: spec_fn(R) -> real,
    m: Model<R>,
    b: B,
    w: W,
    k: K,
    q: Q,
    x: X,
    plan: SimulationPlan<R>,
    lv: Option<LocalVolPlan<R>>,
    training: EngineConfig,
    dimension: u32,
)
    requires
        counts(m, value),
        adds_up(value, b),
        plan.engine.units() > 0,
    ensures
        exercise_executed(m, b, w, k, q, x, plan, lv, training, dimension) matches Ok(r) ==> {
            let units = plan.engine.units() as int as real;
            let (_, fitted, valued_on, valued) = policy_of(x, training, plan.engine)->Ok_0;
            let paid = x.unit_values_of(x.cashflows_of(valued), plan.engine)->Ok_0;
            &&& value(r.value.value) * units == sum_of(value, paid)
            &&& value(r.estimator_variance) * units == value(r.sampling_variance)
            &&& r.early_exercise matches Some(e) ==> {
                let paths = x.path_count_of(valued_on) as u64;
                let trained = x.unit_values_of(
                    in_sample_cashflows(
                        x.realized_of(fitted),
                        x.training_stops_of(fitted),
                        x.discounts_of(),
                    ),
                    training,
                )->Ok_0;
                &&& paths > 0 ==> forall|i: int|
                    0 <= i < e.exercise_counts.len() ==> value(
                        #[trigger] e.exercise_probabilities[i],
                    ) * paths as int as real == e.exercise_counts[i] as int as real
                &&& e.stopping_indices == x.stops_of(valued)
                &&& 0 < trained.len() <= u64::MAX ==> value(e.in_sample_value)
                    * trained.len() as real == sum_of(value, trained)
            }
        },
{
    if let Ok(r) = exercise_executed(m, b, w, k, q, x, plan, lv, training, dimension) {
        let units = plan.engine.units();
        let (_, fitted, valued_on, valued) = policy_of(x, training, plan.engine)->Ok_0;
        let paid = x.unit_values_of(x.cashflows_of(valued), plan.engine)->Ok_0;
        let s = b.two_pass_of(paid);
        let one = literal::<R>(1);
        assert(value(one) == 1 as real);
        assert(value(m.of(units)) == units as int as real);
        estimates_are_scaled_means(
            value,
            m,
            s,
            units,
            one,
            plan.normal_quantile,
            r.value.estimator,
        );
        let t = value(s.total);
        assert(t * 1 as real == t) by (nonlinear_arith);
        if let Some(e) = r.early_exercise {
            let paths = x.path_count_of(valued_on) as u64;
            assert(value(m.of(paths)) == paths as int as real);
            let trained = x.unit_values_of(
                in_sample_cashflows(
                    x.realized_of(fitted),
                    x.training_stops_of(fitted),
                    x.discounts_of(),
                ),
                training,
            )->Ok_0;
            if 0 < trained.len() <= u64::MAX {
                unit_means_are_averages(value, m, b, trained);
            }
            assert forall|i: int| 0 <= i < e.exercise_counts.len() && paths > 0 implies value(
                #[trigger] e.exercise_probabilities[i],
            ) * paths as int as real == e.exercise_counts[i] as int as real by {
                assert(value(m.of(e.exercise_counts[i])) == e.exercise_counts[i] as int as real);
            }
        }
    }
}

} // verus!
