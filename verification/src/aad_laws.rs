//! What first-order risk reports: a price and derivatives that no draw moves are reported as
//! they are, each in its place, and the price of a local-volatility plan is the average over
//! its draws.

use crate::dividend_aad::{aad_evaluated, aad_terms, scope_context, AadRiskView, AadScope};
use crate::dividend_gamma::delta_change;
use crate::dynamics::{DividendDynamics, KernelNumerics};
use crate::engine::EngineConfig;
use crate::errors::MonteCarloError;
use crate::estimation::{estimated, estimated_together, mean_of, simulated, Job};
use crate::hybrid_risk::{quotes_per_point, HybridRiskView};
use crate::linear::hundredth;
use crate::local_vol::{bump_spots, local_vol_rows, local_vol_table, RunView};
use crate::local_vol_laws::cancelled;
use crate::local_vol_paths::LocalVolPaths;
use crate::local_vol_valuation::local_vol_executed;
use crate::pathwise::LocalVolPlan;
use crate::plan::StochasticDividendPricingPlan;
use crate::plan_world::PlanWorld;
use crate::report::Publication;
use crate::report_laws::estimates_are_scaled_means;
use crate::residual_risk::{market_risk, market_terms, node_parameters};
use crate::residual_target::{bucket_samples, residual_buckets, volatility_adjoints};
use crate::residual_world::ResidualWorld;
use crate::reverse::{base_labels, context_of, DividendPath, Label};
use crate::sampling::{as_they_are, Backend, Quantities};
use crate::scalar::{literal, over, times, Model, Scalar};
use crate::simulation::{SimulationPlan, PATHWISE_COMPONENTS, PRICE};
use crate::simulation_laws::{
    a_fixed_quantity_is_its_estimate, adds_up, counts, draw_count, draws_total,
    estimates_are_averages,
};
use crate::target_grid::TargetGrid;
use crate::units::statistics_of;
use crate::vega_kt::VegaBuckets;
use vstd::prelude::*;

verus! {

/// What a path contributes is the same under all shocks: a price and then derivatives.
pub open spec fn contributes<R: Scalar>(
    value: spec_fn(R) -> real,
    terms: spec_fn(Seq<R>) -> Result<Seq<R>, MonteCarloError>,
    width: nat,
    price: real,
    derivatives: Seq<real>,
) -> bool {
    &&& width == 1 + derivatives.len()
    &&& forall|z: Seq<R>| #[trigger]
        terms(z) matches Ok(row) ==> row.len() == width && value(row[0]) == price && (forall|
            j: int,
        |
            0 <= j < derivatives.len() ==> value(#[trigger] row[1 + j]) == derivatives[j])
}

proof fn contributions_are_estimated<R: Scalar, B: Backend<R>>(
    value: spec_fn(R) -> real,
    m: Model<R>,
    b: B,
    q: Quantities<R>,
    job: Job,
    price: real,
    derivatives: Seq<real>,
    error_field: &'static str,
    field: &'static str,
)
    requires
        counts(m, value),
        adds_up(value, b),
        draw_count(job.engine) > 0,
        q.finish == as_they_are::<R>(),
        contributes(value, q.terms, q.width, price, derivatives),
    ensures
        simulated(m, b, q, job) matches Ok(s) ==> {
            &&& estimated(m, s, job.engine.units(), error_field, field) matches Ok((values, _))
                ==> values.len() == q.width && value(values[0]) == price && (forall|j: int|
                0 <= j < derivatives.len() ==> value(#[trigger] values[1 + j]) == derivatives[j])
            &&& estimated_together(m, s, job.engine.units(), field) matches Ok((values, _))
                ==> values.len() == q.width && value(values[0]) == price && (forall|j: int|
                0 <= j < derivatives.len() ==> value(#[trigger] values[1 + j]) == derivatives[j])
        },
{
    a_fixed_quantity_is_its_estimate(value, m, b, q, job, 0, price);
    if let Ok(s) = simulated(m, b, q, job) {
        let n = job.engine.units();
        assert forall|j: int| 0 <= j < derivatives.len() implies #[trigger] value(
            mean_of(m, s[1 + j], n),
        ) == derivatives[j] by {
            a_fixed_quantity_is_its_estimate(value, m, b, q, job, 1 + j, derivatives[j]);
        }
        if let Ok((values, _)) = estimated(m, s, n, error_field, field) {
            assert forall|j: int| 0 <= j < derivatives.len() implies value(#[trigger] values[1 + j])
                == derivatives[j] by {
                assert(values[1 + j] == mean_of(m, s[1 + j], n));
            }
        }
        if let Ok((values, _)) = estimated_together(m, s, n, field) {
            assert forall|j: int| 0 <= j < derivatives.len() implies value(#[trigger] values[1 + j])
                == derivatives[j] by {
                assert(values[1 + j] == mean_of(m, s[1 + j], n));
            }
        }
    }
}

/// The price and the derivatives of a plan in a scope are those of its paths, where no draw
/// moves them: each is reported in the place of its label.
pub proof fn fixed_derivatives_are_reported<
    R: Scalar,
    B: Backend<R>,
    Y: DividendDynamics<R>,
    N: KernelNumerics<R>,
    W: PlanWorld<R>,
>(
    value: spec_fn(R) -> real,
    m: Model<R>,
    b: B,
    y: Y,
    o: N,
    w: W,
    market: W::Market,
    plan: StochasticDividendPricingPlan<R, DividendPath<R, W::Surface>>,
    scope: AadScope,
    price: real,
    derivatives: Seq<real>,
)
    requires
        counts(m, value),
        adds_up(value, b),
        draw_count(plan.job.engine) > 0,
        scope_context(m, y, o, market, plan.path@, plan.payment_time, scope) matches Ok(k)
            ==> contributes(
            value,
            aad_terms(m, y, w, k, plan.path),
            1 + k.labels.len(),
            price,
            derivatives,
        ),
    ensures
        aad_evaluated(m, b, y, o, w, market, plan, scope) matches Ok(r) ==> {
            &&& value(r.price.value) == price
            &&& r.derivatives.len() == r.parameter_labels.len()
            &&& r.derivatives.len() == derivatives.len()
            &&& forall|j: int|
                0 <= j < derivatives.len() ==> value(#[trigger] r.derivatives[j])
                    == derivatives[j]
        },
{
    if let Ok(r) = aad_evaluated(m, b, y, o, w, market, plan, scope) {
        let k = scope_context(m, y, o, market, plan.path@, plan.payment_time, scope)->Ok_0;
        let q = Quantities {
            width: 1 + k.labels.len(),
            terms: aad_terms(m, y, w, k, plan.path),
            finish: as_they_are(),
        };
        contributions_are_estimated(
            value,
            m,
            b,
            q,
            plan.job,
            price,
            derivatives,
            "risk_estimator",
            "risk_estimator",
        );
        let s = simulated(m, b, q, plan.job)->Ok_0;
        let values = estimated_together(
            m,
            s,
            plan.job.engine.units(),
            "risk_estimator",
        )->Ok_0.0;
        assert forall|j: int| 0 <= j < derivatives.len() implies value(#[trigger] r.derivatives[j])
            == derivatives[j] by {
            assert(r.derivatives[j] == values[1 + j]);
        }
    }
}

/// The market risk of a plan is that of its paths, where no draw moves it: the price, the
/// spot, and then the cash dividends and the pillars.
pub proof fn fixed_market_risk_is_reported<
    R: Scalar,
    B: Backend<R>,
    Y: DividendDynamics<R>,
    W: PlanWorld<R>,
    V: ResidualWorld<R>,
>(
    value: spec_fn(R) -> real,
    m: Model<R>,
    b: B,
    y: Y,
    w: W,
    v: V,
    market: W::Market,
    plan: StochasticDividendPricingPlan<R, DividendPath<R, W::Surface>>,
    price: real,
    derivatives: Seq<real>,
)
    requires
        counts(m, value),
        adds_up(value, b),
        draw_count(plan.job.engine) > 0,
        context_of(y, market, plan.path@, plan.payment_time) matches Ok(k) ==> node_parameters(k)
            >= 3 && derivatives.len() >= 1 + k.cash_times.len() + k.discount_times.len()
            && contributes(
            value,
            market_terms(m, w, k, plan.path),
            (node_parameters(k) - 3) as nat,
            price,
            derivatives,
        ),
    ensures
        market_risk(m, b, y, w, v, market, plan) matches Ok(r) ==> {
            let (c, d) = (r.cash_times.len(), r.discount_times.len());
            &&& value(r.price.value) == price
            &&& value(r.delta) == derivatives[0]
            &&& forall|j: int|
                0 <= j < c ==> value(#[trigger] r.cash_mean_adjoints[j]) == derivatives[1 + j]
            &&& forall|j: int|
                0 <= j < d ==> value(#[trigger] r.discount_log_df_adjoints[j]) == derivatives[1 + c
                    + j]
            &&& forall|j: int|
                0 <= j < derivatives.len() - 1 - c - d ==> value(
                    #[trigger] r.repo_spread_log_df_adjoints[j],
                ) == derivatives[1 + c + d + j]
        },
{
    if let Ok(r) = market_risk(m, b, y, w, v, market, plan) {
        let k = context_of(y, market, plan.path@, plan.payment_time)->Ok_0;
        let q = Quantities {
            width: (node_parameters(k) - 3) as nat,
            terms: market_terms(m, w, k, plan.path),
            finish: as_they_are(),
        };
        contributions_are_estimated(
            value,
            m,
            b,
            q,
            plan.job,
            price,
            derivatives,
            "lsv_market_standard_error",
            "lsv_market_risk_estimator",
        );
        let s = simulated(m, b, q, plan.job)->Ok_0;
        let values = estimated(
            m,
            s,
            plan.job.engine.units(),
            "lsv_market_standard_error",
            "lsv_market_risk_estimator",
        )->Ok_0.0;
        let (c, d) = (k.cash_times.len() as int, k.discount_times.len() as int);
        assert(value(values[1 + 0int]) == derivatives[0]);
        assert forall|j: int| 0 <= j < c implies value(#[trigger] r.cash_mean_adjoints[j])
            == derivatives[1 + j] by {
            assert(r.cash_mean_adjoints[j] == values[1 + (1 + j)]);
        }
        assert forall|j: int| 0 <= j < d implies value(#[trigger] r.discount_log_df_adjoints[j])
            == derivatives[1 + c + j] by {
            assert(r.discount_log_df_adjoints[j] == values[1 + (1 + c + j)]);
        }
        assert forall|j: int| 0 <= j < derivatives.len() - 1 - c - d implies value(
            #[trigger] r.repo_spread_log_df_adjoints[j],
        ) == derivatives[1 + c + d + j] by {
            assert(r.repo_spread_log_df_adjoints[j] == values[1 + (1 + c + d + j)]);
        }
    }
}

/// The first parameters of a report are those of the nodes of a path, by their names.
pub open spec fn labelled<R>(r: AadRiskView<R>) -> bool {
    &&& r.derivatives.len() >= 5
    &&& r.parameter_labels.len() >= 5
    &&& r.parameter_labels.take(5) == base_labels::<R>(Seq::empty(), 0, 0)
}

/// What is reported by name is the derivative that the label names, and the effect of a point
/// of a volatility, a hundred times, is that of the whole volatility.
pub proof fn reports_go_by_their_labels<R: Scalar>(
    value: spec_fn(R) -> real,
    m: Model<R>,
    r: AadRiskView<R>,
    i: int,
)
    requires
        counts(m, value),
        labelled(r),
        0 <= i < 5,
    ensures
        r.parameter_labels[i] == Label::Named("spot") ==> r.spot_delta() == r.derivatives[i],
        r.parameter_labels[i] == Label::Named("initial_volatility") ==> r.volatility_vega()
            == r.derivatives[i] && 100 as real * value(r.volatility_vega_per_point()) == value(
            r.derivatives[i],
        ),
        r.parameter_labels[i] == Label::Named("dividend_volatility") ==> 100 as real * value(
            r.dividend_vega_per_point(),
        ) == value(r.derivatives[i]),
{
    reveal_strlit("spot");
    reveal_strlit("initial_volatility");
    reveal_strlit("dividend_mean_reversion");
    reveal_strlit("equity_linkage");
    reveal_strlit("dividend_volatility");
    let names = base_labels::<R>(Seq::empty(), 0, 0);
    assert(r.parameter_labels[i] == r.parameter_labels.take(5)[i]);
    assert("spot"@.len() == 4 && "initial_volatility"@.len() == 18
        && "dividend_mean_reversion"@.len() == 23 && "equity_linkage"@.len() == 14
        && "dividend_volatility"@.len() == 19);
    assert(names[0] == Label::Named("spot"));
    assert(names[1] == Label::Named("initial_volatility"));
    assert(names[2] == Label::Named("dividend_mean_reversion"));
    assert(names[3] == Label::Named("equity_linkage"));
    assert(names[4] == Label::Named("dividend_volatility"));
    assert(i == 0 || i == 1 || i == 2 || i == 3 || i == 4);
    percents(value, m, r.derivatives[1]);
    percents(value, m, r.derivatives[4]);
}

proof fn percents<R: Scalar>(value: spec_fn(R) -> real, m: Model<R>, x: R)
    requires
        counts(m, value),
    ensures
        100 as real * value(times(hundredth(), x)) == value(x),
{
    let (one, hundred) = (literal::<R>(1), literal::<R>(100));
    assert(value(one) == 1 as real && value(hundred) == 100 as real);
    assert(value(over(one, hundred)) * value(hundred) == value(one));
    let (h, y) = (value(hundredth::<R>()), value(x));
    assert(100 as real * (h * y) == y) by (nonlinear_arith)
        requires
            h * 100 as real == 1 as real,
    ;
}

/// The change of the spot derivative over one percent of the spot, a hundred times, is the
/// spot times gamma.
pub proof fn delta_changes_with_gamma<R: Scalar>(
    value: spec_fn(R) -> real,
    m: Model<R>,
    spot: R,
    gamma: R,
)
    requires
        counts(m, value),
    ensures
        100 as real * value(delta_change(spot, gamma)) == value(spot) * value(gamma),
{
    percents(value, m, spot);
    let (a, g) = (value(times(hundredth(), spot)), value(gamma));
    assert(100 as real * (a * g) == (100 as real * a) * g) by (nonlinear_arith);
}

/// The quotes of a report stand last but for what they add up to, and the effect of a point of
/// a quote, a hundred times, is that of the whole quote.
pub proof fn quotes_stand_before_their_sum<R: Scalar>(
    value: spec_fn(R) -> real,
    m: Model<R>,
    r: HybridRiskView<R>,
    i: int,
)
    requires
        counts(m, value),
        r.derivatives.len() > r.vega_kt_implied_volatilities.len(),
        0 <= i < r.vega_kt_implied_volatilities.len(),
    ensures
        r.quotes_of(r.derivatives).len() == r.vega_kt_implied_volatilities.len(),
        r.derivatives.take(
            r.derivatives.len() - 1 - r.vega_kt_implied_volatilities.len(),
        ) + r.quotes_of(r.derivatives) + seq![r.derivatives.last()] == r.derivatives,
        100 as real * value(quotes_per_point(r)[i]) == value(r.quotes_of(r.derivatives)[i]),
{
    let n = r.vega_kt_implied_volatilities.len();
    assert(r.derivatives.take(r.derivatives.len() - 1 - n) + r.quotes_of(r.derivatives)
        + seq![r.derivatives.last()] =~= r.derivatives);
    percents(value, m, r.quotes_of(r.derivatives)[i]);
}

/// The run of a local-volatility plan without an exercise policy.
pub open spec fn whole_run<R: Scalar, W: LocalVolPaths<R>>(
    m: Model<R>,
    w: W,
    plan: SimulationPlan<R>,
    lv: LocalVolPlan<R>,
    engine: EngineConfig,
) -> RunView<R> {
    RunView {
        engine,
        dimension: lv.step_count as u32,
        bumps: bump_spots(m, w, plan)->Ok_0,
        stops: None,
    }
}

/// The price of a local-volatility plan is the average over its draws, with and without
/// buckets, and the variance of its estimator is that of its sample over its units.
pub proof fn local_vol_prices_are_averages<
    R: Scalar,
    B: Backend<R>,
    W: LocalVolPaths<R>,
    K: VegaBuckets<R>,
    Q: Publication<R>,
>(
    value: spec_fn(R) -> real,
    m: Model<R>,
    b: B,
    w: W,
    k: K,
    q: Q,
    plan: SimulationPlan<R>,
    lv: LocalVolPlan<R>,
    engine: EngineConfig,
)
    requires
        counts(m, value),
        adds_up(value, b),
        draw_count(engine) > 0,
        engine.units() > 0,
    ensures
        local_vol_executed(m, b, w, k, q, plan, lv, engine) matches Ok(r) ==> {
            let rows = local_vol_rows(m, b, w, plan, lv, whole_run(m, w, plan, lv, engine));
            &&& value(r.value.value) * draw_count(engine) as real == draws_total(
                value,
                rows,
                engine,
                PRICE as int,
            )
            &&& value(r.estimator_variance) * engine.units() as int as real == value(
                r.sampling_variance,
            )
        },
{
    if let Ok(r) = local_vol_executed(m, b, w, k, q, plan, lv, engine) {
        let run = whole_run(m, w, plan, lv, engine);
        let rows = local_vol_rows(m, b, w, plan, lv, run);
        let ordered = lv.buckets is Some;
        let n = engine.units();
        let width = PATHWISE_COMPONENTS as nat;
        estimates_are_averages(value, m, b, rows, engine, ordered, width, PRICE as int);
        let table = local_vol_table(m, b, w, plan, lv, run, ordered)->Ok_0;
        let s = statistics_of(b, engine, ordered, table, width)[PRICE as int];
        let one = literal::<R>(1);
        assert(value(one) == 1 as real);
        assert(value(m.of(n)) == n as int as real);
        estimates_are_scaled_means(
            value,
            m,
            s,
            n,
            one,
            plan.normal_quantile,
            r.value.estimator,
        );
        let t = value(s.total);
        assert(t * 1 as real == t) by (nonlinear_arith);
        cancelled(value(r.value.value), value(mean_of(m, s, n)), n as int as real);
    }
}

/// Of a row of buckets, unit by unit, those of a unit are made of its own sample alone.
pub proof fn buckets_are_of_their_own_unit<R: Scalar, V: ResidualWorld<R>, G: TargetGrid<R>>(
    m: Model<R>,
    v: V,
    g: G,
    samples: Seq<Seq<R>>,
    n: nat,
    width: nat,
    i: int,
)
    requires
        0 <= i < n,
        forall|a: Seq<R>| #[trigger]
            residual_buckets(v, g, a, g.time_nodes_of().len()) matches Ok(x) ==> x.len() == width,
    ensures
        bucket_samples(m, v, g, samples, n) matches Ok(all) ==> {
            &&& all.len() == n * width
            &&& 0 <= i * width && (i + 1) * width <= n * width
            &&& volatility_adjoints(m, g, samples[i]) matches Ok(a) && residual_buckets(
                v,
                g,
                a,
                g.time_nodes_of().len(),
            ) == Ok::<Seq<R>, MonteCarloError>(all.subrange(i * width, (i + 1) * width))
        },
    decreases n,
{
    bucket_samples_sized(m, v, g, samples, n, width);
    bucket_samples_sized(m, v, g, samples, (n - 1) as nat, width);
    if let Ok(all) = bucket_samples(m, v, g, samples, n) {
        let before = bucket_samples(m, v, g, samples, (n - 1) as nat)->Ok_0;
        assert(0 <= i * width && (i + 1) * width <= n * width && (n - 1) * width + width == n
            * width && i * width + width == (i + 1) * width) by (nonlinear_arith)
            requires
                0 <= i < n,
                0 <= width,
        ;
        if i < n - 1 {
            buckets_are_of_their_own_unit(m, v, g, samples, (n - 1) as nat, width, i);
            assert(all.subrange(i * width, (i + 1) * width) =~= before.subrange(
                i * width,
                (i + 1) * width,
            ));
        } else {
            let a = volatility_adjoints(m, g, samples[i])->Ok_0;
            let x = residual_buckets(v, g, a, g.time_nodes_of().len())->Ok_0;
            assert(all.subrange(i * width, (i + 1) * width) =~= x);
        }
    }
}

proof fn bucket_samples_sized<R: Scalar, V: ResidualWorld<R>, G: TargetGrid<R>>(
    m: Model<R>,
    v: V,
    g: G,
    samples: Seq<Seq<R>>,
    n: nat,
    width: nat,
)
    requires
        forall|a: Seq<R>| #[trigger]
            residual_buckets(v, g, a, g.time_nodes_of().len()) matches Ok(x) ==> x.len() == width,
    ensures
        bucket_samples(m, v, g, samples, n) matches Ok(all) ==> all.len() == n * width,
    decreases n,
{
    if n > 0 {
        bucket_samples_sized(m, v, g, samples, (n - 1) as nat, width);
        assert((n - 1) * width + width == n * width) by (nonlinear_arith);
    } else {
        assert(0 * width == 0) by (nonlinear_arith);
    }
}

} // verus!
