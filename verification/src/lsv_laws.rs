//! What a leverage plan is worth: each path counts once, a draw and its mirror image half
//! each, and what the payoff and its derivatives are on every path is what they are on
//! average.

use crate::engine::EngineConfig;
use crate::errors::MonteCarloError;
use crate::estimation::mean_of;
use crate::lsv_model::{LsvModel, LsvPriceModel};
use crate::lsv_pricing::{
    lsv_bridged, lsv_dimension, lsv_drawn, lsv_evaluated, lsv_normal, lsv_sampled, price_observed,
    price_rows, risk_observed, LsvPricingCore,
};
use crate::results::gather;
use crate::sampling::{as_they_are, half, signed, Backend};
use crate::scalar::{literal, negated, over, plus, times, Model, Scalar};
use crate::simulation_laws::{
    adds_up, counts, draw_count, draws_total, estimates_are_averages,
    what_no_draw_moves_is_its_estimate,
};
use crate::target_risk::{draw_means, scramble_target, target_outcome};
use crate::units::{scramble_row, statistics_of, table_of, Rows};
use vstd::prelude::*;

verus! {

proof fn counted_once<R: Scalar>(m: Model<R>, value: spec_fn(R) -> real, a: R, b: R)
    requires
        counts(m, value),
    ensures
        value(plus(literal(0), times(literal(1), a))) == value(a),
        2 as real * value(plus(plus(literal(0), times(half(), a)), times(half(), b))) == value(a)
            + value(b),
        2 as real * value(plus(literal(0), times(half(), a))) == value(a),
{
    let (one, two) = (literal::<R>(1), literal::<R>(2));
    assert(value(one) == 1 as real && value(two) == 2 as real);
    assert(value(over(one, two)) * value(two) == value(one));
    let (h, x, y) = (value(half::<R>()), value(a), value(b));
    assert((1 as real) * x == x) by (nonlinear_arith);
    assert(2 as real * (h * x) == x && 2 as real * (h * y) == y) by (nonlinear_arith)
        requires
            h * 2 as real == 1 as real,
    ;
    assert(value(plus(literal(0), times(half(), a))) == h * x);
}

/// The payoff of a path, where it can be had.
pub open spec fn paid<R: Scalar, C: LsvPriceModel<R>>(c: C, shocks: Seq<R>, path: u64) -> Result<
    R,
    MonteCarloError,
> {
    match c.states_of(c.initial_f_of(), shocks) {
        Err(e) => Err(e),
        Ok(states) => match c.lsv_payoff_of(states, path, false) {
            Err(e) => Err(e),
            Ok((price, _)) => Ok(price),
        },
    }
}

/// A path without a mirror image counts once, and with one half as much as both: twice
/// the price of the draw is what the two payoffs add up to.
pub proof fn paths_count_once<R: Scalar, C: LsvPriceModel<R>>(
    value: spec_fn(R) -> real,
    m: Model<R>,
    c: C,
    z: Seq<R>,
    path: u64,
)
    requires
        counts(m, value),
    ensures
        lsv_sampled(price_observed(c), false, z, path, 1) matches Ok(row) ==> (paid(
            c,
            signed(z, literal(1)),
            path,
        ) matches Ok(x) && value(row[0]) == value(x)),
        lsv_sampled(price_observed(c), true, z, path, 1) matches Ok(row) ==> (paid(
            c,
            signed(z, literal(1)),
            path,
        ) matches Ok(x) && paid(c, signed(z, negated(literal(1))), path) matches Ok(y)
            && 2 as real * value(row[0]) == value(x) + value(y)),
{
    let x = paid(c, signed(z, literal(1)), path)->Ok_0;
    let y = paid(c, signed(z, negated(literal(1))), path)->Ok_0;
    counted_once(m, value, x, y);
}

/// The payoff and the derivatives of a path with respect to the leverage surface, where
/// they can be had.
pub open spec fn differentiated<R: Scalar, C: LsvModel<R>>(
    c: C,
    shocks: Seq<R>,
    path: u64,
) -> Result<(R, Seq<R>), MonteCarloError> {
    match c.recorded(c.initial_f_of(), shocks) {
        Err(e) => Err(e),
        Ok(record) => match c.lsv_payoff_of(c.recorded_states(record), path, true) {
            Err(e) => Err(e),
            Ok((price, None)) => Ok((price, Seq::empty())),
            Ok((price, Some(seeds))) => match c.leverage_adjoints_of(record, seeds) {
                Err(e) => Err(e),
                Ok(adjoints) => Ok((price, adjoints)),
            },
        },
    }
}

/// The derivative of a path with respect to an entry of the surface, which is nothing
/// where the payoff has none.
pub open spec fn slope<R: Scalar>(value: spec_fn(R) -> real, adjoints: Seq<R>, k: int) -> real {
    if 0 <= k < adjoints.len() {
        value(adjoints[k])
    } else {
        0 as real
    }
}

/// The derivatives of a draw with respect to the leverage surface are those of its path, or
/// with its mirror image the mean of both, entry by entry, as its payoff is.
pub proof fn derivatives_count_once<R: Scalar, C: LsvModel<R>>(
    value: spec_fn(R) -> real,
    m: Model<R>,
    c: C,
    z: Seq<R>,
    path: u64,
    width: nat,
    k: int,
)
    requires
        counts(m, value),
        0 <= k,
        k + 1 < width,
    ensures
        lsv_sampled(risk_observed(c), false, z, path, width) matches Ok(row) ==> (differentiated(
            c,
            signed(z, literal(1)),
            path,
        ) matches Ok((x, a)) && row.len() == width && value(row[0]) == value(x) && value(row[1 + k])
            == slope(value, a, k)),
        lsv_sampled(risk_observed(c), true, z, path, width) matches Ok(row) ==> (differentiated(
            c,
            signed(z, literal(1)),
            path,
        ) matches Ok((x, a)) && differentiated(c, signed(z, negated(literal(1))), path) matches Ok(
            (y, d),
        ) && row.len() == width && 2 as real * value(row[0]) == value(x) + value(y) && 2 as real
            * value(row[1 + k]) == slope(value, a, k) + slope(value, d, k)),
{
    let (x, a) = differentiated(c, signed(z, literal(1)), path)->Ok_0;
    let (y, d) = differentiated(c, signed(z, negated(literal(1))), path)->Ok_0;
    counted_once(m, value, x, y);
    counted_once(m, value, a[k], d[k]);
    counted_once(m, value, d[k], a[k]);
}

proof fn drawn_alike<R: Scalar, B: Backend<R>, C: LsvPriceModel<R>>(
    value: spec_fn(R) -> real,
    m: Model<R>,
    b: B,
    c: C,
    engine: EngineConfig,
    drawn: Result<Seq<R>, MonteCarloError>,
    path: u64,
    x: real,
)
    requires
        counts(m, value),
        forall|states: Seq<R>, p: u64|
            #[trigger] c.lsv_payoff_of(states, p, false) matches Ok((price, _)) ==> value(price)
                == x,
    ensures
        lsv_drawn(
            b,
            c.step_count_of(),
            price_observed(c),
            engine.reduction(),
            drawn,
            path,
            1,
        ) matches Ok(row) ==> value(row[0]) == x,
{
    if let Ok(z) = drawn {
        if let Ok(y) = lsv_bridged(b, c.step_count_of(), engine.reduction().brownian_bridge, z) {
            paths_count_once(value, m, c, y, path);
        }
    }
}

/// A payoff that is the same number on every path is its own price, with and without
/// mirror images, for either engine.
pub proof fn a_fixed_payoff_is_its_leverage_price<R: Scalar, B: Backend<R>, C: LsvPriceModel<R>, G>(
    value: spec_fn(R) -> real,
    m: Model<R>,
    b: B,
    p: LsvPricingCore<C, G>,
    x: real,
)
    requires
        counts(m, value),
        adds_up(value, b),
        draw_count(p.engine) > 0,
        forall|states: Seq<R>, path: u64|
            #[trigger] p.calibration.lsv_payoff_of(states, path, false) matches Ok((price, _))
                ==> value(price) == x,
    ensures
        lsv_evaluated(m, b, p) matches Ok(price) ==> value(price.value) == x,
{
    let c = p.calibration;
    let rows = price_rows(b, c, p.engine);
    assert forall|i: int| #[trigger] (rows.unit)(i) matches Ok(row) ==> value(row[0]) == x by {
        let z = c.pseudo_shocks_of(p.engine.seed(), i as u64);
        drawn_alike(value, m, b, c, p.engine, z, i as u64, x);
    }
    assert forall|s: u32, i: int| #[trigger] (rows.point)(s, i) matches Ok(row) ==> value(row[0])
        == x by {
        let z = gather(
            lsv_dimension(c) as nat,
            lsv_normal(b, s, i as u64),
        );
        let path = (s * p.engine.points() + i) as u64;
        drawn_alike(value, m, b, c, p.engine, z, path, x);
    }
    what_no_draw_moves_is_its_estimate(value, m, b, rows, p.engine, false, 1, 0, x);
}

/// The price of a plan is the average over its draws.
pub proof fn leverage_prices_are_averages<R: Scalar, B: Backend<R>, C: LsvPriceModel<R>, G>(
    value: spec_fn(R) -> real,
    m: Model<R>,
    b: B,
    p: LsvPricingCore<C, G>,
)
    requires
        counts(m, value),
        adds_up(value, b),
        draw_count(p.engine) > 0,
    ensures
        lsv_evaluated(m, b, p) matches Ok(price) ==> value(price.value) * draw_count(
            p.engine,
        ) as real == draws_total(value, price_rows(b, p.calibration, p.engine), p.engine, 0),
{
    estimates_are_averages(
        value,
        m,
        b,
        price_rows(b, p.calibration, p.engine),
        p.engine,
        false,
        1,
        0,
    );
}

/// Where a calibration hands derivatives back as they are, those of its target are averages
/// over all draws, for either engine.
pub proof fn target_derivatives_are_averages<R: Scalar, B: Backend<R>>(
    value: spec_fn(R) -> real,
    m: Model<R>,
    b: B,
    rows: Rows<R>,
    engine: EngineConfig,
    size: nat,
    failure: MonteCarloError,
    j: int,
)
    requires
        counts(m, value),
        adds_up(value, b),
        draw_count(engine) > 0,
        rows.width == 1 + size,
        0 <= j < size,
    ensures
        target_outcome(m, b, rows, engine, as_they_are(), size, failure) matches Ok(o) ==> value(
            o.derivatives[j],
        ) * draw_count(engine) as real == draws_total(value, rows, engine, j + 1) && value(
            mean_of(m, o.price, engine.units()),
        ) * draw_count(engine) as real == draws_total(value, rows, engine, 0),
{
    estimates_are_averages(value, m, b, rows, engine, false, rows.width, j + 1);
    estimates_are_averages(value, m, b, rows, engine, false, rows.width, 0);
    if let Ok(o) = target_outcome(m, b, rows, engine, as_they_are(), size, failure) {
        match engine {
            EngineConfig::PseudoMonteCarlo(_) => {
                let table = table_of(m, b, rows, engine, false)->Ok_0;
                let s = statistics_of(b, engine, false, table, rows.width);
                assert(draw_means(m, s, engine.units()).skip(1)[j] == mean_of(
                    m,
                    s[j + 1],
                    engine.units(),
                ));
            },
            EngineConfig::RandomizedQuasiMonteCarlo(q) => {
                let f = scramble_row(m, b, rows, false, q.points_per_scramble);
                let g = scramble_target(m, b, rows, q.points_per_scramble, as_they_are());
                let n = q.scramble_count as nat;
                assert forall|i: int| #[trigger] g(i) == f(i) by {
                    if let Ok(means) = f(i) {
                        assert(means.len() == rows.width);
                        assert(seq![means[0]] + means.skip(1) =~= means);
                    }
                }
                assert(g =~= f);
            },
        }
    }
}

} // verus!
