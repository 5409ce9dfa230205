//! What the derivatives of a local-volatility path are: every derivative of a payoff seeds
//! the node it is taken at and no other, the bumps are differences of the payoff, and under
//! a frozen policy each path exercises where it stops.

use crate::engine::paths_per_unit;
use crate::local_vol::{bump_spots, local_vol_rows, path_row, points_of, RunView};
use crate::local_vol_paths::{
    BarrierPayoff, DatedAdjoint, Deposit, FixingDate, GraphPayoff, Interval, IntervalAdjoint,
    LocalVolPaths, Observation,
};
use crate::pathwise::{
    added_prefix, all_deposited, buckets_after, bumped_values, clipped, deposits_keep_length,
    fixing_of, fixings_of, graph_deposits, graph_seeds, pathwise_shape, place_of, row_of,
    state_deposits, terminal_seed, variance_deposits, volatility_adjoints, LocalVolPlan,
};
use crate::sampling::{zeros, Backend};
use crate::scalar::{exact, literal, minus, over, plus, same, times, Model, Scalar};
use crate::simulation::{
    SimulationPlan, BUMP_DELTA, BUMP_GAMMA, DELTA, GAMMA, PATHWISE_COMPONENTS, PRICE, VEGA,
};
use crate::simulation_laws::{counts, roots, sum_of};
use vstd::prelude::*;

verus! {

/// What a list of amounts holds for a node.
pub open spec fn amounts_for<R>(
    value: spec_fn(R) -> real,
    list: Seq<Deposit<R>>,
    node: int,
) -> real
    decreases list.len(),
{
    if list.len() == 0 {
        0 as real
    } else {
        amounts_for(value, list.drop_last(), node) + (if list.last().node == node {
            value(list.last().amount)
        } else {
            0 as real
        })
    }
}

/// A node is seeded with all that a list holds for it, beside what it had.
pub proof fn deposits_add_up<R: Scalar>(
    value: spec_fn(R) -> real,
    seeds: Seq<R>,
    list: Seq<Deposit<R>>,
    node: int,
)
    requires
        exact(value),
        0 <= node < seeds.len(),
    ensures
        value(all_deposited(seeds, list)[node]) == value(seeds[node]) + amounts_for(
            value,
            list,
            node,
        ),
    decreases list.len(),
{
    if list.len() > 0 {
        deposits_add_up(value, seeds, list.drop_last(), node);
        deposits_keep_length(seeds, list.drop_last());
    }
}

/// A derivative is taken at the observation `i`: it is of the underlying of the plan, on the
/// date of that observation and of none before it, and the spot there has a slope.
pub open spec fn taken_at<R: Scalar>(
    lv: LocalVolPlan<R>,
    slopes: Seq<Option<R>>,
    observations: Seq<Observation<R>>,
    a: DatedAdjoint<R>,
    i: int,
) -> bool {
    &&& 0 <= i < lv.dates@.len()
    &&& i < observations.len()
    &&& i < slopes.len()
    &&& slopes[i] is Some
    &&& a.underlying == lv.underlying
    &&& lv.dates@[i] == Some(a.date)
    &&& forall|j: int| 0 <= j < i ==> #[trigger] lv.dates@[j] != Some(a.date)
}

/// A derivative is taken at no observation: it is of another underlying, or on a date that
/// no observation has.
pub open spec fn taken_nowhere<R: Scalar>(lv: LocalVolPlan<R>, a: DatedAdjoint<R>) -> bool {
    a.underlying != lv.underlying || forall|j: int|
        0 <= j < lv.dates@.len() ==> #[trigger] lv.dates@[j] != Some(a.date)
}

proof fn first_place(dates: Seq<Option<i64>>, date: i64, from: int, i: int)
    requires
        0 <= from <= i < dates.len(),
        dates[i] == Some(date),
        forall|j: int| from <= j < i ==> #[trigger] dates[j] != Some(date),
    ensures
        place_of(dates, date, from) == Some(i),
    decreases i - from,
{
    if from < i {
        assert(dates[from] != Some(date));
        first_place(dates, date, from + 1, i);
    }
}

proof fn no_place(dates: Seq<Option<i64>>, date: i64, from: int)
    requires
        0 <= from,
        forall|j: int| from <= j < dates.len() ==> #[trigger] dates[j] != Some(date),
    ensures
        place_of(dates, date, from) is None,
    decreases dates.len() - from,
{
    if from < dates.len() {
        assert(dates[from] != Some(date));
        no_place(dates, date, from + 1);
    }
}

proof fn graph_amounts<R: Scalar>(
    value: spec_fn(R) -> real,
    lv: LocalVolPlan<R>,
    slopes: Seq<Option<R>>,
    observations: Seq<Observation<R>>,
    discount: R,
    adjoints: Seq<DatedAdjoint<R>>,
    a: DatedAdjoint<R>,
    node: int,
)
    requires
        exact(value),
    ensures
        ({
            let before = graph_deposits(lv, slopes, observations, discount, adjoints);
            let after = graph_deposits(lv, slopes, observations, discount, adjoints.push(a));
            &&& taken_nowhere(lv, a) ==> amounts_for(value, after, node) == amounts_for(
                value,
                before,
                node,
            )
            &&& forall|i: int| #[trigger]
                taken_at(lv, slopes, observations, a, i) ==> amounts_for(value, after, node)
                    == amounts_for(value, before, node) + (if observations[i].node == node {
                    value(discount) * value(a.value) * value(slopes[i]->0)
                } else {
                    0 as real
                })
        }),
{
    let before = graph_deposits(lv, slopes, observations, discount, adjoints);
    let after = graph_deposits(lv, slopes, observations, discount, adjoints.push(a));
    assert(adjoints.push(a).drop_last() =~= adjoints);
    if taken_nowhere(lv, a) {
        if a.underlying == lv.underlying {
            no_place(lv.dates@, a.date, 0);
        }
    }
    assert forall|i: int| #[trigger] taken_at(lv, slopes, observations, a, i) implies amounts_for(
        value,
        after,
        node,
    ) == amounts_for(value, before, node) + (if observations[i].node == node {
        value(discount) * value(a.value) * value(slopes[i]->0)
    } else {
        0 as real
    }) by {
        first_place(lv.dates@, a.date, 0, i);
        let d = Deposit {
            node: observations[i].node,
            amount: times(times(discount, a.value), slopes[i]->0),
        };
        assert(after == before.push(d));
        assert(before.push(d).drop_last() =~= before);
        assert(value(times(discount, a.value)) == value(discount) * value(a.value));
    }
}

/// One more derivative of a payoff adds its discounted amount times the slope to the seed of
/// its own node and leaves every other seed, whatever derivatives came before it.
pub proof fn derivatives_seed_their_own_node<R: Scalar>(
    value: spec_fn(R) -> real,
    lv: LocalVolPlan<R>,
    slopes: Seq<Option<R>>,
    observations: Seq<Observation<R>>,
    discount: R,
    start: Seq<R>,
    adjoints: Seq<DatedAdjoint<R>>,
    a: DatedAdjoint<R>,
    i: int,
    node: int,
)
    requires
        exact(value),
        0 <= node < start.len(),
    ensures
        ({
            let before = all_deposited(
                start,
                graph_deposits(lv, slopes, observations, discount, adjoints),
            );
            let after = all_deposited(
                start,
                graph_deposits(lv, slopes, observations, discount, adjoints.push(a)),
            );
            &&& before.len() == start.len() && after.len() == start.len()
            &&& taken_at(lv, slopes, observations, a, i) ==> value(after[node]) == value(
                before[node],
            ) + (if observations[i].node == node {
                value(discount) * value(a.value) * value(slopes[i]->0)
            } else {
                0 as real
            })
            &&& taken_nowhere(lv, a) ==> value(after[node]) == value(before[node])
        }),
{
    let before = graph_deposits(lv, slopes, observations, discount, adjoints);
    let after = graph_deposits(lv, slopes, observations, discount, adjoints.push(a));
    deposits_add_up(value, start, before, node);
    deposits_add_up(value, start, after, node);
    deposits_keep_length(start, before);
    deposits_keep_length(start, after);
    graph_amounts(value, lv, slopes, observations, discount, adjoints, a, node);
}

/// Where every derivative is taken, and at which node.
pub open spec fn all_taken<R: Scalar>(
    lv: LocalVolPlan<R>,
    slopes: Seq<Option<R>>,
    observations: Seq<Observation<R>>,
    adjoints: Seq<DatedAdjoint<R>>,
    places: Seq<int>,
) -> bool {
    &&& places.len() == adjoints.len()
    &&& forall|k: int|
        0 <= k < adjoints.len() ==> taken_at(
            lv,
            slopes,
            observations,
            #[trigger] adjoints[k],
            places[k],
        )
}

/// The observations of a list of places are at nodes that all differ.
pub open spec fn nodes_differ<R>(observations: Seq<Observation<R>>, places: Seq<int>) -> bool {
    forall|j: int, k: int|
        0 <= j < k < places.len() ==> observations[#[trigger] places[j]].node
            != observations[#[trigger] places[k]].node
}

proof fn seeds_of_all<R: Scalar>(
    value: spec_fn(R) -> real,
    lv: LocalVolPlan<R>,
    slopes: Seq<Option<R>>,
    observations: Seq<Observation<R>>,
    discount: R,
    adjoints: Seq<DatedAdjoint<R>>,
    places: Seq<int>,
    node: int,
)
    requires
        exact(value),
        all_taken(lv, slopes, observations, adjoints, places),
        nodes_differ(observations, places),
    ensures
        ({
            let total = amounts_for(
                value,
                graph_deposits(lv, slopes, observations, discount, adjoints),
                node,
            );
            &&& forall|k: int|
                0 <= k < adjoints.len() && observations[#[trigger] places[k]].node == node ==> total
                    == value(discount) * value(adjoints[k].value) * value(slopes[places[k]]->0)
            &&& (forall|k: int|
                0 <= k < adjoints.len() ==> observations[#[trigger] places[k]].node != node)
                ==> total == 0 as real
        }),
    decreases adjoints.len(),
{
    if adjoints.len() > 0 {
        let rest = adjoints.drop_last();
        let a = adjoints.last();
        let before = places.drop_last();
        let n = adjoints.len() - 1;
        assert forall|k: int| 0 <= k < rest.len() implies taken_at(
            lv,
            slopes,
            observations,
            #[trigger] rest[k],
            before[k],
        ) by {
            assert(rest[k] == adjoints[k]);
        }
        assert forall|j: int, k: int| 0 <= j < k < before.len() implies observations[
        #[trigger] before[j]].node != observations[#[trigger] before[k]].node by {
            assert(before[j] == places[j] && before[k] == places[k]);
        }
        seeds_of_all(value, lv, slopes, observations, discount, rest, before, node);
        assert(taken_at(lv, slopes, observations, adjoints[n], places[n]));
        graph_amounts(value, lv, slopes, observations, discount, rest, a, node);
        assert(rest.push(a) =~= adjoints);
        assert forall|k: int| 0 <= k < rest.len() implies #[trigger] before[k] == places[k] by {}
        if observations[places[n]].node == node {
            assert forall|k: int| 0 <= k < rest.len() implies observations[
            #[trigger] before[k]].node != node by {
                assert(observations[places[k]].node != observations[places[n]].node);
            }
        }
        assert forall|k: int|
            0 <= k < adjoints.len() && observations[#[trigger] places[k]].node
                == node implies amounts_for(
            value,
            graph_deposits(lv, slopes, observations, discount, adjoints),
            node,
        ) == value(discount) * value(adjoints[k].value) * value(slopes[places[k]]->0) by {
            if k < n {
                assert(observations[before[k]].node == node);
                assert(observations[places[k]].node != observations[places[n]].node);
            }
        }
        if forall|k: int|
            0 <= k < adjoints.len() ==> observations[#[trigger] places[k]].node != node {
            assert forall|k: int| 0 <= k < rest.len() implies observations[
            #[trigger] before[k]].node != node by {
                assert(observations[places[k]].node != node);
            }
            assert(observations[places[n]].node != node);
        }
    }
}

/// Where the derivatives of a payoff are taken at nodes that all differ, each node is seeded
/// with its own derivative, discounted and times the slope, and every other node with nothing.
pub proof fn every_derivative_seeds_its_node<R: Scalar>(
    value: spec_fn(R) -> real,
    lv: LocalVolPlan<R>,
    slopes: Seq<Option<R>>,
    observations: Seq<Observation<R>>,
    discount: R,
    adjoints: Seq<DatedAdjoint<R>>,
    places: Seq<int>,
    states: nat,
    node: int,
)
    requires
        exact(value),
        all_taken(lv, slopes, observations, adjoints, places),
        nodes_differ(observations, places),
        0 <= node < states,
    ensures
        ({
            let seeds = all_deposited(
                zeros(states),
                graph_deposits(lv, slopes, observations, discount, adjoints),
            );
            &&& seeds.len() == states
            &&& forall|k: int|
                0 <= k < adjoints.len() && observations[#[trigger] places[k]].node == node
                    ==> value(seeds[node]) == value(discount) * value(adjoints[k].value) * value(
                    slopes[places[k]]->0,
                )
            &&& (forall|k: int|
                0 <= k < adjoints.len() ==> observations[#[trigger] places[k]].node != node)
                ==> value(seeds[node]) == 0 as real
        }),
{
    let list = graph_deposits(lv, slopes, observations, discount, adjoints);
    deposits_add_up(value, zeros(states), list, node);
    deposits_keep_length(zeros::<R>(states), list);
    seeds_of_all(value, lv, slopes, observations, discount, adjoints, places, node);
}

/// The seeds of a graph payoff are what its derivatives after the dividends and those before
/// them each seed on their own, added up node by node.
pub proof fn graph_seeds_add_up<R: Scalar>(
    value: spec_fn(R) -> real,
    lv: LocalVolPlan<R>,
    observations: Seq<Observation<R>>,
    discount: R,
    payoff: GraphPayoff<R>,
    states: nat,
    node: int,
)
    requires
        exact(value),
        0 <= node < states,
    ensures
        ({
            let after = all_deposited(
                zeros(states),
                graph_deposits(
                    lv,
                    lv.slopes@,
                    observations,
                    discount,
                    payoff.terminal_adjoints@,
                ),
            );
            let before = all_deposited(
                zeros(states),
                graph_deposits(
                    lv,
                    lv.pre_dividend_slopes@,
                    observations,
                    discount,
                    payoff.pre_dividend_adjoints@,
                ),
            );
            let seeds = graph_seeds(lv, observations, discount, payoff, states);
            &&& seeds.states.len() == states
            &&& value(seeds.states[node]) == value(after[node]) + value(before[node])
            &&& forall|i: int|
                0 <= i < seeds.grid.len() ==> value(#[trigger] seeds.grid[i]) == 0 as real
        }),
{
    let z = zeros::<R>(states);
    let a = graph_deposits(lv, lv.slopes@, observations, discount, payoff.terminal_adjoints@);
    let b = graph_deposits(
        lv,
        lv.pre_dividend_slopes@,
        observations,
        discount,
        payoff.pre_dividend_adjoints@,
    );
    deposits_keep_length(z, a);
    deposits_keep_length(all_deposited(z, a), b);
    deposits_add_up(value, z, a, node);
    deposits_add_up(value, z, b, node);
    deposits_add_up(value, all_deposited(z, a), b, node);
}

/// What the ends of intervals hold for a node: the left amount of those that start there and
/// the right amount of those that end there.
pub open spec fn ends_for(
    intervals: Seq<Interval>,
    left: Seq<real>,
    right: Seq<real>,
    node: int,
    n: nat,
) -> real
    decreases n,
{
    if n == 0 {
        0 as real
    } else {
        ends_for(intervals, left, right, node, (n - 1) as nat) + (if intervals[n - 1].left
            == node {
            left[n - 1]
        } else {
            0 as real
        }) + (if intervals[n - 1].right == node {
            right[n - 1]
        } else {
            0 as real
        })
    }
}

proof fn ends_of_intervals<R: Scalar>(
    value: spec_fn(R) -> real,
    intervals: Seq<Interval>,
    adjoints: Seq<IntervalAdjoint<R>>,
    node: int,
    n: nat,
)
    requires
        n <= intervals.len(),
        n <= adjoints.len(),
    ensures
        amounts_for(value, state_deposits(intervals, adjoints).take(2 * n as int), node)
            == ends_for(
            intervals,
            Seq::new(adjoints.len(), |i: int| value(adjoints[i].left_state)),
            Seq::new(adjoints.len(), |i: int| value(adjoints[i].right_state)),
            node,
            n,
        ),
        amounts_for(value, variance_deposits(intervals, adjoints).take(2 * n as int), node)
            == ends_for(
            intervals,
            Seq::new(adjoints.len(), |i: int| value(adjoints[i].left_local_variance)),
            Seq::new(adjoints.len(), |i: int| value(adjoints[i].right_local_variance)),
            node,
            n,
        ),
    decreases n,
{
    let s = state_deposits(intervals, adjoints);
    let v = variance_deposits(intervals, adjoints);
    if n > 0 {
        ends_of_intervals(value, intervals, adjoints, node, (n - 1) as nat);
        let k = 2 * n as int;
        assert(s.take(k).drop_last() =~= s.take(k - 1));
        assert(s.take(k - 1).drop_last() =~= s.take(k - 2));
        assert(v.take(k).drop_last() =~= v.take(k - 1));
        assert(v.take(k - 1).drop_last() =~= v.take(k - 2));
        assert((k - 1) / 2 == n - 1 && (k - 2) / 2 == n - 1);
        assert((k - 1) % 2 == 1 && (k - 2) % 2 == 0);
        let (one, two) = (s.take(k - 1), v.take(k - 1));
        assert(one.last() == s[k - 2] && two.last() == v[k - 2]);
        assert(s.take(k).last() == s[k - 1] && v.take(k).last() == v[k - 1]);
        assert(amounts_for(value, one, node) == amounts_for(value, s.take(k - 2), node) + (
        if intervals[n - 1].left == node {
            value(adjoints[n - 1].left_state)
        } else {
            0 as real
        }));
        assert(amounts_for(value, two, node) == amounts_for(value, v.take(k - 2), node) + (
        if intervals[n - 1].left == node {
            value(adjoints[n - 1].left_local_variance)
        } else {
            0 as real
        }));
    }
}

/// The bridges of a barrier seed both ends of every interval: the states with the adjoints of
/// the states, the local variances with those of the local variances.
pub proof fn bridges_seed_both_ends<R: Scalar>(
    value: spec_fn(R) -> real,
    start: Seq<R>,
    intervals: Seq<Interval>,
    adjoints: Seq<IntervalAdjoint<R>>,
    node: int,
)
    requires
        exact(value),
        intervals.len() == adjoints.len(),
        0 <= node < start.len(),
    ensures
        value(all_deposited(start, state_deposits(intervals, adjoints))[node]) == value(start[node])
            + ends_for(
            intervals,
            Seq::new(adjoints.len(), |i: int| value(adjoints[i].left_state)),
            Seq::new(adjoints.len(), |i: int| value(adjoints[i].right_state)),
            node,
            intervals.len(),
        ),
        value(all_deposited(start, variance_deposits(intervals, adjoints))[node]) == value(
            start[node],
        ) + ends_for(
            intervals,
            Seq::new(adjoints.len(), |i: int| value(adjoints[i].left_local_variance)),
            Seq::new(adjoints.len(), |i: int| value(adjoints[i].right_local_variance)),
            node,
            intervals.len(),
        ),
{
    let s = state_deposits(intervals, adjoints);
    let v = variance_deposits(intervals, adjoints);
    let n = intervals.len();
    ends_of_intervals(value, intervals, adjoints, node, n);
    assert(s.take(2 * n as int) =~= s);
    assert(v.take(2 * n as int) =~= v);
    deposits_add_up(value, start, s, node);
    deposits_add_up(value, start, v, node);
}

/// Two runs that differ in no more than where other paths stop.
pub open spec fn stop_alike<R>(
    a: RunView<R>,
    b: RunView<R>,
    places: spec_fn(int) -> bool,
) -> bool {
    &&& a.engine == b.engine
    &&& a.dimension == b.dimension
    &&& a.bumps == b.bumps
    &&& match (a.stops, b.stops) {
        (Some(s), Some(t)) => forall|i: int| #[trigger] places(i) ==> s[i] == t[i],
        (None, None) => true,
        _ => false,
    }
}

/// The quantities of a path do not depend on where any other path stops.
pub proof fn paths_stop_on_their_own<R: Scalar, W: LocalVolPaths<R>>(
    m: Model<R>,
    w: W,
    plan: SimulationPlan<R>,
    lv: LocalVolPlan<R>,
    a: RunView<R>,
    b: RunView<R>,
    shocks: Seq<R>,
    path: u64,
    place: int,
)
    requires
        stop_alike(a, b, |i: int| i == place),
    ensures
        path_row(m, w, plan, lv, a, shocks, path, place) == path_row(
            m,
            w,
            plan,
            lv,
            b,
            shocks,
            path,
            place,
        ),
{
    let places = |i: int| i == place;
    assert(places(place));
}

/// The quantities of a draw depend on where its own paths stop and on no other: without
/// mirror images those are the stops at the number of the draw, with them the two at twice
/// that number. The points of a scramble are numbered on from those of the scrambles before.
pub proof fn draws_stop_on_their_own<R: Scalar, B: Backend<R>, W: LocalVolPaths<R>>(
    m: Model<R>,
    backend: B,
    w: W,
    plan: SimulationPlan<R>,
    lv: LocalVolPlan<R>,
    a: RunView<R>,
    b: RunView<R>,
    unit: int,
    scramble: u32,
)
    ensures
        ({
            let antithetic = a.engine.reduction().antithetic;
            let number = scramble * points_of(a.engine) + unit;
            let (x, y) = (
                local_vol_rows(m, backend, w, plan, lv, a),
                local_vol_rows(m, backend, w, plan, lv, b),
            );
            &&& stop_alike(
                a,
                b,
                |i: int|
                    if antithetic {
                        i == 2 * unit || i == 2 * unit + 1
                    } else {
                        i == unit
                    },
            ) ==> (x.unit)(unit) == (y.unit)(unit)
            &&& stop_alike(
                a,
                b,
                |i: int|
                    if antithetic {
                        i == 2 * number || i == 2 * number + 1
                    } else {
                        i == number
                    },
            ) ==> (x.point)(scramble, unit) == (y.point)(scramble, unit)
        }),
{
    let antithetic = a.engine.reduction().antithetic;
    let number = scramble * points_of(a.engine) + unit;
    let places = |i: int|
        if antithetic {
            i == 2 * unit || i == 2 * unit + 1
        } else {
            i == unit
        };
    let others = |i: int|
        if antithetic {
            i == 2 * number || i == 2 * number + 1
        } else {
            i == number
        };
    let k = paths_per_unit(a.engine.reduction()) as int;
    if antithetic {
        assert(k == 2 && unit * k == 2 * unit && number * k == 2 * number);
    } else {
        assert(k == 1 && unit * k == unit && number * k == number);
    }
    if stop_alike(a, b, places) {
        assert(places(unit * k));
        if antithetic {
            assert(places(unit * k + 1));
        }
    }
    if stop_alike(a, b, others) {
        assert(others(number * k));
        if antithetic {
            assert(others(number * k + 1));
        }
    }
}

/// Under a frozen policy the price of a path that stops somewhere is the cash flow of that
/// stop, discounted by the factor of that stop.
pub proof fn stopped_paths_take_their_cash_flow<R: Scalar, W: LocalVolPaths<R>>(
    m: Model<R>,
    w: W,
    plan: SimulationPlan<R>,
    lv: LocalVolPlan<R>,
    run: RunView<R>,
    shocks: Seq<R>,
    path: u64,
    place: int,
    stop: usize,
)
    requires
        run.stops matches Some(stops) && 0 <= place < stops.len() && stops[place] == stop,
        !plan.continuous_barrier,
    ensures
        path_row(m, w, plan, lv, run, shocks, path, place) matches Ok(row) ==> {
            &&& w.selection_of(stop) matches Ok(s)
            &&& w.evolution(lv.has_dividends, plan.spot, shocks, path) matches Ok(state)
            &&& w.observations_of(state, plan.spot) matches Ok(observations)
            &&& w.graph_payoff_of(Some(s.output_index), fixings_of(lv, observations)) matches Ok(
                payoff,
            )
            &&& row[PRICE as int] == times(s.discount, payoff.value)
        },
{
    if let Ok(row) = path_row(m, w, plan, lv, run, shocks, path, place) {
        let s = w.selection_of(stop)->Ok_0;
        pathwise_shape(m, w, plan, lv, run.bumps, shocks, path, Some(s));
    }
}

proof fn squares(s: real, h: real)
    ensures
        (s + h) * (s + h) == s * s + 2 as real * (s * h) + h * h,
        (s - h) * (s - h) == s * s - 2 as real * (s * h) + h * h,
{
    assert((s + h) * (s + h) == s * s + 2 as real * (s * h) + h * h) by (nonlinear_arith);
    assert((s - h) * (s - h) == s * s - 2 as real * (s * h) + h * h) by (nonlinear_arith);
}

pub(crate) proof fn cancelled(a: real, b: real, k: real)
    requires
        k != 0 as real,
        a * k == b * k,
    ensures
        a == b,
{
    let d = a - b;
    assert(d * k == a * k - b * k) by (nonlinear_arith)
        requires
            d == a - b,
    ;
    assert(d == 0 as real) by (nonlinear_arith)
        requires
            d * k == 0 as real,
            k != 0 as real,
    ;
}

/// A price that is quadratic in the spot has its own derivatives: the difference over a bump
/// is the slope at the spot, and the second difference the curvature, whatever the bump.
pub proof fn bumps_differentiate<R: Scalar>(
    value: spec_fn(R) -> real,
    m: Model<R>,
    values: Seq<R>,
    price: R,
    down: R,
    up: R,
    bump: R,
    a: real,
    b: real,
    c: real,
    s: real,
)
    requires
        counts(m, value),
        values.len() == PATHWISE_COMPONENTS,
        value(bump) != 0 as real,
        value(price) == a + b * s + c * (s * s),
        value(up) == a + b * (s + value(bump)) + c * ((s + value(bump)) * (s + value(bump))),
        value(down) == a + b * (s - value(bump)) + c * ((s - value(bump)) * (s - value(bump))),
    ensures
        ({
            let v = bumped_values(values, price, down, up, bump, true);
            let w = bumped_values(values, price, down, up, bump, false);
            &&& value(v[DELTA as int]) == b + 2 as real * (c * s)
            &&& value(v[BUMP_DELTA as int]) == b + 2 as real * (c * s)
            &&& value(v[GAMMA as int]) == 2 as real * c
            &&& value(v[BUMP_GAMMA as int]) == 2 as real * c
            &&& value(w[DELTA as int]) == b + 2 as real * (c * s)
            &&& value(w[BUMP_DELTA as int]) == b + 2 as real * (c * s)
            &&& w[GAMMA as int] == values[GAMMA as int]
            &&& v[PRICE as int] == values[PRICE as int] && w[PRICE as int] == values[PRICE as int]
            &&& v[VEGA as int] == values[VEGA as int] && w[VEGA as int] == values[VEGA as int]
        }),
{
    let h = value(bump);
    let two = literal::<R>(2);
    assert(value(two) == 2 as real);
    let delta = over(minus(up, down), times(two, bump));
    let (u, d, p) = (value(up), value(down), value(price));
    let (q, r) = ((s + h) * (s + h), (s - h) * (s - h));
    squares(s, h);
    assert(b * (s + h) == b * s + b * h && b * (s - h) == b * s - b * h) by (nonlinear_arith);
    let (ss, sh, hh) = (s * s, s * h, h * h);
    assert(c * (ss + 2 as real * sh + hh) == c * ss + 2 as real * (c * sh) + c * hh)
        by (nonlinear_arith);
    assert(c * (ss - 2 as real * sh + hh) == c * ss - 2 as real * (c * sh) + c * hh)
        by (nonlinear_arith);
    assert(value(times(two, bump)) == 2 as real * h);
    let y = b + 2 as real * (c * s);
    let cs = c * s;
    assert(c * sh == cs * h) by (nonlinear_arith)
        requires
            sh == s * h,
            cs == c * s,
    ;
    assert((b + 2 as real * cs) * (2 as real * h) == 2 as real * (b * h) + 4 as real * (cs * h))
        by (nonlinear_arith);
    cancelled(value(delta), y, 2 as real * h);
    let second = over(plus(minus(up, times(two, price)), down), times(bump, bump));
    assert(value(times(bump, bump)) == hh);
    assert(hh != 0 as real) by (nonlinear_arith)
        requires
            h != 0 as real,
            hh == h * h,
    ;
    assert(value(times(two, price)) == 2 as real * p);
    assert(2 as real * (c * hh) == (2 as real * c) * hh) by (nonlinear_arith);
    cancelled(value(second), 2 as real * c, hh);
}

/// The spots that a plan bumps lie on either side of its own, by the bump each.
pub proof fn bumped_spots_straddle<R: Scalar, W: LocalVolPaths<R>>(
    value: spec_fn(R) -> real,
    m: Model<R>,
    w: W,
    plan: SimulationPlan<R>,
)
    requires
        exact(value),
    ensures
        bump_spots(m, w, plan) matches Ok(Some(b)) ==> value(b.up_spot) - value(plan.spot) == value(
            b.spot_bump,
        ) && value(plan.spot) - value(b.down_spot) == value(b.spot_bump) && b.spot_bump
            == plan.validation_spot_bump,
{
}

/// The adjoint of a local volatility is that of its square by the chain rule: over a move of
/// the volatility it is what the adjoints of the local variance, along the path and at the
/// bridges, are over the move of its square, up to the square of the move.
pub proof fn volatilities_move_variances<R: Scalar>(
    value: spec_fn(R) -> real,
    m: Model<R>,
    path: Seq<R>,
    bridge: Seq<R>,
    variances: Seq<R>,
    i: int,
    move_by: real,
)
    requires
        counts(m, value),
        roots(m, value),
        path.len() == variances.len(),
        bridge.len() == variances.len(),
        0 <= i < variances.len(),
        value(variances[i]) >= 0 as real,
    ensures
        ({
            let adjoints = volatility_adjoints(m, path, bridge, variances);
            let v = value(m.sqrt(variances[i]));
            let moved = (v + move_by) * (v + move_by) - value(variances[i]) - move_by * move_by;
            &&& adjoints.len() == variances.len()
            &&& value(adjoints[i]) * move_by == (value(path[i]) + value(bridge[i])) * moved
        }),
{
    let s = plus(path[i], bridge[i]);
    let (a, v, d) = (value(s), value(m.sqrt(variances[i])), move_by);
    assert(value(literal::<R>(2)) == 2 as real);
    assert(value(times(s, literal(2))) == a * 2 as real);
    let y = value(variances[i]);
    assert(v * v == y);
    squares(v, d);
    let vd = v * d;
    assert((a * 2 as real) * v * d == a * (2 as real * vd)) by (nonlinear_arith)
        requires
            vd == v * d,
    ;
}

proof fn prefix_adds<R: Scalar>(value: spec_fn(R) -> real, a: Seq<R>, b: Seq<R>)
    requires
        exact(value),
        a.len() == b.len(),
    ensures
        sum_of(value, added_prefix(a, b)) == sum_of(value, a) + sum_of(value, b),
    decreases a.len(),
{
    if a.len() > 0 {
        prefix_adds(value, a.drop_last(), b.drop_last());
        assert(added_prefix(a, b).drop_last() =~= added_prefix(a.drop_last(), b.drop_last()));
    }
}

/// A market that reports a row of the grid in buckets loses nothing of it.
pub open spec fn reports_in_full<R: Scalar, W: LocalVolPaths<R>>(
    value: spec_fn(R) -> real,
    w: W,
    count: nat,
) -> bool {
    &&& forall|row: Seq<R>|
        #[trigger] w.density_of(row) matches Ok(d) ==> sum_of(value, d) == sum_of(value, row)
    &&& forall|at: usize, t: R, d: Seq<R>|
        #[trigger] w.projection_of(at, t, d) matches Ok(v) ==> v.len() == count && sum_of(value, v)
            == sum_of(value, d)
}

/// What the rows of the grid at the first `k` maturities other than zero add up to.
pub open spec fn rows_reported<R: Scalar>(
    value: spec_fn(R) -> real,
    lv: LocalVolPlan<R>,
    nodes: Seq<R>,
    k: nat,
) -> real
    decreases k,
{
    if k == 0 {
        0 as real
    } else {
        rows_reported(value, lv, nodes, (k - 1) as nat) + (if same(
            lv.time_nodes@[k - 1],
            literal(0),
        ) {
            0 as real
        } else {
            sum_of(
                value,
                nodes.subrange(
                    (k - 1) * lv.row_length,
                    (k - 1) * lv.row_length + lv.row_length,
                ),
            )
        })
    }
}

/// The buckets of a vega add up to the adjoints of all rows of the grid but that at the
/// valuation, where the market that reports them loses nothing.
pub proof fn buckets_hold_every_row<R: Scalar, W: LocalVolPaths<R>>(
    value: spec_fn(R) -> real,
    w: W,
    lv: LocalVolPlan<R>,
    count: nat,
    nodes: Seq<R>,
    k: nat,
)
    requires
        exact(value),
        reports_in_full(value, w, count),
        k * lv.row_length <= nodes.len(),
    ensures
        buckets_after(w, lv, count, nodes, k) matches Ok(b) ==> b.len() == count && sum_of(value, b)
            == rows_reported(value, lv, nodes, k),
    decreases k,
{
    if k == 0 {
        zeros_add_nothing(value, count);
    } else {
        let (a, l) = ((k - 1) as int, lv.row_length as int);
        assert(k * l == a * l + l && 0 <= a * l) by (nonlinear_arith)
            requires
                a == k - 1,
                a >= 0,
                l >= 0,
        ;
        buckets_hold_every_row(value, w, lv, count, nodes, (k - 1) as nat);
        if let Ok(b) = buckets_after(w, lv, count, nodes, k) {
            let before = buckets_after(w, lv, count, nodes, (k - 1) as nat)->Ok_0;
            let row = clipped(nodes, a * l, l);
            if !same(lv.time_nodes@[k - 1], literal(0)) {
                assert(sum_of(value, row) == sum_of(value, nodes.subrange(a * l, a * l + l))) by {
                    if a * l >= nodes.len() {
                        assert(nodes.subrange(a * l, a * l + l) =~= row);
                    }
                }
                let d = w.density_of(row)->Ok_0;
                let at = row_of(
                    lv.density_maturities@,
                    w.bits_of(lv.time_nodes@[k - 1]),
                    0,
                )->0 as usize;
                let v = w.projection_of(at, lv.time_nodes@[k - 1], d)->Ok_0;
                prefix_adds(value, before, v);
            }
        }
    }
}

proof fn zeros_add_nothing<R: Scalar>(value: spec_fn(R) -> real, n: nat)
    requires
        exact(value),
    ensures
        sum_of(value, zeros::<R>(n)) == 0 as real,
    decreases n,
{
    if n > 0 {
        zeros_add_nothing(value, (n - 1) as nat);
        assert(zeros::<R>(n).drop_last() =~= zeros((n - 1) as nat));
    }
}

/// A date is found in the first place that holds it, and only where there is one.
pub proof fn dates_are_found_first(dates: Seq<Option<i64>>, date: i64, from: int)
    requires
        0 <= from,
    ensures
        place_of(dates, date, from) matches Some(i) ==> from <= i < dates.len() && dates[i] == Some(
            date,
        ) && forall|j: int| from <= j < i ==> #[trigger] dates[j] != Some(date),
        place_of(dates, date, from) is None ==> forall|j: int|
            from <= j < dates.len() ==> #[trigger] dates[j] != Some(date),
    decreases dates.len() - from,
{
    if from < dates.len() && dates[from] != Some(date) {
        dates_are_found_first(dates, date, from + 1);
    }
}

/// The row of a maturity is the first that has its bits, and there is one only where one has.
pub proof fn maturities_are_found_first(maturities: Seq<u64>, bits: u64, from: int)
    requires
        0 <= from,
    ensures
        row_of(maturities, bits, from) matches Some(i) ==> from <= i < maturities.len()
            && maturities[i] == bits && forall|j: int|
            from <= j < i ==> #[trigger] maturities[j] != bits,
        row_of(maturities, bits, from) is None ==> forall|j: int|
            from <= j < maturities.len() ==> #[trigger] maturities[j] != bits,
    decreases maturities.len() - from,
{
    if from < maturities.len() && maturities[from] != bits {
        maturities_are_found_first(maturities, bits, from + 1);
    }
}

/// A payoff reads at a date the spots of an observation of that date and of the underlying of
/// the plan, before and after its dividend, or nothing.
pub proof fn fixings_are_of_their_date<R: Scalar>(
    lv: LocalVolPlan<R>,
    observations: Seq<Observation<R>>,
    d: FixingDate,
)
    ensures
        fixing_of(lv, observations, d).spot matches Some(spot) ==> d.underlying == lv.underlying
            && exists|i: int|
            0 <= i < observations.len() && i < lv.dates@.len() && #[trigger] lv.dates@[i] == Some(
                d.date,
            ) && spot == observations[i].post_spot && fixing_of(
                lv,
                observations,
                d,
            ).pre_dividend_spot == observations[i].pre_dividend_spot,
        fixing_of(lv, observations, d).spot is None ==> fixing_of(
            lv,
            observations,
            d,
        ).pre_dividend_spot is None,
{
    dates_are_found_first(lv.dates@, d.date, 0);
    if d.underlying == lv.underlying {
        if let Some(i) = place_of(lv.dates@, d.date, 0) {
            assert(lv.dates@[i] == Some(d.date));
        }
    }
}

/// The adjoint of a local volatility, times that volatility, is twice the local variance times
/// what the path and the bridges seed for it.
pub proof fn volatility_seeds_are_roots<R: Scalar>(
    value: spec_fn(R) -> real,
    m: Model<R>,
    path: Seq<R>,
    bridge: Seq<R>,
    variances: Seq<R>,
    i: int,
)
    requires
        counts(m, value),
        roots(m, value),
        0 <= i < path.len(),
        i < bridge.len(),
        i < variances.len(),
        value(variances[i]) >= 0 as real,
    ensures
        i < volatility_adjoints(m, path, bridge, variances).len(),
        value(volatility_adjoints(m, path, bridge, variances)[i]) * value(m.sqrt(variances[i]))
            == 2 as real * (value(variances[i]) * (value(path[i]) + value(bridge[i]))),
{
    let two = literal::<R>(2);
    assert(value(two) == 2 as real);
    let (s, a) = (value(m.sqrt(variances[i])), value(path[i]) + value(bridge[i]));
    assert(s * s == value(variances[i]));
    let x = a * 2 as real * s;
    assert(x * s == 2 as real * ((s * s) * a)) by (nonlinear_arith)
        requires
            x == a * 2 as real * s,
    ;
}

/// The terminal derivative of a barrier seeds the node of its expiry with itself, discounted
/// and times the slope there, and no other.
pub proof fn terminal_derivatives_seed_their_expiry<R: Scalar>(
    value: spec_fn(R) -> real,
    lv: LocalVolPlan<R>,
    observations: Seq<Observation<R>>,
    discount: R,
    payoff: BarrierPayoff<R>,
    states: nat,
    n: int,
)
    requires
        exact(value),
        0 <= n < states,
        lv.expiry_observation < lv.slopes@.len(),
        lv.slopes@[lv.expiry_observation as int] is Some,
    ensures
        value(terminal_seed(lv, observations, discount, payoff, states)[n]) == (if n
            == observations[lv.expiry_observation as int].node {
            value(discount) * value(payoff.terminal_derivative) * value(
                lv.slopes@[lv.expiry_observation as int]->0,
            )
        } else {
            0 as real
        }),
{
}

/// The buckets of the first maturities read the rows of those maturities alone.
pub proof fn buckets_read_their_own_rows<R: Scalar, W: LocalVolPaths<R>>(
    w: W,
    lv: LocalVolPlan<R>,
    count: nat,
    nodes: Seq<R>,
    other: Seq<R>,
    k: nat,
)
    requires
        nodes.len() >= k * lv.row_length,
        other.len() >= k * lv.row_length,
        forall|i: int| 0 <= i < k * lv.row_length ==> #[trigger] nodes[i] == other[i],
    ensures
        buckets_after(w, lv, count, nodes, k) == buckets_after(w, lv, count, other, k),
    decreases k,
{
    if k > 0 {
        let l = lv.row_length as int;
        assert((k - 1) * l + l == k * l && 0 <= (k - 1) * l) by (nonlinear_arith)
            requires
                k > 0,
                l >= 0,
        ;
        buckets_read_their_own_rows(w, lv, count, nodes, other, (k - 1) as nat);
        let from = (k - 1) * l;
        assert(clipped(nodes, from, l) =~= clipped(other, from, l));
    }
}

} // verus!
