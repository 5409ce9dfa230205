//! First-order risk of a plan of equity and rates: each path is reversed on its
//! own, and the mean of the paths is reversed once through the calibration and
//! the market.

use crate::affine::{affine_adjoints_of, affine_path_of, AffineSpot, HybridState};
use crate::engine::EngineConfig;
use crate::errors::MonteCarloError;
use crate::estimation::mean_of;
use crate::hybrid_context::{
    add_nodes, context_fits, flat_len_grows, make_zero_nodes, nodes_added, zero_nodes, Context,
    HullWhiteEquityPricingPlan, HybridContextView,
};
use crate::hybrid_world::{
    fitting, flat_len, HullWhiteDividendNodeAdjoints, HybridWorld, MarketAdjoints,
    MarketAdjointsView, NodeAdjointsView,
};
use crate::linear::{
    build, chunk, collect, collect_rows, rows_seen, viewed, views,
};
use crate::neumaier::{compensated_sum, sum_compensated};
use crate::paid_market::PaidMarket;
use crate::rates::{invalid_rate, rate_field};
use crate::pathwise::lesser;
use crate::results::{gather, opt_seen, seen};
use crate::reverse::SpotSeed;
use crate::sampling::{
    as_they_are, average, finished, Backend, Contribution, Quantities, Statistics,
};
use crate::scalar::{all_finite, lawful, literal, over, plus, times, Math, Model, Scalar};
use crate::units::{
    column, rows_of, scramble_means, scramble_row, statistics_of, summarise, table_of, tabulate,
    take_column, Rows, UnitSampler,
};
use vstd::prelude::*;

verus! {

/// The adjoints of nodes, one after the other.
pub open spec fn flat<R>(nodes: Seq<NodeAdjointsView<R>>) -> Seq<R>
    decreases nodes.len(),
{
    if nodes.len() == 0 {
        Seq::empty()
    } else {
        let n = nodes.last();
        flat(nodes.drop_last()) + seq![n.scale, n.deterministic_reserve] + n.bond_amounts
    }
}

proof fn flat_shape<R>(nodes: Seq<NodeAdjointsView<R>>, counts: Seq<usize>)
    requires
        fitting(nodes, counts),
    ensures
        flat(nodes).len() == flat_len(counts),
    decreases nodes.len(),
{
    if nodes.len() > 0 {
        flat_shape(nodes.drop_last(), counts.drop_last());
    }
}

/// Appends numbers.
pub(crate) fn append<T: Copy>(out: &mut Vec<T>, v: &Vec<T>)
    ensures
        final(out)@ == old(out)@ + v@,
{
    let ghost start = out@;
    let mut i: usize = 0;
    while i < v.len()
        invariant
            i <= v@.len(),
            out@ == start + v@.take(i as int),
        decreases v@.len() - i,
    {
        out.push(v[i]);
        assert(out@ =~= start + v@.take(i + 1));
        i = i + 1;
    }
    assert(v@.take(i as int) =~= v@);
}

/// The entries of a sequence from a place on.
pub(crate) fn taken<R: Scalar>(v: &Vec<R>, start: usize, n: usize) -> (t: Vec<R>)
    requires
        start + n <= v@.len(),
    ensures
        t@ == v@.subrange(start as int, start + n),
{
    let ghost entry = |i: int| v@[start + i];
    assert(v@.len() == v.len());
    let t_at = |i: usize| -> (x: R)
        requires
            i < n,
        ensures
            x == entry(i as int),
        { v[start + i] };
    let t = build(
        n,
        t_at,
        Ghost(entry),
    );
    assert(t@ =~= v@.subrange(start as int, start + n));
    t
}

/// Puts the adjoints of nodes one after the other.
fn flatten<R: Scalar>(nodes: &Vec<HullWhiteDividendNodeAdjoints<R>>) -> (v: Vec<R>)
    ensures
        v@ == flat(views(nodes@)),
{
    let ghost all = views(nodes@);
    let mut v: Vec<R> = Vec::new();
    let mut i: usize = 0;
    assert(all.take(0) =~= Seq::empty());
    while i < nodes.len()
        invariant
            i <= nodes@.len(),
            all == views(nodes@),
            v@ == flat(all.take(i as int)),
        decreases nodes@.len() - i,
    {
        let ghost before = v@;
        v.push(nodes[i].scale);
        v.push(nodes[i].deterministic_reserve);
        append(&mut v, &nodes[i].bond_amounts);
        proof {
            assert(all.take(i + 1).drop_last() =~= all.take(i as int));
            let n = all[i as int];
            assert(v@ =~= before + seq![n.scale, n.deterministic_reserve] + n.bond_amounts);
        }
        i = i + 1;
    }
    assert(all.take(i as int) =~= all);
    v
}

/// The adjoints of nodes that stand one after the other from the fourth
/// quantity on.
pub open spec fn unflat<R>(counts: Seq<usize>, mean: Seq<R>) -> Seq<NodeAdjointsView<R>> {
    Seq::new(
        counts.len(),
        |i: int|
            {
                let start = 3 + flat_len(counts.take(i)) as int;
                NodeAdjointsView {
                    scale: mean[start],
                    deterministic_reserve: mean[start + 1],
                    bond_amounts: mean.subrange(start + 2, start + 2 + counts[i]),
                }
            },
    )
}

/// Takes the adjoints of nodes out of a sequence.
fn unflatten<R: Scalar>(counts: &Vec<usize>, mean: &Vec<R>) -> (v: Vec<
    HullWhiteDividendNodeAdjoints<R>,
>)
    requires
        3 + flat_len(counts@) <= mean@.len(),
    ensures
        views(v@) == unflat(counts@, mean@),
        fitting(views(v@), counts@),
{
    let mut v: Vec<HullWhiteDividendNodeAdjoints<R>> = Vec::new();
    let mut offset: usize = 3;
    let mut i: usize = 0;
    assert(counts@.take(0) =~= Seq::empty());
    while i < counts.len()
        invariant
            i <= counts@.len(),
            3 + flat_len(counts@) <= mean@.len(),
            offset == 3 + flat_len(counts@.take(i as int)),
            v@.len() == i,
            forall|k: int| 0 <= k < i ==> (#[trigger] v@[k])@ == unflat(counts@, mean@)[k],
            forall|k: int| 0 <= k < i ==> (#[trigger] v@[k])@.bond_amounts.len() == counts@[k],
        decreases counts@.len() - i,
    {
        proof {
            flat_len_grows(counts@, i as int);
            assert(counts@.take(i + 1).drop_last() =~= counts@.take(i as int));
            assert(mean@.len() == mean.len());
        }
        let count = counts[i];
        let node = HullWhiteDividendNodeAdjoints {
            scale: mean[offset],
            deterministic_reserve: mean[offset + 1],
            bond_amounts: taken(mean, offset + 2, count),
        };
        v.push(node);
        offset = offset + 2 + count;
        i = i + 1;
    }
    assert(views(v@) =~= unflat(counts@, mean@));
    v
}

/// The adjoints of equity and of the coefficients of nodes after the first `n`
/// times.
pub open spec fn nodes_swept<R: Scalar, W: HybridWorld<R>>(
    w: W,
    d: W::Dividends,
    places: Seq<usize>,
    states: Seq<HybridState<R>>,
    seeds: Seq<SpotSeed<R>>,
    rd: R,
    n: nat,
) -> Result<(Seq<R>, Seq<NodeAdjointsView<R>>), MonteCarloError>
    decreases n,
{
    if n == 0 {
        Ok((Seq::empty(), zero_nodes(w.bond_counts_of(d))))
    } else {
        match nodes_swept(w, d, places, states, seeds, rd, (n - 1) as nat) {
            Err(e) => Err(e),
            Ok((equity, nodes)) => {
                let i = n - 1;
                let place = places[i];
                match w.node_reversed(
                    d,
                    place,
                    states[i].normalized_equity,
                    states[i].rate_factor,
                    SpotSeed { post: times(seeds[i].post, rd), pre: times(seeds[i].pre, rd) },
                    nodes[place as int],
                ) {
                    Err(e) => Err(e),
                    Ok((x, node)) => Ok((equity.push(x), nodes.update(place as int, node))),
                }
            },
        }
    }
}

proof fn nodes_stop<R: Scalar, W: HybridWorld<R>>(
    w: W,
    d: W::Dividends,
    places: Seq<usize>,
    states: Seq<HybridState<R>>,
    seeds: Seq<SpotSeed<R>>,
    rd: R,
    a: nat,
    n: nat,
)
    requires
        a <= n,
        nodes_swept(w, d, places, states, seeds, rd, a) is Err,
    ensures
        nodes_swept(w, d, places, states, seeds, rd, n) == nodes_swept(
            w,
            d,
            places,
            states,
            seeds,
            rd,
            a,
        ),
    decreases n,
{
    if a < n {
        nodes_stop(w, d, places, states, seeds, rd, a, (n - 1) as nat);
    }
}

/// Reverses the spots of a path.
fn sweep_nodes<R: Scalar, M: Math<R>, W: HybridWorld<R>>(
    m: &M,
    w: &W,
    d: &W::Dividends,
    places: &Vec<usize>,
    states: &Vec<HybridState<R>>,
    seeds: &Vec<SpotSeed<R>>,
    rd: R,
) -> (r: Result<(Vec<R>, Vec<HullWhiteDividendNodeAdjoints<R>>), MonteCarloError>)
    requires
        states@.len() == places@.len(),
        w.bond_counts_of(*d).len() == w.node_times_of(*d).len(),
        forall|i: int|
            0 <= i < places@.len() ==> (#[trigger] places@[i]) < w.node_times_of(*d).len(),
    ensures
        (match r {
            Ok((e, n)) => Ok((e@, views(n@))),
            Err(e) => Err(e),
        }) == nodes_swept(
            *w,
            *d,
            places@,
            states@,
            seeds@,
            rd,
            lesser(states@.len(), seeds@.len()),
        ),
        r matches Ok((e, n)) ==> fitting(views(n@), w.bond_counts_of(*d)),
{
    m.laws();
    let counts = w.bond_counts(d);
    let mut nodes: Vec<HullWhiteDividendNodeAdjoints<R>> = make_zero_nodes(m, &counts);
    let mut equity: Vec<R> = Vec::new();
    let n: usize = if states.len() <= seeds.len() {
        states.len()
    } else {
        seeds.len()
    };
    let mut i: usize = 0;
    while i < n
        invariant
            lawful::<R>(),
            i <= n,
            n == lesser(states@.len(), seeds@.len()),
            states@.len() == places@.len(),
            w.bond_counts_of(*d).len() == w.node_times_of(*d).len(),
            forall|i: int|
                0 <= i < places@.len() ==> (#[trigger] places@[i]) < w.node_times_of(*d).len(),
            fitting(views(nodes@), w.bond_counts_of(*d)),
            nodes_swept(*w, *d, places@, states@, seeds@, rd, i as nat) == Ok::<
                (Seq<R>, Seq<NodeAdjointsView<R>>),
                MonteCarloError,
            >((equity@, views(nodes@))),
        decreases n - i,
    {
        proof {
            if nodes_swept(*w, *d, places@, states@, seeds@, rd, (i + 1) as nat) is Err {
                nodes_stop(*w, *d, places@, states@, seeds@, rd, (i + 1) as nat, n as nat);
            }
        }
        let place = places[i];
        assert(places@[i as int] < w.node_times_of(*d).len());
        assert(views(nodes@).len() == nodes@.len());
        let ghost before = views(nodes@);
        let seed = SpotSeed { post: seeds[i].post * rd, pre: seeds[i].pre * rd };
        let (x, node) = match w.reverse_node(
            d,
            place,
            states[i].normalized_equity,
            states[i].rate_factor,
            seed,
            &nodes[place],
        ) {
            Err(e) => return Err(e),
            Ok(v) => v,
        };
        equity.push(x);
        assert(before[place as int].bond_amounts.len() == w.bond_counts_of(*d)[place as int]);
        let ghost node_view = node@;
        nodes.set(place, node);
        proof {
            assert(views(nodes@) =~= before.update(place as int, node_view));
        }
        i = i + 1;
    }
    Ok((equity, nodes))
}

/// The discount factor of a path relative to that of the curve.
pub open spec fn relative_factor<R: Scalar, W: HybridWorld<R>>(
    w: W,
    plan: HullWhiteEquityPricingPlan<R>,
    states: Seq<HybridState<R>>,
) -> Result<R, MonteCarloError> {
    let steps = plan.time_nodes@.len() - 1;
    let time = plan.time_nodes@[steps];
    match w.relative_discount_of(time, states[steps].integrated_rate_factor) {
        Err(e) => Err(e),
        Ok(a) => match w.relative_bond_of(time, plan.payment_time, states[steps].rate_factor) {
            Err(e) => Err(e),
            Ok(b) => Ok(times(a, b)),
        },
    }
}

/// A number, or zero.
pub open spec fn or_zero<R: Scalar>(x: Option<R>) -> R {
    match x {
        Some(v) => v,
        None => literal(0),
    }
}

/// The spots of a path whose dividends are set aside.
pub open spec fn escrow_spots<R: Scalar, W: HybridWorld<R>>(
    w: W,
    d: W::Dividends,
    places: Seq<usize>,
    grid: Seq<R>,
    states: Seq<HybridState<R>>,
) -> Result<Seq<AffineSpot<R>>, MonteCarloError> {
    if w.path_dividends_of() is Some {
        gather(
            states.len(),
            |i: int|
                w.node_spots_of(
                    d,
                    places[i],
                    states[i].normalized_equity,
                    states[i].rate_factor,
                ),
        )
    } else {
        w.proportional_spots_of(
            grid,
            Seq::new(states.len(), |i: int| states[i].normalized_equity),
        )
    }
}

/// Takes the spots of a path whose dividends are set aside.
fn take_escrow_spots<R: Scalar, W: HybridWorld<R>>(
    w: &W,
    d: &W::Dividends,
    places: &Vec<usize>,
    grid: &Vec<R>,
    states: &Vec<HybridState<R>>,
) -> (r: Result<Vec<AffineSpot<R>>, MonteCarloError>)
    requires
        states@.len() == places@.len(),
    ensures
        seen(r) == escrow_spots(*w, *d, places@, grid@, states@),
{
    let n = states.len();
    if w.path_dividends().is_some() {
        let ghost spot = |i: int|
            w.node_spots_of(
                *d,
                places@[i],
                states@[i].normalized_equity,
                states@[i].rate_factor,
            );
        let f_at = |i: usize| -> (x: Result<AffineSpot<R>, MonteCarloError>)
            requires
                i < n,
            ensures
                x == spot(i as int),
            { w.node_spots(d, places[i], states[i].normalized_equity, states[i].rate_factor) };
        collect(
            n,
            f_at,
            Ghost(spot),
        )
    } else {
        let ghost equity = |i: int| states@[i].normalized_equity;
        let equities_at = |i: usize| -> (x: R)
            requires
                i < n,
            ensures
                x == equity(i as int),
            { states[i].normalized_equity };
        let equities = build(
            n,
            equities_at,
            Ghost(equity),
        );
        assert(equities@ =~= Seq::new(states@.len(), |i: int| states@[i].normalized_equity));
        w.proportional_spots(grid, &equities)
    }
}

/// What a path contributes: its payoff, the adjoints of the spot and of the
/// volatility, those of what its spots are made of, and those of the leverage.
pub open spec fn hybrid_terms<R: Scalar, W: HybridWorld<R>, C: PaidMarket<R>>(
    m: Model<R>,
    w: W,
    c: C,
    plan: HullWhiteEquityPricingPlan<R>,
    k: HybridContextView<W::Dividends>,
) -> spec_fn(Seq<R>) -> Result<Seq<R>, MonteCarloError> {
    |shocks: Seq<R>|
        match w.recorded(shocks) {
            Err(e) => Err(e),
            Ok(path) => match relative_factor(w, plan, w.states_of(path)) {
                Err(e) => Err(e),
                Ok(rd) => match plan.affine_dividends {
                    Some(d) => paid_terms(m, w, c, plan, k, d@, path, rd),
                    None => escrow_terms(w, plan, k, path, rd),
                },
            },
        }
}

/// What a path contributes whose dividends are paid.
pub open spec fn paid_terms<R: Scalar, W: HybridWorld<R>, C: PaidMarket<R>>(
    m: Model<R>,
    w: W,
    c: C,
    plan: HullWhiteEquityPricingPlan<R>,
    k: HybridContextView<W::Dividends>,
    d: crate::affine::AffineView<R>,
    path: W::Recorded,
    rd: R,
) -> Result<Seq<R>, MonteCarloError> {
    let states = w.states_of(path);
    match affine_path_of(m, d, states) {
        Err(e) => Err(e),
        Ok(observed) => match w.payoff_adjoints_of(plan.time_nodes@, observed.spots) {
            Err(e) => Err(e),
            Ok((payoff, seeds)) => match affine_adjoints_of(m, c, d, observed, states, seeds, rd) {
                Err(e) => Err(e),
                Ok(adjoints) => match w.path_reversed(path, adjoints.equity) {
                    Err(e) => Err(e),
                    Ok(back) => Ok(
                        seq![times(payoff, rd), back.initial_spot, or_zero(back.bs_volatility)]
                            + adjoints.discount_log_df + adjoints.dividend_log_df
                            + back.squared_leverage.take(k.leverage_count as int),
                    ),
                },
            },
        },
    }
}

/// The coefficients of dividends with those that the path itself depends on.
pub open spec fn with_path_nodes<R: Scalar>(
    nodes: Seq<NodeAdjointsView<R>>,
    more: Option<Seq<NodeAdjointsView<R>>>,
) -> Seq<NodeAdjointsView<R>> {
    match more {
        Some(b) => nodes_added(nodes, b),
        None => nodes,
    }
}

/// What a path contributes whose dividends are set aside.
pub open spec fn escrow_terms<R: Scalar, W: HybridWorld<R>>(
    w: W,
    plan: HullWhiteEquityPricingPlan<R>,
    k: HybridContextView<W::Dividends>,
    path: W::Recorded,
    rd: R,
) -> Result<Seq<R>, MonteCarloError> {
    let states = w.states_of(path);
    let d = k.dividends->0;
    match escrow_spots(w, d, k.node_indices, plan.time_nodes@, states) {
        Err(e) => Err(e),
        Ok(spots) => match w.payoff_adjoints_of(plan.time_nodes@, spots) {
            Err(e) => Err(e),
            Ok((payoff, seeds)) => match nodes_swept(
                w,
                d,
                k.node_indices,
                states,
                seeds,
                rd,
                lesser(states.len(), seeds.len()),
            ) {
                Err(e) => Err(e),
                Ok((equity, nodes)) => match w.path_reversed(path, equity) {
                    Err(e) => Err(e),
                    Ok(back) => Ok(
                        seq![times(payoff, rd), back.initial_spot, or_zero(back.bs_volatility)]
                            + flat(with_path_nodes(nodes, back.dividends))
                            + back.squared_leverage.take(k.leverage_count as int),
                    ),
                },
            },
        },
    }
}

/// Adds the coefficients that the path itself depends on.
fn add_path_nodes<R: Scalar, M: Math<R>>(
    m: &M,
    nodes: Vec<HullWhiteDividendNodeAdjoints<R>>,
    more: &Option<Vec<HullWhiteDividendNodeAdjoints<R>>>,
    Ghost(counts): Ghost<Seq<usize>>,
) -> (v: Vec<HullWhiteDividendNodeAdjoints<R>>)
    requires
        fitting(views(nodes@), counts),
        crate::hybrid_world::nodes_seen(*more) matches Some(b) ==> fitting(b, counts),
    ensures
        views(v@) == with_path_nodes(views(nodes@), crate::hybrid_world::nodes_seen(*more)),
        fitting(views(v@), counts),
{
    match more {
        None => nodes,
        Some(b) => {
            proof {
                assert forall|i: int| 0 <= i < nodes@.len() implies (
                #[trigger] nodes@[i])@.bond_amounts.len() == b@[i]@.bond_amounts.len() by {
                    assert(views(nodes@)[i].bond_amounts.len() == counts[i]);
                    assert(views(b@)[i].bond_amounts.len() == counts[i]);
                }
                assert(views(nodes@).len() == counts.len());
                assert(views(b@).len() == counts.len());
            }
            let v = add_nodes(m, &nodes, b);
            proof {
                assert forall|i: int| 0 <= i < views(v@).len() implies (
                #[trigger] views(v@)[i]).bond_amounts.len() == counts[i] by {
                    assert(views(nodes@)[i].bond_amounts.len() == counts[i]);
                }
            }
            v
        },
    }
}

struct HybridContribution<'a, R: Scalar, M: Math<R>, W: HybridWorld<R>, C: PaidMarket<R>> {
    m: &'a M,
    w: &'a W,
    c: &'a C,
    plan: &'a HullWhiteEquityPricingPlan<R>,
    k: &'a Context<W::Dividends>,
}

impl<'a, R: Scalar, M: Math<R>, W: HybridWorld<R>, C: PaidMarket<R>> HybridContribution<
    'a,
    R,
    M,
    W,
    C,
> {
    #[verifier::type_invariant]
    spec fn inv(self) -> bool {
        self.plan.valid(
            self.m.model(),
            *self.w,
            *self.c,
        ) && context_fits(*self.w, *self.plan, self.k@)
    }

    fn row(
        &self,
        payoff: R,
        rd: R,
        initial_spot: R,
        bs_volatility: Option<R>,
    ) -> (v: Vec<R>)
        ensures
            v@ == seq![times(payoff, rd), initial_spot, or_zero(bs_volatility)],
    {
        self.m.laws();
        let discounted = payoff * rd;
        let volatility = match bs_volatility {
            Some(v) => v,
            None => R::from(0u32),
        };
        let v = vec![discounted, initial_spot, volatility];
        assert(v@ =~= seq![times(payoff, rd), initial_spot, or_zero(bs_volatility)]);
        v
    }

    fn contribute_paid(
        &self,
        d: &crate::affine::AffineDividendPlan<R>,
        path: &W::Recorded,
        states: &Vec<HybridState<R>>,
        rd: R,
    ) -> (r: Result<Vec<R>, MonteCarloError>)
        requires
            self.plan.affine_dividends == Some(*d),
            states@ == self.w.states_of(*path),
        ensures
            seen(r) == paid_terms(
                self.m.model(),
                *self.w,
                *self.c,
                *self.plan,
                self.k@,
                d@,
                *path,
                rd,
            ),
            r matches Ok(v) ==> v@.len() == self.k@.width(),
    {
        proof {
            use_type_invariant(self);
        }
        let observed = match d.record(self.m, states) {
            Err(e) => return Err(e),
            Ok(v) => v,
        };
        let (payoff, seeds) = match self.w.payoff_adjoints(&self.plan.time_nodes, &observed.spots) {
            Err(e) => return Err(e),
            Ok(v) => v,
        };
        let adjoints = match d.reverse(self.m, self.c, &observed, states, &seeds, rd) {
            Err(e) => return Err(e),
            Ok(v) => v,
        };
        let back = match self.w.reverse_path(path, &adjoints.equity) {
            Err(e) => return Err(e),
            Ok(v) => v,
        };
        let mut row = self.row(payoff, rd, back.initial_spot, back.bs_volatility);
        append(&mut row, &adjoints.discount_log_df);
        append(&mut row, &adjoints.dividend_log_df);
        let leverage = taken(&back.squared_leverage, 0, self.k.leverage_count);
        assert(leverage@ =~= back@.squared_leverage.take(self.k@.leverage_count as int));
        append(&mut row, &leverage);
        Ok(row)
    }

    fn contribute_escrow(
        &self,
        path: &W::Recorded,
        states: &Vec<HybridState<R>>,
        rd: R,
    ) -> (r: Result<Vec<R>, MonteCarloError>)
        requires
            self.plan.affine_dividends is None,
            states@ == self.w.states_of(*path),
            states@.len() == self.plan.time_nodes@.len(),
        ensures
            seen(r) == escrow_terms(*self.w, *self.plan, self.k@, *path, rd),
            r matches Ok(v) ==> v@.len() == self.k@.width(),
    {
        proof {
            use_type_invariant(self);
        }
        let d = match &self.k.dividends {
            Some(d) => d,
            None => vstd::pervasive::unreached(),
        };
        assert(self.k@.dividends == Some(*d));
        let spots = match take_escrow_spots(
            self.w,
            d,
            &self.k.node_indices,
            &self.plan.time_nodes,
            states,
        ) {
            Err(e) => return Err(e),
            Ok(v) => v,
        };
        let (payoff, seeds) = match self.w.payoff_adjoints(&self.plan.time_nodes, &spots) {
            Err(e) => return Err(e),
            Ok(v) => v,
        };
        let (equity, nodes) = match sweep_nodes(
            self.m,
            self.w,
            d,
            &self.k.node_indices,
            states,
            &seeds,
            rd,
        ) {
            Err(e) => return Err(e),
            Ok(v) => v,
        };
        let back = match self.w.reverse_path(path, &equity) {
            Err(e) => return Err(e),
            Ok(v) => v,
        };
        let ghost counts = self.w.bond_counts_of(*d);
        let nodes = add_path_nodes(self.m, nodes, &back.dividends, Ghost(counts));
        let mut row = self.row(payoff, rd, back.initial_spot, back.bs_volatility);
        let coefficients = flatten(&nodes);
        proof {
            flat_shape(views(nodes@), counts);
        }
        append(&mut row, &coefficients);
        let leverage = taken(&back.squared_leverage, 0, self.k.leverage_count);
        assert(leverage@ =~= back@.squared_leverage.take(self.k@.leverage_count as int));
        append(&mut row, &leverage);
        Ok(row)
    }
}

impl<
    'a,
    R: Scalar,
    M: Math<R>,
    W: HybridWorld<R>,
    C: PaidMarket<R>,
> Contribution<R> for HybridContribution<'a, R, M, W, C> {
    closed spec fn term_count(&self) -> nat {
        self.k@.width()
    }

    closed spec fn quantities(&self) -> Quantities<R> {
        Quantities {
            width: self.k@.width(),
            terms: hybrid_terms(self.m.model(), *self.w, *self.c, *self.plan, self.k@),
            finish: as_they_are(),
        }
    }

    fn contribute(&self, shocks: &Vec<R>) -> (r: Result<Vec<R>, MonteCarloError>) {
        proof {
            use_type_invariant(self);
        }
        self.m.laws();
        let path = match self.w.record_path(shocks) {
            Err(e) => return Err(e),
            Ok(p) => p,
        };
        let states = self.w.states(&path);
        let steps: usize = self.plan.time_nodes.len() - 1;
        let time = self.plan.time_nodes[steps];
        let a = match self.w.relative_discount(time, states[steps].integrated_rate_factor) {
            Err(e) => return Err(e),
            Ok(x) => x,
        };
        let b = match self.w.relative_bond(
            time,
            self.plan.payment_time,
            states[steps].rate_factor,
        ) {
            Err(e) => return Err(e),
            Ok(x) => x,
        };
        let rd = a * b;
        match &self.plan.affine_dividends {
            Some(d) => self.contribute_paid(d, &path, &states, rd),
            None => self.contribute_escrow(&path, &states, rd),
        }
    }

    fn finish(&self, row: Vec<R>) -> (r: Result<Vec<R>, MonteCarloError>) {
        Ok(row)
    }
}

/// The number of quantities that the mean of the paths is reversed into: the
/// spot, the volatility where there is no calibration, the pillars of both
/// curves, the target of the calibration, and its quotes with their sum.
pub open spec fn risk_width<R: Scalar, W: HybridWorld<R>>(
    w: W,
    plan: HullWhiteEquityPricingPlan<R>,
) -> nat {
    1 + (if plan.calibration is None {
        1nat
    } else {
        2 * w.leverage_count_of() as nat + (if plan.market_iv_target is Some {
            w.quote_count_of() as nat + 1
        } else {
            0
        })
    }) + w.discount_count_of() as nat + w.dividend_count_of() as nat
}

/// What the calibration adds to the mean of the paths.
pub ghost struct CalibrationPart<R> {
    pub spot: R,
    pub nodes: Seq<NodeAdjointsView<R>>,
    pub target: Seq<R>,
    pub quotes: Seq<R>,
}

/// The mean of the paths reversed through the calibration.
pub open spec fn through_calibration<R: Scalar, W: HybridWorld<R>>(
    m: Model<R>,
    w: W,
    plan: HullWhiteEquityPricingPlan<R>,
    k: HybridContextView<W::Dividends>,
    mean: Seq<R>,
) -> Result<CalibrationPart<R>, MonteCarloError> {
    let nodes = match k.dividends {
        Some(d) => unflat(w.bond_counts_of(d), mean),
        None => Seq::empty(),
    };
    if plan.calibration is None {
        Ok(CalibrationPart { spot: mean[1], nodes, target: Seq::empty(), quotes: Seq::empty() })
    } else {
        match w.leverage_reversed(mean.skip(3 + k.coefficient_count as int)) {
            Err(e) => Err(e),
            Ok(back) => {
                let quotes = if plan.market_iv_target is Some {
                    match w.market_iv_reversed(back.local_variance, back.forward_log_density) {
                        Err(e) => Err(e),
                        Ok(q) => Ok(q.push(compensated_sum(m, q))),
                    }
                } else {
                    Ok(Seq::empty())
                };
                match quotes {
                    Err(e) => Err(e),
                    Ok(quotes) => Ok(
                        CalibrationPart {
                            spot: plus(mean[1], back.initial_spot),
                            nodes: with_path_nodes(nodes, back.dividends),
                            target: back.local_variance + back.forward_log_density,
                            quotes,
                        },
                    ),
                }
            },
        }
    }
}

/// The adjoints of the market out of the mean of the paths.
pub open spec fn market_part<R: Scalar, W: HybridWorld<R>>(
    w: W,
    k: HybridContextView<W::Dividends>,
    mean: Seq<R>,
    nodes: Seq<NodeAdjointsView<R>>,
) -> Result<MarketAdjointsView<R>, MonteCarloError> {
    match k.dividends {
        Some(d) => w.market_reversed(d, nodes),
        None => {
            let split = 3 + w.discount_count_of() as int;
            Ok(
                MarketAdjointsView {
                    spot: literal(0),
                    discount_log_df: mean.subrange(3, split),
                    dividend_log_df: mean.subrange(split, 3 + k.coefficient_count as int),
                },
            )
        },
    }
}

/// The mean of the paths reversed through the calibration and the market.
pub open spec fn mean_reversed<R: Scalar, W: HybridWorld<R>, C: PaidMarket<R>>(
    m: Model<R>,
    w: W,
    c: C,
    plan: HullWhiteEquityPricingPlan<R>,
    k: HybridContextView<W::Dividends>,
    mean: Seq<R>,
) -> Result<Seq<R>, MonteCarloError> {
    match through_calibration(m, w, plan, k, mean) {
        Err(e) => Err(e),
        Ok(part) => match market_part(w, k, mean, part.nodes) {
            Err(e) => Err(e),
            Ok(market) => match c.discount_transposed(
                plan.payment_time,
                mean[0],
                market.discount_log_df,
            ) {
                Err(e) => Err(e),
                Ok(discount) => {
                    let out = seq![plus(part.spot, market.spot)] + (if k.is_bs {
                        seq![mean[2]]
                    } else {
                        Seq::empty()
                    }) + discount + market.dividend_log_df + part.target + part.quotes;
                    if m.all_finite(out) {
                        Ok(out)
                    } else {
                        Err(rate_field("hybrid_risk_estimator", 0))
                    }
                },
            },
        },
    }
}

/// What the calibration adds, as it is computed.
struct CalibrationTerms<R> {
    spot: R,
    nodes: Vec<HullWhiteDividendNodeAdjoints<R>>,
    target: Vec<R>,
    quotes: Vec<R>,
}

impl<R> View for CalibrationTerms<R> {
    type V = CalibrationPart<R>;

    closed spec fn view(&self) -> CalibrationPart<R> {
        CalibrationPart {
            spot: self.spot,
            nodes: views(self.nodes@),
            target: self.target@,
            quotes: self.quotes@,
        }
    }
}

impl<D> Context<D> {
    fn reverse_calibration<R: Scalar, M: Math<R>, W: HybridWorld<R, Dividends = D>, C: PaidMarket<R>>(
        &self,
        m: &M,
        w: &W,
        c: &C,
        plan: &HullWhiteEquityPricingPlan<R>,
        mean: &Vec<R>,
    ) -> (r: Result<CalibrationTerms<R>, MonteCarloError>)
        requires
            plan.valid(m.model(), *w, *c),
            context_fits(*w, *plan, self@),
            mean@.len() == self@.width(),
        ensures
            viewed(r) == through_calibration(m.model(), *w, *plan, self@, mean@),
            r matches Ok(t) ==> t@.target.len() == (if plan.calibration is None {
                0
            } else {
                2 * w.leverage_count_of() as nat
            }) && t@.quotes.len() == (if plan.calibration is Some && plan.market_iv_target is Some {
                w.quote_count_of() as nat + 1
            } else {
                0
            }),
    {
        m.laws();
        let ghost counts = match self@.dividends {
            Some(d) => w.bond_counts_of(d),
            None => Seq::empty(),
        };
        let nodes = match &self.dividends {
            Some(d) => {
                let bonds = w.bond_counts(d);
                unflatten(&bonds, mean)
            },
            None => {
                let none: Vec<HullWhiteDividendNodeAdjoints<R>> = Vec::new();
                assert(views(none@) =~= Seq::empty());
                none
            },
        };
        let spot = mean[1];
        if plan.calibration.is_none() {
            let t = CalibrationTerms { spot, nodes, target: Vec::new(), quotes: Vec::new() };
            assert(t.target@ =~= Seq::empty());
            assert(t.quotes@ =~= Seq::empty());
            return Ok(t);
        }
        let offset: usize = 3 + self.coefficient_count;
        let seeds = taken(mean, offset, self.leverage_count);
        assert(seeds@ =~= mean@.skip(3 + self@.coefficient_count as int));
        let back = match w.reverse_leverage(&seeds) {
            Err(e) => return Err(e),
            Ok(v) => v,
        };
        let nodes = add_path_nodes(m, nodes, &back.dividends, Ghost(counts));
        let mut quotes: Vec<R> = Vec::new();
        assert(quotes@ =~= Seq::empty());
        if plan.market_iv_target.is_some() {
            quotes =
            match w.reverse_market_iv(&back.local_variance, &back.forward_log_density) {
                Err(e) => return Err(e),
                Ok(q) => q,
            };
            let sum = sum_compensated(m, quotes.as_slice());
            quotes.push(sum);
        }
        let mut target = back.local_variance;
        append(&mut target, &back.forward_log_density);
        Ok(CalibrationTerms { spot: spot + back.initial_spot, nodes, target, quotes })
    }

    /// Reverses the mean of the paths.
    pub fn reverse_mean<R: Scalar, M: Math<R>, W: HybridWorld<R, Dividends = D>, C: PaidMarket<R>>(
        &self,
        m: &M,
        w: &W,
        c: &C,
        plan: &HullWhiteEquityPricingPlan<R>,
        mean: &Vec<R>,
    ) -> (r: Result<Vec<R>, MonteCarloError>)
        requires
            plan.valid(m.model(), *w, *c),
            context_fits(*w, *plan, self@),
            mean@.len() == self@.width(),
        ensures
            seen(r) == mean_reversed(m.model(), *w, *c, *plan, self@, mean@),
            r matches Ok(v) ==> v@.len() == risk_width(*w, *plan),
    {
        m.laws();
        let part = match self.reverse_calibration(m, w, c, plan, mean) {
            Err(e) => return Err(e),
            Ok(v) => v,
        };
        let market = match &self.dividends {
            Some(d) => match w.reverse_market(d, &part.nodes) {
                Err(e) => return Err(e),
                Ok(v) => v,
            },
            None => {
                let count = w.discount_count();
                MarketAdjoints {
                    spot: R::from(0u32),
                    discount_log_df: taken(mean, 3, count),
                    dividend_log_df: taken(mean, 3 + count, self.coefficient_count - count),
                }
            },
        };
        assert(market@ == market_part(*w, self@, mean@, part@.nodes)->Ok_0);
        let discount = match c.transpose_discount(
            plan.payment_time,
            mean[0],
            &market.discount_log_df,
        ) {
            Err(e) => return Err(e),
            Ok(v) => v,
        };
        let first = part.spot + market.spot;
        let mut out: Vec<R> = vec![first];
        if self.is_bs {
            out.push(mean[2]);
        }
        append(&mut out, &discount);
        append(&mut out, &market.dividend_log_df);
        append(&mut out, &part.target);
        append(&mut out, &part.quotes);
        proof {
            assert(out@ =~= seq![plus(part@.spot, market@.spot)] + (if self@.is_bs {
                seq![mean@[2]]
            } else {
                Seq::empty()
            }) + discount@ + market@.dividend_log_df + part@.target + part@.quotes);
        }
        if !all_finite(m, out.as_slice()) {
            return Err(invalid_rate("hybrid_risk_estimator", 0));
        }
        Ok(out)
    }
}

/// The draws of the first `n` blocks after the bridge, which takes each block on
/// its own.
pub open spec fn blocks_bridged<R: Scalar, B: Backend<R>>(
    b: B,
    z: Seq<R>,
    steps: int,
    n: nat,
) -> Result<Seq<R>, MonteCarloError>
    decreases n,
{
    if n == 0 {
        Ok(Seq::empty())
    } else {
        match blocks_bridged(b, z, steps, (n - 1) as nat) {
            Err(e) => Err(e),
            Ok(done) => match b.bridge_of(chunk(z, steps, n - 1)) {
                Err(e) => Err(e),
                Ok(block) => Ok(done + block),
            },
        }
    }
}

proof fn blocks_stop<R: Scalar, B: Backend<R>>(b: B, z: Seq<R>, steps: int, a: nat, n: nat)
    requires
        a <= n,
        blocks_bridged(b, z, steps, a) is Err,
    ensures
        blocks_bridged(b, z, steps, n) == blocks_bridged(b, z, steps, a),
    decreases n,
{
    if a < n {
        blocks_stop(b, z, steps, a, (n - 1) as nat);
    }
}

/// Takes each block of draws through the bridge. Draws that fill no block are
/// left out.
pub(crate) fn bridge_blocks<R: Scalar, B: Backend<R>>(b: &B, z: &Vec<R>, steps: usize) -> (r: Result<
    Vec<R>,
    MonteCarloError,
>)
    requires
        steps > 0,
    ensures
        seen(r) == blocks_bridged(*b, z@, steps as int, z@.len() / steps as nat),
{
    let n: usize = z.len() / steps;
    let mut out: Vec<R> = Vec::new();
    let mut at: usize = 0;
    let mut i: usize = 0;
    while i < n
        invariant
            steps > 0,
            n == z@.len() / steps as nat,
            i <= n,
            at == steps * i,
            at <= z@.len(),
            blocks_bridged(*b, z@, steps as int, i as nat) == Ok::<Seq<R>, MonteCarloError>(out@),
        decreases n - i,
    {
        proof {
            let (len, s, k, j) = (z@.len() as int, steps as int, n as int, i as int);
            assert(s * (j + 1) <= len && s * (j + 1) == s * j + s) by (nonlinear_arith)
                requires
                    s > 0,
                    k == len / s,
                    0 <= j < k,
            ;
            if blocks_bridged(*b, z@, steps as int, (i + 1) as nat) is Err {
                blocks_stop(*b, z@, steps as int, (i + 1) as nat, n as nat);
            }
        }
        let block = taken(z, at, steps);
        assert(block@ =~= chunk(z@, steps as int, i as int));
        let moved = match b.bridge(&block) {
            Err(e) => return Err(e),
            Ok(v) => v,
        };
        append(&mut out, &moved);
        assert(z@.len() == z.len());
        at = at + steps;
        i = i + 1;
    }
    Ok(out)
}

/// The standard normal of a scrambled point in a dimension.
pub open spec fn point_normal<R: Scalar, B: Backend<R>>(b: B, scramble: u32, point: u64) -> spec_fn(
    int,
) -> Result<R, MonteCarloError> {
    |d: int|
        match b.uniform_at(scramble, point, d as u32) {
            None => Err(rate_field("rqmc_uniform", d as usize)),
            Some(u) => match b.inverse_at(u) {
                None => Err(rate_field("rqmc_normal", d as usize)),
                Some(z) => Ok(z),
            },
        }
}

/// Draws the standard normals of a scrambled point.
fn draw_point<R: Scalar, B: Backend<R>>(b: &B, scramble: u32, point: u64, dimension: u32) -> (r:
    Result<Vec<R>, MonteCarloError>)
    ensures
        seen(r) == gather(dimension as nat, point_normal(*b, scramble, point)),
{
    let ghost f = point_normal(*b, scramble, point);
    let n: usize = dimension as usize;
    let f_at = |d: usize| -> (x: Result<R, MonteCarloError>)
        requires
            d < n,
        ensures
            x == f(d as int),
        {
            match b.uniform(scramble, point, d as u32) {
                None => Err(invalid_rate("rqmc_uniform", d)),
                Some(u) => match b.inverse_normal(u) {
                    None => Err(invalid_rate("rqmc_normal", d)),
                    Some(z) => Ok(z),
                },
            }
        };
    collect(
        n,
        f_at,
        Ghost(f),
    )
}

/// The quantities of one draw, after the bridge where it is requested.
pub open spec fn hybrid_sampled<R: Scalar, B: Backend<R>>(
    b: B,
    q: Quantities<R>,
    plan: HullWhiteEquityPricingPlan<R>,
    z: Seq<R>,
) -> Result<Seq<R>, MonteCarloError> {
    let reduction = plan.engine.reduction();
    let steps = plan.time_nodes@.len() - 1;
    if reduction.brownian_bridge {
        match blocks_bridged(b, z, steps, z.len() / (steps as nat)) {
            Err(e) => Err(e),
            Ok(moved) => finished(q, reduction.antithetic, moved),
        }
    } else {
        finished(q, reduction.antithetic, z)
    }
}

/// The number of draws of a path, in the thirty-two bits that number them.
pub open spec fn draw_dimension<R: Scalar>(plan: HullWhiteEquityPricingPlan<R>) -> u32 {
    ((plan.random_factor_count * (plan.time_nodes@.len() - 1)) as usize) as u32
}

/// The rows of the simulation of a plan.
pub open spec fn hybrid_rows<R: Scalar, B: Backend<R>, W: HybridWorld<R>>(
    b: B,
    w: W,
    q: Quantities<R>,
    plan: HullWhiteEquityPricingPlan<R>,
) -> Rows<R> {
    Rows {
        width: q.width,
        unit: |p: int|
            match w.pseudo_shocks_of(p as u64) {
                Err(e) => Err(e),
                Ok(z) => hybrid_sampled(b, q, plan, z),
            },
        point: |scramble: u32, p: int|
            match gather(
                draw_dimension(plan) as nat,
                point_normal(b, scramble, p as u64),
            ) {
                Err(e) => Err(e),
                Ok(z) => hybrid_sampled(b, q, plan, z),
            },
    }
}

struct HybridSampler<
    'a,
    R: Scalar,
    M: Math<R>,
    B: Backend<R>,
    W: HybridWorld<R>,
    C: PaidMarket<R>,
> {
    b: &'a B,
    terms: HybridContribution<'a, R, M, W, C>,
    dimension: u32,
}

impl<'a, R: Scalar, M: Math<R>, B: Backend<R>, W: HybridWorld<R>, C: PaidMarket<R>> HybridSampler<
    'a,
    R,
    M,
    B,
    W,
    C,
> {
    #[verifier::type_invariant]
    spec fn inv(self) -> bool {
        &&& self.terms.plan.valid(self.terms.m.model(), *self.terms.w, *self.terms.c)
        &&& self.dimension == draw_dimension(*self.terms.plan)
    }

    fn sample_aad(&self, z: Vec<R>) -> (r: Result<Vec<R>, MonteCarloError>)
        ensures
            seen(r) == hybrid_sampled(*self.b, self.terms.quantities(), *self.terms.plan, z@),
            r matches Ok(v) ==> v@.len() == self.terms.quantities().width,
    {
        proof {
            use_type_invariant(self);
        }
        let steps: usize = self.terms.plan.time_nodes.len() - 1;
        let reduction = match &self.terms.plan.engine {
            EngineConfig::PseudoMonteCarlo(c) => c.variance_reduction,
            EngineConfig::RandomizedQuasiMonteCarlo(c) => c.variance_reduction,
        };
        let arranged = if reduction.brownian_bridge {
            match bridge_blocks(self.b, &z, steps) {
                Err(e) => return Err(e),
                Ok(v) => v,
            }
        } else {
            z
        };
        match average(self.terms.m, &self.terms, reduction.antithetic, &arranged) {
            Err(e) => Err(e),
            Ok(row) => self.terms.finish(row),
        }
    }
}

impl<
    'a,
    R: Scalar,
    M: Math<R>,
    B: Backend<R>,
    W: HybridWorld<R>,
    C: PaidMarket<R>,
> UnitSampler<R> for HybridSampler<'a, R, M, B, W, C> {
    closed spec fn rows(&self) -> Rows<R> {
        hybrid_rows(*self.b, *self.terms.w, self.terms.quantities(), *self.terms.plan)
    }

    open spec fn unit_exists(&self, unit: u64) -> bool {
        true
    }

    open spec fn point_exists(&self, scramble: u32, point: u64) -> bool {
        true
    }

    fn sample_unit(&self, unit: u64) -> (r: Result<Vec<R>, MonteCarloError>) {
        match self.terms.w.pseudo_shocks(unit) {
            Err(e) => Err(e),
            Ok(z) => self.sample_aad(z),
        }
    }

    fn sample_point(&self, scramble: u32, point: u64) -> (r: Result<Vec<R>, MonteCarloError>) {
        proof {
            use_type_invariant(self);
        }
        match draw_point(self.b, scramble, point, self.dimension) {
            Err(e) => Err(e),
            Ok(z) => self.sample_aad(z),
        }
    }
}

/// The standard error of a mean. It needs a sample variance, and has to be
/// finite.
pub open spec fn hybrid_error<R: Scalar>(m: Model<R>, s: Statistics<R>, units: u64) -> Result<
    R,
    MonteCarloError,
> {
    match s.sample_variance {
        None => Err(MonteCarloError::InsufficientSamplingUnits { count: units }),
        Some(variance) => {
            let error = m.sqrt(over(variance, m.of(units)));
            if m.is_finite(error) {
                Ok(error)
            } else {
                Err(rate_field("risk_standard_error", 0))
            }
        },
    }
}

/// Takes the standard error of a mean.
pub fn standard_error<R: Scalar, M: Math<R>>(m: &M, s: Statistics<R>, count: u64) -> (r: Result<
    R,
    MonteCarloError,
>)
    ensures
        r == hybrid_error(m.model(), s, count),
{
    m.laws();
    match s.sample_variance {
        None => Err(MonteCarloError::InsufficientSamplingUnits { count }),
        Some(variance) => {
            let error = m.sqrt(variance / m.of(count));
            if !m.is_finite(error) {
                return Err(invalid_rate("risk_standard_error", 0));
            }
            Ok(error)
        },
    }
}

/// What a simulation of a plan gives: the statistics of its price, the
/// derivatives, and their standard errors where scrambles give some.
pub struct HybridOutcome<R> {
    pub price: Statistics<R>,
    pub derivatives: Vec<R>,
    pub standard_errors: Option<Vec<R>>,
}

/// A [`HybridOutcome`] as a mathematical value.
pub ghost struct HybridOutcomeView<R> {
    pub price: Statistics<R>,
    pub derivatives: Seq<R>,
    pub standard_errors: Option<Seq<R>>,
}

impl<R> View for HybridOutcome<R> {
    type V = HybridOutcomeView<R>;

    open spec fn view(&self) -> HybridOutcomeView<R> {
        HybridOutcomeView {
            price: self.price,
            derivatives: self.derivatives@,
            standard_errors: opt_seen(self.standard_errors),
        }
    }
}

/// The quantities of a plan.
pub open spec fn hybrid_quantities<R: Scalar, W: HybridWorld<R>, C: PaidMarket<R>>(
    m: Model<R>,
    w: W,
    c: C,
    plan: HullWhiteEquityPricingPlan<R>,
    k: HybridContextView<W::Dividends>,
) -> Quantities<R> {
    Quantities { width: k.width(), terms: hybrid_terms(m, w, c, plan, k), finish: as_they_are() }
}

/// What a pseudo-random simulation gives: the mean over all draws is reversed.
pub open spec fn pseudo_outcome<R: Scalar, B: Backend<R>, W: HybridWorld<R>, C: PaidMarket<R>>(
    m: Model<R>,
    b: B,
    w: W,
    c: C,
    plan: HullWhiteEquityPricingPlan<R>,
    k: HybridContextView<W::Dividends>,
) -> Result<HybridOutcomeView<R>, MonteCarloError> {
    let q = hybrid_quantities(m, w, c, plan, k);
    match table_of(m, b, hybrid_rows(b, w, q, plan), plan.engine, false) {
        Err(e) => Err(e),
        Ok(table) => {
            let s = statistics_of(b, plan.engine, false, table, q.width);
            let mean = Seq::new(q.width, |j: int| mean_of(m, s[j], plan.engine.units()));
            match mean_reversed(m, w, c, plan, k, mean) {
                Err(e) => Err(e),
                Ok(derivatives) => Ok(
                    HybridOutcomeView { price: s[0], derivatives, standard_errors: None },
                ),
            }
        },
    }
}

/// The price and the derivatives of a scramble, whose own mean is reversed.
pub open spec fn scramble_risk<R: Scalar, B: Backend<R>, W: HybridWorld<R>, C: PaidMarket<R>>(
    m: Model<R>,
    b: B,
    w: W,
    c: C,
    plan: HullWhiteEquityPricingPlan<R>,
    k: HybridContextView<W::Dividends>,
    points: u64,
) -> spec_fn(int) -> Result<Seq<R>, MonteCarloError> {
    let q = hybrid_quantities(m, w, c, plan, k);
    |scramble: int|
        match scramble_row(m, b, hybrid_rows(b, w, q, plan), false, points)(scramble) {
            Err(e) => Err(e),
            Ok(mean) => match mean_reversed(m, w, c, plan, k, mean) {
                Err(e) => Err(e),
                Ok(derivatives) => Ok(seq![mean[0]] + derivatives),
            },
        }
}

/// The standard errors of derivatives.
pub open spec fn scramble_errors<R: Scalar, B: Backend<R>>(
    m: Model<R>,
    b: B,
    table: Seq<Seq<R>>,
    units: u64,
) -> spec_fn(int) -> Result<R, MonteCarloError> {
    |j: int| hybrid_error(m, b.two_pass_of(column(table, j + 1)), units)
}

/// What a quasi-random simulation gives: the derivatives are the means over the
/// scrambles, and the scrambles give their standard errors.
pub open spec fn quasi_outcome<R: Scalar, B: Backend<R>, W: HybridWorld<R>, C: PaidMarket<R>>(
    m: Model<R>,
    b: B,
    w: W,
    c: C,
    plan: HullWhiteEquityPricingPlan<R>,
    k: HybridContextView<W::Dividends>,
    points: u64,
) -> Result<HybridOutcomeView<R>, MonteCarloError> {
    let units = plan.engine.units();
    match gather(units as nat, scramble_risk(m, b, w, c, plan, k, points)) {
        Err(e) => Err(e),
        Ok(table) => match gather(risk_width(w, plan), scramble_errors(m, b, table, units)) {
            Err(e) => Err(e),
            Ok(errors) => Ok(
                HybridOutcomeView {
                    price: b.two_pass_of(column(table, 0)),
                    derivatives: Seq::new(
                        risk_width(w, plan),
                        |j: int| mean_of(m, b.two_pass_of(column(table, j + 1)), units),
                    ),
                    standard_errors: Some(errors),
                },
            ),
        },
    }
}

/// What a simulation of a plan gives, or its first failure: of the quasi-random
/// plan, of the bridge, of a draw or of the reversal of a mean.
pub open spec fn hybrid_outcome<R: Scalar, B: Backend<R>, W: HybridWorld<R>, C: PaidMarket<R>>(
    m: Model<R>,
    b: B,
    w: W,
    c: C,
    plan: HullWhiteEquityPricingPlan<R>,
    k: HybridContextView<W::Dividends>,
) -> Result<HybridOutcomeView<R>, MonteCarloError> {
    let bridge = if plan.engine.reduction().brownian_bridge {
        plan.bridge_failure
    } else {
        None
    };
    match plan.engine {
        EngineConfig::PseudoMonteCarlo(_) => match bridge {
            Some(e) => Err(e),
            None => pseudo_outcome(m, b, w, c, plan, k),
        },
        EngineConfig::RandomizedQuasiMonteCarlo(q) => match plan.quasi_failure {
            Some(e) => Err(e),
            None => match bridge {
                Some(e) => Err(e),
                None => quasi_outcome(m, b, w, c, plan, k, q.points_per_scramble),
            },
        },
    }
}

/// Runs a pseudo-random simulation.
fn run_pseudo<R: Scalar, M: Math<R>, B: Backend<R>, W: HybridWorld<R>, C: PaidMarket<R>>(
    m: &M,
    b: &B,
    w: &W,
    c: &C,
    plan: &HullWhiteEquityPricingPlan<R>,
    k: &Context<W::Dividends>,
    sampler: &HybridSampler<R, M, B, W, C>,
    count: u64,
) -> (r: Result<HybridOutcome<R>, MonteCarloError>)
    requires
        plan.valid(m.model(), *w, *c),
        context_fits(*w, *plan, k@),
        plan.engine is PseudoMonteCarlo,
        count == plan.engine.units(),
        sampler.rows() == hybrid_rows(
            *b,
            *w,
            hybrid_quantities(m.model(), *w, *c, *plan, k@),
            *plan,
        ),
    ensures
        viewed(r) == pseudo_outcome(m.model(), *b, *w, *c, *plan, k@),
        r matches Ok(v) ==> v@.derivatives.len() == risk_width(*w, *plan),
{
    let width = k.width();
    let table = match tabulate(m, b, sampler, &plan.engine, false, width) {
        Err(e) => return Err(e),
        Ok(t) => t,
    };
    let statistics = summarise(b, &plan.engine, false, &table, width, width);
    let ghost entry = |j: int| mean_of(m.model(), statistics@[j], count);
    let mean_at = |j: usize| -> (x: R)
        requires
            j < width,
        ensures
            x == entry(j as int),
        {
            m.laws();
            statistics[j].total / m.of(count)
        };
    let mean = build(
        width,
        mean_at,
        Ghost(entry),
    );
    assert(mean@ =~= Seq::new(
        k@.width(),
        |j: int| mean_of(m.model(), statistics@[j], plan.engine.units()),
    ));
    match k.reverse_mean(m, w, c, plan, &mean) {
        Err(e) => Err(e),
        Ok(derivatives) => Ok(
            HybridOutcome { price: statistics[0], derivatives, standard_errors: None },
        ),
    }
}

/// Runs a quasi-random simulation.
fn run_quasi<R: Scalar, M: Math<R>, B: Backend<R>, W: HybridWorld<R>, C: PaidMarket<R>>(
    m: &M,
    b: &B,
    w: &W,
    c: &C,
    plan: &HullWhiteEquityPricingPlan<R>,
    k: &Context<W::Dividends>,
    sampler: &HybridSampler<R, M, B, W, C>,
    scrambles: u32,
    points: u64,
) -> (r: Result<HybridOutcome<R>, MonteCarloError>)
    requires
        plan.valid(m.model(), *w, *c),
        context_fits(*w, *plan, k@),
        scrambles > 0,
        scrambles == plan.engine.units(),
        sampler.rows() == hybrid_rows(
            *b,
            *w,
            hybrid_quantities(m.model(), *w, *c, *plan, k@),
            *plan,
        ),
    ensures
        viewed(r) == quasi_outcome(m.model(), *b, *w, *c, *plan, k@, points),
        r matches Ok(v) ==> v@.derivatives.len() == risk_width(*w, *plan) && (
        v@.standard_errors matches Some(e) ==> e.len() == risk_width(*w, *plan)),
{
    let width = k.width();
    let ghost n = risk_width(*w, *plan);
    let ghost row = scramble_risk(m.model(), *b, *w, *c, *plan, k@, points);
    let count: usize = scrambles as usize;
    let table_at = |i: usize| -> (x: Result<Vec<R>, MonteCarloError>)
        requires
            i < count,
        ensures
            seen(x) == row(i as int),
            x matches Ok(v) ==> v@.len() == 1 + risk_width(*w, *plan),
        {
            let mean = match scramble_means(m, b, sampler, false, i as u32, points, width) {
                Err(e) => return Err(e),
                Ok(v) => v,
            };
            let derivatives = match k.reverse_mean(m, w, c, plan, &mean) {
                Err(e) => return Err(e),
                Ok(v) => v,
            };
            let mut line: Vec<R> = vec![mean[0]];
            append(&mut line, &derivatives);
            assert(line@ =~= seq![mean@[0]] + derivatives@);
            Ok(line)
        };
    let table = match collect_rows(
        count,
        table_at,
        Ghost(row),
        Ghost(1 + n),
    ) {
        Err(e) => return Err(e),
        Ok(t) => t,
    };
    let ghost rows = rows_seen(table@);
    assert(rows =~= rows_of(table@));
    let units: u64 = scrambles as u64;
    let columns: usize = table[0].len();
    let size: usize = columns - 1;
    let ghost derivative = |j: int| mean_of(m.model(), b.two_pass_of(column(rows, j + 1)), units);
    let derivatives_at = |j: usize| -> (x: R)
        requires
            j < size,
        ensures
            x == derivative(j as int),
        {
            m.laws();
            let values = take_column(&table, j + 1);
            b.two_pass(&values).total / m.of(units)
        };
    let derivatives = build(
        size,
        derivatives_at,
        Ghost(derivative),
    );
    let ghost error = scramble_errors(m.model(), *b, rows, units);
    let errors_at = |j: usize| -> (x: Result<R, MonteCarloError>)
        requires
            j < size,
        ensures
            x == error(j as int),
        {
            let values = take_column(&table, j + 1);
            standard_error(m, b.two_pass(&values), units)
        };
    let errors = match collect(
        size,
        errors_at,
        Ghost(error),
    ) {
        Err(e) => return Err(e),
        Ok(v) => v,
    };
    let prices = take_column(&table, 0);
    assert(derivatives@ =~= Seq::new(
        n,
        |j: int| mean_of(m.model(), b.two_pass_of(column(rows, j + 1)), units),
    ));
    Ok(HybridOutcome { price: b.two_pass(&prices), derivatives, standard_errors: Some(errors) })
}

/// Runs the simulation of a plan.
pub fn run_hybrid<R: Scalar, M: Math<R>, B: Backend<R>, W: HybridWorld<R>, C: PaidMarket<R>>(
    m: &M,
    b: &B,
    w: &W,
    c: &C,
    plan: &HullWhiteEquityPricingPlan<R>,
    k: &Context<W::Dividends>,
) -> (r: Result<HybridOutcome<R>, MonteCarloError>)
    requires
        plan.valid(m.model(), *w, *c),
        context_fits(*w, *plan, k@),
    ensures
        viewed(r) == hybrid_outcome(m.model(), *b, *w, *c, *plan, k@),
        r matches Ok(v) ==> v@.derivatives.len() == risk_width(*w, *plan) && (
        v@.standard_errors matches Some(e) ==> e.len() == risk_width(*w, *plan)),
{
    let reduction = match &plan.engine {
        EngineConfig::PseudoMonteCarlo(q) => q.variance_reduction,
        EngineConfig::RandomizedQuasiMonteCarlo(q) => {
            if let Some(e) = plan.quasi_failure {
                return Err(e);
            }
            q.variance_reduction
        },
    };
    if reduction.brownian_bridge {
        if let Some(e) = plan.bridge_failure {
            return Err(e);
        }
    }
    let draws: usize = plan.random_factor_count * (plan.time_nodes.len() - 1);
    let dimension: u32 = #[verifier::truncate]
    (draws as u32);
    let sampler = HybridSampler {
        b,
        terms: HybridContribution { m, w, c, plan, k },
        dimension,
    };
    match &plan.engine {
        EngineConfig::PseudoMonteCarlo(q) => run_pseudo(
            m,
            b,
            w,
            c,
            plan,
            k,
            &sampler,
            q.independent_sampling_units,
        ),
        EngineConfig::RandomizedQuasiMonteCarlo(q) => run_quasi(
            m,
            b,
            w,
            c,
            plan,
            k,
            &sampler,
            q.scramble_count,
            q.points_per_scramble,
        ),
    }
}

} // verus!
