//! First-order risk of equity and stochastic dividends under stochastic rates: the
//! derivatives of the payoff, reversed through its path, and beside them those with
//! respect to the rate and to the correlations, carried along it.

use crate::affine::AffineSpot;
use crate::dividend_aad::{all_but_first, AadRiskView, StochasticDividendAadRisk};
use crate::dynamics::{DividendDynamics, KernelNumerics};
use crate::errors::{unsupported_risk, MonteCarloError};
use crate::estimation::{estimate_together, estimated_together, simulate, simulated};
use crate::extension::{
    begins, fewer_estimates_are_a_beginning, wider_simulation_keeps_statistics,
};
use crate::hw_correlation_risk::{
    correlation_labels, correlation_sensitivity, correlation_spots, correlation_tangents,
    CorrelationSensitivityView, HullWhiteCorrelationSensitivityContext,
    HullWhiteCorrelationStateTangent,
};
use crate::hw_path::{
    rate_path_states, RatePathView, StochasticDividendHullWhitePathPlan,
    StochasticDividendHullWhiteState,
};
use crate::hw_plan::{
    payment_factor, rate_path_spots, rate_price, rate_value, take_path_spots, take_payment_factor,
    RatePlanView, StochasticDividendHullWhitePricingPlan,
};
use crate::hw_rate_risk::{
    rate_parameter_labels, rate_sensitivity, rate_tangents, rates_sized, spot_slopes,
    HullWhiteRateSensitivityContext, HullWhiteRateStateTangent, RateSensitivityView,
};
use crate::hw_reverse::{
    pullback_is_sized, rate_context, rate_market_sized, rate_pullback, HullWhiteReverseContext,
    RateContextView,
};
use crate::hybrid_aad::append;
use crate::linear::{build, collect_rows, rows_seen, take_total, total, viewed};
use crate::plan::engine_units;
use crate::rate_market::RateMarket;
use crate::results::{gather, seen};
use crate::reverse::{Label, SpotSeed};
use crate::sampling::{as_they_are, Backend, Contribution, Quantities};
use crate::scalar::{minus, negated, plus, times, Math, Model, Scalar};
use crate::spot_payoff::SpotPayoff;
use core::ops::Neg;
use vstd::prelude::*;

verus! {

/// Which parameters a risk covers.
#[derive(Clone, Copy, Debug, PartialEq, Eq)]
pub enum RateAadScope {
    /// Those of the nodes.
    Basic,
    /// Also those of the rate.
    RateParameters,
    /// Also the correlations of the drivers.
    Correlations,
}

/// What the derivatives of a scope need.
pub struct ScopeContext<R> {
    pub context: HullWhiteReverseContext<R>,
    pub rate: Option<HullWhiteRateSensitivityContext<R>>,
    pub correlation: Option<HullWhiteCorrelationSensitivityContext<R>>,
}

/// A [`ScopeContext`] as a mathematical value.
pub ghost struct ScopeContextView<R> {
    pub context: RateContextView<R>,
    pub rate: Option<RateSensitivityView<R>>,
    pub correlation: Option<CorrelationSensitivityView<R>>,
}

impl<R> View for ScopeContext<R> {
    type V = ScopeContextView<R>;

    open spec fn view(&self) -> ScopeContextView<R> {
        ScopeContextView {
            context: self.context@,
            rate: match self.rate {
                Some(k) => Some(k@),
                None => None,
            },
            correlation: match self.correlation {
                Some(k) => Some(k@),
                None => None,
            },
        }
    }
}

impl<R> ScopeContextView<R> {
    /// The context belongs to a path.
    pub open spec fn of(self, p: RatePathView<R>) -> bool {
        &&& self.context.of(p)
        &&& self.rate matches Some(k) ==> k.of(p)
        &&& self.correlation matches Some(k) ==> k.of(p)
    }

    /// The names of the parameters.
    pub open spec fn labels(self) -> Seq<Label> {
        self.context.labels + (match self.rate {
            Some(k) => k.labels,
            None => Seq::empty(),
        }) + (match self.correlation {
            Some(k) => correlation_labels(),
            None => Seq::empty(),
        })
    }
}

/// What the derivatives of a scope need, out of a plan: the nodes, then the
/// correlations, then the rate.
pub open spec fn rate_scope<
    R: Scalar,
    Y: DividendDynamics<R>,
    N: KernelNumerics<R>,
    C: RateMarket<R>,
>(m: Model<R>, y: Y, o: N, c: C, p: RatePlanView<R>, scope: RateAadScope) -> Result<
    ScopeContextView<R>,
    MonteCarloError,
> {
    match rate_context(m, y, c, p.rates, p.inputs, p.path, p.payment_time) {
        Err(e) => Err(e),
        Ok(context) => if scope is Basic {
            Ok(ScopeContextView { context, rate: None, correlation: None })
        } else if scope is RateParameters {
            match rate_sensitivity(m, p.rates, p.inputs, p.path, p.payment_time) {
                Err(e) => Err(e),
                Ok(k) => Ok(ScopeContextView { context, rate: Some(k), correlation: None }),
            }
        } else {
            match correlation_sensitivity(m, o, p.rates, p.inputs, p.path) {
                Err(e) => Err(e),
                Ok(q) => match rate_sensitivity(m, p.rates, p.inputs, p.path, p.payment_time) {
                    Err(e) => Err(e),
                    Ok(k) => Ok(
                        ScopeContextView { context, rate: Some(k), correlation: Some(q) },
                    ),
                },
            }
        },
    }
}

/// How the rate moves along a path with the parameters of a scope.
pub open spec fn rate_moves<R: Scalar>(
    m: Model<R>,
    k: Option<RateSensitivityView<R>>,
    path: RatePathView<R>,
    z: Seq<R>,
    states: Seq<StochasticDividendHullWhiteState<R>>,
) -> Result<Seq<Seq<HullWhiteRateStateTangent<R>>>, MonteCarloError> {
    match k {
        None => Ok(Seq::empty()),
        Some(k) => rate_tangents(m, k, path, z, states),
    }
}

/// How the drivers move along a path with the correlations of a scope.
pub open spec fn driver_moves<R: Scalar, Y: DividendDynamics<R>>(
    m: Model<R>,
    y: Y,
    k: Option<CorrelationSensitivityView<R>>,
    path: RatePathView<R>,
    z: Seq<R>,
    states: Seq<StochasticDividendHullWhiteState<R>>,
) -> Result<Seq<Seq<HullWhiteCorrelationStateTangent<R>>>, MonteCarloError> {
    match k {
        None => Ok(Seq::empty()),
        Some(k) => correlation_tangents(m, y, k, path, z, states),
    }
}

/// How the spots move with the parameters of the rate, node by node.
pub open spec fn spot_moves<R: Scalar>(
    m: Model<R>,
    k: Option<RateSensitivityView<R>>,
    path: RatePathView<R>,
    states: Seq<StochasticDividendHullWhiteState<R>>,
    moves: Seq<Seq<HullWhiteRateStateTangent<R>>>,
) -> Result<Seq<Seq<R>>, MonteCarloError> {
    match k {
        None => Ok(Seq::empty()),
        Some(k) => gather(
            states.len(),
            |i: int| spot_slopes(m, k, path, i, states[i], moves[i]),
        ),
    }
}

/// The effects of a parameter of the rate on the payoff, node by node.
pub open spec fn seed_terms<R: Scalar>(seeds: Seq<SpotSeed<R>>, slopes: Seq<Seq<R>>, q: int) -> Seq<
    R,
> {
    Seq::new(seeds.len(), |i: int| times(plus(seeds[i].post, seeds[i].pre), slopes[i][q]))
}

/// The derivative with respect to a parameter: through the payoff, and through the
/// discount factor of the payment.
pub open spec fn moved_value<R: Scalar>(
    payoff: R,
    log_discount: R,
    relative: R,
    discounted: R,
) -> R {
    plus(times(relative, payoff), times(discounted, log_discount))
}

/// The effect of a parameter of the rate on the logarithm of the discount factor of
/// the payment.
pub open spec fn rate_log_discount<R: Scalar>(
    log_constant: R,
    duration_slope: R,
    duration: R,
    last: StochasticDividendHullWhiteState<R>,
    t: HullWhiteRateStateTangent<R>,
) -> R {
    minus(
        minus(
            minus(log_constant, t.integrated_rate_factor),
            times(duration_slope, last.rate_factor),
        ),
        times(duration, t.rate_factor),
    )
}

/// The derivatives with respect to the parameters of the rate.
pub open spec fn rate_part<R: Scalar>(
    k: Option<RateSensitivityView<R>>,
    duration: R,
    last: StochasticDividendHullWhiteState<R>,
    moves: Seq<Seq<HullWhiteRateStateTangent<R>>>,
    slopes: Seq<Seq<R>>,
    seeds: Seq<SpotSeed<R>>,
    relative: R,
    discounted: R,
) -> Seq<R> {
    match k {
        None => Seq::empty(),
        Some(k) => Seq::new(
            k.labels.len(),
            |q: int|
                moved_value(
                    total(seed_terms(seeds, slopes, q)),
                    rate_log_discount(
                        k.payment_log_constant[q],
                        k.payment_duration[q],
                        duration,
                        last,
                        moves.last()[q],
                    ),
                    relative,
                    discounted,
                ),
        ),
    }
}

/// How the spots move with the correlations, node by node.
pub open spec fn pair_moves<R: Scalar>(
    m: Model<R>,
    k: Option<CorrelationSensitivityView<R>>,
    path: RatePathView<R>,
    states: Seq<StochasticDividendHullWhiteState<R>>,
    moves: Seq<Seq<HullWhiteCorrelationStateTangent<R>>>,
) -> Result<Seq<Seq<SpotSeed<R>>>, MonteCarloError> {
    match k {
        None => Ok(Seq::empty()),
        Some(k) => gather(
            states.len(),
            |i: int| correlation_spots(m, k, path, i, states[i], moves[i]),
        ),
    }
}

/// The effects of a correlation on the payoff, node by node.
pub open spec fn pair_terms<R: Scalar>(
    seeds: Seq<SpotSeed<R>>,
    slopes: Seq<Seq<SpotSeed<R>>>,
    q: int,
) -> Seq<R> {
    Seq::new(
        seeds.len(),
        |i: int| plus(
            times(seeds[i].post, slopes[i][q].post),
            times(seeds[i].pre, slopes[i][q].pre),
        ),
    )
}

/// The effect of a correlation on the logarithm of the discount factor of the
/// payment, which depends on it through the rate alone.
pub open spec fn pair_log_discount<R: Scalar>(
    duration: R,
    t: HullWhiteCorrelationStateTangent<R>,
) -> R {
    minus(negated(t.integrated_rate_factor), times(duration, t.rate_factor))
}

/// The derivatives with respect to the correlations.
pub open spec fn correlation_part<R: Scalar>(
    k: Option<CorrelationSensitivityView<R>>,
    duration: R,
    moves: Seq<Seq<HullWhiteCorrelationStateTangent<R>>>,
    slopes: Seq<Seq<SpotSeed<R>>>,
    seeds: Seq<SpotSeed<R>>,
    relative: R,
    discounted: R,
) -> Seq<R> {
    match k {
        None => Seq::empty(),
        Some(k) => Seq::new(
            3,
            |q: int|
                moved_value(
                    total(pair_terms(seeds, slopes, q)),
                    pair_log_discount(duration, moves.last()[q]),
                    relative,
                    discounted,
                ),
        ),
    }
}

/// The adjoints of the spots, discounted.
pub open spec fn discounted_seeds<R: Scalar>(seeds: Seq<SpotSeed<R>>, relative: R) -> Seq<
    SpotSeed<R>,
> {
    Seq::new(
        seeds.len(),
        |i: int| SpotSeed {
            post: times(relative, seeds[i].post),
            pre: times(relative, seeds[i].pre),
        },
    )
}

/// What follows the payoff of a path: its discounted value, the derivatives with
/// respect to the nodes, to the rate and to the correlations.
pub open spec fn rate_row<R: Scalar, Y: DividendDynamics<R>, C: RateMarket<R>>(
    m: Model<R>,
    y: Y,
    c: C,
    p: RatePlanView<R>,
    s: ScopeContextView<R>,
    z: Seq<R>,
    states: Seq<StochasticDividendHullWhiteState<R>>,
    moves: Seq<Seq<HullWhiteRateStateTangent<R>>>,
    drivers: Seq<Seq<HullWhiteCorrelationStateTangent<R>>>,
    slopes: Seq<Seq<R>>,
    payoff: R,
    seeds: Seq<SpotSeed<R>>,
) -> Result<Seq<R>, MonteCarloError> {
    let last = states.last();
    match payment_factor(m, p.payment_constant, p.payment_duration, last) {
        Err(e) => Err(e),
        Ok(relative) => {
            let discounted = times(relative, payoff);
            match rate_pullback(
                m,
                y,
                c,
                s.context,
                p.path,
                z,
                states,
                discounted_seeds(seeds, relative),
                discounted,
            ) {
                Err(e) => Err(e),
                Ok(reverse) => match pair_moves(m, s.correlation, p.path, states, drivers) {
                    Err(e) => Err(e),
                    Ok(pairs) => Ok(
                        seq![discounted] + reverse + rate_part(
                            s.rate,
                            p.payment_duration,
                            last,
                            moves,
                            slopes,
                            seeds,
                            relative,
                            discounted,
                        ) + correlation_part(
                            s.correlation,
                            p.payment_duration,
                            drivers,
                            pairs,
                            seeds,
                            relative,
                            discounted,
                        ),
                    ),
                },
            }
        },
    }
}

/// What one set of shocks contributes.
pub open spec fn rate_terms<
    R: Scalar,
    Y: DividendDynamics<R>,
    C: RateMarket<R>,
    W: SpotPayoff<R>,
>(m: Model<R>, y: Y, c: C, w: W, p: RatePlanView<R>, s: ScopeContextView<R>) -> spec_fn(
    Seq<R>,
) -> Result<Seq<R>, MonteCarloError> {
    |z: Seq<R>|
        match rate_path_states(m, y, p.path, z) {
            Err(e) => Err(e),
            Ok(states) => match rate_moves(m, s.rate, p.path, z, states) {
                Err(e) => Err(e),
                Ok(moves) => match driver_moves(m, y, s.correlation, p.path, z, states) {
                    Err(e) => Err(e),
                    Ok(drivers) => match rate_path_spots(m, p.path, states) {
                        Err(e) => Err(e),
                        Ok(spots) => match spot_moves(m, s.rate, p.path, states, moves) {
                            Err(e) => Err(e),
                            Ok(slopes) => match w.payoff_adjoints_of(p.path.times, spots) {
                                Err(e) => Err(e),
                                Ok((payoff, seeds)) => rate_row(
                                    m,
                                    y,
                                    c,
                                    p,
                                    s,
                                    z,
                                    states,
                                    moves,
                                    drivers,
                                    slopes,
                                    payoff,
                                    seeds,
                                ),
                            },
                        },
                    },
                },
            },
        }
}

/// The rows all have a length.
pub open spec fn rows_of<T>(v: Seq<Vec<T>>, n: nat) -> bool {
    forall|i: int| 0 <= i < v.len() ==> (#[trigger] v[i])@.len() == n
}

fn take_rate_moves<R: Scalar, M: Math<R>>(
    m: &M,
    k: &Option<HullWhiteRateSensitivityContext<R>>,
    path: &StochasticDividendHullWhitePathPlan<R>,
    z: &Vec<R>,
    states: &Vec<StochasticDividendHullWhiteState<R>>,
    Ghost(view): Ghost<Option<RateSensitivityView<R>>>,
) -> (r: Result<Vec<Vec<HullWhiteRateStateTangent<R>>>, MonteCarloError>)
    requires
        path@.valid(),
        k matches Some(q) ==> q@.of(path@),
        view == (match *k {
            Some(q) => Some(q@),
            None => None,
        }),
    ensures
        (match r {
            Ok(v) => Ok(rows_seen(v@)),
            Err(e) => Err(e),
        }) == rate_moves(m.model(), view, path@, z@, states@),
        r matches Ok(v) ==> (k matches Some(q) ==> v@.len() == path@.times.len() && rows_of(
            v@,
            q@.labels.len(),
        )),
{
    match k {
        None => {
            let v: Vec<Vec<HullWhiteRateStateTangent<R>>> = Vec::new();
            assert(rows_seen(v@) =~= Seq::empty());
            Ok(v)
        },
        Some(q) => q.evolve_rate_tangents(m, path, z, states),
    }
}

fn take_driver_moves<R: Scalar, M: Math<R>, Y: DividendDynamics<R>>(
    m: &M,
    y: &Y,
    k: &Option<HullWhiteCorrelationSensitivityContext<R>>,
    path: &StochasticDividendHullWhitePathPlan<R>,
    z: &Vec<R>,
    states: &Vec<StochasticDividendHullWhiteState<R>>,
    Ghost(view): Ghost<Option<CorrelationSensitivityView<R>>>,
) -> (r: Result<Vec<Vec<HullWhiteCorrelationStateTangent<R>>>, MonteCarloError>)
    requires
        path@.valid(),
        k matches Some(q) ==> q@.of(path@),
        view == (match *k {
            Some(q) => Some(q@),
            None => None,
        }),
    ensures
        (match r {
            Ok(v) => Ok(rows_seen(v@)),
            Err(e) => Err(e),
        }) == driver_moves(m.model(), *y, view, path@, z@, states@),
        r matches Ok(v) ==> (k is Some ==> v@.len() == path@.times.len() && rows_of(v@, 3)),
{
    match k {
        None => {
            let v: Vec<Vec<HullWhiteCorrelationStateTangent<R>>> = Vec::new();
            assert(rows_seen(v@) =~= Seq::empty());
            Ok(v)
        },
        Some(q) => q.evolve_tangents(m, y, path, z, states),
    }
}

fn take_spot_moves<R: Scalar, M: Math<R>>(
    m: &M,
    k: &Option<HullWhiteRateSensitivityContext<R>>,
    path: &StochasticDividendHullWhitePathPlan<R>,
    states: &Vec<StochasticDividendHullWhiteState<R>>,
    moves: &Vec<Vec<HullWhiteRateStateTangent<R>>>,
    Ghost(view): Ghost<Option<RateSensitivityView<R>>>,
) -> (r: Result<Vec<Vec<R>>, MonteCarloError>)
    requires
        path@.valid(),
        k matches Some(q) ==> q@.of(path@) && moves@.len() == states@.len(),
        view == (match *k {
            Some(q) => Some(q@),
            None => None,
        }),
    ensures
        (match r {
            Ok(v) => Ok(rows_seen(v@)),
            Err(e) => Err(e),
        }) == spot_moves(m.model(), view, path@, states@, rows_seen(moves@)),
        r matches Ok(v) ==> (k matches Some(q) ==> v@.len() == states@.len() && rows_of(
            v@,
            q@.labels.len(),
        )),
{
    match k {
        None => {
            let v: Vec<Vec<R>> = Vec::new();
            assert(rows_seen(v@) =~= Seq::empty());
            Ok(v)
        },
        Some(q) => {
            let n = states.len();
            let ghost slopes = |i: int|
                spot_slopes(m.model(), q@, path@, i, states@[i], rows_seen(moves@)[i]);
            let f_at = |i: usize| -> (x: Result<Vec<R>, MonteCarloError>)
                requires
                    i < n,
                ensures
                    seen(x) == slopes(i as int),
                    x matches Ok(v) ==> v@.len() == q@.labels.len(),
                { q.spot_derivatives(m, path, i, states[i], &moves[i]) };
            collect_rows(
                n,
                f_at,
                Ghost(slopes),
                Ghost(q@.labels.len()),
            )
        },
    }
}

fn take_pair_moves<R: Scalar, M: Math<R>>(
    m: &M,
    k: &Option<HullWhiteCorrelationSensitivityContext<R>>,
    path: &StochasticDividendHullWhitePathPlan<R>,
    states: &Vec<StochasticDividendHullWhiteState<R>>,
    moves: &Vec<Vec<HullWhiteCorrelationStateTangent<R>>>,
    Ghost(view): Ghost<Option<CorrelationSensitivityView<R>>>,
) -> (r: Result<Vec<Vec<SpotSeed<R>>>, MonteCarloError>)
    requires
        path@.valid(),
        k matches Some(q) ==> q@.of(path@) && moves@.len() == states@.len() && rows_of(moves@, 3),
        view == (match *k {
            Some(q) => Some(q@),
            None => None,
        }),
    ensures
        (match r {
            Ok(v) => Ok(rows_seen(v@)),
            Err(e) => Err(e),
        }) == pair_moves(m.model(), view, path@, states@, rows_seen(moves@)),
        r matches Ok(v) ==> (k is Some ==> v@.len() == states@.len() && rows_of(v@, 3)),
{
    match k {
        None => {
            let v: Vec<Vec<SpotSeed<R>>> = Vec::new();
            assert(rows_seen(v@) =~= Seq::empty());
            Ok(v)
        },
        Some(q) => {
            let n = states.len();
            let ghost slopes = |i: int|
                correlation_spots(m.model(), q@, path@, i, states@[i], rows_seen(moves@)[i]);
            let f_at = |i: usize| -> (x: Result<Vec<SpotSeed<R>>, MonteCarloError>)
                requires
                    i < n,
                ensures
                    seen(x) == slopes(i as int),
                    x matches Ok(v) ==> v@.len() == 3,
                { q.spot_derivatives(m, path, i, states[i], &moves[i]) };
            collect_rows(
                n,
                f_at,
                Ghost(slopes),
                Ghost(3),
            )
        },
    }
}

fn take_seed_terms<R: Scalar, M: Math<R>>(
    m: &M,
    seeds: &Vec<SpotSeed<R>>,
    slopes: &Vec<Vec<R>>,
    q: usize,
    Ghost(width): Ghost<nat>,
) -> (v: Vec<R>)
    requires
        slopes@.len() == seeds@.len(),
        rows_of(slopes@, width),
        q < width,
    ensures
        v@ == seed_terms(seeds@, rows_seen(slopes@), q as int),
{
    let n = seeds.len();
    let ghost term = |i: int| seed_terms(seeds@, rows_seen(slopes@), q as int)[i];
    let v_at = |i: usize| -> (x: R)
        requires
            i < n,
        ensures
            x == term(i as int),
        {
            m.laws();
            assert(slopes@[i as int]@.len() == width);
            (seeds[i].post + seeds[i].pre) * slopes[i][q]
        };
    let v = build(
        n,
        v_at,
        Ghost(term),
    );
    assert(v@ =~= seed_terms(seeds@, rows_seen(slopes@), q as int));
    v
}

fn take_pair_terms<R: Scalar, M: Math<R>>(
    m: &M,
    seeds: &Vec<SpotSeed<R>>,
    slopes: &Vec<Vec<SpotSeed<R>>>,
    q: usize,
) -> (v: Vec<R>)
    requires
        slopes@.len() == seeds@.len(),
        rows_of(slopes@, 3),
        q < 3,
    ensures
        v@ == pair_terms(seeds@, rows_seen(slopes@), q as int),
{
    let n = seeds.len();
    let ghost term = |i: int| pair_terms(seeds@, rows_seen(slopes@), q as int)[i];
    let v_at = |i: usize| -> (x: R)
        requires
            i < n,
        ensures
            x == term(i as int),
        {
            m.laws();
            assert(slopes@[i as int]@.len() == 3);
            seeds[i].post * slopes[i][q].post + seeds[i].pre * slopes[i][q].pre
        };
    let v = build(
        n,
        v_at,
        Ghost(term),
    );
    assert(v@ =~= pair_terms(seeds@, rows_seen(slopes@), q as int));
    v
}

fn take_rate_part<R: Scalar, M: Math<R>>(
    m: &M,
    k: &Option<HullWhiteRateSensitivityContext<R>>,
    duration: R,
    last: StochasticDividendHullWhiteState<R>,
    moves: &Vec<Vec<HullWhiteRateStateTangent<R>>>,
    slopes: &Vec<Vec<R>>,
    seeds: &Vec<SpotSeed<R>>,
    relative: R,
    discounted: R,
    Ghost(view): Ghost<Option<RateSensitivityView<R>>>,
) -> (v: Vec<R>)
    requires
        k matches Some(q) ==> {
            let n = q@.labels.len();
            &&& q@.payment_log_constant.len() == n
            &&& q@.payment_duration.len() == n
            &&& moves@.len() > 0
            &&& rows_of(moves@, n)
            &&& slopes@.len() == seeds@.len()
            &&& rows_of(slopes@, n)
        },
        view == (match *k {
            Some(q) => Some(q@),
            None => None,
        }),
    ensures
        v@ == rate_part(
            view,
            duration,
            last,
            rows_seen(moves@),
            rows_seen(slopes@),
            seeds@,
            relative,
            discounted,
        ),
{
    match k {
        None => {
            let v: Vec<R> = Vec::new();
            assert(v@ =~= Seq::empty());
            v
        },
        Some(context) => {
            let n = context.labels.len();
            let end = moves.len() - 1;
            let ghost want = rate_part(
                view,
                duration,
                last,
                rows_seen(moves@),
                rows_seen(slopes@),
                seeds@,
                relative,
                discounted,
            );
            let ghost entry = |q: int| want[q];
            let part_at = |q: usize| -> (x: R)
                requires
                    q < n,
                ensures
                    x == entry(q as int),
                {
                    m.laws();
                    let terms = take_seed_terms(m, seeds, slopes, q, Ghost(n as nat));
                    let payoff = take_total(m, &terms);
                    assert(moves@[end as int]@.len() == n);
                    assert(rows_seen(moves@).last() == moves@[end as int]@);
                    let t = moves[end][q];
                    let log_constant = context.payment_log_constant[q];
                    let duration_slope = context.payment_duration[q];
                    let log_discount = log_constant - t.integrated_rate_factor
                        - duration_slope * last.rate_factor - duration * t.rate_factor;
                    relative * payoff + discounted * log_discount
                };
            let part = build(
                n,
                part_at,
                Ghost(entry),
            );
            assert(part@ =~= want);
            part
        },
    }
}

fn take_correlation_part<R: Scalar, M: Math<R>>(
    m: &M,
    k: &Option<HullWhiteCorrelationSensitivityContext<R>>,
    duration: R,
    moves: &Vec<Vec<HullWhiteCorrelationStateTangent<R>>>,
    slopes: &Vec<Vec<SpotSeed<R>>>,
    seeds: &Vec<SpotSeed<R>>,
    relative: R,
    discounted: R,
    Ghost(view): Ghost<Option<CorrelationSensitivityView<R>>>,
) -> (v: Vec<R>)
    requires
        k is Some ==> moves@.len() > 0 && rows_of(moves@, 3) && slopes@.len() == seeds@.len()
            && rows_of(slopes@, 3),
        view == (match *k {
            Some(q) => Some(q@),
            None => None,
        }),
    ensures
        v@ == correlation_part(
            view,
            duration,
            rows_seen(moves@),
            rows_seen(slopes@),
            seeds@,
            relative,
            discounted,
        ),
{
    match k {
        None => {
            let v: Vec<R> = Vec::new();
            assert(v@ =~= Seq::empty());
            v
        },
        Some(_) => {
            let end = moves.len() - 1;
            let ghost want = correlation_part(
                view,
                duration,
                rows_seen(moves@),
                rows_seen(slopes@),
                seeds@,
                relative,
                discounted,
            );
            let ghost entry = |q: int| want[q];
            let part_at = |q: usize| -> (x: R)
                requires
                    q < 3,
                ensures
                    x == entry(q as int),
                {
                    m.laws();
                    let terms = take_pair_terms(m, seeds, slopes, q);
                    let payoff = take_total(m, &terms);
                    assert(moves@[end as int]@.len() == 3);
                    assert(rows_seen(moves@).last() == moves@[end as int]@);
                    let t = moves[end][q];
                    let log_discount = t.integrated_rate_factor.neg() - duration * t.rate_factor;
                    relative * payoff + discounted * log_discount
                };
            let part = build(
                3,
                part_at,
                Ghost(entry),
            );
            assert(part@ =~= want);
            part
        },
    }
}

fn discount_seeds<R: Scalar, M: Math<R>>(m: &M, seeds: &Vec<SpotSeed<R>>, relative: R) -> (v: Vec<
    SpotSeed<R>,
>)
    ensures
        v@ == discounted_seeds(seeds@, relative),
{
    let n = seeds.len();
    let ghost entry = |i: int| discounted_seeds(seeds@, relative)[i];
    let v_at = |i: usize| -> (x: SpotSeed<R>)
        requires
            i < n,
        ensures
            x == entry(i as int),
        {
            m.laws();
            SpotSeed { post: relative * seeds[i].post, pre: relative * seeds[i].pre }
        };
    let v = build(
        n,
        v_at,
        Ghost(entry),
    );
    assert(v@ =~= discounted_seeds(seeds@, relative));
    v
}

struct RateContribution<
    'a,
    R: Scalar,
    M: Math<R>,
    Y: DividendDynamics<R>,
    C: RateMarket<R>,
    W: SpotPayoff<R>,
> {
    m: &'a M,
    y: &'a Y,
    c: &'a C,
    w: &'a W,
    plan: &'a StochasticDividendHullWhitePricingPlan<R>,
    scope: &'a ScopeContext<R>,
}

impl<
    'a,
    R: Scalar,
    M: Math<R>,
    Y: DividendDynamics<R>,
    C: RateMarket<R>,
    W: SpotPayoff<R>,
> RateContribution<'a, R, M, Y, C, W> {
    #[verifier::type_invariant]
    spec fn inv(self) -> bool {
        &&& self.plan@.valid()
        &&& self.scope@.of(self.plan@.path)
    }

    /// Does what follows the payoff of a path.
    fn take_row(
        &self,
        z: &Vec<R>,
        states: &Vec<StochasticDividendHullWhiteState<R>>,
        moves: &Vec<Vec<HullWhiteRateStateTangent<R>>>,
        drivers: &Vec<Vec<HullWhiteCorrelationStateTangent<R>>>,
        slopes: &Vec<Vec<R>>,
        payoff: R,
        seeds: &Vec<SpotSeed<R>>,
    ) -> (r: Result<Vec<R>, MonteCarloError>)
        requires
            states@.len() == self.plan@.path.times.len(),
            states@.len() > 0,
            self.scope@.rate matches Some(k) ==> {
                &&& moves@.len() == states@.len()
                &&& rows_of(moves@, k.labels.len())
                &&& slopes@.len() == states@.len()
                &&& rows_of(slopes@, k.labels.len())
            },
            self.scope@.correlation is Some ==> drivers@.len() == states@.len() && rows_of(
                drivers@,
                3,
            ),
        ensures
            seen(r) == rate_row(
                self.m.model(),
                *self.y,
                *self.c,
                self.plan@,
                self.scope@,
                z@,
                states@,
                rows_seen(moves@),
                rows_seen(drivers@),
                rows_seen(slopes@),
                payoff,
                seeds@,
            ),
            r matches Ok(v) ==> v@.len() == 1 + self.scope@.labels().len(),
    {
        proof {
            use_type_invariant(self);
        }
        let m = self.m;
        m.laws();
        let duration = self.plan.payment_duration;
        let last = states[states.len() - 1];
        let relative = match take_payment_factor(m, self.plan.payment_constant, duration, last) {
            Err(e) => return Err(e),
            Ok(v) => v,
        };
        let discounted = relative * payoff;
        let weighted = discount_seeds(m, seeds, relative);
        let reverse = match self.scope.context.pullback(
            m,
            self.y,
            self.c,
            &self.plan.path,
            z,
            states,
            &weighted,
            discounted,
        ) {
            Err(e) => return Err(e),
            Ok(v) => v,
        };
        assert(seeds@.len() == states@.len());
        let ghost pairs_view = self.scope@.correlation;
        let pairs = match take_pair_moves(
            m,
            &self.scope.correlation,
            &self.plan.path,
            states,
            drivers,
            Ghost(pairs_view),
        ) {
            Err(e) => return Err(e),
            Ok(v) => v,
        };
        let rate = take_rate_part(
            m,
            &self.scope.rate,
            duration,
            last,
            moves,
            slopes,
            seeds,
            relative,
            discounted,
            Ghost(self.scope@.rate),
        );
        let correlation = take_correlation_part(
            m,
            &self.scope.correlation,
            duration,
            drivers,
            &pairs,
            seeds,
            relative,
            discounted,
            Ghost(pairs_view),
        );
        let mut row: Vec<R> = vec![discounted];
        append(&mut row, &reverse);
        append(&mut row, &rate);
        append(&mut row, &correlation);
        assert(row@ =~= seq![discounted] + reverse@ + rate@ + correlation@);
        Ok(row)
    }
}

impl<
    'a,
    R: Scalar,
    M: Math<R>,
    Y: DividendDynamics<R>,
    C: RateMarket<R>,
    W: SpotPayoff<R>,
> Contribution<R> for RateContribution<'a, R, M, Y, C, W> {
    closed spec fn term_count(&self) -> nat {
        1 + self.scope@.labels().len()
    }

    closed spec fn quantities(&self) -> Quantities<R> {
        Quantities {
            width: 1 + self.scope@.labels().len(),
            terms: rate_terms(
                self.m.model(),
                *self.y,
                *self.c,
                *self.w,
                self.plan@,
                self.scope@,
            ),
            finish: as_they_are(),
        }
    }

    fn contribute(&self, shocks: &Vec<R>) -> (r: Result<Vec<R>, MonteCarloError>) {
        proof {
            use_type_invariant(self);
        }
        let m = self.m;
        let path = &self.plan.path;
        let states = match path.evolve_path(m, self.y, shocks) {
            Err(e) => return Err(e),
            Ok(v) => v,
        };
        let moves = match take_rate_moves(
            m,
            &self.scope.rate,
            path,
            shocks,
            &states,
            Ghost(self.scope@.rate),
        ) {
            Err(e) => return Err(e),
            Ok(v) => v,
        };
        let drivers = match take_driver_moves(
            m,
            self.y,
            &self.scope.correlation,
            path,
            shocks,
            &states,
            Ghost(self.scope@.correlation),
        ) {
            Err(e) => return Err(e),
            Ok(v) => v,
        };
        let spots = match take_path_spots(m, path, &states) {
            Err(e) => return Err(e),
            Ok(v) => v,
        };
        let slopes = match take_spot_moves(
            m,
            &self.scope.rate,
            path,
            &states,
            &moves,
            Ghost(self.scope@.rate),
        ) {
            Err(e) => return Err(e),
            Ok(v) => v,
        };
        let (payoff, seeds) = match self.w.payoff_adjoints(&path.times, &spots) {
            Err(e) => return Err(e),
            Ok(v) => v,
        };
        self.take_row(shocks, &states, &moves, &drivers, &slopes, payoff, &seeds)
    }

    fn finish(&self, row: Vec<R>) -> (r: Result<Vec<R>, MonteCarloError>) {
        Ok(row)
    }
}

/// The name of the method of a scope.
pub open spec fn rate_aad_method(scope: RateAadScope) -> &'static str {
    match scope {
        RateAadScope::Basic => "buehler-bs-hw-cash-payoff-reverse-fixed-rates-correlation-v1",
        RateAadScope::RateParameters => "buehler-bs-hw-cash-payoff-forward-rate-parameter-adjoint-v1",
        RateAadScope::Correlations => "buehler-bs-hw-cash-payoff-forward-correlation-adjoint-v1",
    }
}

/// First-order risk of a plan in a scope: a payoff with derivatives, then what the
/// derivatives need, then the simulation and its estimates.
pub open spec fn rate_aad<
    R: Scalar,
    B: Backend<R>,
    Y: DividendDynamics<R>,
    N: KernelNumerics<R>,
    C: RateMarket<R>,
    W: SpotPayoff<R>,
>(
    m: Model<R>,
    b: B,
    y: Y,
    o: N,
    c: C,
    w: W,
    plan: StochasticDividendHullWhitePricingPlan<R>,
    scope: RateAadScope,
) -> Result<AadRiskView<R>, MonteCarloError> {
    if !plan.risk_supported {
        Err(
            unsupported_risk(
                "HW stochastic-dividend discontinuous payoff requires explicit smoothing",
            ),
        )
    } else {
        match rate_scope(m, y, o, c, plan@, scope) {
            Err(e) => Err(e),
            Ok(s) => match plan.job.executor_failure {
                Some(e) => Err(e),
                None => match simulated(
                    m,
                    b,
                    Quantities {
                        width: 1 + s.labels().len(),
                        terms: rate_terms(m, y, c, w, plan@, s),
                        finish: as_they_are(),
                    },
                    plan.job,
                ) {
                    Err(e) => Err(e),
                    Ok(statistics) => match estimated_together(
                        m,
                        statistics,
                        plan.job.engine.units(),
                        "risk_estimator",
                    ) {
                        Err(e) => Err(e),
                        Ok((values, errors)) => Ok(
                            AadRiskView {
                                price: rate_price(plan, values[0], errors[0]),
                                parameter_labels: s.labels(),
                                derivatives: values.skip(1),
                                standard_errors: errors.skip(1),
                                cash_times: s.context.cash_times,
                                discount_times: s.context.discount_times,
                                repo_spread_times: s.context.repo_spread_times,
                                method: rate_aad_method(scope),
                            },
                        ),
                    },
                },
            },
        }
    }
}

fn append_labels(v: &mut Vec<Label>, more: &Vec<Label>)
    ensures
        final(v)@ == old(v)@ + more@,
{
    let ghost start = v@;
    let mut i: usize = 0;
    while i < more.len()
        invariant
            i <= more@.len(),
            v@ == start + more@.take(i as int),
        decreases more@.len() - i,
    {
        v.push(more[i]);
        assert(v@ =~= start + more@.take(i + 1));
        i = i + 1;
    }
    assert(more@.take(i as int) =~= more@);
}

impl<R: Scalar> StochasticDividendHullWhitePricingPlan<R> {
    /// The plan can be run and differentiated in a market.
    pub open spec fn differentiable<C: RateMarket<R>>(self, c: C) -> bool {
        &&& self@.valid()
        &&& self@.path.cash_times.len() == c.events_of().len()
        &&& rate_market_sized::<R, C>(c)
        &&& rates_sized(self@.rates)
        &&& 16 + c.events_of().len() + c.discount_times_of().len() + c.repo_spread_times_of().len()
            + self@.rates.volatilities.len() <= usize::MAX
    }

    #[verifier::rlimit(60)]
    fn prepare_scope<
        M: Math<R>,
        Y: DividendDynamics<R>,
        N: KernelNumerics<R>,
        C: RateMarket<R>,
    >(&self, m: &M, y: &Y, o: &N, c: &C, scope: RateAadScope) -> (r: Result<
        ScopeContext<R>,
        MonteCarloError,
    >)
        requires
            self.differentiable(*c),
        ensures
            viewed(r) == rate_scope(m.model(), *y, *o, *c, self@, scope),
            r matches Ok(s) ==> s@.of(self@.path) && 1 + s@.labels().len() <= usize::MAX,
    {
        let context = match HullWhiteReverseContext::new(
            m,
            y,
            c,
            &self.rates,
            self.inputs,
            &self.path,
            self.payment_time,
        ) {
            Err(e) => return Err(e),
            Ok(k) => k,
        };
        let correlation = match scope {
            RateAadScope::Correlations => match HullWhiteCorrelationSensitivityContext::new(
                m,
                o,
                &self.rates,
                self.inputs,
                &self.path,
            ) {
                Err(e) => return Err(e),
                Ok(k) => Some(k),
            },
            _ => None,
        };
        let rate = match scope {
            RateAadScope::Basic => None,
            _ => match HullWhiteRateSensitivityContext::new(
                m,
                &self.rates,
                self.inputs,
                &self.path,
                self.payment_time,
            ) {
                Err(e) => return Err(e),
                Ok(k) => {
                    assert(k@.labels == rate_parameter_labels(self@.rates.volatilities.len()));
                    Some(k)
                },
            },
        };
        Ok(ScopeContext { context, rate, correlation })
    }

    fn evaluate_aad_scope<
        M: Math<R>,
        B: Backend<R>,
        Y: DividendDynamics<R>,
        N: KernelNumerics<R>,
        C: RateMarket<R>,
        W: SpotPayoff<R>,
    >(&self, m: &M, b: &B, y: &Y, o: &N, c: &C, w: &W, scope: RateAadScope) -> (r: Result<
        StochasticDividendAadRisk<R>,
        MonteCarloError,
    >)
        requires
            self.differentiable(*c),
        ensures
            viewed(r) == rate_aad(m.model(), *b, *y, *o, *c, *w, *self, scope),
            r matches Ok(risk) ==> risk@.valid() && risk@.derivatives.len()
                == risk@.parameter_labels.len() && risk@.standard_errors.len()
                == risk@.parameter_labels.len(),
    {
        if !self.risk_supported {
            return Err(
                MonteCarloError::UnsupportedRiskForModel {
                    model: "HW stochastic-dividend discontinuous payoff requires explicit smoothing",
                },
            );
        }
        let s = match self.prepare_scope(m, y, o, c, scope) {
            Err(e) => return Err(e),
            Ok(s) => s,
        };
        if let Some(e) = self.job.executor_failure {
            return Err(e);
        }
        let mut labels: Vec<Label> = Vec::new();
        append_labels(&mut labels, &s.context.labels);
        if let Some(k) = &s.rate {
            append_labels(&mut labels, k.labels());
        }
        if let Some(k) = &s.correlation {
            append_labels(&mut labels, &k.labels());
        }
        assert(labels@ =~= s@.labels());
        let width: usize = 1 + labels.len();
        let contribution = RateContribution { m, y, c, w, plan: self, scope: &s };
        let statistics = match simulate(m, b, &contribution, &self.job, width) {
            Err(e) => return Err(e),
            Ok(v) => v,
        };
        let estimates = match estimate_together(
            m,
            &statistics,
            engine_units(&self.job.engine),
            "risk_estimator",
        ) {
            Err(e) => return Err(e),
            Ok(e) => e,
        };
        let price = self.price(estimates.values[0], estimates.errors[0]);
        Ok(
            StochasticDividendAadRisk {
                price,
                parameter_labels: labels,
                derivatives: all_but_first(&estimates.values),
                standard_errors: all_but_first(&estimates.errors),
                cash_times: s.context.cash_times,
                discount_times: s.context.discount_times,
                repo_spread_times: s.context.repo_spread_times,
                method: match scope {
                    RateAadScope::Basic => "buehler-bs-hw-cash-payoff-reverse-fixed-rates-correlation-v1",
                    RateAadScope::RateParameters => "buehler-bs-hw-cash-payoff-forward-rate-parameter-adjoint-v1",
                    RateAadScope::Correlations => "buehler-bs-hw-cash-payoff-forward-correlation-adjoint-v1",
                },
            },
        )
    }

    /// First-order risk with respect to the spot, the volatility, the parameters and the
    /// means of the dividends, and the curves. The rate, the correlations and the grid
    /// stay as they are.
    pub fn evaluate_aad<
        M: Math<R>,
        B: Backend<R>,
        Y: DividendDynamics<R>,
        N: KernelNumerics<R>,
        C: RateMarket<R>,
        W: SpotPayoff<R>,
    >(&self, m: &M, b: &B, y: &Y, o: &N, c: &C, w: &W) -> (r: Result<
        StochasticDividendAadRisk<R>,
        MonteCarloError,
    >)
        requires
            self.differentiable(*c),
        ensures
            viewed(r) == rate_aad(
                m.model(),
                *b,
                *y,
                *o,
                *c,
                *w,
                *self,
                RateAadScope::Basic,
            ),
            r matches Ok(risk) ==> risk@.valid() && risk@.derivatives.len()
                == risk@.parameter_labels.len() && risk@.standard_errors.len()
                == risk@.parameter_labels.len(),
    {
        self.evaluate_aad_scope(m, b, y, o, c, w, RateAadScope::Basic)
    }

    /// First-order risk that also covers the reversion and each volatility of the rate.
    pub fn evaluate_hull_white_aad<
        M: Math<R>,
        B: Backend<R>,
        Y: DividendDynamics<R>,
        N: KernelNumerics<R>,
        C: RateMarket<R>,
        W: SpotPayoff<R>,
    >(&self, m: &M, b: &B, y: &Y, o: &N, c: &C, w: &W) -> (r: Result<
        StochasticDividendAadRisk<R>,
        MonteCarloError,
    >)
        requires
            self.differentiable(*c),
        ensures
            viewed(r) == rate_aad(
                m.model(),
                *b,
                *y,
                *o,
                *c,
                *w,
                *self,
                RateAadScope::RateParameters,
            ),
            r matches Ok(risk) ==> risk@.valid() && risk@.derivatives.len()
                == risk@.parameter_labels.len() && risk@.standard_errors.len()
                == risk@.parameter_labels.len(),
    {
        self.evaluate_aad_scope(m, b, y, o, c, w, RateAadScope::RateParameters)
    }

    /// First-order risk that also covers each correlation of the drivers, one at a time.
    pub fn evaluate_correlation_aad<
        M: Math<R>,
        B: Backend<R>,
        Y: DividendDynamics<R>,
        N: KernelNumerics<R>,
        C: RateMarket<R>,
        W: SpotPayoff<R>,
    >(&self, m: &M, b: &B, y: &Y, o: &N, c: &C, w: &W) -> (r: Result<
        StochasticDividendAadRisk<R>,
        MonteCarloError,
    >)
        requires
            self.differentiable(*c),
        ensures
            viewed(r) == rate_aad(
                m.model(),
                *b,
                *y,
                *o,
                *c,
                *w,
                *self,
                RateAadScope::Correlations,
            ),
            r matches Ok(risk) ==> risk@.valid() && risk@.derivatives.len()
                == risk@.parameter_labels.len() && risk@.standard_errors.len()
                == risk@.parameter_labels.len(),
    {
        self.evaluate_aad_scope(m, b, y, o, c, w, RateAadScope::Correlations)
    }
}

/// The context of the narrowest scope.
pub open spec fn basic_scope<R>(s: ScopeContextView<R>) -> ScopeContextView<R> {
    ScopeContextView { context: s.context, rate: None, correlation: None }
}

/// The quantities of a scope.
pub open spec fn rate_quantities<
    R: Scalar,
    Y: DividendDynamics<R>,
    C: RateMarket<R>,
    W: SpotPayoff<R>,
>(m: Model<R>, y: Y, c: C, w: W, p: RatePlanView<R>, s: ScopeContextView<R>) -> Quantities<R> {
    Quantities {
        width: 1 + s.labels().len(),
        terms: rate_terms(m, y, c, w, p, s),
        finish: as_they_are(),
    }
}

/// The rows of the narrowest scope hold a number for each parameter.
spec fn basic_rows_sized<
    R: Scalar,
    Y: DividendDynamics<R>,
    C: RateMarket<R>,
    W: SpotPayoff<R>,
>(m: Model<R>, y: Y, c: C, w: W, p: RatePlanView<R>, s: ScopeContextView<R>) -> bool {
    forall|z: Seq<R>|
        #[trigger] rate_terms(m, y, c, w, p, basic_scope(s))(z) matches Ok(row) ==> row.len() == 1
            + s.context.labels.len()
}

proof fn basic_rows_are_sized<
    R: Scalar,
    Y: DividendDynamics<R>,
    C: RateMarket<R>,
    W: SpotPayoff<R>,
>(m: Model<R>, y: Y, c: C, w: W, p: RatePlanView<R>, s: ScopeContextView<R>)
    requires
        p.path.valid(),
        s.context.cash_times == p.path.cash_times,
        s.context.labels.len() == s.context.count(),
    ensures
        basic_rows_sized(m, y, c, w, p, s),
{
    let t = basic_scope(s);
    assert forall|z: Seq<R>|
        #[trigger] rate_terms(m, y, c, w, p, t)(z) matches Ok(row) ==> row.len() == 1
            + s.context.labels.len() by {
        if let Ok(row) = rate_terms(m, y, c, w, p, t)(z) {
            let states = rate_path_states(m, y, p.path, z)->Ok_0;
            let (payoff, seeds) = w.payoff_adjoints_of(
                p.path.times,
                rate_path_spots(m, p.path, states)->Ok_0,
            )->Ok_0;
            let relative = payment_factor(
                m,
                p.payment_constant,
                p.payment_duration,
                states.last(),
            )->Ok_0;
            pullback_is_sized(
                m,
                y,
                c,
                s.context,
                p.path,
                z,
                states,
                discounted_seeds(seeds, relative),
                times(relative, payoff),
            );
        }
    }
}

proof fn scope_is_sized<
    R: Scalar,
    Y: DividendDynamics<R>,
    N: KernelNumerics<R>,
    C: RateMarket<R>,
>(m: Model<R>, y: Y, o: N, c: C, p: RatePlanView<R>, scope: RateAadScope)
    requires
        p.path.cash_times.len() == c.events_of().len(),
    ensures
        rate_scope(m, y, o, c, p, scope) matches Ok(s) ==> s.context.cash_times
            == p.path.cash_times && s.context.labels.len() == s.context.count(),
{
}

/// The terms of a scope are those of the narrowest one, with more behind them.
pub proof fn wider_scopes_append_terms<
    R: Scalar,
    Y: DividendDynamics<R>,
    C: RateMarket<R>,
    W: SpotPayoff<R>,
>(m: Model<R>, y: Y, c: C, w: W, p: RatePlanView<R>, s: ScopeContextView<R>, z: Seq<R>)
    ensures
        rate_terms(m, y, c, w, p, s)(z) matches Ok(row) ==> {
            let basic = rate_terms(m, y, c, w, p, basic_scope(s))(z);
            &&& basic is Ok
            &&& basic->Ok_0.len() + (s.labels().len() - s.context.labels.len()) == row.len()
            &&& basic->Ok_0 == row.take(basic->Ok_0.len() as int)
        },
{
    if let Ok(row) = rate_terms(m, y, c, w, p, s)(z) {
        let basic = rate_terms(m, y, c, w, p, basic_scope(s))(z)->Ok_0;
        let states = rate_path_states(m, y, p.path, z)->Ok_0;
        let (payoff, seeds) = w.payoff_adjoints_of(
            p.path.times,
            rate_path_spots(m, p.path, states)->Ok_0,
        )->Ok_0;
        let relative = payment_factor(
            m,
            p.payment_constant,
            p.payment_duration,
            states.last(),
        )->Ok_0;
        let discounted = times(relative, payoff);
        let reverse = rate_pullback(
            m,
            y,
            c,
            s.context,
            p.path,
            z,
            states,
            discounted_seeds(seeds, relative),
            discounted,
        )->Ok_0;
        assert(basic =~= seq![discounted] + reverse);
        assert(row.take(basic.len() as int) =~= basic);
    }
}

/// A wider risk appends to the narrowest one: the price and the derivatives that both
/// have are the same, with the same standard errors and names.
#[verifier::rlimit(80)]
#[verifier::spinoff_prover]
pub proof fn wider_scopes_append<
    R: Scalar,
    B: Backend<R>,
    Y: DividendDynamics<R>,
    N: KernelNumerics<R>,
    C: RateMarket<R>,
    W: SpotPayoff<R>,
>(
    m: Model<R>,
    b: B,
    y: Y,
    o: N,
    c: C,
    w: W,
    plan: StochasticDividendHullWhitePricingPlan<R>,
    scope: RateAadScope,
)
    requires
        plan.differentiable(c),
    ensures
        rate_aad(m, b, y, o, c, w, plan, scope) matches Ok(wide) ==> {
            let basic = rate_aad(m, b, y, o, c, w, plan, RateAadScope::Basic);
            let n = basic->Ok_0.parameter_labels.len() as int;
            &&& basic is Ok
            &&& basic->Ok_0.price == wide.price
            &&& n <= wide.parameter_labels.len()
            &&& basic->Ok_0.parameter_labels == wide.parameter_labels.take(n)
            &&& basic->Ok_0.derivatives == wide.derivatives.take(n)
            &&& basic->Ok_0.standard_errors == wide.standard_errors.take(n)
        },
{
    if let Ok(wide) = rate_aad(m, b, y, o, c, w, plan, scope) {
        let s = rate_scope(m, y, o, c, plan@, scope)->Ok_0;
        let t = basic_scope(s);
        scope_is_sized(m, y, o, c, plan@, scope);
        basic_rows_are_sized(m, y, c, w, plan@, s);
        let long = rate_quantities(m, y, c, w, plan@, s);
        let short = rate_quantities(m, y, c, w, plan@, t);
        assert(t.labels() =~= s.context.labels);
        assert(s.labels().take(s.context.labels.len() as int) =~= s.context.labels);
        assert forall|z: Seq<R>|
            begins((short.terms)(z), #[trigger] (long.terms)(z), short.width, long.width) by {
            wider_scopes_append_terms(m, y, c, w, plan@, s, z);
        }
        wider_simulation_keeps_statistics(m, b, short, long, plan.job);
        let statistics = simulated(m, b, long, plan.job)->Ok_0;
        let units = plan.job.engine.units();
        fewer_estimates_are_a_beginning(m, statistics, units, "risk_estimator", short.width);
        let (values, errors) = estimated_together(m, statistics, units, "risk_estimator")->Ok_0;
        let k = short.width as int;
        assert(values.take(k).skip(1) =~= values.skip(1).take(k - 1));
        assert(errors.take(k).skip(1) =~= errors.skip(1).take(k - 1));
    }
}

/// The context of a scope without its correlations.
pub open spec fn rate_parameter_scope<R>(s: ScopeContextView<R>) -> ScopeContextView<R> {
    ScopeContextView { context: s.context, rate: s.rate, correlation: None }
}

/// The rows of a scope without its correlations hold a number for each parameter.
spec fn rate_rows_sized<
    R: Scalar,
    Y: DividendDynamics<R>,
    C: RateMarket<R>,
    W: SpotPayoff<R>,
>(m: Model<R>, y: Y, c: C, w: W, p: RatePlanView<R>, s: ScopeContextView<R>) -> bool {
    forall|z: Seq<R>|
        #[trigger] rate_terms(m, y, c, w, p, rate_parameter_scope(s))(z) matches Ok(row)
            ==> row.len() == 1 + rate_parameter_scope(s).labels().len()
}

/// The terms of a scope are those without its correlations, with theirs behind them.
pub proof fn correlations_append_terms<
    R: Scalar,
    Y: DividendDynamics<R>,
    C: RateMarket<R>,
    W: SpotPayoff<R>,
>(m: Model<R>, y: Y, c: C, w: W, p: RatePlanView<R>, s: ScopeContextView<R>, z: Seq<R>)
    ensures
        rate_terms(m, y, c, w, p, s)(z) matches Ok(row) ==> {
            let t = rate_parameter_scope(s);
            let short = rate_terms(m, y, c, w, p, t)(z);
            &&& short is Ok
            &&& short->Ok_0.len() + (s.labels().len() - t.labels().len()) == row.len()
            &&& short->Ok_0 == row.take(short->Ok_0.len() as int)
        },
{
    if let Ok(row) = rate_terms(m, y, c, w, p, s)(z) {
        let short = rate_terms(m, y, c, w, p, rate_parameter_scope(s))(z)->Ok_0;
        assert(row.take(short.len() as int) =~= short);
    }
}

proof fn rate_rows_are_sized<
    R: Scalar,
    Y: DividendDynamics<R>,
    C: RateMarket<R>,
    W: SpotPayoff<R>,
>(m: Model<R>, y: Y, c: C, w: W, p: RatePlanView<R>, s: ScopeContextView<R>)
    requires
        p.path.valid(),
        s.context.cash_times == p.path.cash_times,
        s.context.labels.len() == s.context.count(),
    ensures
        rate_rows_sized(m, y, c, w, p, s),
{
    let t = rate_parameter_scope(s);
    basic_rows_are_sized(m, y, c, w, p, t);
    assert forall|z: Seq<R>|
        #[trigger] rate_terms(m, y, c, w, p, t)(z) matches Ok(row) ==> row.len() == 1
            + t.labels().len() by {
        wider_scopes_append_terms(m, y, c, w, p, t, z);
        if rate_terms(m, y, c, w, p, t)(z) is Ok {
            assert(rate_terms(m, y, c, w, p, basic_scope(t))(z) is Ok);
        }
    }
}

/// The risk that covers the correlations appends them to the one that covers the
/// parameters of the rate: its names are those and the three correlations, and the
/// price, the derivatives and the standard errors that both have are the same.
#[verifier::rlimit(80)]
#[verifier::spinoff_prover]
pub proof fn correlations_append<
    R: Scalar,
    B: Backend<R>,
    Y: DividendDynamics<R>,
    N: KernelNumerics<R>,
    C: RateMarket<R>,
    W: SpotPayoff<R>,
>(
    m: Model<R>,
    b: B,
    y: Y,
    o: N,
    c: C,
    w: W,
    plan: StochasticDividendHullWhitePricingPlan<R>,
)
    requires
        plan.differentiable(c),
    ensures
        rate_aad(m, b, y, o, c, w, plan, RateAadScope::Correlations) matches Ok(wide) ==> {
            let rate = rate_aad(m, b, y, o, c, w, plan, RateAadScope::RateParameters);
            let n = rate->Ok_0.parameter_labels.len() as int;
            &&& rate is Ok
            &&& rate->Ok_0.price == wide.price
            &&& wide.parameter_labels == rate->Ok_0.parameter_labels + correlation_labels()
            &&& rate->Ok_0.derivatives == wide.derivatives.take(n)
            &&& rate->Ok_0.standard_errors == wide.standard_errors.take(n)
        },
{
    if let Ok(wide) = rate_aad(m, b, y, o, c, w, plan, RateAadScope::Correlations) {
        let s = rate_scope(m, y, o, c, plan@, RateAadScope::Correlations)->Ok_0;
        let t = rate_parameter_scope(s);
        scope_is_sized(m, y, o, c, plan@, RateAadScope::Correlations);
        rate_rows_are_sized(m, y, c, w, plan@, s);
        assert(rate_scope(m, y, o, c, plan@, RateAadScope::RateParameters) == Ok::<
            ScopeContextView<R>,
            MonteCarloError,
        >(t));
        let long = rate_quantities(m, y, c, w, plan@, s);
        let short = rate_quantities(m, y, c, w, plan@, t);
        assert(s.labels() =~= t.labels() + correlation_labels());
        assert forall|z: Seq<R>|
            begins((short.terms)(z), #[trigger] (long.terms)(z), short.width, long.width) by {
            correlations_append_terms(m, y, c, w, plan@, s, z);
        }
        wider_simulation_keeps_statistics(m, b, short, long, plan.job);
        let statistics = simulated(m, b, long, plan.job)->Ok_0;
        let units = plan.job.engine.units();
        fewer_estimates_are_a_beginning(m, statistics, units, "risk_estimator", short.width);
        let (values, errors) = estimated_together(m, statistics, units, "risk_estimator")->Ok_0;
        let k = short.width as int;
        assert(values.take(k).skip(1) =~= values.skip(1).take(k - 1));
        assert(errors.take(k).skip(1) =~= errors.skip(1).take(k - 1));
    }
}

/// The first term of a path under a risk is its value, where the payoff is the same with
/// its derivatives and without.
pub proof fn risk_keeps_the_value<
    R: Scalar,
    Y: DividendDynamics<R>,
    C: RateMarket<R>,
    W: SpotPayoff<R>,
>(m: Model<R>, y: Y, c: C, w: W, p: RatePlanView<R>, s: ScopeContextView<R>, z: Seq<R>)
    requires
        forall|grid: Seq<R>, spots: Seq<AffineSpot<R>>|
            #[trigger] w.payoff_adjoints_of(grid, spots) matches Ok((payoff, _))
                ==> w.payoff_of(grid, spots) == Ok::<R, MonteCarloError>(payoff),
    ensures
        rate_terms(m, y, c, w, p, s)(z) matches Ok(row) ==> rate_value(m, y, w, p)(z) == Ok::<
            R,
            MonteCarloError,
        >(row[0]),
{
}

} // verus!
