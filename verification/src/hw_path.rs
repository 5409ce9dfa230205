//! Equity and dividends with stochastic rates: the law of a path, the claims on
//! cash at each of its nodes, and its spots. All cash is funded, also what is
//! paid after the last node.

use crate::affine::AffineSpot;
use crate::bergomi::{is_nonnegative, is_positive, nonnegative, positive};
use crate::dynamics::DividendDynamics;
use crate::errors::{
    invalid, invalid_field, unsupported_feature, MonteCarloError, StochasticDividendError,
};
use crate::hw_cash::{cash_coefficients, cash_coefficients_of, CashInputs};
use crate::linear::{build, chunk, collect_views, dot, dot_at, rows_seen, viewed, views};
use crate::models::{BuehlerDividendModel, BuehlerDividendState, Pair};
use crate::pathwise::make_zeros;
use crate::rate_market::{MixedEvent, RateMarket};
use crate::rates::{
    b, correlated, covariance_loading, decayed, loading_of, rate_field, transition_of,
    HullWhite1Factor, HybridCorrelation, RatesView,
};
use crate::results::{gather, gather_stops, gather_values, seen};
use crate::sampling::{half, zeros};
use crate::scalar::{
    all_finite, exact, gt, is_zero, lawful, le, literal, minus, negated, over, plus, same, times,
    Math, Model, Scalar,
};
use core::ops::Neg;
use vstd::prelude::*;

verus! {

/// The name of the scheme.
pub const STOCHASTIC_DIVIDEND_HW_SCHEME: &'static str = "buehler-bs-hw-conditional-cash-v1";

/// The most claims that a path may hold.
pub const MAX_RESERVE_TERMS: usize = 1_000_000;

/// Equity, dividends and the rate at a node.
#[derive(Clone, Copy, Debug, PartialEq)]
pub struct StochasticDividendHullWhiteState<R> {
    pub factors: BuehlerDividendState<R>,
    pub rate_factor: R,
    pub integrated_rate_factor: R,
}

/// The state that every path starts in.
pub open spec fn initial_state<R: Scalar>() -> StochasticDividendHullWhiteState<R> {
    StochasticDividendHullWhiteState {
        factors: BuehlerDividendState { equity: literal(1), dividend: literal(1) },
        rate_factor: literal(0),
        integrated_rate_factor: literal(0),
    }
}

impl<R: Scalar> StochasticDividendHullWhiteState<R> {
    /// Takes equity, dividends and a finite rate.
    pub fn new<M: Math<R>>(
        m: &M,
        factors: BuehlerDividendState<R>,
        rate_factor: R,
        integrated_rate_factor: R,
    ) -> (r: Result<Self, MonteCarloError>)
        ensures
            r == (if m.model().is_finite(rate_factor) && m.model().is_finite(
                integrated_rate_factor,
            ) {
                Ok(
                    (StochasticDividendHullWhiteState {
                        factors,
                        rate_factor,
                        integrated_rate_factor,
                    }),
                )
            } else {
                Err(invalid_field("rate_state"))
            }),
    {
        if !m.is_finite(rate_factor) || !m.is_finite(integrated_rate_factor) {
            return Err(invalid("rate_state"));
        }
        Ok(StochasticDividendHullWhiteState { factors, rate_factor, integrated_rate_factor })
    }

    /// The state that every path starts in.
    pub fn initial<M: Math<R>>(m: &M) -> (s: Self)
        ensures
            s == initial_state::<R>(),
    {
        m.laws();
        StochasticDividendHullWhiteState {
            factors: BuehlerDividendState { equity: R::from(1u32), dividend: R::from(1u32) },
            rate_factor: R::from(0u32),
            integrated_rate_factor: R::from(0u32),
        }
    }

    /// Equity and dividends.
    pub fn factors(self) -> (x: BuehlerDividendState<R>)
        ensures
            x == self.factors,
    {
        self.factors
    }

    /// The rate factor.
    pub fn rate_factor(self) -> (x: R)
        ensures
            x == self.rate_factor,
    {
        self.rate_factor
    }

    /// The integral of the rate factor.
    pub fn integrated_rate_factor(self) -> (x: R)
        ensures
            x == self.integrated_rate_factor,
    {
        self.integrated_rate_factor
    }
}

/// One step of a path.
pub struct RateStep<R> {
    pub dt: R,
    pub decay: R,
    pub integral_loading: R,
    pub noise: Vec<Vec<R>>,
}

/// A [`RateStep`] as a mathematical value.
pub ghost struct RateStepView<R> {
    pub dt: R,
    pub decay: R,
    pub integral_loading: R,
    pub noise: Seq<Seq<R>>,
}

impl<R> View for RateStep<R> {
    type V = RateStepView<R>;

    open spec fn view(&self) -> RateStepView<R> {
        RateStepView {
            dt: self.dt,
            decay: self.decay,
            integral_loading: self.integral_loading,
            noise: rows_seen(self.noise@),
        }
    }
}

/// A matrix of size four.
pub open spec fn square<R>(a: Seq<Seq<R>>) -> bool {
    a.len() == 4 && forall|i: int| 0 <= i < 4 ==> (#[trigger] a[i]).len() == 4
}

/// A claim on one cash payment: the bond at a rate of zero times the mean, its
/// duration, its coefficients, and the carry up to the payment.
#[derive(Clone, Copy, Debug, PartialEq)]
pub struct CashClaim<R> {
    pub index: usize,
    pub amount: R,
    pub duration: R,
    pub equity: R,
    pub dividend: R,
    pub constant: R,
    pub carry_weight: R,
}

/// The affine function of equity and dividends in the value of a claim.
pub open spec fn projection<R: Scalar>(c: CashClaim<R>, s: BuehlerDividendState<R>) -> R {
    plus(plus(times(c.equity, s.equity), times(c.dividend, s.dividend)), c.constant)
}

/// The value of a claim in a state.
pub open spec fn claim_value<R: Scalar>(
    m: Model<R>,
    c: CashClaim<R>,
    s: StochasticDividendHullWhiteState<R>,
) -> Result<R, MonteCarloError> {
    let value = times(
        times(c.amount, m.exp(times(negated(c.duration), s.rate_factor))),
        projection(c, s.factors),
    );
    if nonnegative(m, value) {
        Ok(value)
    } else {
        Err(invalid_field("discounted_dividend_claim"))
    }
}

impl<R: Scalar> CashClaim<R> {
    /// Values the claim.
    pub fn value<M: Math<R>>(&self, m: &M, s: StochasticDividendHullWhiteState<R>) -> (r: Result<
        R,
        MonteCarloError,
    >)
        ensures
            r == claim_value(m.model(), *self, s),
    {
        m.laws();
        let c = *self;
        let value = c.amount * m.exp(c.duration.neg() * s.rate_factor) * (
            c.equity * s.factors.equity + c.dividend * s.factors.dividend + c.constant
        );
        if !is_nonnegative(m, value) {
            return Err(invalid("discounted_dividend_claim"));
        }
        Ok(value)
    }
}

/// A node of a path.
pub struct RateNode<R> {
    pub residual_growth: R,
    pub half_integral_variance: R,
    pub claims: Vec<CashClaim<R>>,
    /// The mean of the cash that is paid here, if any.
    pub event_cash: Option<R>,
}

/// A [`RateNode`] as a mathematical value.
pub ghost struct RateNodeView<R> {
    pub residual_growth: R,
    pub half_integral_variance: R,
    pub claims: Seq<CashClaim<R>>,
    pub event_cash: Option<R>,
}

impl<R> View for RateNode<R> {
    type V = RateNodeView<R>;

    open spec fn view(&self) -> RateNodeView<R> {
        RateNodeView {
            residual_growth: self.residual_growth,
            half_integral_variance: self.half_integral_variance,
            claims: self.claims@,
            event_cash: self.event_cash,
        }
    }
}

/// A compiled path.
pub struct StochasticDividendHullWhitePathPlan<R> {
    pub model: BuehlerDividendModel<R>,
    pub volatility: R,
    pub times: Vec<R>,
    pub steps: Vec<RateStep<R>>,
    pub nodes: Vec<RateNode<R>>,
    pub cash_times: Vec<R>,
    pub cash_means: Vec<R>,
    pub initial_claims: Vec<R>,
    pub initial_forwards: Vec<R>,
    pub risky_spot: R,
    pub dimension: u32,
}

/// A [`StochasticDividendHullWhitePathPlan`] as a mathematical value.
pub ghost struct RatePathView<R> {
    pub model: BuehlerDividendModel<R>,
    pub volatility: R,
    pub times: Seq<R>,
    pub steps: Seq<RateStepView<R>>,
    pub nodes: Seq<RateNodeView<R>>,
    pub cash_times: Seq<R>,
    pub cash_means: Seq<R>,
    pub initial_claims: Seq<R>,
    pub initial_forwards: Seq<R>,
    pub risky_spot: R,
    pub dimension: u32,
}

impl<R> View for StochasticDividendHullWhitePathPlan<R> {
    type V = RatePathView<R>;

    open spec fn view(&self) -> RatePathView<R> {
        RatePathView {
            model: self.model,
            volatility: self.volatility,
            times: self.times@,
            steps: views(self.steps@),
            nodes: views(self.nodes@),
            cash_times: self.cash_times@,
            cash_means: self.cash_means@,
            initial_claims: self.initial_claims@,
            initial_forwards: self.initial_forwards@,
            risky_spot: self.risky_spot,
            dimension: self.dimension,
        }
    }
}

/// The claims of a node are those of the first `n` cash payments.
pub open spec fn claims_within<R>(claims: Seq<CashClaim<R>>, n: nat) -> bool {
    forall|i: int| 0 <= i < claims.len() ==> (#[trigger] claims[i]).index < n
}

impl<R> RatePathView<R> {
    /// The parts of the path belong together.
    pub open spec fn valid(self) -> bool {
        &&& self.times.len() > 0
        &&& self.steps.len() == self.times.len() - 1
        &&& self.nodes.len() == self.times.len()
        &&& self.dimension == 4 * self.steps.len()
        &&& self.cash_means.len() == self.cash_times.len()
        &&& self.initial_claims.len() == self.cash_times.len()
        &&& self.initial_forwards.len() == self.cash_times.len()
        &&& forall|i: int| 0 <= i < self.steps.len() ==> square((#[trigger] self.steps[i]).noise)
        &&& forall|i: int|
            0 <= i < self.nodes.len() ==> claims_within(
                (#[trigger] self.nodes[i]).claims,
                self.cash_times.len(),
            )
    }
}

/// A time is one of the nodes.
pub open spec fn on_nodes<R: Scalar>(m: Model<R>, grid: Seq<R>, t: R) -> bool {
    exists|i: int|
        0 <= i < grid.len() && !m.precedes(#[trigger] grid[i], t) && !m.precedes(t, grid[i])
}

fn is_on_nodes<R: Scalar, M: Math<R>>(m: &M, grid: &Vec<R>, t: R) -> (found: bool)
    ensures
        found == on_nodes(m.model(), grid@, t),
{
    let mut i: usize = 0;
    while i < grid.len()
        invariant
            i <= grid@.len(),
            forall|k: int|
                0 <= k < i ==> m.model().precedes(#[trigger] grid@[k], t) || m.model().precedes(
                    t,
                    grid@[k],
                ),
        decreases grid@.len() - i,
    {
        if !m.precedes(grid[i], t) && !m.precedes(t, grid[i]) {
            assert(on_nodes(m.model(), grid@, t)) by {
                let x = grid@[i as int];
            }
            return true;
        }
        i = i + 1;
    }
    false
}

/// Why a dividend is refused.
pub open spec fn event_error<R: Scalar>(m: Model<R>, e: MixedEvent<R>, grid: Seq<R>) -> Option<
    MonteCarloError,
> {
    if !same(e.beta, literal(0)) {
        Some(unsupported_feature("proportional cash mixtures in stochastic-dividend HW"))
    } else if le(e.ex_time, literal(0)) {
        Some(invalid_field("strictly_future_ex_date"))
    } else if le(e.ex_time, grid.last()) && !on_nodes(m, grid, e.ex_time) {
        Some(invalid_field("missing_dividend_time"))
    } else {
        None
    }
}

/// Why the first dividend from `i` on that is refused is so.
pub open spec fn schedule_error<R: Scalar>(
    m: Model<R>,
    schedule: Seq<MixedEvent<R>>,
    grid: Seq<R>,
    i: int,
) -> Option<MonteCarloError>
    decreases schedule.len() - i,
{
    if i >= schedule.len() {
        None
    } else {
        match event_error(m, schedule[i], grid) {
            Some(e) => Some(e),
            None => schedule_error(m, schedule, grid, i + 1),
        }
    }
}

fn check_schedule<R: Scalar, M: Math<R>>(
    m: &M,
    schedule: &Vec<MixedEvent<R>>,
    grid: &Vec<R>,
) -> (r: Option<MonteCarloError>)
    requires
        grid@.len() > 0,
    ensures
        r == schedule_error(m.model(), schedule@, grid@, 0),
{
    m.laws();
    let zero = R::from(0u32);
    let last = grid[grid.len() - 1];
    let mut i: usize = 0;
    while i < schedule.len()
        invariant
            lawful::<R>(),
            zero == literal::<R>(0),
            grid@.len() > 0,
            last == grid@.last(),
            i <= schedule@.len(),
            schedule_error(m.model(), schedule@, grid@, 0) == schedule_error(
                m.model(),
                schedule@,
                grid@,
                i as int,
            ),
        decreases schedule@.len() - i,
    {
        let e = schedule[i];
        if !(e.beta == zero) {
            return Some(
                MonteCarloError::StochasticDividend(
                    StochasticDividendError::Unsupported {
                        feature: "proportional cash mixtures in stochastic-dividend HW",
                    },
                ),
            );
        }
        if e.ex_time <= zero {
            return Some(invalid("strictly_future_ex_date"));
        }
        if e.ex_time <= last && !is_on_nodes(m, grid, e.ex_time) {
            return Some(invalid("missing_dividend_time"));
        }
        i = i + 1;
    }
    None
}

/// The step `i` of a path.
pub open spec fn rate_step<R: Scalar>(
    m: Model<R>,
    rates: RatesView<R>,
    corr: HybridCorrelation<R>,
    grid: Seq<R>,
) -> spec_fn(int) -> Result<RateStepView<R>, MonteCarloError> {
    |i: int|
        match transition_of(m, rates, grid[i], grid[i + 1], literal(0), corr) {
            Err(e) => Err(e),
            Ok(x) => match loading_of(m, x.covariance) {
                Err(e) => Err(e),
                Ok(noise) => Ok(
                    RateStepView {
                        dt: minus(grid[i + 1], grid[i]),
                        decay: x.rate_decay,
                        integral_loading: x.integral_loading,
                        noise,
                    },
                ),
            },
        }
}

fn make_steps<R: Scalar, M: Math<R>>(
    m: &M,
    rates: &HullWhite1Factor<R>,
    corr: HybridCorrelation<R>,
    grid: &Vec<R>,
) -> (r: Result<Vec<RateStep<R>>, MonteCarloError>)
    requires
        rates@.valid(),
        grid@.len() > 0,
    ensures
        (match r {
            Ok(v) => Ok(views(v@)),
            Err(e) => Err(e),
        }) == gather((grid@.len() - 1) as nat, rate_step(m.model(), rates@, corr, grid@)),
        r matches Ok(v) ==> v@.len() == grid@.len() - 1 && forall|i: int|
            0 <= i < v@.len() ==> square((#[trigger] v@[i])@.noise),
{
    let n: usize = grid.len() - 1;
    let ghost law = rate_step(m.model(), rates@, corr, grid@);
    let ghost sized = |s: RateStep<R>| square(s@.noise);
    let f_at = |i: usize| -> (x: Result<RateStep<R>, MonteCarloError>)
        requires
            i < n,
        ensures
            viewed(x) == law(i as int),
            x matches Ok(s) ==> sized(s),
        {
            m.laws();
            let t = match rates.transition(m, grid[i], grid[i + 1], R::from(0u32), corr) {
                Err(e) => return Err(e),
                Ok(t) => t,
            };
            let noise = match covariance_loading(m, &t.covariance) {
                Err(e) => return Err(e),
                Ok(v) => v,
            };
            let s = RateStep {
                dt: grid[i + 1] - grid[i],
                decay: t.rate_decay,
                integral_loading: t.integral_loading,
                noise,
            };
            proof {
                assert forall|h: int| 0 <= h < 4 implies (#[trigger] s@.noise[h]).len() == 4 by {
                    assert(s.noise@[h]@.len() == 4);
                }
            }
            Ok(s)
        };
    collect_views(
        n,
        f_at,
        Ghost(law),
        Ghost(sized),
    )
}

/// The claim at a node on the cash payment `j`.
pub open spec fn claim_at<R: Scalar, C: RateMarket<R>>(
    m: Model<R>,
    c: C,
    rates: RatesView<R>,
    x: CashInputs<R>,
    e: MixedEvent<R>,
    j: int,
    t: R,
    repo: R,
) -> Result<CashClaim<R>, MonteCarloError> {
    match cash_coefficients_of(m, rates, x, t, e.ex_time) {
        Err(f) => Err(f),
        Ok(k) => match c.bond_price_of(rates, t, e.ex_time) {
            Err(f) => Err(f),
            Ok(bond) => match c.repo_discount_of(e.ex_time) {
                Err(f) => Err(f),
                Ok(carry) => {
                    let weight = over(repo, carry);
                    if positive(m, weight) {
                        Ok(
                            CashClaim {
                                index: j as usize,
                                amount: times(e.fixed_cash, bond),
                                duration: decayed(m, rates.mean_reversion, minus(e.ex_time, t)),
                                equity: k[0],
                                dividend: k[1],
                                constant: k[2],
                                carry_weight: weight,
                            },
                        )
                    } else {
                        Err(invalid_field("repo_carry_weight"))
                    }
                },
            },
        },
    }
}

fn make_claim<R: Scalar, M: Math<R>, C: RateMarket<R>>(
    m: &M,
    c: &C,
    rates: &HullWhite1Factor<R>,
    x: CashInputs<R>,
    e: MixedEvent<R>,
    j: usize,
    t: R,
    repo: R,
) -> (r: Result<CashClaim<R>, MonteCarloError>)
    requires
        rates@.valid(),
    ensures
        r == claim_at(m.model(), *c, rates@, x, e, j as int, t, repo),
{
    m.laws();
    let k = match cash_coefficients(m, rates, x, t, e.ex_time) {
        Err(f) => return Err(f),
        Ok(v) => v,
    };
    let bond = match c.bond_price(rates, t, e.ex_time) {
        Err(f) => return Err(f),
        Ok(v) => v,
    };
    let carry = match c.repo_discount(e.ex_time) {
        Err(f) => return Err(f),
        Ok(v) => v,
    };
    let weight = repo / carry;
    if !is_positive(m, weight) {
        return Err(invalid("repo_carry_weight"));
    }
    Ok(
        CashClaim {
            index: j,
            amount: e.fixed_cash * bond,
            duration: b(m, rates.mean_reversion, e.ex_time - t),
            equity: k[0],
            dividend: k[1],
            constant: k[2],
            carry_weight: weight,
        },
    )
}

/// The claims at a node, the cash that is paid there, and at the first node what
/// the claims are worth, what they forecast, and what they reserve.
pub ghost struct NodeClaims<R> {
    pub claims: Seq<CashClaim<R>>,
    pub event_cash: Option<R>,
    pub initial_claims: Seq<R>,
    pub initial_forwards: Seq<R>,
    pub reserve: R,
}

/// The cash paid at a node with one more payment.
pub open spec fn cash_with<R: Scalar>(cash: Option<R>, mean: R) -> R {
    match cash {
        Some(x) => plus(x, mean),
        None => plus(literal(0), mean),
    }
}

/// The claims at a node on the first `n` cash payments.
pub open spec fn node_claims<R: Scalar, C: RateMarket<R>>(
    m: Model<R>,
    c: C,
    rates: RatesView<R>,
    x: CashInputs<R>,
    schedule: Seq<MixedEvent<R>>,
    t: R,
    repo: R,
    first: bool,
    n: nat,
) -> Result<NodeClaims<R>, MonteCarloError>
    decreases n,
{
    if n == 0 {
        Ok(
            NodeClaims {
                claims: Seq::empty(),
                event_cash: None,
                initial_claims: zeros(schedule.len()),
                initial_forwards: zeros(schedule.len()),
                reserve: literal(0),
            },
        )
    } else {
        match node_claims(m, c, rates, x, schedule, t, repo, first, (n - 1) as nat) {
            Err(e) => Err(e),
            Ok(w) => {
                let e = schedule[n - 1];
                let paid = if same(e.ex_time, t) {
                    NodeClaims { event_cash: Some(cash_with(w.event_cash, e.fixed_cash)), ..w }
                } else {
                    w
                };
                if le(e.ex_time, t) {
                    Ok(paid)
                } else {
                    match claim_at(m, c, rates, x, e, n - 1, t, repo) {
                        Err(f) => Err(f),
                        Ok(claim) => claim_added(m, c, paid, e, n - 1, claim, first),
                    }
                }
            },
        }
    }
}

/// The claims at a node with one more.
pub open spec fn claim_added<R: Scalar, C: RateMarket<R>>(
    m: Model<R>,
    c: C,
    w: NodeClaims<R>,
    e: MixedEvent<R>,
    j: int,
    claim: CashClaim<R>,
    first: bool,
) -> Result<NodeClaims<R>, MonteCarloError> {
    if !first {
        Ok(NodeClaims { claims: w.claims.push(claim), ..w })
    } else {
        match claim_value(m, claim, initial_state()) {
            Err(f) => Err(f),
            Ok(value) => match c.discount_of(e.ex_time) {
                Err(f) => Err(f),
                Ok(discount) => Ok(
                    NodeClaims {
                        claims: w.claims.push(claim),
                        event_cash: w.event_cash,
                        initial_claims: w.initial_claims.update(j, value),
                        initial_forwards: w.initial_forwards.update(j, over(value, discount)),
                        reserve: plus(w.reserve, times(claim.carry_weight, value)),
                    },
                ),
            },
        }
    }
}

proof fn node_claims_stop<R: Scalar, C: RateMarket<R>>(
    m: Model<R>,
    c: C,
    rates: RatesView<R>,
    x: CashInputs<R>,
    schedule: Seq<MixedEvent<R>>,
    t: R,
    repo: R,
    first: bool,
    a: nat,
    n: nat,
)
    requires
        a <= n,
        node_claims(m, c, rates, x, schedule, t, repo, first, a) is Err,
    ensures
        node_claims(m, c, rates, x, schedule, t, repo, first, n) == node_claims(
            m,
            c,
            rates,
            x,
            schedule,
            t,
            repo,
            first,
            a,
        ),
    decreases n,
{
    if a < n {
        node_claims_stop(m, c, rates, x, schedule, t, repo, first, a, (n - 1) as nat);
    }
}

/// The claims of a node as they are made.
struct ClaimTable<R> {
    claims: Vec<CashClaim<R>>,
    event_cash: Option<R>,
    initial_claims: Vec<R>,
    initial_forwards: Vec<R>,
    reserve: R,
}

impl<R> View for ClaimTable<R> {
    type V = NodeClaims<R>;

    closed spec fn view(&self) -> NodeClaims<R> {
        NodeClaims {
            claims: self.claims@,
            event_cash: self.event_cash,
            initial_claims: self.initial_claims@,
            initial_forwards: self.initial_forwards@,
            reserve: self.reserve,
        }
    }
}

fn make_node_claims<R: Scalar, M: Math<R>, C: RateMarket<R>>(
    m: &M,
    c: &C,
    rates: &HullWhite1Factor<R>,
    x: CashInputs<R>,
    schedule: &Vec<MixedEvent<R>>,
    t: R,
    repo: R,
    first: bool,
) -> (r: Result<ClaimTable<R>, MonteCarloError>)
    requires
        rates@.valid(),
    ensures
        viewed(r) == node_claims(
            m.model(),
            *c,
            rates@,
            x,
            schedule@,
            t,
            repo,
            first,
            schedule@.len(),
        ),
        r matches Ok(w) ==> claims_within(w@.claims, schedule@.len()) && w@.initial_claims.len()
            == schedule@.len() && w@.initial_forwards.len() == schedule@.len(),
{
    m.laws();
    let n = schedule.len();
    let mut claims: Vec<CashClaim<R>> = Vec::new();
    let mut event_cash: Option<R> = None;
    let mut initial_claims = make_zeros(m, n);
    let mut initial_forwards = make_zeros(m, n);
    let mut reserve = R::from(0u32);
    let mut j: usize = 0;
    while j < n
        invariant
            lawful::<R>(),
            rates@.valid(),
            n == schedule@.len(),
            j <= n,
            claims_within(claims@, schedule@.len()),
            initial_claims@.len() == n,
            initial_forwards@.len() == n,
            node_claims(m.model(), *c, rates@, x, schedule@, t, repo, first, j as nat) == Ok::<
                NodeClaims<R>,
                MonteCarloError,
            >(
                (NodeClaims {
                    claims: claims@,
                    event_cash,
                    initial_claims: initial_claims@,
                    initial_forwards: initial_forwards@,
                    reserve,
                }),
            ),
        decreases n - j,
    {
        proof {
            if node_claims(
                m.model(),
                *c,
                rates@,
                x,
                schedule@,
                t,
                repo,
                first,
                (j + 1) as nat,
            ) is Err {
                node_claims_stop(
                    m.model(),
                    *c,
                    rates@,
                    x,
                    schedule@,
                    t,
                    repo,
                    first,
                    (j + 1) as nat,
                    n as nat,
                );
            }
        }
        let e = schedule[j];
        if e.ex_time == t {
            event_cash = Some(
                match event_cash {
                    Some(y) => y + e.fixed_cash,
                    None => R::from(0u32) + e.fixed_cash,
                },
            );
        }
        if !(e.ex_time <= t) {
            let claim = match make_claim(m, c, rates, x, e, j, t, repo) {
                Err(f) => return Err(f),
                Ok(v) => v,
            };
            if first {
                let start = StochasticDividendHullWhiteState::initial(m);
                let value = match claim.value(m, start) {
                    Err(f) => return Err(f),
                    Ok(v) => v,
                };
                let discount = match c.discount(e.ex_time) {
                    Err(f) => return Err(f),
                    Ok(v) => v,
                };
                initial_claims.set(j, value);
                initial_forwards.set(j, value / discount);
                reserve = reserve + claim.carry_weight * value;
            }
            claims.push(claim);
        }
        j = j + 1;
    }
    Ok(ClaimTable { claims, event_cash, initial_claims, initial_forwards, reserve })
}

/// A node of a path, and what the claims at the first node are worth.
pub open spec fn node_of<R: Scalar, C: RateMarket<R>>(
    m: Model<R>,
    c: C,
    rates: RatesView<R>,
    x: CashInputs<R>,
    schedule: Seq<MixedEvent<R>>,
    t: R,
    first: bool,
) -> Result<(RateNodeView<R>, NodeClaims<R>), MonteCarloError> {
    match c.repo_discount_of(t) {
        Err(e) => Err(e),
        Ok(repo) => match c.discount_of(t) {
            Err(e) => Err(e),
            Ok(discount) => match node_claims(
                m,
                c,
                rates,
                x,
                schedule,
                t,
                repo,
                first,
                schedule.len(),
            ) {
                Err(e) => Err(e),
                Ok(w) => {
                    let growth = over(repo, discount);
                    if !positive(m, growth) {
                        Err(invalid_field("residual_carry_growth"))
                    } else {
                        match c.integrated_variance_of(rates, t) {
                            Err(e) => Err(e),
                            Ok(variance) => Ok(
                                (
                                    RateNodeView {
                                        residual_growth: growth,
                                        half_integral_variance: times(half(), variance),
                                        claims: w.claims,
                                        event_cash: w.event_cash,
                                    },
                                    w,
                                ),
                            ),
                        }
                    }
                },
            },
        },
    }
}

/// The node at the time `i` of a grid.
pub open spec fn later_node<R: Scalar, C: RateMarket<R>>(
    m: Model<R>,
    c: C,
    rates: RatesView<R>,
    x: CashInputs<R>,
    schedule: Seq<MixedEvent<R>>,
    grid: Seq<R>,
) -> spec_fn(int) -> Result<RateNodeView<R>, MonteCarloError> {
    |i: int|
        match node_of(m, c, rates, x, schedule, grid[i], i == 0) {
            Err(e) => Err(e),
            Ok((node, w)) => Ok(node),
        }
}

fn make_node<R: Scalar, M: Math<R>, C: RateMarket<R>>(
    m: &M,
    c: &C,
    rates: &HullWhite1Factor<R>,
    x: CashInputs<R>,
    schedule: &Vec<MixedEvent<R>>,
    t: R,
    first: bool,
) -> (r: Result<(RateNode<R>, Vec<R>, Vec<R>, R), MonteCarloError>)
    requires
        rates@.valid(),
    ensures
        match (r, node_of(m.model(), *c, rates@, x, schedule@, t, first)) {
            (Ok((node, a, b, reserve)), Ok((want, w))) => node@ == want && a@ == w.initial_claims
                && b@ == w.initial_forwards && reserve == w.reserve,
            (Err(e), Err(f)) => e == f,
            _ => false,
        },
        r matches Ok((node, a, b, reserve)) ==> claims_within(node@.claims, schedule@.len())
            && a@.len() == schedule@.len() && b@.len() == schedule@.len(),
{
    m.laws();
    let repo = match c.repo_discount(t) {
        Err(e) => return Err(e),
        Ok(v) => v,
    };
    let discount = match c.discount(t) {
        Err(e) => return Err(e),
        Ok(v) => v,
    };
    let w = match make_node_claims(m, c, rates, x, schedule, t, repo, first) {
        Err(e) => return Err(e),
        Ok(v) => v,
    };
    let growth = repo / discount;
    if !is_positive(m, growth) {
        return Err(invalid("residual_carry_growth"));
    }
    let variance = match c.integrated_variance(rates, t) {
        Err(e) => return Err(e),
        Ok(v) => v,
    };
    let node = RateNode {
        residual_growth: growth,
        half_integral_variance: (R::from(1u32) / R::from(2u32)) * variance,
        claims: w.claims,
        event_cash: w.event_cash,
    };
    Ok((node, w.initial_claims, w.initial_forwards, w.reserve))
}

/// The number of draws of a path, where it can be counted.
pub open spec fn rate_dimension(nodes: nat) -> Option<u32> {
    if 4 * (nodes - 1) <= u32::MAX {
        Some((4 * (nodes - 1)) as u32)
    } else {
        None
    }
}

/// The path that inputs compile to, or why they are refused: the volatility, the
/// correlations, the dimension, a dividend, the number of claims, a step, a node,
/// or the spot that is left.
pub open spec fn rate_path_of<R: Scalar, C: RateMarket<R>>(
    m: Model<R>,
    c: C,
    rates: RatesView<R>,
    x: CashInputs<R>,
    grid: Seq<R>,
) -> Result<RatePathView<R>, MonteCarloError> {
    let schedule = c.events_of();
    let corr = HybridCorrelation {
        equity_second: x.dividends.equity_dividend_correlation,
        equity_rate: x.rho_f,
        second_rate: x.rho_d,
    };
    if !nonnegative(m, x.sigma) {
        Err(invalid_field("equity_volatility"))
    } else if !correlated(m, corr) {
        Err(rate_field("correlation", 0))
    } else if rate_dimension(grid.len()) is None {
        Err(invalid_field("random_dimension"))
    } else if schedule_error(m, schedule, grid, 0) is Some {
        Err(schedule_error(m, schedule, grid, 0)->0)
    } else if grid.len() * schedule.len() > MAX_RESERVE_TERMS {
        Err(invalid_field("hw_reserve_resource_limit"))
    } else {
        match gather((grid.len() - 1) as nat, rate_step(m, rates, corr, grid)) {
            Err(e) => Err(e),
            Ok(steps) => match gather(grid.len(), later_node(m, c, rates, x, schedule, grid)) {
                Err(e) => Err(e),
                Ok(nodes) => {
                    let w = node_of(m, c, rates, x, schedule, grid[0], true)->Ok_0.1;
                    let risky_spot = minus(c.spot_of(), w.reserve);
                    if positive(m, risky_spot) {
                        Ok(
                            RatePathView {
                                model: x.dividends,
                                volatility: x.sigma,
                                times: grid,
                                steps,
                                nodes,
                                cash_times: Seq::new(schedule.len(), |j: int| schedule[j].ex_time),
                                cash_means: Seq::new(
                                    schedule.len(),
                                    |j: int| schedule[j].fixed_cash,
                                ),
                                initial_claims: w.initial_claims,
                                initial_forwards: w.initial_forwards,
                                risky_spot,
                                dimension: rate_dimension(grid.len())->0,
                            },
                        )
                    } else {
                        Err(invalid_field("funded_residual_equity"))
                    }
                },
            },
        }
    }
}

impl<R: Scalar> StochasticDividendHullWhitePathPlan<R> {
    /// Compiles a path of constant volatility on a grid.
    #[verifier::rlimit(40)]
    pub fn compile_bs<M: Math<R>, C: RateMarket<R>>(
        m: &M,
        c: &C,
        rates: &HullWhite1Factor<R>,
        x: CashInputs<R>,
        grid: Vec<R>,
    ) -> (r: Result<Self, MonteCarloError>)
        requires
            rates@.valid(),
            grid@.len() > 0,
        ensures
            viewed(r) == rate_path_of(m.model(), *c, rates@, x, grid@),
            r matches Ok(p) ==> p@.valid(),
    {
        m.laws();
        let count = grid.len();
        if !is_nonnegative(m, x.sigma) {
            return Err(invalid("equity_volatility"));
        }
        let corr = match HybridCorrelation::new(
            m,
            x.dividends.equity_dividend_correlation,
            x.rho_f,
            x.rho_d,
        ) {
            Err(e) => return Err(e),
            Ok(v) => v,
        };
        let steps_wide: u128 = (count - 1) as u128;
        let wide: u128 = 4 * steps_wide;
        if wide > u32::MAX as u128 {
            return Err(invalid("random_dimension"));
        }
        let dimension: u32 = wide as u32;
        let schedule = c.events();
        if let Some(e) = check_schedule(m, &schedule, &grid) {
            return Err(e);
        }
        let n = schedule.len();
        proof {
            let (a, k) = (count as int, n as int);
            assert(0 <= a * k <= u64::MAX * u64::MAX) by (nonlinear_arith)
                requires
                    0 <= a <= u64::MAX,
                    0 <= k <= u64::MAX,
            ;
        }
        let terms: u128 = (count as u128) * (n as u128);
        if terms > MAX_RESERVE_TERMS as u128 {
            return Err(invalid("hw_reserve_resource_limit"));
        }
        let steps = match make_steps(m, rates, corr, &grid) {
            Err(e) => return Err(e),
            Ok(v) => v,
        };
        let ghost law = later_node(m.model(), *c, rates@, x, schedule@, grid@);
        let mut nodes: Vec<RateNode<R>> = Vec::new();
        assert(views(nodes@) =~= Seq::empty());
        let mut initial_claims: Vec<R> = make_zeros(m, n);
        let mut initial_forwards: Vec<R> = make_zeros(m, n);
        let mut reserve = R::from(0u32);
        let mut i: usize = 0;
        while i < count
            invariant
                rates@.valid(),
                count == grid@.len(),
                count > 0,
                i <= count,
                n == schedule@.len(),
                law == later_node(m.model(), *c, rates@, x, schedule@, grid@),
                gather(i as nat, law) == Ok::<Seq<RateNodeView<R>>, MonteCarloError>(
                    views(nodes@),
                ),
                forall|k: int|
                    0 <= k < nodes@.len() ==> claims_within(
                        (#[trigger] nodes@[k])@.claims,
                        n as nat,
                    ),
                nodes@.len() == i,
                initial_claims@.len() == n,
                initial_forwards@.len() == n,
                i > 0 ==> (node_of(m.model(), *c, rates@, x, schedule@, grid@[0], true) matches Ok((
                    node,
                    w,
                )) && initial_claims@ == w.initial_claims && initial_forwards@
                    == w.initial_forwards && reserve == w.reserve),
                rate_path_of(m.model(), *c, rates@, x, grid@) is Err ==> (gather(
                    grid@.len(),
                    law,
                ) matches Err(e) ==> rate_path_of(m.model(), *c, rates@, x, grid@) == Err::<
                    RatePathView<R>,
                    MonteCarloError,
                >(e)),
                gather(grid@.len(), law) is Err ==> rate_path_of(
                    m.model(),
                    *c,
                    rates@,
                    x,
                    grid@,
                ) is Err,
            decreases count - i,
        {
            let ghost before = views(nodes@);
            match make_node(m, c, rates, x, &schedule, grid[i], i == 0) {
                Err(e) => {
                    proof {
                        assert(law(i as int) == Err::<RateNodeView<R>, MonteCarloError>(e));
                        assert(gather((i + 1) as nat, law) == Err::<
                            Seq<RateNodeView<R>>,
                            MonteCarloError,
                        >(e));
                        gather_stops((i + 1) as nat, grid@.len(), law);
                    }
                    return Err(e);
                },
                Ok((node, a, f, kept)) => {
                    if i == 0 {
                        initial_claims = a;
                        initial_forwards = f;
                        reserve = kept;
                    }
                    let ghost seen_node = node@;
                    nodes.push(node);
                    proof {
                        assert(law(i as int) == Ok::<RateNodeView<R>, MonteCarloError>(seen_node));
                        assert(views(nodes@) =~= before.push(seen_node));
                    }
                },
            }
            i = i + 1;
        }
        let risky_spot = c.spot() - reserve;
        if !is_positive(m, risky_spot) {
            return Err(invalid("funded_residual_equity"));
        }
        let ghost ex = |j: int| schedule@[j].ex_time;
        let cash_times_at = |j: usize| -> (y: R)
            requires
                j < n,
            ensures
                y == ex(j as int),
            { schedule[j].ex_time };
        let cash_times = build(
            n,
            cash_times_at,
            Ghost(ex),
        );
        let ghost mean = |j: int| schedule@[j].fixed_cash;
        let cash_means_at = |j: usize| -> (y: R)
            requires
                j < n,
            ensures
                y == mean(j as int),
            { schedule[j].fixed_cash };
        let cash_means = build(
            n,
            cash_means_at,
            Ghost(mean),
        );
        let p = StochasticDividendHullWhitePathPlan {
            model: x.dividends,
            volatility: x.sigma,
            times: grid,
            steps,
            nodes,
            cash_times,
            cash_means,
            initial_claims,
            initial_forwards,
            risky_spot,
            dimension,
        };
        proof {
            let want = rate_path_of(m.model(), *c, rates@, x, grid@)->Ok_0;
            assert(p@.cash_times =~= want.cash_times);
            assert(p@.cash_means =~= want.cash_means);
            assert(p@ == want);
        }
        Ok(p)
    }
}

/// The state after one step.
pub open spec fn rate_stepped<R: Scalar, Y: DividendDynamics<R>>(
    m: Model<R>,
    y: Y,
    p: RatePathView<R>,
    step: RateStepView<R>,
    s: StochasticDividendHullWhiteState<R>,
    z: Seq<R>,
) -> Result<StochasticDividendHullWhiteState<R>, MonteCarloError> {
    match y.stepped(
        p.model,
        s.factors,
        p.volatility,
        step.dt,
        Pair { first: z[0], second: z[1] },
    ) {
        Err(e) => Err(e),
        Ok(factors) => {
            let rate = plus(times(step.decay, s.rate_factor), dot(step.noise[2], z));
            let integral = plus(
                plus(s.integrated_rate_factor, times(step.integral_loading, s.rate_factor)),
                dot(step.noise[3], z),
            );
            if m.is_finite(rate) && m.is_finite(integral) {
                Ok(
                    StochasticDividendHullWhiteState {
                        factors,
                        rate_factor: rate,
                        integrated_rate_factor: integral,
                    },
                )
            } else {
                Err(invalid_field("rate_state"))
            }
        },
    }
}

/// The states up to the node `n`.
pub open spec fn rate_states<R: Scalar, Y: DividendDynamics<R>>(
    m: Model<R>,
    y: Y,
    p: RatePathView<R>,
    z: Seq<R>,
    n: nat,
) -> Result<Seq<StochasticDividendHullWhiteState<R>>, MonteCarloError>
    decreases n,
{
    if n == 0 {
        Ok(seq![initial_state()])
    } else {
        match rate_states(m, y, p, z, (n - 1) as nat) {
            Err(e) => Err(e),
            Ok(states) => match rate_stepped(
                m,
                y,
                p,
                p.steps[n - 1],
                states.last(),
                chunk(z, 4, n - 1),
            ) {
                Err(e) => Err(e),
                Ok(s) => Ok(states.push(s)),
            },
        }
    }
}

proof fn rate_states_stop<R: Scalar, Y: DividendDynamics<R>>(
    m: Model<R>,
    y: Y,
    p: RatePathView<R>,
    z: Seq<R>,
    a: nat,
    n: nat,
)
    requires
        a <= n,
        rate_states(m, y, p, z, a) is Err,
    ensures
        rate_states(m, y, p, z, n) == rate_states(m, y, p, z, a),
    decreases n,
{
    if a < n {
        rate_states_stop(m, y, p, z, a, (n - 1) as nat);
    }
}

/// The states of a path under normals.
pub open spec fn rate_path_states<R: Scalar, Y: DividendDynamics<R>>(
    m: Model<R>,
    y: Y,
    p: RatePathView<R>,
    z: Seq<R>,
) -> Result<Seq<StochasticDividendHullWhiteState<R>>, MonteCarloError> {
    if z.len() != p.dimension || !m.all_finite(z) {
        Err(invalid_field("normal_vector"))
    } else {
        rate_states(m, y, p, z, p.steps.len())
    }
}

/// What the claims at a node are worth with their carry, added to `post` one by
/// one.
pub open spec fn claims_added<R: Scalar>(
    m: Model<R>,
    claims: Seq<CashClaim<R>>,
    s: StochasticDividendHullWhiteState<R>,
    post: R,
    n: nat,
) -> Result<R, MonteCarloError>
    decreases n,
{
    if n == 0 {
        Ok(post)
    } else {
        match claims_added(m, claims, s, post, (n - 1) as nat) {
            Err(e) => Err(e),
            Ok(sum) => match claim_value(m, claims[n - 1], s) {
                Err(e) => Err(e),
                Ok(value) => Ok(plus(sum, times(claims[n - 1].carry_weight, value))),
            },
        }
    }
}

proof fn claims_stop<R: Scalar>(
    m: Model<R>,
    claims: Seq<CashClaim<R>>,
    s: StochasticDividendHullWhiteState<R>,
    post: R,
    a: nat,
    n: nat,
)
    requires
        a <= n,
        claims_added(m, claims, s, post, a) is Err,
    ensures
        claims_added(m, claims, s, post, n) == claims_added(m, claims, s, post, a),
    decreases n,
{
    if a < n {
        claims_stop(m, claims, s, post, a, (n - 1) as nat);
    }
}

/// What the residual equity has grown by at a node.
pub open spec fn node_growth<R: Scalar>(
    m: Model<R>,
    node: RateNodeView<R>,
    s: StochasticDividendHullWhiteState<R>,
) -> R {
    times(node.residual_growth, m.exp(plus(s.integrated_rate_factor, node.half_integral_variance)))
}

/// The spots of a node, after its dividend and before it, where so much equity is
/// left after the claims.
pub open spec fn rate_spots<R: Scalar>(
    m: Model<R>,
    nodes: Seq<RateNodeView<R>>,
    index: int,
    s: StochasticDividendHullWhiteState<R>,
    risky_spot: R,
) -> Result<AffineSpot<R>, MonteCarloError> {
    if index >= nodes.len() {
        Err(invalid_field("time_node_index"))
    } else {
        let node = nodes[index];
        let residual = times(
            times(
                times(risky_spot, node.residual_growth),
                m.exp(plus(s.integrated_rate_factor, node.half_integral_variance)),
            ),
            s.factors.equity,
        );
        if !positive(m, residual) {
            Err(invalid_field("residual_equity_state"))
        } else {
            match claims_added(m, node.claims, s, residual, node.claims.len()) {
                Err(e) => Err(e),
                Ok(post) => if !positive(m, post) {
                    Err(invalid_field("post_dividend_spot"))
                } else {
                    match node.event_cash {
                        None => Ok(AffineSpot { post, pre: None }),
                        Some(mean) => {
                            let pre = plus(post, times(mean, s.factors.dividend));
                            if positive(m, pre) {
                                Ok(AffineSpot { post, pre: Some(pre) })
                            } else {
                                Err(invalid_field("pre_dividend_spot"))
                            }
                        },
                    }
                },
            }
        }
    }
}

/// What the claims at the first node reserve, claim by claim.
pub open spec fn reserve_of<R: Scalar>(claims: Seq<CashClaim<R>>, values: Seq<R>, n: nat) -> R
    decreases n,
{
    if n == 0 {
        literal(0)
    } else {
        plus(
            reserve_of(claims, values, (n - 1) as nat),
            times(claims[n - 1].carry_weight, values[claims[n - 1].index as int]),
        )
    }
}

/// The reserve of a path at first.
pub open spec fn initial_reserve<R: Scalar>(p: RatePathView<R>) -> R {
    reserve_of(p.nodes[0].claims, p.initial_claims, p.nodes[0].claims.len())
}

/// What is left of a spot after the claims of a path.
pub open spec fn equity_left<R: Scalar>(m: Model<R>, p: RatePathView<R>, spot: R) -> Result<
    R,
    MonteCarloError,
> {
    let left = minus(spot, initial_reserve(p));
    if !positive(m, spot) {
        Err(invalid_field("gamma_shifted_spot"))
    } else if positive(m, left) {
        Ok(left)
    } else {
        Err(invalid_field("funded_residual_equity"))
    }
}

/// The first claim from `i` on that is on a cash payment.
pub open spec fn claim_on<R>(claims: Seq<CashClaim<R>>, index: usize, i: int) -> Option<
    CashClaim<R>,
>
    decreases claims.len() - i,
{
    if i >= claims.len() {
        None
    } else if claims[i].index == index {
        Some(claims[i])
    } else {
        claim_on(claims, index, i + 1)
    }
}

/// What a cash payment is worth at a node: nothing once it is past, the payment
/// itself on its date, and the claim before.
pub open spec fn cash_value<R: Scalar>(
    m: Model<R>,
    p: RatePathView<R>,
    node: int,
    cash: int,
    s: StochasticDividendHullWhiteState<R>,
) -> Result<R, MonteCarloError> {
    if cash >= p.cash_times.len() {
        Err(invalid_field("cash_index"))
    } else if node >= p.times.len() {
        Err(invalid_field("time_node_index"))
    } else if gt(p.times[node], p.cash_times[cash]) {
        Ok(literal(0))
    } else if same(p.times[node], p.cash_times[cash]) {
        let value = times(p.cash_means[cash], s.factors.dividend);
        if nonnegative(m, value) {
            Ok(value)
        } else {
            Err(invalid_field("settled_cash"))
        }
    } else {
        match claim_on(p.nodes[node].claims, cash as usize, 0) {
            None => Err(invalid_field("cash_index")),
            Some(c) => claim_value(m, c, s),
        }
    }
}

fn find_claim<R: Scalar>(claims: &Vec<CashClaim<R>>, index: usize) -> (r: Option<CashClaim<R>>)
    ensures
        r == claim_on(claims@, index, 0),
{
    let mut i: usize = 0;
    while i < claims.len()
        invariant
            i <= claims@.len(),
            claim_on(claims@, index, 0) == claim_on(claims@, index, i as int),
        decreases claims@.len() - i,
    {
        if claims[i].index == index {
            return Some(claims[i]);
        }
        i = i + 1;
    }
    None
}

impl<R: Scalar> StochasticDividendHullWhitePathPlan<R> {
    /// The times of the nodes.
    pub fn times(&self) -> (v: &Vec<R>)
        ensures
            v@ == self@.times,
    {
        &self.times
    }

    /// The number of draws of a path.
    pub fn random_dimension(&self) -> (n: u32)
        ensures
            n == self@.dimension,
    {
        self.dimension
    }

    /// The number of random factors.
    pub fn random_factor_count(&self) -> (n: usize)
        ensures
            n == 4,
    {
        4
    }

    /// The spot less what the claims reserve.
    pub fn risky_spot(&self) -> (x: R)
        ensures
            x == self@.risky_spot,
    {
        self.risky_spot
    }

    /// The dates of the cash payments.
    pub fn cash_times(&self) -> (v: &Vec<R>)
        ensures
            v@ == self@.cash_times,
    {
        &self.cash_times
    }

    /// What each cash payment is worth at first.
    pub fn initial_dividend_claim_values(&self) -> (v: &Vec<R>)
        ensures
            v@ == self@.initial_claims,
    {
        &self.initial_claims
    }

    /// What each cash payment is worth at first, forward to its date.
    pub fn initial_dividend_forwards(&self) -> (v: &Vec<R>)
        ensures
            v@ == self@.initial_forwards,
    {
        &self.initial_forwards
    }

    /// Evolves a path under normals.
    pub fn evolve_path<M: Math<R>, Y: DividendDynamics<R>>(
        &self,
        m: &M,
        y: &Y,
        normals: &Vec<R>,
    ) -> (r: Result<Vec<StochasticDividendHullWhiteState<R>>, MonteCarloError>)
        requires
            self@.valid(),
        ensures
            seen(r) == rate_path_states(m.model(), *y, self@, normals@),
            r matches Ok(v) ==> v@.len() == self@.times.len(),
    {
        m.laws();
        if normals.len() != self.dimension as usize || !all_finite(m, normals.as_slice()) {
            return Err(invalid("normal_vector"));
        }
        let n = self.steps.len();
        let mut state = StochasticDividendHullWhiteState::initial(m);
        let mut states: Vec<StochasticDividendHullWhiteState<R>> = vec![state];
        assert(states@ =~= seq![initial_state::<R>()]);
        let mut i: usize = 0;
        while i < n
            invariant
                lawful::<R>(),
                self@.valid(),
                n == self@.steps.len(),
                normals@.len() == 4 * n,
                normals@.len() == self@.dimension,
                m.model().all_finite(normals@),
                i <= n,
                states@.len() == i + 1,
                state == states@.last(),
                rate_states(m.model(), *y, self@, normals@, i as nat) == Ok::<
                    Seq<StochasticDividendHullWhiteState<R>>,
                    MonteCarloError,
                >(states@),
            decreases n - i,
        {
            proof {
                if rate_states(m.model(), *y, self@, normals@, (i + 1) as nat) is Err {
                    rate_states_stop(m.model(), *y, self@, normals@, (i + 1) as nat, n as nat);
                }
                assert(self@.steps[i as int] == self.steps@[i as int]@);
                assert(square(self@.steps[i as int].noise));
            }
            let step = &self.steps[i];
            let at: usize = 4 * i;
            let ghost z = chunk(normals@, 4, i as int);
            assert(z == normals@.subrange(4 * i as int, 4 * i + 4));
            proof {
                let noise = step@.noise;
                assert(noise[2].len() == 4 && noise[3].len() == 4);
                assert(noise[2] == step.noise@[2]@ && noise[3] == step.noise@[3]@);
            }
            let rate_noise = dot_at(m, &step.noise[2], normals, at);
            let integral_noise = dot_at(m, &step.noise[3], normals, at);
            let drawn = Pair { first: normals[at], second: normals[at + 1] };
            assert(drawn.first == z[0] && drawn.second == z[1]);
            let factors = match y.step(
                self.model,
                state.factors,
                self.volatility,
                step.dt,
                drawn,
            ) {
                Err(e) => return Err(e),
                Ok(v) => v,
            };
            let rate = step.decay * state.rate_factor + rate_noise;
            let integral = state.integrated_rate_factor + step.integral_loading * state.rate_factor
                + integral_noise;
            state =
            match StochasticDividendHullWhiteState::new(m, factors, rate, integral) {
                Err(e) => return Err(e),
                Ok(v) => v,
            };
            states.push(state);
            i = i + 1;
        }
        Ok(states)
    }

    /// The spots of a node.
    pub fn spots<M: Math<R>>(
        &self,
        m: &M,
        index: usize,
        state: StochasticDividendHullWhiteState<R>,
    ) -> (r: Result<AffineSpot<R>, MonteCarloError>)
        ensures
            r == rate_spots(m.model(), self@.nodes, index as int, state, self@.risky_spot),
    {
        self.spots_with_risky_spot(m, index, state, self.risky_spot)
    }

    /// What is left of another spot after the claims, which stay as they are.
    pub fn risky_spot_at<M: Math<R>>(&self, m: &M, spot: R) -> (r: Result<R, MonteCarloError>)
        requires
            self@.valid(),
        ensures
            r == equity_left(m.model(), self@, spot),
    {
        m.laws();
        if !is_positive(m, spot) {
            return Err(invalid("gamma_shifted_spot"));
        }
        assert(self@.nodes[0] == self.nodes@[0]@);
        let claims = &self.nodes[0].claims;
        let mut reserve = R::from(0u32);
        let mut i: usize = 0;
        while i < claims.len()
            invariant
                lawful::<R>(),
                i <= claims@.len(),
                claims_within(claims@, self@.initial_claims.len()),
                reserve == reserve_of(claims@, self@.initial_claims, i as nat),
            decreases claims@.len() - i,
        {
            let claim = claims[i];
            assert(claims@[i as int].index < self@.initial_claims.len());
            reserve = reserve + claim.carry_weight * self.initial_claims[claim.index];
            i = i + 1;
        }
        let left = spot - reserve;
        if !is_positive(m, left) {
            return Err(invalid("funded_residual_equity"));
        }
        Ok(left)
    }

    /// The spots of a node where so much equity is left after the claims.
    pub fn spots_with_risky_spot<M: Math<R>>(
        &self,
        m: &M,
        index: usize,
        state: StochasticDividendHullWhiteState<R>,
        risky_spot: R,
    ) -> (r: Result<AffineSpot<R>, MonteCarloError>)
        ensures
            r == rate_spots(m.model(), self@.nodes, index as int, state, risky_spot),
    {
        m.laws();
        if index >= self.nodes.len() {
            return Err(invalid("time_node_index"));
        }
        assert(self@.nodes[index as int] == self.nodes@[index as int]@);
        let node = &self.nodes[index];
        let s = state;
        let residual = risky_spot * node.residual_growth * m.exp(
            s.integrated_rate_factor + node.half_integral_variance,
        ) * s.factors.equity;
        if !is_positive(m, residual) {
            return Err(invalid("residual_equity_state"));
        }
        let n = node.claims.len();
        let mut post = residual;
        let mut i: usize = 0;
        while i < n
            invariant
                lawful::<R>(),
                n == node.claims@.len(),
                index < self@.nodes.len(),
                node@ == self@.nodes[index as int],
                s == state,
                positive(m.model(), residual),
                residual == times(
                    times(
                        times(risky_spot, node.residual_growth),
                        m.model().exp(plus(s.integrated_rate_factor, node.half_integral_variance)),
                    ),
                    s.factors.equity,
                ),
                i <= n,
                claims_added(m.model(), node.claims@, s, residual, i as nat) == Ok::<
                    R,
                    MonteCarloError,
                >(post),
            decreases n - i,
        {
            proof {
                if claims_added(m.model(), node.claims@, s, residual, (i + 1) as nat) is Err {
                    claims_stop(
                        m.model(),
                        node.claims@,
                        s,
                        residual,
                        (i + 1) as nat,
                        n as nat,
                    );
                }
            }
            let claim = node.claims[i];
            let value = match claim.value(m, s) {
                Err(e) => return Err(e),
                Ok(v) => v,
            };
            post = post + claim.carry_weight * value;
            i = i + 1;
        }
        if !is_positive(m, post) {
            return Err(invalid("post_dividend_spot"));
        }
        match node.event_cash {
            None => Ok(AffineSpot { post, pre: None }),
            Some(mean) => {
                let pre = post + mean * s.factors.dividend;
                if !is_positive(m, pre) {
                    return Err(invalid("pre_dividend_spot"));
                }
                Ok(AffineSpot { post, pre: Some(pre) })
            },
        }
    }

    /// What a cash payment is worth at a node, before it is settled.
    pub fn dividend_claim_value<M: Math<R>>(
        &self,
        m: &M,
        node_index: usize,
        cash_index: usize,
        state: StochasticDividendHullWhiteState<R>,
    ) -> (r: Result<R, MonteCarloError>)
        requires
            self@.valid(),
        ensures
            r == cash_value(m.model(), self@, node_index as int, cash_index as int, state),
    {
        m.laws();
        if cash_index >= self.cash_times.len() {
            return Err(invalid("cash_index"));
        }
        let maturity = self.cash_times[cash_index];
        if node_index >= self.times.len() {
            return Err(invalid("time_node_index"));
        }
        let time = self.times[node_index];
        if time > maturity {
            return Ok(R::from(0u32));
        }
        if time == maturity {
            let value = self.cash_means[cash_index] * state.factors.dividend;
            if !is_nonnegative(m, value) {
                return Err(invalid("settled_cash"));
            }
            return Ok(value);
        }
        assert(self@.nodes.len() == self.nodes@.len());
        assert(self@.nodes[node_index as int] == self.nodes@[node_index as int]@);
        match find_claim(&self.nodes[node_index].claims, cash_index) {
            Some(claim) => claim.value(m, state),
            None => Err(invalid("cash_index")),
        }
    }
}

/// Claims with indices below `n`, whose reserve does not look at values from there on.
proof fn reserve_is_local<R: Scalar>(
    claims: Seq<CashClaim<R>>,
    values: Seq<R>,
    j: int,
    x: R,
    n: nat,
)
    requires
        n <= claims.len(),
        0 <= j < values.len(),
        forall|i: int| 0 <= i < claims.len() ==> (#[trigger] claims[i]).index < j,
    ensures
        reserve_of(claims, values.update(j, x), n) == reserve_of(claims, values, n),
    decreases n,
{
    if n > 0 {
        reserve_is_local(claims, values, j, x, (n - 1) as nat);
        assert(claims[n - 1].index < j);
    }
}

proof fn reserve_is_prefixed<R: Scalar>(
    claims: Seq<CashClaim<R>>,
    claim: CashClaim<R>,
    values: Seq<R>,
    n: nat,
)
    requires
        n <= claims.len(),
    ensures
        reserve_of(claims.push(claim), values, n) == reserve_of(claims, values, n),
    decreases n,
{
    if n > 0 {
        reserve_is_prefixed(claims, claim, values, (n - 1) as nat);
    }
}

proof fn first_reserve<R: Scalar, C: RateMarket<R>>(
    m: Model<R>,
    c: C,
    rates: RatesView<R>,
    x: CashInputs<R>,
    schedule: Seq<MixedEvent<R>>,
    t: R,
    repo: R,
    n: nat,
)
    requires
        n <= schedule.len() <= usize::MAX,
    ensures
        node_claims(m, c, rates, x, schedule, t, repo, true, n) matches Ok(w) ==> {
            &&& w.initial_claims.len() == schedule.len()
            &&& w.reserve == reserve_of(w.claims, w.initial_claims, w.claims.len())
            &&& forall|i: int| 0 <= i < w.claims.len() ==> (#[trigger] w.claims[i]).index < n
        },
    decreases n,
{
    if n > 0 {
        first_reserve(m, c, rates, x, schedule, t, repo, (n - 1) as nat);
        let before = node_claims(m, c, rates, x, schedule, t, repo, true, (n - 1) as nat);
        let after = node_claims(m, c, rates, x, schedule, t, repo, true, n);
        if after is Ok && !le(schedule[n - 1].ex_time, t) {
            let w = before->Ok_0;
            let v = after->Ok_0;
            let j = n - 1;
            let claim = claim_at(m, c, rates, x, schedule[j], j, t, repo)->Ok_0;
            let value = claim_value(m, claim, initial_state())->Ok_0;
            assert(claim.index == j);
            assert(v.claims == w.claims.push(claim));
            assert(v.initial_claims == w.initial_claims.update(j, value));
            reserve_is_local(w.claims, w.initial_claims, j, value, w.claims.len());
            reserve_is_prefixed(w.claims, claim, v.initial_claims, w.claims.len());
            assert(v.claims[v.claims.len() - 1] == claim);
        }
    }
}

/// Funding a path anew at its own spot leaves the residual equity as it is.
pub proof fn own_spot_funds_own_equity<R: Scalar, C: RateMarket<R>>(
    m: Model<R>,
    c: C,
    rates: RatesView<R>,
    x: CashInputs<R>,
    grid: Seq<R>,
)
    requires
        grid.len() > 0,
    ensures
        rate_path_of(m, c, rates, x, grid) matches Ok(p) ==> p.risky_spot == minus(
            c.spot_of(),
            initial_reserve(p),
        ),
{
    if let Ok(p) = rate_path_of(m, c, rates, x, grid) {
        let schedule = c.events_of();
        let f = later_node(m, c, rates, x, schedule, grid);
        gather_values(grid.len(), f);
        assert(f(0) == Ok::<RateNodeView<R>, MonteCarloError>(p.nodes[0]));
        let (a, b) = (grid.len() as int, schedule.len() as int);
        assert(b <= a * b) by (nonlinear_arith)
            requires
                a >= 1,
                b >= 0,
        ;
        let repo = c.repo_discount_of(grid[0])->Ok_0;
        first_reserve(m, c, rates, x, schedule, grid[0], repo, schedule.len());
    }
}

/// Every claim stays as it is when the spot moves: two accepted spots leave equities that
/// lie apart as they do, where no subtraction rounds.
pub proof fn equities_move_as_spots<R: Scalar>(
    value: spec_fn(R) -> real,
    m: Model<R>,
    p: RatePathView<R>,
    a: R,
    b: R,
)
    requires
        forall|x: R, y: R| #[trigger] value(minus(x, y)) == value(x) - value(y),
    ensures
        equity_left(m, p, a) is Ok && equity_left(m, p, b) is Ok ==> value(
            minus(equity_left(m, p, a)->Ok_0, equity_left(m, p, b)->Ok_0),
        ) == value(minus(a, b)),
{
}

proof fn first_values<R: Scalar, C: RateMarket<R>>(
    m: Model<R>,
    c: C,
    rates: RatesView<R>,
    x: CashInputs<R>,
    schedule: Seq<MixedEvent<R>>,
    t: R,
    repo: R,
    n: nat,
)
    requires
        n <= schedule.len() <= usize::MAX,
    ensures
        node_claims(m, c, rates, x, schedule, t, repo, true, n) matches Ok(w) ==> {
            &&& w.initial_claims.len() == schedule.len()
            &&& forall|i: int|
                0 <= i < w.claims.len() ==> (#[trigger] w.claims[i]).index < n && claim_value(
                    m,
                    w.claims[i],
                    initial_state(),
                ) == Ok::<R, MonteCarloError>(w.initial_claims[w.claims[i].index as int])
        },
    decreases n,
{
    if n > 0 {
        first_values(m, c, rates, x, schedule, t, repo, (n - 1) as nat);
        let before = node_claims(m, c, rates, x, schedule, t, repo, true, (n - 1) as nat);
        let after = node_claims(m, c, rates, x, schedule, t, repo, true, n);
        if after is Ok && !le(schedule[n - 1].ex_time, t) {
            let w = before->Ok_0;
            let v = after->Ok_0;
            let j = n - 1;
            let claim = claim_at(m, c, rates, x, schedule[j], j, t, repo)->Ok_0;
            let value = claim_value(m, claim, initial_state())->Ok_0;
            assert(v.claims == w.claims.push(claim));
            assert(v.initial_claims == w.initial_claims.update(j, value));
            assert forall|i: int| 0 <= i < v.claims.len() implies (#[trigger] v.claims[i]).index < n
                && claim_value(m, v.claims[i], initial_state()) == Ok::<R, MonteCarloError>(
                v.initial_claims[v.claims[i].index as int],
            ) by {
                if i < w.claims.len() {
                    assert(v.claims[i] == w.claims[i]);
                }
            }
        }
    }
}

/// What each claim at the first node is worth there is what the path says of it.
pub proof fn first_claims_are_valued<R: Scalar, C: RateMarket<R>>(
    m: Model<R>,
    c: C,
    rates: RatesView<R>,
    x: CashInputs<R>,
    grid: Seq<R>,
)
    requires
        grid.len() > 0,
    ensures
        rate_path_of(m, c, rates, x, grid) matches Ok(p) ==> forall|i: int|
            0 <= i < p.nodes[0].claims.len() ==> claim_value(
                m,
                #[trigger] p.nodes[0].claims[i],
                initial_state(),
            ) == Ok::<R, MonteCarloError>(p.initial_claims[p.nodes[0].claims[i].index as int]),
{
    if let Ok(p) = rate_path_of(m, c, rates, x, grid) {
        let schedule = c.events_of();
        let f = later_node(m, c, rates, x, schedule, grid);
        gather_values(grid.len(), f);
        assert(f(0) == Ok::<RateNodeView<R>, MonteCarloError>(p.nodes[0]));
        let (a, b) = (grid.len() as int, schedule.len() as int);
        assert(b <= a * b) by (nonlinear_arith)
            requires
                a >= 1,
                b >= 0,
        ;
        let repo = c.repo_discount_of(grid[0])->Ok_0;
        first_values(m, c, rates, x, schedule, grid[0], repo, schedule.len());
    }
}

proof fn no_cash_yet<R: Scalar, C: RateMarket<R>>(
    m: Model<R>,
    c: C,
    rates: RatesView<R>,
    x: CashInputs<R>,
    schedule: Seq<MixedEvent<R>>,
    t: R,
    repo: R,
    n: nat,
)
    requires
        forall|i: int| 0 <= i < n ==> !same((#[trigger] schedule[i]).ex_time, t),
    ensures
        node_claims(m, c, rates, x, schedule, t, repo, true, n) matches Ok(w)
            ==> w.event_cash is None,
    decreases n,
{
    if n > 0 {
        no_cash_yet(m, c, rates, x, schedule, t, repo, (n - 1) as nat);
        assert(!same(schedule[n - 1].ex_time, t));
    }
}

proof fn accepted_dividends<R: Scalar>(
    m: Model<R>,
    schedule: Seq<MixedEvent<R>>,
    grid: Seq<R>,
    i: int,
    j: int,
)
    requires
        schedule_error(m, schedule, grid, i) is None,
        0 <= i <= j < schedule.len(),
    ensures
        event_error(m, schedule[j], grid) is None,
    decreases j - i,
{
    if i < j {
        accepted_dividends(m, schedule, grid, i + 1, j);
    }
}

/// Adding the claims of the first node back to what they leave of a spot, one by one, is
/// exact.
pub open spec fn claims_add_back<R: Scalar>(p: RatePathView<R>, spot: R) -> bool {
    let claims = p.nodes[0].claims;
    let values = p.initial_claims;
    let reserve = initial_reserve(p);
    forall|n: nat|
        n < claims.len() ==> plus(
            minus(spot, minus(reserve, #[trigger] reserve_of(claims, values, n))),
            times(claims[n as int].carry_weight, values[claims[n as int].index as int]),
        ) == minus(spot, minus(reserve, reserve_of(claims, values, n + 1)))
}

proof fn added_back<R: Scalar>(m: Model<R>, p: RatePathView<R>, spot: R, n: nat)
    requires
        claims_add_back(p, spot),
        n <= p.nodes[0].claims.len(),
        forall|i: int|
            0 <= i < p.nodes[0].claims.len() ==> claim_value(
                m,
                #[trigger] p.nodes[0].claims[i],
                initial_state(),
            ) == Ok::<R, MonteCarloError>(p.initial_claims[p.nodes[0].claims[i].index as int]),
        minus(initial_reserve(p), literal(0)) == initial_reserve(p),
    ensures
        claims_added(
            m,
            p.nodes[0].claims,
            initial_state(),
            minus(spot, initial_reserve(p)),
            n,
        ) == Ok::<R, MonteCarloError>(
            minus(
                spot,
                minus(initial_reserve(p), reserve_of(p.nodes[0].claims, p.initial_claims, n)),
            ),
        ),
    decreases n,
{
    if n > 0 {
        added_back(m, p, spot, (n - 1) as nat);
        let claim = p.nodes[0].claims[n - 1];
        let sum = reserve_of(p.nodes[0].claims, p.initial_claims, (n - 1) as nat);
        assert(claim_value(m, claim, initial_state()) is Ok);
    }
}

/// At the valuation a path stands at the spot of its market: what is left after the claims
/// and the claims add up to it, where adding them back is exact, and no cash is paid.
pub proof fn first_spot_is_the_market_spot<R: Scalar, C: RateMarket<R>>(
    m: Model<R>,
    c: C,
    rates: RatesView<R>,
    x: CashInputs<R>,
    grid: Seq<R>,
)
    requires
        m.zeros_behave(),
        grid.len() > 0,
        grid[0] == literal::<R>(0),
        positive(m, c.spot_of()),
        c.discount_of(grid[0]) == Ok::<R, MonteCarloError>(literal(1)),
        c.repo_discount_of(grid[0]) == Ok::<R, MonteCarloError>(literal(1)),
        c.integrated_variance_of(rates, grid[0]) matches Ok(v) && is_zero(v),
    ensures
        rate_path_of(m, c, rates, x, grid) matches Ok(p) ==> claims_add_back(p, c.spot_of())
            ==> rate_spots(m, p.nodes, 0, initial_state(), p.risky_spot) == Ok::<
            AffineSpot<R>,
            MonteCarloError,
        >(AffineSpot { post: c.spot_of(), pre: None }),
{
    if let Ok(p) = rate_path_of(m, c, rates, x, grid) {
        if claims_add_back(p, c.spot_of()) {
            let schedule = c.events_of();
            let spot = c.spot_of();
            let f = later_node(m, c, rates, x, schedule, grid);
            gather_values(grid.len(), f);
            assert(f(0) == Ok::<RateNodeView<R>, MonteCarloError>(p.nodes[0]));
            assert forall|i: int| 0 <= i < schedule.len() implies !same(
                (#[trigger] schedule[i]).ex_time,
                grid[0],
            ) by {
                accepted_dividends(m, schedule, grid, 0, i);
                if same(schedule[i].ex_time, grid[0]) {
                    assert(is_zero(schedule[i].ex_time));
                }
            }
            no_cash_yet(m, c, rates, x, schedule, grid[0], literal(1), schedule.len());
            own_spot_funds_own_equity(m, c, rates, x, grid);
            first_claims_are_valued(m, c, rates, x, grid);
            let node = p.nodes[0];
            let reserve = initial_reserve(p);
            assert(m.is_finite(minus(spot, reserve)));
            assert(node.residual_growth == literal::<R>(1)) by {
                assert(over(literal::<R>(1), literal(1)) == literal::<R>(1));
            }
            assert(is_zero(node.half_integral_variance)) by {
                let v = c.integrated_variance_of(rates, grid[0])->Ok_0;
                assert(is_zero(times(over(literal::<R>(1), literal(2)), v)));
            }
            assert(is_zero(plus(literal::<R>(0), node.half_integral_variance)));
            added_back(m, p, spot, node.claims.len());
            assert(minus(reserve, reserve) == literal::<R>(0));
            assert(minus(spot, literal(0)) == spot);
        }
    }
}

proof fn claims_and_reserve<R: Scalar>(
    value: spec_fn(R) -> real,
    m: Model<R>,
    p: RatePathView<R>,
    base: R,
    n: nat,
)
    requires
        exact(value),
        n <= p.nodes[0].claims.len(),
        forall|i: int|
            0 <= i < p.nodes[0].claims.len() ==> claim_value(
                m,
                #[trigger] p.nodes[0].claims[i],
                initial_state(),
            ) == Ok::<R, MonteCarloError>(p.initial_claims[p.nodes[0].claims[i].index as int]),
    ensures
        claims_added(m, p.nodes[0].claims, initial_state(), base, n) matches Ok(post) && value(post)
            == value(base) + value(reserve_of(p.nodes[0].claims, p.initial_claims, n)),
    decreases n,
{
    if n > 0 {
        claims_and_reserve(value, m, p, base, (n - 1) as nat);
        assert(claim_value(m, p.nodes[0].claims[n - 1], initial_state()) is Ok);
    }
}

/// In exact arithmetic what is left after the claims at the valuation and the claims add up
/// to the spot of the market.
pub proof fn first_spot_is_rebuilt<R: Scalar, C: RateMarket<R>>(
    value: spec_fn(R) -> real,
    m: Model<R>,
    c: C,
    rates: RatesView<R>,
    x: CashInputs<R>,
    grid: Seq<R>,
)
    requires
        exact(value),
        grid.len() > 0,
    ensures
        rate_path_of(m, c, rates, x, grid) matches Ok(p) ==> (claims_added(
            m,
            p.nodes[0].claims,
            initial_state(),
            p.risky_spot,
            p.nodes[0].claims.len(),
        ) matches Ok(post) && value(post) == value(c.spot_of())),
{
    if let Ok(p) = rate_path_of(m, c, rates, x, grid) {
        own_spot_funds_own_equity(m, c, rates, x, grid);
        first_claims_are_valued(m, c, rates, x, grid);
        claims_and_reserve(value, m, p, p.risky_spot, p.nodes[0].claims.len());
    }
}

/// The states up to a node do not depend on the normals of later steps.
pub proof fn states_do_not_look_ahead<R: Scalar, Y: DividendDynamics<R>>(
    m: Model<R>,
    y: Y,
    p: RatePathView<R>,
    z: Seq<R>,
    w: Seq<R>,
    n: nat,
)
    requires
        forall|i: int| 0 <= i < n ==> #[trigger] chunk(z, 4, i) == chunk(w, 4, i),
    ensures
        rate_states(m, y, p, z, n) == rate_states(m, y, p, w, n),
    decreases n,
{
    if n > 0 {
        states_do_not_look_ahead(m, y, p, z, w, (n - 1) as nat);
        assert(chunk(z, 4, n - 1) == chunk(w, 4, n - 1));
    }
}

proof fn states_begin<R: Scalar, Y: DividendDynamics<R>>(
    m: Model<R>,
    y: Y,
    p: RatePathView<R>,
    z: Seq<R>,
    a: nat,
    n: nat,
)
    requires
        a <= n,
        rate_states(m, y, p, z, n) is Ok,
    ensures
        rate_states(m, y, p, z, n)->Ok_0.len() == n + 1,
        rate_states(m, y, p, z, a) == Ok::<
            Seq<StochasticDividendHullWhiteState<R>>,
            MonteCarloError,
        >(rate_states(m, y, p, z, n)->Ok_0.take(a as int + 1)),
    decreases n,
{
    let v = rate_states(m, y, p, z, n)->Ok_0;
    if a < n {
        states_begin(m, y, p, z, a, (n - 1) as nat);
        let u = rate_states(m, y, p, z, (n - 1) as nat)->Ok_0;
        assert(v.take(a as int + 1) == u.take(a as int + 1));
    } else {
        if n > 0 {
            states_begin(m, y, p, z, (n - 1) as nat, (n - 1) as nat);
        }
        assert(v.take(a as int + 1) == v);
    }
}

/// Two paths whose normals agree over the first `n` steps agree up to the node `n`.
pub proof fn paths_do_not_look_ahead<R: Scalar, Y: DividendDynamics<R>>(
    m: Model<R>,
    y: Y,
    p: RatePathView<R>,
    z: Seq<R>,
    w: Seq<R>,
    n: nat,
)
    requires
        p.valid(),
        n <= p.steps.len(),
        z.take(4 * n as int) == w.take(4 * n as int),
        rate_path_states(m, y, p, z) is Ok,
        rate_path_states(m, y, p, w) is Ok,
    ensures
        rate_path_states(m, y, p, z)->Ok_0.take(n as int + 1) == rate_path_states(
            m,
            y,
            p,
            w,
        )->Ok_0.take(n as int + 1),
{
    assert forall|i: int| 0 <= i < n implies #[trigger] chunk(z, 4, i) == chunk(w, 4, i) by {
        assert forall|k: int| 4 * i <= k < 4 * i + 4 implies z[k] == w[k] by {
            assert(z.take(4 * n as int)[k] == z[k]);
            assert(w.take(4 * n as int)[k] == w[k]);
        }
        assert(chunk(z, 4, i) =~= chunk(w, 4, i));
    }
    states_do_not_look_ahead(m, y, p, z, w, n);
    states_begin(m, y, p, z, n, p.steps.len());
    states_begin(m, y, p, w, n, p.steps.len());
}

/// A dividend that is past is worth nothing, and on its date it is the payment itself.
pub proof fn settled_claims<R: Scalar>(
    m: Model<R>,
    p: RatePathView<R>,
    node: int,
    cash: int,
    s: StochasticDividendHullWhiteState<R>,
)
    requires
        0 <= node < p.times.len(),
        0 <= cash < p.cash_times.len(),
    ensures
        gt(p.times[node], p.cash_times[cash]) ==> cash_value(m, p, node, cash, s) == Ok::<
            R,
            MonteCarloError,
        >(literal(0)),
        !gt(p.times[node], p.cash_times[cash]) && same(p.times[node], p.cash_times[cash])
            && cash_value(m, p, node, cash, s) is Ok ==> cash_value(m, p, node, cash, s) == Ok::<
            R,
            MonteCarloError,
        >(times(p.cash_means[cash], s.factors.dividend)),
{
}

} // verus!
