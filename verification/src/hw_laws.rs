//! What stochastic rates do to a price: rates that do not move leave it as it is, and what
//! the rate accrues up to the expiry and from there to the payment is discounted.

use crate::affine::AffineSpot;
use crate::compile_world::{CompileWorld, PlanRequest};
use crate::dividend_price::priced_job;
use crate::dynamics::DividendDynamics;
use crate::factor_laws::{decays_integrate_exponentials, exponentials_less_one, sees_nothing};
use crate::hw_cash::CashInputs;
use crate::hw_path::{rate_path_states, rate_states, RatePathView, StochasticDividendHullWhiteState};
use crate::hw_plan::{payment_factor, rate_plan_on, rate_value, RatePlanView};
use crate::linear::{chunk, dot};
use crate::local_vol_laws::cancelled;
use crate::rate_market::RateMarket;
use crate::rates::{decayed, RatesView};
use crate::sampling::Backend;
use crate::scalar::{exact, literal, minus, negated, plus, times, Model, Scalar};
use crate::simulation_laws::{a_fixed_payoff_is_its_price, adds_up, counts, draw_count};
use crate::spot_payoff::SpotPayoff;
use crate::sweep_laws::{negates, regroups};
use vstd::prelude::*;

verus! {

/// Exponentials are exact: of equal numbers they are equal, of nothing one, of a sum the
/// product, and never nothing.
pub open spec fn exponentials<R: Scalar>(m: Model<R>, value: spec_fn(R) -> real) -> bool {
    &&& forall|x: R, y: R|
        value(x) == value(y) ==> #[trigger] value(m.exp(x)) == #[trigger] value(m.exp(y))
    &&& forall|x: R| value(x) == 0 as real ==> #[trigger] value(m.exp(x)) == 1 as real
    &&& forall|x: R, y: R|
        #[trigger] value(m.exp(plus(x, y))) == value(m.exp(x)) * value(m.exp(y))
    &&& forall|x: R| #[trigger] value(m.exp(x)) > 0 as real
}

/// What the rate of a state has accrued and will accrue up to the payment.
pub open spec fn accrued<R: Scalar>(
    value: spec_fn(R) -> real,
    duration: R,
    s: StochasticDividendHullWhiteState<R>,
) -> real {
    value(s.integrated_rate_factor) + value(duration) * value(s.rate_factor)
}

/// The payment of a state that accrues nothing is discounted by the constant of the plan
/// alone: its rates have not moved, or what they accrued they give back.
pub proof fn rates_that_accrue_nothing_discount_nothing<R: Scalar>(
    value: spec_fn(R) -> real,
    m: Model<R>,
    constant: R,
    duration: R,
    s: StochasticDividendHullWhiteState<R>,
)
    requires
        exact(value),
        exponentials(m, value),
        accrued(value, duration, s) == 0 as real,
    ensures
        payment_factor(m, constant, duration, s) matches Ok(f) ==> value(f) == value(constant),
{
    let x = minus(negated(s.integrated_rate_factor), times(duration, s.rate_factor));
    assert(value(negated(s.integrated_rate_factor)) == -value(s.integrated_rate_factor));
    assert(value(times(duration, s.rate_factor)) == value(duration) * value(s.rate_factor));
    assert(value(x) == 0 as real);
    let c = value(constant);
    assert(c * (1 as real) == c) by (nonlinear_arith);
}

/// A state that has accrued more than another by some number has its payment discounted by
/// the exponential of that number more.
pub proof fn accrued_rates_are_discounted<R: Scalar>(
    value: spec_fn(R) -> real,
    m: Model<R>,
    constant: R,
    duration: R,
    s: StochasticDividendHullWhiteState<R>,
    t: StochasticDividendHullWhiteState<R>,
    more: R,
)
    requires
        exact(value),
        exponentials(m, value),
        accrued(value, duration, t) == accrued(value, duration, s) + value(more),
    ensures
        payment_factor(m, constant, duration, s) is Ok && payment_factor(
            m,
            constant,
            duration,
            t,
        ) is Ok ==> value(payment_factor(m, constant, duration, s)->Ok_0) == value(
            payment_factor(m, constant, duration, t)->Ok_0,
        ) * value(m.exp(more)),
{
    let x = minus(negated(s.integrated_rate_factor), times(duration, s.rate_factor));
    let y = minus(negated(t.integrated_rate_factor), times(duration, t.rate_factor));
    assert(value(negated(s.integrated_rate_factor)) == -value(s.integrated_rate_factor));
    assert(value(negated(t.integrated_rate_factor)) == -value(t.integrated_rate_factor));
    assert(value(times(duration, s.rate_factor)) == value(duration) * value(s.rate_factor));
    assert(value(times(duration, t.rate_factor)) == value(duration) * value(t.rate_factor));
    assert(value(plus(y, more)) == value(x));
    assert(value(m.exp(x)) == value(m.exp(plus(y, more))));
    let (c, a, b) = (value(constant), value(m.exp(y)), value(m.exp(more)));
    assert(c * (a * b) == (c * a) * b) by (nonlinear_arith);
}

/// A row that moves nothing.
pub open spec fn still<R>(value: spec_fn(R) -> real, row: Seq<R>) -> bool {
    forall|i: int| 0 <= i < row.len() ==> value(#[trigger] row[i]) == 0 as real
}

proof fn still_rows_add_nothing<R: Scalar>(value: spec_fn(R) -> real, row: Seq<R>, z: Seq<R>)
    requires
        exact(value),
        still(value, row),
    ensures
        value(dot(row, z)) == 0 as real,
    decreases row.len(),
{
    if row.len() > 0 {
        let rest = row.drop_last();
        assert forall|i: int| 0 <= i < rest.len() implies value(#[trigger] rest[i])
            == 0 as real by {
            assert(rest[i] == row[i]);
        }
        still_rows_add_nothing(value, rest, z);
        assert(value(row[row.len() - 1]) == 0 as real);
        let x = value(z[row.len() - 1]);
        assert((0 as real) * x == 0 as real) by (nonlinear_arith);
    }
}

/// No step of a path moves the rate.
pub open spec fn rates_stand_still<R>(value: spec_fn(R) -> real, p: RatePathView<R>) -> bool {
    forall|i: int|
        0 <= i < p.steps.len() ==> still(value, (#[trigger] p.steps[i]).noise[2]) && still(
            value,
            p.steps[i].noise[3],
        )
}

/// Rates that no step moves stay where they start, at nothing.
pub proof fn still_rates_stay<R: Scalar, Y: DividendDynamics<R>>(
    value: spec_fn(R) -> real,
    m: Model<R>,
    y: Y,
    p: RatePathView<R>,
    z: Seq<R>,
    n: nat,
)
    requires
        exact(value),
        rates_stand_still(value, p),
        n <= p.steps.len(),
    ensures
        rate_states(m, y, p, z, n) matches Ok(states) ==> states.len() == n + 1 && value(
            states.last().rate_factor,
        ) == 0 as real && value(states.last().integrated_rate_factor) == 0 as real,
    decreases n,
{
    if n > 0 {
        still_rates_stay(value, m, y, p, z, (n - 1) as nat);
        if let Ok(states) = rate_states(m, y, p, z, n) {
            let before = rate_states(m, y, p, z, (n - 1) as nat)->Ok_0;
            let s = before.last();
            let step = p.steps[n - 1];
            let c = chunk(z, 4, n - 1);
            still_rows_add_nothing(value, step.noise[2], c);
            still_rows_add_nothing(value, step.noise[3], c);
            let (d, i) = (value(step.decay), value(step.integral_loading));
            assert(d * (0 as real) == 0 as real && i * (0 as real) == 0 as real)
                by (nonlinear_arith);
            assert(value(times(step.decay, s.rate_factor)) == 0 as real);
            assert(value(times(step.integral_loading, s.rate_factor)) == 0 as real);
            let carried = times(step.integral_loading, s.rate_factor);
            assert(value(plus(s.integrated_rate_factor, carried)) == 0 as real);
        }
    }
}

/// With rates that do not move a path is worth its payoff times the constant of its plan, and
/// so its payoff itself where that is one, as under deterministic rates.
pub proof fn still_rates_leave_a_payoff<R: Scalar, Y: DividendDynamics<R>, W: SpotPayoff<R>>(
    value: spec_fn(R) -> real,
    m: Model<R>,
    y: Y,
    w: W,
    p: RatePlanView<R>,
    shocks: Seq<R>,
    x: real,
)
    requires
        exact(value),
        exponentials(m, value),
        rates_stand_still(value, p.path),
        forall|spots: Seq<AffineSpot<R>>|
            #[trigger] w.payoff_of(p.path.times, spots) matches Ok(v) ==> value(v) == x,
    ensures
        rate_value(m, y, w, p)(shocks) matches Ok(v) ==> value(v) == value(p.payment_constant) * x,
{
    if let Ok(v) = rate_value(m, y, w, p)(shocks) {
        still_rates_stay(value, m, y, p.path, shocks, p.path.steps.len());
        let states = rate_path_states(m, y, p.path, shocks)->Ok_0;
        let s = states.last();
        let d = value(p.payment_duration);
        assert(d * (0 as real) == 0 as real) by (nonlinear_arith);
        rates_that_accrue_nothing_discount_nothing(
            value,
            m,
            p.payment_constant,
            p.payment_duration,
            s,
        );
    }
}

/// With rates that do not move and a constant of one, a payoff that is the same number on
/// every path is its own price.
pub proof fn a_fixed_payoff_is_its_price_under_still_rates<
    R: Scalar,
    B: Backend<R>,
    Y: DividendDynamics<R>,
    W: SpotPayoff<R>,
>(value: spec_fn(R) -> real, m: Model<R>, b: B, y: Y, w: W, p: RatePlanView<R>, x: real)
    requires
        counts(m, value),
        exponentials(m, value),
        adds_up(value, b),
        draw_count(p.job.engine) > 0,
        rates_stand_still(value, p.path),
        value(p.payment_constant) == 1 as real,
        forall|spots: Seq<AffineSpot<R>>|
            #[trigger] w.payoff_of(p.path.times, spots) matches Ok(v) ==> value(v) == x,
    ensures
        priced_job(m, b, rate_value(m, y, w, p), p.job) matches Ok((price, _)) ==> value(price)
            == x,
{
    let f = rate_value(m, y, w, p);
    assert forall|z: Seq<R>| #[trigger] f(z) matches Ok(v) ==> value(v) == x by {
        still_rates_leave_a_payoff(value, m, y, w, p, z, x);
        assert((1 as real) * x == x) by (nonlinear_arith);
    }
    a_fixed_payoff_is_its_price(value, m, b, f, p.job, x);
}

/// The constant of a plan is what it discounts its payment by where the rates have not moved:
/// up to the expiry, and from there to the payment. The plan simulates its own path, on the
/// engine that was asked for.
pub proof fn plans_discount_up_to_the_payment<R: Scalar, Z: CompileWorld<R>, C: RateMarket<R>>(
    value: spec_fn(R) -> real,
    m: Model<R>,
    w: Z,
    c: C,
    q: PlanRequest<R>,
    rates: RatesView<R>,
    x: CashInputs<R>,
    maximum_step: R,
    grid: Seq<R>,
    before: real,
    after: real,
)
    requires
        exact(value),
        w.relative_discount_of(rates, q.expiry, literal(0)) matches Ok(a) ==> value(a) == before,
        w.relative_bond_of(rates, q.expiry, q.payment, literal(0)) matches Ok(d) ==> value(d)
            == after,
    ensures
        rate_plan_on(m, w, c, q, rates, x, maximum_step, grid) matches Ok(p) ==> {
            &&& value(p.payment_constant) == before * after
            &&& p.job.engine == q.engine
            &&& p.job.dimension == p.path.dimension
            &&& p.payment_time == q.payment
            &&& p.rates == rates
            &&& p.inputs == x
        },
{
}

/// A payment at the expiry of its plan has no duration: the rate accrues nothing beyond it.
pub proof fn a_payment_at_expiry_has_no_duration<
    R: Scalar,
    Z: CompileWorld<R>,
    C: RateMarket<R>,
>(
    value: spec_fn(R) -> real,
    m: Model<R>,
    w: Z,
    c: C,
    q: PlanRequest<R>,
    rates: RatesView<R>,
    x: CashInputs<R>,
    maximum_step: R,
    grid: Seq<R>,
)
    requires
        exact(value),
        sees_nothing(value),
        exponentials(m, value),
        exponentials_less_one(m, value),
        value(q.payment) == value(q.expiry),
    ensures
        rate_plan_on(m, w, c, q, rates, x, maximum_step, grid) matches Ok(p) ==> value(
            p.payment_duration,
        ) == 0 as real,
{
    let h = minus(q.payment, q.expiry);
    let a = rates.mean_reversion;
    decays_integrate_exponentials(value, m, a, h);
    let (k, y) = (value(a), value(decayed(m, a, h)));
    negates(-k, 0 as real);
    negates(k, 0 as real);
    regroups(k, y, 1 as real);
    assert(value(times(negated(a), h)) == 0 as real);
    if k != 0 as real {
        cancelled(y, 0 as real, k);
    }
}

} // verus!
