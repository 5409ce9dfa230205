//! Pricing of equity and stochastic dividends under stochastic rates.

use crate::affine::AffineSpot;
use crate::bergomi::{is_positive, positive};
use crate::compile_world::{CompileWorld, PlanRequest};
use crate::dividend_price::{price_job, priced_job, PathValue};
use crate::dynamics::DividendDynamics;
use crate::engine::{paths_fit, EngineConfig};
use crate::errors::{
    invalid, invalid_field, unsupported_feature, MonteCarloError, StochasticDividendError,
};
use crate::estimation::Job;
use crate::fingerprint::{all_le_bytes, blake3_digest, le_bytes, Message};
use crate::hw_cash::CashInputs;
use crate::hw_path::{
    rate_path_of, rate_path_states, rate_spots, RatePathView, StochasticDividendHullWhitePathPlan,
    StochasticDividendHullWhiteState, STOCHASTIC_DIVIDEND_HW_SCHEME,
};
use crate::hybrid_aad::append;
use crate::linear::{build, collect, viewed};
use crate::models::{BuehlerDividendModel, Fingerprint};
use crate::plan::{engine_paths, engine_units, StochasticDividendPrice};
use crate::rate_market::{MixedEvent, RateMarket};
use crate::rates::{b, decayed, HullWhite1Factor, RatesView};
use crate::results::{gather, seen};
use crate::scalar::{lawful, le, literal, lt, minus, negated, times, Math, Model, Scalar};
use crate::spot_payoff::SpotPayoff;
use core::ops::Neg;
use vstd::prelude::*;
use vstd::string::*;

verus! {

/// A compiled plan.
pub struct StochasticDividendHullWhitePricingPlan<R> {
    pub path: StochasticDividendHullWhitePathPlan<R>,
    pub job: Job,
    pub fingerprint: Fingerprint,
    /// The discount factor of the payment where the rate has not moved, relative to
    /// that of the curve.
    pub payment_constant: R,
    pub payment_duration: R,
    pub rates: HullWhite1Factor<R>,
    pub inputs: CashInputs<R>,
    pub payment_time: R,
    pub risk_supported: bool,
}

/// A [`StochasticDividendHullWhitePricingPlan`] as a mathematical value.
pub ghost struct RatePlanView<R> {
    pub path: RatePathView<R>,
    pub job: Job,
    pub fingerprint: Seq<u8>,
    pub payment_constant: R,
    pub payment_duration: R,
    pub rates: RatesView<R>,
    pub inputs: CashInputs<R>,
    pub payment_time: R,
    pub risk_supported: bool,
}

impl<R> View for StochasticDividendHullWhitePricingPlan<R> {
    type V = RatePlanView<R>;

    open spec fn view(&self) -> RatePlanView<R> {
        RatePlanView {
            path: self.path@,
            job: self.job,
            fingerprint: self.fingerprint.bytes@,
            payment_constant: self.payment_constant,
            payment_duration: self.payment_duration,
            rates: self.rates@,
            inputs: self.inputs,
            payment_time: self.payment_time,
            risk_supported: self.risk_supported,
        }
    }
}

impl<R: Scalar> RatePlanView<R> {
    /// The parts of the plan belong together.
    pub open spec fn valid(self) -> bool {
        &&& self.path.valid()
        &&& self.rates.valid()
        &&& self.job.valid()
        &&& self.job.factors == 4
        &&& self.job.dimension == self.path.dimension
        &&& self.inputs.dividends == self.path.model
        &&& self.inputs.sigma == self.path.volatility
    }
}

/// The times up to a time.
pub open spec fn until<R: Scalar>(v: Seq<R>, last: R) -> Seq<R>
    decreases v.len(),
{
    if v.len() == 0 {
        v
    } else {
        let before = until(v.drop_last(), last);
        if le(v.last(), last) {
            before.push(v.last())
        } else {
            before
        }
    }
}

/// Keeps the times up to a time.
pub fn keep_until<R: Scalar, M: Math<R>>(m: &M, v: &Vec<R>, last: R) -> (t: Vec<R>)
    ensures
        t@ == until(v@, last),
{
    m.laws();
    let mut t: Vec<R> = Vec::new();
    let mut i: usize = 0;
    assert(v@.take(0) =~= Seq::empty());
    while i < v.len()
        invariant
            lawful::<R>(),
            i <= v@.len(),
            t@ == until(v@.take(i as int), last),
        decreases v@.len() - i,
    {
        assert(v@.take(i + 1).drop_last() =~= v@.take(i as int));
        if v[i] <= last {
            t.push(v[i]);
        }
        i = i + 1;
    }
    assert(v@.take(i as int) =~= v@);
    t
}

/// The dates of dividends.
pub open spec fn ex_times<R>(events: Seq<MixedEvent<R>>) -> Seq<R> {
    Seq::new(events.len(), |i: int| events[i].ex_time)
}

/// The bits of numbers.
pub open spec fn bits_all<R: Scalar, Z: CompileWorld<R>>(w: Z, v: Seq<R>) -> Seq<u64> {
    Seq::new(v.len(), |i: int| w.bits_of(v[i]))
}

/// Appends the bits of numbers to a message.
pub(crate) fn push_numbers<R: Scalar, Z: CompileWorld<R>>(w: &Z, message: &mut Message, v: &Vec<R>)
    ensures
        final(message)@ == old(message)@ + all_le_bytes(bits_all(*w, v@)),
{
    let n = v.len();
    let ghost entry = |i: int| w.bits_of(v@[i]);
    let bits_at = |i: usize| -> (x: u64)
        requires
            i < n,
        ensures
            x == entry(i as int),
        { w.bits(v[i]) };
    let bits = build(
        n,
        bits_at,
        Ghost(entry),
    );
    assert(bits@ =~= bits_all(*w, v@));
    message.push_all(&bits);
}

/// The message that identifies a plan.
pub open spec fn rate_message<R: Scalar, Z: CompileWorld<R>>(
    w: Z,
    rates: RatesView<R>,
    x: CashInputs<R>,
    grid: Seq<R>,
    maximum_step: R,
    payment: R,
) -> Seq<u8> {
    STOCHASTIC_DIVIDEND_HW_SCHEME.spec_bytes()
        + "Q-mean-cash-adaptive-simpson-1e-12-1e-11-depth20-rank-major-v1".spec_bytes()
        + w.base_fingerprint_of().bytes@ + all_le_bytes(
        bits_all(
            w,
            seq![
                x.dividends.mean_reversion,
                x.dividends.equity_linkage,
                x.dividends.dividend_volatility,
                x.dividends.equity_dividend_correlation,
                rates.mean_reversion,
                x.rho_f,
                x.rho_d,
                maximum_step,
                payment,
            ],
        ),
    ) + le_bytes(rates.volatility_times.len() as u64) + all_le_bytes(
        bits_all(w, rates.volatility_times + rates.volatilities + grid),
    )
}

fn make_rate_message<R: Scalar, Z: CompileWorld<R>>(
    w: &Z,
    rates: &HullWhite1Factor<R>,
    x: CashInputs<R>,
    grid: &Vec<R>,
    maximum_step: R,
    payment: R,
) -> (message: Message)
    ensures
        message@ == rate_message(*w, rates@, x, grid@, maximum_step, payment),
{
    let mut message = Message::new();
    message.push_text(STOCHASTIC_DIVIDEND_HW_SCHEME);
    message.push_text("Q-mean-cash-adaptive-simpson-1e-12-1e-11-depth20-rank-major-v1");
    message.push_fingerprint(&w.base_fingerprint());
    let parameters: Vec<R> = vec![
        x.dividends.mean_reversion,
        x.dividends.equity_linkage,
        x.dividends.dividend_volatility,
        x.dividends.equity_dividend_correlation,
        rates.mean_reversion,
        x.rho_f,
        x.rho_d,
        maximum_step,
        payment,
    ];
    let ghost listed = seq![
        x.dividends.mean_reversion,
        x.dividends.equity_linkage,
        x.dividends.dividend_volatility,
        x.dividends.equity_dividend_correlation,
        rates@.mean_reversion,
        x.rho_f,
        x.rho_d,
        maximum_step,
        payment,
    ];
    assert(parameters@ =~= listed);
    push_numbers(w, &mut message, &parameters);
    message.push_u64(rates.volatility_times.len() as u64);
    let mut all: Vec<R> = Vec::new();
    append(&mut all, &rates.volatility_times);
    append(&mut all, &rates.volatilities);
    append(&mut all, grid);
    assert(all@ =~= rates@.volatility_times + rates@.volatilities + grid@);
    push_numbers(w, &mut message, &all);
    proof {
        assert(Seq::<u8>::empty() + STOCHASTIC_DIVIDEND_HW_SCHEME.spec_bytes()
            =~= STOCHASTIC_DIVIDEND_HW_SCHEME.spec_bytes());
    }
    message
}

/// Why a request is refused before anything is compiled.
pub open spec fn rate_refusal<R: Scalar>(q: PlanRequest<R>) -> Option<MonteCarloError> {
    if q.delta || q.gamma || q.vega || q.vega_kt {
        Some(unsupported_feature("HW stochastic-dividend Greeks; submit a price-only request"))
    } else if q.volatility is None {
        Some(unsupported_feature("stochastic residual volatility with stochastic-dividend HW"))
    } else if le(q.expiry, literal(0)) || lt(q.payment, q.expiry) {
        Some(invalid_field("positive_horizon_and_payment"))
    } else {
        None
    }
}

/// The times that the grid of a plan has to hold: those of the product, its expiry,
/// and those of the volatilities of the rate and of the dividends up to it.
pub open spec fn rate_times<R: Scalar>(
    observed: Seq<R>,
    expiry: R,
    knots: Seq<R>,
    events: Seq<MixedEvent<R>>,
) -> Seq<R> {
    observed.push(expiry) + until(knots, expiry) + until(ex_times(events), expiry)
}

/// The simulation of a plan.
pub open spec fn rate_job<R: Scalar, Z: CompileWorld<R>>(
    w: Z,
    q: PlanRequest<R>,
    dimension: u32,
    grid: Seq<R>,
) -> Job {
    Job {
        engine: q.engine,
        dimension,
        factors: 4,
        executor_failure: w.executor_failure_of(),
        quasi_failure: w.quasi_failure_of(dimension),
        bridge_failure: w.bridge_failure_of(grid),
    }
}

/// What a request compiles to on a grid.
pub open spec fn rate_plan_on<R: Scalar, Z: CompileWorld<R>, C: RateMarket<R>>(
    m: Model<R>,
    w: Z,
    c: C,
    q: PlanRequest<R>,
    rates: RatesView<R>,
    x: CashInputs<R>,
    maximum_step: R,
    grid: Seq<R>,
) -> Result<RatePlanView<R>, MonteCarloError> {
    match rate_path_of(m, c, rates, x, grid) {
        Err(e) => Err(e),
        Ok(path) => if q.engine is RandomizedQuasiMonteCarlo && w.quasi_failure_of(
            path.dimension,
        ) is Some {
            Err(w.quasi_failure_of(path.dimension)->0)
        } else {
            match w.relative_discount_of(rates, q.expiry, literal(0)) {
                Err(e) => Err(e),
                Ok(a) => match w.relative_bond_of(rates, q.expiry, q.payment, literal(0)) {
                    Err(e) => Err(e),
                    Ok(d) => if !positive(m, times(a, d)) {
                        Err(invalid_field("conditional_payment_discount"))
                    } else {
                        Ok(
                            RatePlanView {
                                path,
                                job: rate_job(w, q, path.dimension, grid),
                                fingerprint: blake3_digest(
                                    rate_message(w, rates, x, grid, maximum_step, q.payment),
                                ),
                                payment_constant: times(a, d),
                                payment_duration: decayed(
                                    m,
                                    rates.mean_reversion,
                                    minus(q.payment, q.expiry),
                                ),
                                rates,
                                inputs: x,
                                payment_time: q.payment,
                                risk_supported: q.pathwise || q.smoothed,
                            },
                        )
                    },
                },
            }
        },
    }
}

/// Equity and dividends beside rates, at the volatility of a request.
pub open spec fn rate_inputs<R: Scalar>(
    q: PlanRequest<R>,
    model: BuehlerDividendModel<R>,
    rho_f: R,
    rho_d: R,
) -> CashInputs<R> {
    CashInputs { dividends: model, sigma: q.volatility->0, rho_f, rho_d }
}

/// What a request compiles to.
pub open spec fn rate_plan_of<R: Scalar, Z: CompileWorld<R>, C: RateMarket<R>>(
    m: Model<R>,
    w: Z,
    c: C,
    q: PlanRequest<R>,
    model: BuehlerDividendModel<R>,
    rates: RatesView<R>,
    rho_f: R,
    rho_d: R,
    maximum_step: R,
) -> Result<RatePlanView<R>, MonteCarloError> {
    match rate_refusal(q) {
        Some(e) => Err(e),
        None => match w.observation_times_of() {
            Err(e) => Err(e),
            Ok(observed) => match w.grid_of(
                rate_times(observed, q.expiry, rates.volatility_times, c.events_of()),
                maximum_step,
            ) {
                Err(e) => Err(e),
                Ok(grid) => rate_plan_on(
                    m,
                    w,
                    c,
                    q,
                    rates,
                    rate_inputs(q, model, rho_f, rho_d),
                    maximum_step,
                    grid,
                ),
            },
        },
    }
}

impl<R: Scalar> StochasticDividendHullWhitePricingPlan<R> {
    fn compile_on<M: Math<R>, Z: CompileWorld<R>, C: RateMarket<R>>(
        m: &M,
        w: &Z,
        c: &C,
        q: PlanRequest<R>,
        rates: HullWhite1Factor<R>,
        x: CashInputs<R>,
        maximum_step: R,
        grid: Vec<R>,
    ) -> (r: Result<Self, MonteCarloError>)
        requires
            rates@.valid(),
            grid@.len() > 0,
            u32::MAX + 4 <= usize::MAX,
        ensures
            viewed(r) == rate_plan_on(m.model(), *w, *c, q, rates@, x, maximum_step, grid@),
            r matches Ok(p) ==> p@.valid(),
    {
        m.laws();
        let bridge_failure = w.bridge_failure(&grid);
        let message = make_rate_message(w, &rates, x, &grid, maximum_step, q.payment);
        let path = match StochasticDividendHullWhitePathPlan::compile_bs(m, c, &rates, x, grid) {
            Err(e) => return Err(e),
            Ok(p) => p,
        };
        let dimension = path.dimension;
        let quasi_failure = w.quasi_failure(dimension);
        match q.engine {
            EngineConfig::PseudoMonteCarlo(_) => {},
            EngineConfig::RandomizedQuasiMonteCarlo(_) => {
                if let Some(e) = quasi_failure {
                    return Err(e);
                }
            },
        }
        let zero = R::from(0u32);
        let a = match w.relative_discount(&rates, q.expiry, zero) {
            Err(e) => return Err(e),
            Ok(v) => v,
        };
        let d = match w.relative_bond(&rates, q.expiry, q.payment, zero) {
            Err(e) => return Err(e),
            Ok(v) => v,
        };
        let payment_constant = a * d;
        if !is_positive(m, payment_constant) {
            return Err(invalid("conditional_payment_discount"));
        }
        let payment_duration = b(m, rates.mean_reversion, q.payment - q.expiry);
        let job = Job {
            engine: q.engine,
            dimension,
            factors: 4,
            executor_failure: w.executor_failure(),
            quasi_failure,
            bridge_failure,
        };
        Ok(
            StochasticDividendHullWhitePricingPlan {
                path,
                job,
                fingerprint: message.fingerprint(),
                payment_constant,
                payment_duration,
                rates,
                inputs: x,
                payment_time: q.payment,
                risk_supported: q.pathwise || q.smoothed,
            },
        )
    }

    /// Compiles a request. Its volatility is that of the equity that is left after
    /// the claims, and the cash of its schedule is a mean.
    pub fn compile_bs<M: Math<R>, Z: CompileWorld<R>, C: RateMarket<R>>(
        m: &M,
        w: &Z,
        c: &C,
        q: PlanRequest<R>,
        model: BuehlerDividendModel<R>,
        rates: HullWhite1Factor<R>,
        equity_rate_correlation: R,
        dividend_rate_correlation: R,
        maximum_step: R,
    ) -> (r: Result<Self, MonteCarloError>)
        requires
            rates@.valid(),
            u32::MAX + 4 <= usize::MAX,
        ensures
            viewed(r) == rate_plan_of(
                m.model(),
                *w,
                *c,
                q,
                model,
                rates@,
                equity_rate_correlation,
                dividend_rate_correlation,
                maximum_step,
            ),
            r matches Ok(p) ==> p@.valid(),
    {
        m.laws();
        if q.delta || q.gamma || q.vega || q.vega_kt {
            return Err(
                MonteCarloError::StochasticDividend(
                    StochasticDividendError::Unsupported {
                        feature: "HW stochastic-dividend Greeks; submit a price-only request",
                    },
                ),
            );
        }
        let sigma = match q.volatility {
            None => {
                return Err(
                    MonteCarloError::StochasticDividend(
                        StochasticDividendError::Unsupported {
                            feature: "stochastic residual volatility with stochastic-dividend HW",
                        },
                    ),
                );
            },
            Some(v) => v,
        };
        if q.expiry <= R::from(0u32) || q.payment < q.expiry {
            return Err(invalid("positive_horizon_and_payment"));
        }
        let observed = match w.observation_times() {
            Err(e) => return Err(e),
            Ok(v) => v,
        };
        let events = c.events();
        let mut required = observed;
        required.push(q.expiry);
        let knots = keep_until(m, &rates.volatility_times, q.expiry);
        append(&mut required, &knots);
        let n = events.len();
        let ghost date = |i: int| events@[i].ex_time;
        let dates_at = |i: usize| -> (y: R)
            requires
                i < n,
            ensures
                y == date(i as int),
            { events[i].ex_time };
        let dates = build(
            n,
            dates_at,
            Ghost(date),
        );
        assert(dates@ =~= ex_times(events@));
        let dates = keep_until(m, &dates, q.expiry);
        append(&mut required, &dates);
        let grid = match w.grid(&required, maximum_step) {
            Err(e) => return Err(e),
            Ok(v) => v,
        };
        let x = CashInputs {
            dividends: model,
            sigma,
            rho_f: equity_rate_correlation,
            rho_d: dividend_rate_correlation,
        };
        Self::compile_on(m, w, c, q, rates, x, maximum_step, grid)
    }
}

/// The spots of a path.
pub open spec fn rate_path_spots<R: Scalar>(
    m: Model<R>,
    path: RatePathView<R>,
    states: Seq<StochasticDividendHullWhiteState<R>>,
) -> Result<Seq<AffineSpot<R>>, MonteCarloError> {
    gather(
        states.len(),
        |i: int| rate_spots(m, path.nodes, i, states[i], path.risky_spot),
    )
}

/// Takes the spots of a path.
pub fn take_path_spots<R: Scalar, M: Math<R>>(
    m: &M,
    path: &StochasticDividendHullWhitePathPlan<R>,
    states: &Vec<StochasticDividendHullWhiteState<R>>,
) -> (r: Result<Vec<AffineSpot<R>>, MonteCarloError>)
    ensures
        seen(r) == rate_path_spots(m.model(), path@, states@),
        r matches Ok(v) ==> v@.len() == states@.len(),
{
    let n = states.len();
    let ghost spot = |i: int|
        rate_spots(m.model(), path@.nodes, i, states@[i], path@.risky_spot);
    let f_at = |i: usize| -> (x: Result<AffineSpot<R>, MonteCarloError>)
        requires
            i < n,
        ensures
            x == spot(i as int),
        { path.spots(m, i, states[i]) };
    collect(
        n,
        f_at,
        Ghost(spot),
    )
}

/// The discount factor of the payment at the end of a path, relative to that of the
/// curve. The rate after the expiry is integrated out.
pub open spec fn payment_factor<R: Scalar>(
    m: Model<R>,
    constant: R,
    duration: R,
    s: StochasticDividendHullWhiteState<R>,
) -> Result<R, MonteCarloError> {
    let relative = times(
        constant,
        m.exp(minus(negated(s.integrated_rate_factor), times(duration, s.rate_factor))),
    );
    if positive(m, relative) {
        Ok(relative)
    } else {
        Err(invalid_field("relative_payment_discount"))
    }
}

/// Computes [`payment_factor`].
pub fn take_payment_factor<R: Scalar, M: Math<R>>(
    m: &M,
    constant: R,
    duration: R,
    s: StochasticDividendHullWhiteState<R>,
) -> (r: Result<R, MonteCarloError>)
    ensures
        r == payment_factor(m.model(), constant, duration, s),
{
    m.laws();
    let relative = constant * m.exp(s.integrated_rate_factor.neg() - duration * s.rate_factor);
    if !is_positive(m, relative) {
        return Err(invalid("relative_payment_discount"));
    }
    Ok(relative)
}

/// What a path is worth under shocks: its payoff times the discount factor of its
/// payment.
pub open spec fn rate_value<R: Scalar, Y: DividendDynamics<R>, W: SpotPayoff<R>>(
    m: Model<R>,
    y: Y,
    w: W,
    p: RatePlanView<R>,
) -> spec_fn(Seq<R>) -> Result<R, MonteCarloError> {
    |shocks: Seq<R>|
        match rate_path_states(m, y, p.path, shocks) {
            Err(e) => Err(e),
            Ok(states) => match rate_path_spots(m, p.path, states) {
                Err(e) => Err(e),
                Ok(spots) => match payment_factor(
                    m,
                    p.payment_constant,
                    p.payment_duration,
                    states.last(),
                ) {
                    Err(e) => Err(e),
                    Ok(relative) => match w.payoff_of(p.path.times, spots) {
                        Err(e) => Err(e),
                        Ok(payoff) => Ok(times(relative, payoff)),
                    },
                },
            },
        }
}

struct RateValue<'a, R: Scalar, M: Math<R>, Y: DividendDynamics<R>, W: SpotPayoff<R>> {
    m: &'a M,
    y: &'a Y,
    w: &'a W,
    plan: &'a StochasticDividendHullWhitePricingPlan<R>,
}

impl<'a, R: Scalar, M: Math<R>, Y: DividendDynamics<R>, W: SpotPayoff<R>> RateValue<
    'a,
    R,
    M,
    Y,
    W,
> {
    #[verifier::type_invariant]
    spec fn inv(self) -> bool {
        self.plan@.valid()
    }
}

impl<'a, R: Scalar, M: Math<R>, Y: DividendDynamics<R>, W: SpotPayoff<R>> PathValue<
    R,
> for RateValue<'a, R, M, Y, W> {
    closed spec fn value_of(&self) -> spec_fn(Seq<R>) -> Result<R, MonteCarloError> {
        rate_value(self.m.model(), *self.y, *self.w, self.plan@)
    }

    fn value(&self, shocks: &Vec<R>) -> (r: Result<R, MonteCarloError>) {
        proof {
            use_type_invariant(self);
        }
        self.m.laws();
        let states = match self.plan.path.evolve_path(self.m, self.y, shocks) {
            Err(e) => return Err(e),
            Ok(v) => v,
        };
        let spots = match take_path_spots(self.m, &self.plan.path, &states) {
            Err(e) => return Err(e),
            Ok(v) => v,
        };
        let last = states[states.len() - 1];
        let relative = match take_payment_factor(
            self.m,
            self.plan.payment_constant,
            self.plan.payment_duration,
            last,
        ) {
            Err(e) => return Err(e),
            Ok(v) => v,
        };
        match self.w.payoff(&self.plan.path.times, &spots) {
            Err(e) => Err(e),
            Ok(payoff) => Ok(relative * payoff),
        }
    }
}

/// The price of a plan with the given value and standard error.
pub open spec fn rate_price<R>(
    plan: StochasticDividendHullWhitePricingPlan<R>,
    value: R,
    standard_error: R,
) -> StochasticDividendPrice<R> {
    StochasticDividendPrice {
        value,
        standard_error,
        independent_sampling_units: plan.job.engine.units(),
        evaluated_paths: plan.job.engine.paths() as u128,
        plan_fingerprint: plan.fingerprint,
        scheme: STOCHASTIC_DIVIDEND_HW_SCHEME,
    }
}

impl<R: Scalar> StochasticDividendHullWhitePricingPlan<R> {
    /// Labels a value and its standard error as the price of the plan.
    pub(crate) fn price(&self, value: R, standard_error: R) -> (p: StochasticDividendPrice<R>)
        ensures
            p == rate_price(*self, value, standard_error),
    {
        proof {
            paths_fit(self.job.engine);
        }
        StochasticDividendPrice {
            value,
            standard_error,
            independent_sampling_units: engine_units(&self.job.engine),
            evaluated_paths: engine_paths(&self.job.engine),
            plan_fingerprint: self.fingerprint,
            scheme: STOCHASTIC_DIVIDEND_HW_SCHEME,
        }
    }

    /// Prices the plan.
    pub fn evaluate<M: Math<R>, B: crate::sampling::Backend<R>, Y: DividendDynamics<R>, W: SpotPayoff<R>>(
        &self,
        m: &M,
        b: &B,
        y: &Y,
        w: &W,
    ) -> (r: Result<StochasticDividendPrice<R>, MonteCarloError>)
        requires
            self@.valid(),
        ensures
            r == (match priced_job(
                m.model(),
                *b,
                rate_value(m.model(), *y, *w, self@),
                self.job,
            ) {
                Err(e) => Err(e),
                Ok((value, error)) => Ok(rate_price(*self, value, error)),
            }),
    {
        let v = RateValue { m, y, w, plan: self };
        match price_job(m, b, &v, &self.job) {
            Err(e) => Err(e),
            Ok((value, error)) => Ok(self.price(value, error)),
        }
    }

    /// The digest of everything that determines the plan.
    pub fn plan_fingerprint(&self) -> (f: Fingerprint)
        ensures
            f == self.fingerprint,
    {
        self.fingerprint
    }

    /// The times of the nodes.
    pub fn time_nodes(&self) -> (v: &Vec<R>)
        ensures
            v@ == self@.path.times,
    {
        self.path.times()
    }

    /// The number of random factors.
    pub fn random_factor_count(&self) -> (n: usize)
        ensures
            n == 4,
    {
        4
    }

    /// The spot less what the claims reserve.
    pub fn risky_spot(&self) -> (x: R)
        ensures
            x == self@.path.risky_spot,
    {
        self.path.risky_spot()
    }

    /// The name of the scheme.
    pub fn scheme(&self) -> (s: &'static str)
        ensures
            s == STOCHASTIC_DIVIDEND_HW_SCHEME,
    {
        STOCHASTIC_DIVIDEND_HW_SCHEME
    }

    /// The dates of the cash payments.
    pub fn cash_times(&self) -> (v: &Vec<R>)
        ensures
            v@ == self@.path.cash_times,
    {
        self.path.cash_times()
    }

    /// What each cash payment is worth at first.
    pub fn initial_dividend_claim_values(&self) -> (v: &Vec<R>)
        ensures
            v@ == self@.path.initial_claims,
    {
        self.path.initial_dividend_claim_values()
    }

    /// What each cash payment is worth at first, forward to its date.
    pub fn initial_dividend_forwards(&self) -> (v: &Vec<R>)
        ensures
            v@ == self@.path.initial_forwards,
    {
        self.path.initial_dividend_forwards()
    }
}

} // verus!
