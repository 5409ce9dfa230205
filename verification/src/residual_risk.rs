//! The market risk of a residual-equity leverage plan. A calibration depends on the
//! residual equity only through its ratio to where it starts, so the spot and the
//! market move the coefficients of the nodes and leave the normalised states as they
//! are.

use crate::dividend_gamma::{
    gamma_at, gamma_evaluated, gamma_finish, gamma_terms, ladder, residual_fields, scenario_of,
    spot_adjoint, spot_adjoint_of, spot_ready, ScenarioView,
};
use crate::dividend_price::{plan_spots, read_spots};
use crate::dynamics::DividendDynamics;
use crate::errors::{invalid, invalid_field, unsupported_risk, MonteCarloError};
use crate::estimation::{estimate, estimated, simulate, simulated};
use crate::extension::{begins, estimates_are_their_own, longer_simulation_keeps_statistics};
use crate::hybrid_aad::{append, taken};
use crate::linear::{basis_point, build, viewed};
use crate::market::CarryMarket;
use crate::plan::{
    engine_units, price_of, StochasticDividendPrice, StochasticDividendPricingPlan,
};
use crate::plan_world::PlanWorld;
use crate::residual_world::ResidualWorld;
use crate::results::{gather, gather_values};
use crate::reverse::{
    context_of, market_pullback_of, ContextView, DividendPath, ReverseContext,
};
use crate::sampling::{as_they_are, Backend, Contribution, Quantities};
use crate::scalar::{negated, times, Math, Model, Scalar};
use crate::simulation::{resolved_bump, SpotBump};
use core::ops::Neg;
use vstd::prelude::*;

verus! {

/// The derivative with respect to the spot. The leverage surface moves with the
/// residual equity that the spot funds.
#[derive(Clone, Copy, Debug, PartialEq)]
pub struct StochasticDividendLsvSpotRisk<R> {
    pub price: StochasticDividendPrice<R>,
    pub delta: R,
    pub delta_standard_error: R,
    pub method: &'static str,
}

/// Why the anchor of a leverage surface is refused.
pub open spec fn anchor_refusal<R: Scalar, W: PlanWorld<R>, V: ResidualWorld<R>>(
    w: W,
    v: V,
    missing: &'static str,
    field: &'static str,
) -> Option<MonteCarloError> {
    match v.anchor_of() {
        None => Some(unsupported_risk(missing)),
        Some(anchor) => if w.bits_of(anchor) != w.bits_of(v.risky_spot_of()) {
            Some(invalid_field(field))
        } else {
            None
        },
    }
}

fn check_anchor<R: Scalar, W: PlanWorld<R>, V: ResidualWorld<R>>(
    w: &W,
    v: &V,
    missing: &'static str,
    field: &'static str,
) -> (e: Option<MonteCarloError>)
    ensures
        e == anchor_refusal(*w, *v, missing, field),
{
    match v.anchor() {
        None => Some(MonteCarloError::UnsupportedRiskForModel { model: missing }),
        Some(anchor) => if w.bits(anchor) != w.bits(v.risky_spot()) {
            Some(invalid(field))
        } else {
            None
        },
    }
}

/// What one set of shocks contributes to the spot risk: the payoff, and its
/// derivative.
pub open spec fn spot_terms<R: Scalar, W: PlanWorld<R>>(
    m: Model<R>,
    w: W,
    base: ScenarioView<R, W::Surface>,
) -> spec_fn(Seq<R>) -> Result<Seq<R>, MonteCarloError> {
    |shocks: Seq<R>|
        match w.evolution(base.path, shocks) {
            Err(e) => Err(e),
            Ok(states) => match spot_adjoint_of(m, w, base, states) {
                Err(e) => Err(e),
                Ok((price, delta)) => Ok(seq![price, delta]),
            },
        }
}

struct SpotContribution<'a, R: Scalar, M: Math<R>, W: PlanWorld<R>> {
    m: &'a M,
    w: &'a W,
    path: &'a DividendPath<R, W::Surface>,
    k: &'a ReverseContext<R>,
}

impl<'a, R: Scalar, M: Math<R>, W: PlanWorld<R>> SpotContribution<'a, R, M, W> {
    #[verifier::type_invariant]
    spec fn inv(self) -> bool {
        spot_ready(self.k@)
    }
}

impl<'a, R: Scalar, M: Math<R>, W: PlanWorld<R>> Contribution<R> for SpotContribution<
    'a,
    R,
    M,
    W,
> {
    closed spec fn term_count(&self) -> nat {
        2
    }

    closed spec fn quantities(&self) -> Quantities<R> {
        Quantities {
            width: 2,
            terms: spot_terms(
                self.m.model(),
                *self.w,
                ScenarioView { path: *self.path, reverse: self.k@ },
            ),
            finish: as_they_are(),
        }
    }

    fn contribute(&self, shocks: &Vec<R>) -> (r: Result<Vec<R>, MonteCarloError>) {
        proof {
            use_type_invariant(self);
        }
        let states = match self.w.evolve_path(self.path, shocks) {
            Err(e) => return Err(e),
            Ok(v) => v,
        };
        match spot_adjoint(self.m, self.w, self.path, self.k, &states) {
            Err(e) => Err(e),
            Ok((price, delta)) => {
                let row: Vec<R> = vec![price, delta];
                assert(row@ =~= seq![price, delta]);
                Ok(row)
            },
        }
    }

    fn finish(&self, row: Vec<R>) -> (r: Result<Vec<R>, MonteCarloError>) {
        Ok(row)
    }
}

/// The spot risk of a plan.
pub open spec fn spot_risk<
    R: Scalar,
    B: Backend<R>,
    Y: DividendDynamics<R>,
    W: PlanWorld<R>,
    V: ResidualWorld<R>,
>(
    m: Model<R>,
    b: B,
    y: Y,
    w: W,
    v: V,
    market: W::Market,
    plan: StochasticDividendPricingPlan<R, DividendPath<R, W::Surface>>,
) -> Result<StochasticDividendLsvSpotRisk<R>, MonteCarloError> {
    if plan.lsv is None || !plan.path_is_lsv {
        Err(unsupported_risk("LSV Spot risk requires a stochastic-dividend residual LSV plan"))
    } else {
        match anchor_refusal(
            w,
            v,
            "LSV Spot risk requires a stochastic-dividend residual LSV surface",
            "lsv_spot_anchor",
        ) {
            Some(e) => Err(e),
            None => if !plan.risk_supported {
                Err(
                    unsupported_risk(
                        "stochastic-dividend LSV discontinuous payoff requires explicit smoothing",
                    ),
                )
            } else {
                match context_of(y, market, plan.path@, plan.payment_time) {
                    Err(e) => Err(e),
                    Ok(k) => match plan.job.executor_failure {
                        Some(e) => Err(e),
                        None => match simulated(
                            m,
                            b,
                            Quantities {
                                width: 2,
                                terms: spot_terms(
                                    m,
                                    w,
                                    ScenarioView { path: plan.path, reverse: k },
                                ),
                                finish: as_they_are(),
                            },
                            plan.job,
                        ) {
                            Err(e) => Err(e),
                            Ok(s) => match estimated(
                                m,
                                s,
                                plan.job.engine.units(),
                                "lsv_local_variance_standard_error",
                                "lsv_spot_risk_estimator",
                            ) {
                                Err(e) => Err(e),
                                Ok((values, errors)) => Ok(
                                    StochasticDividendLsvSpotRisk {
                                        price: price_of(plan, values[0], errors[0]),
                                        delta: values[1],
                                        delta_standard_error: errors[1],
                                        method: "buehler-residual-lsv-scale-invariant-spot-reverse-v1",
                                    },
                                ),
                            },
                        },
                    },
                }
            },
        }
    }
}

/// The derivatives with respect to the market: the spot, the means of the dividends,
/// and the logarithms of the discount factors of both curves.
pub struct StochasticDividendLsvMarketRisk<R> {
    pub price: StochasticDividendPrice<R>,
    pub delta: R,
    pub delta_standard_error: R,
    pub cash_times: Vec<R>,
    pub cash_mean_adjoints: Vec<R>,
    pub cash_mean_standard_errors: Vec<R>,
    pub discount_times: Vec<R>,
    pub discount_log_df_adjoints: Vec<R>,
    pub discount_log_df_standard_errors: Vec<R>,
    pub repo_spread_times: Vec<R>,
    pub repo_spread_log_df_adjoints: Vec<R>,
    pub repo_spread_log_df_standard_errors: Vec<R>,
    pub method: &'static str,
}

/// A [`StochasticDividendLsvMarketRisk`] as a mathematical value.
pub ghost struct LsvMarketRiskView<R> {
    pub price: StochasticDividendPrice<R>,
    pub delta: R,
    pub delta_standard_error: R,
    pub cash_times: Seq<R>,
    pub cash_mean_adjoints: Seq<R>,
    pub cash_mean_standard_errors: Seq<R>,
    pub discount_times: Seq<R>,
    pub discount_log_df_adjoints: Seq<R>,
    pub discount_log_df_standard_errors: Seq<R>,
    pub repo_spread_times: Seq<R>,
    pub repo_spread_log_df_adjoints: Seq<R>,
    pub repo_spread_log_df_standard_errors: Seq<R>,
    pub method: &'static str,
}

impl<R> View for StochasticDividendLsvMarketRisk<R> {
    type V = LsvMarketRiskView<R>;

    open spec fn view(&self) -> LsvMarketRiskView<R> {
        LsvMarketRiskView {
            price: self.price,
            delta: self.delta,
            delta_standard_error: self.delta_standard_error,
            cash_times: self.cash_times@,
            cash_mean_adjoints: self.cash_mean_adjoints@,
            cash_mean_standard_errors: self.cash_mean_standard_errors@,
            discount_times: self.discount_times@,
            discount_log_df_adjoints: self.discount_log_df_adjoints@,
            discount_log_df_standard_errors: self.discount_log_df_standard_errors@,
            repo_spread_times: self.repo_spread_times@,
            repo_spread_log_df_adjoints: self.repo_spread_log_df_adjoints@,
            repo_spread_log_df_standard_errors: self.repo_spread_log_df_standard_errors@,
            method: self.method,
        }
    }
}

/// The effect of a basis point of the rate of each node that has a time, out of the
/// derivatives with respect to the logarithms of the discount factors.
pub open spec fn adjoint_dv01<R: Scalar>(adjoints: Seq<R>, pillars: Seq<R>) -> Seq<R> {
    Seq::new(
        if adjoints.len() <= pillars.len() {
            adjoints.len()
        } else {
            pillars.len()
        },
        |i: int| times(times(negated(basis_point()), pillars[i]), adjoints[i]),
    )
}

fn take_adjoint_dv01<R: Scalar, M: Math<R>>(m: &M, adjoints: &Vec<R>, pillars: &Vec<R>) -> (v: Vec<
    R,
>)
    ensures
        v@ == adjoint_dv01(adjoints@, pillars@),
{
    let n: usize = if adjoints.len() <= pillars.len() {
        adjoints.len()
    } else {
        pillars.len()
    };
    let ghost entry = |i: int| adjoint_dv01(adjoints@, pillars@)[i];
    let v_at = |i: usize| -> (x: R)
        requires
            i < n,
        ensures
            x == entry(i as int),
        {
            m.laws();
            let unit = R::from(1u32) / R::from(10000u32);
            unit.neg() * pillars[i] * adjoints[i]
        };
    let v = build(
        n,
        v_at,
        Ghost(entry),
    );
    assert(v@ =~= adjoint_dv01(adjoints@, pillars@));
    v
}

impl<R: Scalar> StochasticDividendLsvMarketRisk<R> {
    /// The effect of a basis point of each discount rate.
    pub fn discount_node_dv01<M: Math<R>>(&self, m: &M) -> (v: Vec<R>)
        ensures
            v@ == adjoint_dv01(self@.discount_log_df_adjoints, self@.discount_times),
    {
        take_adjoint_dv01(m, &self.discount_log_df_adjoints, &self.discount_times)
    }

    /// The effect of a basis point of each repo spread.
    pub fn repo_spread_node_dv01<M: Math<R>>(&self, m: &M) -> (v: Vec<R>)
        ensures
            v@ == adjoint_dv01(self@.repo_spread_log_df_adjoints, self@.repo_spread_times),
    {
        take_adjoint_dv01(m, &self.repo_spread_log_df_adjoints, &self.repo_spread_times)
    }
}

/// The number of the parameters of the nodes.
pub open spec fn node_parameters<R>(k: ContextView<R>) -> nat {
    5 + k.cash_times.len() + k.discount_times.len() + k.repo_spread_times.len()
}

/// What one set of shocks contributes to the market risk: the payoff, its derivative
/// with respect to the spot, and those with respect to the dividends and the curves.
pub open spec fn market_terms<R: Scalar, W: PlanWorld<R>>(
    m: Model<R>,
    w: W,
    k: ContextView<R>,
    path: DividendPath<R, W::Surface>,
) -> spec_fn(Seq<R>) -> Result<Seq<R>, MonteCarloError> {
    |shocks: Seq<R>|
        match w.evolution(path, shocks) {
            Err(e) => Err(e),
            Ok(states) => match plan_spots(w, path.nodes@, states) {
                Err(e) => Err(e),
                Ok(spots) => match w.payoff_adjoints_of(path.times@, spots) {
                    Err(e) => Err(e),
                    Ok((payoff, seeds)) => match market_pullback_of(
                        m,
                        k,
                        states,
                        seeds,
                        payoff,
                    ) {
                        Err(e) => Err(e),
                        Ok(reverse) => if reverse.len() != node_parameters(k) {
                            Err(invalid_field("lsv_market_reverse_width"))
                        } else {
                            Ok(seq![payoff, reverse[0]] + reverse.skip(5))
                        },
                    },
                },
            },
        }
}

struct MarketContribution<'a, R: Scalar, M: Math<R>, W: PlanWorld<R>> {
    m: &'a M,
    w: &'a W,
    k: &'a ReverseContext<R>,
    path: &'a DividendPath<R, W::Surface>,
    count: usize,
}

impl<'a, R: Scalar, M: Math<R>, W: PlanWorld<R>> MarketContribution<'a, R, M, W> {
    #[verifier::type_invariant]
    spec fn inv(self) -> bool {
        &&& self.count == node_parameters(self.k@)
        &&& 1 <= self.k@.nodes.len()
        &&& self.k@.base() <= self.k@.payment_weights.len()
        &&& forall|i: int|
            0 <= i < self.k@.nodes.len() ==> (#[trigger] self.k@.nodes[i]).of(self.k@.base())
    }
}

impl<'a, R: Scalar, M: Math<R>, W: PlanWorld<R>> Contribution<R> for MarketContribution<
    'a,
    R,
    M,
    W,
> {
    closed spec fn term_count(&self) -> nat {
        (self.count - 3) as nat
    }

    closed spec fn quantities(&self) -> Quantities<R> {
        Quantities {
            width: (self.count - 3) as nat,
            terms: market_terms(self.m.model(), *self.w, self.k@, *self.path),
            finish: as_they_are(),
        }
    }

    fn contribute(&self, shocks: &Vec<R>) -> (r: Result<Vec<R>, MonteCarloError>) {
        proof {
            use_type_invariant(self);
        }
        let states = match self.w.evolve_path(self.path, shocks) {
            Err(e) => return Err(e),
            Ok(v) => v,
        };
        let spots = match read_spots(self.w, self.path, &states) {
            Err(e) => return Err(e),
            Ok(v) => v,
        };
        let (payoff, seeds) = match self.w.payoff_adjoints(&self.path.times, &spots) {
            Err(e) => return Err(e),
            Ok(v) => v,
        };
        let reverse = match self.k.market_reconstruction_pullback(
            self.m,
            &states,
            &seeds,
            payoff,
        ) {
            Err(e) => return Err(e),
            Ok(v) => v,
        };
        if reverse.len() != self.count {
            return Err(invalid("lsv_market_reverse_width"));
        }
        let tail = taken(&reverse, 5, reverse.len() - 5);
        assert(tail@ =~= reverse@.skip(5));
        let mut row: Vec<R> = vec![payoff, reverse[0]];
        append(&mut row, &tail);
        assert(row@ =~= seq![payoff, reverse@[0]] + reverse@.skip(5));
        Ok(row)
    }

    fn finish(&self, row: Vec<R>) -> (r: Result<Vec<R>, MonteCarloError>) {
        Ok(row)
    }
}

/// The market risk out of the estimates of a plan.
pub open spec fn market_report<R, P>(
    plan: StochasticDividendPricingPlan<R, P>,
    k: ContextView<R>,
    values: Seq<R>,
    errors: Seq<R>,
) -> LsvMarketRiskView<R> {
    let d = 2 + k.cash_times.len() as int;
    let q = d + k.discount_times.len();
    LsvMarketRiskView {
        price: price_of(plan, values[0], errors[0]),
        delta: values[1],
        delta_standard_error: errors[1],
        cash_times: k.cash_times,
        cash_mean_adjoints: values.subrange(2, d),
        cash_mean_standard_errors: errors.subrange(2, d),
        discount_times: k.discount_times,
        discount_log_df_adjoints: values.subrange(d, q),
        discount_log_df_standard_errors: errors.subrange(d, q),
        repo_spread_times: k.repo_spread_times,
        repo_spread_log_df_adjoints: values.skip(q),
        repo_spread_log_df_standard_errors: errors.skip(q),
        method: "buehler-residual-lsv-scale-invariant-market-reverse-v1",
    }
}

/// The market risk of a plan.
pub open spec fn market_risk<
    R: Scalar,
    B: Backend<R>,
    Y: DividendDynamics<R>,
    W: PlanWorld<R>,
    V: ResidualWorld<R>,
>(
    m: Model<R>,
    b: B,
    y: Y,
    w: W,
    v: V,
    market: W::Market,
    plan: StochasticDividendPricingPlan<R, DividendPath<R, W::Surface>>,
) -> Result<LsvMarketRiskView<R>, MonteCarloError> {
    if plan.lsv is None || !plan.path_is_lsv {
        Err(unsupported_risk("LSV market risk requires a stochastic-dividend residual LSV plan"))
    } else if !plan.risk_supported {
        Err(
            unsupported_risk(
                "stochastic-dividend LSV discontinuous payoff requires explicit smoothing",
            ),
        )
    } else {
        match anchor_refusal(
            w,
            v,
            "LSV market risk requires a stochastic-dividend residual LSV surface",
            "lsv_market_anchor",
        ) {
            Some(e) => Err(e),
            None => match context_of(y, market, plan.path@, plan.payment_time) {
                Err(e) => Err(e),
                Ok(k) => match plan.job.executor_failure {
                    Some(e) => Err(e),
                    None => match simulated(
                        m,
                        b,
                        Quantities {
                            width: (node_parameters(k) - 3) as nat,
                            terms: market_terms(m, w, k, plan.path),
                            finish: as_they_are(),
                        },
                        plan.job,
                    ) {
                        Err(e) => Err(e),
                        Ok(s) => match estimated(
                            m,
                            s,
                            plan.job.engine.units(),
                            "lsv_market_standard_error",
                            "lsv_market_risk_estimator",
                        ) {
                            Err(e) => Err(e),
                            Ok((values, errors)) => Ok(market_report(plan, k, values, errors)),
                        },
                    },
                },
            },
        }
    }
}

impl<R: Scalar, L> StochasticDividendPricingPlan<R, DividendPath<R, L>> {
    /// The derivative with respect to the spot. The leverage surface is anchored anew
    /// at the residual equity, and needs no calibration.
    pub fn evaluate_lsv_spot_risk<
        M: Math<R>,
        B: Backend<R>,
        Y: DividendDynamics<R>,
        W: PlanWorld<R, Surface = L>,
        V: ResidualWorld<R>,
    >(&self, m: &M, b: &B, y: &Y, w: &W, v: &V, market: &W::Market) -> (r: Result<
        StochasticDividendLsvSpotRisk<R>,
        MonteCarloError,
    >)
        requires
            self.differentiable(*market),
        ensures
            r == spot_risk(m.model(), *b, *y, *w, *v, *market, *self),
    {
        if self.lsv.is_none() || !self.path_is_lsv {
            return Err(
                MonteCarloError::UnsupportedRiskForModel {
                    model: "LSV Spot risk requires a stochastic-dividend residual LSV plan",
                },
            );
        }
        if let Some(e) = check_anchor(
            w,
            v,
            "LSV Spot risk requires a stochastic-dividend residual LSV surface",
            "lsv_spot_anchor",
        ) {
            return Err(e);
        }
        if !self.risk_supported {
            return Err(
                MonteCarloError::UnsupportedRiskForModel {
                    model: "stochastic-dividend LSV discontinuous payoff requires explicit smoothing",
                },
            );
        }
        let k = match ReverseContext::new(m, y, market, &self.path, self.payment_time) {
            Err(e) => return Err(e),
            Ok(k) => k,
        };
        if let Some(e) = self.job.executor_failure {
            return Err(e);
        }
        let contribution = SpotContribution { m, w, path: &self.path, k: &k };
        let statistics = match simulate(m, b, &contribution, &self.job, 2) {
            Err(e) => return Err(e),
            Ok(s) => s,
        };
        match estimate(
            m,
            &statistics,
            engine_units(&self.job.engine),
            "lsv_local_variance_standard_error",
            "lsv_spot_risk_estimator",
        ) {
            Err(e) => Err(e),
            Ok(e) => Ok(
                StochasticDividendLsvSpotRisk {
                    price: self.price(e.values[0], e.errors[0]),
                    delta: e.values[1],
                    delta_standard_error: e.errors[1],
                    method: "buehler-residual-lsv-scale-invariant-spot-reverse-v1",
                },
            ),
        }
    }

    /// The derivatives with respect to the spot, the dividends and the curves, at the
    /// local variances that were calibrated to.
    pub fn evaluate_lsv_market_risk<
        M: Math<R>,
        B: Backend<R>,
        Y: DividendDynamics<R>,
        W: PlanWorld<R, Surface = L>,
        V: ResidualWorld<R>,
    >(&self, m: &M, b: &B, y: &Y, w: &W, v: &V, market: &W::Market) -> (r: Result<
        StochasticDividendLsvMarketRisk<R>,
        MonteCarloError,
    >)
        requires
            self.differentiable(*market),
        ensures
            viewed(r) == market_risk(m.model(), *b, *y, *w, *v, *market, *self),
    {
        if self.lsv.is_none() || !self.path_is_lsv {
            return Err(
                MonteCarloError::UnsupportedRiskForModel {
                    model: "LSV market risk requires a stochastic-dividend residual LSV plan",
                },
            );
        }
        if !self.risk_supported {
            return Err(
                MonteCarloError::UnsupportedRiskForModel {
                    model: "stochastic-dividend LSV discontinuous payoff requires explicit smoothing",
                },
            );
        }
        if let Some(e) = check_anchor(
            w,
            v,
            "LSV market risk requires a stochastic-dividend residual LSV surface",
            "lsv_market_anchor",
        ) {
            return Err(e);
        }
        let k = match ReverseContext::new(m, y, market, &self.path, self.payment_time) {
            Err(e) => return Err(e),
            Ok(k) => k,
        };
        if let Some(e) = self.job.executor_failure {
            return Err(e);
        }
        let cash = k.cash_times.len();
        let discount = k.discount_times.len();
        let repo = k.repo_spread_times.len();
        let count = 5 + cash + discount + repo;
        assert(count == node_parameters(k@));
        let contribution = MarketContribution { m, w, k: &k, path: &self.path, count };
        let statistics = match simulate(m, b, &contribution, &self.job, count - 3) {
            Err(e) => return Err(e),
            Ok(s) => s,
        };
        let estimates = match estimate(
            m,
            &statistics,
            engine_units(&self.job.engine),
            "lsv_market_standard_error",
            "lsv_market_risk_estimator",
        ) {
            Err(e) => return Err(e),
            Ok(e) => e,
        };
        let values = &estimates.values;
        let errors = &estimates.errors;
        let risk = StochasticDividendLsvMarketRisk {
            price: self.price(values[0], errors[0]),
            delta: values[1],
            delta_standard_error: errors[1],
            cash_times: k.cash_times,
            cash_mean_adjoints: taken(values, 2, cash),
            cash_mean_standard_errors: taken(errors, 2, cash),
            discount_times: k.discount_times,
            discount_log_df_adjoints: taken(values, 2 + cash, discount),
            discount_log_df_standard_errors: taken(errors, 2 + cash, discount),
            repo_spread_times: k.repo_spread_times,
            repo_spread_log_df_adjoints: taken(values, 2 + cash + discount, repo),
            repo_spread_log_df_standard_errors: taken(errors, 2 + cash + discount, repo),
            method: "buehler-residual-lsv-scale-invariant-market-reverse-v1",
        };
        proof {
            let want = market_report(*self, k@, values@, errors@);
            assert(risk@.cash_mean_adjoints =~= want.cash_mean_adjoints);
            assert(risk@.cash_mean_standard_errors =~= want.cash_mean_standard_errors);
            assert(risk@.discount_log_df_adjoints =~= want.discount_log_df_adjoints);
            assert(risk@.discount_log_df_standard_errors =~= want.discount_log_df_standard_errors);
            assert(risk@.repo_spread_log_df_adjoints =~= want.repo_spread_log_df_adjoints);
            assert(risk@.repo_spread_log_df_standard_errors
                =~= want.repo_spread_log_df_standard_errors);
        }
        Ok(risk)
    }
}

/// The price and the delta that the gamma of a residual plan reports are those of its
/// spot risk, with the same standard errors, whatever the bump.
#[verifier::rlimit(40)]
pub proof fn gamma_reports_the_spot_risk<
    R: Scalar,
    B: Backend<R>,
    Y: DividendDynamics<R>,
    W: PlanWorld<R>,
    V: ResidualWorld<R>,
>(
    m: Model<R>,
    b: B,
    y: Y,
    w: W,
    v: V,
    market: W::Market,
    plan: StochasticDividendPricingPlan<R, DividendPath<R, W::Surface>>,
    bump: SpotBump<R>,
)
    ensures
        match (
            gamma_evaluated(m, b, y, w, market, plan, bump, plan.lsv, residual_fields()),
            spot_risk(m, b, y, w, v, market, plan),
        ) {
            (Ok(gamma), Ok(spot)) => gamma.price == spot.price && gamma.delta == spot.delta
                && gamma.delta_standard_error == spot.delta_standard_error && gamma.spot_bumps
                == ladder(resolved_bump(bump, market.spot_of())) && gamma.payoff_evaluations == 7
                * plan.job.engine.paths(),
            _ => true,
        },
{
    let fields = residual_fields();
    if let (Ok(gamma), Ok(spot)) = (
        gamma_evaluated(m, b, y, w, market, plan, bump, plan.lsv, fields),
        spot_risk(m, b, y, w, v, market, plan),
    ) {
        let bumps = ladder(resolved_bump(bump, market.spot_of()));
        let scenarios = gather(
            6,
            scenario_of(
                m,
                y,
                w,
                plan.lsv,
                market.spot_of(),
                bumps,
                plan.path.dimension,
                plan.payment_time,
                fields,
            ),
        )->Ok_0;
        let reverse = context_of(y, market, plan.path@, plan.payment_time)->Ok_0;
        let base = ScenarioView { path: plan.path, reverse };
        let short = Quantities {
            width: 2,
            terms: spot_terms(m, w, base),
            finish: as_they_are::<R>(),
        };
        let long = Quantities {
            width: 7,
            terms: gamma_terms(m, w, base, scenarios, bumps),
            finish: gamma_finish(m, fields.sample),
        };
        assert forall|z: Seq<R>|
            begins((short.terms)(z), #[trigger] (long.terms)(z), 2, 5) by {
            if let Ok(states) = w.evolution(base.path, z) {
                gather_values(3, gamma_at(m, w, scenarios, bumps, states));
                if let Ok(row) = (long.terms)(z) {
                    let (price, delta) = spot_adjoint_of(m, w, base, states)->Ok_0;
                    assert(row.take(2) =~= seq![price, delta]);
                }
            }
        }
        assert forall|row: Seq<R>| row.len() == 5 implies (#[trigger] (long.finish)(row) matches Ok(
            t,
        ) ==> t.len() == 7 && t.take(2) == row.take(2)) by {
            if let Ok(t) = (long.finish)(row) {
                assert(t.take(2) =~= row.take(2));
            }
        }
        longer_simulation_keeps_statistics(m, b, short, long, 5, plan.job);
        let s = simulated(m, b, long, plan.job)->Ok_0;
        let t = simulated(m, b, short, plan.job)->Ok_0;
        let units = plan.job.engine.units();
        assert(t[0] == s[0] && t[1] == s[1]);
        estimates_are_their_own(m, s, units, "lsv_gamma_standard_error", fields.estimator, 0);
        estimates_are_their_own(m, s, units, "lsv_gamma_standard_error", fields.estimator, 1);
        estimates_are_their_own(
            m,
            t,
            units,
            "lsv_local_variance_standard_error",
            "lsv_spot_risk_estimator",
            0,
        );
        estimates_are_their_own(
            m,
            t,
            units,
            "lsv_local_variance_standard_error",
            "lsv_spot_risk_estimator",
            1,
        );
    }
}

} // verus!
