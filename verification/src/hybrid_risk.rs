//! First-order risk of a plan of equity and rates, parameter by parameter.

use crate::engine::paths_fit;
use crate::errors::{unsupported_risk, LsvError, MonteCarloError};
use crate::estimation::mean_of;
use crate::hybrid_aad::{hybrid_error, hybrid_outcome, run_hybrid, standard_error, taken};
use crate::hybrid_context::{
    hybrid_context, Context, HullWhiteEquityPricingPlan, HybridContextView, MarketIvSurface,
};
use crate::hybrid_world::{HullWhitePrice, HybridWorld};
use crate::linear::{basis_point, build, hundredth, viewed};
use crate::neumaier::{compensated_sum, sum_compensated};
use crate::paid_market::PaidMarket;
use crate::plan::{engine_paths, engine_units};
use crate::results::opt_seen;
use crate::reverse::Label;
use crate::sampling::{Backend, Statistics};
use crate::scalar::{negated, times, Math, Model, Scalar};
use core::ops::Neg;
use vstd::prelude::*;

verus! {

/// First-order risk: the spot, the volatility where there is no calibration, the
/// logarithms of the discount factors and of the dividend factors at their
/// pillars, then the target of the calibration and the quotes beneath it, with
/// their sum last.
pub struct HullWhiteAadRisk<R> {
    pub price: HullWhitePrice<R>,
    pub parameter_labels: Vec<Label>,
    pub derivatives: Vec<R>,
    /// In the order of the derivatives, where independent scrambles give some.
    pub standard_errors: Option<Vec<R>>,
    pub discount_times: Vec<R>,
    pub dividend_times: Vec<R>,
    pub target_time_nodes: Vec<R>,
    pub target_log_moneyness_nodes: Vec<R>,
    pub vega_kt_maturity_nodes: Vec<R>,
    pub vega_kt_log_moneyness_nodes: Vec<R>,
    pub vega_kt_implied_volatilities: Vec<R>,
    pub method: &'static str,
    pub market_iv_interpolation: &'static str,
    pub is_bs: bool,
}

/// A [`HullWhiteAadRisk`] as a mathematical value.
pub ghost struct HybridRiskView<R> {
    pub price: HullWhitePrice<R>,
    pub parameter_labels: Seq<Label>,
    pub derivatives: Seq<R>,
    pub standard_errors: Option<Seq<R>>,
    pub discount_times: Seq<R>,
    pub dividend_times: Seq<R>,
    pub target_time_nodes: Seq<R>,
    pub target_log_moneyness_nodes: Seq<R>,
    pub vega_kt_maturity_nodes: Seq<R>,
    pub vega_kt_log_moneyness_nodes: Seq<R>,
    pub vega_kt_implied_volatilities: Seq<R>,
    pub method: &'static str,
    pub market_iv_interpolation: &'static str,
    pub is_bs: bool,
}

impl<R> View for HullWhiteAadRisk<R> {
    type V = HybridRiskView<R>;

    open spec fn view(&self) -> HybridRiskView<R> {
        HybridRiskView {
            price: self.price,
            parameter_labels: self.parameter_labels@,
            derivatives: self.derivatives@,
            standard_errors: opt_seen(self.standard_errors),
            discount_times: self.discount_times@,
            dividend_times: self.dividend_times@,
            target_time_nodes: self.target_time_nodes@,
            target_log_moneyness_nodes: self.target_log_moneyness_nodes@,
            vega_kt_maturity_nodes: self.vega_kt_maturity_nodes@,
            vega_kt_log_moneyness_nodes: self.vega_kt_log_moneyness_nodes@,
            vega_kt_implied_volatilities: self.vega_kt_implied_volatilities@,
            method: self.method,
            market_iv_interpolation: self.market_iv_interpolation,
            is_bs: self.is_bs,
        }
    }
}

impl<R> HybridRiskView<R> {
    /// Where the derivatives of the curves start.
    pub open spec fn curve_start(self) -> nat {
        if self.is_bs {
            2
        } else {
            1
        }
    }

    /// The number of nodes of the target of the calibration.
    pub open spec fn target_count(self) -> nat {
        self.target_time_nodes.len() * self.target_log_moneyness_nodes.len()
    }

    /// Where the derivatives of the target start.
    pub open spec fn target_start(self) -> nat {
        self.curve_start() + self.discount_times.len() + self.dividend_times.len()
    }

    /// The number of derivatives of quotes, with their sum.
    pub open spec fn quote_count(self) -> nat {
        if self.vega_kt_implied_volatilities.len() == 0 {
            0
        } else {
            self.vega_kt_implied_volatilities.len() + 1
        }
    }

    /// There is a derivative for each parameter.
    pub open spec fn valid(self) -> bool {
        &&& self.target_start() + 2 * self.target_count() + self.quote_count()
            <= self.derivatives.len()
        &&& self.derivatives.len() <= usize::MAX
        &&& (self.standard_errors matches Some(e) ==> e.len() == self.derivatives.len())
    }

    /// The derivatives with respect to the quotes.
    pub open spec fn quotes_of(self, values: Seq<R>) -> Seq<R> {
        values.subrange(
            values.len() - 1 - self.vega_kt_implied_volatilities.len(),
            values.len() - 1,
        )
    }
}

/// The effect of a point of each quoted volatility.
pub open spec fn quotes_per_point<R: Scalar>(r: HybridRiskView<R>) -> Seq<R> {
    Seq::new(
        r.vega_kt_implied_volatilities.len(),
        |i: int| times(hundredth(), r.quotes_of(r.derivatives)[i]),
    )
}

/// The effect of a basis point of each discount rate.
pub open spec fn discount_dv01<R: Scalar>(r: HybridRiskView<R>) -> Seq<R> {
    Seq::new(
        r.discount_times.len(),
        |i: int|
            times(
                times(negated(basis_point()), r.discount_times[i]),
                r.derivatives[r.curve_start() + i],
            ),
    )
}

impl<R: Scalar> HullWhiteAadRisk<R> {
    /// The derivative with respect to the spot.
    pub fn delta(&self) -> (x: R)
        requires
            self@.valid(),
        ensures
            x == self@.derivatives[0],
    {
        self.derivatives[0]
    }

    /// The derivative with respect to the volatility, or to all quotes together.
    pub fn vega(&self) -> (x: Option<R>)
        requires
            self@.valid(),
        ensures
            x == (if self@.is_bs {
                Some(self@.derivatives[1])
            } else if self@.vega_kt_implied_volatilities.len() > 0 {
                Some(self@.derivatives.last())
            } else {
                None
            }),
    {
        if self.is_bs {
            Some(self.derivatives[1])
        } else if self.vega_kt_implied_volatilities.len() > 0 {
            Some(self.derivatives[self.derivatives.len() - 1])
        } else {
            None
        }
    }

    fn curve_offset(&self) -> (n: usize)
        ensures
            n == self@.curve_start(),
    {
        if self.is_bs {
            2
        } else {
            1
        }
    }

    fn target_offset(&self) -> (n: usize)
        requires
            self@.valid(),
        ensures
            n == self@.target_start(),
    {
        self.curve_offset() + self.discount_times.len() + self.dividend_times.len()
    }

    fn target_size(&self) -> (n: usize)
        requires
            self@.valid(),
        ensures
            n == self@.target_count(),
    {
        self.target_time_nodes.len() * self.target_log_moneyness_nodes.len()
    }

    /// The derivatives with respect to the logarithms of the discount factors.
    pub fn discount_log_df_adjoints(&self) -> (v: Vec<R>)
        requires
            self@.valid(),
        ensures
            v@ == self@.derivatives.subrange(
                self@.curve_start() as int,
                self@.curve_start() + self@.discount_times.len() as int,
            ),
    {
        taken(&self.derivatives, self.curve_offset(), self.discount_times.len())
    }

    /// The derivatives with respect to the logarithms of the dividend factors.
    pub fn dividend_log_df_adjoints(&self) -> (v: Vec<R>)
        requires
            self@.valid(),
        ensures
            v@ == self@.derivatives.subrange(
                self@.curve_start() + self@.discount_times.len() as int,
                self@.target_start() as int,
            ),
    {
        let start = self.curve_offset() + self.discount_times.len();
        taken(&self.derivatives, start, self.dividend_times.len())
    }

    /// The effect of a basis point of each discount rate.
    pub fn discount_node_dv01<M: Math<R>>(&self, m: &M) -> (v: Vec<R>)
        requires
            self@.valid(),
        ensures
            v@ == discount_dv01(self@),
    {
        let n = self.discount_times.len();
        let start = self.curve_offset();
        let ghost entry = |i: int| discount_dv01(self@)[i];
        let v_at = |i: usize| -> (x: R)
            requires
                i < n,
            ensures
                x == entry(i as int),
            {
                m.laws();
                let unit = R::from(1u32) / R::from(10000u32);
                unit.neg() * self.discount_times[i] * self.derivatives[start + i]
            };
        let v = build(
            n,
            v_at,
            Ghost(entry),
        );
        assert(v@ =~= discount_dv01(self@));
        v
    }

    /// The effect of a basis point of all discount rates together.
    pub fn parallel_discount_dv01<M: Math<R>>(&self, m: &M) -> (x: R)
        requires
            self@.valid(),
        ensures
            x == compensated_sum(m.model(), discount_dv01(self@)),
    {
        let v = self.discount_node_dv01(m);
        sum_compensated(m, v.as_slice())
    }

    /// The derivatives with respect to the local variances of the target.
    pub fn local_variance_adjoints(&self) -> (v: Vec<R>)
        requires
            self@.valid(),
        ensures
            v@ == self@.derivatives.subrange(
                self@.target_start() as int,
                self@.target_start() + self@.target_count() as int,
            ),
    {
        taken(&self.derivatives, self.target_offset(), self.target_size())
    }

    /// The derivatives with respect to the densities of the target.
    pub fn forward_log_density_adjoints(&self) -> (v: Vec<R>)
        requires
            self@.valid(),
        ensures
            v@ == self@.derivatives.subrange(
                self@.target_start() + self@.target_count() as int,
                self@.target_start() + 2 * self@.target_count() as int,
            ),
    {
        taken(&self.derivatives, self.target_offset() + self.target_size(), self.target_size())
    }

    fn quotes(&self, values: &Vec<R>) -> (v: Option<Vec<R>>)
        requires
            self@.valid(),
            values@.len() == self@.derivatives.len(),
        ensures
            opt_seen(v) == (if self@.vega_kt_implied_volatilities.len() == 0 {
                None
            } else {
                Some(self@.quotes_of(values@))
            }),
    {
        let n = self.vega_kt_implied_volatilities.len();
        if n == 0 {
            None
        } else {
            Some(taken(values, values.len() - 1 - n, n))
        }
    }

    /// The derivative with respect to each quote of the market.
    pub fn vega_kt_raw(&self) -> (v: Option<Vec<R>>)
        requires
            self@.valid(),
        ensures
            opt_seen(v) == (if self@.vega_kt_implied_volatilities.len() == 0 {
                None
            } else {
                Some(self@.quotes_of(self@.derivatives))
            }),
    {
        self.quotes(&self.derivatives)
    }

    /// The effect of a point of each quoted volatility.
    pub fn vega_kt_market_scaled<M: Math<R>>(&self, m: &M) -> (v: Option<Vec<R>>)
        requires
            self@.valid(),
        ensures
            opt_seen(v) == (if self@.vega_kt_implied_volatilities.len() == 0 {
                None
            } else {
                Some(
                    Seq::new(
                        self@.vega_kt_implied_volatilities.len(),
                        |i: int| times(hundredth(), self@.quotes_of(self@.derivatives)[i]),
                    ),
                )
            }),            v matches Some(scaled) ==> scaled@ == quotes_per_point(self@),
    {
        match self.vega_kt_raw() {
            None => None,
            Some(raw) => {
                let n = raw.len();
                let ghost entry = |i: int| times(hundredth(), raw@[i]);
                let v_at = |i: usize| -> (x: R)
                    requires
                        i < n,
                    ensures
                        x == entry(i as int),
                    {
                        m.laws();
                        R::from(1u32) / R::from(100u32) * raw[i]
                    };
                let v = build(
                    n,
                    v_at,
                    Ghost(entry),
                );
                assert(v@ =~= Seq::new(
                    self@.vega_kt_implied_volatilities.len(),
                    |i: int| times(hundredth(), self@.quotes_of(self@.derivatives)[i]),
                ));
                Some(v)
            },
        }
    }

    /// The standard error of the derivative with respect to each quote.
    pub fn vega_kt_standard_errors(&self) -> (v: Option<Vec<R>>)
        requires
            self@.valid(),
        ensures
            opt_seen(v) == (match self@.standard_errors {
                None => None,
                Some(errors) => if self@.vega_kt_implied_volatilities.len() == 0 {
                    None
                } else {
                    Some(self@.quotes_of(errors))
                },
            }),
    {
        match &self.standard_errors {
            None => None,
            Some(errors) => self.quotes(errors),
        }
    }

    /// The standard error of the derivative with respect to the volatility, or to
    /// all quotes together.
    pub fn parallel_vega_standard_error(&self) -> (x: Option<R>)
        requires
            self@.valid(),
        ensures
            x == (match self@.standard_errors {
                None => None,
                Some(errors) => if self@.is_bs {
                    Some(errors[1])
                } else if self@.vega_kt_implied_volatilities.len() == 0 {
                    None
                } else {
                    Some(errors.last())
                },
            }),
    {
        match &self.standard_errors {
            None => None,
            Some(errors) => if self.is_bs {
                Some(errors[1])
            } else if self.vega_kt_implied_volatilities.len() == 0 {
                None
            } else {
                Some(errors[errors.len() - 1])
            },
        }
    }

    /// How the quotes were interpolated, where there are some.
    pub fn vega_kt_method(&self) -> (x: Option<&'static str>)
        ensures
            x == (if self@.vega_kt_implied_volatilities.len() == 0 {
                None
            } else {
                Some(self@.market_iv_interpolation)
            }),
    {
        if self.vega_kt_implied_volatilities.len() == 0 {
            None
        } else {
            Some(self.market_iv_interpolation)
        }
    }
}

/// `n` parameters of one name.
pub open spec fn indexed(name: &'static str, n: nat) -> Seq<Label> {
    Seq::new(n, |i: int| Label::Indexed { name, index: i as u64 })
}

/// The quotes beneath the calibration, if any.
pub open spec fn quoted_surface<R>(plan: HullWhiteEquityPricingPlan<R>) -> Option<
    MarketIvSurface<R>,
> {
    match plan.market_iv_target {
        Some(t) => t.market_iv_surface,
        None => None,
    }
}

/// The names of the parameters of a plan.
pub open spec fn hybrid_labels<R, D>(
    plan: HullWhiteEquityPricingPlan<R>,
    k: HybridContextView<D>,
    discount: nat,
    dividend: nat,
) -> Seq<Label> {
    let volatility = if k.is_bs {
        seq![
            Label::Named(
                if plan.direct_rough {
                    "initial_volatility"
                } else {
                    "bs_volatility"
                },
            ),
        ]
    } else {
        Seq::empty()
    };
    let quotes = match quoted_surface(plan) {
        Some(s) => indexed("market_iv", s.implied_volatilities@.len()).push(
            Label::Named("parallel_market_iv"),
        ),
        None => Seq::empty(),
    };
    seq![Label::Named("spot")] + volatility + indexed("discount_log_df", discount) + indexed(
        "dividend_log_df",
        dividend,
    ) + indexed("local_variance", k.leverage_count) + indexed(
        "forward_log_density",
        k.leverage_count,
    ) + quotes
}

/// Appends parameters of one name.
pub(crate) fn push_indexed(labels: &mut Vec<Label>, name: &'static str, n: usize)
    ensures
        final(labels)@ == old(labels)@ + indexed(name, n as nat),
{
    let ghost start = labels@;
    let mut i: usize = 0;
    while i < n
        invariant
            i <= n,
            labels@ == start + indexed(name, i as nat),
        decreases n - i,
    {
        labels.push(Label::Indexed { name, index: i as u64 });
        assert(labels@ =~= start + indexed(name, (i + 1) as nat));
        i = i + 1;
    }
}

fn make_labels<R: Scalar, D>(
    plan: &HullWhiteEquityPricingPlan<R>,
    k: &Context<D>,
    discount: usize,
    dividend: usize,
) -> (labels: Vec<Label>)
    ensures
        labels@ == hybrid_labels(*plan, k@, discount as nat, dividend as nat),
{
    let mut labels: Vec<Label> = vec![Label::Named("spot")];
    if k.is_bs {
        labels.push(
            Label::Named(
                if plan.direct_rough {
                    "initial_volatility"
                } else {
                    "bs_volatility"
                },
            ),
        );
    }
    push_indexed(&mut labels, "discount_log_df", discount);
    push_indexed(&mut labels, "dividend_log_df", dividend);
    push_indexed(&mut labels, "local_variance", k.leverage_count);
    push_indexed(&mut labels, "forward_log_density", k.leverage_count);
    if let Some(t) = &plan.market_iv_target {
        if let Some(s) = &t.market_iv_surface {
            push_indexed(&mut labels, "market_iv", s.implied_volatilities.len());
            labels.push(Label::Named("parallel_market_iv"));
        }
    }
    assert(labels@ =~= hybrid_labels(*plan, k@, discount as nat, dividend as nat));
    labels
}

/// The price of a plan with risk.
pub open spec fn hybrid_price<R: Scalar>(
    m: Model<R>,
    plan: HullWhiteEquityPricingPlan<R>,
    s: Statistics<R>,
    error: R,
) -> HullWhitePrice<R> {
    HullWhitePrice {
        value: mean_of(m, s, plan.engine.units()),
        standard_error: error,
        independent_sampling_units: plan.engine.units(),
        evaluated_paths: plan.engine.paths() as u128,
        plan_fingerprint: plan.fingerprint,
        scheme: plan.scheme,
        calibration_method: plan.calibration_method,
        calibration_seed: plan.calibration_seed,
        cash_dividend_model: plan.cash_dividend_model,
    }
}

/// What a plan refuses before it is run.
pub open spec fn hybrid_refusal<R: Scalar>(plan: HullWhiteEquityPricingPlan<R>) -> Option<
    MonteCarloError,
> {
    if !plan.risk_supported {
        Some(unsupported_risk("HW discontinuous payoff requires explicit smoothing"))
    } else if plan.calibration matches Some(c) && !c.retains_reverse_trace {
        Some(MonteCarloError::Lsv(LsvError::ReverseTraceNotRetained))
    } else {
        None
    }
}

/// First-order risk of a plan: a payoff with derivatives and a calibration with
/// its trace, then what the derivatives need, then the simulation.
pub open spec fn hybrid_evaluated<R: Scalar, B: Backend<R>, W: HybridWorld<R>, C: PaidMarket<R>>(
    m: Model<R>,
    b: B,
    w: W,
    c: C,
    plan: HullWhiteEquityPricingPlan<R>,
) -> Result<HybridRiskView<R>, MonteCarloError> {
    match hybrid_refusal(plan) {
        Some(e) => Err(e),
        None => match hybrid_context(m, w, c, plan) {
            Err(e) => Err(e),
            Ok(k) => match plan.executor_failure {
                Some(e) => Err(e),
                None => match hybrid_outcome(m, b, w, c, plan, k) {
                    Err(e) => Err(e),
                    Ok(o) => match hybrid_error(m, o.price, plan.engine.units()) {
                        Err(e) => Err(e),
                        Ok(error) => Ok(
                            HybridRiskView {
                                price: hybrid_price(m, plan, o.price, error),
                                parameter_labels: hybrid_labels(
                                    plan,
                                    k,
                                    c.discount_pillars_of().len(),
                                    c.dividend_pillars_of().len(),
                                ),
                                derivatives: o.derivatives,
                                standard_errors: o.standard_errors,
                                discount_times: c.discount_pillars_of(),
                                dividend_times: c.dividend_pillars_of(),
                                target_time_nodes: match plan.calibration {
                                    Some(s) => s.surface_times@,
                                    None => Seq::empty(),
                                },
                                target_log_moneyness_nodes: match plan.calibration {
                                    Some(s) => s.log_nodes@,
                                    None => Seq::empty(),
                                },
                                vega_kt_maturity_nodes: match quoted_surface(plan) {
                                    Some(s) => s.maturity_nodes@,
                                    None => Seq::empty(),
                                },
                                vega_kt_log_moneyness_nodes: match quoted_surface(plan) {
                                    Some(s) => s.log_moneyness_nodes@,
                                    None => Seq::empty(),
                                },
                                vega_kt_implied_volatilities: match quoted_surface(plan) {
                                    Some(s) => s.implied_volatilities@,
                                    None => Seq::empty(),
                                },
                                method: plan.aad_method,
                                market_iv_interpolation: plan.market_iv_interpolation,
                                is_bs: k.is_bs,
                            },
                        ),
                    },
                },
            },
        },
    }
}

/// Copies numbers.
pub(crate) fn copied<R: Scalar>(v: &Vec<R>) -> (t: Vec<R>)
    ensures
        t@ == v@,
{
    let t = taken(v, 0, v.len());
    assert(t@ =~= v@);
    t
}

impl<R: Scalar> HullWhiteEquityPricingPlan<R> {
    /// First-order risk of the plan.
    pub fn evaluate_aad<M: Math<R>, B: Backend<R>, W: HybridWorld<R>, C: PaidMarket<R>>(
        &self,
        m: &M,
        b: &B,
        w: &W,
        c: &C,
    ) -> (r: Result<HullWhiteAadRisk<R>, MonteCarloError>)
        requires
            self.valid(m.model(), *w, *c),
        ensures
            viewed(r) == hybrid_evaluated(m.model(), *b, *w, *c, *self),
            r matches Ok(risk) ==> risk@.valid() && risk@.parameter_labels.len()
                == risk@.derivatives.len(),
    {
        if !self.risk_supported {
            return Err(
                MonteCarloError::UnsupportedRiskForModel {
                    model: "HW discontinuous payoff requires explicit smoothing",
                },
            );
        }
        if let Some(s) = &self.calibration {
            if !s.retains_reverse_trace {
                return Err(MonteCarloError::Lsv(LsvError::ReverseTraceNotRetained));
            }
        }
        let k = match Context::new(m, w, c, self) {
            Err(e) => return Err(e),
            Ok(k) => k,
        };
        if let Some(e) = self.executor_failure {
            return Err(e);
        }
        let outcome = match run_hybrid(m, b, w, c, self, &k) {
            Err(e) => return Err(e),
            Ok(o) => o,
        };
        let units = engine_units(&self.engine);
        let error = match standard_error(m, outcome.price, units) {
            Err(e) => return Err(e),
            Ok(x) => x,
        };
        m.laws();
        let price = HullWhitePrice {
            value: outcome.price.total / m.of(units),
            standard_error: error,
            independent_sampling_units: units,
            evaluated_paths: engine_paths(&self.engine),
            plan_fingerprint: self.fingerprint,
            scheme: self.scheme,
            calibration_method: self.calibration_method,
            calibration_seed: self.calibration_seed,
            cash_dividend_model: self.cash_dividend_model,
        };
        proof {
            paths_fit(self.engine);
        }
        let discount_times = c.discount_pillars();
        let dividend_times = c.dividend_pillars();
        let parameter_labels = make_labels(self, &k, discount_times.len(), dividend_times.len());
        let (target_time_nodes, target_log_moneyness_nodes) = match &self.calibration {
            Some(s) => (copied(&s.surface_times), copied(&s.log_nodes)),
            None => (Vec::new(), Vec::new()),
        };
        let mut vega_kt_maturity_nodes: Vec<R> = Vec::new();
        let mut vega_kt_log_moneyness_nodes: Vec<R> = Vec::new();
        let mut vega_kt_implied_volatilities: Vec<R> = Vec::new();
        if let Some(t) = &self.market_iv_target {
            if let Some(s) = &t.market_iv_surface {
                vega_kt_maturity_nodes = copied(&s.maturity_nodes);
                vega_kt_log_moneyness_nodes = copied(&s.log_moneyness_nodes);
                vega_kt_implied_volatilities = copied(&s.implied_volatilities);
            }
        }
        let risk = HullWhiteAadRisk {
            price,
            parameter_labels,
            derivatives: outcome.derivatives,
            standard_errors: outcome.standard_errors,
            discount_times,
            dividend_times,
            target_time_nodes,
            target_log_moneyness_nodes,
            vega_kt_maturity_nodes,
            vega_kt_log_moneyness_nodes,
            vega_kt_implied_volatilities,
            method: self.aad_method,
            market_iv_interpolation: self.market_iv_interpolation,
            is_bs: k.is_bs,
        };
        proof {
            let want = hybrid_evaluated(m.model(), *b, *w, *c, *self)->Ok_0;
            assert(risk@.target_time_nodes =~= want.target_time_nodes);
            assert(risk@.target_log_moneyness_nodes =~= want.target_log_moneyness_nodes);
            assert(risk@.vega_kt_maturity_nodes =~= want.vega_kt_maturity_nodes);
            assert(risk@.vega_kt_log_moneyness_nodes =~= want.vega_kt_log_moneyness_nodes);
            assert(risk@.vega_kt_implied_volatilities =~= want.vega_kt_implied_volatilities);
            assert(risk.derivatives@.len() == risk.derivatives.len());
        }
        Ok(risk)
    }
}

} // verus!
