//! First-order risk of a stochastic-dividend plan: the derivatives of its
//! payoff, reversed through its path.

use crate::dividend_price::{path_value, plan_spots, read_spots};
use crate::dynamics::{DividendDynamics, KernelNumerics};
use crate::errors::{unsupported_risk, MonteCarloError};
use crate::estimation::{estimate_together, estimated_together, simulate, simulated, Job};
use crate::extension::{
    begins, fewer_estimates_are_a_beginning, wider_simulation_keeps_statistics,
};
use crate::linear::{basis_point, build, hundredth, viewed};
use crate::market::CarryMarket;
use crate::plan::{engine_units, price_of, StochasticDividendPrice, StochasticDividendPricingPlan};
use crate::plan_world::{market_sized, PlanWorld};
use crate::reverse::{
    context_is_counted, context_of, pullback_is_sized, pullback_of, rough_correlations_unsupported,
    with_correlations, with_parameters, ContextView, DividendPath, DividendPathView, Label,
    ReverseContext,
};
use crate::sampling::{as_they_are, Backend, Contribution, Quantities, Statistics};
use crate::scalar::{negated, times, Math, Model, Scalar};
use core::ops::Neg;
use vstd::prelude::*;

verus! {

/// Which parameters a risk covers.
#[derive(Clone, Copy, Debug, PartialEq, Eq)]
pub enum AadScope {
    /// Those of the nodes.
    Basic,
    /// Also those of the volatility factors.
    Bergomi,
    /// Also the correlations of the drivers.
    Correlation,
}

/// First-order risk, parameter by parameter.
pub struct StochasticDividendAadRisk<R> {
    pub price: StochasticDividendPrice<R>,
    pub parameter_labels: Vec<Label>,
    pub derivatives: Vec<R>,
    pub standard_errors: Vec<R>,
    pub cash_times: Vec<R>,
    pub discount_times: Vec<R>,
    pub repo_spread_times: Vec<R>,
    pub method: &'static str,
}

/// A [`StochasticDividendAadRisk`] as a mathematical value.
pub ghost struct AadRiskView<R> {
    pub price: StochasticDividendPrice<R>,
    pub parameter_labels: Seq<Label>,
    pub derivatives: Seq<R>,
    pub standard_errors: Seq<R>,
    pub cash_times: Seq<R>,
    pub discount_times: Seq<R>,
    pub repo_spread_times: Seq<R>,
    pub method: &'static str,
}

impl<R> View for StochasticDividendAadRisk<R> {
    type V = AadRiskView<R>;

    open spec fn view(&self) -> AadRiskView<R> {
        AadRiskView {
            price: self.price,
            parameter_labels: self.parameter_labels@,
            derivatives: self.derivatives@,
            standard_errors: self.standard_errors@,
            cash_times: self.cash_times@,
            discount_times: self.discount_times@,
            repo_spread_times: self.repo_spread_times@,
            method: self.method,
        }
    }
}

impl<R> AadRiskView<R> {
    /// There is a derivative for each parameter of the nodes, in their order.
    pub open spec fn valid(self) -> bool {
        5 + self.cash_times.len() + self.discount_times.len() + self.repo_spread_times.len()
            <= self.derivatives.len()
    }
}

/// The effect of a basis point of each rate on the price, out of the derivatives
/// with respect to the logarithms of the discount factors, which stand from
/// `start` on.
pub open spec fn node_dv01<R: Scalar>(derivatives: Seq<R>, pillars: Seq<R>, start: int) -> Seq<R> {
    Seq::new(
        pillars.len(),
        |i: int| times(times(negated(basis_point()), pillars[i]), derivatives[start + i]),
    )
}

fn take_dv01<R: Scalar, M: Math<R>>(
    m: &M,
    derivatives: &Vec<R>,
    nodes: &Vec<R>,
    start: usize,
) -> (v: Vec<R>)
    requires
        start + nodes@.len() <= derivatives@.len(),
    ensures
        v@ == node_dv01(derivatives@, nodes@, start as int),
{
    let n = nodes.len();
    assert(derivatives@.len() == derivatives.len());
    let ghost entry = |i: int| node_dv01(derivatives@, nodes@, start as int)[i];
    let v_at = |i: usize| -> (x: R)
        requires
            i < n,
        ensures
            x == entry(i as int),
        {
            m.laws();
            let unit = R::from(1u32) / R::from(10000u32);
            unit.neg() * nodes[i] * derivatives[start + i]
        };
    let v = build(
        n,
        v_at,
        Ghost(entry),
    );
    assert(v@ =~= node_dv01(derivatives@, nodes@, start as int));
    v
}

impl<R: Scalar> AadRiskView<R> {
    /// The derivative with respect to the spot.
    pub open spec fn spot_delta(self) -> R {
        self.derivatives[0]
    }

    /// The derivative with respect to the initial volatility.
    pub open spec fn volatility_vega(self) -> R {
        self.derivatives[1]
    }

    /// The effect of a point of the initial volatility.
    pub open spec fn volatility_vega_per_point(self) -> R {
        times(hundredth(), self.derivatives[1])
    }

    /// The effect of a point of the volatility of dividends.
    pub open spec fn dividend_vega_per_point(self) -> R {
        times(hundredth(), self.derivatives[4])
    }

    /// The derivatives with respect to the means of the dividends.
    pub open spec fn cash_adjoints(self) -> Seq<R> {
        self.derivatives.subrange(5, 5 + self.cash_times.len() as int)
    }
}

impl<R: Scalar> StochasticDividendAadRisk<R> {
    /// The derivative with respect to the spot.
    pub fn delta(&self) -> (x: R)
        requires
            self@.valid(),
        ensures
            x == self@.derivatives[0],
            x == self@.spot_delta(),
    {
        self.derivatives[0]
    }

    /// The derivative with respect to the initial volatility.
    pub fn initial_volatility_vega(&self) -> (x: R)
        requires
            self@.valid(),
        ensures
            x == self@.derivatives[1],
            x == self@.volatility_vega(),
    {
        self.derivatives[1]
    }

    /// The effect of a point of the initial volatility.
    pub fn initial_volatility_vega_per_vol_point<M: Math<R>>(&self, m: &M) -> (x: R)
        requires
            self@.valid(),
        ensures
            x == times(hundredth(), self@.derivatives[1]),
            x == self@.volatility_vega_per_point(),
    {
        m.laws();
        (R::from(1u32) / R::from(100u32)) * self.derivatives[1]
    }

    /// The effect of a point of the volatility of dividends.
    pub fn dividend_volatility_vega_per_vol_point<M: Math<R>>(&self, m: &M) -> (x: R)
        requires
            self@.valid(),
        ensures
            x == times(hundredth(), self@.derivatives[4]),
            x == self@.dividend_vega_per_point(),
    {
        m.laws();
        (R::from(1u32) / R::from(100u32)) * self.derivatives[4]
    }

    /// The derivatives with respect to the means of the dividends.
    pub fn cash_mean_adjoints(&self) -> (v: Vec<R>)
        requires
            self@.valid(),
        ensures
            v@ == self@.derivatives.subrange(5, 5 + self@.cash_times.len() as int),
            v@ == self@.cash_adjoints(),
    {
        let n = self.cash_times.len();
        let ghost entry = |i: int| self@.derivatives[5 + i];
        assert(self.derivatives@.len() == self.derivatives.len());
        let v_at = |i: usize| -> (x: R)
            requires
                i < n,
            ensures
                x == entry(i as int),
            { self.derivatives[5 + i] };
        let v = build(
            n,
            v_at,
            Ghost(entry),
        );
        assert(v@ =~= self@.derivatives.subrange(5, 5 + self@.cash_times.len() as int));
        v
    }

    /// The effect of a basis point of each discount rate.
    pub fn discount_node_dv01<M: Math<R>>(&self, m: &M) -> (v: Vec<R>)
        requires
            self@.valid(),
        ensures
            v@ == node_dv01(
                self@.derivatives,
                self@.discount_times,
                5 + self@.cash_times.len() as int,
            ),
    {
        assert(self.derivatives@.len() == self.derivatives.len());
        take_dv01(m, &self.derivatives, &self.discount_times, 5 + self.cash_times.len())
    }

    /// The effect of a basis point of each repo spread.
    pub fn repo_spread_node_dv01<M: Math<R>>(&self, m: &M) -> (v: Vec<R>)
        requires
            self@.valid(),
        ensures
            v@ == node_dv01(
                self@.derivatives,
                self@.repo_spread_times,
                5 + self@.cash_times.len() as int + self@.discount_times.len(),
            ),
    {
        assert(self.derivatives@.len() == self.derivatives.len());
        take_dv01(
            m,
            &self.derivatives,
            &self.repo_spread_times,
            5 + self.cash_times.len() + self.discount_times.len(),
        )
    }
}

/// What one set of shocks contributes: the payoff, and its derivatives.
pub open spec fn aad_terms<R: Scalar, Y: DividendDynamics<R>, W: PlanWorld<R>>(
    m: Model<R>,
    y: Y,
    w: W,
    k: ContextView<R>,
    path: DividendPath<R, W::Surface>,
) -> spec_fn(Seq<R>) -> Result<Seq<R>, MonteCarloError> {
    |shocks: Seq<R>|
        match w.evolution(path, shocks) {
            Err(e) => Err(e),
            Ok(states) => match plan_spots(w, path.nodes@, states) {
                Err(e) => Err(e),
                Ok(spots) => match w.payoff_adjoints_of(path.times@, spots) {
                    Err(e) => Err(e),
                    Ok((payoff, seeds)) => match pullback_of(
                        m,
                        y,
                        k,
                        path@,
                        shocks,
                        states,
                        seeds,
                        payoff,
                    ) {
                        Err(e) => Err(e),
                        Ok(derivatives) => Ok(seq![payoff] + derivatives),
                    },
                },
            },
        }
}

struct AadContribution<'a, R: Scalar, M: Math<R>, Y: DividendDynamics<R>, W: PlanWorld<R>> {
    m: &'a M,
    y: &'a Y,
    w: &'a W,
    k: &'a ReverseContext<R>,
    path: &'a DividendPath<R, W::Surface>,
}

impl<'a, R: Scalar, M: Math<R>, Y: DividendDynamics<R>, W: PlanWorld<R>> AadContribution<
    'a,
    R,
    M,
    Y,
    W,
> {
    #[verifier::type_invariant]
    spec fn inv(self) -> bool {
        &&& self.path@.valid()
        &&& self.k@.of(
            self.path@.nodes.len(),
            match self.path@.bergomi {
                Some(k) => Some(k.n()),
                None => None,
            },
        )
    }
}

impl<
    'a,
    R: Scalar,
    M: Math<R>,
    Y: DividendDynamics<R>,
    W: PlanWorld<R>,
> Contribution<R> for AadContribution<'a, R, M, Y, W> {
    closed spec fn term_count(&self) -> nat {
        1 + self.k@.labels.len()
    }

    closed spec fn quantities(&self) -> Quantities<R> {
        Quantities {
            width: 1 + self.k@.labels.len(),
            terms: aad_terms(self.m.model(), *self.y, *self.w, self.k@, *self.path),
            finish: as_they_are(),
        }
    }

    fn contribute(&self, shocks: &Vec<R>) -> (r: Result<Vec<R>, MonteCarloError>) {
        proof {
            use_type_invariant(self);
        }
        let states = match self.w.evolve_path(self.path, shocks) {
            Err(e) => return Err(e),
            Ok(states) => states,
        };
        let spots = match read_spots(self.w, self.path, &states) {
            Err(e) => return Err(e),
            Ok(spots) => spots,
        };
        let (payoff, seeds) = match self.w.payoff_adjoints(&self.path.times, &spots) {
            Err(e) => return Err(e),
            Ok(v) => v,
        };
        let derivatives = match self.k.pullback(
            self.m,
            self.y,
            self.path,
            shocks,
            &states,
            &seeds,
            payoff,
        ) {
            Err(e) => return Err(e),
            Ok(v) => v,
        };
        let mut row: Vec<R> = vec![payoff];
        let ghost start = row@;
        let mut i: usize = 0;
        while i < derivatives.len()
            invariant
                i <= derivatives@.len(),
                row@ == start + derivatives@.take(i as int),
            decreases derivatives@.len() - i,
        {
            row.push(derivatives[i]);
            assert(row@ =~= start + derivatives@.take(i + 1));
            i = i + 1;
        }
        assert(derivatives@.take(i as int) =~= derivatives@);
        assert(row@ =~= seq![payoff] + derivatives@);
        Ok(row)
    }

    fn finish(&self, row: Vec<R>) -> (r: Result<Vec<R>, MonteCarloError>) {
        Ok(row)
    }
}

/// The name of the method of a scope.
pub open spec fn aad_method(scope: AadScope) -> &'static str {
    match scope {
        AadScope::Basic => "buehler-split-payoff-reverse-fixed-correlation-v1",
        AadScope::Bergomi => "buehler-bergomi-parameter-reverse-fixed-correlation-v1",
        AadScope::Correlation => "buehler-joint-correlation-reverse-v1",
    }
}

/// What the derivatives of a scope need.
pub open spec fn scope_context<
    R: Scalar,
    L,
    Y: DividendDynamics<R>,
    N: KernelNumerics<R>,
    C: CarryMarket<R>,
>(
    m: Model<R>,
    y: Y,
    o: N,
    market: C,
    path: DividendPathView<R, L>,
    payment: R,
    scope: AadScope,
) -> Result<ContextView<R>, MonteCarloError> {
    match context_of(y, market, path, payment) {
        Err(e) => Err(e),
        Ok(k) => match scope {
            AadScope::Basic => Ok(k),
            AadScope::Bergomi => with_parameters(m, o, k, path),
            AadScope::Correlation => with_correlations(m, o, k, path),
        },
    }
}

/// Prepares what the derivatives of a scope need.
fn prepare_scope<
    R: Scalar,
    L,
    M: Math<R>,
    Y: DividendDynamics<R>,
    N: KernelNumerics<R>,
    C: CarryMarket<R>,
>(
    m: &M,
    y: &Y,
    o: &N,
    market: &C,
    path: &DividendPath<R, L>,
    payment: R,
    scope: AadScope,
) -> (r: Result<ReverseContext<R>, MonteCarloError>)
    requires
        path@.valid(),
        market_sized::<R, C>(*market),
    ensures
        viewed(r) == scope_context(m.model(), *y, *o, *market, path@, payment, scope),
        r matches Ok(k) ==> k@.labels.len() < usize::MAX && k@.of(
            path@.nodes.len(),
            match path@.bergomi {
                Some(f) => Some(f.n()),
                None => None,
            },
        ),
{
    let mut k = match ReverseContext::new(m, y, market, path, payment) {
        Err(e) => return Err(e),
        Ok(k) => k,
    };
    match scope {
        AadScope::Basic => {},
        AadScope::Bergomi => {
            if let Err(e) = k.enable_bergomi_parameters(m, o, path) {
                return Err(e);
            }
        },
        AadScope::Correlation => {
            if let Err(e) = k.enable_correlations(m, o, path) {
                return Err(e);
            }
        },
    }
    Ok(k)
}

/// First-order risk of a plan in a scope: a payoff with derivatives, then what
/// the derivatives need, then the simulation and its estimates.
pub open spec fn aad_evaluated<
    R: Scalar,
    B: Backend<R>,
    Y: DividendDynamics<R>,
    N: KernelNumerics<R>,
    W: PlanWorld<R>,
>(
    m: Model<R>,
    b: B,
    y: Y,
    o: N,
    w: W,
    market: W::Market,
    plan: StochasticDividendPricingPlan<R, DividendPath<R, W::Surface>>,
    scope: AadScope,
) -> Result<AadRiskView<R>, MonteCarloError> {
    if !plan.risk_supported {
        Err(
            unsupported_risk(
                "stochastic-dividend discontinuous payoff requires explicit smoothing",
            ),
        )
    } else {
        match scope_context(
            m,
            y,
            o,
            market,
            plan.path@,
            plan.payment_time,
            scope,
        ) {
            Err(e) => Err(e),
            Ok(k) => match plan.job.executor_failure {
                Some(e) => Err(e),
                None => match simulated(
                    m,
                    b,
                    Quantities {
                        width: 1 + k.labels.len(),
                        terms: aad_terms(m, y, w, k, plan.path),
                        finish: as_they_are(),
                    },
                    plan.job,
                ) {
                    Err(e) => Err(e),
                    Ok(s) => match estimated_together(
                        m,
                        s,
                        plan.job.engine.units(),
                        "risk_estimator",
                    ) {
                        Err(e) => Err(e),
                        Ok((values, errors)) => Ok(
                            AadRiskView {
                                price: price_of(plan, values[0], errors[0]),
                                parameter_labels: k.labels,
                                derivatives: values.skip(1),
                                standard_errors: errors.skip(1),
                                cash_times: k.cash_times,
                                discount_times: k.discount_times,
                                repo_spread_times: k.repo_spread_times,
                                method: aad_method(scope),
                            },
                        ),
                    },
                },
            },
        }
    }
}

/// All entries but the first.
pub fn all_but_first<R: Scalar>(v: &Vec<R>) -> (t: Vec<R>)
    requires
        v@.len() >= 1,
    ensures
        t@ == v@.skip(1),
{
    let n: usize = v.len() - 1;
    let ghost entry = |i: int| v@[i + 1];
    let t_at = |i: usize| -> (x: R)
        requires
            i < n,
        ensures
            x == entry(i as int),
        { v[i + 1] };
    let t = build(
        n,
        t_at,
        Ghost(entry),
    );
    assert(t@ =~= v@.skip(1));
    t
}

impl<R: Scalar, L> StochasticDividendPricingPlan<R, DividendPath<R, L>> {
    /// The plan can be run and differentiated.
    pub open spec fn differentiable<C: CarryMarket<R>>(self, market: C) -> bool {
        &&& self.job.valid()
        &&& self.path@.valid()
        &&& market_sized::<R, C>(market)
    }

    fn evaluate_aad_scope<
        M: Math<R>,
        B: Backend<R>,
        Y: DividendDynamics<R>,
        N: KernelNumerics<R>,
        W: PlanWorld<R, Surface = L>,
    >(
        &self,
        m: &M,
        b: &B,
        y: &Y,
        o: &N,
        w: &W,
        market: &W::Market,
        scope: AadScope,
    ) -> (r: Result<StochasticDividendAadRisk<R>, MonteCarloError>)
        requires
            self.differentiable(*market),
        ensures
            viewed(r) == aad_evaluated(m.model(), *b, *y, *o, *w, *market, *self, scope),
            r matches Ok(risk) ==> risk@.valid() && risk@.derivatives.len()
                == risk@.parameter_labels.len() && risk@.standard_errors.len()
                == risk@.parameter_labels.len(),
    {
        if !self.risk_supported {
            return Err(
                MonteCarloError::UnsupportedRiskForModel {
                    model: "stochastic-dividend discontinuous payoff requires explicit smoothing",
                },
            );
        }
        let k = match prepare_scope(m, y, o, market, &self.path, self.payment_time, scope) {
            Err(e) => return Err(e),
            Ok(k) => k,
        };
        if let Some(e) = self.job.executor_failure {
            return Err(e);
        }
        proof {
            let model = m.model();
            scopes_name_pillars(model, *y, *o, *market, self.path@, self.payment_time, scope);
        }
        let width: usize = 1 + k.labels.len();
        let contribution = AadContribution { m, y, w, k: &k, path: &self.path };
        let statistics = match simulate(m, b, &contribution, &self.job, width) {
            Err(e) => return Err(e),
            Ok(s) => s,
        };
        let estimates = match estimate_together(
            m,
            &statistics,
            engine_units(&self.job.engine),
            "risk_estimator",
        ) {
            Err(e) => return Err(e),
            Ok(e) => e,
        };
        let price = self.price(estimates.values[0], estimates.errors[0]);
        Ok(
            StochasticDividendAadRisk {
                price,
                parameter_labels: k.labels,
                derivatives: all_but_first(&estimates.values),
                standard_errors: all_but_first(&estimates.errors),
                cash_times: k.cash_times,
                discount_times: k.discount_times,
                repo_spread_times: k.repo_spread_times,
                method: match scope {
                    AadScope::Basic => "buehler-split-payoff-reverse-fixed-correlation-v1",
                    AadScope::Bergomi => "buehler-bergomi-parameter-reverse-fixed-correlation-v1",
                    AadScope::Correlation => "buehler-joint-correlation-reverse-v1",
                },
            },
        )
    }
}

impl<R: Scalar, L> StochasticDividendPricingPlan<R, DividendPath<R, L>> {
    /// First-order risk with respect to the parameters of the nodes.
    pub fn evaluate_aad<
        M: Math<R>,
        B: Backend<R>,
        Y: DividendDynamics<R>,
        N: KernelNumerics<R>,
        W: PlanWorld<R, Surface = L>,
    >(
        &self,
        m: &M,
        b: &B,
        y: &Y,
        o: &N,
        w: &W,
        market: &W::Market,
    ) -> (r: Result<StochasticDividendAadRisk<R>, MonteCarloError>)
        requires
            self.differentiable(*market),
        ensures
            viewed(r) == aad_evaluated(
                m.model(),
                *b,
                *y,
                *o,
                *w,
                *market,
                *self,
                AadScope::Basic,
            ),
            r matches Ok(risk) ==> risk@.valid() && risk@.derivatives.len()
                == risk@.parameter_labels.len() && risk@.standard_errors.len()
                == risk@.parameter_labels.len(),
    {
        self.evaluate_aad_scope(m, b, y, o, w, market, AadScope::Basic)
    }

    /// First-order risk that also covers the parameters of the volatility factors.
    pub fn evaluate_bergomi_aad<
        M: Math<R>,
        B: Backend<R>,
        Y: DividendDynamics<R>,
        N: KernelNumerics<R>,
        W: PlanWorld<R, Surface = L>,
    >(
        &self,
        m: &M,
        b: &B,
        y: &Y,
        o: &N,
        w: &W,
        market: &W::Market,
    ) -> (r: Result<StochasticDividendAadRisk<R>, MonteCarloError>)
        requires
            self.differentiable(*market),
        ensures
            viewed(r) == aad_evaluated(
                m.model(),
                *b,
                *y,
                *o,
                *w,
                *market,
                *self,
                AadScope::Bergomi,
            ),
            r matches Ok(risk) ==> risk@.valid() && risk@.derivatives.len()
                == risk@.parameter_labels.len() && risk@.standard_errors.len()
                == risk@.parameter_labels.len(),
    {
        self.evaluate_aad_scope(m, b, y, o, w, market, AadScope::Bergomi)
    }

    /// First-order risk that also covers the correlations of the drivers.
    pub fn evaluate_correlation_aad<
        M: Math<R>,
        B: Backend<R>,
        Y: DividendDynamics<R>,
        N: KernelNumerics<R>,
        W: PlanWorld<R, Surface = L>,
    >(
        &self,
        m: &M,
        b: &B,
        y: &Y,
        o: &N,
        w: &W,
        market: &W::Market,
    ) -> (r: Result<StochasticDividendAadRisk<R>, MonteCarloError>)
        requires
            self.differentiable(*market),
        ensures
            viewed(r) == aad_evaluated(
                m.model(),
                *b,
                *y,
                *o,
                *w,
                *market,
                *self,
                AadScope::Correlation,
            ),
            r matches Ok(risk) ==> risk@.valid() && risk@.derivatives.len()
                == risk@.parameter_labels.len() && risk@.standard_errors.len()
                == risk@.parameter_labels.len(),
            self.path@.rough is Some ==> r is Err,
            self.path@.rough is Some && self.risk_supported && context_of(
                *y,
                *market,
                self.path@,
                self.payment_time,
            ) is Ok ==> r == Err::<StochasticDividendAadRisk<R>, MonteCarloError>(
                rough_correlations_unsupported(),
            ),
    {
        self.evaluate_aad_scope(m, b, y, o, w, market, AadScope::Correlation)
    }
}

/// The payoff of a path alone, out of its payoff with derivatives.
pub open spec fn payoff_terms<R: Scalar, W: PlanWorld<R>>(
    w: W,
    path: DividendPath<R, W::Surface>,
) -> spec_fn(Seq<R>) -> Result<Seq<R>, MonteCarloError> {
    |shocks: Seq<R>|
        match w.evolution(path, shocks) {
            Err(e) => Err(e),
            Ok(states) => match plan_spots(w, path.nodes@, states) {
                Err(e) => Err(e),
                Ok(spots) => match w.payoff_adjoints_of(path.times@, spots) {
                    Err(e) => Err(e),
                    Ok((payoff, _)) => Ok(seq![payoff]),
                },
            },
        }
}

/// The context of every scope has a name for each dividend and each pillar, behind those
/// of the spot, the volatilities and the reversion.
pub proof fn scopes_name_pillars<
    R: Scalar,
    L,
    Y: DividendDynamics<R>,
    N: KernelNumerics<R>,
    C: CarryMarket<R>,
>(
    m: Model<R>,
    y: Y,
    o: N,
    market: C,
    path: DividendPathView<R, L>,
    payment: R,
    scope: AadScope,
)
    ensures
        scope_context(m, y, o, market, path, payment, scope) matches Ok(k) ==> 5
            + k.cash_times.len() + k.discount_times.len() + k.repo_spread_times.len()
            <= k.labels.len(),
{
}

/// The parameters of the context of every scope can be counted.
pub proof fn scopes_are_counted<
    R: Scalar,
    L,
    Y: DividendDynamics<R>,
    N: KernelNumerics<R>,
    C: CarryMarket<R>,
>(
    m: Model<R>,
    y: Y,
    o: N,
    market: C,
    path: DividendPathView<R, L>,
    payment: R,
    scope: AadScope,
)
    requires
        path.valid(),
        market_sized::<R, C>(market),
    ensures
        scope_context(m, y, o, market, path, payment, scope) matches Ok(k) ==> k.counted(
            path.nodes.len(),
        ),
{
    context_is_counted(y, market, path, payment);
}

/// The rows of a context hold a number for each parameter.
spec fn rows_sized<R: Scalar, Y: DividendDynamics<R>, W: PlanWorld<R>>(
    m: Model<R>,
    y: Y,
    w: W,
    k: ContextView<R>,
    path: DividendPath<R, W::Surface>,
) -> bool {
    forall|z: Seq<R>|
        #[trigger] aad_terms(m, y, w, k, path)(z) matches Ok(row) ==> row.len() == 1
            + k.labels.len()
}

proof fn rows_are_sized<R: Scalar, Y: DividendDynamics<R>, W: PlanWorld<R>>(
    m: Model<R>,
    y: Y,
    w: W,
    k: ContextView<R>,
    path: DividendPath<R, W::Surface>,
)
    requires
        path@.valid(),
        k.counted(path@.nodes.len()),
    ensures
        rows_sized(m, y, w, k, path),
{
    assert forall|z: Seq<R>|
        #[trigger] aad_terms(m, y, w, k, path)(z) matches Ok(row) ==> row.len() == 1
            + k.labels.len() by {
        if let Ok(row) = aad_terms(m, y, w, k, path)(z) {
            let states = w.evolution(path, z)->Ok_0;
            let spots = plan_spots(w, path.nodes@, states)->Ok_0;
            let (payoff, seeds) = w.payoff_adjoints_of(path.times@, spots)->Ok_0;
            pullback_is_sized(m, y, k, path@, z, states, seeds, payoff);
        }
    }
}

proof fn payoff_comes_first<
    R: Scalar,
    B: Backend<R>,
    Y: DividendDynamics<R>,
    W: PlanWorld<R>,
>(m: Model<R>, b: B, y: Y, w: W, k: ContextView<R>, path: DividendPath<R, W::Surface>, job: Job)
    requires
        rows_sized(m, y, w, k, path),
    ensures
        simulated(
            m,
            b,
            Quantities {
                width: 1 + k.labels.len(),
                terms: aad_terms(m, y, w, k, path),
                finish: as_they_are(),
            },
            job,
        ) matches Ok(s) ==> s.len() == 1 + k.labels.len() && simulated(
            m,
            b,
            Quantities { width: 1, terms: payoff_terms(w, path), finish: as_they_are() },
            job,
        ) == Ok::<Seq<Statistics<R>>, MonteCarloError>(s.take(1)),
{
    let wide = Quantities {
        width: 1 + k.labels.len(),
        terms: aad_terms(m, y, w, k, path),
        finish: as_they_are(),
    };
    let narrow = Quantities { width: 1, terms: payoff_terms(w, path), finish: as_they_are() };
    assert forall|z: Seq<R>|
        begins((narrow.terms)(z), #[trigger] (wide.terms)(z), narrow.width, wide.width) by {
        if let Ok(row) = aad_terms(m, y, w, k, path)(z) {
            assert(row.len() == 1 + k.labels.len());
            assert(row.take(1) =~= seq![row[0]]);
        }
    }
    wider_simulation_keeps_statistics(m, b, narrow, wide, job);
}

/// The price of a risk does not depend on its scope.
pub proof fn scopes_share_a_price<
    R: Scalar,
    B: Backend<R>,
    Y: DividendDynamics<R>,
    N: KernelNumerics<R>,
    W: PlanWorld<R>,
>(
    m: Model<R>,
    b: B,
    y: Y,
    o: N,
    w: W,
    market: W::Market,
    plan: StochasticDividendPricingPlan<R, DividendPath<R, W::Surface>>,
    first: AadScope,
    second: AadScope,
)
    requires
        plan.differentiable(market),
    ensures
        aad_evaluated(m, b, y, o, w, market, plan, first) is Ok && aad_evaluated(
            m,
            b,
            y,
            o,
            w,
            market,
            plan,
            second,
        ) is Ok ==> aad_evaluated(m, b, y, o, w, market, plan, first)->Ok_0.price == aad_evaluated(
            m,
            b,
            y,
            o,
            w,
            market,
            plan,
            second,
        )->Ok_0.price,
{
    let one = aad_evaluated(m, b, y, o, w, market, plan, first);
    let two = aad_evaluated(m, b, y, o, w, market, plan, second);
    if one is Ok && two is Ok {
        let j = scope_context(m, y, o, market, plan.path@, plan.payment_time, first)->Ok_0;
        let k = scope_context(m, y, o, market, plan.path@, plan.payment_time, second)->Ok_0;
        scopes_are_counted(m, y, o, market, plan.path@, plan.payment_time, first);
        scopes_are_counted(m, y, o, market, plan.path@, plan.payment_time, second);
        rows_are_sized(m, y, w, j, plan.path);
        rows_are_sized(m, y, w, k, plan.path);
        payoff_comes_first(m, b, y, w, j, plan.path, plan.job);
        payoff_comes_first(m, b, y, w, k, plan.path, plan.job);
        let s = simulated(
            m,
            b,
            Quantities {
                width: 1 + j.labels.len(),
                terms: aad_terms(m, y, w, j, plan.path),
                finish: as_they_are(),
            },
            plan.job,
        )->Ok_0;
        let t = simulated(
            m,
            b,
            Quantities {
                width: 1 + k.labels.len(),
                terms: aad_terms(m, y, w, k, plan.path),
                finish: as_they_are(),
            },
            plan.job,
        )->Ok_0;
        assert(s.take(1)[0] == t.take(1)[0]);
        let units = plan.job.engine.units();
        fewer_estimates_are_a_beginning(m, s, units, "risk_estimator", 1);
        fewer_estimates_are_a_beginning(m, t, units, "risk_estimator", 1);
        let (a, e) = estimated_together(m, s, units, "risk_estimator")->Ok_0;
        let (c, f) = estimated_together(m, t, units, "risk_estimator")->Ok_0;
        assert(a.take(1)[0] == c.take(1)[0]);
        assert(e.take(1)[0] == f.take(1)[0]);
    }
}

/// The first term of a path under a risk is its value, where the payoff is the same with
/// its derivatives and without.
pub proof fn aad_keeps_the_value<R: Scalar, Y: DividendDynamics<R>, W: PlanWorld<R>>(
    m: Model<R>,
    y: Y,
    w: W,
    k: ContextView<R>,
    path: DividendPath<R, W::Surface>,
    z: Seq<R>,
)
    requires
        forall|grid: Seq<R>, spots: Seq<W::Spot>|
            #[trigger] w.payoff_adjoints_of(grid, spots) matches Ok((payoff, _))
                ==> w.payoff_of(grid, spots) == Ok::<R, MonteCarloError>(payoff),
    ensures
        aad_terms(m, y, w, k, path)(z) matches Ok(row) ==> path_value(w, path)(z) == Ok::<
            R,
            MonteCarloError,
        >(row[0]),
{
}

} // verus!
