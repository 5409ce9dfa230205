//! Stochastic volatility at rates that do not move: plans of equity and rates
//! whose rates have no volatility and no correlation.

use crate::errors::MonteCarloError;
use crate::hybrid_context::HullWhiteEquityPricingPlan;
use crate::hybrid_risk::{hybrid_evaluated, HullWhiteAadRisk};
use crate::hybrid_world::{HullWhitePrice, HybridWorld};
use crate::linear::viewed;
use crate::models::{Bergomi1Factor, Bergomi2Factor, Fingerprint, Pair, RoughBergomi};
use crate::paid_market::PaidMarket;
use crate::rates::{
    correlated, deterministic_rates, rate_field, rates_error, HullWhite1Factor, HybridCorrelation,
    RatesView,
};
use crate::sampling::Backend;
use crate::scalar::{literal, Math, Model, Scalar};
use vstd::prelude::*;

verus! {

/// What compiles plans of equity and rates.
pub trait HybridCompiler<R: Scalar> {
    /// What is to be priced.
    type Request;

    /// How it is to be run.
    type Policy;

    /// The plan of one-factor volatility with rates.
    spec fn compiled_one(
        &self,
        request: Self::Request,
        factor: Bergomi1Factor<R>,
        rates: RatesView<R>,
        correlation: HybridCorrelation<R>,
        maximum_step: R,
        policy: Self::Policy,
    ) -> Result<HullWhiteEquityPricingPlan<R>, MonteCarloError>;

    /// The plan of two-factor volatility with rates.
    spec fn compiled_two(
        &self,
        request: Self::Request,
        factor: Bergomi2Factor<R>,
        rates: RatesView<R>,
        equity_rate: R,
        factor_rates: Pair<R>,
        maximum_step: R,
        policy: Self::Policy,
    ) -> Result<HullWhiteEquityPricingPlan<R>, MonteCarloError>;

    /// The plan of rough volatility with rates.
    spec fn compiled_rough(
        &self,
        request: Self::Request,
        factor: RoughBergomi<R>,
        rates: RatesView<R>,
        correlation: HybridCorrelation<R>,
        maximum_step: R,
        policy: Self::Policy,
    ) -> Result<HullWhiteEquityPricingPlan<R>, MonteCarloError>;

    /// Computes [`Self::compiled_one`].
    fn compile_one(
        &self,
        request: &Self::Request,
        factor: Bergomi1Factor<R>,
        rates: &HullWhite1Factor<R>,
        correlation: HybridCorrelation<R>,
        maximum_step: R,
        policy: &Self::Policy,
    ) -> (r: Result<HullWhiteEquityPricingPlan<R>, MonteCarloError>)
        ensures
            r == self.compiled_one(*request, factor, rates@, correlation, maximum_step, *policy),
    ;

    /// Computes [`Self::compiled_two`].
    fn compile_two(
        &self,
        request: &Self::Request,
        factor: Bergomi2Factor<R>,
        rates: &HullWhite1Factor<R>,
        equity_rate: R,
        factor_rates: Pair<R>,
        maximum_step: R,
        policy: &Self::Policy,
    ) -> (r: Result<HullWhiteEquityPricingPlan<R>, MonteCarloError>)
        ensures
            r == self.compiled_two(
                *request,
                factor,
                rates@,
                equity_rate,
                factor_rates,
                maximum_step,
                *policy,
            ),
    ;

    /// Computes [`Self::compiled_rough`].
    fn compile_rough(
        &self,
        request: &Self::Request,
        factor: RoughBergomi<R>,
        rates: &HullWhite1Factor<R>,
        correlation: HybridCorrelation<R>,
        maximum_step: R,
        policy: &Self::Policy,
    ) -> (r: Result<HullWhiteEquityPricingPlan<R>, MonteCarloError>)
        ensures
            r == self.compiled_rough(*request, factor, rates@, correlation, maximum_step, *policy),
    ;
}

/// The functions behind a [`SuppliedHybridCompiler`], as mathematical functions.
#[verifier::reject_recursive_types(R)]
#[verifier::reject_recursive_types(Request)]
#[verifier::reject_recursive_types(Policy)]
pub ghost struct SuppliedHybridCompilerModel<R, Request, Policy> {
    pub compile_one: spec_fn(
        Request,
        Bergomi1Factor<R>,
        RatesView<R>,
        HybridCorrelation<R>,
        R,
        Policy,
    ) -> Result<HullWhiteEquityPricingPlan<R>, MonteCarloError>,
    pub compile_two: spec_fn(
        Request,
        Bergomi2Factor<R>,
        RatesView<R>,
        R,
        Pair<R>,
        R,
        Policy,
    ) -> Result<HullWhiteEquityPricingPlan<R>, MonteCarloError>,
    pub compile_rough: spec_fn(
        Request,
        RoughBergomi<R>,
        RatesView<R>,
        HybridCorrelation<R>,
        R,
        Policy,
    ) -> Result<HullWhiteEquityPricingPlan<R>, MonteCarloError>,
}

/// A [`HybridCompiler`] whose functions are supplied one by one.
#[verifier::reject_recursive_types(R)]
#[verifier::reject_recursive_types(Request)]
#[verifier::reject_recursive_types(Policy)]
pub struct SuppliedHybridCompiler<
    R: Scalar,
    Request,
    Policy,
    FCompileOne: Fn(
        &Request,
        Bergomi1Factor<R>,
        &HullWhite1Factor<R>,
        HybridCorrelation<R>,
        R,
        &Policy,
    ) -> Result<HullWhiteEquityPricingPlan<R>, MonteCarloError>,
    FCompileTwo: Fn(
        &Request,
        Bergomi2Factor<R>,
        &HullWhite1Factor<R>,
        R,
        Pair<R>,
        R,
        &Policy,
    ) -> Result<HullWhiteEquityPricingPlan<R>, MonteCarloError>,
    FCompileRough: Fn(
        &Request,
        RoughBergomi<R>,
        &HullWhite1Factor<R>,
        HybridCorrelation<R>,
        R,
        &Policy,
    ) -> Result<HullWhiteEquityPricingPlan<R>, MonteCarloError>,
> {
    compile_one: FCompileOne,
    compile_two: FCompileTwo,
    compile_rough: FCompileRough,
    model: Ghost<SuppliedHybridCompilerModel<R, Request, Policy>>,
}

impl<
    R: Scalar,
    Request,
    Policy,
    FCompileOne: Fn(
        &Request,
        Bergomi1Factor<R>,
        &HullWhite1Factor<R>,
        HybridCorrelation<R>,
        R,
        &Policy,
    ) -> Result<HullWhiteEquityPricingPlan<R>, MonteCarloError>,
    FCompileTwo: Fn(
        &Request,
        Bergomi2Factor<R>,
        &HullWhite1Factor<R>,
        R,
        Pair<R>,
        R,
        &Policy,
    ) -> Result<HullWhiteEquityPricingPlan<R>, MonteCarloError>,
    FCompileRough: Fn(
        &Request,
        RoughBergomi<R>,
        &HullWhite1Factor<R>,
        HybridCorrelation<R>,
        R,
        &Policy,
    ) -> Result<HullWhiteEquityPricingPlan<R>, MonteCarloError>,
> SuppliedHybridCompiler<R, Request, Policy, FCompileOne, FCompileTwo, FCompileRough> {
    #[verifier::type_invariant]
    closed spec fn inv(self) -> bool {
        Self::callable(self.compile_one, self.compile_two, self.compile_rough)
            && Self::computes(self.compile_one, self.compile_two, self.compile_rough, self.model@)
    }

    /// The functions accept every argument.
    pub open spec fn callable(
        compile_one: FCompileOne,
        compile_two: FCompileTwo,
        compile_rough: FCompileRough,
    ) -> bool {
        &&& forall|
            request: &Request,
            factor: Bergomi1Factor<R>,
            rates: &HullWhite1Factor<R>,
            correlation: HybridCorrelation<R>,
            maximum_step: R,
            policy: &Policy,
        |
            #[trigger] call_requires(
                compile_one,
                (request, factor, rates, correlation, maximum_step, policy),
            )
        &&& forall|
            request: &Request,
            factor: Bergomi2Factor<R>,
            rates: &HullWhite1Factor<R>,
            equity_rate: R,
            factor_rates: Pair<R>,
            maximum_step: R,
            policy: &Policy,
        |
            #[trigger] call_requires(
                compile_two,
                (request, factor, rates, equity_rate, factor_rates, maximum_step, policy),
            )
        &&& forall|
            request: &Request,
            factor: RoughBergomi<R>,
            rates: &HullWhite1Factor<R>,
            correlation: HybridCorrelation<R>,
            maximum_step: R,
            policy: &Policy,
        |
            #[trigger] call_requires(
                compile_rough,
                (request, factor, rates, correlation, maximum_step, policy),
            )
    }

    /// The functions compute those of the model.
    pub open spec fn computes(
        compile_one: FCompileOne,
        compile_two: FCompileTwo,
        compile_rough: FCompileRough,
        model: SuppliedHybridCompilerModel<R, Request, Policy>,
    ) -> bool {
        &&& forall|
            request: &Request,
            factor: Bergomi1Factor<R>,
            rates: &HullWhite1Factor<R>,
            correlation: HybridCorrelation<R>,
            maximum_step: R,
            policy: &Policy,
            result: Result<HullWhiteEquityPricingPlan<R>, MonteCarloError>,
        |
            #[trigger]
            call_ensures(
                compile_one,
                (request, factor, rates, correlation, maximum_step, policy),
                result,
            ) ==> result == (model.compile_one)(
                *request,
                factor,
                rates@,
                correlation,
                maximum_step,
                *policy,
            )
        &&& forall|
            request: &Request,
            factor: Bergomi2Factor<R>,
            rates: &HullWhite1Factor<R>,
            equity_rate: R,
            factor_rates: Pair<R>,
            maximum_step: R,
            policy: &Policy,
            result: Result<HullWhiteEquityPricingPlan<R>, MonteCarloError>,
        |
            #[trigger]
            call_ensures(
                compile_two,
                (request, factor, rates, equity_rate, factor_rates, maximum_step, policy),
                result,
            ) ==> result == (model.compile_two)(
                *request,
                factor,
                rates@,
                equity_rate,
                factor_rates,
                maximum_step,
                *policy,
            )
        &&& forall|
            request: &Request,
            factor: RoughBergomi<R>,
            rates: &HullWhite1Factor<R>,
            correlation: HybridCorrelation<R>,
            maximum_step: R,
            policy: &Policy,
            result: Result<HullWhiteEquityPricingPlan<R>, MonteCarloError>,
        |
            #[trigger]
            call_ensures(
                compile_rough,
                (request, factor, rates, correlation, maximum_step, policy),
                result,
            ) ==> result == (model.compile_rough)(
                *request,
                factor,
                rates@,
                correlation,
                maximum_step,
                *policy,
            )
    }

    /// The functions that were supplied.
    pub closed spec fn supplied(self) -> SuppliedHybridCompilerModel<R, Request, Policy> {
        self.model@
    }

    /// Takes functions that give the same result whenever they are given the
    /// same arguments.
    pub fn new(
        compile_one: FCompileOne,
        compile_two: FCompileTwo,
        compile_rough: FCompileRough,
    ) -> (s: Self)
        requires
            Self::callable(compile_one, compile_two, compile_rough),
            exists|model: SuppliedHybridCompilerModel<R, Request, Policy>|
                #[trigger] Self::computes(
                    compile_one,
                    compile_two,
                    compile_rough,
                    model,
                ),
        ensures
            Self::computes(compile_one, compile_two, compile_rough, s.supplied()),
    {
        let ghost model = choose|model: SuppliedHybridCompilerModel<R, Request, Policy>| #[trigger]
            Self::computes(
            compile_one,
            compile_two,
            compile_rough,
            model,
        );
        SuppliedHybridCompiler { compile_one, compile_two, compile_rough, model: Ghost(model) }
    }

    /// Takes functions that are known to compute `model`.
    pub fn with_model(
        compile_one: FCompileOne,
        compile_two: FCompileTwo,
        compile_rough: FCompileRough,
        model: Ghost<SuppliedHybridCompilerModel<R, Request, Policy>>,
    ) -> (s: Self)
        requires
            Self::callable(compile_one, compile_two, compile_rough),
            Self::computes(compile_one, compile_two, compile_rough, model@),
        ensures
            s.supplied() == model@,
    {
        SuppliedHybridCompiler { compile_one, compile_two, compile_rough, model }
    }
}

impl<
    R: Scalar,
    Request,
    Policy,
    FCompileOne: Fn(
        &Request,
        Bergomi1Factor<R>,
        &HullWhite1Factor<R>,
        HybridCorrelation<R>,
        R,
        &Policy,
    ) -> Result<HullWhiteEquityPricingPlan<R>, MonteCarloError>,
    FCompileTwo: Fn(
        &Request,
        Bergomi2Factor<R>,
        &HullWhite1Factor<R>,
        R,
        Pair<R>,
        R,
        &Policy,
    ) -> Result<HullWhiteEquityPricingPlan<R>, MonteCarloError>,
    FCompileRough: Fn(
        &Request,
        RoughBergomi<R>,
        &HullWhite1Factor<R>,
        HybridCorrelation<R>,
        R,
        &Policy,
    ) -> Result<HullWhiteEquityPricingPlan<R>, MonteCarloError>,
> HybridCompiler<R> for SuppliedHybridCompiler<
    R,
    Request,
    Policy,
    FCompileOne,
    FCompileTwo,
    FCompileRough,
> {
    type Request = Request;

    type Policy = Policy;

    open spec fn compiled_one(
        &self,
        request: Self::Request,
        factor: Bergomi1Factor<R>,
        rates: RatesView<R>,
        correlation: HybridCorrelation<R>,
        maximum_step: R,
        policy: Self::Policy,
    ) -> Result<HullWhiteEquityPricingPlan<R>, MonteCarloError> {
        (self.supplied().compile_one)(request, factor, rates, correlation, maximum_step, policy)
    }

    open spec fn compiled_two(
        &self,
        request: Self::Request,
        factor: Bergomi2Factor<R>,
        rates: RatesView<R>,
        equity_rate: R,
        factor_rates: Pair<R>,
        maximum_step: R,
        policy: Self::Policy,
    ) -> Result<HullWhiteEquityPricingPlan<R>, MonteCarloError> {
        (self.supplied().compile_two)(
            request,
            factor,
            rates,
            equity_rate,
            factor_rates,
            maximum_step,
            policy,
        )
    }

    open spec fn compiled_rough(
        &self,
        request: Self::Request,
        factor: RoughBergomi<R>,
        rates: RatesView<R>,
        correlation: HybridCorrelation<R>,
        maximum_step: R,
        policy: Self::Policy,
    ) -> Result<HullWhiteEquityPricingPlan<R>, MonteCarloError> {
        (self.supplied().compile_rough)(request, factor, rates, correlation, maximum_step, policy)
    }

    fn compile_one(
        &self,
        request: &Self::Request,
        factor: Bergomi1Factor<R>,
        rates: &HullWhite1Factor<R>,
        correlation: HybridCorrelation<R>,
        maximum_step: R,
        policy: &Self::Policy,
    ) -> (r: Result<HullWhiteEquityPricingPlan<R>, MonteCarloError>) {
        proof {
            use_type_invariant(self);
        }
        (self.compile_one)(request, factor, rates, correlation, maximum_step, policy)
    }

    fn compile_two(
        &self,
        request: &Self::Request,
        factor: Bergomi2Factor<R>,
        rates: &HullWhite1Factor<R>,
        equity_rate: R,
        factor_rates: Pair<R>,
        maximum_step: R,
        policy: &Self::Policy,
    ) -> (r: Result<HullWhiteEquityPricingPlan<R>, MonteCarloError>) {
        proof {
            use_type_invariant(self);
        }
        (self.compile_two)(request, factor, rates, equity_rate, factor_rates, maximum_step, policy)
    }

    fn compile_rough(
        &self,
        request: &Self::Request,
        factor: RoughBergomi<R>,
        rates: &HullWhite1Factor<R>,
        correlation: HybridCorrelation<R>,
        maximum_step: R,
        policy: &Self::Policy,
    ) -> (r: Result<HullWhiteEquityPricingPlan<R>, MonteCarloError>) {
        proof {
            use_type_invariant(self);
        }
        (self.compile_rough)(request, factor, rates, correlation, maximum_step, policy)
    }
}

/// A plan of stochastic volatility without a calibration: its volatility factors
/// are held fixed, and its vega is that of the initial volatility.
pub struct StochasticVolatilityPricingPlan<R> {
    pub inner: HullWhiteEquityPricingPlan<R>,
}

/// Rates that do not move, or why they are refused.
pub open spec fn still_rates<R: Scalar>(m: Model<R>) -> Result<RatesView<R>, MonteCarloError> {
    match rates_error(m, literal::<R>(0), seq![literal::<R>(0)], seq![literal::<R>(0)]) {
        Some(e) => Err(e),
        None => Ok(
            RatesView {
                mean_reversion: literal(0),
                volatility_times: seq![literal::<R>(0)],
                volatilities: seq![literal::<R>(0)],
            },
        ),
    }
}

/// The correlations of equity and volatility with rates that do not move, or why
/// they are refused.
pub open spec fn still_correlation<R: Scalar>(m: Model<R>, correlation: R) -> Result<
    HybridCorrelation<R>,
    MonteCarloError,
> {
    let c = HybridCorrelation {
        equity_second: correlation,
        equity_rate: literal(0),
        second_rate: literal(0),
    };
    if correlated(m, c) {
        Ok(c)
    } else {
        Err(rate_field("correlation", 0))
    }
}

/// The plan that stands for a plan of equity and rates.
pub open spec fn wrapped<R>(
    r: Result<HullWhiteEquityPricingPlan<R>, MonteCarloError>,
) -> Result<StochasticVolatilityPricingPlan<R>, MonteCarloError> {
    match r {
        Ok(inner) => Ok(StochasticVolatilityPricingPlan { inner }),
        Err(e) => Err(e),
    }
}

fn wrap<R>(r: Result<HullWhiteEquityPricingPlan<R>, MonteCarloError>) -> (w: Result<
    StochasticVolatilityPricingPlan<R>,
    MonteCarloError,
>)
    ensures
        w == wrapped(r),
{
    match r {
        Ok(inner) => Ok(StochasticVolatilityPricingPlan { inner }),
        Err(e) => Err(e),
    }
}

/// The plan of one-factor volatility: the hybrid one at rates that do not move.
pub open spec fn one_factor_plan<R: Scalar, Z: HybridCompiler<R>>(
    m: Model<R>,
    compiler: Z,
    request: Z::Request,
    factor: Bergomi1Factor<R>,
    maximum_step: R,
    policy: Z::Policy,
) -> Result<StochasticVolatilityPricingPlan<R>, MonteCarloError> {
    match still_rates(m) {
        Err(e) => Err(e),
        Ok(rates) => match still_correlation(m, factor.correlation) {
            Err(e) => Err(e),
            Ok(correlation) => wrapped(
                compiler.compiled_one(request, factor, rates, correlation, maximum_step, policy),
            ),
        },
    }
}

/// The plan of two-factor volatility.
pub open spec fn two_factor_plan<R: Scalar, Z: HybridCompiler<R>>(
    m: Model<R>,
    compiler: Z,
    request: Z::Request,
    factor: Bergomi2Factor<R>,
    maximum_step: R,
    policy: Z::Policy,
) -> Result<StochasticVolatilityPricingPlan<R>, MonteCarloError> {
    match still_rates(m) {
        Err(e) => Err(e),
        Ok(rates) => wrapped(
            compiler.compiled_two(
                request,
                factor,
                rates,
                literal(0),
                Pair { first: literal::<R>(0), second: literal::<R>(0) },
                maximum_step,
                policy,
            ),
        ),
    }
}

/// The plan of rough volatility.
pub open spec fn rough_plan<R: Scalar, Z: HybridCompiler<R>>(
    m: Model<R>,
    compiler: Z,
    request: Z::Request,
    factor: RoughBergomi<R>,
    maximum_step: R,
    policy: Z::Policy,
) -> Result<StochasticVolatilityPricingPlan<R>, MonteCarloError> {
    match still_rates(m) {
        Err(e) => Err(e),
        Ok(rates) => match still_correlation(m, factor.correlation) {
            Err(e) => Err(e),
            Ok(correlation) => wrapped(
                compiler.compiled_rough(request, factor, rates, correlation, maximum_step, policy),
            ),
        },
    }
}

impl<R: Scalar> StochasticVolatilityPricingPlan<R> {
    /// Compiles one-factor volatility.
    pub fn compile_bergomi<M: Math<R>, Z: HybridCompiler<R>>(
        m: &M,
        compiler: &Z,
        request: &Z::Request,
        factor: Bergomi1Factor<R>,
        maximum_step: R,
        policy: &Z::Policy,
    ) -> (r: Result<Self, MonteCarloError>)
        ensures
            r == one_factor_plan(m.model(), *compiler, *request, factor, maximum_step, *policy),
    {
        m.laws();
        let rates = match deterministic_rates(m) {
            Err(e) => return Err(e),
            Ok(v) => v,
        };
        let zero = R::from(0u32);
        let correlation = match HybridCorrelation::new(m, factor.correlation, zero, zero) {
            Err(e) => return Err(e),
            Ok(v) => v,
        };
        wrap(compiler.compile_one(request, factor, &rates, correlation, maximum_step, policy))
    }

    /// Compiles two-factor volatility.
    pub fn compile_bergomi_two_factor<M: Math<R>, Z: HybridCompiler<R>>(
        m: &M,
        compiler: &Z,
        request: &Z::Request,
        factor: Bergomi2Factor<R>,
        maximum_step: R,
        policy: &Z::Policy,
    ) -> (r: Result<Self, MonteCarloError>)
        ensures
            r == two_factor_plan(m.model(), *compiler, *request, factor, maximum_step, *policy),
    {
        m.laws();
        let rates = match deterministic_rates(m) {
            Err(e) => return Err(e),
            Ok(v) => v,
        };
        let zero = R::from(0u32);
        let none = Pair { first: zero, second: zero };
        wrap(compiler.compile_two(request, factor, &rates, zero, none, maximum_step, policy))
    }

    /// Compiles rough volatility.
    pub fn compile_rough_bergomi<M: Math<R>, Z: HybridCompiler<R>>(
        m: &M,
        compiler: &Z,
        request: &Z::Request,
        factor: RoughBergomi<R>,
        maximum_step: R,
        policy: &Z::Policy,
    ) -> (r: Result<Self, MonteCarloError>)
        ensures
            r == rough_plan(m.model(), *compiler, *request, factor, maximum_step, *policy),
    {
        m.laws();
        let rates = match deterministic_rates(m) {
            Err(e) => return Err(e),
            Ok(v) => v,
        };
        let zero = R::from(0u32);
        let correlation = match HybridCorrelation::new(m, factor.correlation, zero, zero) {
            Err(e) => return Err(e),
            Ok(v) => v,
        };
        wrap(compiler.compile_rough(request, factor, &rates, correlation, maximum_step, policy))
    }

    /// The price of the plan.
    pub fn evaluate<W: HybridWorld<R>>(&self, w: &W) -> (r: Result<
        HullWhitePrice<R>,
        MonteCarloError,
    >)
        ensures
            r == w.priced(self.inner),
    {
        w.price(&self.inner)
    }

    /// First-order risk of the plan.
    pub fn evaluate_aad<M: Math<R>, B: Backend<R>, W: HybridWorld<R>, C: PaidMarket<R>>(
        &self,
        m: &M,
        b: &B,
        w: &W,
        c: &C,
    ) -> (r: Result<HullWhiteAadRisk<R>, MonteCarloError>)
        requires
            self.inner.valid(m.model(), *w, *c),
        ensures
            viewed(r) == hybrid_evaluated(m.model(), *b, *w, *c, self.inner),
            r matches Ok(risk) ==> risk@.valid() && risk@.parameter_labels.len()
                == risk@.derivatives.len(),
    {
        self.inner.evaluate_aad(m, b, w, c)
    }

    /// The digest of everything that determines the plan.
    pub fn plan_fingerprint(&self) -> (f: Fingerprint)
        ensures
            f == self.inner.fingerprint,
    {
        self.inner.fingerprint
    }

    /// The times of the paths.
    pub fn time_nodes(&self) -> (v: &Vec<R>)
        ensures
            v@ == self.inner.time_nodes@,
    {
        &self.inner.time_nodes
    }

    /// The number of random factors of a path.
    pub fn random_factor_count(&self) -> (n: usize)
        ensures
            n == self.inner.random_factor_count,
    {
        self.inner.random_factor_count
    }

    /// The spot less what is set aside for dividends.
    pub fn risky_spot(&self) -> (x: R)
        ensures
            x == self.inner.risky_spot,
    {
        self.inner.risky_spot
    }

    /// How cash dividends are modelled, where there are some.
    pub fn cash_dividend_model(&self) -> (x: Option<&'static str>)
        ensures
            x == self.inner.cash_dividend_model,
    {
        self.inner.cash_dividend_model
    }
}

/// One-factor volatility has the price of the hybrid plan whose rates do not move and
/// are not correlated with it.
pub proof fn one_factor_price_is_hybrid<R: Scalar, Z: HybridCompiler<R>, W: HybridWorld<R>>(
    m: Model<R>,
    w: W,
    compiler: Z,
    request: Z::Request,
    factor: Bergomi1Factor<R>,
    maximum_step: R,
    policy: Z::Policy,
    hybrid: HullWhiteEquityPricingPlan<R>,
)
    requires
        still_rates(m) is Ok,
        still_correlation(m, factor.correlation) is Ok,
        compiler.compiled_one(
            request,
            factor,
            still_rates(m)->Ok_0,
            still_correlation(m, factor.correlation)->Ok_0,
            maximum_step,
            policy,
        ) == Ok::<
            HullWhiteEquityPricingPlan<R>,
            MonteCarloError,
        >(hybrid),
    ensures
        one_factor_plan(m, compiler, request, factor, maximum_step, policy) matches Ok(plan)
            && w.priced(plan.inner) == w.priced(hybrid),
{
}

/// Two-factor volatility has the price of the hybrid plan whose rates do not move and
/// are not correlated with it.
pub proof fn two_factor_price_is_hybrid<R: Scalar, Z: HybridCompiler<R>, W: HybridWorld<R>>(
    m: Model<R>,
    w: W,
    compiler: Z,
    request: Z::Request,
    factor: Bergomi2Factor<R>,
    maximum_step: R,
    policy: Z::Policy,
    hybrid: HullWhiteEquityPricingPlan<R>,
)
    requires
        still_rates(m) is Ok,
        compiler.compiled_two(
            request,
            factor,
            still_rates(m)->Ok_0,
            literal(0),
            (Pair { first: literal::<R>(0), second: literal::<R>(0) }),
            maximum_step,
            policy,
        ) == Ok::<
            HullWhiteEquityPricingPlan<R>,
            MonteCarloError,
        >(hybrid),
    ensures
        two_factor_plan(m, compiler, request, factor, maximum_step, policy) matches Ok(plan)
            && w.priced(plan.inner) == w.priced(hybrid),
{
}

/// Rough volatility has the price of the hybrid plan whose rates do not move and are
/// not correlated with it.
pub proof fn rough_price_is_hybrid<R: Scalar, Z: HybridCompiler<R>, W: HybridWorld<R>>(
    m: Model<R>,
    w: W,
    compiler: Z,
    request: Z::Request,
    factor: RoughBergomi<R>,
    maximum_step: R,
    policy: Z::Policy,
    hybrid: HullWhiteEquityPricingPlan<R>,
)
    requires
        still_rates(m) is Ok,
        still_correlation(m, factor.correlation) is Ok,
        compiler.compiled_rough(
            request,
            factor,
            still_rates(m)->Ok_0,
            still_correlation(m, factor.correlation)->Ok_0,
            maximum_step,
            policy,
        ) == Ok::<
            HullWhiteEquityPricingPlan<R>,
            MonteCarloError,
        >(hybrid),
    ensures
        rough_plan(m, compiler, request, factor, maximum_step, policy) matches Ok(plan)
            && w.priced(plan.inner) == w.priced(hybrid),
{
}

} // verus!
