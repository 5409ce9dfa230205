//! What a plan is compiled from.

use crate::engine::EngineConfig;
use crate::errors::MonteCarloError;
use crate::models::Fingerprint;
use crate::rates::{HullWhite1Factor, RatesView};
use crate::results::seen;
use crate::scalar::Scalar;
use vstd::prelude::*;

verus! {

/// What a request asks for.
#[derive(Clone, Copy, Debug, PartialEq)]
pub struct PlanRequest<R> {
    pub delta: bool,
    pub gamma: bool,
    pub vega: bool,
    pub vega_kt: bool,
    /// The volatility, where it is constant.
    pub volatility: Option<R>,
    /// The time of the expiry.
    pub expiry: R,
    /// The time of the payment.
    pub payment: R,
    pub engine: EngineConfig,
    /// The payoff has derivatives by itself.
    pub pathwise: bool,
    /// The payoff is smoothed.
    pub smoothed: bool,
}

/// What a plan obtains from its surroundings when it is compiled.
pub trait CompileWorld<R: Scalar> {
    /// The times at which the product looks at the spot, or why it is refused.
    spec fn observation_times_of(&self) -> Result<Seq<R>, MonteCarloError>;

    /// The digest of the request.
    spec fn base_fingerprint_of(&self) -> Fingerprint;

    /// The grid that holds some times and whose steps are short enough.
    spec fn grid_of(&self, required: Seq<R>, maximum_step: R) -> Result<Seq<R>, MonteCarloError>;

    /// The failure of the executor, if it cannot be made.
    spec fn executor_failure_of(&self) -> Option<MonteCarloError>;

    /// The failure of the quasi-random plan of a dimension, if it cannot be made.
    spec fn quasi_failure_of(&self, dimension: u32) -> Option<MonteCarloError>;

    /// The failure of the Brownian bridge over a grid, if it cannot be made.
    spec fn bridge_failure_of(&self, nodes: Seq<R>) -> Option<MonteCarloError>;

    /// The discount factor of a rate model to a time, relative to that of the curve.
    spec fn relative_discount_of(&self, rates: RatesView<R>, time: R, integrated: R) -> Result<
        R,
        MonteCarloError,
    >;

    /// The bond of a rate model from a time to another, relative to that of the curve.
    spec fn relative_bond_of(&self, rates: RatesView<R>, from: R, to: R, factor: R) -> Result<
        R,
        MonteCarloError,
    >;

    /// The bits of a number.
    spec fn bits_of(&self, number: R) -> u64;

    /// Computes [`Self::observation_times_of`].
    fn observation_times(&self) -> (r: Result<Vec<R>, MonteCarloError>)
        ensures
            seen(r) == self.observation_times_of(),
    ;

    /// Computes [`Self::base_fingerprint_of`].
    fn base_fingerprint(&self) -> (r: Fingerprint)
        ensures
            r == self.base_fingerprint_of(),
    ;

    /// Computes [`Self::grid_of`].
    fn grid(&self, required: &Vec<R>, maximum_step: R) -> (r: Result<Vec<R>, MonteCarloError>)
        ensures
            seen(r) == self.grid_of(required@, maximum_step),
            r matches Ok(v) ==> v@.len() > 0,
    ;

    /// Computes [`Self::executor_failure_of`].
    fn executor_failure(&self) -> (r: Option<MonteCarloError>)
        ensures
            r == self.executor_failure_of(),
    ;

    /// Computes [`Self::quasi_failure_of`].
    fn quasi_failure(&self, dimension: u32) -> (r: Option<MonteCarloError>)
        ensures
            r == self.quasi_failure_of(dimension),
    ;

    /// Computes [`Self::bridge_failure_of`].
    fn bridge_failure(&self, nodes: &Vec<R>) -> (r: Option<MonteCarloError>)
        ensures
            r == self.bridge_failure_of(nodes@),
    ;

    /// Computes [`Self::relative_discount_of`].
    fn relative_discount(&self, rates: &HullWhite1Factor<R>, time: R, integrated: R) -> (r: Result<
        R,
        MonteCarloError,
    >)
        ensures
            r == self.relative_discount_of(rates@, time, integrated),
    ;

    /// Computes [`Self::relative_bond_of`].
    fn relative_bond(&self, rates: &HullWhite1Factor<R>, from: R, to: R, factor: R) -> (r: Result<
        R,
        MonteCarloError,
    >)
        ensures
            r == self.relative_bond_of(rates@, from, to, factor),
    ;

    /// Computes [`Self::bits_of`].
    fn bits(&self, number: R) -> (r: u64)
        ensures
            r == self.bits_of(number),
    ;
}

/// The functions behind a [`SuppliedCompileWorld`], as mathematical functions.
#[verifier::reject_recursive_types(R)]
pub ghost struct SuppliedCompileWorldModel<R> {
    pub observation_times: spec_fn() -> Result<Seq<R>, MonteCarloError>,
    pub base_fingerprint: spec_fn() -> Fingerprint,
    pub grid: spec_fn(Seq<R>, R) -> Result<Seq<R>, MonteCarloError>,
    pub executor_failure: spec_fn() -> Option<MonteCarloError>,
    pub quasi_failure: spec_fn(u32) -> Option<MonteCarloError>,
    pub bridge_failure: spec_fn(Seq<R>) -> Option<MonteCarloError>,
    pub relative_discount: spec_fn(RatesView<R>, R, R) -> Result<R, MonteCarloError>,
    pub relative_bond: spec_fn(RatesView<R>, R, R, R) -> Result<R, MonteCarloError>,
    pub bits: spec_fn(R) -> u64,
}

/// A [`CompileWorld`] whose functions are supplied one by one.
#[verifier::reject_recursive_types(R)]
pub struct SuppliedCompileWorld<
    R: Scalar,
    FObservationTimes: Fn() -> Result<Vec<R>, MonteCarloError>,
    FBaseFingerprint: Fn() -> Fingerprint,
    FGrid: Fn(&Vec<R>, R) -> Result<Vec<R>, MonteCarloError>,
    FExecutorFailure: Fn() -> Option<MonteCarloError>,
    FQuasiFailure: Fn(u32) -> Option<MonteCarloError>,
    FBridgeFailure: Fn(&Vec<R>) -> Option<MonteCarloError>,
    FRelativeDiscount: Fn(&HullWhite1Factor<R>, R, R) -> Result<R, MonteCarloError>,
    FRelativeBond: Fn(&HullWhite1Factor<R>, R, R, R) -> Result<R, MonteCarloError>,
    FBits: Fn(R) -> u64,
> {
    observation_times: FObservationTimes,
    base_fingerprint: FBaseFingerprint,
    grid: FGrid,
    executor_failure: FExecutorFailure,
    quasi_failure: FQuasiFailure,
    bridge_failure: FBridgeFailure,
    relative_discount: FRelativeDiscount,
    relative_bond: FRelativeBond,
    bits: FBits,
    model: Ghost<SuppliedCompileWorldModel<R>>,
}

impl<
    R: Scalar,
    FObservationTimes: Fn() -> Result<Vec<R>, MonteCarloError>,
    FBaseFingerprint: Fn() -> Fingerprint,
    FGrid: Fn(&Vec<R>, R) -> Result<Vec<R>, MonteCarloError>,
    FExecutorFailure: Fn() -> Option<MonteCarloError>,
    FQuasiFailure: Fn(u32) -> Option<MonteCarloError>,
    FBridgeFailure: Fn(&Vec<R>) -> Option<MonteCarloError>,
    FRelativeDiscount: Fn(&HullWhite1Factor<R>, R, R) -> Result<R, MonteCarloError>,
    FRelativeBond: Fn(&HullWhite1Factor<R>, R, R, R) -> Result<R, MonteCarloError>,
    FBits: Fn(R) -> u64,
> SuppliedCompileWorld<
    R,
    FObservationTimes,
    FBaseFingerprint,
    FGrid,
    FExecutorFailure,
    FQuasiFailure,
    FBridgeFailure,
    FRelativeDiscount,
    FRelativeBond,
    FBits,
> {
    #[verifier::type_invariant]
    closed spec fn inv(self) -> bool {
        Self::callable(
            self.observation_times,
            self.base_fingerprint,
            self.grid,
            self.executor_failure,
            self.quasi_failure,
            self.bridge_failure,
            self.relative_discount,
            self.relative_bond,
            self.bits,
        )
            && Self::computes(
                self.observation_times,
                self.base_fingerprint,
                self.grid,
                self.executor_failure,
                self.quasi_failure,
                self.bridge_failure,
                self.relative_discount,
                self.relative_bond,
                self.bits,
                self.model@,
            )
    }

    /// The functions accept every argument.
    pub open spec fn callable(
        observation_times: FObservationTimes,
        base_fingerprint: FBaseFingerprint,
        grid: FGrid,
        executor_failure: FExecutorFailure,
        quasi_failure: FQuasiFailure,
        bridge_failure: FBridgeFailure,
        relative_discount: FRelativeDiscount,
        relative_bond: FRelativeBond,
        bits: FBits,
    ) -> bool {
        &&& call_requires(observation_times, ())
        &&& call_requires(base_fingerprint, ())
        &&& forall|required: &Vec<R>, maximum_step: R| #[trigger] call_requires(
            grid,
            (required, maximum_step),
        )
        &&& call_requires(executor_failure, ())
        &&& forall|dimension: u32| #[trigger] call_requires(quasi_failure, (dimension,))
        &&& forall|nodes: &Vec<R>| #[trigger] call_requires(bridge_failure, (nodes,))
        &&& forall|rates: &HullWhite1Factor<R>, time: R, integrated: R| #[trigger] call_requires(
            relative_discount,
            (rates, time, integrated),
        )
        &&& forall|rates: &HullWhite1Factor<R>, from: R, to: R, factor: R| #[trigger] call_requires(
            relative_bond,
            (rates, from, to, factor),
        )
        &&& forall|number: R| #[trigger] call_requires(bits, (number,))
    }

    /// The functions compute those of the model.
    pub open spec fn computes(
        observation_times: FObservationTimes,
        base_fingerprint: FBaseFingerprint,
        grid: FGrid,
        executor_failure: FExecutorFailure,
        quasi_failure: FQuasiFailure,
        bridge_failure: FBridgeFailure,
        relative_discount: FRelativeDiscount,
        relative_bond: FRelativeBond,
        bits: FBits,
        model: SuppliedCompileWorldModel<R>,
    ) -> bool {
        &&& forall|result: Result<Vec<R>, MonteCarloError>| #[trigger]
            call_ensures(
                observation_times,
                (),
                result,
            ) ==> seen(result) == (model.observation_times)()
        &&& forall|result: Fingerprint| #[trigger]
            call_ensures(base_fingerprint, (), result) ==> result == (model.base_fingerprint)()
        &&& forall|required: &Vec<R>, maximum_step: R, result: Result<Vec<R>, MonteCarloError>|
            #[trigger]
            call_ensures(
                grid,
                (required, maximum_step),
                result,
            ) ==> seen(result) == (model.grid)(required@, maximum_step) && (
                result matches Ok(v) ==> v@.len() > 0
            )
        &&& forall|result: Option<MonteCarloError>| #[trigger]
            call_ensures(executor_failure, (), result) ==> result == (model.executor_failure)()
        &&& forall|dimension: u32, result: Option<MonteCarloError>| #[trigger]
            call_ensures(
                quasi_failure,
                (dimension,),
                result,
            ) ==> result == (model.quasi_failure)(dimension)
        &&& forall|nodes: &Vec<R>, result: Option<MonteCarloError>| #[trigger]
            call_ensures(
                bridge_failure,
                (nodes,),
                result,
            ) ==> result == (model.bridge_failure)(nodes@)
        &&& forall|
            rates: &HullWhite1Factor<R>,
            time: R,
            integrated: R,
            result: Result<R, MonteCarloError>,
        |
            #[trigger]
            call_ensures(
                relative_discount,
                (rates, time, integrated),
                result,
            ) ==> result == (model.relative_discount)(rates@, time, integrated)
        &&& forall|
            rates: &HullWhite1Factor<R>,
            from: R,
            to: R,
            factor: R,
            result: Result<R, MonteCarloError>,
        |
            #[trigger]
            call_ensures(
                relative_bond,
                (rates, from, to, factor),
                result,
            ) ==> result == (model.relative_bond)(rates@, from, to, factor)
        &&& forall|number: R, result: u64| #[trigger]
            call_ensures(bits, (number,), result) ==> result == (model.bits)(number)
    }

    /// The functions that were supplied.
    pub closed spec fn supplied(self) -> SuppliedCompileWorldModel<R> {
        self.model@
    }

    /// Takes functions that give the same result whenever they are given the
    /// same arguments.
    pub fn new(
        observation_times: FObservationTimes,
        base_fingerprint: FBaseFingerprint,
        grid: FGrid,
        executor_failure: FExecutorFailure,
        quasi_failure: FQuasiFailure,
        bridge_failure: FBridgeFailure,
        relative_discount: FRelativeDiscount,
        relative_bond: FRelativeBond,
        bits: FBits,
    ) -> (s: Self)
        requires
            Self::callable(
                observation_times,
                base_fingerprint,
                grid,
                executor_failure,
                quasi_failure,
                bridge_failure,
                relative_discount,
                relative_bond,
                bits,
            ),
            exists|model: SuppliedCompileWorldModel<R>| #[trigger] Self::computes(
                observation_times,
                base_fingerprint,
                grid,
                executor_failure,
                quasi_failure,
                bridge_failure,
                relative_discount,
                relative_bond,
                bits,
                model,
            ),
        ensures
            Self::computes(
                observation_times,
                base_fingerprint,
                grid,
                executor_failure,
                quasi_failure,
                bridge_failure,
                relative_discount,
                relative_bond,
                bits,
                s.supplied(),
            ),
    {
        let ghost model = choose|model: SuppliedCompileWorldModel<R>| #[trigger] Self::computes(
            observation_times,
            base_fingerprint,
            grid,
            executor_failure,
            quasi_failure,
            bridge_failure,
            relative_discount,
            relative_bond,
            bits,
            model,
        );
        SuppliedCompileWorld {
            observation_times,
            base_fingerprint,
            grid,
            executor_failure,
            quasi_failure,
            bridge_failure,
            relative_discount,
            relative_bond,
            bits,
            model: Ghost(model),
        }
    }

    /// Takes functions that are known to compute `model`.
    pub fn with_model(
        observation_times: FObservationTimes,
        base_fingerprint: FBaseFingerprint,
        grid: FGrid,
        executor_failure: FExecutorFailure,
        quasi_failure: FQuasiFailure,
        bridge_failure: FBridgeFailure,
        relative_discount: FRelativeDiscount,
        relative_bond: FRelativeBond,
        bits: FBits,
        model: Ghost<SuppliedCompileWorldModel<R>>,
    ) -> (s: Self)
        requires
            Self::callable(
                observation_times,
                base_fingerprint,
                grid,
                executor_failure,
                quasi_failure,
                bridge_failure,
                relative_discount,
                relative_bond,
                bits,
            ),
            Self::computes(
                observation_times,
                base_fingerprint,
                grid,
                executor_failure,
                quasi_failure,
                bridge_failure,
                relative_discount,
                relative_bond,
                bits,
                model@,
            ),
        ensures
            s.supplied() == model@,
    {
        SuppliedCompileWorld {
            observation_times,
            base_fingerprint,
            grid,
            executor_failure,
            quasi_failure,
            bridge_failure,
            relative_discount,
            relative_bond,
            bits,
            model,
        }
    }
}

impl<
    R: Scalar,
    FObservationTimes: Fn() -> Result<Vec<R>, MonteCarloError>,
    FBaseFingerprint: Fn() -> Fingerprint,
    FGrid: Fn(&Vec<R>, R) -> Result<Vec<R>, MonteCarloError>,
    FExecutorFailure: Fn() -> Option<MonteCarloError>,
    FQuasiFailure: Fn(u32) -> Option<MonteCarloError>,
    FBridgeFailure: Fn(&Vec<R>) -> Option<MonteCarloError>,
    FRelativeDiscount: Fn(&HullWhite1Factor<R>, R, R) -> Result<R, MonteCarloError>,
    FRelativeBond: Fn(&HullWhite1Factor<R>, R, R, R) -> Result<R, MonteCarloError>,
    FBits: Fn(R) -> u64,
> CompileWorld<R> for SuppliedCompileWorld<
    R,
    FObservationTimes,
    FBaseFingerprint,
    FGrid,
    FExecutorFailure,
    FQuasiFailure,
    FBridgeFailure,
    FRelativeDiscount,
    FRelativeBond,
    FBits,
> {
    open spec fn observation_times_of(&self) -> Result<Seq<R>, MonteCarloError> {
        (self.supplied().observation_times)()
    }

    open spec fn base_fingerprint_of(&self) -> Fingerprint {
        (self.supplied().base_fingerprint)()
    }

    open spec fn grid_of(
        &self,
        required: Seq<R>,
        maximum_step: R,
    ) -> Result<Seq<R>, MonteCarloError> {
        (self.supplied().grid)(required, maximum_step)
    }

    open spec fn executor_failure_of(&self) -> Option<MonteCarloError> {
        (self.supplied().executor_failure)()
    }

    open spec fn quasi_failure_of(&self, dimension: u32) -> Option<MonteCarloError> {
        (self.supplied().quasi_failure)(dimension)
    }

    open spec fn bridge_failure_of(&self, nodes: Seq<R>) -> Option<MonteCarloError> {
        (self.supplied().bridge_failure)(nodes)
    }

    open spec fn relative_discount_of(&self, rates: RatesView<R>, time: R, integrated: R) -> Result<
        R,
        MonteCarloError,
    > {
        (self.supplied().relative_discount)(rates, time, integrated)
    }

    open spec fn relative_bond_of(&self, rates: RatesView<R>, from: R, to: R, factor: R) -> Result<
        R,
        MonteCarloError,
    > {
        (self.supplied().relative_bond)(rates, from, to, factor)
    }

    open spec fn bits_of(&self, number: R) -> u64 {
        (self.supplied().bits)(number)
    }

    fn observation_times(&self) -> (r: Result<Vec<R>, MonteCarloError>) {
        proof {
            use_type_invariant(self);
        }
        (self.observation_times)()
    }

    fn base_fingerprint(&self) -> (r: Fingerprint) {
        proof {
            use_type_invariant(self);
        }
        (self.base_fingerprint)()
    }

    fn grid(&self, required: &Vec<R>, maximum_step: R) -> (r: Result<Vec<R>, MonteCarloError>) {
        proof {
            use_type_invariant(self);
        }
        (self.grid)(required, maximum_step)
    }

    fn executor_failure(&self) -> (r: Option<MonteCarloError>) {
        proof {
            use_type_invariant(self);
        }
        (self.executor_failure)()
    }

    fn quasi_failure(&self, dimension: u32) -> (r: Option<MonteCarloError>) {
        proof {
            use_type_invariant(self);
        }
        (self.quasi_failure)(dimension)
    }

    fn bridge_failure(&self, nodes: &Vec<R>) -> (r: Option<MonteCarloError>) {
        proof {
            use_type_invariant(self);
        }
        (self.bridge_failure)(nodes)
    }

    fn relative_discount(&self, rates: &HullWhite1Factor<R>, time: R, integrated: R) -> (r: Result<
        R,
        MonteCarloError,
    >) {
        proof {
            use_type_invariant(self);
        }
        (self.relative_discount)(rates, time, integrated)
    }

    fn relative_bond(&self, rates: &HullWhite1Factor<R>, from: R, to: R, factor: R) -> (r: Result<
        R,
        MonteCarloError,
    >) {
        proof {
            use_type_invariant(self);
        }
        (self.relative_bond)(rates, from, to, factor)
    }

    fn bits(&self, number: R) -> (r: u64) {
        proof {
            use_type_invariant(self);
        }
        (self.bits)(number)
    }
}

} // verus!
