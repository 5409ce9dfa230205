//! Surroundings that are supplied function by function.

use crate::errors::MonteCarloError;
use crate::results::seen;
use crate::sampling::{Backend, Statistics};
use crate::scalar::Scalar;
use vstd::prelude::*;

verus! {

/// The functions behind a [`SuppliedBackend`], as mathematical functions.
#[verifier::reject_recursive_types(R)]
pub ghost struct SuppliedBackendModel<R> {
    pub normal: spec_fn(u64, u32) -> R,
    pub uniform: spec_fn(u32, u64, u32) -> Option<R>,
    pub inverse_normal: spec_fn(R) -> Option<R>,
    pub bridge: spec_fn(Seq<R>) -> Result<Seq<R>, MonteCarloError>,
    pub reduce: spec_fn(Seq<R>) -> Statistics<R>,
    pub two_pass: spec_fn(Seq<R>) -> Statistics<R>,
}

/// A [`Backend`] whose functions are supplied one by one.
#[verifier::reject_recursive_types(R)]
pub struct SuppliedBackend<
    R: Scalar,
    FNormal: Fn(u64, u32) -> R,
    FUniform: Fn(u32, u64, u32) -> Option<R>,
    FInverseNormal: Fn(R) -> Option<R>,
    FBridge: Fn(&Vec<R>) -> Result<Vec<R>, MonteCarloError>,
    FReduce: Fn(&Vec<R>) -> Statistics<R>,
    FTwoPass: Fn(&Vec<R>) -> Statistics<R>,
> {
    normal: FNormal,
    uniform: FUniform,
    inverse_normal: FInverseNormal,
    bridge: FBridge,
    reduce: FReduce,
    two_pass: FTwoPass,
    model: Ghost<SuppliedBackendModel<R>>,
}

impl<
    R: Scalar,
    FNormal: Fn(u64, u32) -> R,
    FUniform: Fn(u32, u64, u32) -> Option<R>,
    FInverseNormal: Fn(R) -> Option<R>,
    FBridge: Fn(&Vec<R>) -> Result<Vec<R>, MonteCarloError>,
    FReduce: Fn(&Vec<R>) -> Statistics<R>,
    FTwoPass: Fn(&Vec<R>) -> Statistics<R>,
> SuppliedBackend<R, FNormal, FUniform, FInverseNormal, FBridge, FReduce, FTwoPass> {
    #[verifier::type_invariant]
    closed spec fn inv(self) -> bool {
        Self::callable(
            self.normal,
            self.uniform,
            self.inverse_normal,
            self.bridge,
            self.reduce,
            self.two_pass,
        )
            && Self::computes(
                self.normal,
                self.uniform,
                self.inverse_normal,
                self.bridge,
                self.reduce,
                self.two_pass,
                self.model@,
            )
    }

    /// The functions accept every argument.
    pub open spec fn callable(
        normal: FNormal,
        uniform: FUniform,
        inverse_normal: FInverseNormal,
        bridge: FBridge,
        reduce: FReduce,
        two_pass: FTwoPass,
    ) -> bool {
        &&& forall|path: u64, dimension: u32| #[trigger] call_requires(normal, (path, dimension))
        &&& forall|scramble: u32, point: u64, dimension: u32| #[trigger] call_requires(
            uniform,
            (scramble, point, dimension),
        )
        &&& forall|u: R| #[trigger] call_requires(inverse_normal, (u,))
        &&& forall|draws: &Vec<R>| #[trigger] call_requires(bridge, (draws,))
        &&& forall|values: &Vec<R>| #[trigger] call_requires(reduce, (values,))
        &&& forall|values: &Vec<R>| #[trigger] call_requires(two_pass, (values,))
    }

    /// The functions compute those of the model.
    pub open spec fn computes(
        normal: FNormal,
        uniform: FUniform,
        inverse_normal: FInverseNormal,
        bridge: FBridge,
        reduce: FReduce,
        two_pass: FTwoPass,
        model: SuppliedBackendModel<R>,
    ) -> bool {
        &&& forall|path: u64, dimension: u32, result: R| #[trigger]
            call_ensures(
                normal,
                (path, dimension),
                result,
            ) ==> result == (model.normal)(path, dimension)
        &&& forall|scramble: u32, point: u64, dimension: u32, result: Option<R>| #[trigger]
            call_ensures(
                uniform,
                (scramble, point, dimension),
                result,
            ) ==> result == (model.uniform)(scramble, point, dimension)
        &&& forall|u: R, result: Option<R>| #[trigger]
            call_ensures(inverse_normal, (u,), result) ==> result == (model.inverse_normal)(u)
        &&& forall|draws: &Vec<R>, result: Result<Vec<R>, MonteCarloError>| #[trigger]
            call_ensures(bridge, (draws,), result) ==> seen(result) == (model.bridge)(draws@) && (
                result matches Ok(v) ==> v@.len() == draws@.len()
            )
        &&& forall|values: &Vec<R>, result: Statistics<R>| #[trigger]
            call_ensures(reduce, (values,), result) ==> result == (model.reduce)(values@)
        &&& forall|values: &Vec<R>, result: Statistics<R>| #[trigger]
            call_ensures(two_pass, (values,), result) ==> result == (model.two_pass)(values@)
    }

    /// The functions that were supplied.
    pub closed spec fn supplied(self) -> SuppliedBackendModel<R> {
        self.model@
    }

    /// Takes functions that give the same result whenever they are given the
    /// same arguments.
    pub fn new(
        normal: FNormal,
        uniform: FUniform,
        inverse_normal: FInverseNormal,
        bridge: FBridge,
        reduce: FReduce,
        two_pass: FTwoPass,
    ) -> (s: Self)
        requires
            Self::callable(normal, uniform, inverse_normal, bridge, reduce, two_pass),
            exists|model: SuppliedBackendModel<R>| #[trigger] Self::computes(
                normal,
                uniform,
                inverse_normal,
                bridge,
                reduce,
                two_pass,
                model,
            ),
        ensures
            Self::computes(normal, uniform, inverse_normal, bridge, reduce, two_pass, s.supplied()),
    {
        let ghost model = choose|model: SuppliedBackendModel<R>| #[trigger] Self::computes(
            normal,
            uniform,
            inverse_normal,
            bridge,
            reduce,
            two_pass,
            model,
        );
        SuppliedBackend {
            normal,
            uniform,
            inverse_normal,
            bridge,
            reduce,
            two_pass,
            model: Ghost(model),
        }
    }

    /// Takes functions that are known to compute `model`.
    pub fn with_model(
        normal: FNormal,
        uniform: FUniform,
        inverse_normal: FInverseNormal,
        bridge: FBridge,
        reduce: FReduce,
        two_pass: FTwoPass,
        model: Ghost<SuppliedBackendModel<R>>,
    ) -> (s: Self)
        requires
            Self::callable(normal, uniform, inverse_normal, bridge, reduce, two_pass),
            Self::computes(normal, uniform, inverse_normal, bridge, reduce, two_pass, model@),
        ensures
            s.supplied() == model@,
    {
        SuppliedBackend { normal, uniform, inverse_normal, bridge, reduce, two_pass, model }
    }
}

impl<
    R: Scalar,
    FNormal: Fn(u64, u32) -> R,
    FUniform: Fn(u32, u64, u32) -> Option<R>,
    FInverseNormal: Fn(R) -> Option<R>,
    FBridge: Fn(&Vec<R>) -> Result<Vec<R>, MonteCarloError>,
    FReduce: Fn(&Vec<R>) -> Statistics<R>,
    FTwoPass: Fn(&Vec<R>) -> Statistics<R>,
> Backend<R> for SuppliedBackend<R, FNormal, FUniform, FInverseNormal, FBridge, FReduce, FTwoPass> {
    open spec fn normal_at(&self, path: u64, dimension: u32) -> R {
        (self.supplied().normal)(path, dimension)
    }

    open spec fn uniform_at(&self, scramble: u32, point: u64, dimension: u32) -> Option<R> {
        (self.supplied().uniform)(scramble, point, dimension)
    }

    open spec fn inverse_at(&self, u: R) -> Option<R> {
        (self.supplied().inverse_normal)(u)
    }

    open spec fn bridge_of(&self, draws: Seq<R>) -> Result<Seq<R>, MonteCarloError> {
        (self.supplied().bridge)(draws)
    }

    open spec fn reduction_of(&self, values: Seq<R>) -> Statistics<R> {
        (self.supplied().reduce)(values)
    }

    open spec fn two_pass_of(&self, values: Seq<R>) -> Statistics<R> {
        (self.supplied().two_pass)(values)
    }

    fn normal(&self, path: u64, dimension: u32) -> (r: R) {
        proof {
            use_type_invariant(self);
        }
        (self.normal)(path, dimension)
    }

    fn uniform(&self, scramble: u32, point: u64, dimension: u32) -> (r: Option<R>) {
        proof {
            use_type_invariant(self);
        }
        (self.uniform)(scramble, point, dimension)
    }

    fn inverse_normal(&self, u: R) -> (r: Option<R>) {
        proof {
            use_type_invariant(self);
        }
        (self.inverse_normal)(u)
    }

    fn bridge(&self, draws: &Vec<R>) -> (r: Result<Vec<R>, MonteCarloError>) {
        proof {
            use_type_invariant(self);
        }
        (self.bridge)(draws)
    }

    fn reduce(&self, values: &Vec<R>) -> (r: Statistics<R>) {
        proof {
            use_type_invariant(self);
        }
        (self.reduce)(values)
    }

    fn two_pass(&self, values: &Vec<R>) -> (r: Statistics<R>) {
        proof {
            use_type_invariant(self);
        }
        (self.two_pass)(values)
    }
}

} // verus!
