//! What a leverage plan is compiled from.

use crate::errors::MonteCarloError;
use crate::lsv_model::{prices_alike, trace_aside, LsvModel, LsvParticleConfig, LsvPriceModel};
use crate::models::Fingerprint;
use crate::results::seen;
use crate::scalar::Scalar;
use vstd::prelude::*;

verus! {

/// The calibration of a model with parameters to a refined target: out of the parameters,
/// the times and the values of the target, the spot and the particles.
pub type Calibrating<R, C> = spec_fn(Seq<R>, Seq<R>, Seq<R>, R, LsvParticleConfig<R>) -> Result<
    C,
    MonteCarloError,
>;

/// Two calibrations that come to the same, but for what they keep for a reversal: the same
/// surface, the same prices and the same failures, or none for the same reason.
pub open spec fn calibrated_alike<R: Scalar, C: LsvPriceModel<R>>(
    a: Result<C, MonteCarloError>,
    b: Result<C, MonteCarloError>,
    pricing_failure: spec_fn(C, Seq<R>) -> Option<MonteCarloError>,
    quasi_failure: spec_fn(C) -> Option<MonteCarloError>,
    grid: Seq<R>,
) -> bool {
    match (a, b) {
        (Ok(c), Ok(d)) => {
            &&& prices_alike::<R, C, C>(c, d)
            &&& c.squared_leverage_of() == d.squared_leverage_of()
            &&& pricing_failure(c, grid) == pricing_failure(d, grid)
            &&& quasi_failure(c) == quasi_failure(d)
        },
        (Err(e), Err(f)) => e == f,
        _ => false,
    }
}

/// A calibration says what particles it took, and comes to the same whether or not these
/// keep a trace.
pub open spec fn trace_is_apart<R: Scalar, C: LsvPriceModel<R>>(
    calibrate: Calibrating<R, C>,
    pricing_failure: spec_fn(C, Seq<R>) -> Option<MonteCarloError>,
    quasi_failure: spec_fn(C) -> Option<MonteCarloError>,
) -> bool {
    &&& forall|
        parameters: Seq<R>,
        grid: Seq<R>,
        values: Seq<R>,
        initial: R,
        particles: LsvParticleConfig<R>,
    |
        #[trigger] calibrate(parameters, grid, values, initial, particles) matches Ok(c)
            ==> c.particles_of() == particles
    &&& forall|
        parameters: Seq<R>,
        grid: Seq<R>,
        values: Seq<R>,
        initial: R,
        a: LsvParticleConfig<R>,
        b: LsvParticleConfig<R>,
    |
        trace_aside(a, b) ==> calibrated_alike(
            #[trigger] calibrate(parameters, grid, values, initial, a),
            #[trigger] calibrate(parameters, grid, values, initial, b),
            pricing_failure,
            quasi_failure,
            grid,
        )
}

/// The request of a leverage plan and what calibrates its model.
pub trait LsvCompiler<R: Scalar> {
    /// A calibrated model.
    type Calibrated: LsvModel<R>;

    /// Why the product or its market is refused.
    spec fn base_refusal_of(&self) -> Option<MonteCarloError>;

    /// The digest of the request.
    spec fn base_fingerprint_of(&self) -> Fingerprint;

    /// The times that the product, its dividends and the target need.
    spec fn time_grid_of(&self) -> Result<Seq<R>, MonteCarloError>;

    /// Why a refined target is refused.
    spec fn refined_refusal_of(&self, grid: Seq<R>, values: Seq<R>) -> Option<MonteCarloError>;

    /// The spot.
    spec fn initial_spot_of(&self) -> R;

    /// The failure of the executor, if it cannot be made.
    spec fn executor_failure_of(&self) -> Option<MonteCarloError>;

    /// The model with parameters calibrated to a refined target.
    spec fn calibration_of(
        &self,
        parameters: Seq<R>,
        grid: Seq<R>,
        values: Seq<R>,
        initial: R,
        particles: LsvParticleConfig<R>,
    ) -> Result<Self::Calibrated, MonteCarloError>;

    /// Why a calibrated model cannot price on a grid.
    spec fn pricing_failure_of(
        &self,
        calibrated: Self::Calibrated,
        grid: Seq<R>,
    ) -> Option<MonteCarloError>;

    /// The failure of the quasi-random plan of a calibrated model, if it cannot be made.
    spec fn quasi_failure_of(&self, calibrated: Self::Calibrated) -> Option<MonteCarloError>;

    /// The failure of the Brownian bridge over a grid, if it cannot be made.
    spec fn bridge_failure_of(&self, nodes: Seq<R>) -> Option<MonteCarloError>;

    /// The bits of a number.
    spec fn bits_of(&self, number: R) -> u64;

    /// Whether a trace is kept moves no calibration.
    fn trace_laws(&self)
        ensures
            trace_is_apart::<R, Self::Calibrated>(
                |
                    parameters: Seq<R>,
                    grid: Seq<R>,
                    values: Seq<R>,
                    initial: R,
                    particles: LsvParticleConfig<R>,
                |
                    self.calibration_of(parameters, grid, values, initial, particles),
                |c: Self::Calibrated, grid: Seq<R>| self.pricing_failure_of(c, grid),
                |c: Self::Calibrated| self.quasi_failure_of(c),
            ),
    ;

    /// Computes [`Self::base_refusal_of`].
    fn base_refusal(&self) -> (r: Option<MonteCarloError>)
        ensures
            r == self.base_refusal_of(),
    ;

    /// Computes [`Self::base_fingerprint_of`].
    fn base_fingerprint(&self) -> (r: Fingerprint)
        ensures
            r == self.base_fingerprint_of(),
    ;

    /// Computes [`Self::time_grid_of`].
    fn time_grid(&self) -> (r: Result<Vec<R>, MonteCarloError>)
        ensures
            seen(r) == self.time_grid_of(),
    ;

    /// Computes [`Self::refined_refusal_of`].
    fn refined_refusal(&self, grid: &Vec<R>, values: &Vec<R>) -> (r: Option<MonteCarloError>)
        ensures
            r == self.refined_refusal_of(grid@, values@),
    ;

    /// Computes [`Self::initial_spot_of`].
    fn initial_spot(&self) -> (r: R)
        ensures
            r == self.initial_spot_of(),
    ;

    /// Computes [`Self::executor_failure_of`].
    fn executor_failure(&self) -> (r: Option<MonteCarloError>)
        ensures
            r == self.executor_failure_of(),
    ;

    /// Computes [`Self::calibration_of`].
    fn calibrate(
        &self,
        parameters: &Vec<R>,
        grid: &Vec<R>,
        values: &Vec<R>,
        initial: R,
        particles: LsvParticleConfig<R>,
    ) -> (r: Result<Self::Calibrated, MonteCarloError>)
        ensures
            r == self.calibration_of(parameters@, grid@, values@, initial, particles),
    ;

    /// Computes [`Self::pricing_failure_of`].
    fn pricing_failure(
        &self,
        calibrated: &Self::Calibrated,
        grid: &Vec<R>,
    ) -> (r: Option<MonteCarloError>)
        ensures
            r == self.pricing_failure_of(*calibrated, grid@),
    ;

    /// Computes [`Self::quasi_failure_of`].
    fn quasi_failure(&self, calibrated: &Self::Calibrated) -> (r: Option<MonteCarloError>)
        ensures
            r == self.quasi_failure_of(*calibrated),
    ;

    /// Computes [`Self::bridge_failure_of`].
    fn bridge_failure(&self, nodes: &Vec<R>) -> (r: Option<MonteCarloError>)
        ensures
            r == self.bridge_failure_of(nodes@),
    ;

    /// Computes [`Self::bits_of`].
    fn bits(&self, number: R) -> (r: u64)
        ensures
            r == self.bits_of(number),
    ;
}

/// The functions behind a [`SuppliedLsvCompiler`], as mathematical functions.
#[verifier::reject_recursive_types(R)]
#[verifier::reject_recursive_types(Calibrated)]
pub ghost struct SuppliedLsvCompilerModel<R, Calibrated> {
    pub base_refusal: spec_fn() -> Option<MonteCarloError>,
    pub base_fingerprint: spec_fn() -> Fingerprint,
    pub time_grid: spec_fn() -> Result<Seq<R>, MonteCarloError>,
    pub refined_refusal: spec_fn(Seq<R>, Seq<R>) -> Option<MonteCarloError>,
    pub initial_spot: spec_fn() -> R,
    pub executor_failure: spec_fn() -> Option<MonteCarloError>,
    pub calibrate: Calibrating<R, Calibrated>,
    pub pricing_failure: spec_fn(Calibrated, Seq<R>) -> Option<MonteCarloError>,
    pub quasi_failure: spec_fn(Calibrated) -> Option<MonteCarloError>,
    pub bridge_failure: spec_fn(Seq<R>) -> Option<MonteCarloError>,
    pub bits: spec_fn(R) -> u64,
}

/// An [`LsvCompiler`] whose functions are supplied one by one.
#[verifier::reject_recursive_types(R)]
#[verifier::reject_recursive_types(Calibrated)]
pub struct SuppliedLsvCompiler<
    R: Scalar,
    Calibrated: LsvModel<R>,
    FBaseRefusal: Fn() -> Option<MonteCarloError>,
    FBaseFingerprint: Fn() -> Fingerprint,
    FTimeGrid: Fn() -> Result<Vec<R>, MonteCarloError>,
    FRefinedRefusal: Fn(&Vec<R>, &Vec<R>) -> Option<MonteCarloError>,
    FInitialSpot: Fn() -> R,
    FExecutorFailure: Fn() -> Option<MonteCarloError>,
    FCalibrate: Fn(&Vec<R>, &Vec<R>, &Vec<R>, R, LsvParticleConfig<R>) -> Result<
        Calibrated,
        MonteCarloError,
    >,
    FPricingFailure: Fn(&Calibrated, &Vec<R>) -> Option<MonteCarloError>,
    FQuasiFailure: Fn(&Calibrated) -> Option<MonteCarloError>,
    FBridgeFailure: Fn(&Vec<R>) -> Option<MonteCarloError>,
    FBits: Fn(R) -> u64,
> {
    base_refusal: FBaseRefusal,
    base_fingerprint: FBaseFingerprint,
    time_grid: FTimeGrid,
    refined_refusal: FRefinedRefusal,
    initial_spot: FInitialSpot,
    executor_failure: FExecutorFailure,
    calibrate: FCalibrate,
    pricing_failure: FPricingFailure,
    quasi_failure: FQuasiFailure,
    bridge_failure: FBridgeFailure,
    bits: FBits,
    model: Ghost<SuppliedLsvCompilerModel<R, Calibrated>>,
}

impl<
    R: Scalar,
    Calibrated: LsvModel<R>,
    FBaseRefusal: Fn() -> Option<MonteCarloError>,
    FBaseFingerprint: Fn() -> Fingerprint,
    FTimeGrid: Fn() -> Result<Vec<R>, MonteCarloError>,
    FRefinedRefusal: Fn(&Vec<R>, &Vec<R>) -> Option<MonteCarloError>,
    FInitialSpot: Fn() -> R,
    FExecutorFailure: Fn() -> Option<MonteCarloError>,
    FCalibrate: Fn(&Vec<R>, &Vec<R>, &Vec<R>, R, LsvParticleConfig<R>) -> Result<
        Calibrated,
        MonteCarloError,
    >,
    FPricingFailure: Fn(&Calibrated, &Vec<R>) -> Option<MonteCarloError>,
    FQuasiFailure: Fn(&Calibrated) -> Option<MonteCarloError>,
    FBridgeFailure: Fn(&Vec<R>) -> Option<MonteCarloError>,
    FBits: Fn(R) -> u64,
> SuppliedLsvCompiler<
    R,
    Calibrated,
    FBaseRefusal,
    FBaseFingerprint,
    FTimeGrid,
    FRefinedRefusal,
    FInitialSpot,
    FExecutorFailure,
    FCalibrate,
    FPricingFailure,
    FQuasiFailure,
    FBridgeFailure,
    FBits,
> {
    #[verifier::type_invariant]
    closed spec fn inv(self) -> bool {
        Self::callable(
            self.base_refusal,
            self.base_fingerprint,
            self.time_grid,
            self.refined_refusal,
            self.initial_spot,
            self.executor_failure,
            self.calibrate,
            self.pricing_failure,
            self.quasi_failure,
            self.bridge_failure,
            self.bits,
        )
            && Self::computes(
                self.base_refusal,
                self.base_fingerprint,
                self.time_grid,
                self.refined_refusal,
                self.initial_spot,
                self.executor_failure,
                self.calibrate,
                self.pricing_failure,
                self.quasi_failure,
                self.bridge_failure,
                self.bits,
                self.model@,
            )
    }

    /// The functions accept every argument.
    pub open spec fn callable(
        base_refusal: FBaseRefusal,
        base_fingerprint: FBaseFingerprint,
        time_grid: FTimeGrid,
        refined_refusal: FRefinedRefusal,
        initial_spot: FInitialSpot,
        executor_failure: FExecutorFailure,
        calibrate: FCalibrate,
        pricing_failure: FPricingFailure,
        quasi_failure: FQuasiFailure,
        bridge_failure: FBridgeFailure,
        bits: FBits,
    ) -> bool {
        &&& call_requires(base_refusal, ())
        &&& call_requires(base_fingerprint, ())
        &&& call_requires(time_grid, ())
        &&& forall|grid: &Vec<R>, values: &Vec<R>| #[trigger] call_requires(
            refined_refusal,
            (grid, values),
        )
        &&& call_requires(initial_spot, ())
        &&& call_requires(executor_failure, ())
        &&& forall|
            parameters: &Vec<R>,
            grid: &Vec<R>,
            values: &Vec<R>,
            initial: R,
            particles: LsvParticleConfig<R>,
        | #[trigger]
            call_requires(calibrate, (parameters, grid, values, initial, particles))
        &&& forall|calibrated: &Calibrated, grid: &Vec<R>| #[trigger] call_requires(
            pricing_failure,
            (calibrated, grid),
        )
        &&& forall|calibrated: &Calibrated| #[trigger] call_requires(quasi_failure, (calibrated,))
        &&& forall|nodes: &Vec<R>| #[trigger] call_requires(bridge_failure, (nodes,))
        &&& forall|number: R| #[trigger] call_requires(bits, (number,))
    }

    /// The functions compute those of the model, in which a trace moves no calibration.
    pub open spec fn computes(
        base_refusal: FBaseRefusal,
        base_fingerprint: FBaseFingerprint,
        time_grid: FTimeGrid,
        refined_refusal: FRefinedRefusal,
        initial_spot: FInitialSpot,
        executor_failure: FExecutorFailure,
        calibrate: FCalibrate,
        pricing_failure: FPricingFailure,
        quasi_failure: FQuasiFailure,
        bridge_failure: FBridgeFailure,
        bits: FBits,
        model: SuppliedLsvCompilerModel<R, Calibrated>,
    ) -> bool {
        &&& forall|result: Option<MonteCarloError>| #[trigger]
            call_ensures(base_refusal, (), result) ==> result == (model.base_refusal)()
        &&& forall|result: Fingerprint| #[trigger]
            call_ensures(base_fingerprint, (), result) ==> result == (model.base_fingerprint)()
        &&& forall|result: Result<Vec<R>, MonteCarloError>| #[trigger]
            call_ensures(time_grid, (), result) ==> seen(result) == (model.time_grid)()
        &&& forall|grid: &Vec<R>, values: &Vec<R>, result: Option<MonteCarloError>| #[trigger]
            call_ensures(
                refined_refusal,
                (grid, values),
                result,
            ) ==> result == (model.refined_refusal)(grid@, values@)
        &&& forall|result: R| #[trigger]
            call_ensures(initial_spot, (), result) ==> result == (model.initial_spot)()
        &&& forall|result: Option<MonteCarloError>| #[trigger]
            call_ensures(executor_failure, (), result) ==> result == (model.executor_failure)()
        &&& forall|
            parameters: &Vec<R>,
            grid: &Vec<R>,
            values: &Vec<R>,
            initial: R,
            particles: LsvParticleConfig<R>,
            result: Result<Calibrated, MonteCarloError>,
        |
            #[trigger]
            call_ensures(
                calibrate,
                (parameters, grid, values, initial, particles),
                result,
            ) ==> result == (model.calibrate)(parameters@, grid@, values@, initial, particles)
        &&& forall|calibrated: &Calibrated, grid: &Vec<R>, result: Option<MonteCarloError>|
            #[trigger]
            call_ensures(
                pricing_failure,
                (calibrated, grid),
                result,
            ) ==> result == (model.pricing_failure)(*calibrated, grid@)
        &&& forall|calibrated: &Calibrated, result: Option<MonteCarloError>| #[trigger]
            call_ensures(
                quasi_failure,
                (calibrated,),
                result,
            ) ==> result == (model.quasi_failure)(*calibrated)
        &&& forall|nodes: &Vec<R>, result: Option<MonteCarloError>| #[trigger]
            call_ensures(
                bridge_failure,
                (nodes,),
                result,
            ) ==> result == (model.bridge_failure)(nodes@)
        &&& forall|number: R, result: u64| #[trigger]
            call_ensures(bits, (number,), result) ==> result == (model.bits)(number)
        &&& trace_is_apart(model.calibrate, model.pricing_failure, model.quasi_failure)
    }

    /// The functions that were supplied.
    pub closed spec fn supplied(self) -> SuppliedLsvCompilerModel<R, Calibrated> {
        self.model@
    }

    /// Takes functions that give the same result whenever they are given the
    /// same arguments.
    pub fn new(
        base_refusal: FBaseRefusal,
        base_fingerprint: FBaseFingerprint,
        time_grid: FTimeGrid,
        refined_refusal: FRefinedRefusal,
        initial_spot: FInitialSpot,
        executor_failure: FExecutorFailure,
        calibrate: FCalibrate,
        pricing_failure: FPricingFailure,
        quasi_failure: FQuasiFailure,
        bridge_failure: FBridgeFailure,
        bits: FBits,
    ) -> (s: Self)
        requires
            Self::callable(
                base_refusal,
                base_fingerprint,
                time_grid,
                refined_refusal,
                initial_spot,
                executor_failure,
                calibrate,
                pricing_failure,
                quasi_failure,
                bridge_failure,
                bits,
            ),
            exists|model: SuppliedLsvCompilerModel<R, Calibrated>| #[trigger] Self::computes(
                base_refusal,
                base_fingerprint,
                time_grid,
                refined_refusal,
                initial_spot,
                executor_failure,
                calibrate,
                pricing_failure,
                quasi_failure,
                bridge_failure,
                bits,
                model,
            ),
        ensures
            Self::computes(
                base_refusal,
                base_fingerprint,
                time_grid,
                refined_refusal,
                initial_spot,
                executor_failure,
                calibrate,
                pricing_failure,
                quasi_failure,
                bridge_failure,
                bits,
                s.supplied(),
            ),
    {
        let ghost model = choose|model: SuppliedLsvCompilerModel<R, Calibrated>| #[trigger]
            Self::computes(
            base_refusal,
            base_fingerprint,
            time_grid,
            refined_refusal,
            initial_spot,
            executor_failure,
            calibrate,
            pricing_failure,
            quasi_failure,
            bridge_failure,
            bits,
            model,
        );
        SuppliedLsvCompiler {
            base_refusal,
            base_fingerprint,
            time_grid,
            refined_refusal,
            initial_spot,
            executor_failure,
            calibrate,
            pricing_failure,
            quasi_failure,
            bridge_failure,
            bits,
            model: Ghost(model),
        }
    }

    /// Takes functions that are known to compute `model`.
    pub fn with_model(
        base_refusal: FBaseRefusal,
        base_fingerprint: FBaseFingerprint,
        time_grid: FTimeGrid,
        refined_refusal: FRefinedRefusal,
        initial_spot: FInitialSpot,
        executor_failure: FExecutorFailure,
        calibrate: FCalibrate,
        pricing_failure: FPricingFailure,
        quasi_failure: FQuasiFailure,
        bridge_failure: FBridgeFailure,
        bits: FBits,
        model: Ghost<SuppliedLsvCompilerModel<R, Calibrated>>,
    ) -> (s: Self)
        requires
            Self::callable(
                base_refusal,
                base_fingerprint,
                time_grid,
                refined_refusal,
                initial_spot,
                executor_failure,
                calibrate,
                pricing_failure,
                quasi_failure,
                bridge_failure,
                bits,
            ),
            Self::computes(
                base_refusal,
                base_fingerprint,
                time_grid,
                refined_refusal,
                initial_spot,
                executor_failure,
                calibrate,
                pricing_failure,
                quasi_failure,
                bridge_failure,
                bits,
                model@,
            ),
        ensures
            s.supplied() == model@,
    {
        SuppliedLsvCompiler {
            base_refusal,
            base_fingerprint,
            time_grid,
            refined_refusal,
            initial_spot,
            executor_failure,
            calibrate,
            pricing_failure,
            quasi_failure,
            bridge_failure,
            bits,
            model,
        }
    }
}

impl<
    R: Scalar,
    Calibrated: LsvModel<R>,
    FBaseRefusal: Fn() -> Option<MonteCarloError>,
    FBaseFingerprint: Fn() -> Fingerprint,
    FTimeGrid: Fn() -> Result<Vec<R>, MonteCarloError>,
    FRefinedRefusal: Fn(&Vec<R>, &Vec<R>) -> Option<MonteCarloError>,
    FInitialSpot: Fn() -> R,
    FExecutorFailure: Fn() -> Option<MonteCarloError>,
    FCalibrate: Fn(&Vec<R>, &Vec<R>, &Vec<R>, R, LsvParticleConfig<R>) -> Result<
        Calibrated,
        MonteCarloError,
    >,
    FPricingFailure: Fn(&Calibrated, &Vec<R>) -> Option<MonteCarloError>,
    FQuasiFailure: Fn(&Calibrated) -> Option<MonteCarloError>,
    FBridgeFailure: Fn(&Vec<R>) -> Option<MonteCarloError>,
    FBits: Fn(R) -> u64,
> LsvCompiler<R> for SuppliedLsvCompiler<
    R,
    Calibrated,
    FBaseRefusal,
    FBaseFingerprint,
    FTimeGrid,
    FRefinedRefusal,
    FInitialSpot,
    FExecutorFailure,
    FCalibrate,
    FPricingFailure,
    FQuasiFailure,
    FBridgeFailure,
    FBits,
> {
    type Calibrated = Calibrated;

    open spec fn base_refusal_of(&self) -> Option<MonteCarloError> {
        (self.supplied().base_refusal)()
    }

    open spec fn base_fingerprint_of(&self) -> Fingerprint {
        (self.supplied().base_fingerprint)()
    }

    open spec fn time_grid_of(&self) -> Result<Seq<R>, MonteCarloError> {
        (self.supplied().time_grid)()
    }

    open spec fn refined_refusal_of(
        &self,
        grid: Seq<R>,
        values: Seq<R>,
    ) -> Option<MonteCarloError> {
        (self.supplied().refined_refusal)(grid, values)
    }

    open spec fn initial_spot_of(&self) -> R {
        (self.supplied().initial_spot)()
    }

    open spec fn executor_failure_of(&self) -> Option<MonteCarloError> {
        (self.supplied().executor_failure)()
    }

    open spec fn calibration_of(
        &self,
        parameters: Seq<R>,
        grid: Seq<R>,
        values: Seq<R>,
        initial: R,
        particles: LsvParticleConfig<R>,
    ) -> Result<Calibrated, MonteCarloError> {
        (self.supplied().calibrate)(parameters, grid, values, initial, particles)
    }

    open spec fn pricing_failure_of(
        &self,
        calibrated: Self::Calibrated,
        grid: Seq<R>,
    ) -> Option<MonteCarloError> {
        (self.supplied().pricing_failure)(calibrated, grid)
    }

    open spec fn quasi_failure_of(&self, calibrated: Self::Calibrated) -> Option<MonteCarloError> {
        (self.supplied().quasi_failure)(calibrated)
    }

    open spec fn bridge_failure_of(&self, nodes: Seq<R>) -> Option<MonteCarloError> {
        (self.supplied().bridge_failure)(nodes)
    }

    open spec fn bits_of(&self, number: R) -> u64 {
        (self.supplied().bits)(number)
    }

    fn trace_laws(&self) {
        proof {
            use_type_invariant(self);
            let model = self.supplied();
            assert(model.calibrate =~= |
                parameters: Seq<R>,
                grid: Seq<R>,
                values: Seq<R>,
                initial: R,
                particles: LsvParticleConfig<R>,
            | self.calibration_of(parameters, grid, values, initial, particles));
            assert(model.pricing_failure =~= |c: Calibrated, grid: Seq<R>|
                self.pricing_failure_of(c, grid));
            assert(model.quasi_failure =~= |c: Calibrated| self.quasi_failure_of(c));
        }
    }

    fn base_refusal(&self) -> (r: Option<MonteCarloError>) {
        proof {
            use_type_invariant(self);
        }
        (self.base_refusal)()
    }

    fn base_fingerprint(&self) -> (r: Fingerprint) {
        proof {
            use_type_invariant(self);
        }
        (self.base_fingerprint)()
    }

    fn time_grid(&self) -> (r: Result<Vec<R>, MonteCarloError>) {
        proof {
            use_type_invariant(self);
        }
        (self.time_grid)()
    }

    fn refined_refusal(&self, grid: &Vec<R>, values: &Vec<R>) -> (r: Option<MonteCarloError>) {
        proof {
            use_type_invariant(self);
        }
        (self.refined_refusal)(grid, values)
    }

    fn initial_spot(&self) -> (r: R) {
        proof {
            use_type_invariant(self);
        }
        (self.initial_spot)()
    }

    fn executor_failure(&self) -> (r: Option<MonteCarloError>) {
        proof {
            use_type_invariant(self);
        }
        (self.executor_failure)()
    }

    fn calibrate(
        &self,
        parameters: &Vec<R>,
        grid: &Vec<R>,
        values: &Vec<R>,
        initial: R,
        particles: LsvParticleConfig<R>,
    ) -> (r: Result<Self::Calibrated, MonteCarloError>) {
        proof {
            use_type_invariant(self);
        }
        (self.calibrate)(parameters, grid, values, initial, particles)
    }

    fn pricing_failure(
        &self,
        calibrated: &Self::Calibrated,
        grid: &Vec<R>,
    ) -> (r: Option<MonteCarloError>) {
        proof {
            use_type_invariant(self);
        }
        (self.pricing_failure)(calibrated, grid)
    }

    fn quasi_failure(&self, calibrated: &Self::Calibrated) -> (r: Option<MonteCarloError>) {
        proof {
            use_type_invariant(self);
        }
        (self.quasi_failure)(calibrated)
    }

    fn bridge_failure(&self, nodes: &Vec<R>) -> (r: Option<MonteCarloError>) {
        proof {
            use_type_invariant(self);
        }
        (self.bridge_failure)(nodes)
    }

    fn bits(&self, number: R) -> (r: u64) {
        proof {
            use_type_invariant(self);
        }
        (self.bits)(number)
    }
}

} // verus!
