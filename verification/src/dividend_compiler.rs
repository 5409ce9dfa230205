//! What the paths of a dividend plan are compiled by.

use crate::errors::MonteCarloError;
use crate::lsv_model::LsvParticleConfig;
use crate::models::{Bergomi1Factor, Bergomi2Factor, BuehlerDividendModel, Pair};
use crate::results::seen;
use crate::reverse::DividendPath;
use crate::scalar::Scalar;
use vstd::prelude::*;

verus! {

/// Compiles the paths of dividend plans and calibrates their leverage surfaces.
pub trait DividendCompiler<R: Scalar> {
    /// A leverage surface.
    type Surface;

    /// The path of dividends and an equity of constant volatility on a grid.
    spec fn path_of(
        &self,
        dividends: BuehlerDividendModel<R>,
        volatility: R,
        grid: Seq<R>,
    ) -> Result<DividendPath<R, Self::Surface>, MonteCarloError>;

    /// A path with one volatility factor.
    spec fn bergomi_path(
        &self,
        path: DividendPath<R, Self::Surface>,
        factor: Bergomi1Factor<R>,
        correlation: R,
    ) -> Result<DividendPath<R, Self::Surface>, MonteCarloError>;

    /// A path with two volatility factors.
    spec fn two_factor_path(
        &self,
        path: DividendPath<R, Self::Surface>,
        factor: Bergomi2Factor<R>,
        correlations: Pair<R>,
    ) -> Result<DividendPath<R, Self::Surface>, MonteCarloError>;

    /// A path with one volatility factor and a leverage surface.
    spec fn bergomi_lsv_path(
        &self,
        path: DividendPath<R, Self::Surface>,
        factor: Bergomi1Factor<R>,
        correlation: R,
        surface: Self::Surface,
    ) -> Result<DividendPath<R, Self::Surface>, MonteCarloError>;

    /// A path with two volatility factors and a leverage surface.
    spec fn two_factor_lsv_path(
        &self,
        path: DividendPath<R, Self::Surface>,
        factor: Bergomi2Factor<R>,
        correlations: Pair<R>,
        surface: Self::Surface,
    ) -> Result<DividendPath<R, Self::Surface>, MonteCarloError>;

    /// The leverage surface calibrated to local variances with one volatility factor.
    spec fn calibration_one(
        &self,
        grid: Seq<R>,
        values: Seq<R>,
        factor: Bergomi1Factor<R>,
        initial: R,
        particles: LsvParticleConfig<R>,
    ) -> Result<Self::Surface, MonteCarloError>;

    /// The leverage surface calibrated to local variances with two volatility factors.
    spec fn calibration_two(
        &self,
        grid: Seq<R>,
        values: Seq<R>,
        factor: Bergomi2Factor<R>,
        initial: R,
        particles: LsvParticleConfig<R>,
    ) -> Result<Self::Surface, MonteCarloError>;

    /// The residual equity that a path starts from.
    spec fn risky_spot_of(&self, path: DividendPath<R, Self::Surface>) -> R;

    /// The number of normals of a step of a path.
    spec fn factors_of(&self, path: DividendPath<R, Self::Surface>) -> usize;

    /// The name of the scheme of a path.
    spec fn scheme_of(&self, path: DividendPath<R, Self::Surface>) -> &'static str;

    /// The name of the scheme at constant volatility.
    spec fn base_scheme_of(&self) -> &'static str;

    /// What identifies the volatility of a path.
    spec fn volatility_message_of(&self, path: DividendPath<R, Self::Surface>) -> Seq<u8>;

    /// The times that the product and its target need.
    spec fn lsv_time_grid_of(&self) -> Result<Seq<R>, MonteCarloError>;

    /// Why a refined target is refused.
    spec fn refined_refusal_of(&self, grid: Seq<R>, values: Seq<R>) -> Option<MonteCarloError>;

    /// The dates of the dividends.
    spec fn event_times_of(&self) -> Seq<R>;

    /// Computes [`Self::path_of`].
    fn path(
        &self,
        dividends: BuehlerDividendModel<R>,
        volatility: R,
        grid: &Vec<R>,
    ) -> (r: Result<DividendPath<R, Self::Surface>, MonteCarloError>)
        ensures
            r == self.path_of(dividends, volatility, grid@),
            r matches Ok(p) ==> p@.valid() && p.dimension <= u32::MAX,
    ;

    /// Computes [`Self::bergomi_path`].
    fn with_bergomi(
        &self,
        path: &DividendPath<R, Self::Surface>,
        factor: Bergomi1Factor<R>,
        correlation: R,
    ) -> (r: Result<DividendPath<R, Self::Surface>, MonteCarloError>)
        ensures
            r == self.bergomi_path(*path, factor, correlation),
            r matches Ok(p) ==> p@.valid() && p.dimension <= u32::MAX,
    ;

    /// Computes [`Self::two_factor_path`].
    fn with_bergomi_two_factor(
        &self,
        path: &DividendPath<R, Self::Surface>,
        factor: Bergomi2Factor<R>,
        correlations: Pair<R>,
    ) -> (r: Result<DividendPath<R, Self::Surface>, MonteCarloError>)
        ensures
            r == self.two_factor_path(*path, factor, correlations),
            r matches Ok(p) ==> p@.valid() && p.dimension <= u32::MAX,
    ;

    /// Computes [`Self::bergomi_lsv_path`].
    fn with_bergomi_lsv(
        &self,
        path: &DividendPath<R, Self::Surface>,
        factor: Bergomi1Factor<R>,
        correlation: R,
        surface: Self::Surface,
    ) -> (r: Result<DividendPath<R, Self::Surface>, MonteCarloError>)
        ensures
            r == self.bergomi_lsv_path(*path, factor, correlation, surface),
            r matches Ok(p) ==> p@.valid() && p.dimension <= u32::MAX,
    ;

    /// Computes [`Self::two_factor_lsv_path`].
    fn with_bergomi_two_factor_lsv(
        &self,
        path: &DividendPath<R, Self::Surface>,
        factor: Bergomi2Factor<R>,
        correlations: Pair<R>,
        surface: Self::Surface,
    ) -> (r: Result<DividendPath<R, Self::Surface>, MonteCarloError>)
        ensures
            r == self.two_factor_lsv_path(*path, factor, correlations, surface),
            r matches Ok(p) ==> p@.valid() && p.dimension <= u32::MAX,
    ;

    /// Computes [`Self::calibration_one`].
    fn calibrate_one(
        &self,
        grid: &Vec<R>,
        values: &Vec<R>,
        factor: Bergomi1Factor<R>,
        initial: R,
        particles: LsvParticleConfig<R>,
    ) -> (r: Result<Self::Surface, MonteCarloError>)
        ensures
            r == self.calibration_one(grid@, values@, factor, initial, particles),
    ;

    /// Computes [`Self::calibration_two`].
    fn calibrate_two(
        &self,
        grid: &Vec<R>,
        values: &Vec<R>,
        factor: Bergomi2Factor<R>,
        initial: R,
        particles: LsvParticleConfig<R>,
    ) -> (r: Result<Self::Surface, MonteCarloError>)
        ensures
            r == self.calibration_two(grid@, values@, factor, initial, particles),
    ;

    /// Computes [`Self::risky_spot_of`].
    fn risky_spot(&self, path: &DividendPath<R, Self::Surface>) -> (r: R)
        ensures
            r == self.risky_spot_of(*path),
    ;

    /// Computes [`Self::factors_of`].
    fn factors(&self, path: &DividendPath<R, Self::Surface>) -> (r: usize)
        ensures
            r == self.factors_of(*path),
            0 < r <= 16,
    ;

    /// Computes [`Self::scheme_of`].
    fn scheme(&self, path: &DividendPath<R, Self::Surface>) -> (r: &'static str)
        ensures
            r == self.scheme_of(*path),
    ;

    /// Computes [`Self::base_scheme_of`].
    fn base_scheme(&self) -> (r: &'static str)
        ensures
            r == self.base_scheme_of(),
    ;

    /// Computes [`Self::volatility_message_of`].
    fn volatility_message(&self, path: &DividendPath<R, Self::Surface>) -> (r: Vec<u8>)
        ensures
            r@ == self.volatility_message_of(*path),
    ;

    /// Computes [`Self::lsv_time_grid_of`].
    fn lsv_time_grid(&self) -> (r: Result<Vec<R>, MonteCarloError>)
        ensures
            seen(r) == self.lsv_time_grid_of(),
    ;

    /// Computes [`Self::refined_refusal_of`].
    fn refined_refusal(&self, grid: &Vec<R>, values: &Vec<R>) -> (r: Option<MonteCarloError>)
        ensures
            r == self.refined_refusal_of(grid@, values@),
    ;

    /// Computes [`Self::event_times_of`].
    fn event_times(&self) -> (r: Vec<R>)
        ensures
            r@ == self.event_times_of(),
    ;
}

/// The functions behind a [`SuppliedDividendCompiler`], as mathematical functions.
#[verifier::reject_recursive_types(R)]
#[verifier::reject_recursive_types(Surface)]
pub ghost struct SuppliedDividendCompilerModel<R, Surface> {
    pub path: spec_fn(BuehlerDividendModel<R>, R, Seq<R>) -> Result<
        DividendPath<R, Surface>,
        MonteCarloError,
    >,
    pub with_bergomi: spec_fn(
        DividendPath<R, Surface>,
        Bergomi1Factor<R>,
        R,
    ) -> Result<DividendPath<R, Surface>, MonteCarloError>,
    pub with_bergomi_two_factor: spec_fn(
        DividendPath<R, Surface>,
        Bergomi2Factor<R>,
        Pair<R>,
    ) -> Result<DividendPath<R, Surface>, MonteCarloError>,
    pub with_bergomi_lsv: spec_fn(
        DividendPath<R, Surface>,
        Bergomi1Factor<R>,
        R,
        Surface,
    ) -> Result<DividendPath<R, Surface>, MonteCarloError>,
    pub with_bergomi_two_factor_lsv: spec_fn(
        DividendPath<R, Surface>,
        Bergomi2Factor<R>,
        Pair<R>,
        Surface,
    ) -> Result<DividendPath<R, Surface>, MonteCarloError>,
    pub calibrate_one: spec_fn(
        Seq<R>,
        Seq<R>,
        Bergomi1Factor<R>,
        R,
        LsvParticleConfig<R>,
    ) -> Result<Surface, MonteCarloError>,
    pub calibrate_two: spec_fn(
        Seq<R>,
        Seq<R>,
        Bergomi2Factor<R>,
        R,
        LsvParticleConfig<R>,
    ) -> Result<Surface, MonteCarloError>,
    pub risky_spot: spec_fn(DividendPath<R, Surface>) -> R,
    pub factors: spec_fn(DividendPath<R, Surface>) -> usize,
    pub scheme: spec_fn(DividendPath<R, Surface>) -> &'static str,
    pub base_scheme: spec_fn() -> &'static str,
    pub volatility_message: spec_fn(DividendPath<R, Surface>) -> Seq<u8>,
    pub lsv_time_grid: spec_fn() -> Result<Seq<R>, MonteCarloError>,
    pub refined_refusal: spec_fn(Seq<R>, Seq<R>) -> Option<MonteCarloError>,
    pub event_times: spec_fn() -> Seq<R>,
}

/// A [`DividendCompiler`] whose functions are supplied one by one.
#[verifier::reject_recursive_types(R)]
#[verifier::reject_recursive_types(Surface)]
pub struct SuppliedDividendCompiler<
    R: Scalar,
    Surface,
    FPath: Fn(BuehlerDividendModel<R>, R, &Vec<R>) -> Result<
        DividendPath<R, Surface>,
        MonteCarloError,
    >,
    FWithBergomi: Fn(
        &DividendPath<R, Surface>,
        Bergomi1Factor<R>,
        R,
    ) -> Result<DividendPath<R, Surface>, MonteCarloError>,
    FWithBergomiTwoFactor: Fn(
        &DividendPath<R, Surface>,
        Bergomi2Factor<R>,
        Pair<R>,
    ) -> Result<DividendPath<R, Surface>, MonteCarloError>,
    FWithBergomiLsv: Fn(
        &DividendPath<R, Surface>,
        Bergomi1Factor<R>,
        R,
        Surface,
    ) -> Result<DividendPath<R, Surface>, MonteCarloError>,
    FWithBergomiTwoFactorLsv: Fn(
        &DividendPath<R, Surface>,
        Bergomi2Factor<R>,
        Pair<R>,
        Surface,
    ) -> Result<DividendPath<R, Surface>, MonteCarloError>,
    FCalibrateOne: Fn(
        &Vec<R>,
        &Vec<R>,
        Bergomi1Factor<R>,
        R,
        LsvParticleConfig<R>,
    ) -> Result<Surface, MonteCarloError>,
    FCalibrateTwo: Fn(
        &Vec<R>,
        &Vec<R>,
        Bergomi2Factor<R>,
        R,
        LsvParticleConfig<R>,
    ) -> Result<Surface, MonteCarloError>,
    FRiskySpot: Fn(&DividendPath<R, Surface>) -> R,
    FFactors: Fn(&DividendPath<R, Surface>) -> usize,
    FScheme: Fn(&DividendPath<R, Surface>) -> &'static str,
    FBaseScheme: Fn() -> &'static str,
    FVolatilityMessage: Fn(&DividendPath<R, Surface>) -> Vec<u8>,
    FLsvTimeGrid: Fn() -> Result<Vec<R>, MonteCarloError>,
    FRefinedRefusal: Fn(&Vec<R>, &Vec<R>) -> Option<MonteCarloError>,
    FEventTimes: Fn() -> Vec<R>,
> {
    path: FPath,
    with_bergomi: FWithBergomi,
    with_bergomi_two_factor: FWithBergomiTwoFactor,
    with_bergomi_lsv: FWithBergomiLsv,
    with_bergomi_two_factor_lsv: FWithBergomiTwoFactorLsv,
    calibrate_one: FCalibrateOne,
    calibrate_two: FCalibrateTwo,
    risky_spot: FRiskySpot,
    factors: FFactors,
    scheme: FScheme,
    base_scheme: FBaseScheme,
    volatility_message: FVolatilityMessage,
    lsv_time_grid: FLsvTimeGrid,
    refined_refusal: FRefinedRefusal,
    event_times: FEventTimes,
    model: Ghost<SuppliedDividendCompilerModel<R, Surface>>,
}

impl<
    R: Scalar,
    Surface,
    FPath: Fn(BuehlerDividendModel<R>, R, &Vec<R>) -> Result<
        DividendPath<R, Surface>,
        MonteCarloError,
    >,
    FWithBergomi: Fn(
        &DividendPath<R, Surface>,
        Bergomi1Factor<R>,
        R,
    ) -> Result<DividendPath<R, Surface>, MonteCarloError>,
    FWithBergomiTwoFactor: Fn(
        &DividendPath<R, Surface>,
        Bergomi2Factor<R>,
        Pair<R>,
    ) -> Result<DividendPath<R, Surface>, MonteCarloError>,
    FWithBergomiLsv: Fn(
        &DividendPath<R, Surface>,
        Bergomi1Factor<R>,
        R,
        Surface,
    ) -> Result<DividendPath<R, Surface>, MonteCarloError>,
    FWithBergomiTwoFactorLsv: Fn(
        &DividendPath<R, Surface>,
        Bergomi2Factor<R>,
        Pair<R>,
        Surface,
    ) -> Result<DividendPath<R, Surface>, MonteCarloError>,
    FCalibrateOne: Fn(
        &Vec<R>,
        &Vec<R>,
        Bergomi1Factor<R>,
        R,
        LsvParticleConfig<R>,
    ) -> Result<Surface, MonteCarloError>,
    FCalibrateTwo: Fn(
        &Vec<R>,
        &Vec<R>,
        Bergomi2Factor<R>,
        R,
        LsvParticleConfig<R>,
    ) -> Result<Surface, MonteCarloError>,
    FRiskySpot: Fn(&DividendPath<R, Surface>) -> R,
    FFactors: Fn(&DividendPath<R, Surface>) -> usize,
    FScheme: Fn(&DividendPath<R, Surface>) -> &'static str,
    FBaseScheme: Fn() -> &'static str,
    FVolatilityMessage: Fn(&DividendPath<R, Surface>) -> Vec<u8>,
    FLsvTimeGrid: Fn() -> Result<Vec<R>, MonteCarloError>,
    FRefinedRefusal: Fn(&Vec<R>, &Vec<R>) -> Option<MonteCarloError>,
    FEventTimes: Fn() -> Vec<R>,
> SuppliedDividendCompiler<
    R,
    Surface,
    FPath,
    FWithBergomi,
    FWithBergomiTwoFactor,
    FWithBergomiLsv,
    FWithBergomiTwoFactorLsv,
    FCalibrateOne,
    FCalibrateTwo,
    FRiskySpot,
    FFactors,
    FScheme,
    FBaseScheme,
    FVolatilityMessage,
    FLsvTimeGrid,
    FRefinedRefusal,
    FEventTimes,
> {
    #[verifier::type_invariant]
    closed spec fn inv(self) -> bool {
        Self::callable(
            self.path,
            self.with_bergomi,
            self.with_bergomi_two_factor,
            self.with_bergomi_lsv,
            self.with_bergomi_two_factor_lsv,
            self.calibrate_one,
            self.calibrate_two,
            self.risky_spot,
            self.factors,
            self.scheme,
            self.base_scheme,
            self.volatility_message,
            self.lsv_time_grid,
            self.refined_refusal,
            self.event_times,
        )
            && Self::computes(
                self.path,
                self.with_bergomi,
                self.with_bergomi_two_factor,
                self.with_bergomi_lsv,
                self.with_bergomi_two_factor_lsv,
                self.calibrate_one,
                self.calibrate_two,
                self.risky_spot,
                self.factors,
                self.scheme,
                self.base_scheme,
                self.volatility_message,
                self.lsv_time_grid,
                self.refined_refusal,
                self.event_times,
                self.model@,
            )
    }

    /// The functions accept every argument.
    pub open spec fn callable(
        path: FPath,
        with_bergomi: FWithBergomi,
        with_bergomi_two_factor: FWithBergomiTwoFactor,
        with_bergomi_lsv: FWithBergomiLsv,
        with_bergomi_two_factor_lsv: FWithBergomiTwoFactorLsv,
        calibrate_one: FCalibrateOne,
        calibrate_two: FCalibrateTwo,
        risky_spot: FRiskySpot,
        factors: FFactors,
        scheme: FScheme,
        base_scheme: FBaseScheme,
        volatility_message: FVolatilityMessage,
        lsv_time_grid: FLsvTimeGrid,
        refined_refusal: FRefinedRefusal,
        event_times: FEventTimes,
    ) -> bool {
        &&& forall|dividends: BuehlerDividendModel<R>, volatility: R, grid: &Vec<R>|
            #[trigger] call_requires(
                path,
                (dividends, volatility, grid),
            )
        &&& forall|path: &DividendPath<R, Surface>, factor: Bergomi1Factor<R>, correlation: R|
            #[trigger] call_requires(
                with_bergomi,
                (path, factor, correlation),
            )
        &&& forall|
            path: &DividendPath<R, Surface>,
            factor: Bergomi2Factor<R>,
            correlations: Pair<R>,
        |
            #[trigger] call_requires(
                with_bergomi_two_factor,
                (path, factor, correlations),
            )
        &&& forall|
            path: &DividendPath<R, Surface>,
            factor: Bergomi1Factor<R>,
            correlation: R,
            surface: Surface,
        |
            #[trigger] call_requires(
                with_bergomi_lsv,
                (path, factor, correlation, surface),
            )
        &&& forall|
            path: &DividendPath<R, Surface>,
            factor: Bergomi2Factor<R>,
            correlations: Pair<R>,
            surface: Surface,
        |
            #[trigger] call_requires(
                with_bergomi_two_factor_lsv,
                (path, factor, correlations, surface),
            )
        &&& forall|
            grid: &Vec<R>,
            values: &Vec<R>,
            factor: Bergomi1Factor<R>,
            initial: R,
            particles: LsvParticleConfig<R>,
        |
            #[trigger] call_requires(
                calibrate_one,
                (grid, values, factor, initial, particles),
            )
        &&& forall|
            grid: &Vec<R>,
            values: &Vec<R>,
            factor: Bergomi2Factor<R>,
            initial: R,
            particles: LsvParticleConfig<R>,
        |
            #[trigger] call_requires(
                calibrate_two,
                (grid, values, factor, initial, particles),
            )
        &&& forall|path: &DividendPath<R, Surface>| #[trigger] call_requires(risky_spot, (path,))
        &&& forall|path: &DividendPath<R, Surface>| #[trigger] call_requires(factors, (path,))
        &&& forall|path: &DividendPath<R, Surface>| #[trigger] call_requires(scheme, (path,))
        &&& call_requires(base_scheme, ())
        &&& forall|path: &DividendPath<R, Surface>|
            #[trigger] call_requires(volatility_message, (path,))
        &&& call_requires(lsv_time_grid, ())
        &&& forall|grid: &Vec<R>, values: &Vec<R>| #[trigger] call_requires(
            refined_refusal,
            (grid, values),
        )
        &&& call_requires(event_times, ())
    }

    /// The functions compute those of the model.
    pub open spec fn computes(
        path: FPath,
        with_bergomi: FWithBergomi,
        with_bergomi_two_factor: FWithBergomiTwoFactor,
        with_bergomi_lsv: FWithBergomiLsv,
        with_bergomi_two_factor_lsv: FWithBergomiTwoFactorLsv,
        calibrate_one: FCalibrateOne,
        calibrate_two: FCalibrateTwo,
        risky_spot: FRiskySpot,
        factors: FFactors,
        scheme: FScheme,
        base_scheme: FBaseScheme,
        volatility_message: FVolatilityMessage,
        lsv_time_grid: FLsvTimeGrid,
        refined_refusal: FRefinedRefusal,
        event_times: FEventTimes,
        model: SuppliedDividendCompilerModel<R, Surface>,
    ) -> bool {
        &&& forall|
            dividends: BuehlerDividendModel<R>,
            volatility: R,
            grid: &Vec<R>,
            result: Result<DividendPath<R, Surface>, MonteCarloError>,
        |
            #[trigger]
            call_ensures(path, (dividends, volatility, grid), result)
                ==> result == (model.path)(dividends, volatility, grid@) && (
                result matches Ok(p) ==> p@.valid() && p.dimension <= u32::MAX
            )
        &&& forall|
            path: &DividendPath<R, Surface>,
            factor: Bergomi1Factor<R>,
            correlation: R,
            result: Result<DividendPath<R, Surface>, MonteCarloError>,
        |
            #[trigger]
            call_ensures(with_bergomi, (path, factor, correlation), result)
                ==> result == (model.with_bergomi)(*path, factor, correlation) && (
                result matches Ok(p) ==> p@.valid() && p.dimension <= u32::MAX
            )
        &&& forall|
            path: &DividendPath<R, Surface>,
            factor: Bergomi2Factor<R>,
            correlations: Pair<R>,
            result: Result<DividendPath<R, Surface>, MonteCarloError>,
        |
            #[trigger]
            call_ensures(with_bergomi_two_factor, (path, factor, correlations), result)
                ==> result == (model.with_bergomi_two_factor)(*path, factor, correlations) && (
                result matches Ok(p) ==> p@.valid() && p.dimension <= u32::MAX
            )
        &&& forall|
            path: &DividendPath<R, Surface>,
            factor: Bergomi1Factor<R>,
            correlation: R,
            surface: Surface,
            result: Result<DividendPath<R, Surface>, MonteCarloError>,
        |
            #[trigger]
            call_ensures(
                with_bergomi_lsv,
                (path, factor, correlation, surface),
                result,
            ) ==> result == (model.with_bergomi_lsv)(*path, factor, correlation, surface) && (
                result matches Ok(p) ==> p@.valid() && p.dimension <= u32::MAX
            )
        &&& forall|
            path: &DividendPath<R, Surface>,
            factor: Bergomi2Factor<R>,
            correlations: Pair<R>,
            surface: Surface,
            result: Result<DividendPath<R, Surface>, MonteCarloError>,
        |
            #[trigger]
            call_ensures(
                with_bergomi_two_factor_lsv,
                (path, factor, correlations, surface),
                result,
            ) ==> result == (model.with_bergomi_two_factor_lsv)(*path, factor, correlations, surface) && (
                result matches Ok(p) ==> p@.valid() && p.dimension <= u32::MAX
            )
        &&& forall|
            grid: &Vec<R>,
            values: &Vec<R>,
            factor: Bergomi1Factor<R>,
            initial: R,
            particles: LsvParticleConfig<R>,
            result: Result<Surface, MonteCarloError>,
        |
            #[trigger]
            call_ensures(
                calibrate_one,
                (grid, values, factor, initial, particles),
                result,
            ) ==> result == (model.calibrate_one)(grid@, values@, factor, initial, particles)
        &&& forall|
            grid: &Vec<R>,
            values: &Vec<R>,
            factor: Bergomi2Factor<R>,
            initial: R,
            particles: LsvParticleConfig<R>,
            result: Result<Surface, MonteCarloError>,
        |
            #[trigger]
            call_ensures(
                calibrate_two,
                (grid, values, factor, initial, particles),
                result,
            ) ==> result == (model.calibrate_two)(grid@, values@, factor, initial, particles)
        &&& forall|path: &DividendPath<R, Surface>, result: R| #[trigger]
            call_ensures(risky_spot, (path,), result) ==> result == (model.risky_spot)(*path)
        &&& forall|path: &DividendPath<R, Surface>, result: usize| #[trigger]
            call_ensures(factors, (path,), result) ==> result == (model.factors)(*path)
                && (0 < result <= 16)
        &&& forall|path: &DividendPath<R, Surface>, result: &'static str| #[trigger]
            call_ensures(scheme, (path,), result) ==> result == (model.scheme)(*path)
        &&& forall|result: &'static str| #[trigger]
            call_ensures(base_scheme, (), result) ==> result == (model.base_scheme)()
        &&& forall|path: &DividendPath<R, Surface>, result: Vec<u8>| #[trigger]
            call_ensures(
                volatility_message,
                (path,),
                result,
            ) ==> result@ == (model.volatility_message)(*path)
        &&& forall|result: Result<Vec<R>, MonteCarloError>| #[trigger]
            call_ensures(lsv_time_grid, (), result) ==> seen(result) == (model.lsv_time_grid)()
        &&& forall|grid: &Vec<R>, values: &Vec<R>, result: Option<MonteCarloError>| #[trigger]
            call_ensures(
                refined_refusal,
                (grid, values),
                result,
            ) ==> result == (model.refined_refusal)(grid@, values@)
        &&& forall|result: Vec<R>| #[trigger]
            call_ensures(event_times, (), result) ==> result@ == (model.event_times)()
    }

    /// The functions that were supplied.
    pub closed spec fn supplied(self) -> SuppliedDividendCompilerModel<R, Surface> {
        self.model@
    }

    /// Takes functions that give the same result whenever they are given the
    /// same arguments.
    pub fn new(
        path: FPath,
        with_bergomi: FWithBergomi,
        with_bergomi_two_factor: FWithBergomiTwoFactor,
        with_bergomi_lsv: FWithBergomiLsv,
        with_bergomi_two_factor_lsv: FWithBergomiTwoFactorLsv,
        calibrate_one: FCalibrateOne,
        calibrate_two: FCalibrateTwo,
        risky_spot: FRiskySpot,
        factors: FFactors,
        scheme: FScheme,
        base_scheme: FBaseScheme,
        volatility_message: FVolatilityMessage,
        lsv_time_grid: FLsvTimeGrid,
        refined_refusal: FRefinedRefusal,
        event_times: FEventTimes,
    ) -> (s: Self)
        requires
            Self::callable(
                path,
                with_bergomi,
                with_bergomi_two_factor,
                with_bergomi_lsv,
                with_bergomi_two_factor_lsv,
                calibrate_one,
                calibrate_two,
                risky_spot,
                factors,
                scheme,
                base_scheme,
                volatility_message,
                lsv_time_grid,
                refined_refusal,
                event_times,
            ),
            exists|model: SuppliedDividendCompilerModel<R, Surface>| #[trigger] Self::computes(
                path,
                with_bergomi,
                with_bergomi_two_factor,
                with_bergomi_lsv,
                with_bergomi_two_factor_lsv,
                calibrate_one,
                calibrate_two,
                risky_spot,
                factors,
                scheme,
                base_scheme,
                volatility_message,
                lsv_time_grid,
                refined_refusal,
                event_times,
                model,
            ),
        ensures
            Self::computes(
                path,
                with_bergomi,
                with_bergomi_two_factor,
                with_bergomi_lsv,
                with_bergomi_two_factor_lsv,
                calibrate_one,
                calibrate_two,
                risky_spot,
                factors,
                scheme,
                base_scheme,
                volatility_message,
                lsv_time_grid,
                refined_refusal,
                event_times,
                s.supplied(),
            ),
    {
        let ghost model = choose|model: SuppliedDividendCompilerModel<R, Surface>| #[trigger]
            Self::computes(
            path,
            with_bergomi,
            with_bergomi_two_factor,
            with_bergomi_lsv,
            with_bergomi_two_factor_lsv,
            calibrate_one,
            calibrate_two,
            risky_spot,
            factors,
            scheme,
            base_scheme,
            volatility_message,
            lsv_time_grid,
            refined_refusal,
            event_times,
            model,
        );
        SuppliedDividendCompiler {
            path,
            with_bergomi,
            with_bergomi_two_factor,
            with_bergomi_lsv,
            with_bergomi_two_factor_lsv,
            calibrate_one,
            calibrate_two,
            risky_spot,
            factors,
            scheme,
            base_scheme,
            volatility_message,
            lsv_time_grid,
            refined_refusal,
            event_times,
            model: Ghost(model),
        }
    }

    /// Takes functions that are known to compute `model`.
    pub fn with_model(
        path: FPath,
        with_bergomi: FWithBergomi,
        with_bergomi_two_factor: FWithBergomiTwoFactor,
        with_bergomi_lsv: FWithBergomiLsv,
        with_bergomi_two_factor_lsv: FWithBergomiTwoFactorLsv,
        calibrate_one: FCalibrateOne,
        calibrate_two: FCalibrateTwo,
        risky_spot: FRiskySpot,
        factors: FFactors,
        scheme: FScheme,
        base_scheme: FBaseScheme,
        volatility_message: FVolatilityMessage,
        lsv_time_grid: FLsvTimeGrid,
        refined_refusal: FRefinedRefusal,
        event_times: FEventTimes,
        model: Ghost<SuppliedDividendCompilerModel<R, Surface>>,
    ) -> (s: Self)
        requires
            Self::callable(
                path,
                with_bergomi,
                with_bergomi_two_factor,
                with_bergomi_lsv,
                with_bergomi_two_factor_lsv,
                calibrate_one,
                calibrate_two,
                risky_spot,
                factors,
                scheme,
                base_scheme,
                volatility_message,
                lsv_time_grid,
                refined_refusal,
                event_times,
            ),
            Self::computes(
                path,
                with_bergomi,
                with_bergomi_two_factor,
                with_bergomi_lsv,
                with_bergomi_two_factor_lsv,
                calibrate_one,
                calibrate_two,
                risky_spot,
                factors,
                scheme,
                base_scheme,
                volatility_message,
                lsv_time_grid,
                refined_refusal,
                event_times,
                model@,
            ),
        ensures
            s.supplied() == model@,
    {
        SuppliedDividendCompiler {
            path,
            with_bergomi,
            with_bergomi_two_factor,
            with_bergomi_lsv,
            with_bergomi_two_factor_lsv,
            calibrate_one,
            calibrate_two,
            risky_spot,
            factors,
            scheme,
            base_scheme,
            volatility_message,
            lsv_time_grid,
            refined_refusal,
            event_times,
            model,
        }
    }
}

impl<
    R: Scalar,
    Surface,
    FPath: Fn(BuehlerDividendModel<R>, R, &Vec<R>) -> Result<
        DividendPath<R, Surface>,
        MonteCarloError,
    >,
    FWithBergomi: Fn(
        &DividendPath<R, Surface>,
        Bergomi1Factor<R>,
        R,
    ) -> Result<DividendPath<R, Surface>, MonteCarloError>,
    FWithBergomiTwoFactor: Fn(
        &DividendPath<R, Surface>,
        Bergomi2Factor<R>,
        Pair<R>,
    ) -> Result<DividendPath<R, Surface>, MonteCarloError>,
    FWithBergomiLsv: Fn(
        &DividendPath<R, Surface>,
        Bergomi1Factor<R>,
        R,
        Surface,
    ) -> Result<DividendPath<R, Surface>, MonteCarloError>,
    FWithBergomiTwoFactorLsv: Fn(
        &DividendPath<R, Surface>,
        Bergomi2Factor<R>,
        Pair<R>,
        Surface,
    ) -> Result<DividendPath<R, Surface>, MonteCarloError>,
    FCalibrateOne: Fn(
        &Vec<R>,
        &Vec<R>,
        Bergomi1Factor<R>,
        R,
        LsvParticleConfig<R>,
    ) -> Result<Surface, MonteCarloError>,
    FCalibrateTwo: Fn(
        &Vec<R>,
        &Vec<R>,
        Bergomi2Factor<R>,
        R,
        LsvParticleConfig<R>,
    ) -> Result<Surface, MonteCarloError>,
    FRiskySpot: Fn(&DividendPath<R, Surface>) -> R,
    FFactors: Fn(&DividendPath<R, Surface>) -> usize,
    FScheme: Fn(&DividendPath<R, Surface>) -> &'static str,
    FBaseScheme: Fn() -> &'static str,
    FVolatilityMessage: Fn(&DividendPath<R, Surface>) -> Vec<u8>,
    FLsvTimeGrid: Fn() -> Result<Vec<R>, MonteCarloError>,
    FRefinedRefusal: Fn(&Vec<R>, &Vec<R>) -> Option<MonteCarloError>,
    FEventTimes: Fn() -> Vec<R>,
> DividendCompiler<R> for SuppliedDividendCompiler<
    R,
    Surface,
    FPath,
    FWithBergomi,
    FWithBergomiTwoFactor,
    FWithBergomiLsv,
    FWithBergomiTwoFactorLsv,
    FCalibrateOne,
    FCalibrateTwo,
    FRiskySpot,
    FFactors,
    FScheme,
    FBaseScheme,
    FVolatilityMessage,
    FLsvTimeGrid,
    FRefinedRefusal,
    FEventTimes,
> {
    type Surface = Surface;

    open spec fn path_of(
        &self,
        dividends: BuehlerDividendModel<R>,
        volatility: R,
        grid: Seq<R>,
    ) -> Result<DividendPath<R, Surface>, MonteCarloError> {
        (self.supplied().path)(dividends, volatility, grid)
    }

    open spec fn bergomi_path(
        &self,
        path: DividendPath<R, Self::Surface>,
        factor: Bergomi1Factor<R>,
        correlation: R,
    ) -> Result<DividendPath<R, Surface>, MonteCarloError> {
        (self.supplied().with_bergomi)(path, factor, correlation)
    }

    open spec fn two_factor_path(
        &self,
        path: DividendPath<R, Self::Surface>,
        factor: Bergomi2Factor<R>,
        correlations: Pair<R>,
    ) -> Result<DividendPath<R, Surface>, MonteCarloError> {
        (self.supplied().with_bergomi_two_factor)(path, factor, correlations)
    }

    open spec fn bergomi_lsv_path(
        &self,
        path: DividendPath<R, Self::Surface>,
        factor: Bergomi1Factor<R>,
        correlation: R,
        surface: Self::Surface,
    ) -> Result<DividendPath<R, Surface>, MonteCarloError> {
        (self.supplied().with_bergomi_lsv)(path, factor, correlation, surface)
    }

    open spec fn two_factor_lsv_path(
        &self,
        path: DividendPath<R, Self::Surface>,
        factor: Bergomi2Factor<R>,
        correlations: Pair<R>,
        surface: Self::Surface,
    ) -> Result<DividendPath<R, Surface>, MonteCarloError> {
        (self.supplied().with_bergomi_two_factor_lsv)(path, factor, correlations, surface)
    }

    open spec fn calibration_one(
        &self,
        grid: Seq<R>,
        values: Seq<R>,
        factor: Bergomi1Factor<R>,
        initial: R,
        particles: LsvParticleConfig<R>,
    ) -> Result<Surface, MonteCarloError> {
        (self.supplied().calibrate_one)(grid, values, factor, initial, particles)
    }

    open spec fn calibration_two(
        &self,
        grid: Seq<R>,
        values: Seq<R>,
        factor: Bergomi2Factor<R>,
        initial: R,
        particles: LsvParticleConfig<R>,
    ) -> Result<Surface, MonteCarloError> {
        (self.supplied().calibrate_two)(grid, values, factor, initial, particles)
    }

    open spec fn risky_spot_of(&self, path: DividendPath<R, Self::Surface>) -> R {
        (self.supplied().risky_spot)(path)
    }

    open spec fn factors_of(&self, path: DividendPath<R, Self::Surface>) -> usize {
        (self.supplied().factors)(path)
    }

    open spec fn scheme_of(&self, path: DividendPath<R, Self::Surface>) -> &'static str {
        (self.supplied().scheme)(path)
    }

    open spec fn base_scheme_of(&self) -> &'static str {
        (self.supplied().base_scheme)()
    }

    open spec fn volatility_message_of(&self, path: DividendPath<R, Self::Surface>) -> Seq<u8> {
        (self.supplied().volatility_message)(path)
    }

    open spec fn lsv_time_grid_of(&self) -> Result<Seq<R>, MonteCarloError> {
        (self.supplied().lsv_time_grid)()
    }

    open spec fn refined_refusal_of(
        &self,
        grid: Seq<R>,
        values: Seq<R>,
    ) -> Option<MonteCarloError> {
        (self.supplied().refined_refusal)(grid, values)
    }

    open spec fn event_times_of(&self) -> Seq<R> {
        (self.supplied().event_times)()
    }

    fn path(
        &self,
        dividends: BuehlerDividendModel<R>,
        volatility: R,
        grid: &Vec<R>,
    ) -> (r: Result<DividendPath<R, Self::Surface>, MonteCarloError>) {
        proof {
            use_type_invariant(self);
        }
        (self.path)(dividends, volatility, grid)
    }

    fn with_bergomi(
        &self,
        path: &DividendPath<R, Self::Surface>,
        factor: Bergomi1Factor<R>,
        correlation: R,
    ) -> (r: Result<DividendPath<R, Self::Surface>, MonteCarloError>) {
        proof {
            use_type_invariant(self);
        }
        (self.with_bergomi)(path, factor, correlation)
    }

    fn with_bergomi_two_factor(
        &self,
        path: &DividendPath<R, Self::Surface>,
        factor: Bergomi2Factor<R>,
        correlations: Pair<R>,
    ) -> (r: Result<DividendPath<R, Self::Surface>, MonteCarloError>) {
        proof {
            use_type_invariant(self);
        }
        (self.with_bergomi_two_factor)(path, factor, correlations)
    }

    fn with_bergomi_lsv(
        &self,
        path: &DividendPath<R, Self::Surface>,
        factor: Bergomi1Factor<R>,
        correlation: R,
        surface: Self::Surface,
    ) -> (r: Result<DividendPath<R, Self::Surface>, MonteCarloError>) {
        proof {
            use_type_invariant(self);
        }
        (self.with_bergomi_lsv)(path, factor, correlation, surface)
    }

    fn with_bergomi_two_factor_lsv(
        &self,
        path: &DividendPath<R, Self::Surface>,
        factor: Bergomi2Factor<R>,
        correlations: Pair<R>,
        surface: Self::Surface,
    ) -> (r: Result<DividendPath<R, Self::Surface>, MonteCarloError>) {
        proof {
            use_type_invariant(self);
        }
        (self.with_bergomi_two_factor_lsv)(path, factor, correlations, surface)
    }

    fn calibrate_one(
        &self,
        grid: &Vec<R>,
        values: &Vec<R>,
        factor: Bergomi1Factor<R>,
        initial: R,
        particles: LsvParticleConfig<R>,
    ) -> (r: Result<Self::Surface, MonteCarloError>) {
        proof {
            use_type_invariant(self);
        }
        (self.calibrate_one)(grid, values, factor, initial, particles)
    }

    fn calibrate_two(
        &self,
        grid: &Vec<R>,
        values: &Vec<R>,
        factor: Bergomi2Factor<R>,
        initial: R,
        particles: LsvParticleConfig<R>,
    ) -> (r: Result<Self::Surface, MonteCarloError>) {
        proof {
            use_type_invariant(self);
        }
        (self.calibrate_two)(grid, values, factor, initial, particles)
    }

    fn risky_spot(&self, path: &DividendPath<R, Self::Surface>) -> (r: R) {
        proof {
            use_type_invariant(self);
        }
        (self.risky_spot)(path)
    }

    fn factors(&self, path: &DividendPath<R, Self::Surface>) -> (r: usize) {
        proof {
            use_type_invariant(self);
        }
        (self.factors)(path)
    }

    fn scheme(&self, path: &DividendPath<R, Self::Surface>) -> (r: &'static str) {
        proof {
            use_type_invariant(self);
        }
        (self.scheme)(path)
    }

    fn base_scheme(&self) -> (r: &'static str) {
        proof {
            use_type_invariant(self);
        }
        (self.base_scheme)()
    }

    fn volatility_message(&self, path: &DividendPath<R, Self::Surface>) -> (r: Vec<u8>) {
        proof {
            use_type_invariant(self);
        }
        (self.volatility_message)(path)
    }

    fn lsv_time_grid(&self) -> (r: Result<Vec<R>, MonteCarloError>) {
        proof {
            use_type_invariant(self);
        }
        (self.lsv_time_grid)()
    }

    fn refined_refusal(&self, grid: &Vec<R>, values: &Vec<R>) -> (r: Option<MonteCarloError>) {
        proof {
            use_type_invariant(self);
        }
        (self.refined_refusal)(grid, values)
    }

    fn event_times(&self) -> (r: Vec<R>) {
        proof {
            use_type_invariant(self);
        }
        (self.event_times)()
    }
}

} // verus!
