//! A path model that is supplied function by function.

use crate::errors::MonteCarloError;
use crate::lsv_model::LsvParticleConfig;
use crate::models::{
    Bergomi1Factor, Bergomi2Factor, BuehlerDividendModel, Pair, RoughBergomi,
};
use crate::results::seen;
use crate::scalar::Scalar;
use crate::world::World;
use vstd::prelude::*;

verus! {

/// The functions behind a [`SuppliedWorld`], as mathematical functions.
#[verifier::reject_recursive_types(R)]
#[verifier::reject_recursive_types(Path)]
#[verifier::reject_recursive_types(Surface)]
#[verifier::reject_recursive_types(Target)]
#[verifier::reject_recursive_types(State)]
#[verifier::reject_recursive_types(Spot)]
pub ghost struct SuppliedWorldModel<R, Path, Surface, Target, State, Spot> {
    pub is_one_factor: spec_fn(Bergomi1Factor<R>) -> bool,
    pub is_two_factor: spec_fn(Bergomi2Factor<R>) -> bool,
    pub is_dividend_model: spec_fn(BuehlerDividendModel<R>) -> bool,
    pub calibrate_one: spec_fn(
        Target,
        Bergomi1Factor<R>,
        R,
        LsvParticleConfig<R>,
    ) -> Result<Surface, MonteCarloError>,
    pub calibrate_two: spec_fn(
        Target,
        Bergomi2Factor<R>,
        R,
        LsvParticleConfig<R>,
    ) -> Result<Surface, MonteCarloError>,
    pub attach_one: spec_fn(Path, Bergomi1Factor<R>, R, Surface) -> Result<Path, MonteCarloError>,
    pub attach_two: spec_fn(
        Path,
        Bergomi2Factor<R>,
        Pair<R>,
        Surface,
    ) -> Result<Path, MonteCarloError>,
    pub attach_rough: spec_fn(Path, RoughBergomi<R>, R, Surface) -> Result<Path, MonteCarloError>,
    pub compile_grid: spec_fn(Seq<R>, R) -> Result<Seq<R>, MonteCarloError>,
    pub compile_base: spec_fn(BuehlerDividendModel<R>, R, Seq<R>) -> Result<Path, MonteCarloError>,
    pub times: spec_fn(Path) -> Seq<R>,
    pub risky_spot: spec_fn(Path) -> R,
    pub random_dimension: spec_fn(Path) -> u32,
    pub node_count: spec_fn(Path) -> usize,
    pub evolve_path: spec_fn(Path, Seq<R>) -> Result<Seq<State>, MonteCarloError>,
    pub spots: spec_fn(Path, usize, State) -> Result<Spot, MonteCarloError>,
    pub payoff: spec_fn(Path, Seq<Spot>) -> Result<R, MonteCarloError>,
}

/// A [`World`] whose functions are supplied one by one.
#[verifier::reject_recursive_types(R)]
#[verifier::reject_recursive_types(Path)]
#[verifier::reject_recursive_types(Surface)]
#[verifier::reject_recursive_types(Target)]
#[verifier::reject_recursive_types(State)]
#[verifier::reject_recursive_types(Spot)]
pub struct SuppliedWorld<
    R: Scalar,
    Path,
    Surface,
    Target,
    State,
    Spot,
    FIsOneFactor: Fn(&Bergomi1Factor<R>) -> bool,
    FIsTwoFactor: Fn(&Bergomi2Factor<R>) -> bool,
    FIsDividendModel: Fn(&BuehlerDividendModel<R>) -> bool,
    FCalibrateOne: Fn(
        &Target,
        &Bergomi1Factor<R>,
        R,
        LsvParticleConfig<R>,
    ) -> Result<Surface, MonteCarloError>,
    FCalibrateTwo: Fn(
        &Target,
        &Bergomi2Factor<R>,
        R,
        LsvParticleConfig<R>,
    ) -> Result<Surface, MonteCarloError>,
    FAttachOne: Fn(&Path, &Bergomi1Factor<R>, R, &Surface) -> Result<Path, MonteCarloError>,
    FAttachTwo: Fn(&Path, &Bergomi2Factor<R>, Pair<R>, &Surface) -> Result<Path, MonteCarloError>,
    FAttachRough: Fn(&Path, &RoughBergomi<R>, R, &Surface) -> Result<Path, MonteCarloError>,
    FCompileGrid: Fn(&Vec<R>, R) -> Result<Vec<R>, MonteCarloError>,
    FCompileBase: Fn(&BuehlerDividendModel<R>, R, &Vec<R>) -> Result<Path, MonteCarloError>,
    FTimes: Fn(&Path) -> Vec<R>,
    FRiskySpot: Fn(&Path) -> R,
    FRandomDimension: Fn(&Path) -> u32,
    FNodeCount: Fn(&Path) -> usize,
    FEvolvePath: Fn(&Path, &Vec<R>) -> Result<Vec<State>, MonteCarloError>,
    FSpots: Fn(&Path, usize, &State) -> Result<Spot, MonteCarloError>,
    FPayoff: Fn(&Path, &Vec<Spot>) -> Result<R, MonteCarloError>,
> {
    is_one_factor: FIsOneFactor,
    is_two_factor: FIsTwoFactor,
    is_dividend_model: FIsDividendModel,
    calibrate_one: FCalibrateOne,
    calibrate_two: FCalibrateTwo,
    attach_one: FAttachOne,
    attach_two: FAttachTwo,
    attach_rough: FAttachRough,
    compile_grid: FCompileGrid,
    compile_base: FCompileBase,
    times: FTimes,
    risky_spot: FRiskySpot,
    random_dimension: FRandomDimension,
    node_count: FNodeCount,
    evolve_path: FEvolvePath,
    spots: FSpots,
    payoff: FPayoff,
    surface: Surface,
    target: Target,
    particles: LsvParticleConfig<R>,
    model: Ghost<SuppliedWorldModel<R, Path, Surface, Target, State, Spot>>,
}

impl<
    R: Scalar,
    Path,
    Surface,
    Target,
    State,
    Spot,
    FIsOneFactor: Fn(&Bergomi1Factor<R>) -> bool,
    FIsTwoFactor: Fn(&Bergomi2Factor<R>) -> bool,
    FIsDividendModel: Fn(&BuehlerDividendModel<R>) -> bool,
    FCalibrateOne: Fn(
        &Target,
        &Bergomi1Factor<R>,
        R,
        LsvParticleConfig<R>,
    ) -> Result<Surface, MonteCarloError>,
    FCalibrateTwo: Fn(
        &Target,
        &Bergomi2Factor<R>,
        R,
        LsvParticleConfig<R>,
    ) -> Result<Surface, MonteCarloError>,
    FAttachOne: Fn(&Path, &Bergomi1Factor<R>, R, &Surface) -> Result<Path, MonteCarloError>,
    FAttachTwo: Fn(&Path, &Bergomi2Factor<R>, Pair<R>, &Surface) -> Result<Path, MonteCarloError>,
    FAttachRough: Fn(&Path, &RoughBergomi<R>, R, &Surface) -> Result<Path, MonteCarloError>,
    FCompileGrid: Fn(&Vec<R>, R) -> Result<Vec<R>, MonteCarloError>,
    FCompileBase: Fn(&BuehlerDividendModel<R>, R, &Vec<R>) -> Result<Path, MonteCarloError>,
    FTimes: Fn(&Path) -> Vec<R>,
    FRiskySpot: Fn(&Path) -> R,
    FRandomDimension: Fn(&Path) -> u32,
    FNodeCount: Fn(&Path) -> usize,
    FEvolvePath: Fn(&Path, &Vec<R>) -> Result<Vec<State>, MonteCarloError>,
    FSpots: Fn(&Path, usize, &State) -> Result<Spot, MonteCarloError>,
    FPayoff: Fn(&Path, &Vec<Spot>) -> Result<R, MonteCarloError>,
> SuppliedWorld<
    R,
    Path,
    Surface,
    Target,
    State,
    Spot,
    FIsOneFactor,
    FIsTwoFactor,
    FIsDividendModel,
    FCalibrateOne,
    FCalibrateTwo,
    FAttachOne,
    FAttachTwo,
    FAttachRough,
    FCompileGrid,
    FCompileBase,
    FTimes,
    FRiskySpot,
    FRandomDimension,
    FNodeCount,
    FEvolvePath,
    FSpots,
    FPayoff,
> {
    #[verifier::type_invariant]
    closed spec fn inv(self) -> bool {
        Self::callable(
            self.is_one_factor,
            self.is_two_factor,
            self.is_dividend_model,
            self.calibrate_one,
            self.calibrate_two,
            self.attach_one,
            self.attach_two,
            self.attach_rough,
            self.compile_grid,
            self.compile_base,
            self.times,
            self.risky_spot,
            self.random_dimension,
            self.node_count,
            self.evolve_path,
            self.spots,
            self.payoff,
        )
            && Self::computes(
                self.is_one_factor,
                self.is_two_factor,
                self.is_dividend_model,
                self.calibrate_one,
                self.calibrate_two,
                self.attach_one,
                self.attach_two,
                self.attach_rough,
                self.compile_grid,
                self.compile_base,
                self.times,
                self.risky_spot,
                self.random_dimension,
                self.node_count,
                self.evolve_path,
                self.spots,
                self.payoff,
                self.model@,
            )
    }

    /// The functions accept every argument.
    pub open spec fn callable(
        is_one_factor: FIsOneFactor,
        is_two_factor: FIsTwoFactor,
        is_dividend_model: FIsDividendModel,
        calibrate_one: FCalibrateOne,
        calibrate_two: FCalibrateTwo,
        attach_one: FAttachOne,
        attach_two: FAttachTwo,
        attach_rough: FAttachRough,
        compile_grid: FCompileGrid,
        compile_base: FCompileBase,
        times: FTimes,
        risky_spot: FRiskySpot,
        random_dimension: FRandomDimension,
        node_count: FNodeCount,
        evolve_path: FEvolvePath,
        spots: FSpots,
        payoff: FPayoff,
    ) -> bool {
        &&& forall|factor: &Bergomi1Factor<R>| #[trigger] call_requires(is_one_factor, (factor,))
        &&& forall|factor: &Bergomi2Factor<R>| #[trigger] call_requires(is_two_factor, (factor,))
        &&& forall|dividends: &BuehlerDividendModel<R>|
            #[trigger] call_requires(is_dividend_model, (dividends,))
        &&& forall|
            target: &Target,
            factor: &Bergomi1Factor<R>,
            initial: R,
            particles: LsvParticleConfig<R>,
        |
            #[trigger] call_requires(calibrate_one, (target, factor, initial, particles))
        &&& forall|
            target: &Target,
            factor: &Bergomi2Factor<R>,
            initial: R,
            particles: LsvParticleConfig<R>,
        |
            #[trigger] call_requires(calibrate_two, (target, factor, initial, particles))
        &&& forall|
            path: &Path,
            factor: &Bergomi1Factor<R>,
            dividend_volatility_correlation: R,
            surface: &Surface,
        |
            #[trigger] call_requires(
                attach_one,
                (path, factor, dividend_volatility_correlation, surface),
            )
        &&& forall|
            path: &Path,
            factor: &Bergomi2Factor<R>,
            dividend_volatility_correlations: Pair<R>,
            surface: &Surface,
        |
            #[trigger] call_requires(
                attach_two,
                (path, factor, dividend_volatility_correlations, surface),
            )
        &&& forall|
            path: &Path,
            factor: &RoughBergomi<R>,
            dividend_volatility_correlation: R,
            surface: &Surface,
        |
            #[trigger] call_requires(
                attach_rough,
                (path, factor, dividend_volatility_correlation, surface),
            )
        &&& forall|times: &Vec<R>, last: R| #[trigger] call_requires(compile_grid, (times, last))
        &&& forall|dividends: &BuehlerDividendModel<R>, volatility: R, grid: &Vec<R>|
            #[trigger] call_requires(compile_base, (dividends, volatility, grid))
        &&& forall|path: &Path| #[trigger] call_requires(times, (path,))
        &&& forall|path: &Path| #[trigger] call_requires(risky_spot, (path,))
        &&& forall|path: &Path| #[trigger] call_requires(random_dimension, (path,))
        &&& forall|path: &Path| #[trigger] call_requires(node_count, (path,))
        &&& forall|path: &Path, shocks: &Vec<R>|
            #[trigger] call_requires(evolve_path, (path, shocks))
        &&& forall|path: &Path, node: usize, state: &State|
            #[trigger] call_requires(spots, (path, node, state))
        &&& forall|path: &Path, spots: &Vec<Spot>| #[trigger] call_requires(payoff, (path, spots))
    }

    /// The functions compute those of the model.
    pub open spec fn computes(
        is_one_factor: FIsOneFactor,
        is_two_factor: FIsTwoFactor,
        is_dividend_model: FIsDividendModel,
        calibrate_one: FCalibrateOne,
        calibrate_two: FCalibrateTwo,
        attach_one: FAttachOne,
        attach_two: FAttachTwo,
        attach_rough: FAttachRough,
        compile_grid: FCompileGrid,
        compile_base: FCompileBase,
        times: FTimes,
        risky_spot: FRiskySpot,
        random_dimension: FRandomDimension,
        node_count: FNodeCount,
        evolve_path: FEvolvePath,
        spots: FSpots,
        payoff: FPayoff,
        model: SuppliedWorldModel<R, Path, Surface, Target, State, Spot>,
    ) -> bool {
        &&& forall|factor: &Bergomi1Factor<R>, result: bool| #[trigger]
            call_ensures(
                is_one_factor,
                (factor,),
                result,
            ) ==> result == (model.is_one_factor)(*factor)
        &&& forall|factor: &Bergomi2Factor<R>, result: bool| #[trigger]
            call_ensures(
                is_two_factor,
                (factor,),
                result,
            ) ==> result == (model.is_two_factor)(*factor)
        &&& forall|dividends: &BuehlerDividendModel<R>, result: bool| #[trigger]
            call_ensures(
                is_dividend_model,
                (dividends,),
                result,
            ) ==> result == (model.is_dividend_model)(*dividends)
        &&& forall|
            target: &Target,
            factor: &Bergomi1Factor<R>,
            initial: R,
            particles: LsvParticleConfig<R>,
            result: Result<Surface, MonteCarloError>,
        |
            #[trigger]
            call_ensures(
                calibrate_one,
                (target, factor, initial, particles),
                result,
            ) ==> result == (model.calibrate_one)(*target, *factor, initial, particles)
        &&& forall|
            target: &Target,
            factor: &Bergomi2Factor<R>,
            initial: R,
            particles: LsvParticleConfig<R>,
            result: Result<Surface, MonteCarloError>,
        |
            #[trigger]
            call_ensures(
                calibrate_two,
                (target, factor, initial, particles),
                result,
            ) ==> result == (model.calibrate_two)(*target, *factor, initial, particles)
        &&& forall|
            path: &Path,
            factor: &Bergomi1Factor<R>,
            dividend_volatility_correlation: R,
            surface: &Surface,
            result: Result<Path, MonteCarloError>,
        |
            #[trigger]
            call_ensures(
                attach_one,
                (path, factor, dividend_volatility_correlation, surface),
                result,
            ) ==> result == (model.attach_one)(
                *path,
                *factor,
                dividend_volatility_correlation,
                *surface,
            )
        &&& forall|
            path: &Path,
            factor: &Bergomi2Factor<R>,
            dividend_volatility_correlations: Pair<R>,
            surface: &Surface,
            result: Result<Path, MonteCarloError>,
        |
            #[trigger]
            call_ensures(
                attach_two,
                (path, factor, dividend_volatility_correlations, surface),
                result,
            ) ==> result == (model.attach_two)(
                *path,
                *factor,
                dividend_volatility_correlations,
                *surface,
            )
        &&& forall|
            path: &Path,
            factor: &RoughBergomi<R>,
            dividend_volatility_correlation: R,
            surface: &Surface,
            result: Result<Path, MonteCarloError>,
        |
            #[trigger]
            call_ensures(
                attach_rough,
                (path, factor, dividend_volatility_correlation, surface),
                result,
            ) ==> result == (model.attach_rough)(
                *path,
                *factor,
                dividend_volatility_correlation,
                *surface,
            )
        &&& forall|times: &Vec<R>, last: R, result: Result<Vec<R>, MonteCarloError>| #[trigger]
            call_ensures(
                compile_grid,
                (times, last),
                result,
            ) ==> seen(result) == (model.compile_grid)(times@, last)
        &&& forall|
            dividends: &BuehlerDividendModel<R>,
            volatility: R,
            grid: &Vec<R>,
            result: Result<Path, MonteCarloError>,
        |
            #[trigger]
            call_ensures(
                compile_base,
                (dividends, volatility, grid),
                result,
            ) ==> result == (model.compile_base)(*dividends, volatility, grid@)
        &&& forall|path: &Path, result: Vec<R>| #[trigger]
            call_ensures(times, (path,), result) ==> result@ == (model.times)(*path)
                && (result@.len() > 0)
        &&& forall|path: &Path, result: R| #[trigger]
            call_ensures(risky_spot, (path,), result) ==> result == (model.risky_spot)(*path)
        &&& forall|path: &Path, result: u32| #[trigger]
            call_ensures(
                random_dimension,
                (path,),
                result,
            ) ==> result == (model.random_dimension)(*path)
        &&& forall|path: &Path, result: usize| #[trigger]
            call_ensures(node_count, (path,), result) ==> result == (model.node_count)(*path)
        &&& forall|path: &Path, shocks: &Vec<R>, result: Result<Vec<State>, MonteCarloError>|
            #[trigger]
            call_ensures(
                evolve_path,
                (path, shocks),
                result,
            ) ==> seen(result) == (model.evolve_path)(*path, shocks@)
        &&& forall|path: &Path, node: usize, state: &State, result: Result<Spot, MonteCarloError>|
            #[trigger]
            call_ensures(
                spots,
                (path, node, state),
                result,
            ) ==> result == (model.spots)(*path, node, *state)
        &&& forall|path: &Path, spots: &Vec<Spot>, result: Result<R, MonteCarloError>| #[trigger]
            call_ensures(payoff, (path, spots), result) ==> result == (model.payoff)(*path, spots@)
    }

    /// The surface that the plan was calibrated to.
    pub closed spec fn calibrated(self) -> Surface {
        self.surface
    }

    /// What that surface was calibrated to.
    pub closed spec fn aim(self) -> Target {
        self.target
    }

    /// The particles that it was calibrated with.
    pub closed spec fn configured(self) -> LsvParticleConfig<R> {
        self.particles
    }

    /// The functions that were supplied.
    pub closed spec fn supplied(self) -> SuppliedWorldModel<R, Path, Surface, Target, State, Spot> {
        self.model@
    }

    /// Takes functions that give the same result whenever they are given the
    /// same arguments.
    pub fn new(
        surface: Surface,
        target: Target,
        particles: LsvParticleConfig<R>,
        is_one_factor: FIsOneFactor,
        is_two_factor: FIsTwoFactor,
        is_dividend_model: FIsDividendModel,
        calibrate_one: FCalibrateOne,
        calibrate_two: FCalibrateTwo,
        attach_one: FAttachOne,
        attach_two: FAttachTwo,
        attach_rough: FAttachRough,
        compile_grid: FCompileGrid,
        compile_base: FCompileBase,
        times: FTimes,
        risky_spot: FRiskySpot,
        random_dimension: FRandomDimension,
        node_count: FNodeCount,
        evolve_path: FEvolvePath,
        spots: FSpots,
        payoff: FPayoff,
    ) -> (s: Self)
        requires
            Self::callable(
                is_one_factor,
                is_two_factor,
                is_dividend_model,
                calibrate_one,
                calibrate_two,
                attach_one,
                attach_two,
                attach_rough,
                compile_grid,
                compile_base,
                times,
                risky_spot,
                random_dimension,
                node_count,
                evolve_path,
                spots,
                payoff,
            ),
            exists|model: SuppliedWorldModel<R, Path, Surface, Target, State, Spot>|
                #[trigger] Self::computes(
                    is_one_factor,
                    is_two_factor,
                    is_dividend_model,
                    calibrate_one,
                    calibrate_two,
                    attach_one,
                    attach_two,
                    attach_rough,
                    compile_grid,
                    compile_base,
                    times,
                    risky_spot,
                    random_dimension,
                    node_count,
                    evolve_path,
                    spots,
                    payoff,
                    model,
                ),
        ensures
            Self::computes(
                is_one_factor,
                is_two_factor,
                is_dividend_model,
                calibrate_one,
                calibrate_two,
                attach_one,
                attach_two,
                attach_rough,
                compile_grid,
                compile_base,
                times,
                risky_spot,
                random_dimension,
                node_count,
                evolve_path,
                spots,
                payoff,
                s.supplied(),
            ),
            s.calibrated() == surface,
            s.aim() == target,
            s.configured() == particles,
    {
        let ghost model = choose|model: SuppliedWorldModel<R, Path, Surface, Target, State, Spot>| #[trigger]
            Self::computes(
                is_one_factor,
                is_two_factor,
                is_dividend_model,
                calibrate_one,
                calibrate_two,
                attach_one,
                attach_two,
                attach_rough,
                compile_grid,
                compile_base,
                times,
                risky_spot,
                random_dimension,
                node_count,
                evolve_path,
                spots,
                payoff,
                model,
            );
        SuppliedWorld {
            surface,
            target,
            particles,
            is_one_factor,
            is_two_factor,
            is_dividend_model,
            calibrate_one,
            calibrate_two,
            attach_one,
            attach_two,
            attach_rough,
            compile_grid,
            compile_base,
            times,
            risky_spot,
            random_dimension,
            node_count,
            evolve_path,
            spots,
            payoff,
            model: Ghost(model),
        }
    }

    /// Takes functions that are known to compute `model`.
    pub fn with_model(
        surface: Surface,
        target: Target,
        particles: LsvParticleConfig<R>,
        is_one_factor: FIsOneFactor,
        is_two_factor: FIsTwoFactor,
        is_dividend_model: FIsDividendModel,
        calibrate_one: FCalibrateOne,
        calibrate_two: FCalibrateTwo,
        attach_one: FAttachOne,
        attach_two: FAttachTwo,
        attach_rough: FAttachRough,
        compile_grid: FCompileGrid,
        compile_base: FCompileBase,
        times: FTimes,
        risky_spot: FRiskySpot,
        random_dimension: FRandomDimension,
        node_count: FNodeCount,
        evolve_path: FEvolvePath,
        spots: FSpots,
        payoff: FPayoff,
        model: Ghost<SuppliedWorldModel<R, Path, Surface, Target, State, Spot>>,
    ) -> (s: Self)
        requires
            Self::callable(
                is_one_factor,
                is_two_factor,
                is_dividend_model,
                calibrate_one,
                calibrate_two,
                attach_one,
                attach_two,
                attach_rough,
                compile_grid,
                compile_base,
                times,
                risky_spot,
                random_dimension,
                node_count,
                evolve_path,
                spots,
                payoff,
            ),
            Self::computes(
                is_one_factor,
                is_two_factor,
                is_dividend_model,
                calibrate_one,
                calibrate_two,
                attach_one,
                attach_two,
                attach_rough,
                compile_grid,
                compile_base,
                times,
                risky_spot,
                random_dimension,
                node_count,
                evolve_path,
                spots,
                payoff,
                model@,
            ),
        ensures
            s.supplied() == model@,
            s.calibrated() == surface,
            s.aim() == target,
            s.configured() == particles,
    {
        SuppliedWorld {
            surface,
            target,
            particles,
            is_one_factor,
            is_two_factor,
            is_dividend_model,
            calibrate_one,
            calibrate_two,
            attach_one,
            attach_two,
            attach_rough,
            compile_grid,
            compile_base,
            times,
            risky_spot,
            random_dimension,
            node_count,
            evolve_path,
            spots,
            payoff,
            model,
        }
    }
}

impl<
    R: Scalar,
    Path,
    Surface,
    Target,
    State,
    Spot,
    FIsOneFactor: Fn(&Bergomi1Factor<R>) -> bool,
    FIsTwoFactor: Fn(&Bergomi2Factor<R>) -> bool,
    FIsDividendModel: Fn(&BuehlerDividendModel<R>) -> bool,
    FCalibrateOne: Fn(
        &Target,
        &Bergomi1Factor<R>,
        R,
        LsvParticleConfig<R>,
    ) -> Result<Surface, MonteCarloError>,
    FCalibrateTwo: Fn(
        &Target,
        &Bergomi2Factor<R>,
        R,
        LsvParticleConfig<R>,
    ) -> Result<Surface, MonteCarloError>,
    FAttachOne: Fn(&Path, &Bergomi1Factor<R>, R, &Surface) -> Result<Path, MonteCarloError>,
    FAttachTwo: Fn(&Path, &Bergomi2Factor<R>, Pair<R>, &Surface) -> Result<Path, MonteCarloError>,
    FAttachRough: Fn(&Path, &RoughBergomi<R>, R, &Surface) -> Result<Path, MonteCarloError>,
    FCompileGrid: Fn(&Vec<R>, R) -> Result<Vec<R>, MonteCarloError>,
    FCompileBase: Fn(&BuehlerDividendModel<R>, R, &Vec<R>) -> Result<Path, MonteCarloError>,
    FTimes: Fn(&Path) -> Vec<R>,
    FRiskySpot: Fn(&Path) -> R,
    FRandomDimension: Fn(&Path) -> u32,
    FNodeCount: Fn(&Path) -> usize,
    FEvolvePath: Fn(&Path, &Vec<R>) -> Result<Vec<State>, MonteCarloError>,
    FSpots: Fn(&Path, usize, &State) -> Result<Spot, MonteCarloError>,
    FPayoff: Fn(&Path, &Vec<Spot>) -> Result<R, MonteCarloError>,
> World<R> for SuppliedWorld<
    R,
    Path,
    Surface,
    Target,
    State,
    Spot,
    FIsOneFactor,
    FIsTwoFactor,
    FIsDividendModel,
    FCalibrateOne,
    FCalibrateTwo,
    FAttachOne,
    FAttachTwo,
    FAttachRough,
    FCompileGrid,
    FCompileBase,
    FTimes,
    FRiskySpot,
    FRandomDimension,
    FNodeCount,
    FEvolvePath,
    FSpots,
    FPayoff,
> {
    type Path = Path;

    type Surface = Surface;

    type Target = Target;

    type State = State;

    type Spot = Spot;

    open spec fn surface_of(&self) -> Surface {
        self.calibrated()
    }

    open spec fn target_of(&self) -> Target {
        self.aim()
    }

    open spec fn particles_of(&self) -> LsvParticleConfig<R> {
        self.configured()
    }

    open spec fn one_factor_valid(&self, factor: Bergomi1Factor<R>) -> bool {
        (self.supplied().is_one_factor)(factor)
    }

    open spec fn two_factor_valid(&self, factor: Bergomi2Factor<R>) -> bool {
        (self.supplied().is_two_factor)(factor)
    }

    open spec fn dividend_valid(&self, dividends: BuehlerDividendModel<R>) -> bool {
        (self.supplied().is_dividend_model)(dividends)
    }

    open spec fn calibration_one(
        &self,
        target: Self::Target,
        factor: Bergomi1Factor<R>,
        initial: R,
        particles: LsvParticleConfig<R>,
    ) -> Result<Surface, MonteCarloError> {
        (self.supplied().calibrate_one)(target, factor, initial, particles)
    }

    open spec fn calibration_two(
        &self,
        target: Self::Target,
        factor: Bergomi2Factor<R>,
        initial: R,
        particles: LsvParticleConfig<R>,
    ) -> Result<Surface, MonteCarloError> {
        (self.supplied().calibrate_two)(target, factor, initial, particles)
    }

    open spec fn attached_one(
        &self,
        path: Self::Path,
        factor: Bergomi1Factor<R>,
        dividend_volatility_correlation: R,
        surface: Self::Surface,
    ) -> Result<Path, MonteCarloError> {
        (self.supplied().attach_one)(path, factor, dividend_volatility_correlation, surface)
    }

    open spec fn attached_two(
        &self,
        path: Self::Path,
        factor: Bergomi2Factor<R>,
        dividend_volatility_correlations: Pair<R>,
        surface: Self::Surface,
    ) -> Result<Path, MonteCarloError> {
        (self.supplied().attach_two)(path, factor, dividend_volatility_correlations, surface)
    }

    open spec fn attached_rough(
        &self,
        path: Self::Path,
        factor: RoughBergomi<R>,
        dividend_volatility_correlation: R,
        surface: Self::Surface,
    ) -> Result<Path, MonteCarloError> {
        (self.supplied().attach_rough)(path, factor, dividend_volatility_correlation, surface)
    }

    open spec fn grid_of(&self, times: Seq<R>, last: R) -> Result<Seq<R>, MonteCarloError> {
        (self.supplied().compile_grid)(times, last)
    }

    open spec fn base_of(
        &self,
        dividends: BuehlerDividendModel<R>,
        volatility: R,
        grid: Seq<R>,
    ) -> Result<Path, MonteCarloError> {
        (self.supplied().compile_base)(dividends, volatility, grid)
    }

    open spec fn times_of(&self, path: Self::Path) -> Seq<R> {
        (self.supplied().times)(path)
    }

    open spec fn risky_spot_of(&self, path: Self::Path) -> R {
        (self.supplied().risky_spot)(path)
    }

    open spec fn dimension_of(&self, path: Self::Path) -> u32 {
        (self.supplied().random_dimension)(path)
    }

    open spec fn nodes_of(&self, path: Self::Path) -> usize {
        (self.supplied().node_count)(path)
    }

    open spec fn evolution(
        &self,
        path: Self::Path,
        shocks: Seq<R>,
    ) -> Result<Seq<State>, MonteCarloError> {
        (self.supplied().evolve_path)(path, shocks)
    }

    open spec fn spots_of(
        &self,
        path: Self::Path,
        node: usize,
        state: Self::State,
    ) -> Result<Spot, MonteCarloError> {
        (self.supplied().spots)(path, node, state)
    }

    open spec fn payoff_of(
        &self,
        path: Self::Path,
        spots: Seq<Self::Spot>,
    ) -> Result<R, MonteCarloError> {
        (self.supplied().payoff)(path, spots)
    }

    fn surface(&self) -> (s: &Surface) {
        &self.surface
    }

    fn target(&self) -> (t: &Target) {
        &self.target
    }

    fn particles(&self) -> (p: LsvParticleConfig<R>) {
        self.particles
    }

    fn is_one_factor(&self, factor: &Bergomi1Factor<R>) -> (r: bool) {
        proof {
            use_type_invariant(self);
        }
        (self.is_one_factor)(factor)
    }

    fn is_two_factor(&self, factor: &Bergomi2Factor<R>) -> (r: bool) {
        proof {
            use_type_invariant(self);
        }
        (self.is_two_factor)(factor)
    }

    fn is_dividend_model(&self, dividends: &BuehlerDividendModel<R>) -> (r: bool) {
        proof {
            use_type_invariant(self);
        }
        (self.is_dividend_model)(dividends)
    }

    fn calibrate_one(
        &self,
        target: &Self::Target,
        factor: &Bergomi1Factor<R>,
        initial: R,
        particles: LsvParticleConfig<R>,
    ) -> (r: Result<Self::Surface, MonteCarloError>) {
        proof {
            use_type_invariant(self);
        }
        (self.calibrate_one)(target, factor, initial, particles)
    }

    fn calibrate_two(
        &self,
        target: &Self::Target,
        factor: &Bergomi2Factor<R>,
        initial: R,
        particles: LsvParticleConfig<R>,
    ) -> (r: Result<Self::Surface, MonteCarloError>) {
        proof {
            use_type_invariant(self);
        }
        (self.calibrate_two)(target, factor, initial, particles)
    }

    fn attach_one(
        &self,
        path: &Self::Path,
        factor: &Bergomi1Factor<R>,
        dividend_volatility_correlation: R,
        surface: &Self::Surface,
    ) -> (r: Result<Self::Path, MonteCarloError>) {
        proof {
            use_type_invariant(self);
        }
        (self.attach_one)(path, factor, dividend_volatility_correlation, surface)
    }

    fn attach_two(
        &self,
        path: &Self::Path,
        factor: &Bergomi2Factor<R>,
        dividend_volatility_correlations: Pair<R>,
        surface: &Self::Surface,
    ) -> (r: Result<Self::Path, MonteCarloError>) {
        proof {
            use_type_invariant(self);
        }
        (self.attach_two)(path, factor, dividend_volatility_correlations, surface)
    }

    fn attach_rough(
        &self,
        path: &Self::Path,
        factor: &RoughBergomi<R>,
        dividend_volatility_correlation: R,
        surface: &Self::Surface,
    ) -> (r: Result<Self::Path, MonteCarloError>) {
        proof {
            use_type_invariant(self);
        }
        (self.attach_rough)(path, factor, dividend_volatility_correlation, surface)
    }

    fn compile_grid(&self, times: &Vec<R>, last: R) -> (r: Result<Vec<R>, MonteCarloError>) {
        proof {
            use_type_invariant(self);
        }
        (self.compile_grid)(times, last)
    }

    fn compile_base(
        &self,
        dividends: &BuehlerDividendModel<R>,
        volatility: R,
        grid: &Vec<R>,
    ) -> (r: Result<Self::Path, MonteCarloError>) {
        proof {
            use_type_invariant(self);
        }
        (self.compile_base)(dividends, volatility, grid)
    }

    fn times(&self, path: &Self::Path) -> (r: Vec<R>) {
        proof {
            use_type_invariant(self);
        }
        (self.times)(path)
    }

    fn risky_spot(&self, path: &Self::Path) -> (r: R) {
        proof {
            use_type_invariant(self);
        }
        (self.risky_spot)(path)
    }

    fn random_dimension(&self, path: &Self::Path) -> (r: u32) {
        proof {
            use_type_invariant(self);
        }
        (self.random_dimension)(path)
    }

    fn node_count(&self, path: &Self::Path) -> (r: usize) {
        proof {
            use_type_invariant(self);
        }
        (self.node_count)(path)
    }

    fn evolve_path(&self, path: &Self::Path, shocks: &Vec<R>) -> (
        r: Result<Vec<Self::State>, MonteCarloError>
    ) {
        proof {
            use_type_invariant(self);
        }
        (self.evolve_path)(path, shocks)
    }

    fn spots(
        &self,
        path: &Self::Path,
        node: usize,
        state: &Self::State,
    ) -> (r: Result<Self::Spot, MonteCarloError>) {
        proof {
            use_type_invariant(self);
        }
        (self.spots)(path, node, state)
    }

    fn payoff(
        &self,
        path: &Self::Path,
        spots: &Vec<Self::Spot>,
    ) -> (r: Result<R, MonteCarloError>) {
        proof {
            use_type_invariant(self);
        }
        (self.payoff)(path, spots)
    }
}

} // verus!
