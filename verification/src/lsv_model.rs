//! A calibrated leverage model.

use crate::errors::MonteCarloError;
use crate::results::seen;
use crate::scalar::Scalar;
use vstd::prelude::*;

verus! {

/// The particles of a calibration.
#[derive(Clone, Copy, Debug, PartialEq)]
pub struct LsvParticleConfig<R> {
    pub particle_count: u64,
    pub seed: u64,
    pub log_bandwidth: R,
    pub minimum_effective_samples: R,
    /// Whether the calibration keeps a trace to reverse.
    pub retain_reverse_trace: bool,
}

/// Particles that differ in no more than whether they keep a trace.
pub open spec fn trace_aside<R>(a: LsvParticleConfig<R>, b: LsvParticleConfig<R>) -> bool {
    a == (LsvParticleConfig { retain_reverse_trace: a.retain_reverse_trace, ..b })
}

/// A payoff with its derivatives taken as a sequence.
pub open spec fn seeded<R>(r: Result<(R, Option<Vec<R>>), MonteCarloError>) -> Result<
    (R, Option<Seq<R>>),
    MonteCarloError,
> {
    match r {
        Ok((payoff, Some(seeds))) => Ok((payoff, Some(seeds@))),
        Ok((payoff, None)) => Ok((payoff, None)),
        Err(e) => Err(e),
    }
}

/// A calibrated model, its paths and what a product pays on them: what a price needs.
pub trait LsvPriceModel<R: Scalar> {
    /// The name of the scheme.
    spec fn scheme_of(&self) -> &'static str;

    /// The number of normals of a step.
    spec fn random_blocks_of(&self) -> usize;

    /// The number of steps of a path.
    spec fn step_count_of(&self) -> usize;

    /// The forward that a path starts from.
    spec fn initial_f_of(&self) -> R;

    /// The entries of the leverage surface, squared.
    spec fn squared_leverage_of(&self) -> Seq<R>;

    /// The particles of the calibration.
    spec fn particles_of(&self) -> LsvParticleConfig<R>;

    /// The normals of a pseudo-random path.
    spec fn pseudo_shocks_of(&self, seed: u64, path: u64) -> Result<Seq<R>, MonteCarloError>;

    /// The states of a path.
    spec fn states_of(&self, initial: R, shocks: Seq<R>) -> Result<Seq<R>, MonteCarloError>;

    /// The discounted payoff of states, and its derivatives where they are asked for and there
    /// are some.
    spec fn lsv_payoff_of(
        &self,
        states: Seq<R>,
        path: u64,
        risk: bool,
    ) -> Result<(R, Option<Seq<R>>), MonteCarloError>;

    /// Computes [`Self::scheme_of`].
    fn scheme(&self) -> (r: &'static str)
        ensures
            r == self.scheme_of(),
    ;

    /// Computes [`Self::random_blocks_of`].
    fn random_blocks(&self) -> (r: usize)
        ensures
            r == self.random_blocks_of(),
    ;

    /// Computes [`Self::step_count_of`].
    fn step_count(&self) -> (r: usize)
        ensures
            r == self.step_count_of(),
    ;

    /// Computes [`Self::initial_f_of`].
    fn initial_f(&self) -> (r: R)
        ensures
            r == self.initial_f_of(),
    ;

    /// Computes [`Self::squared_leverage_of`].
    fn squared_leverage(&self) -> (r: Vec<R>)
        ensures
            r@ == self.squared_leverage_of(),
    ;

    /// Computes [`Self::particles_of`].
    fn particles(&self) -> (r: LsvParticleConfig<R>)
        ensures
            r == self.particles_of(),
    ;

    /// Computes [`Self::pseudo_shocks_of`].
    fn pseudo_shocks(&self, seed: u64, path: u64) -> (r: Result<Vec<R>, MonteCarloError>)
        ensures
            seen(r) == self.pseudo_shocks_of(seed, path),
    ;

    /// Computes [`Self::states_of`].
    fn evolve_states(&self, initial: R, shocks: &Vec<R>) -> (r: Result<Vec<R>, MonteCarloError>)
        ensures
            seen(r) == self.states_of(initial, shocks@),
    ;

    /// Computes [`Self::lsv_payoff_of`].
    fn lsv_payoff(&self, states: &Vec<R>, path: u64, risk: bool) -> (
        r: Result<(R, Option<Vec<R>>), MonteCarloError>
    )
        ensures
            seeded(r) == self.lsv_payoff_of(states@, path, risk),
    ;
}

/// Two calibrations that agree on all that a price reads: the names and sizes, the draws,
/// the states of a path and the payoff. What they keep for a reversal may differ.
pub open spec fn prices_alike<R: Scalar, C: LsvPriceModel<R>, D: LsvPriceModel<R>>(
    c: C,
    d: D,
) -> bool {
    &&& c.scheme_of() == d.scheme_of()
    &&& c.random_blocks_of() == d.random_blocks_of()
    &&& c.step_count_of() == d.step_count_of()
    &&& c.initial_f_of() == d.initial_f_of()
    &&& c.particles_of().seed == d.particles_of().seed
    &&& forall|seed: u64, path: u64|
        #[trigger] c.pseudo_shocks_of(seed, path) == d.pseudo_shocks_of(seed, path)
    &&& forall|shocks: Seq<R>|
        #[trigger] c.states_of(c.initial_f_of(), shocks) == d.states_of(d.initial_f_of(), shocks)
    &&& forall|states: Seq<R>, path: u64|
        #[trigger] c.lsv_payoff_of(states, path, false) == d.lsv_payoff_of(states, path, false)
}

/// A calibrated model whose paths and calibration can be reversed.
pub trait LsvModel<R: Scalar>: LsvPriceModel<R> {
    /// A recorded path.
    type Path;

    /// A path with what its reversal needs.
    spec fn recorded(&self, initial: R, shocks: Seq<R>) -> Result<Self::Path, MonteCarloError>;

    /// The states of a recorded path.
    spec fn recorded_states(&self, path: Self::Path) -> Seq<R>;

    /// The derivatives of a recorded path with respect to the entries of the surface.
    spec fn leverage_adjoints_of(
        &self,
        path: Self::Path,
        seeds: Seq<R>,
    ) -> Result<Seq<R>, MonteCarloError>;

    /// The derivatives of the refined target out of those of the surface.
    spec fn reversed_leverage(&self, adjoints: Seq<R>) -> Result<Seq<R>, MonteCarloError>;

    /// The times of the refined target.
    spec fn refined_times_of(&self) -> Seq<R>;

    /// Computes [`Self::recorded`].
    fn evolve_path(&self, initial: R, shocks: &Vec<R>) -> (r: Result<Self::Path, MonteCarloError>)
        ensures
            r == self.recorded(initial, shocks@),
    ;

    /// Computes [`Self::recorded_states`].
    fn path_states(&self, path: &Self::Path) -> (r: Vec<R>)
        ensures
            r@ == self.recorded_states(*path),
    ;

    /// Computes [`Self::leverage_adjoints_of`].
    fn leverage_adjoints(
        &self,
        path: &Self::Path,
        seeds: &Vec<R>,
    ) -> (r: Result<Vec<R>, MonteCarloError>)
        ensures
            seen(r) == self.leverage_adjoints_of(*path, seeds@),
    ;

    /// Computes [`Self::reversed_leverage`].
    fn reverse_leverage(&self, adjoints: &Vec<R>) -> (r: Result<Vec<R>, MonteCarloError>)
        ensures
            seen(r) == self.reversed_leverage(adjoints@),
    ;

    /// Computes [`Self::refined_times_of`].
    fn refined_times(&self) -> (r: Vec<R>)
        ensures
            r@ == self.refined_times_of(),
    ;
}

/// The functions behind a [`SuppliedLsvPriceModel`], as mathematical functions.
#[verifier::reject_recursive_types(R)]
pub ghost struct SuppliedLsvPriceModelModel<R> {
    pub scheme: spec_fn() -> &'static str,
    pub random_blocks: spec_fn() -> usize,
    pub step_count: spec_fn() -> usize,
    pub initial_f: spec_fn() -> R,
    pub squared_leverage: spec_fn() -> Seq<R>,
    pub particles: spec_fn() -> LsvParticleConfig<R>,
    pub pseudo_shocks: spec_fn(u64, u64) -> Result<Seq<R>, MonteCarloError>,
    pub evolve_states: spec_fn(R, Seq<R>) -> Result<Seq<R>, MonteCarloError>,
    pub lsv_payoff: spec_fn(Seq<R>, u64, bool) -> Result<(R, Option<Seq<R>>), MonteCarloError>,
}

/// An [`LsvPriceModel`] whose functions are supplied one by one.
#[verifier::reject_recursive_types(R)]
pub struct SuppliedLsvPriceModel<
    R: Scalar,
    FScheme: Fn() -> &'static str,
    FRandomBlocks: Fn() -> usize,
    FStepCount: Fn() -> usize,
    FInitialF: Fn() -> R,
    FSquaredLeverage: Fn() -> Vec<R>,
    FParticles: Fn() -> LsvParticleConfig<R>,
    FPseudoShocks: Fn(u64, u64) -> Result<Vec<R>, MonteCarloError>,
    FEvolveStates: Fn(R, &Vec<R>) -> Result<Vec<R>, MonteCarloError>,
    FLsvPayoff: Fn(&Vec<R>, u64, bool) -> Result<(R, Option<Vec<R>>), MonteCarloError>,
> {
    scheme: FScheme,
    random_blocks: FRandomBlocks,
    step_count: FStepCount,
    initial_f: FInitialF,
    squared_leverage: FSquaredLeverage,
    particles: FParticles,
    pseudo_shocks: FPseudoShocks,
    evolve_states: FEvolveStates,
    lsv_payoff: FLsvPayoff,
    model: Ghost<SuppliedLsvPriceModelModel<R>>,
}

impl<
    R: Scalar,
    FScheme: Fn() -> &'static str,
    FRandomBlocks: Fn() -> usize,
    FStepCount: Fn() -> usize,
    FInitialF: Fn() -> R,
    FSquaredLeverage: Fn() -> Vec<R>,
    FParticles: Fn() -> LsvParticleConfig<R>,
    FPseudoShocks: Fn(u64, u64) -> Result<Vec<R>, MonteCarloError>,
    FEvolveStates: Fn(R, &Vec<R>) -> Result<Vec<R>, MonteCarloError>,
    FLsvPayoff: Fn(&Vec<R>, u64, bool) -> Result<(R, Option<Vec<R>>), MonteCarloError>,
> SuppliedLsvPriceModel<
    R,
    FScheme,
    FRandomBlocks,
    FStepCount,
    FInitialF,
    FSquaredLeverage,
    FParticles,
    FPseudoShocks,
    FEvolveStates,
    FLsvPayoff,
> {
    #[verifier::type_invariant]
    closed spec fn inv(self) -> bool {
        Self::callable(
            self.scheme,
            self.random_blocks,
            self.step_count,
            self.initial_f,
            self.squared_leverage,
            self.particles,
            self.pseudo_shocks,
            self.evolve_states,
            self.lsv_payoff,
        )
            && Self::computes(
                self.scheme,
                self.random_blocks,
                self.step_count,
                self.initial_f,
                self.squared_leverage,
                self.particles,
                self.pseudo_shocks,
                self.evolve_states,
                self.lsv_payoff,
                self.model@,
            )
    }

    /// The functions accept every argument.
    pub open spec fn callable(
        scheme: FScheme,
        random_blocks: FRandomBlocks,
        step_count: FStepCount,
        initial_f: FInitialF,
        squared_leverage: FSquaredLeverage,
        particles: FParticles,
        pseudo_shocks: FPseudoShocks,
        evolve_states: FEvolveStates,
        lsv_payoff: FLsvPayoff,
    ) -> bool {
        &&& call_requires(scheme, ())
        &&& call_requires(random_blocks, ())
        &&& call_requires(step_count, ())
        &&& call_requires(initial_f, ())
        &&& call_requires(squared_leverage, ())
        &&& call_requires(particles, ())
        &&& forall|seed: u64, path: u64| #[trigger] call_requires(pseudo_shocks, (seed, path))
        &&& forall|initial: R, shocks: &Vec<R>|
            #[trigger] call_requires(evolve_states, (initial, shocks))
        &&& forall|states: &Vec<R>, path: u64, risk: bool|
            #[trigger] call_requires(lsv_payoff, (states, path, risk))
    }

    /// The functions compute those of the model.
    pub open spec fn computes(
        scheme: FScheme,
        random_blocks: FRandomBlocks,
        step_count: FStepCount,
        initial_f: FInitialF,
        squared_leverage: FSquaredLeverage,
        particles: FParticles,
        pseudo_shocks: FPseudoShocks,
        evolve_states: FEvolveStates,
        lsv_payoff: FLsvPayoff,
        model: SuppliedLsvPriceModelModel<R>,
    ) -> bool {
        &&& forall|result: &'static str| #[trigger]
            call_ensures(scheme, (), result) ==> result == (model.scheme)()
        &&& forall|result: usize| #[trigger]
            call_ensures(random_blocks, (), result) ==> result == (model.random_blocks)()
        &&& forall|result: usize| #[trigger]
            call_ensures(step_count, (), result) ==> result == (model.step_count)()
        &&& forall|result: R| #[trigger]
            call_ensures(initial_f, (), result) ==> result == (model.initial_f)()
        &&& forall|result: Vec<R>| #[trigger]
            call_ensures(squared_leverage, (), result) ==> result@ == (model.squared_leverage)()
        &&& forall|result: LsvParticleConfig<R>| #[trigger]
            call_ensures(particles, (), result) ==> result == (model.particles)()
        &&& forall|seed: u64, path: u64, result: Result<Vec<R>, MonteCarloError>| #[trigger]
            call_ensures(
                pseudo_shocks,
                (seed, path),
                result,
            ) ==> seen(result) == (model.pseudo_shocks)(seed, path)
        &&& forall|initial: R, shocks: &Vec<R>, result: Result<Vec<R>, MonteCarloError>| #[trigger]
            call_ensures(
                evolve_states,
                (initial, shocks),
                result,
            ) ==> seen(result) == (model.evolve_states)(initial, shocks@)
        &&& forall|
            states: &Vec<R>,
            path: u64,
            risk: bool,
            result: Result<(R, Option<Vec<R>>), MonteCarloError>,
        |
            #[trigger]
            call_ensures(
                lsv_payoff,
                (states, path, risk),
                result,
            ) ==> seeded(result) == (model.lsv_payoff)(states@, path, risk)
    }

    /// The functions that were supplied.
    pub closed spec fn supplied(self) -> SuppliedLsvPriceModelModel<R> {
        self.model@
    }

    /// Takes functions that give the same result whenever they are given the
    /// same arguments.
    pub fn new(
        scheme: FScheme,
        random_blocks: FRandomBlocks,
        step_count: FStepCount,
        initial_f: FInitialF,
        squared_leverage: FSquaredLeverage,
        particles: FParticles,
        pseudo_shocks: FPseudoShocks,
        evolve_states: FEvolveStates,
        lsv_payoff: FLsvPayoff,
    ) -> (s: Self)
        requires
            Self::callable(
                scheme,
                random_blocks,
                step_count,
                initial_f,
                squared_leverage,
                particles,
                pseudo_shocks,
                evolve_states,
                lsv_payoff,
            ),
            exists|model: SuppliedLsvPriceModelModel<R>|
                #[trigger] Self::computes(
                    scheme,
                    random_blocks,
                    step_count,
                    initial_f,
                    squared_leverage,
                    particles,
                    pseudo_shocks,
                    evolve_states,
                    lsv_payoff,
                    model,
                ),
        ensures
            Self::computes(
                scheme,
                random_blocks,
                step_count,
                initial_f,
                squared_leverage,
                particles,
                pseudo_shocks,
                evolve_states,
                lsv_payoff,
                s.supplied(),
            ),
    {
        let ghost model = choose|model: SuppliedLsvPriceModelModel<R>| #[trigger]
            Self::computes(
                scheme,
                random_blocks,
                step_count,
                initial_f,
                squared_leverage,
                particles,
                pseudo_shocks,
                evolve_states,
                lsv_payoff,
                model,
            );
        SuppliedLsvPriceModel {
            scheme,
            random_blocks,
            step_count,
            initial_f,
            squared_leverage,
            particles,
            pseudo_shocks,
            evolve_states,
            lsv_payoff,
            model: Ghost(model),
        }
    }

    /// Takes functions that are known to compute `model`.
    pub fn with_model(
        scheme: FScheme,
        random_blocks: FRandomBlocks,
        step_count: FStepCount,
        initial_f: FInitialF,
        squared_leverage: FSquaredLeverage,
        particles: FParticles,
        pseudo_shocks: FPseudoShocks,
        evolve_states: FEvolveStates,
        lsv_payoff: FLsvPayoff,
        model: Ghost<SuppliedLsvPriceModelModel<R>>,
    ) -> (s: Self)
        requires
            Self::callable(
                scheme,
                random_blocks,
                step_count,
                initial_f,
                squared_leverage,
                particles,
                pseudo_shocks,
                evolve_states,
                lsv_payoff,
            ),
            Self::computes(
                scheme,
                random_blocks,
                step_count,
                initial_f,
                squared_leverage,
                particles,
                pseudo_shocks,
                evolve_states,
                lsv_payoff,
                model@,
            ),
        ensures
            s.supplied() == model@,
    {
        SuppliedLsvPriceModel {
            scheme,
            random_blocks,
            step_count,
            initial_f,
            squared_leverage,
            particles,
            pseudo_shocks,
            evolve_states,
            lsv_payoff,
            model,
        }
    }
}

impl<
    R: Scalar,
    FScheme: Fn() -> &'static str,
    FRandomBlocks: Fn() -> usize,
    FStepCount: Fn() -> usize,
    FInitialF: Fn() -> R,
    FSquaredLeverage: Fn() -> Vec<R>,
    FParticles: Fn() -> LsvParticleConfig<R>,
    FPseudoShocks: Fn(u64, u64) -> Result<Vec<R>, MonteCarloError>,
    FEvolveStates: Fn(R, &Vec<R>) -> Result<Vec<R>, MonteCarloError>,
    FLsvPayoff: Fn(&Vec<R>, u64, bool) -> Result<(R, Option<Vec<R>>), MonteCarloError>,
> LsvPriceModel<R> for SuppliedLsvPriceModel<
    R,
    FScheme,
    FRandomBlocks,
    FStepCount,
    FInitialF,
    FSquaredLeverage,
    FParticles,
    FPseudoShocks,
    FEvolveStates,
    FLsvPayoff,
> {
    open spec fn scheme_of(&self) -> &'static str {
        (self.supplied().scheme)()
    }

    open spec fn random_blocks_of(&self) -> usize {
        (self.supplied().random_blocks)()
    }

    open spec fn step_count_of(&self) -> usize {
        (self.supplied().step_count)()
    }

    open spec fn initial_f_of(&self) -> R {
        (self.supplied().initial_f)()
    }

    open spec fn squared_leverage_of(&self) -> Seq<R> {
        (self.supplied().squared_leverage)()
    }

    open spec fn particles_of(&self) -> LsvParticleConfig<R> {
        (self.supplied().particles)()
    }

    open spec fn pseudo_shocks_of(&self, seed: u64, path: u64) -> Result<Seq<R>, MonteCarloError> {
        (self.supplied().pseudo_shocks)(seed, path)
    }

    open spec fn states_of(&self, initial: R, shocks: Seq<R>) -> Result<Seq<R>, MonteCarloError> {
        (self.supplied().evolve_states)(initial, shocks)
    }

    open spec fn lsv_payoff_of(
        &self,
        states: Seq<R>,
        path: u64,
        risk: bool,
    ) -> Result<(R, Option<Seq<R>>), MonteCarloError> {
        (self.supplied().lsv_payoff)(states, path, risk)
    }

    fn scheme(&self) -> (r: &'static str) {
        proof {
            use_type_invariant(self);
        }
        (self.scheme)()
    }

    fn random_blocks(&self) -> (r: usize) {
        proof {
            use_type_invariant(self);
        }
        (self.random_blocks)()
    }

    fn step_count(&self) -> (r: usize) {
        proof {
            use_type_invariant(self);
        }
        (self.step_count)()
    }

    fn initial_f(&self) -> (r: R) {
        proof {
            use_type_invariant(self);
        }
        (self.initial_f)()
    }

    fn squared_leverage(&self) -> (r: Vec<R>) {
        proof {
            use_type_invariant(self);
        }
        (self.squared_leverage)()
    }

    fn particles(&self) -> (r: LsvParticleConfig<R>) {
        proof {
            use_type_invariant(self);
        }
        (self.particles)()
    }

    fn pseudo_shocks(&self, seed: u64, path: u64) -> (r: Result<Vec<R>, MonteCarloError>) {
        proof {
            use_type_invariant(self);
        }
        (self.pseudo_shocks)(seed, path)
    }

    fn evolve_states(&self, initial: R, shocks: &Vec<R>) -> (r: Result<Vec<R>, MonteCarloError>) {
        proof {
            use_type_invariant(self);
        }
        (self.evolve_states)(initial, shocks)
    }

    fn lsv_payoff(&self, states: &Vec<R>, path: u64, risk: bool) -> (
        r: Result<(R, Option<Vec<R>>), MonteCarloError>
    ) {
        proof {
            use_type_invariant(self);
        }
        (self.lsv_payoff)(states, path, risk)
    }
}

/// The functions behind a [`SuppliedLsvModel`], as mathematical functions.
#[verifier::reject_recursive_types(R)]
#[verifier::reject_recursive_types(Path)]
pub ghost struct SuppliedLsvModelModel<R, Path> {
    pub evolve_path: spec_fn(R, Seq<R>) -> Result<Path, MonteCarloError>,
    pub path_states: spec_fn(Path) -> Seq<R>,
    pub leverage_adjoints: spec_fn(Path, Seq<R>) -> Result<Seq<R>, MonteCarloError>,
    pub reverse_leverage: spec_fn(Seq<R>) -> Result<Seq<R>, MonteCarloError>,
    pub refined_times: spec_fn() -> Seq<R>,
}

/// An [`LsvModel`] on a model with prices, whose functions of the reversal are supplied one by
/// one.
#[verifier::reject_recursive_types(R)]
#[verifier::reject_recursive_types(Price)]
#[verifier::reject_recursive_types(Path)]
pub struct SuppliedLsvModel<
    R: Scalar,
    Price: LsvPriceModel<R>,
    Path,
    FEvolvePath: Fn(R, &Vec<R>) -> Result<Path, MonteCarloError>,
    FPathStates: Fn(&Path) -> Vec<R>,
    FLeverageAdjoints: Fn(&Path, &Vec<R>) -> Result<Vec<R>, MonteCarloError>,
    FReverseLeverage: Fn(&Vec<R>) -> Result<Vec<R>, MonteCarloError>,
    FRefinedTimes: Fn() -> Vec<R>,
> {
    price: Price,
    evolve_path: FEvolvePath,
    path_states: FPathStates,
    leverage_adjoints: FLeverageAdjoints,
    reverse_leverage: FReverseLeverage,
    refined_times: FRefinedTimes,
    model: Ghost<SuppliedLsvModelModel<R, Path>>,
}

impl<
    R: Scalar,
    Price: LsvPriceModel<R>,
    Path,
    FEvolvePath: Fn(R, &Vec<R>) -> Result<Path, MonteCarloError>,
    FPathStates: Fn(&Path) -> Vec<R>,
    FLeverageAdjoints: Fn(&Path, &Vec<R>) -> Result<Vec<R>, MonteCarloError>,
    FReverseLeverage: Fn(&Vec<R>) -> Result<Vec<R>, MonteCarloError>,
    FRefinedTimes: Fn() -> Vec<R>,
> SuppliedLsvModel<
    R,
    Price,
    Path,
    FEvolvePath,
    FPathStates,
    FLeverageAdjoints,
    FReverseLeverage,
    FRefinedTimes,
> {
    #[verifier::type_invariant]
    closed spec fn inv(self) -> bool {
        Self::callable(
            self.evolve_path,
            self.path_states,
            self.leverage_adjoints,
            self.reverse_leverage,
            self.refined_times,
        )
            && Self::computes(
                self.evolve_path,
                self.path_states,
                self.leverage_adjoints,
                self.reverse_leverage,
                self.refined_times,
                self.model@,
            )
    }

    /// The functions accept every argument.
    pub open spec fn callable(
        evolve_path: FEvolvePath,
        path_states: FPathStates,
        leverage_adjoints: FLeverageAdjoints,
        reverse_leverage: FReverseLeverage,
        refined_times: FRefinedTimes,
    ) -> bool {
        &&& forall|initial: R, shocks: &Vec<R>|
            #[trigger] call_requires(evolve_path, (initial, shocks))
        &&& forall|path: &Path| #[trigger] call_requires(path_states, (path,))
        &&& forall|path: &Path, seeds: &Vec<R>|
            #[trigger] call_requires(leverage_adjoints, (path, seeds))
        &&& forall|adjoints: &Vec<R>| #[trigger] call_requires(reverse_leverage, (adjoints,))
        &&& call_requires(refined_times, ())
    }

    /// The functions compute those of the model.
    pub open spec fn computes(
        evolve_path: FEvolvePath,
        path_states: FPathStates,
        leverage_adjoints: FLeverageAdjoints,
        reverse_leverage: FReverseLeverage,
        refined_times: FRefinedTimes,
        model: SuppliedLsvModelModel<R, Path>,
    ) -> bool {
        &&& forall|initial: R, shocks: &Vec<R>, result: Result<Path, MonteCarloError>| #[trigger]
            call_ensures(
                evolve_path,
                (initial, shocks),
                result,
            ) ==> result == (model.evolve_path)(initial, shocks@)
        &&& forall|path: &Path, result: Vec<R>| #[trigger]
            call_ensures(path_states, (path,), result) ==> result@ == (model.path_states)(*path)
        &&& forall|path: &Path, seeds: &Vec<R>, result: Result<Vec<R>, MonteCarloError>| #[trigger]
            call_ensures(
                leverage_adjoints,
                (path, seeds),
                result,
            ) ==> seen(result) == (model.leverage_adjoints)(*path, seeds@)
        &&& forall|adjoints: &Vec<R>, result: Result<Vec<R>, MonteCarloError>| #[trigger]
            call_ensures(
                reverse_leverage,
                (adjoints,),
                result,
            ) ==> seen(result) == (model.reverse_leverage)(adjoints@)
        &&& forall|result: Vec<R>| #[trigger]
            call_ensures(refined_times, (), result) ==> result@ == (model.refined_times)()
    }

    /// The functions that were supplied.
    pub closed spec fn supplied(self) -> SuppliedLsvModelModel<R, Path> {
        self.model@
    }

    /// The model with prices.
    pub closed spec fn priced(self) -> Price {
        self.price
    }

    /// Takes functions that give the same result whenever they are given the
    /// same arguments.
    pub fn new(
        price: Price,
        evolve_path: FEvolvePath,
        path_states: FPathStates,
        leverage_adjoints: FLeverageAdjoints,
        reverse_leverage: FReverseLeverage,
        refined_times: FRefinedTimes,
    ) -> (s: Self)
        requires
            Self::callable(
                evolve_path,
                path_states,
                leverage_adjoints,
                reverse_leverage,
                refined_times,
            ),
            exists|model: SuppliedLsvModelModel<R, Path>|
                #[trigger] Self::computes(
                    evolve_path,
                    path_states,
                    leverage_adjoints,
                    reverse_leverage,
                    refined_times,
                    model,
                ),
        ensures
            Self::computes(
                evolve_path,
                path_states,
                leverage_adjoints,
                reverse_leverage,
                refined_times,
                s.supplied(),
            ),
            s.priced() == price,
    {
        let ghost model = choose|model: SuppliedLsvModelModel<R, Path>| #[trigger]
            Self::computes(
                evolve_path,
                path_states,
                leverage_adjoints,
                reverse_leverage,
                refined_times,
                model,
            );
        SuppliedLsvModel {
            price,
            evolve_path,
            path_states,
            leverage_adjoints,
            reverse_leverage,
            refined_times,
            model: Ghost(model),
        }
    }

    /// Takes functions that are known to compute `model`.
    pub fn with_model(
        price: Price,
        evolve_path: FEvolvePath,
        path_states: FPathStates,
        leverage_adjoints: FLeverageAdjoints,
        reverse_leverage: FReverseLeverage,
        refined_times: FRefinedTimes,
        model: Ghost<SuppliedLsvModelModel<R, Path>>,
    ) -> (s: Self)
        requires
            Self::callable(
                evolve_path,
                path_states,
                leverage_adjoints,
                reverse_leverage,
                refined_times,
            ),
            Self::computes(
                evolve_path,
                path_states,
                leverage_adjoints,
                reverse_leverage,
                refined_times,
                model@,
            ),
        ensures
            s.supplied() == model@,
            s.priced() == price,
    {
        SuppliedLsvModel {
            price,
            evolve_path,
            path_states,
            leverage_adjoints,
            reverse_leverage,
            refined_times,
            model,
        }
    }
}

impl<
    R: Scalar,
    Price: LsvPriceModel<R>,
    Path,
    FEvolvePath: Fn(R, &Vec<R>) -> Result<Path, MonteCarloError>,
    FPathStates: Fn(&Path) -> Vec<R>,
    FLeverageAdjoints: Fn(&Path, &Vec<R>) -> Result<Vec<R>, MonteCarloError>,
    FReverseLeverage: Fn(&Vec<R>) -> Result<Vec<R>, MonteCarloError>,
    FRefinedTimes: Fn() -> Vec<R>,
> LsvPriceModel<R> for SuppliedLsvModel<
    R,
    Price,
    Path,
    FEvolvePath,
    FPathStates,
    FLeverageAdjoints,
    FReverseLeverage,
    FRefinedTimes,
> {
    open spec fn scheme_of(&self) -> &'static str {
        self.priced().scheme_of()
    }

    open spec fn random_blocks_of(&self) -> usize {
        self.priced().random_blocks_of()
    }

    open spec fn step_count_of(&self) -> usize {
        self.priced().step_count_of()
    }

    open spec fn initial_f_of(&self) -> R {
        self.priced().initial_f_of()
    }

    open spec fn squared_leverage_of(&self) -> Seq<R> {
        self.priced().squared_leverage_of()
    }

    open spec fn particles_of(&self) -> LsvParticleConfig<R> {
        self.priced().particles_of()
    }

    open spec fn pseudo_shocks_of(&self, seed: u64, path: u64) -> Result<Seq<R>, MonteCarloError> {
        self.priced().pseudo_shocks_of(seed, path)
    }

    open spec fn states_of(&self, initial: R, shocks: Seq<R>) -> Result<Seq<R>, MonteCarloError> {
        self.priced().states_of(initial, shocks)
    }

    open spec fn lsv_payoff_of(
        &self,
        states: Seq<R>,
        path: u64,
        risk: bool,
    ) -> Result<(R, Option<Seq<R>>), MonteCarloError> {
        self.priced().lsv_payoff_of(states, path, risk)
    }

    fn scheme(&self) -> (r: &'static str) {
        self.price.scheme()
    }

    fn random_blocks(&self) -> (r: usize) {
        self.price.random_blocks()
    }

    fn step_count(&self) -> (r: usize) {
        self.price.step_count()
    }

    fn initial_f(&self) -> (r: R) {
        self.price.initial_f()
    }

    fn squared_leverage(&self) -> (r: Vec<R>) {
        self.price.squared_leverage()
    }

    fn particles(&self) -> (r: LsvParticleConfig<R>) {
        self.price.particles()
    }

    fn pseudo_shocks(&self, seed: u64, path: u64) -> (r: Result<Vec<R>, MonteCarloError>) {
        self.price.pseudo_shocks(seed, path)
    }

    fn evolve_states(&self, initial: R, shocks: &Vec<R>) -> (r: Result<Vec<R>, MonteCarloError>) {
        self.price.evolve_states(initial, shocks)
    }

    fn lsv_payoff(&self, states: &Vec<R>, path: u64, risk: bool) -> (
        r: Result<(R, Option<Vec<R>>), MonteCarloError>
    ) {
        self.price.lsv_payoff(states, path, risk)
    }
}

impl<
    R: Scalar,
    Price: LsvPriceModel<R>,
    Path,
    FEvolvePath: Fn(R, &Vec<R>) -> Result<Path, MonteCarloError>,
    FPathStates: Fn(&Path) -> Vec<R>,
    FLeverageAdjoints: Fn(&Path, &Vec<R>) -> Result<Vec<R>, MonteCarloError>,
    FReverseLeverage: Fn(&Vec<R>) -> Result<Vec<R>, MonteCarloError>,
    FRefinedTimes: Fn() -> Vec<R>,
> LsvModel<R> for SuppliedLsvModel<
    R,
    Price,
    Path,
    FEvolvePath,
    FPathStates,
    FLeverageAdjoints,
    FReverseLeverage,
    FRefinedTimes,
> {
    type Path = Path;

    open spec fn recorded(&self, initial: R, shocks: Seq<R>) -> Result<Path, MonteCarloError> {
        (self.supplied().evolve_path)(initial, shocks)
    }

    open spec fn recorded_states(&self, path: Self::Path) -> Seq<R> {
        (self.supplied().path_states)(path)
    }

    open spec fn leverage_adjoints_of(
        &self,
        path: Self::Path,
        seeds: Seq<R>,
    ) -> Result<Seq<R>, MonteCarloError> {
        (self.supplied().leverage_adjoints)(path, seeds)
    }

    open spec fn reversed_leverage(&self, adjoints: Seq<R>) -> Result<Seq<R>, MonteCarloError> {
        (self.supplied().reverse_leverage)(adjoints)
    }

    open spec fn refined_times_of(&self) -> Seq<R> {
        (self.supplied().refined_times)()
    }

    fn evolve_path(&self, initial: R, shocks: &Vec<R>) -> (r: Result<Self::Path, MonteCarloError>) {
        proof {
            use_type_invariant(self);
        }
        (self.evolve_path)(initial, shocks)
    }

    fn path_states(&self, path: &Self::Path) -> (r: Vec<R>) {
        proof {
            use_type_invariant(self);
        }
        (self.path_states)(path)
    }

    fn leverage_adjoints(
        &self,
        path: &Self::Path,
        seeds: &Vec<R>,
    ) -> (r: Result<Vec<R>, MonteCarloError>) {
        proof {
            use_type_invariant(self);
        }
        (self.leverage_adjoints)(path, seeds)
    }

    fn reverse_leverage(&self, adjoints: &Vec<R>) -> (r: Result<Vec<R>, MonteCarloError>) {
        proof {
            use_type_invariant(self);
        }
        (self.reverse_leverage)(adjoints)
    }

    fn refined_times(&self) -> (r: Vec<R>) {
        proof {
            use_type_invariant(self);
        }
        (self.refined_times)()
    }
}

} // verus!
