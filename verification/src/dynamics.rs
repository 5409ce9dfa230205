//! What the dividend kernels obtain from the models beneath them.

use crate::errors::MonteCarloError;
use crate::models::{
    Bergomi2Factor, BuehlerDividendModel, BuehlerDividendState, Pair, RoughBergomi,
};
use crate::results::opt_seen;
use crate::scalar::Scalar;
use vstd::prelude::*;

verus! {

/// The dynamics of equity and dividends over a step.
pub trait DividendDynamics<R: Scalar> {
    /// The weights of a level and of its target after a time, at a speed of reversion.
    spec fn decay_of(&self, speed: R, time: R) -> Pair<R>;

    /// A level between `current` and `target`, by their weights.
    spec fn blend_of(&self, weights: Pair<R>, current: R, target: R) -> R;

    /// The level that dividends revert to at an equity level.
    spec fn target_of(&self, dividends: BuehlerDividendModel<R>, equity: R) -> R;

    /// The state after one step of equity and dividends.
    spec fn stepped(
        &self,
        dividends: BuehlerDividendModel<R>,
        state: BuehlerDividendState<R>,
        volatility: R,
        time: R,
        normals: Pair<R>,
    ) -> Result<BuehlerDividendState<R>, MonteCarloError>;

    /// Computes [`Self::decay_of`].
    fn decay(&self, speed: R, time: R) -> (r: Pair<R>)
        ensures
            r == self.decay_of(speed, time),
    ;

    /// Computes [`Self::blend_of`].
    fn blend(&self, weights: Pair<R>, current: R, target: R) -> (r: R)
        ensures
            r == self.blend_of(weights, current, target),
    ;

    /// Computes [`Self::target_of`].
    fn target(&self, dividends: BuehlerDividendModel<R>, equity: R) -> (r: R)
        ensures
            r == self.target_of(dividends, equity),
    ;

    /// Computes [`Self::stepped`].
    fn step(
        &self,
        dividends: BuehlerDividendModel<R>,
        state: BuehlerDividendState<R>,
        volatility: R,
        time: R,
        normals: Pair<R>,
    ) -> (r: Result<BuehlerDividendState<R>, MonteCarloError>)
        ensures
            r == self.stepped(dividends, state, volatility, time, normals),
    ;
}

/// The functions behind a [`SuppliedDividendDynamics`], as mathematical functions.
#[verifier::reject_recursive_types(R)]
pub ghost struct SuppliedDividendDynamicsModel<R> {
    pub decay: spec_fn(R, R) -> Pair<R>,
    pub blend: spec_fn(Pair<R>, R, R) -> R,
    pub target: spec_fn(BuehlerDividendModel<R>, R) -> R,
    pub step: spec_fn(
        BuehlerDividendModel<R>,
        BuehlerDividendState<R>,
        R,
        R,
        Pair<R>,
    ) -> Result<BuehlerDividendState<R>, MonteCarloError>,
}

/// [`DividendDynamics`] whose functions are supplied one by one.
#[verifier::reject_recursive_types(R)]
pub struct SuppliedDividendDynamics<
    R: Scalar,
    FDecay: Fn(R, R) -> Pair<R>,
    FBlend: Fn(Pair<R>, R, R) -> R,
    FTarget: Fn(BuehlerDividendModel<R>, R) -> R,
    FStep: Fn(
        BuehlerDividendModel<R>,
        BuehlerDividendState<R>,
        R,
        R,
        Pair<R>,
    ) -> Result<BuehlerDividendState<R>, MonteCarloError>,
> {
    decay: FDecay,
    blend: FBlend,
    target: FTarget,
    step: FStep,
    model: Ghost<SuppliedDividendDynamicsModel<R>>,
}

impl<
    R: Scalar,
    FDecay: Fn(R, R) -> Pair<R>,
    FBlend: Fn(Pair<R>, R, R) -> R,
    FTarget: Fn(BuehlerDividendModel<R>, R) -> R,
    FStep: Fn(
        BuehlerDividendModel<R>,
        BuehlerDividendState<R>,
        R,
        R,
        Pair<R>,
    ) -> Result<BuehlerDividendState<R>, MonteCarloError>,
> SuppliedDividendDynamics<R, FDecay, FBlend, FTarget, FStep> {
    #[verifier::type_invariant]
    closed spec fn inv(self) -> bool {
        Self::callable(self.decay, self.blend, self.target, self.step)
            && Self::computes(self.decay, self.blend, self.target, self.step, self.model@)
    }

    /// The functions accept every argument.
    pub open spec fn callable(decay: FDecay, blend: FBlend, target: FTarget, step: FStep) -> bool {
        &&& forall|speed: R, time: R| #[trigger] call_requires(decay, (speed, time))
        &&& forall|weights: Pair<R>, current: R, target: R| #[trigger] call_requires(
            blend,
            (weights, current, target),
        )
        &&& forall|dividends: BuehlerDividendModel<R>, equity: R|
            #[trigger] call_requires(target, (dividends, equity))
        &&& forall|
            dividends: BuehlerDividendModel<R>,
            state: BuehlerDividendState<R>,
            volatility: R,
            time: R,
            normals: Pair<R>,
        |
            #[trigger] call_requires(
                step,
                (dividends, state, volatility, time, normals),
            )
    }

    /// The functions compute those of the model.
    pub open spec fn computes(
        decay: FDecay,
        blend: FBlend,
        target: FTarget,
        step: FStep,
        model: SuppliedDividendDynamicsModel<R>,
    ) -> bool {
        &&& forall|speed: R, time: R, result: Pair<R>| #[trigger]
            call_ensures(decay, (speed, time), result) ==> result == (model.decay)(speed, time)
        &&& forall|weights: Pair<R>, current: R, target: R, result: R| #[trigger]
            call_ensures(
                blend,
                (weights, current, target),
                result,
            ) ==> result == (model.blend)(weights, current, target)
        &&& forall|dividends: BuehlerDividendModel<R>, equity: R, result: R| #[trigger]
            call_ensures(
                target,
                (dividends, equity),
                result,
            ) ==> result == (model.target)(dividends, equity)
        &&& forall|
            dividends: BuehlerDividendModel<R>,
            state: BuehlerDividendState<R>,
            volatility: R,
            time: R,
            normals: Pair<R>,
            result: Result<BuehlerDividendState<R>, MonteCarloError>,
        |
            #[trigger]
            call_ensures(
                step,
                (dividends, state, volatility, time, normals),
                result,
            ) ==> result == (model.step)(dividends, state, volatility, time, normals)
    }

    /// The functions that were supplied.
    pub closed spec fn supplied(self) -> SuppliedDividendDynamicsModel<R> {
        self.model@
    }

    /// Takes functions that give the same result whenever they are given the
    /// same arguments.
    pub fn new(decay: FDecay, blend: FBlend, target: FTarget, step: FStep) -> (s: Self)
        requires
            Self::callable(decay, blend, target, step),
            exists|model: SuppliedDividendDynamicsModel<R>| #[trigger] Self::computes(
                decay,
                blend,
                target,
                step,
                model,
            ),
        ensures
            Self::computes(decay, blend, target, step, s.supplied()),
    {
        let ghost model = choose|model: SuppliedDividendDynamicsModel<R>| #[trigger] Self::computes(
            decay,
            blend,
            target,
            step,
            model,
        );
        SuppliedDividendDynamics { decay, blend, target, step, model: Ghost(model) }
    }

    /// Takes functions that are known to compute `model`.
    pub fn with_model(
        decay: FDecay,
        blend: FBlend,
        target: FTarget,
        step: FStep,
        model: Ghost<SuppliedDividendDynamicsModel<R>>,
    ) -> (s: Self)
        requires
            Self::callable(decay, blend, target, step),
            Self::computes(decay, blend, target, step, model@),
        ensures
            s.supplied() == model@,
    {
        SuppliedDividendDynamics { decay, blend, target, step, model }
    }
}

impl<
    R: Scalar,
    FDecay: Fn(R, R) -> Pair<R>,
    FBlend: Fn(Pair<R>, R, R) -> R,
    FTarget: Fn(BuehlerDividendModel<R>, R) -> R,
    FStep: Fn(
        BuehlerDividendModel<R>,
        BuehlerDividendState<R>,
        R,
        R,
        Pair<R>,
    ) -> Result<BuehlerDividendState<R>, MonteCarloError>,
> DividendDynamics<R> for SuppliedDividendDynamics<R, FDecay, FBlend, FTarget, FStep> {
    open spec fn decay_of(&self, speed: R, time: R) -> Pair<R> {
        (self.supplied().decay)(speed, time)
    }

    open spec fn blend_of(&self, weights: Pair<R>, current: R, target: R) -> R {
        (self.supplied().blend)(weights, current, target)
    }

    open spec fn target_of(&self, dividends: BuehlerDividendModel<R>, equity: R) -> R {
        (self.supplied().target)(dividends, equity)
    }

    open spec fn stepped(
        &self,
        dividends: BuehlerDividendModel<R>,
        state: BuehlerDividendState<R>,
        volatility: R,
        time: R,
        normals: Pair<R>,
    ) -> Result<BuehlerDividendState<R>, MonteCarloError> {
        (self.supplied().step)(dividends, state, volatility, time, normals)
    }

    fn decay(&self, speed: R, time: R) -> (r: Pair<R>) {
        proof {
            use_type_invariant(self);
        }
        (self.decay)(speed, time)
    }

    fn blend(&self, weights: Pair<R>, current: R, target: R) -> (r: R) {
        proof {
            use_type_invariant(self);
        }
        (self.blend)(weights, current, target)
    }

    fn target(&self, dividends: BuehlerDividendModel<R>, equity: R) -> (r: R) {
        proof {
            use_type_invariant(self);
        }
        (self.target)(dividends, equity)
    }

    fn step(
        &self,
        dividends: BuehlerDividendModel<R>,
        state: BuehlerDividendState<R>,
        volatility: R,
        time: R,
        normals: Pair<R>,
    ) -> (r: Result<BuehlerDividendState<R>, MonteCarloError>) {
        proof {
            use_type_invariant(self);
        }
        (self.step)(dividends, state, volatility, time, normals)
    }
}

/// The covariances of volatility factors, and leverage surfaces.
pub trait KernelNumerics<R: Scalar> {
    /// A leverage surface.
    type Surface;

    /// The correlation of two exponential kernels over a step.
    spec fn kernel_correlation_of(&self, first: R, second: R) -> Option<R>;

    /// The lower factor of a correlation matrix, row by row, where there is one.
    spec fn factor_of(&self, matrix: Seq<R>, size: usize) -> Option<Seq<R>>;

    /// The pivots of the factorisation of a correlation matrix.
    spec fn pivots_of(&self, matrix: Seq<R>, size: usize) -> Seq<R>;

    /// The variances of a fractional driver at the nodes of the grid, where they can be had.
    spec fn volterra_variances_of(&self, rough: RoughBergomi<R>, times: Seq<R>) -> Option<Seq<R>>;

    /// The weights of the increments before the newest in a fractional driver at a node.
    spec fn volterra_row_of(&self, rough: RoughBergomi<R>, times: Seq<R>, node: usize) -> Seq<R>;

    /// The decay and the variance of a reverting factor over a step.
    spec fn transition_of(&self, speed: R, time: R) -> Option<Pair<R>>;

    /// Whether a surface has a row for each step of the grid.
    spec fn covers_all(&self, surface: Self::Surface, times: Seq<R>) -> bool;

    /// The level that a surface is anchored at.
    spec fn initial_level_of(&self, surface: Self::Surface) -> R;

    /// The squared leverage of a surface at a time and a level.
    spec fn squared_leverage_of(&self, surface: Self::Surface, time: R, level: R) -> Option<R>;

    /// The weights of two factors, normalised to a unit variance.
    spec fn weights_of(&self, mixing: Bergomi2Factor<R>) -> Pair<R>;

    /// Computes [`Self::kernel_correlation_of`].
    fn kernel_correlation(&self, first: R, second: R) -> (r: Option<R>)
        ensures
            r == self.kernel_correlation_of(first, second),
    ;

    /// Computes [`Self::factor_of`].
    fn factor(&self, matrix: &Vec<R>, size: usize) -> (r: Option<Vec<R>>)
        ensures
            opt_seen(r) == self.factor_of(matrix@, size),
            r matches Some(v) ==> v@.len() == size * size,
    ;

    /// Computes [`Self::pivots_of`].
    fn pivots(&self, matrix: &Vec<R>, size: usize) -> (r: Vec<R>)
        ensures
            r@ == self.pivots_of(matrix@, size),
    ;

    /// Computes [`Self::volterra_variances_of`].
    fn volterra_variances(&self, rough: RoughBergomi<R>, times: &Vec<R>) -> (r: Option<Vec<R>>)
        ensures
            opt_seen(r) == self.volterra_variances_of(rough, times@),
            r matches Some(v) ==> v@.len() == times@.len(),
    ;

    /// Computes [`Self::volterra_row_of`].
    fn volterra_row(&self, rough: RoughBergomi<R>, times: &Vec<R>, node: usize) -> (r: Vec<R>)
        ensures
            r@ == self.volterra_row_of(rough, times@, node),
            r@.len() + 1 == node || node == 0 && r@.len() == 0,
    ;

    /// Computes [`Self::transition_of`].
    fn transition(&self, speed: R, time: R) -> (r: Option<Pair<R>>)
        ensures
            r == self.transition_of(speed, time),
    ;

    /// Computes [`Self::covers_all`].
    fn covers(&self, surface: &Self::Surface, times: &Vec<R>) -> (r: bool)
        ensures
            r == self.covers_all(*surface, times@),
    ;

    /// Computes [`Self::initial_level_of`].
    fn initial_level(&self, surface: &Self::Surface) -> (r: R)
        ensures
            r == self.initial_level_of(*surface),
    ;

    /// Computes [`Self::squared_leverage_of`].
    fn squared_leverage(&self, surface: &Self::Surface, time: R, level: R) -> (r: Option<R>)
        ensures
            r == self.squared_leverage_of(*surface, time, level),
    ;

    /// Computes [`Self::weights_of`].
    fn normalized_weights(&self, mixing: Bergomi2Factor<R>) -> (r: Pair<R>)
        ensures
            r == self.weights_of(mixing),
    ;
}

/// The functions behind a [`SuppliedKernelNumerics`], as mathematical functions.
#[verifier::reject_recursive_types(R)]
#[verifier::reject_recursive_types(Surface)]
pub ghost struct SuppliedKernelNumericsModel<R, Surface> {
    pub kernel_correlation: spec_fn(R, R) -> Option<R>,
    pub factor: spec_fn(Seq<R>, usize) -> Option<Seq<R>>,
    pub pivots: spec_fn(Seq<R>, usize) -> Seq<R>,
    pub volterra_variances: spec_fn(RoughBergomi<R>, Seq<R>) -> Option<Seq<R>>,
    pub volterra_row: spec_fn(RoughBergomi<R>, Seq<R>, usize) -> Seq<R>,
    pub transition: spec_fn(R, R) -> Option<Pair<R>>,
    pub covers: spec_fn(Surface, Seq<R>) -> bool,
    pub initial_level: spec_fn(Surface) -> R,
    pub squared_leverage: spec_fn(Surface, R, R) -> Option<R>,
    pub normalized_weights: spec_fn(Bergomi2Factor<R>) -> Pair<R>,
}

/// [`KernelNumerics`] whose functions are supplied one by one.
#[verifier::reject_recursive_types(R)]
#[verifier::reject_recursive_types(Surface)]
pub struct SuppliedKernelNumerics<
    R: Scalar,
    Surface,
    FKernelCorrelation: Fn(R, R) -> Option<R>,
    FFactor: Fn(&Vec<R>, usize) -> Option<Vec<R>>,
    FPivots: Fn(&Vec<R>, usize) -> Vec<R>,
    FVolterraVariances: Fn(RoughBergomi<R>, &Vec<R>) -> Option<Vec<R>>,
    FVolterraRow: Fn(RoughBergomi<R>, &Vec<R>, usize) -> Vec<R>,
    FTransition: Fn(R, R) -> Option<Pair<R>>,
    FCovers: Fn(&Surface, &Vec<R>) -> bool,
    FInitialLevel: Fn(&Surface) -> R,
    FSquaredLeverage: Fn(&Surface, R, R) -> Option<R>,
    FNormalizedWeights: Fn(Bergomi2Factor<R>) -> Pair<R>,
> {
    kernel_correlation: FKernelCorrelation,
    factor: FFactor,
    pivots: FPivots,
    volterra_variances: FVolterraVariances,
    volterra_row: FVolterraRow,
    transition: FTransition,
    covers: FCovers,
    initial_level: FInitialLevel,
    squared_leverage: FSquaredLeverage,
    normalized_weights: FNormalizedWeights,
    model: Ghost<SuppliedKernelNumericsModel<R, Surface>>,
}

impl<
    R: Scalar,
    Surface,
    FKernelCorrelation: Fn(R, R) -> Option<R>,
    FFactor: Fn(&Vec<R>, usize) -> Option<Vec<R>>,
    FPivots: Fn(&Vec<R>, usize) -> Vec<R>,
    FVolterraVariances: Fn(RoughBergomi<R>, &Vec<R>) -> Option<Vec<R>>,
    FVolterraRow: Fn(RoughBergomi<R>, &Vec<R>, usize) -> Vec<R>,
    FTransition: Fn(R, R) -> Option<Pair<R>>,
    FCovers: Fn(&Surface, &Vec<R>) -> bool,
    FInitialLevel: Fn(&Surface) -> R,
    FSquaredLeverage: Fn(&Surface, R, R) -> Option<R>,
    FNormalizedWeights: Fn(Bergomi2Factor<R>) -> Pair<R>,
> SuppliedKernelNumerics<
    R,
    Surface,
    FKernelCorrelation,
    FFactor,
    FPivots,
    FVolterraVariances,
    FVolterraRow,
    FTransition,
    FCovers,
    FInitialLevel,
    FSquaredLeverage,
    FNormalizedWeights,
> {
    #[verifier::type_invariant]
    closed spec fn inv(self) -> bool {
        Self::callable(
            self.kernel_correlation,
            self.factor,
            self.pivots,
            self.volterra_variances,
            self.volterra_row,
            self.transition,
            self.covers,
            self.initial_level,
            self.squared_leverage,
            self.normalized_weights,
        )
            && Self::computes(
                self.kernel_correlation,
                self.factor,
                self.pivots,
                self.volterra_variances,
                self.volterra_row,
                self.transition,
                self.covers,
                self.initial_level,
                self.squared_leverage,
                self.normalized_weights,
                self.model@,
            )
    }

    /// The functions accept every argument.
    pub open spec fn callable(
        kernel_correlation: FKernelCorrelation,
        factor: FFactor,
        pivots: FPivots,
        volterra_variances: FVolterraVariances,
        volterra_row: FVolterraRow,
        transition: FTransition,
        covers: FCovers,
        initial_level: FInitialLevel,
        squared_leverage: FSquaredLeverage,
        normalized_weights: FNormalizedWeights,
    ) -> bool {
        &&& forall|first: R, second: R| #[trigger] call_requires(
            kernel_correlation,
            (first, second),
        )
        &&& forall|matrix: &Vec<R>, size: usize| #[trigger] call_requires(factor, (matrix, size))
        &&& forall|matrix: &Vec<R>, size: usize| #[trigger] call_requires(pivots, (matrix, size))
        &&& forall|rough: RoughBergomi<R>, times: &Vec<R>| #[trigger] call_requires(
            volterra_variances,
            (rough, times),
        )
        &&& forall|rough: RoughBergomi<R>, times: &Vec<R>, node: usize| #[trigger] call_requires(
            volterra_row,
            (rough, times, node),
        )
        &&& forall|speed: R, time: R| #[trigger] call_requires(transition, (speed, time))
        &&& forall|surface: &Surface, times: &Vec<R>|
            #[trigger] call_requires(covers, (surface, times))
        &&& forall|surface: &Surface| #[trigger] call_requires(initial_level, (surface,))
        &&& forall|surface: &Surface, time: R, level: R| #[trigger] call_requires(
            squared_leverage,
            (surface, time, level),
        )
        &&& forall|mixing: Bergomi2Factor<R>| #[trigger] call_requires(
            normalized_weights,
            (mixing,),
        )
    }

    /// The functions compute those of the model.
    pub open spec fn computes(
        kernel_correlation: FKernelCorrelation,
        factor: FFactor,
        pivots: FPivots,
        volterra_variances: FVolterraVariances,
        volterra_row: FVolterraRow,
        transition: FTransition,
        covers: FCovers,
        initial_level: FInitialLevel,
        squared_leverage: FSquaredLeverage,
        normalized_weights: FNormalizedWeights,
        model: SuppliedKernelNumericsModel<R, Surface>,
    ) -> bool {
        &&& forall|first: R, second: R, result: Option<R>| #[trigger]
            call_ensures(
                kernel_correlation,
                (first, second),
                result,
            ) ==> result == (model.kernel_correlation)(first, second)
        &&& forall|matrix: &Vec<R>, size: usize, result: Option<Vec<R>>| #[trigger]
            call_ensures(factor, (matrix, size), result)
                ==> opt_seen(result) == (model.factor)(matrix@, size) && (
                result matches Some(v) ==> v@.len() == size * size
            )
        &&& forall|matrix: &Vec<R>, size: usize, result: Vec<R>| #[trigger]
            call_ensures(
                pivots,
                (matrix, size),
                result,
            ) ==> result@ == (model.pivots)(matrix@, size)
        &&& forall|rough: RoughBergomi<R>, times: &Vec<R>, result: Option<Vec<R>>| #[trigger]
            call_ensures(volterra_variances, (rough, times), result)
                ==> opt_seen(result) == (model.volterra_variances)(rough, times@) && (
                result matches Some(v) ==> v@.len() == times@.len()
            )
        &&& forall|rough: RoughBergomi<R>, times: &Vec<R>, node: usize, result: Vec<R>| #[trigger]
            call_ensures(volterra_row, (rough, times, node), result)
                ==> result@ == (model.volterra_row)(rough, times@, node) && (
                result@.len() + 1 == node || node == 0 && result@.len() == 0
            )
        &&& forall|speed: R, time: R, result: Option<Pair<R>>| #[trigger]
            call_ensures(
                transition,
                (speed, time),
                result,
            ) ==> result == (model.transition)(speed, time)
        &&& forall|surface: &Surface, times: &Vec<R>, result: bool| #[trigger]
            call_ensures(
                covers,
                (surface, times),
                result,
            ) ==> result == (model.covers)(*surface, times@)
        &&& forall|surface: &Surface, result: R| #[trigger]
            call_ensures(
                initial_level,
                (surface,),
                result,
            ) ==> result == (model.initial_level)(*surface)
        &&& forall|surface: &Surface, time: R, level: R, result: Option<R>| #[trigger]
            call_ensures(
                squared_leverage,
                (surface, time, level),
                result,
            ) ==> result == (model.squared_leverage)(*surface, time, level)
        &&& forall|mixing: Bergomi2Factor<R>, result: Pair<R>| #[trigger]
            call_ensures(
                normalized_weights,
                (mixing,),
                result,
            ) ==> result == (model.normalized_weights)(mixing)
    }

    /// The functions that were supplied.
    pub closed spec fn supplied(self) -> SuppliedKernelNumericsModel<R, Surface> {
        self.model@
    }

    /// Takes functions that give the same result whenever they are given the
    /// same arguments.
    pub fn new(
        kernel_correlation: FKernelCorrelation,
        factor: FFactor,
        pivots: FPivots,
        volterra_variances: FVolterraVariances,
        volterra_row: FVolterraRow,
        transition: FTransition,
        covers: FCovers,
        initial_level: FInitialLevel,
        squared_leverage: FSquaredLeverage,
        normalized_weights: FNormalizedWeights,
    ) -> (s: Self)
        requires
            Self::callable(
                kernel_correlation,
                factor,
                pivots,
                volterra_variances,
                volterra_row,
                transition,
                covers,
                initial_level,
                squared_leverage,
                normalized_weights,
            ),
            exists|model: SuppliedKernelNumericsModel<R, Surface>| #[trigger] Self::computes(
                kernel_correlation,
                factor,
                pivots,
                volterra_variances,
                volterra_row,
                transition,
                covers,
                initial_level,
                squared_leverage,
                normalized_weights,
                model,
            ),
        ensures
            Self::computes(
                kernel_correlation,
                factor,
                pivots,
                volterra_variances,
                volterra_row,
                transition,
                covers,
                initial_level,
                squared_leverage,
                normalized_weights,
                s.supplied(),
            ),
    {
        let ghost model = choose|model: SuppliedKernelNumericsModel<R, Surface>| #[trigger]
            Self::computes(
            kernel_correlation,
            factor,
            pivots,
            volterra_variances,
            volterra_row,
            transition,
            covers,
            initial_level,
            squared_leverage,
            normalized_weights,
            model,
        );
        SuppliedKernelNumerics {
            kernel_correlation,
            factor,
            pivots,
            volterra_variances,
            volterra_row,
            transition,
            covers,
            initial_level,
            squared_leverage,
            normalized_weights,
            model: Ghost(model),
        }
    }

    /// Takes functions that are known to compute `model`.
    pub fn with_model(
        kernel_correlation: FKernelCorrelation,
        factor: FFactor,
        pivots: FPivots,
        volterra_variances: FVolterraVariances,
        volterra_row: FVolterraRow,
        transition: FTransition,
        covers: FCovers,
        initial_level: FInitialLevel,
        squared_leverage: FSquaredLeverage,
        normalized_weights: FNormalizedWeights,
        model: Ghost<SuppliedKernelNumericsModel<R, Surface>>,
    ) -> (s: Self)
        requires
            Self::callable(
                kernel_correlation,
                factor,
                pivots,
                volterra_variances,
                volterra_row,
                transition,
                covers,
                initial_level,
                squared_leverage,
                normalized_weights,
            ),
            Self::computes(
                kernel_correlation,
                factor,
                pivots,
                volterra_variances,
                volterra_row,
                transition,
                covers,
                initial_level,
                squared_leverage,
                normalized_weights,
                model@,
            ),
        ensures
            s.supplied() == model@,
    {
        SuppliedKernelNumerics {
            kernel_correlation,
            factor,
            pivots,
            volterra_variances,
            volterra_row,
            transition,
            covers,
            initial_level,
            squared_leverage,
            normalized_weights,
            model,
        }
    }
}

impl<
    R: Scalar,
    Surface,
    FKernelCorrelation: Fn(R, R) -> Option<R>,
    FFactor: Fn(&Vec<R>, usize) -> Option<Vec<R>>,
    FPivots: Fn(&Vec<R>, usize) -> Vec<R>,
    FVolterraVariances: Fn(RoughBergomi<R>, &Vec<R>) -> Option<Vec<R>>,
    FVolterraRow: Fn(RoughBergomi<R>, &Vec<R>, usize) -> Vec<R>,
    FTransition: Fn(R, R) -> Option<Pair<R>>,
    FCovers: Fn(&Surface, &Vec<R>) -> bool,
    FInitialLevel: Fn(&Surface) -> R,
    FSquaredLeverage: Fn(&Surface, R, R) -> Option<R>,
    FNormalizedWeights: Fn(Bergomi2Factor<R>) -> Pair<R>,
> KernelNumerics<R> for SuppliedKernelNumerics<
    R,
    Surface,
    FKernelCorrelation,
    FFactor,
    FPivots,
    FVolterraVariances,
    FVolterraRow,
    FTransition,
    FCovers,
    FInitialLevel,
    FSquaredLeverage,
    FNormalizedWeights,
> {
    type Surface = Surface;

    open spec fn kernel_correlation_of(&self, first: R, second: R) -> Option<R> {
        (self.supplied().kernel_correlation)(first, second)
    }

    open spec fn factor_of(&self, matrix: Seq<R>, size: usize) -> Option<Seq<R>> {
        (self.supplied().factor)(matrix, size)
    }

    open spec fn pivots_of(&self, matrix: Seq<R>, size: usize) -> Seq<R> {
        (self.supplied().pivots)(matrix, size)
    }

    open spec fn volterra_variances_of(
        &self,
        rough: RoughBergomi<R>,
        times: Seq<R>,
    ) -> Option<Seq<R>> {
        (self.supplied().volterra_variances)(rough, times)
    }

    open spec fn volterra_row_of(
        &self,
        rough: RoughBergomi<R>,
        times: Seq<R>,
        node: usize,
    ) -> Seq<R> {
        (self.supplied().volterra_row)(rough, times, node)
    }

    open spec fn transition_of(&self, speed: R, time: R) -> Option<Pair<R>> {
        (self.supplied().transition)(speed, time)
    }

    open spec fn covers_all(&self, surface: Self::Surface, times: Seq<R>) -> bool {
        (self.supplied().covers)(surface, times)
    }

    open spec fn initial_level_of(&self, surface: Self::Surface) -> R {
        (self.supplied().initial_level)(surface)
    }

    open spec fn squared_leverage_of(
        &self,
        surface: Self::Surface,
        time: R,
        level: R,
    ) -> Option<R> {
        (self.supplied().squared_leverage)(surface, time, level)
    }

    open spec fn weights_of(&self, mixing: Bergomi2Factor<R>) -> Pair<R> {
        (self.supplied().normalized_weights)(mixing)
    }

    fn kernel_correlation(&self, first: R, second: R) -> (r: Option<R>) {
        proof {
            use_type_invariant(self);
        }
        (self.kernel_correlation)(first, second)
    }

    fn factor(&self, matrix: &Vec<R>, size: usize) -> (r: Option<Vec<R>>) {
        proof {
            use_type_invariant(self);
        }
        (self.factor)(matrix, size)
    }

    fn pivots(&self, matrix: &Vec<R>, size: usize) -> (r: Vec<R>) {
        proof {
            use_type_invariant(self);
        }
        (self.pivots)(matrix, size)
    }

    fn volterra_variances(&self, rough: RoughBergomi<R>, times: &Vec<R>) -> (r: Option<Vec<R>>) {
        proof {
            use_type_invariant(self);
        }
        (self.volterra_variances)(rough, times)
    }

    fn volterra_row(&self, rough: RoughBergomi<R>, times: &Vec<R>, node: usize) -> (r: Vec<R>) {
        proof {
            use_type_invariant(self);
        }
        (self.volterra_row)(rough, times, node)
    }

    fn transition(&self, speed: R, time: R) -> (r: Option<Pair<R>>) {
        proof {
            use_type_invariant(self);
        }
        (self.transition)(speed, time)
    }

    fn covers(&self, surface: &Self::Surface, times: &Vec<R>) -> (r: bool) {
        proof {
            use_type_invariant(self);
        }
        (self.covers)(surface, times)
    }

    fn initial_level(&self, surface: &Self::Surface) -> (r: R) {
        proof {
            use_type_invariant(self);
        }
        (self.initial_level)(surface)
    }

    fn squared_leverage(&self, surface: &Self::Surface, time: R, level: R) -> (r: Option<R>) {
        proof {
            use_type_invariant(self);
        }
        (self.squared_leverage)(surface, time, level)
    }

    fn normalized_weights(&self, mixing: Bergomi2Factor<R>) -> (r: Pair<R>) {
        proof {
            use_type_invariant(self);
        }
        (self.normalized_weights)(mixing)
    }
}

} // verus!
