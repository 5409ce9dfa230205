//! The paths of a plan: how they are rebuilt under changed parameters, evolved
//! under shocks, and paid off.

use crate::errors::{invalid, invalid_field, MonteCarloError};
use crate::lsv_model::LsvParticleConfig;
use crate::models::{
    Bergomi1Factor, Bergomi2Factor, BuehlerDividendModel, LsvCalibration, Pair, RoughBergomi,
};
use crate::results::{gather, gather_stops, seen};
use crate::scalar::{literal, Math, Scalar};
use vstd::prelude::*;

verus! {

/// What the risk of a plan obtains from the path model beneath it.
pub trait World<R: Scalar> {
    /// A compiled path.
    type Path;

    /// A calibrated leverage surface.
    type Surface;

    /// What a surface is calibrated to.
    type Target;

    /// The state of a path at a node.
    type State;

    /// The spots of a node, before and after its dividend.
    type Spot;

    /// Whether the one-factor parameters make a model.
    spec fn one_factor_valid(&self, factor: Bergomi1Factor<R>) -> bool;

    /// Whether the two-factor parameters make a model.
    spec fn two_factor_valid(&self, factor: Bergomi2Factor<R>) -> bool;

    /// Whether the dividend parameters make a model.
    spec fn dividend_valid(&self, model: BuehlerDividendModel<R>) -> bool;

    /// The surface that the plan was calibrated to.
    spec fn surface_of(&self) -> Self::Surface;

    /// What that surface was calibrated to.
    spec fn target_of(&self) -> Self::Target;

    /// The particles that it was calibrated with.
    spec fn particles_of(&self) -> LsvParticleConfig<R>;

    /// The surface of one-factor parameters that a target, a residual equity at first and
    /// particles give.
    spec fn calibration_one(
        &self,
        target: Self::Target,
        factor: Bergomi1Factor<R>,
        initial: R,
        particles: LsvParticleConfig<R>,
    ) -> Result<Self::Surface, MonteCarloError>;

    /// The surface of two-factor parameters that a target, a residual equity at first and
    /// particles give.
    spec fn calibration_two(
        &self,
        target: Self::Target,
        factor: Bergomi2Factor<R>,
        initial: R,
        particles: LsvParticleConfig<R>,
    ) -> Result<Self::Surface, MonteCarloError>;

    /// A path with a one-factor kernel and a surface.
    spec fn attached_one(
        &self,
        path: Self::Path,
        factor: Bergomi1Factor<R>,
        dividend_volatility_correlation: R,
        surface: Self::Surface,
    ) -> Result<Self::Path, MonteCarloError>;

    /// A path with a two-factor kernel and a surface.
    spec fn attached_two(
        &self,
        path: Self::Path,
        factor: Bergomi2Factor<R>,
        dividend_volatility_correlations: Pair<R>,
        surface: Self::Surface,
    ) -> Result<Self::Path, MonteCarloError>;

    /// A path with a rough kernel and a surface.
    spec fn attached_rough(
        &self,
        path: Self::Path,
        factor: RoughBergomi<R>,
        dividend_volatility_correlation: R,
        surface: Self::Surface,
    ) -> Result<Self::Path, MonteCarloError>;

    /// The grid of some times that ends at one of them.
    spec fn grid_of(&self, times: Seq<R>, last: R) -> Result<Seq<R>, MonteCarloError>;

    /// The path of a dividend model and a constant volatility on a grid, in the market of
    /// the plan.
    spec fn base_of(&self, model: BuehlerDividendModel<R>, volatility: R, grid: Seq<R>) -> Result<
        Self::Path,
        MonteCarloError,
    >;

    /// The times of the nodes of a path.
    spec fn times_of(&self, path: Self::Path) -> Seq<R>;

    /// The residual equity that a path starts from.
    spec fn risky_spot_of(&self, path: Self::Path) -> R;

    /// The dimension of a draw of a path.
    spec fn dimension_of(&self, path: Self::Path) -> u32;

    /// The number of nodes of a path.
    spec fn nodes_of(&self, path: Self::Path) -> usize;

    /// The states of a path under shocks.
    spec fn evolution(&self, path: Self::Path, shocks: Seq<R>) -> Result<
        Seq<Self::State>,
        MonteCarloError,
    >;

    /// The spots of a node in a state.
    spec fn spots_of(&self, path: Self::Path, node: usize, state: Self::State) -> Result<
        Self::Spot,
        MonteCarloError,
    >;

    /// The discounted payoff of the spots of a path.
    spec fn payoff_of(&self, path: Self::Path, spots: Seq<Self::Spot>) -> Result<
        R,
        MonteCarloError,
    >;

    fn is_one_factor(&self, factor: &Bergomi1Factor<R>) -> (b: bool)
        ensures
            b == self.one_factor_valid(*factor),
    ;

    fn is_two_factor(&self, factor: &Bergomi2Factor<R>) -> (b: bool)
        ensures
            b == self.two_factor_valid(*factor),
    ;

    fn is_dividend_model(&self, model: &BuehlerDividendModel<R>) -> (b: bool)
        ensures
            b == self.dividend_valid(*model),
    ;

    fn surface(&self) -> (s: &Self::Surface)
        ensures
            *s == self.surface_of(),
    ;

    fn target(&self) -> (t: &Self::Target)
        ensures
            *t == self.target_of(),
    ;

    fn particles(&self) -> (p: LsvParticleConfig<R>)
        ensures
            p == self.particles_of(),
    ;

    fn calibrate_one(
        &self,
        target: &Self::Target,
        factor: &Bergomi1Factor<R>,
        initial: R,
        particles: LsvParticleConfig<R>,
    ) -> (r: Result<Self::Surface, MonteCarloError>)
        ensures
            r == self.calibration_one(*target, *factor, initial, particles),
    ;

    fn calibrate_two(
        &self,
        target: &Self::Target,
        factor: &Bergomi2Factor<R>,
        initial: R,
        particles: LsvParticleConfig<R>,
    ) -> (r: Result<Self::Surface, MonteCarloError>)
        ensures
            r == self.calibration_two(*target, *factor, initial, particles),
    ;

    fn attach_one(
        &self,
        path: &Self::Path,
        factor: &Bergomi1Factor<R>,
        dividend_volatility_correlation: R,
        surface: &Self::Surface,
    ) -> (r: Result<Self::Path, MonteCarloError>)
        ensures
            r == self.attached_one(*path, *factor, dividend_volatility_correlation, *surface),
    ;

    fn attach_two(
        &self,
        path: &Self::Path,
        factor: &Bergomi2Factor<R>,
        dividend_volatility_correlations: Pair<R>,
        surface: &Self::Surface,
    ) -> (r: Result<Self::Path, MonteCarloError>)
        ensures
            r == self.attached_two(*path, *factor, dividend_volatility_correlations, *surface),
    ;

    fn attach_rough(
        &self,
        path: &Self::Path,
        factor: &RoughBergomi<R>,
        dividend_volatility_correlation: R,
        surface: &Self::Surface,
    ) -> (r: Result<Self::Path, MonteCarloError>)
        ensures
            r == self.attached_rough(*path, *factor, dividend_volatility_correlation, *surface),
    ;

    fn compile_grid(&self, times: &Vec<R>, last: R) -> (r: Result<Vec<R>, MonteCarloError>)
        ensures
            seen(r) == self.grid_of(times@, last),
    ;

    fn compile_base(&self, model: &BuehlerDividendModel<R>, volatility: R, grid: &Vec<R>) -> (
        r: Result<Self::Path, MonteCarloError>
    )
        ensures
            r == self.base_of(*model, volatility, grid@),
    ;

    fn times(&self, path: &Self::Path) -> (t: Vec<R>)
        ensures
            t@ == self.times_of(*path),
            t@.len() > 0,
    ;

    fn risky_spot(&self, path: &Self::Path) -> (x: R)
        ensures
            x == self.risky_spot_of(*path),
    ;

    fn random_dimension(&self, path: &Self::Path) -> (d: u32)
        ensures
            d == self.dimension_of(*path),
    ;

    fn node_count(&self, path: &Self::Path) -> (n: usize)
        ensures
            n == self.nodes_of(*path),
    ;

    fn evolve_path(&self, path: &Self::Path, shocks: &Vec<R>) -> (r: Result<
        Vec<Self::State>,
        MonteCarloError,
    >)
        ensures
            seen(r) == self.evolution(*path, shocks@),
    ;

    fn spots(&self, path: &Self::Path, node: usize, state: &Self::State) -> (r: Result<
        Self::Spot,
        MonteCarloError,
    >)
        ensures
            r == self.spots_of(*path, node, *state),
    ;

    fn payoff(&self, path: &Self::Path, spots: &Vec<Self::Spot>) -> (r: Result<R, MonteCarloError>)
        ensures
            r == self.payoff_of(*path, spots@),
    ;
}

/// The spots of a path, node by node.
pub open spec fn node_spots<R: Scalar, W: World<R>>(
    w: W,
    path: W::Path,
    states: Seq<W::State>,
) -> spec_fn(int) -> Result<W::Spot, MonteCarloError> {
    |i: int| w.spots_of(path, i as usize, states[i])
}

/// The nodes that have a state.
pub open spec fn paired_nodes(nodes: nat, states: nat) -> nat {
    if nodes <= states {
        nodes
    } else {
        states
    }
}

/// The discounted payoff of a path under shocks: evolve it, read the spots of
/// its nodes, pay off. The first step that fails is the failure.
pub open spec fn path_value<R: Scalar, W: World<R>>(
    w: W,
    path: W::Path,
    shocks: Seq<R>,
) -> Result<R, MonteCarloError> {
    match w.evolution(path, shocks) {
        Err(e) => Err(e),
        Ok(states) => match gather(
            paired_nodes(w.nodes_of(path) as nat, states.len()),
            node_spots(w, path, states),
        ) {
            Err(e) => Err(e),
            Ok(spots) => w.payoff_of(path, spots),
        },
    }
}

/// Reads the spots of the nodes of an evolved path.
pub fn path_spots<R: Scalar, W: World<R>>(w: &W, path: &W::Path, states: &Vec<W::State>) -> (r:
    Result<Vec<W::Spot>, MonteCarloError>)
    ensures
        seen(r) == gather(
            paired_nodes(w.nodes_of(*path) as nat, states@.len()),
            node_spots(*w, *path, states@),
        ),
{
    let nodes = w.node_count(path);
    let count: usize = if nodes <= states.len() {
        nodes
    } else {
        states.len()
    };
    let ghost f = node_spots(*w, *path, states@);
    let mut spots: Vec<W::Spot> = Vec::new();
    let mut i: usize = 0;
    while i < count
        invariant
            i <= count,
            count <= states@.len(),
            count == paired_nodes(w.nodes_of(*path) as nat, states@.len()),
            f == node_spots(*w, *path, states@),
            gather(i as nat, f) == Ok::<Seq<W::Spot>, MonteCarloError>(spots@),
        decreases count - i,
    {
        let spot = w.spots(path, i, &states[i]);
        assert(spot == f(i as int));
        match spot {
            Err(e) => {
                proof {
                    assert(gather((i + 1) as nat, f) == Err::<Seq<W::Spot>, MonteCarloError>(e));
                    gather_stops((i + 1) as nat, count as nat, f);
                }
                return Err(e);
            },
            Ok(s) => {
                spots.push(s);
            },
        }
        i = i + 1;
    }
    Ok(spots)
}

/// Evaluates the discounted payoff of a path under shocks.
pub fn discounted_payoff<R: Scalar, W: World<R>>(w: &W, path: &W::Path, shocks: &Vec<R>) -> (r:
    Result<R, MonteCarloError>)
    ensures
        r == path_value(*w, *path, shocks@),
{
    let states = match w.evolve_path(path, shocks) {
        Err(e) => return Err(e),
        Ok(states) => states,
    };
    match path_spots(w, path, &states) {
        Err(e) => Err(e),
        Ok(spots) => w.payoff(path, &spots),
    }
}

/// A path with the surface recalibrated to one-factor parameters: to the target and with
/// the particles of the plan, from the residual equity of the path.
pub open spec fn recalibrated_one<R: Scalar, W: World<R>>(
    w: W,
    path: W::Path,
    factor: Bergomi1Factor<R>,
    correlation: R,
) -> Result<W::Path, MonteCarloError> {
    match w.calibration_one(w.target_of(), factor, w.risky_spot_of(path), w.particles_of()) {
        Err(e) => Err(e),
        Ok(surface) => w.attached_one(path, factor, correlation, surface),
    }
}

/// A path with the surface recalibrated to two-factor parameters: to the target and with
/// the particles of the plan, from the residual equity of the path.
pub open spec fn recalibrated_two<R: Scalar, W: World<R>>(
    w: W,
    path: W::Path,
    factor: Bergomi2Factor<R>,
    correlations: Pair<R>,
) -> Result<W::Path, MonteCarloError> {
    match w.calibration_two(w.target_of(), factor, w.risky_spot_of(path), w.particles_of()) {
        Err(e) => Err(e),
        Ok(surface) => w.attached_two(path, factor, correlations, surface),
    }
}

/// Recalibrates the surface to one-factor parameters and attaches it.
pub fn recalibrated_one_factor_scenario<R: Scalar, W: World<R>>(
    w: &W,
    path: &W::Path,
    factor: &Bergomi1Factor<R>,
    correlation: R,
) -> (r: Result<W::Path, MonteCarloError>)
    ensures
        r == recalibrated_one(*w, *path, *factor, correlation),
{
    match w.calibrate_one(w.target(), factor, w.risky_spot(path), w.particles()) {
        Err(e) => Err(e),
        Ok(surface) => w.attach_one(path, factor, correlation, &surface),
    }
}

/// Recalibrates the surface to two-factor parameters and attaches it.
pub fn recalibrated_two_factor_scenario<R: Scalar, W: World<R>>(
    w: &W,
    path: &W::Path,
    factor: &Bergomi2Factor<R>,
    correlations: Pair<R>,
) -> (r: Result<W::Path, MonteCarloError>)
    ensures
        r == recalibrated_two(*w, *path, *factor, correlations),
{
    match w.calibrate_two(w.target(), factor, w.risky_spot(path), w.particles()) {
        Err(e) => Err(e),
        Ok(surface) => w.attach_two(path, factor, correlations, &surface),
    }
}

/// A path with the factors and the correlations of a calibration, and with the surface
/// that the plan was calibrated to.
pub open spec fn with_calibration<R: Scalar, W: World<R>>(
    w: W,
    base: W::Path,
    calibration: LsvCalibration<R>,
) -> Result<W::Path, MonteCarloError> {
    match calibration {
        LsvCalibration::One { factor, dividend_volatility_correlation } => w.attached_one(
            base,
            factor,
            dividend_volatility_correlation,
            w.surface_of(),
        ),
        LsvCalibration::Two { factor, dividend_volatility_correlations } => w.attached_two(
            base,
            factor,
            dividend_volatility_correlations,
            w.surface_of(),
        ),
        LsvCalibration::Rough { factor, dividend_volatility_correlation } => w.attached_rough(
            base,
            factor,
            dividend_volatility_correlation,
            w.surface_of(),
        ),
    }
}

fn attach_calibration<R: Scalar, W: World<R>>(
    w: &W,
    base: &W::Path,
    calibration: &LsvCalibration<R>,
) -> (r: Result<W::Path, MonteCarloError>)
    ensures
        r == with_calibration(*w, *base, *calibration),
{
    match calibration {
        LsvCalibration::One { factor, dividend_volatility_correlation } => w.attach_one(
            base,
            factor,
            *dividend_volatility_correlation,
            w.surface(),
        ),
        LsvCalibration::Two { factor, dividend_volatility_correlations } => w.attach_two(
            base,
            factor,
            *dividend_volatility_correlations,
            w.surface(),
        ),
        LsvCalibration::Rough { factor, dividend_volatility_correlation } => w.attach_rough(
            base,
            factor,
            *dividend_volatility_correlation,
            w.surface(),
        ),
    }
}

/// A path under another dividend model: compiled anew at no volatility on a grid of its
/// own times, then with the calibration as it is. Its draws have to have the dimension
/// that they had.
pub open spec fn dividend_scenario<R: Scalar, W: World<R>>(
    w: W,
    path: W::Path,
    calibration: LsvCalibration<R>,
    model: BuehlerDividendModel<R>,
) -> Result<W::Path, MonteCarloError> {
    match w.grid_of(w.times_of(path), w.times_of(path).last()) {
        Err(e) => Err(e),
        Ok(grid) => match w.base_of(model, literal(0), grid) {
            Err(e) => Err(e),
            Ok(base) => match with_calibration(w, base, calibration) {
                Err(e) => Err(e),
                Ok(next) => if w.dimension_of(next) != w.dimension_of(path) {
                    Err(invalid_field("lsv_dividend_model_random_dimension"))
                } else {
                    Ok(next)
                },
            },
        },
    }
}

/// Rebuilds a path under another dividend model.
pub fn fixed_calibration_dividend_model_scenario<R: Scalar, M: Math<R>, W: World<R>>(
    m: &M,
    w: &W,
    path: &W::Path,
    calibration: &LsvCalibration<R>,
    model: &BuehlerDividendModel<R>,
) -> (r: Result<W::Path, MonteCarloError>)
    ensures
        r == dividend_scenario(*w, *path, *calibration, *model),
{
    m.laws();
    let times = w.times(path);
    let grid = match w.compile_grid(&times, times[times.len() - 1]) {
        Err(e) => return Err(e),
        Ok(grid) => grid,
    };
    let base = match w.compile_base(model, R::from(0u32), &grid) {
        Err(e) => return Err(e),
        Ok(base) => base,
    };
    let next = match attach_calibration(w, &base, calibration) {
        Err(e) => return Err(e),
        Ok(next) => next,
    };
    if w.random_dimension(&next) != w.random_dimension(path) {
        return Err(invalid("lsv_dividend_model_random_dimension"));
    }
    Ok(next)
}

/// Whatever the dividend model, the leverage surface, the factors and their correlations
/// are those of the calibration, and the path is on its own times.
pub proof fn dividend_scenarios_keep_the_calibration<R: Scalar, W: World<R>>(
    w: W,
    path: W::Path,
    calibration: LsvCalibration<R>,
    model: BuehlerDividendModel<R>,
)
    ensures
        dividend_scenario(w, path, calibration, model) matches Ok(next) ==> {
            let grid = w.grid_of(w.times_of(path), w.times_of(path).last());
            let base = w.base_of(model, literal(0), grid->Ok_0);
            &&& grid is Ok && base is Ok
            &&& with_calibration(w, base->Ok_0, calibration) == Ok::<W::Path, MonteCarloError>(next)
        },
{
}

} // verus!
