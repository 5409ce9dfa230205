//! The local-volatility paths of a plan, and the payoff of their observations.

use crate::errors::MonteCarloError;
use crate::results::seen;
use crate::scalar::Scalar;
use vstd::prelude::*;

verus! {

/// A contractual observation of a path.
#[derive(Clone, Copy, Debug, PartialEq)]
pub struct Observation<R> {
    /// The node of the path.
    pub node: usize,
    pub post_spot: R,
    pub pre_dividend_spot: Option<R>,
}

/// The payoff of a continuously monitored barrier.
#[derive(Clone, Copy, Debug, PartialEq)]
pub struct BarrierPayoff<R> {
    pub value: R,
    pub terminal_derivative: R,
    pub survival_derivative: R,
}

/// What the bridges of a barrier did along a path.
#[derive(Clone, Copy, Debug, PartialEq)]
pub struct BridgeCounts<R> {
    pub endpoint_hit: R,
    pub dividend_jump_hit: R,
    pub bridge_hit_weight: R,
    pub interval_count: R,
    pub finite_correction_count: R,
    pub zero_variance_count: R,
    pub survival_underflow_count: R,
    pub certain_survival_count: R,
}

/// How the bridges of a barrier decide a hit.
#[derive(Clone, Copy, Debug, PartialEq, Eq, Structural)]
pub enum BridgeShape {
    Exact { endpoint_touched: bool, dividend_jump_touched: bool },
    Smoothed,
}

/// The nodes at the two ends of a bridge.
#[derive(Clone, Copy, Debug, PartialEq, Eq, Structural)]
pub struct Interval {
    pub left: usize,
    pub right: usize,
}

/// The adjoints at the two ends of a bridge.
#[derive(Clone, Copy, Debug, PartialEq)]
pub struct IntervalAdjoint<R> {
    pub left_state: R,
    pub right_state: R,
    pub left_local_variance: R,
    pub right_local_variance: R,
}

/// An amount for a node.
#[derive(Clone, Copy, Debug, PartialEq)]
pub struct Deposit<R> {
    pub node: usize,
    pub amount: R,
}

/// The derivative of a payoff in the observation of an underlying on a date.
#[derive(Clone, Copy, Debug, PartialEq)]
pub struct DatedAdjoint<R> {
    pub underlying: u64,
    pub date: i64,
    pub value: R,
}

/// A date whose spot a payoff reads.
#[derive(Clone, Copy, Debug, PartialEq)]
pub struct FixingDate {
    pub underlying: u64,
    pub date: i64,
}

/// What a payoff reads at a date: the spot, and the one before its dividend, where
/// they are observed.
#[derive(Clone, Copy, Debug, PartialEq)]
pub struct Fixing<R> {
    pub spot: Option<R>,
    pub pre_dividend_spot: Option<R>,
}

/// The cash flow that an exercise policy selects.
#[derive(Clone, Copy, Debug, PartialEq)]
pub struct ExerciseCashflowSelection<R> {
    pub output_index: usize,
    pub discount: R,
}

/// The payoff of a graph of observations.
#[derive(Clone, Debug, PartialEq)]
pub struct GraphPayoff<R> {
    pub value: R,
    pub terminal_adjoints: Vec<DatedAdjoint<R>>,
    pub pre_dividend_adjoints: Vec<DatedAdjoint<R>>,
}

/// What a local-volatility valuation obtains from the paths beneath it.
pub trait LocalVolPaths<R: Scalar> {
    /// An evolved path.
    type State;

    /// The bridges of a barrier along a path.
    type Bridge;

    /// The path of shocks from a spot, with dividend checks where there are dividends.
    spec fn evolution(
        &self,
        checked: bool,
        spot: R,
        shocks: Seq<R>,
        path: u64,
    ) -> Result<Self::State, MonteCarloError>;

    /// The number of states of a path.
    spec fn states_of(&self, state: Self::State) -> usize;

    /// The number of contractual observations.
    spec fn observations_expected(&self) -> usize;

    /// The contractual observations of a path.
    spec fn observations_of(&self, state: Self::State, spot: R) -> Result<
        Seq<Observation<R>>,
        MonteCarloError,
    >;

    /// The bridges of a continuously monitored barrier along a path.
    spec fn barrier_of(&self, state: Self::State, spot: R) -> Result<Self::Bridge, MonteCarloError>;

    /// The weight with which the barrier is not hit.
    spec fn survival_of(&self, bridge: Self::Bridge) -> R;

    /// The payoff of a barrier and its derivatives.
    spec fn barrier_payoff_of(&self, terminal: R, survival: R) -> BarrierPayoff<R>;

    /// What the bridges did.
    spec fn bridge_counts_of(&self, bridge: Self::Bridge) -> BridgeCounts<R>;

    /// Whether the bridges are exact or smoothed, and whether an exact one was touched.
    spec fn shape_of(&self, bridge: Self::Bridge) -> BridgeShape;

    /// The nodes between which the bridges stand.
    spec fn intervals_of(&self, bridge: Self::Bridge) -> Seq<Interval>;

    /// The adjoints of the bridges under a seed of the survival.
    spec fn bridge_adjoints(&self, bridge: Self::Bridge, seed: R) -> Seq<IntervalAdjoint<R>>;

    /// The adjoints of smoothed hits under a seed of the survival.
    spec fn hit_adjoints(&self, bridge: Self::Bridge, seed: R) -> Seq<Deposit<R>>;

    /// State seeds with those of the local variances at the bridge nodes added.
    spec fn variance_states_of(
        &self,
        state: Self::State,
        bridge: Self::Bridge,
        variances: Seq<R>,
        seeds: Seq<R>,
    ) -> Seq<R>;

    /// Grid adjoints with those of the local variances at the bridge nodes added.
    spec fn variance_grid_of(
        &self,
        state: Self::State,
        bridge: Self::Bridge,
        variances: Seq<R>,
        grid: Seq<R>,
    ) -> Seq<R>;

    /// The number of interpolated nodes of the bridges.
    spec fn bridge_nodes_of(&self, bridge: Self::Bridge) -> usize;

    /// The payoff of the fixings, of the selected output where there is one.
    spec fn graph_payoff_of(
        &self,
        output: Option<usize>,
        fixings: Seq<Fixing<R>>,
    ) -> Result<GraphPayoff<R>, MonteCarloError>;

    /// The adjoints of the local variances under state seeds.
    spec fn variance_adjoints_of(
        &self,
        state: Self::State,
        seeds: Seq<R>,
    ) -> Result<Seq<R>, MonteCarloError>;

    /// The vega density of the node adjoints of one maturity.
    spec fn density_of(&self, nodes: Seq<R>) -> Result<Seq<R>, MonteCarloError>;

    /// The bits of a number.
    spec fn bits_of(&self, number: R) -> u64;

    /// The buckets that a density is projected to.
    spec fn projection_of(
        &self,
        row: usize,
        maturity: R,
        density: Seq<R>,
    ) -> Result<Seq<R>, MonteCarloError>;

    /// The cash flow that is selected at a stopping index.
    spec fn selection_of(&self, stopping_index: usize) -> Result<
        ExerciseCashflowSelection<R>,
        MonteCarloError,
    >;

    /// The failure of the paths from another spot, if they cannot be made.
    spec fn runtime_failure_of(&self, spot: R) -> Option<MonteCarloError>;

    /// The shocks of a pseudo-random path.
    spec fn path_shocks_of(
        &self,
        seed: u64,
        path: u64,
        brownian_bridge: bool,
    ) -> Result<Seq<R>, MonteCarloError>;

    /// The discounted payoff of the same shocks from another spot: of the selected
    /// output, at its own discount, where there is one.
    spec fn bumped_payoff_of(
        &self,
        spot: R,
        shocks: Seq<R>,
        path: u64,
        selected: Option<ExerciseCashflowSelection<R>>,
    ) -> Result<R, MonteCarloError>;

    /// Computes [`Self::evolution`].
    fn evolve(
        &self,
        checked: bool,
        spot: R,
        shocks: &Vec<R>,
        path: u64,
    ) -> (r: Result<Self::State, MonteCarloError>)
        ensures
            r == self.evolution(checked, spot, shocks@, path),
    ;

    /// Computes [`Self::states_of`].
    fn state_count(&self, state: &Self::State) -> (r: usize)
        ensures
            r == self.states_of(*state),
    ;

    /// Computes [`Self::observations_expected`].
    fn observation_count(&self) -> (r: usize)
        ensures
            r == self.observations_expected(),
    ;

    /// Computes [`Self::observations_of`].
    fn observe(&self, state: &Self::State, spot: R) -> (
        r: Result<Vec<Observation<R>>, MonteCarloError>
    )
        ensures
            seen(r) == self.observations_of(*state, spot),
            r matches Ok(v) ==> v@.len() == self.observations_expected(),
    ;

    /// Computes [`Self::barrier_of`].
    fn barrier_bridge(&self, state: &Self::State, spot: R) -> (
        r: Result<Self::Bridge, MonteCarloError>
    )
        ensures
            r == self.barrier_of(*state, spot),
    ;

    /// Computes [`Self::survival_of`].
    fn survival(&self, bridge: &Self::Bridge) -> (r: R)
        ensures
            r == self.survival_of(*bridge),
    ;

    /// Computes [`Self::barrier_payoff_of`].
    fn barrier_payoff(&self, terminal: R, survival: R) -> (r: BarrierPayoff<R>)
        ensures
            r == self.barrier_payoff_of(terminal, survival),
    ;

    /// Computes [`Self::bridge_counts_of`].
    fn bridge_counts(&self, bridge: &Self::Bridge) -> (r: BridgeCounts<R>)
        ensures
            r == self.bridge_counts_of(*bridge),
    ;

    /// Computes [`Self::shape_of`].
    fn bridge_shape(&self, bridge: &Self::Bridge) -> (r: BridgeShape)
        ensures
            r == self.shape_of(*bridge),
    ;

    /// Computes [`Self::intervals_of`].
    fn bridge_intervals(&self, bridge: &Self::Bridge) -> (r: Vec<Interval>)
        ensures
            r@ == self.intervals_of(*bridge),
    ;

    /// Computes [`Self::bridge_adjoints`].
    fn bridge_reverse(&self, bridge: &Self::Bridge, seed: R) -> (r: Vec<IntervalAdjoint<R>>)
        ensures
            r@ == self.bridge_adjoints(*bridge, seed),
    ;

    /// Computes [`Self::hit_adjoints`].
    fn hit_reverse(&self, bridge: &Self::Bridge, seed: R) -> (r: Vec<Deposit<R>>)
        ensures
            r@ == self.hit_adjoints(*bridge, seed),
    ;

    /// Computes [`Self::variance_states_of`].
    fn variance_states(
        &self,
        state: &Self::State,
        bridge: &Self::Bridge,
        variances: &Vec<R>,
        seeds: &Vec<R>,
    ) -> (r: Vec<R>)
        ensures
            r@ == self.variance_states_of(*state, *bridge, variances@, seeds@),
    ;

    /// Computes [`Self::variance_grid_of`].
    fn variance_grid(
        &self,
        state: &Self::State,
        bridge: &Self::Bridge,
        variances: &Vec<R>,
        grid: &Vec<R>,
    ) -> (r: Vec<R>)
        ensures
            r@ == self.variance_grid_of(*state, *bridge, variances@, grid@),
    ;

    /// Computes [`Self::bridge_nodes_of`].
    fn bridge_node_count(&self, bridge: &Self::Bridge) -> (r: usize)
        ensures
            r == self.bridge_nodes_of(*bridge),
    ;

    /// Computes [`Self::graph_payoff_of`].
    fn graph_payoff(
        &self,
        output: Option<usize>,
        fixings: &Vec<Fixing<R>>,
    ) -> (r: Result<GraphPayoff<R>, MonteCarloError>)
        ensures
            r == self.graph_payoff_of(output, fixings@),
    ;

    /// Computes [`Self::variance_adjoints_of`].
    fn reverse_states(
        &self,
        state: &Self::State,
        seeds: &Vec<R>,
    ) -> (r: Result<Vec<R>, MonteCarloError>)
        ensures
            seen(r) == self.variance_adjoints_of(*state, seeds@),
    ;

    /// Computes [`Self::density_of`].
    fn density(&self, nodes: &Vec<R>) -> (r: Result<Vec<R>, MonteCarloError>)
        ensures
            seen(r) == self.density_of(nodes@),
    ;

    /// Computes [`Self::bits_of`].
    fn bits(&self, number: R) -> (r: u64)
        ensures
            r == self.bits_of(number),
    ;

    /// Computes [`Self::projection_of`].
    fn projection(
        &self,
        row: usize,
        maturity: R,
        density: &Vec<R>,
    ) -> (r: Result<Vec<R>, MonteCarloError>)
        ensures
            seen(r) == self.projection_of(row, maturity, density@),
    ;

    /// Computes [`Self::selection_of`].
    fn selection(&self, stopping_index: usize) -> (
        r: Result<ExerciseCashflowSelection<R>, MonteCarloError>
    )
        ensures
            r == self.selection_of(stopping_index),
    ;

    /// Computes [`Self::runtime_failure_of`].
    fn runtime_failure(&self, spot: R) -> (r: Option<MonteCarloError>)
        ensures
            r == self.runtime_failure_of(spot),
    ;

    /// Computes [`Self::path_shocks_of`].
    fn path_shocks(
        &self,
        seed: u64,
        path: u64,
        brownian_bridge: bool,
    ) -> (r: Result<Vec<R>, MonteCarloError>)
        ensures
            seen(r) == self.path_shocks_of(seed, path, brownian_bridge),
    ;

    /// Computes [`Self::bumped_payoff_of`].
    fn bumped_payoff(
        &self,
        spot: R,
        shocks: &Vec<R>,
        path: u64,
        selected: Option<ExerciseCashflowSelection<R>>,
    ) -> (r: Result<R, MonteCarloError>)
        ensures
            r == self.bumped_payoff_of(spot, shocks@, path, selected),
    ;
}

/// The functions behind a [`SuppliedLocalVolPaths`], as mathematical functions.
#[verifier::reject_recursive_types(R)]
#[verifier::reject_recursive_types(State)]
#[verifier::reject_recursive_types(Bridge)]
pub ghost struct SuppliedLocalVolPathsModel<R, State, Bridge> {
    pub evolve: spec_fn(bool, R, Seq<R>, u64) -> Result<State, MonteCarloError>,
    pub state_count: spec_fn(State) -> usize,
    pub observation_count: spec_fn() -> usize,
    pub observe: spec_fn(State, R) -> Result<Seq<Observation<R>>, MonteCarloError>,
    pub barrier_bridge: spec_fn(State, R) -> Result<Bridge, MonteCarloError>,
    pub survival: spec_fn(Bridge) -> R,
    pub barrier_payoff: spec_fn(R, R) -> BarrierPayoff<R>,
    pub bridge_counts: spec_fn(Bridge) -> BridgeCounts<R>,
    pub bridge_shape: spec_fn(Bridge) -> BridgeShape,
    pub bridge_intervals: spec_fn(Bridge) -> Seq<Interval>,
    pub bridge_reverse: spec_fn(Bridge, R) -> Seq<IntervalAdjoint<R>>,
    pub hit_reverse: spec_fn(Bridge, R) -> Seq<Deposit<R>>,
    pub variance_states: spec_fn(State, Bridge, Seq<R>, Seq<R>) -> Seq<R>,
    pub variance_grid: spec_fn(State, Bridge, Seq<R>, Seq<R>) -> Seq<R>,
    pub bridge_node_count: spec_fn(Bridge) -> usize,
    pub graph_payoff: spec_fn(
        Option<usize>,
        Seq<Fixing<R>>,
    ) -> Result<GraphPayoff<R>, MonteCarloError>,
    pub reverse_states: spec_fn(State, Seq<R>) -> Result<Seq<R>, MonteCarloError>,
    pub density: spec_fn(Seq<R>) -> Result<Seq<R>, MonteCarloError>,
    pub bits: spec_fn(R) -> u64,
    pub projection: spec_fn(usize, R, Seq<R>) -> Result<Seq<R>, MonteCarloError>,
    pub selection: spec_fn(usize) -> Result<ExerciseCashflowSelection<R>, MonteCarloError>,
    pub runtime_failure: spec_fn(R) -> Option<MonteCarloError>,
    pub path_shocks: spec_fn(u64, u64, bool) -> Result<Seq<R>, MonteCarloError>,
    pub bumped_payoff: spec_fn(
        R,
        Seq<R>,
        u64,
        Option<ExerciseCashflowSelection<R>>,
    ) -> Result<R, MonteCarloError>,
}

/// [`LocalVolPaths`] whose functions are supplied one by one.
#[verifier::reject_recursive_types(R)]
#[verifier::reject_recursive_types(State)]
#[verifier::reject_recursive_types(Bridge)]
pub struct SuppliedLocalVolPaths<
    R: Scalar,
    State,
    Bridge,
    FEvolve: Fn(bool, R, &Vec<R>, u64) -> Result<State, MonteCarloError>,
    FStateCount: Fn(&State) -> usize,
    FObservationCount: Fn() -> usize,
    FObserve: Fn(&State, R) -> Result<Vec<Observation<R>>, MonteCarloError>,
    FBarrierBridge: Fn(&State, R) -> Result<Bridge, MonteCarloError>,
    FSurvival: Fn(&Bridge) -> R,
    FBarrierPayoff: Fn(R, R) -> BarrierPayoff<R>,
    FBridgeCounts: Fn(&Bridge) -> BridgeCounts<R>,
    FBridgeShape: Fn(&Bridge) -> BridgeShape,
    FBridgeIntervals: Fn(&Bridge) -> Vec<Interval>,
    FBridgeReverse: Fn(&Bridge, R) -> Vec<IntervalAdjoint<R>>,
    FHitReverse: Fn(&Bridge, R) -> Vec<Deposit<R>>,
    FVarianceStates: Fn(&State, &Bridge, &Vec<R>, &Vec<R>) -> Vec<R>,
    FVarianceGrid: Fn(&State, &Bridge, &Vec<R>, &Vec<R>) -> Vec<R>,
    FBridgeNodeCount: Fn(&Bridge) -> usize,
    FGraphPayoff: Fn(
        Option<usize>,
        &Vec<Fixing<R>>,
    ) -> Result<GraphPayoff<R>, MonteCarloError>,
    FReverseStates: Fn(&State, &Vec<R>) -> Result<Vec<R>, MonteCarloError>,
    FDensity: Fn(&Vec<R>) -> Result<Vec<R>, MonteCarloError>,
    FBits: Fn(R) -> u64,
    FProjection: Fn(usize, R, &Vec<R>) -> Result<Vec<R>, MonteCarloError>,
    FSelection: Fn(usize) -> Result<ExerciseCashflowSelection<R>, MonteCarloError>,
    FRuntimeFailure: Fn(R) -> Option<MonteCarloError>,
    FPathShocks: Fn(u64, u64, bool) -> Result<Vec<R>, MonteCarloError>,
    FBumpedPayoff: Fn(
        R,
        &Vec<R>,
        u64,
        Option<ExerciseCashflowSelection<R>>,
    ) -> Result<R, MonteCarloError>,
> {
    evolve: FEvolve,
    state_count: FStateCount,
    observation_count: FObservationCount,
    observe: FObserve,
    barrier_bridge: FBarrierBridge,
    survival: FSurvival,
    barrier_payoff: FBarrierPayoff,
    bridge_counts: FBridgeCounts,
    bridge_shape: FBridgeShape,
    bridge_intervals: FBridgeIntervals,
    bridge_reverse: FBridgeReverse,
    hit_reverse: FHitReverse,
    variance_states: FVarianceStates,
    variance_grid: FVarianceGrid,
    bridge_node_count: FBridgeNodeCount,
    graph_payoff: FGraphPayoff,
    reverse_states: FReverseStates,
    density: FDensity,
    bits: FBits,
    projection: FProjection,
    selection: FSelection,
    runtime_failure: FRuntimeFailure,
    path_shocks: FPathShocks,
    bumped_payoff: FBumpedPayoff,
    model: Ghost<SuppliedLocalVolPathsModel<R, State, Bridge>>,
}

impl<
    R: Scalar,
    State,
    Bridge,
    FEvolve: Fn(bool, R, &Vec<R>, u64) -> Result<State, MonteCarloError>,
    FStateCount: Fn(&State) -> usize,
    FObservationCount: Fn() -> usize,
    FObserve: Fn(&State, R) -> Result<Vec<Observation<R>>, MonteCarloError>,
    FBarrierBridge: Fn(&State, R) -> Result<Bridge, MonteCarloError>,
    FSurvival: Fn(&Bridge) -> R,
    FBarrierPayoff: Fn(R, R) -> BarrierPayoff<R>,
    FBridgeCounts: Fn(&Bridge) -> BridgeCounts<R>,
    FBridgeShape: Fn(&Bridge) -> BridgeShape,
    FBridgeIntervals: Fn(&Bridge) -> Vec<Interval>,
    FBridgeReverse: Fn(&Bridge, R) -> Vec<IntervalAdjoint<R>>,
    FHitReverse: Fn(&Bridge, R) -> Vec<Deposit<R>>,
    FVarianceStates: Fn(&State, &Bridge, &Vec<R>, &Vec<R>) -> Vec<R>,
    FVarianceGrid: Fn(&State, &Bridge, &Vec<R>, &Vec<R>) -> Vec<R>,
    FBridgeNodeCount: Fn(&Bridge) -> usize,
    FGraphPayoff: Fn(
        Option<usize>,
        &Vec<Fixing<R>>,
    ) -> Result<GraphPayoff<R>, MonteCarloError>,
    FReverseStates: Fn(&State, &Vec<R>) -> Result<Vec<R>, MonteCarloError>,
    FDensity: Fn(&Vec<R>) -> Result<Vec<R>, MonteCarloError>,
    FBits: Fn(R) -> u64,
    FProjection: Fn(usize, R, &Vec<R>) -> Result<Vec<R>, MonteCarloError>,
    FSelection: Fn(usize) -> Result<ExerciseCashflowSelection<R>, MonteCarloError>,
    FRuntimeFailure: Fn(R) -> Option<MonteCarloError>,
    FPathShocks: Fn(u64, u64, bool) -> Result<Vec<R>, MonteCarloError>,
    FBumpedPayoff: Fn(
        R,
        &Vec<R>,
        u64,
        Option<ExerciseCashflowSelection<R>>,
    ) -> Result<R, MonteCarloError>,
> SuppliedLocalVolPaths<
    R,
    State,
    Bridge,
    FEvolve,
    FStateCount,
    FObservationCount,
    FObserve,
    FBarrierBridge,
    FSurvival,
    FBarrierPayoff,
    FBridgeCounts,
    FBridgeShape,
    FBridgeIntervals,
    FBridgeReverse,
    FHitReverse,
    FVarianceStates,
    FVarianceGrid,
    FBridgeNodeCount,
    FGraphPayoff,
    FReverseStates,
    FDensity,
    FBits,
    FProjection,
    FSelection,
    FRuntimeFailure,
    FPathShocks,
    FBumpedPayoff,
> {
    #[verifier::type_invariant]
    closed spec fn inv(self) -> bool {
        Self::callable(
            self.evolve,
            self.state_count,
            self.observation_count,
            self.observe,
            self.barrier_bridge,
            self.survival,
            self.barrier_payoff,
            self.bridge_counts,
            self.bridge_shape,
            self.bridge_intervals,
            self.bridge_reverse,
            self.hit_reverse,
            self.variance_states,
            self.variance_grid,
            self.bridge_node_count,
            self.graph_payoff,
            self.reverse_states,
            self.density,
            self.bits,
            self.projection,
            self.selection,
            self.runtime_failure,
            self.path_shocks,
            self.bumped_payoff,
        )
            && Self::computes(
                self.evolve,
                self.state_count,
                self.observation_count,
                self.observe,
                self.barrier_bridge,
                self.survival,
                self.barrier_payoff,
                self.bridge_counts,
                self.bridge_shape,
                self.bridge_intervals,
                self.bridge_reverse,
                self.hit_reverse,
                self.variance_states,
                self.variance_grid,
                self.bridge_node_count,
                self.graph_payoff,
                self.reverse_states,
                self.density,
                self.bits,
                self.projection,
                self.selection,
                self.runtime_failure,
                self.path_shocks,
                self.bumped_payoff,
                self.model@,
            )
    }

    /// The functions accept every argument.
    pub open spec fn callable(
        evolve: FEvolve,
        state_count: FStateCount,
        observation_count: FObservationCount,
        observe: FObserve,
        barrier_bridge: FBarrierBridge,
        survival: FSurvival,
        barrier_payoff: FBarrierPayoff,
        bridge_counts: FBridgeCounts,
        bridge_shape: FBridgeShape,
        bridge_intervals: FBridgeIntervals,
        bridge_reverse: FBridgeReverse,
        hit_reverse: FHitReverse,
        variance_states: FVarianceStates,
        variance_grid: FVarianceGrid,
        bridge_node_count: FBridgeNodeCount,
        graph_payoff: FGraphPayoff,
        reverse_states: FReverseStates,
        density: FDensity,
        bits: FBits,
        projection: FProjection,
        selection: FSelection,
        runtime_failure: FRuntimeFailure,
        path_shocks: FPathShocks,
        bumped_payoff: FBumpedPayoff,
    ) -> bool {
        &&& forall|checked: bool, spot: R, shocks: &Vec<R>, path: u64| #[trigger] call_requires(
            evolve,
            (checked, spot, shocks, path),
        )
        &&& forall|state: &State| #[trigger] call_requires(state_count, (state,))
        &&& call_requires(observation_count, ())
        &&& forall|state: &State, spot: R| #[trigger] call_requires(observe, (state, spot))
        &&& forall|state: &State, spot: R| #[trigger] call_requires(barrier_bridge, (state, spot))
        &&& forall|bridge: &Bridge| #[trigger] call_requires(survival, (bridge,))
        &&& forall|terminal: R, survival: R| #[trigger] call_requires(
            barrier_payoff,
            (terminal, survival),
        )
        &&& forall|bridge: &Bridge| #[trigger] call_requires(bridge_counts, (bridge,))
        &&& forall|bridge: &Bridge| #[trigger] call_requires(bridge_shape, (bridge,))
        &&& forall|bridge: &Bridge| #[trigger] call_requires(bridge_intervals, (bridge,))
        &&& forall|bridge: &Bridge, seed: R| #[trigger] call_requires(
            bridge_reverse,
            (bridge, seed),
        )
        &&& forall|bridge: &Bridge, seed: R| #[trigger] call_requires(hit_reverse, (bridge, seed))
        &&& forall|state: &State, bridge: &Bridge, variances: &Vec<R>, seeds: &Vec<R>|
            #[trigger] call_requires(
                variance_states,
                (state, bridge, variances, seeds),
            )
        &&& forall|state: &State, bridge: &Bridge, variances: &Vec<R>, grid: &Vec<R>|
            #[trigger] call_requires(
                variance_grid,
                (state, bridge, variances, grid),
            )
        &&& forall|bridge: &Bridge| #[trigger] call_requires(bridge_node_count, (bridge,))
        &&& forall|output: Option<usize>, fixings: &Vec<Fixing<R>>|
            #[trigger] call_requires(
                graph_payoff,
                (output, fixings),
            )
        &&& forall|state: &State, seeds: &Vec<R>| #[trigger] call_requires(
            reverse_states,
            (state, seeds),
        )
        &&& forall|nodes: &Vec<R>| #[trigger] call_requires(density, (nodes,))
        &&& forall|number: R| #[trigger] call_requires(bits, (number,))
        &&& forall|row: usize, maturity: R, density: &Vec<R>| #[trigger] call_requires(
            projection,
            (row, maturity, density),
        )
        &&& forall|stopping_index: usize| #[trigger] call_requires(selection, (stopping_index,))
        &&& forall|spot: R| #[trigger] call_requires(runtime_failure, (spot,))
        &&& forall|seed: u64, path: u64, brownian_bridge: bool| #[trigger] call_requires(
            path_shocks,
            (seed, path, brownian_bridge),
        )
        &&& forall|
            spot: R,
            shocks: &Vec<R>,
            path: u64,
            selected: Option<ExerciseCashflowSelection<R>>,
        |
            #[trigger] call_requires(
                bumped_payoff,
                (spot, shocks, path, selected),
            )
    }

    /// The functions compute those of the model.
    pub open spec fn computes(
        evolve: FEvolve,
        state_count: FStateCount,
        observation_count: FObservationCount,
        observe: FObserve,
        barrier_bridge: FBarrierBridge,
        survival: FSurvival,
        barrier_payoff: FBarrierPayoff,
        bridge_counts: FBridgeCounts,
        bridge_shape: FBridgeShape,
        bridge_intervals: FBridgeIntervals,
        bridge_reverse: FBridgeReverse,
        hit_reverse: FHitReverse,
        variance_states: FVarianceStates,
        variance_grid: FVarianceGrid,
        bridge_node_count: FBridgeNodeCount,
        graph_payoff: FGraphPayoff,
        reverse_states: FReverseStates,
        density: FDensity,
        bits: FBits,
        projection: FProjection,
        selection: FSelection,
        runtime_failure: FRuntimeFailure,
        path_shocks: FPathShocks,
        bumped_payoff: FBumpedPayoff,
        model: SuppliedLocalVolPathsModel<R, State, Bridge>,
    ) -> bool {
        &&& forall|
            checked: bool,
            spot: R,
            shocks: &Vec<R>,
            path: u64,
            result: Result<State, MonteCarloError>,
        |
            #[trigger]
            call_ensures(
                evolve,
                (checked, spot, shocks, path),
                result,
            ) ==> result == (model.evolve)(checked, spot, shocks@, path)
        &&& forall|state: &State, result: usize| #[trigger]
            call_ensures(state_count, (state,), result) ==> result == (model.state_count)(*state)
        &&& forall|result: usize| #[trigger]
            call_ensures(observation_count, (), result) ==> result == (model.observation_count)()
        &&& forall|state: &State, spot: R, result: Result<Vec<Observation<R>>, MonteCarloError>|
            #[trigger]
            call_ensures(observe, (state, spot), result)
                ==> seen(result) == (model.observe)(*state, spot) && (
                result matches Ok(v) ==> v@.len() == (model.observation_count)()
            )
        &&& forall|state: &State, spot: R, result: Result<Bridge, MonteCarloError>| #[trigger]
            call_ensures(
                barrier_bridge,
                (state, spot),
                result,
            ) ==> result == (model.barrier_bridge)(*state, spot)
        &&& forall|bridge: &Bridge, result: R| #[trigger]
            call_ensures(survival, (bridge,), result) ==> result == (model.survival)(*bridge)
        &&& forall|terminal: R, survival: R, result: BarrierPayoff<R>| #[trigger]
            call_ensures(
                barrier_payoff,
                (terminal, survival),
                result,
            ) ==> result == (model.barrier_payoff)(terminal, survival)
        &&& forall|bridge: &Bridge, result: BridgeCounts<R>| #[trigger]
            call_ensures(
                bridge_counts,
                (bridge,),
                result,
            ) ==> result == (model.bridge_counts)(*bridge)
        &&& forall|bridge: &Bridge, result: BridgeShape| #[trigger]
            call_ensures(
                bridge_shape,
                (bridge,),
                result,
            ) ==> result == (model.bridge_shape)(*bridge)
        &&& forall|bridge: &Bridge, result: Vec<Interval>| #[trigger]
            call_ensures(
                bridge_intervals,
                (bridge,),
                result,
            ) ==> result@ == (model.bridge_intervals)(*bridge)
        &&& forall|bridge: &Bridge, seed: R, result: Vec<IntervalAdjoint<R>>| #[trigger]
            call_ensures(
                bridge_reverse,
                (bridge, seed),
                result,
            ) ==> result@ == (model.bridge_reverse)(*bridge, seed)
        &&& forall|bridge: &Bridge, seed: R, result: Vec<Deposit<R>>| #[trigger]
            call_ensures(
                hit_reverse,
                (bridge, seed),
                result,
            ) ==> result@ == (model.hit_reverse)(*bridge, seed)
        &&& forall|
            state: &State,
            bridge: &Bridge,
            variances: &Vec<R>,
            seeds: &Vec<R>,
            result: Vec<R>,
        |
            #[trigger]
            call_ensures(
                variance_states,
                (state, bridge, variances, seeds),
                result,
            ) ==> result@ == (model.variance_states)(*state, *bridge, variances@, seeds@)
        &&& forall|
            state: &State,
            bridge: &Bridge,
            variances: &Vec<R>,
            grid: &Vec<R>,
            result: Vec<R>,
        |
            #[trigger]
            call_ensures(
                variance_grid,
                (state, bridge, variances, grid),
                result,
            ) ==> result@ == (model.variance_grid)(*state, *bridge, variances@, grid@)
        &&& forall|bridge: &Bridge, result: usize| #[trigger]
            call_ensures(
                bridge_node_count,
                (bridge,),
                result,
            ) ==> result == (model.bridge_node_count)(*bridge)
        &&& forall|
            output: Option<usize>,
            fixings: &Vec<Fixing<R>>,
            result: Result<GraphPayoff<R>, MonteCarloError>,
        |
            #[trigger]
            call_ensures(
                graph_payoff,
                (output, fixings),
                result,
            ) ==> result == (model.graph_payoff)(output, fixings@)
        &&& forall|state: &State, seeds: &Vec<R>, result: Result<Vec<R>, MonteCarloError>|
            #[trigger]
            call_ensures(
                reverse_states,
                (state, seeds),
                result,
            ) ==> seen(result) == (model.reverse_states)(*state, seeds@)
        &&& forall|nodes: &Vec<R>, result: Result<Vec<R>, MonteCarloError>| #[trigger]
            call_ensures(density, (nodes,), result) ==> seen(result) == (model.density)(nodes@)
        &&& forall|number: R, result: u64| #[trigger]
            call_ensures(bits, (number,), result) ==> result == (model.bits)(number)
        &&& forall|
            row: usize,
            maturity: R,
            density: &Vec<R>,
            result: Result<Vec<R>, MonteCarloError>,
        |
            #[trigger]
            call_ensures(
                projection,
                (row, maturity, density),
                result,
            ) ==> seen(result) == (model.projection)(row, maturity, density@)
        &&& forall|
            stopping_index: usize,
            result: Result<ExerciseCashflowSelection<R>, MonteCarloError>,
        |
            #[trigger]
            call_ensures(
                selection,
                (stopping_index,),
                result,
            ) ==> result == (model.selection)(stopping_index)
        &&& forall|spot: R, result: Option<MonteCarloError>| #[trigger]
            call_ensures(
                runtime_failure,
                (spot,),
                result,
            ) ==> result == (model.runtime_failure)(spot)
        &&& forall|
            seed: u64,
            path: u64,
            brownian_bridge: bool,
            result: Result<Vec<R>, MonteCarloError>,
        |
            #[trigger]
            call_ensures(
                path_shocks,
                (seed, path, brownian_bridge),
                result,
            ) ==> seen(result) == (model.path_shocks)(seed, path, brownian_bridge)
        &&& forall|
            spot: R,
            shocks: &Vec<R>,
            path: u64,
            selected: Option<ExerciseCashflowSelection<R>>,
            result: Result<R, MonteCarloError>,
        |
            #[trigger]
            call_ensures(
                bumped_payoff,
                (spot, shocks, path, selected),
                result,
            ) ==> result == (model.bumped_payoff)(spot, shocks@, path, selected)
    }

    /// The functions that were supplied.
    pub closed spec fn supplied(self) -> SuppliedLocalVolPathsModel<R, State, Bridge> {
        self.model@
    }

    /// Takes functions that give the same result whenever they are given the
    /// same arguments.
    pub fn new(
        evolve: FEvolve,
        state_count: FStateCount,
        observation_count: FObservationCount,
        observe: FObserve,
        barrier_bridge: FBarrierBridge,
        survival: FSurvival,
        barrier_payoff: FBarrierPayoff,
        bridge_counts: FBridgeCounts,
        bridge_shape: FBridgeShape,
        bridge_intervals: FBridgeIntervals,
        bridge_reverse: FBridgeReverse,
        hit_reverse: FHitReverse,
        variance_states: FVarianceStates,
        variance_grid: FVarianceGrid,
        bridge_node_count: FBridgeNodeCount,
        graph_payoff: FGraphPayoff,
        reverse_states: FReverseStates,
        density: FDensity,
        bits: FBits,
        projection: FProjection,
        selection: FSelection,
        runtime_failure: FRuntimeFailure,
        path_shocks: FPathShocks,
        bumped_payoff: FBumpedPayoff,
    ) -> (s: Self)
        requires
            Self::callable(
                evolve,
                state_count,
                observation_count,
                observe,
                barrier_bridge,
                survival,
                barrier_payoff,
                bridge_counts,
                bridge_shape,
                bridge_intervals,
                bridge_reverse,
                hit_reverse,
                variance_states,
                variance_grid,
                bridge_node_count,
                graph_payoff,
                reverse_states,
                density,
                bits,
                projection,
                selection,
                runtime_failure,
                path_shocks,
                bumped_payoff,
            ),
            exists|model: SuppliedLocalVolPathsModel<R, State, Bridge>| #[trigger] Self::computes(
                evolve,
                state_count,
                observation_count,
                observe,
                barrier_bridge,
                survival,
                barrier_payoff,
                bridge_counts,
                bridge_shape,
                bridge_intervals,
                bridge_reverse,
                hit_reverse,
                variance_states,
                variance_grid,
                bridge_node_count,
                graph_payoff,
                reverse_states,
                density,
                bits,
                projection,
                selection,
                runtime_failure,
                path_shocks,
                bumped_payoff,
                model,
            ),
        ensures
            Self::computes(
                evolve,
                state_count,
                observation_count,
                observe,
                barrier_bridge,
                survival,
                barrier_payoff,
                bridge_counts,
                bridge_shape,
                bridge_intervals,
                bridge_reverse,
                hit_reverse,
                variance_states,
                variance_grid,
                bridge_node_count,
                graph_payoff,
                reverse_states,
                density,
                bits,
                projection,
                selection,
                runtime_failure,
                path_shocks,
                bumped_payoff,
                s.supplied(),
            ),
    {
        let ghost model = choose|model: SuppliedLocalVolPathsModel<R, State, Bridge>| #[trigger]
            Self::computes(
            evolve,
            state_count,
            observation_count,
            observe,
            barrier_bridge,
            survival,
            barrier_payoff,
            bridge_counts,
            bridge_shape,
            bridge_intervals,
            bridge_reverse,
            hit_reverse,
            variance_states,
            variance_grid,
            bridge_node_count,
            graph_payoff,
            reverse_states,
            density,
            bits,
            projection,
            selection,
            runtime_failure,
            path_shocks,
            bumped_payoff,
            model,
        );
        SuppliedLocalVolPaths {
            evolve,
            state_count,
            observation_count,
            observe,
            barrier_bridge,
            survival,
            barrier_payoff,
            bridge_counts,
            bridge_shape,
            bridge_intervals,
            bridge_reverse,
            hit_reverse,
            variance_states,
            variance_grid,
            bridge_node_count,
            graph_payoff,
            reverse_states,
            density,
            bits,
            projection,
            selection,
            runtime_failure,
            path_shocks,
            bumped_payoff,
            model: Ghost(model),
        }
    }

    /// Takes functions that are known to compute `model`.
    pub fn with_model(
        evolve: FEvolve,
        state_count: FStateCount,
        observation_count: FObservationCount,
        observe: FObserve,
        barrier_bridge: FBarrierBridge,
        survival: FSurvival,
        barrier_payoff: FBarrierPayoff,
        bridge_counts: FBridgeCounts,
        bridge_shape: FBridgeShape,
        bridge_intervals: FBridgeIntervals,
        bridge_reverse: FBridgeReverse,
        hit_reverse: FHitReverse,
        variance_states: FVarianceStates,
        variance_grid: FVarianceGrid,
        bridge_node_count: FBridgeNodeCount,
        graph_payoff: FGraphPayoff,
        reverse_states: FReverseStates,
        density: FDensity,
        bits: FBits,
        projection: FProjection,
        selection: FSelection,
        runtime_failure: FRuntimeFailure,
        path_shocks: FPathShocks,
        bumped_payoff: FBumpedPayoff,
        model: Ghost<SuppliedLocalVolPathsModel<R, State, Bridge>>,
    ) -> (s: Self)
        requires
            Self::callable(
                evolve,
                state_count,
                observation_count,
                observe,
                barrier_bridge,
                survival,
                barrier_payoff,
                bridge_counts,
                bridge_shape,
                bridge_intervals,
                bridge_reverse,
                hit_reverse,
                variance_states,
                variance_grid,
                bridge_node_count,
                graph_payoff,
                reverse_states,
                density,
                bits,
                projection,
                selection,
                runtime_failure,
                path_shocks,
                bumped_payoff,
            ),
            Self::computes(
                evolve,
                state_count,
                observation_count,
                observe,
                barrier_bridge,
                survival,
                barrier_payoff,
                bridge_counts,
                bridge_shape,
                bridge_intervals,
                bridge_reverse,
                hit_reverse,
                variance_states,
                variance_grid,
                bridge_node_count,
                graph_payoff,
                reverse_states,
                density,
                bits,
                projection,
                selection,
                runtime_failure,
                path_shocks,
                bumped_payoff,
                model@,
            ),
        ensures
            s.supplied() == model@,
    {
        SuppliedLocalVolPaths {
            evolve,
            state_count,
            observation_count,
            observe,
            barrier_bridge,
            survival,
            barrier_payoff,
            bridge_counts,
            bridge_shape,
            bridge_intervals,
            bridge_reverse,
            hit_reverse,
            variance_states,
            variance_grid,
            bridge_node_count,
            graph_payoff,
            reverse_states,
            density,
            bits,
            projection,
            selection,
            runtime_failure,
            path_shocks,
            bumped_payoff,
            model,
        }
    }
}

impl<
    R: Scalar,
    State,
    Bridge,
    FEvolve: Fn(bool, R, &Vec<R>, u64) -> Result<State, MonteCarloError>,
    FStateCount: Fn(&State) -> usize,
    FObservationCount: Fn() -> usize,
    FObserve: Fn(&State, R) -> Result<Vec<Observation<R>>, MonteCarloError>,
    FBarrierBridge: Fn(&State, R) -> Result<Bridge, MonteCarloError>,
    FSurvival: Fn(&Bridge) -> R,
    FBarrierPayoff: Fn(R, R) -> BarrierPayoff<R>,
    FBridgeCounts: Fn(&Bridge) -> BridgeCounts<R>,
    FBridgeShape: Fn(&Bridge) -> BridgeShape,
    FBridgeIntervals: Fn(&Bridge) -> Vec<Interval>,
    FBridgeReverse: Fn(&Bridge, R) -> Vec<IntervalAdjoint<R>>,
    FHitReverse: Fn(&Bridge, R) -> Vec<Deposit<R>>,
    FVarianceStates: Fn(&State, &Bridge, &Vec<R>, &Vec<R>) -> Vec<R>,
    FVarianceGrid: Fn(&State, &Bridge, &Vec<R>, &Vec<R>) -> Vec<R>,
    FBridgeNodeCount: Fn(&Bridge) -> usize,
    FGraphPayoff: Fn(
        Option<usize>,
        &Vec<Fixing<R>>,
    ) -> Result<GraphPayoff<R>, MonteCarloError>,
    FReverseStates: Fn(&State, &Vec<R>) -> Result<Vec<R>, MonteCarloError>,
    FDensity: Fn(&Vec<R>) -> Result<Vec<R>, MonteCarloError>,
    FBits: Fn(R) -> u64,
    FProjection: Fn(usize, R, &Vec<R>) -> Result<Vec<R>, MonteCarloError>,
    FSelection: Fn(usize) -> Result<ExerciseCashflowSelection<R>, MonteCarloError>,
    FRuntimeFailure: Fn(R) -> Option<MonteCarloError>,
    FPathShocks: Fn(u64, u64, bool) -> Result<Vec<R>, MonteCarloError>,
    FBumpedPayoff: Fn(
        R,
        &Vec<R>,
        u64,
        Option<ExerciseCashflowSelection<R>>,
    ) -> Result<R, MonteCarloError>,
> LocalVolPaths<R> for SuppliedLocalVolPaths<
    R,
    State,
    Bridge,
    FEvolve,
    FStateCount,
    FObservationCount,
    FObserve,
    FBarrierBridge,
    FSurvival,
    FBarrierPayoff,
    FBridgeCounts,
    FBridgeShape,
    FBridgeIntervals,
    FBridgeReverse,
    FHitReverse,
    FVarianceStates,
    FVarianceGrid,
    FBridgeNodeCount,
    FGraphPayoff,
    FReverseStates,
    FDensity,
    FBits,
    FProjection,
    FSelection,
    FRuntimeFailure,
    FPathShocks,
    FBumpedPayoff,
> {
    type State = State;

    type Bridge = Bridge;

    open spec fn evolution(
        &self,
        checked: bool,
        spot: R,
        shocks: Seq<R>,
        path: u64,
    ) -> Result<State, MonteCarloError> {
        (self.supplied().evolve)(checked, spot, shocks, path)
    }

    open spec fn states_of(&self, state: Self::State) -> usize {
        (self.supplied().state_count)(state)
    }

    open spec fn observations_expected(&self) -> usize {
        (self.supplied().observation_count)()
    }

    open spec fn observations_of(&self, state: Self::State, spot: R) -> Result<
        Seq<Observation<R>>,
        MonteCarloError,
    > {
        (self.supplied().observe)(state, spot)
    }

    open spec fn barrier_of(&self, state: Self::State, spot: R) -> Result<Bridge, MonteCarloError> {
        (self.supplied().barrier_bridge)(state, spot)
    }

    open spec fn survival_of(&self, bridge: Self::Bridge) -> R {
        (self.supplied().survival)(bridge)
    }

    open spec fn barrier_payoff_of(&self, terminal: R, survival: R) -> BarrierPayoff<R> {
        (self.supplied().barrier_payoff)(terminal, survival)
    }

    open spec fn bridge_counts_of(&self, bridge: Self::Bridge) -> BridgeCounts<R> {
        (self.supplied().bridge_counts)(bridge)
    }

    open spec fn shape_of(&self, bridge: Self::Bridge) -> BridgeShape {
        (self.supplied().bridge_shape)(bridge)
    }

    open spec fn intervals_of(&self, bridge: Self::Bridge) -> Seq<Interval> {
        (self.supplied().bridge_intervals)(bridge)
    }

    open spec fn bridge_adjoints(&self, bridge: Self::Bridge, seed: R) -> Seq<IntervalAdjoint<R>> {
        (self.supplied().bridge_reverse)(bridge, seed)
    }

    open spec fn hit_adjoints(&self, bridge: Self::Bridge, seed: R) -> Seq<Deposit<R>> {
        (self.supplied().hit_reverse)(bridge, seed)
    }

    open spec fn variance_states_of(
        &self,
        state: Self::State,
        bridge: Self::Bridge,
        variances: Seq<R>,
        seeds: Seq<R>,
    ) -> Seq<R> {
        (self.supplied().variance_states)(state, bridge, variances, seeds)
    }

    open spec fn variance_grid_of(
        &self,
        state: Self::State,
        bridge: Self::Bridge,
        variances: Seq<R>,
        grid: Seq<R>,
    ) -> Seq<R> {
        (self.supplied().variance_grid)(state, bridge, variances, grid)
    }

    open spec fn bridge_nodes_of(&self, bridge: Self::Bridge) -> usize {
        (self.supplied().bridge_node_count)(bridge)
    }

    open spec fn graph_payoff_of(
        &self,
        output: Option<usize>,
        fixings: Seq<Fixing<R>>,
    ) -> Result<GraphPayoff<R>, MonteCarloError> {
        (self.supplied().graph_payoff)(output, fixings)
    }

    open spec fn variance_adjoints_of(
        &self,
        state: Self::State,
        seeds: Seq<R>,
    ) -> Result<Seq<R>, MonteCarloError> {
        (self.supplied().reverse_states)(state, seeds)
    }

    open spec fn density_of(&self, nodes: Seq<R>) -> Result<Seq<R>, MonteCarloError> {
        (self.supplied().density)(nodes)
    }

    open spec fn bits_of(&self, number: R) -> u64 {
        (self.supplied().bits)(number)
    }

    open spec fn projection_of(
        &self,
        row: usize,
        maturity: R,
        density: Seq<R>,
    ) -> Result<Seq<R>, MonteCarloError> {
        (self.supplied().projection)(row, maturity, density)
    }

    open spec fn selection_of(&self, stopping_index: usize) -> Result<
        ExerciseCashflowSelection<R>,
        MonteCarloError,
    > {
        (self.supplied().selection)(stopping_index)
    }

    open spec fn runtime_failure_of(&self, spot: R) -> Option<MonteCarloError> {
        (self.supplied().runtime_failure)(spot)
    }

    open spec fn path_shocks_of(
        &self,
        seed: u64,
        path: u64,
        brownian_bridge: bool,
    ) -> Result<Seq<R>, MonteCarloError> {
        (self.supplied().path_shocks)(seed, path, brownian_bridge)
    }

    open spec fn bumped_payoff_of(
        &self,
        spot: R,
        shocks: Seq<R>,
        path: u64,
        selected: Option<ExerciseCashflowSelection<R>>,
    ) -> Result<R, MonteCarloError> {
        (self.supplied().bumped_payoff)(spot, shocks, path, selected)
    }

    fn evolve(
        &self,
        checked: bool,
        spot: R,
        shocks: &Vec<R>,
        path: u64,
    ) -> (r: Result<Self::State, MonteCarloError>) {
        proof {
            use_type_invariant(self);
        }
        (self.evolve)(checked, spot, shocks, path)
    }

    fn state_count(&self, state: &Self::State) -> (r: usize) {
        proof {
            use_type_invariant(self);
        }
        (self.state_count)(state)
    }

    fn observation_count(&self) -> (r: usize) {
        proof {
            use_type_invariant(self);
        }
        (self.observation_count)()
    }

    fn observe(&self, state: &Self::State, spot: R) -> (
        r: Result<Vec<Observation<R>>, MonteCarloError>
    ) {
        proof {
            use_type_invariant(self);
        }
        (self.observe)(state, spot)
    }

    fn barrier_bridge(&self, state: &Self::State, spot: R) -> (
        r: Result<Self::Bridge, MonteCarloError>
    ) {
        proof {
            use_type_invariant(self);
        }
        (self.barrier_bridge)(state, spot)
    }

    fn survival(&self, bridge: &Self::Bridge) -> (r: R) {
        proof {
            use_type_invariant(self);
        }
        (self.survival)(bridge)
    }

    fn barrier_payoff(&self, terminal: R, survival: R) -> (r: BarrierPayoff<R>) {
        proof {
            use_type_invariant(self);
        }
        (self.barrier_payoff)(terminal, survival)
    }

    fn bridge_counts(&self, bridge: &Self::Bridge) -> (r: BridgeCounts<R>) {
        proof {
            use_type_invariant(self);
        }
        (self.bridge_counts)(bridge)
    }

    fn bridge_shape(&self, bridge: &Self::Bridge) -> (r: BridgeShape) {
        proof {
            use_type_invariant(self);
        }
        (self.bridge_shape)(bridge)
    }

    fn bridge_intervals(&self, bridge: &Self::Bridge) -> (r: Vec<Interval>) {
        proof {
            use_type_invariant(self);
        }
        (self.bridge_intervals)(bridge)
    }

    fn bridge_reverse(&self, bridge: &Self::Bridge, seed: R) -> (r: Vec<IntervalAdjoint<R>>) {
        proof {
            use_type_invariant(self);
        }
        (self.bridge_reverse)(bridge, seed)
    }

    fn hit_reverse(&self, bridge: &Self::Bridge, seed: R) -> (r: Vec<Deposit<R>>) {
        proof {
            use_type_invariant(self);
        }
        (self.hit_reverse)(bridge, seed)
    }

    fn variance_states(
        &self,
        state: &Self::State,
        bridge: &Self::Bridge,
        variances: &Vec<R>,
        seeds: &Vec<R>,
    ) -> (r: Vec<R>) {
        proof {
            use_type_invariant(self);
        }
        (self.variance_states)(state, bridge, variances, seeds)
    }

    fn variance_grid(
        &self,
        state: &Self::State,
        bridge: &Self::Bridge,
        variances: &Vec<R>,
        grid: &Vec<R>,
    ) -> (r: Vec<R>) {
        proof {
            use_type_invariant(self);
        }
        (self.variance_grid)(state, bridge, variances, grid)
    }

    fn bridge_node_count(&self, bridge: &Self::Bridge) -> (r: usize) {
        proof {
            use_type_invariant(self);
        }
        (self.bridge_node_count)(bridge)
    }

    fn graph_payoff(
        &self,
        output: Option<usize>,
        fixings: &Vec<Fixing<R>>,
    ) -> (r: Result<GraphPayoff<R>, MonteCarloError>) {
        proof {
            use_type_invariant(self);
        }
        (self.graph_payoff)(output, fixings)
    }

    fn reverse_states(
        &self,
        state: &Self::State,
        seeds: &Vec<R>,
    ) -> (r: Result<Vec<R>, MonteCarloError>) {
        proof {
            use_type_invariant(self);
        }
        (self.reverse_states)(state, seeds)
    }

    fn density(&self, nodes: &Vec<R>) -> (r: Result<Vec<R>, MonteCarloError>) {
        proof {
            use_type_invariant(self);
        }
        (self.density)(nodes)
    }

    fn bits(&self, number: R) -> (r: u64) {
        proof {
            use_type_invariant(self);
        }
        (self.bits)(number)
    }

    fn projection(
        &self,
        row: usize,
        maturity: R,
        density: &Vec<R>,
    ) -> (r: Result<Vec<R>, MonteCarloError>) {
        proof {
            use_type_invariant(self);
        }
        (self.projection)(row, maturity, density)
    }

    fn selection(&self, stopping_index: usize) -> (
        r: Result<ExerciseCashflowSelection<R>, MonteCarloError>
    ) {
        proof {
            use_type_invariant(self);
        }
        (self.selection)(stopping_index)
    }

    fn runtime_failure(&self, spot: R) -> (r: Option<MonteCarloError>) {
        proof {
            use_type_invariant(self);
        }
        (self.runtime_failure)(spot)
    }

    fn path_shocks(
        &self,
        seed: u64,
        path: u64,
        brownian_bridge: bool,
    ) -> (r: Result<Vec<R>, MonteCarloError>) {
        proof {
            use_type_invariant(self);
        }
        (self.path_shocks)(seed, path, brownian_bridge)
    }

    fn bumped_payoff(
        &self,
        spot: R,
        shocks: &Vec<R>,
        path: u64,
        selected: Option<ExerciseCashflowSelection<R>>,
    ) -> (r: Result<R, MonteCarloError>) {
        proof {
            use_type_invariant(self);
        }
        (self.bumped_payoff)(spot, shocks, path, selected)
    }
}

} // verus!
