//! What a plan of equity and rates is priced and differentiated with.

use crate::affine::{AffineSpot, HybridState};
use crate::errors::MonteCarloError;
use crate::hybrid_context::HullWhiteEquityPricingPlan;
use crate::linear::{viewed, views};
use crate::models::Fingerprint;
use crate::results::{pair_seen, seen};
use crate::reverse::SpotSeed;
use crate::scalar::Scalar;
use vstd::prelude::*;

verus! {

/// The price of a plan, and how it was obtained.
#[derive(Clone, Copy, Debug, PartialEq)]
pub struct HullWhitePrice<R> {
    pub value: R,
    pub standard_error: R,
    pub independent_sampling_units: u64,
    pub evaluated_paths: u128,
    pub plan_fingerprint: Fingerprint,
    pub scheme: &'static str,
    pub calibration_method: Option<&'static str>,
    pub calibration_seed: Option<u64>,
    pub cash_dividend_model: Option<&'static str>,
}

/// The adjoints of the coefficients of a node: its scale, what is set aside for
/// certain, and the amounts that are set aside in bonds.
pub struct HullWhiteDividendNodeAdjoints<R> {
    pub scale: R,
    pub deterministic_reserve: R,
    pub bond_amounts: Vec<R>,
}

/// A [`HullWhiteDividendNodeAdjoints`] as a mathematical value.
#[verifier::ext_equal]
pub ghost struct NodeAdjointsView<R> {
    pub scale: R,
    pub deterministic_reserve: R,
    pub bond_amounts: Seq<R>,
}

impl<R> View for HullWhiteDividendNodeAdjoints<R> {
    type V = NodeAdjointsView<R>;

    open spec fn view(&self) -> NodeAdjointsView<R> {
        NodeAdjointsView {
            scale: self.scale,
            deterministic_reserve: self.deterministic_reserve,
            bond_amounts: self.bond_amounts@,
        }
    }
}

/// A result with the adjoints beside its value taken as a mathematical value.
pub open spec fn node_seen<R>(
    r: Result<(R, HullWhiteDividendNodeAdjoints<R>), MonteCarloError>,
) -> Result<(R, NodeAdjointsView<R>), MonteCarloError> {
    match r {
        Ok((x, n)) => Ok((x, n@)),
        Err(e) => Err(e),
    }
}

/// The adjoints have as many bonds at each node as there are.
pub open spec fn fitting<R>(nodes: Seq<NodeAdjointsView<R>>, counts: Seq<usize>) -> bool {
    &&& nodes.len() == counts.len()
    &&& forall|i: int|
        0 <= i < nodes.len() ==> (#[trigger] nodes[i]).bond_amounts.len() == counts[i]
}

/// The number of coefficients of nodes with these numbers of bonds.
pub open spec fn flat_len(counts: Seq<usize>) -> nat
    decreases counts.len(),
{
    if counts.len() == 0 {
        0
    } else {
        flat_len(counts.drop_last()) + 2 + counts.last() as nat
    }
}

/// The adjoints of dividends, where there are some.
pub open spec fn nodes_seen<R>(d: Option<Vec<HullWhiteDividendNodeAdjoints<R>>>) -> Option<
    Seq<NodeAdjointsView<R>>,
> {
    match d {
        Some(v) => Some(views(v@)),
        None => None,
    }
}

/// The adjoints of a path.
pub struct PathReverse<R> {
    pub initial_spot: R,
    pub bs_volatility: Option<R>,
    pub dividends: Option<Vec<HullWhiteDividendNodeAdjoints<R>>>,
    pub squared_leverage: Vec<R>,
}

/// A [`PathReverse`] as a mathematical value.
pub ghost struct PathReverseView<R> {
    pub initial_spot: R,
    pub bs_volatility: Option<R>,
    pub dividends: Option<Seq<NodeAdjointsView<R>>>,
    pub squared_leverage: Seq<R>,
}

impl<R> View for PathReverse<R> {
    type V = PathReverseView<R>;

    open spec fn view(&self) -> PathReverseView<R> {
        PathReverseView {
            initial_spot: self.initial_spot,
            bs_volatility: self.bs_volatility,
            dividends: nodes_seen(self.dividends),
            squared_leverage: self.squared_leverage@,
        }
    }
}

/// The adjoints of a market.
pub struct MarketAdjoints<R> {
    pub spot: R,
    pub discount_log_df: Vec<R>,
    pub dividend_log_df: Vec<R>,
}

/// A [`MarketAdjoints`] as a mathematical value.
pub ghost struct MarketAdjointsView<R> {
    pub spot: R,
    pub discount_log_df: Seq<R>,
    pub dividend_log_df: Seq<R>,
}

impl<R> View for MarketAdjoints<R> {
    type V = MarketAdjointsView<R>;

    open spec fn view(&self) -> MarketAdjointsView<R> {
        MarketAdjointsView {
            spot: self.spot,
            discount_log_df: self.discount_log_df@,
            dividend_log_df: self.dividend_log_df@,
        }
    }
}

/// The adjoints of a calibration.
pub struct LeverageReverse<R> {
    pub initial_spot: R,
    pub dividends: Option<Vec<HullWhiteDividendNodeAdjoints<R>>>,
    pub local_variance: Vec<R>,
    pub forward_log_density: Vec<R>,
}

/// A [`LeverageReverse`] as a mathematical value.
pub ghost struct LeverageReverseView<R> {
    pub initial_spot: R,
    pub dividends: Option<Seq<NodeAdjointsView<R>>>,
    pub local_variance: Seq<R>,
    pub forward_log_density: Seq<R>,
}

impl<R> View for LeverageReverse<R> {
    type V = LeverageReverseView<R>;

    open spec fn view(&self) -> LeverageReverseView<R> {
        LeverageReverseView {
            initial_spot: self.initial_spot,
            dividends: nodes_seen(self.dividends),
            local_variance: self.local_variance@,
            forward_log_density: self.forward_log_density@,
        }
    }
}

/// What a plan of equity and rates obtains from its paths, its dividends and its
/// calibration.
pub trait HybridWorld<R: Scalar> {
    /// A path that can be reversed.
    type Recorded;

    /// Dividends that are set aside out of the spot.
    type Dividends;

    /// The price of a plan.
    spec fn priced(&self, plan: HullWhiteEquityPricingPlan<R>) -> Result<
        HullWhitePrice<R>,
        MonteCarloError,
    >;

    /// The number of times of a path.
    spec fn time_count_of(&self) -> usize;

    /// The number of pillars of the discount curve.
    spec fn discount_count_of(&self) -> usize;

    /// The number of pillars of the dividend curve.
    spec fn dividend_count_of(&self) -> usize;

    /// The number of nodes of the leverage surface.
    spec fn leverage_count_of(&self) -> usize;

    /// The number of quotes of the market.
    spec fn quote_count_of(&self) -> usize;

    /// The shocks of a pseudo-random path, factor by factor.
    spec fn pseudo_shocks_of(&self, path: u64) -> Result<Seq<R>, MonteCarloError>;

    /// The path under shocks.
    spec fn recorded(&self, shocks: Seq<R>) -> Result<Self::Recorded, MonteCarloError>;

    /// The states of a path.
    spec fn states_of(&self, path: Self::Recorded) -> Seq<HybridState<R>>;

    /// The discount factor to a time, relative to that of the curve.
    spec fn relative_discount_of(&self, time: R, integrated: R) -> Result<R, MonteCarloError>;

    /// The bond from a time to another, relative to that of the curve.
    spec fn relative_bond_of(&self, from: R, to: R, factor: R) -> Result<R, MonteCarloError>;

    /// The payoff of the spots at the times of a path, and its derivative with respect to each.
    spec fn payoff_adjoints_of(
        &self,
        grid: Seq<R>,
        spots: Seq<AffineSpot<R>>,
    ) -> Result<(R, Seq<SpotSeed<R>>), MonteCarloError>;

    /// The spots of a path whose dividends are proportional.
    spec fn proportional_spots_of(
        &self,
        grid: Seq<R>,
        equities: Seq<R>,
    ) -> Result<Seq<AffineSpot<R>>, MonteCarloError>;

    /// The dividends that the path carries, if any.
    spec fn path_dividends_of(&self) -> Option<Self::Dividends>;

    /// The dividends of the market on a grid.
    spec fn dividends_made(&self, grid: Seq<R>) -> Result<Self::Dividends, MonteCarloError>;

    /// The times of the nodes of dividends.
    spec fn node_times_of(&self, dividends: Self::Dividends) -> Seq<R>;

    /// The number of bonds of each node of dividends.
    spec fn bond_counts_of(&self, dividends: Self::Dividends) -> Seq<usize>;

    /// The spots of a node.
    spec fn node_spots_of(
        &self,
        dividends: Self::Dividends,
        node: usize,
        equity: R,
        rate: R,
    ) -> Result<AffineSpot<R>, MonteCarloError>;

    /// The adjoint of the equity out of those of the spots of a node, and the adjoints of
    /// its coefficients with theirs added.
    spec fn node_reversed(
        &self,
        dividends: Self::Dividends,
        node: usize,
        equity: R,
        rate: R,
        seed: SpotSeed<R>,
        adjoints: NodeAdjointsView<R>,
    ) -> Result<(R, NodeAdjointsView<R>), MonteCarloError>;

    /// The adjoints of a path out of those of its equity.
    spec fn path_reversed(
        &self,
        path: Self::Recorded,
        seeds: Seq<R>,
    ) -> Result<PathReverseView<R>, MonteCarloError>;

    /// The adjoints of the market out of those of the coefficients of dividends.
    spec fn market_reversed(
        &self,
        dividends: Self::Dividends,
        nodes: Seq<NodeAdjointsView<R>>,
    ) -> Result<MarketAdjointsView<R>, MonteCarloError>;

    /// The adjoints of the calibration out of those of its leverage.
    spec fn leverage_reversed(&self, seeds: Seq<R>) -> Result<
        LeverageReverseView<R>,
        MonteCarloError,
    >;

    /// The adjoints of the quotes of the market out of those of the calibration target.
    spec fn market_iv_reversed(
        &self,
        local_variance: Seq<R>,
        forward_log_density: Seq<R>,
    ) -> Result<Seq<R>, MonteCarloError>;

    /// Computes [`Self::priced`].
    fn price(&self, plan: &HullWhiteEquityPricingPlan<R>) -> (r: Result<
        HullWhitePrice<R>,
        MonteCarloError,
    >)
        ensures
            r == self.priced(*plan),
    ;

    /// Computes [`Self::time_count_of`].
    fn time_count(&self) -> (r: usize)
        ensures
            r == self.time_count_of(),
    ;

    /// Computes [`Self::discount_count_of`].
    fn discount_count(&self) -> (r: usize)
        ensures
            r == self.discount_count_of(),
    ;

    /// Computes [`Self::dividend_count_of`].
    fn dividend_count(&self) -> (r: usize)
        ensures
            r == self.dividend_count_of(),
    ;

    /// Computes [`Self::leverage_count_of`].
    fn leverage_count(&self) -> (r: usize)
        ensures
            r == self.leverage_count_of(),
    ;

    /// Computes [`Self::quote_count_of`].
    fn quote_count(&self) -> (r: usize)
        ensures
            r == self.quote_count_of(),
    ;

    /// Computes [`Self::pseudo_shocks_of`].
    fn pseudo_shocks(&self, path: u64) -> (r: Result<Vec<R>, MonteCarloError>)
        ensures
            seen(r) == self.pseudo_shocks_of(path),
    ;

    /// Computes [`Self::recorded`].
    fn record_path(&self, shocks: &Vec<R>) -> (r: Result<Self::Recorded, MonteCarloError>)
        ensures
            r == self.recorded(shocks@),
            r matches Ok(p) ==> self.states_of(p).len() == self.time_count_of(),
    ;

    /// Computes [`Self::states_of`].
    fn states(&self, path: &Self::Recorded) -> (r: Vec<HybridState<R>>)
        ensures
            r@ == self.states_of(*path),
    ;

    /// Computes [`Self::relative_discount_of`].
    fn relative_discount(&self, time: R, integrated: R) -> (r: Result<R, MonteCarloError>)
        ensures
            r == self.relative_discount_of(time, integrated),
    ;

    /// Computes [`Self::relative_bond_of`].
    fn relative_bond(&self, from: R, to: R, factor: R) -> (r: Result<R, MonteCarloError>)
        ensures
            r == self.relative_bond_of(from, to, factor),
    ;

    /// Computes [`Self::payoff_adjoints_of`].
    fn payoff_adjoints(&self, grid: &Vec<R>, spots: &Vec<AffineSpot<R>>) -> (
        r: Result<(R, Vec<SpotSeed<R>>), MonteCarloError>
    )
        ensures
            pair_seen(r) == self.payoff_adjoints_of(grid@, spots@),
    ;

    /// Computes [`Self::proportional_spots_of`].
    fn proportional_spots(&self, grid: &Vec<R>, equities: &Vec<R>) -> (
        r: Result<Vec<AffineSpot<R>>, MonteCarloError>
    )
        ensures
            seen(r) == self.proportional_spots_of(grid@, equities@),
    ;

    /// Computes [`Self::path_dividends_of`].
    fn path_dividends(&self) -> (r: Option<Self::Dividends>)
        ensures
            r == self.path_dividends_of(),
    ;

    /// Computes [`Self::dividends_made`].
    fn dividends_on(&self, grid: &Vec<R>) -> (r: Result<Self::Dividends, MonteCarloError>)
        ensures
            r == self.dividends_made(grid@),
            r matches Ok(d) ==> self.node_times_of(d) == grid@,
    ;

    /// Computes [`Self::node_times_of`].
    fn node_times(&self, dividends: &Self::Dividends) -> (r: Vec<R>)
        ensures
            r@ == self.node_times_of(*dividends),
    ;

    /// Computes [`Self::bond_counts_of`].
    fn bond_counts(&self, dividends: &Self::Dividends) -> (r: Vec<usize>)
        ensures
            r@ == self.bond_counts_of(*dividends),
            r@.len() == self.node_times_of(*dividends).len()
                && 3 + flat_len(r@) + self.leverage_count_of() <= usize::MAX,
    ;

    /// Computes [`Self::node_spots_of`].
    fn node_spots(
        &self,
        dividends: &Self::Dividends,
        node: usize,
        equity: R,
        rate: R,
    ) -> (r: Result<AffineSpot<R>, MonteCarloError>)
        ensures
            r == self.node_spots_of(*dividends, node, equity, rate),
    ;

    /// Computes [`Self::node_reversed`].
    fn reverse_node(
        &self,
        dividends: &Self::Dividends,
        node: usize,
        equity: R,
        rate: R,
        seed: SpotSeed<R>,
        adjoints: &HullWhiteDividendNodeAdjoints<R>,
    ) -> (r: Result<(R, HullWhiteDividendNodeAdjoints<R>), MonteCarloError>)
        ensures
            node_seen(r) == self.node_reversed(*dividends, node, equity, rate, seed, adjoints@),
            r matches Ok((x, n)) ==> n@.bond_amounts.len() == adjoints@.bond_amounts.len(),
    ;

    /// Computes [`Self::path_reversed`].
    fn reverse_path(
        &self,
        path: &Self::Recorded,
        seeds: &Vec<R>,
    ) -> (r: Result<PathReverse<R>, MonteCarloError>)
        ensures
            viewed(r) == self.path_reversed(*path, seeds@),
            (
                r matches Ok(v) ==> (
                    v@.dividends matches Some(nodes) ==> self.path_dividends_of() matches Some(d)
                        && fitting(
                        nodes,
                        self.bond_counts_of(d),
                    )
                )
            ) && (r matches Ok(v) ==> self.leverage_count_of() <= v@.squared_leverage.len()),
    ;

    /// Computes [`Self::market_reversed`].
    fn reverse_market(
        &self,
        dividends: &Self::Dividends,
        nodes: &Vec<HullWhiteDividendNodeAdjoints<R>>,
    ) -> (r: Result<MarketAdjoints<R>, MonteCarloError>)
        ensures
            viewed(r) == self.market_reversed(*dividends, views(nodes@)),
            r matches Ok(v) ==> v@.discount_log_df.len() == self.discount_count_of()
                && v@.dividend_log_df.len() == self.dividend_count_of(),
    ;

    /// Computes [`Self::leverage_reversed`].
    fn reverse_leverage(&self, seeds: &Vec<R>) -> (r: Result<LeverageReverse<R>, MonteCarloError>)
        ensures
            viewed(r) == self.leverage_reversed(seeds@),
            (
                r matches Ok(v) ==> (
                    v@.dividends matches Some(nodes) ==> self.path_dividends_of() matches Some(d)
                        && fitting(
                        nodes,
                        self.bond_counts_of(d),
                    )
                )
            ) && (
                r matches Ok(v) ==> v@.local_variance.len() == self.leverage_count_of()
                    && v@.forward_log_density.len() == self.leverage_count_of()
            ),
    ;

    /// Computes [`Self::market_iv_reversed`].
    fn reverse_market_iv(
        &self,
        local_variance: &Vec<R>,
        forward_log_density: &Vec<R>,
    ) -> (r: Result<Vec<R>, MonteCarloError>)
        ensures
            seen(r) == self.market_iv_reversed(local_variance@, forward_log_density@),
            r matches Ok(v) ==> v@.len() == self.quote_count_of(),
    ;
}

/// The functions behind a [`SuppliedHybridWorld`], as mathematical functions.
#[verifier::reject_recursive_types(R)]
#[verifier::reject_recursive_types(Recorded)]
#[verifier::reject_recursive_types(Dividends)]
pub ghost struct SuppliedHybridWorldModel<R, Recorded, Dividends> {
    pub price: spec_fn(HullWhiteEquityPricingPlan<R>) -> Result<HullWhitePrice<R>, MonteCarloError>,
    pub time_count: spec_fn() -> usize,
    pub discount_count: spec_fn() -> usize,
    pub dividend_count: spec_fn() -> usize,
    pub leverage_count: spec_fn() -> usize,
    pub quote_count: spec_fn() -> usize,
    pub pseudo_shocks: spec_fn(u64) -> Result<Seq<R>, MonteCarloError>,
    pub record_path: spec_fn(Seq<R>) -> Result<Recorded, MonteCarloError>,
    pub states: spec_fn(Recorded) -> Seq<HybridState<R>>,
    pub relative_discount: spec_fn(R, R) -> Result<R, MonteCarloError>,
    pub relative_bond: spec_fn(R, R, R) -> Result<R, MonteCarloError>,
    pub payoff_adjoints: spec_fn(Seq<R>, Seq<AffineSpot<R>>) -> Result<
        (R, Seq<SpotSeed<R>>),
        MonteCarloError,
    >,
    pub proportional_spots: spec_fn(Seq<R>, Seq<R>) -> Result<Seq<AffineSpot<R>>, MonteCarloError>,
    pub path_dividends: spec_fn() -> Option<Dividends>,
    pub dividends_on: spec_fn(Seq<R>) -> Result<Dividends, MonteCarloError>,
    pub node_times: spec_fn(Dividends) -> Seq<R>,
    pub bond_counts: spec_fn(Dividends) -> Seq<usize>,
    pub node_spots: spec_fn(Dividends, usize, R, R) -> Result<AffineSpot<R>, MonteCarloError>,
    pub reverse_node: spec_fn(
        Dividends,
        usize,
        R,
        R,
        SpotSeed<R>,
        NodeAdjointsView<R>,
    ) -> Result<(R, NodeAdjointsView<R>), MonteCarloError>,
    pub reverse_path: spec_fn(Recorded, Seq<R>) -> Result<PathReverseView<R>, MonteCarloError>,
    pub reverse_market: spec_fn(Dividends, Seq<NodeAdjointsView<R>>) -> Result<
        MarketAdjointsView<R>,
        MonteCarloError,
    >,
    pub reverse_leverage: spec_fn(Seq<R>) -> Result<LeverageReverseView<R>, MonteCarloError>,
    pub reverse_market_iv: spec_fn(Seq<R>, Seq<R>) -> Result<Seq<R>, MonteCarloError>,
}

/// A [`HybridWorld`] whose functions are supplied one by one.
#[verifier::reject_recursive_types(R)]
#[verifier::reject_recursive_types(Recorded)]
#[verifier::reject_recursive_types(Dividends)]
pub struct SuppliedHybridWorld<
    R: Scalar,
    Recorded,
    Dividends,
    FPrice: Fn(&HullWhiteEquityPricingPlan<R>) -> Result<HullWhitePrice<R>, MonteCarloError>,
    FTimeCount: Fn() -> usize,
    FDiscountCount: Fn() -> usize,
    FDividendCount: Fn() -> usize,
    FLeverageCount: Fn() -> usize,
    FQuoteCount: Fn() -> usize,
    FPseudoShocks: Fn(u64) -> Result<Vec<R>, MonteCarloError>,
    FRecordPath: Fn(&Vec<R>) -> Result<Recorded, MonteCarloError>,
    FStates: Fn(&Recorded) -> Vec<HybridState<R>>,
    FRelativeDiscount: Fn(R, R) -> Result<R, MonteCarloError>,
    FRelativeBond: Fn(R, R, R) -> Result<R, MonteCarloError>,
    FPayoffAdjoints: Fn(&Vec<R>, &Vec<AffineSpot<R>>) -> Result<
        (R, Vec<SpotSeed<R>>),
        MonteCarloError,
    >,
    FProportionalSpots: Fn(&Vec<R>, &Vec<R>) -> Result<Vec<AffineSpot<R>>, MonteCarloError>,
    FPathDividends: Fn() -> Option<Dividends>,
    FDividendsOn: Fn(&Vec<R>) -> Result<Dividends, MonteCarloError>,
    FNodeTimes: Fn(&Dividends) -> Vec<R>,
    FBondCounts: Fn(&Dividends) -> Vec<usize>,
    FNodeSpots: Fn(&Dividends, usize, R, R) -> Result<AffineSpot<R>, MonteCarloError>,
    FReverseNode: Fn(
        &Dividends,
        usize,
        R,
        R,
        SpotSeed<R>,
        &HullWhiteDividendNodeAdjoints<R>,
    ) -> Result<(R, HullWhiteDividendNodeAdjoints<R>), MonteCarloError>,
    FReversePath: Fn(&Recorded, &Vec<R>) -> Result<PathReverse<R>, MonteCarloError>,
    FReverseMarket: Fn(
        &Dividends,
        &Vec<HullWhiteDividendNodeAdjoints<R>>,
    ) -> Result<MarketAdjoints<R>, MonteCarloError>,
    FReverseLeverage: Fn(&Vec<R>) -> Result<LeverageReverse<R>, MonteCarloError>,
    FReverseMarketIv: Fn(&Vec<R>, &Vec<R>) -> Result<Vec<R>, MonteCarloError>,
> {
    price: FPrice,
    time_count: FTimeCount,
    discount_count: FDiscountCount,
    dividend_count: FDividendCount,
    leverage_count: FLeverageCount,
    quote_count: FQuoteCount,
    pseudo_shocks: FPseudoShocks,
    record_path: FRecordPath,
    states: FStates,
    relative_discount: FRelativeDiscount,
    relative_bond: FRelativeBond,
    payoff_adjoints: FPayoffAdjoints,
    proportional_spots: FProportionalSpots,
    path_dividends: FPathDividends,
    dividends_on: FDividendsOn,
    node_times: FNodeTimes,
    bond_counts: FBondCounts,
    node_spots: FNodeSpots,
    reverse_node: FReverseNode,
    reverse_path: FReversePath,
    reverse_market: FReverseMarket,
    reverse_leverage: FReverseLeverage,
    reverse_market_iv: FReverseMarketIv,
    model: Ghost<SuppliedHybridWorldModel<R, Recorded, Dividends>>,
}

impl<
    R: Scalar,
    Recorded,
    Dividends,
    FPrice: Fn(&HullWhiteEquityPricingPlan<R>) -> Result<HullWhitePrice<R>, MonteCarloError>,
    FTimeCount: Fn() -> usize,
    FDiscountCount: Fn() -> usize,
    FDividendCount: Fn() -> usize,
    FLeverageCount: Fn() -> usize,
    FQuoteCount: Fn() -> usize,
    FPseudoShocks: Fn(u64) -> Result<Vec<R>, MonteCarloError>,
    FRecordPath: Fn(&Vec<R>) -> Result<Recorded, MonteCarloError>,
    FStates: Fn(&Recorded) -> Vec<HybridState<R>>,
    FRelativeDiscount: Fn(R, R) -> Result<R, MonteCarloError>,
    FRelativeBond: Fn(R, R, R) -> Result<R, MonteCarloError>,
    FPayoffAdjoints: Fn(&Vec<R>, &Vec<AffineSpot<R>>) -> Result<
        (R, Vec<SpotSeed<R>>),
        MonteCarloError,
    >,
    FProportionalSpots: Fn(&Vec<R>, &Vec<R>) -> Result<Vec<AffineSpot<R>>, MonteCarloError>,
    FPathDividends: Fn() -> Option<Dividends>,
    FDividendsOn: Fn(&Vec<R>) -> Result<Dividends, MonteCarloError>,
    FNodeTimes: Fn(&Dividends) -> Vec<R>,
    FBondCounts: Fn(&Dividends) -> Vec<usize>,
    FNodeSpots: Fn(&Dividends, usize, R, R) -> Result<AffineSpot<R>, MonteCarloError>,
    FReverseNode: Fn(
        &Dividends,
        usize,
        R,
        R,
        SpotSeed<R>,
        &HullWhiteDividendNodeAdjoints<R>,
    ) -> Result<(R, HullWhiteDividendNodeAdjoints<R>), MonteCarloError>,
    FReversePath: Fn(&Recorded, &Vec<R>) -> Result<PathReverse<R>, MonteCarloError>,
    FReverseMarket: Fn(
        &Dividends,
        &Vec<HullWhiteDividendNodeAdjoints<R>>,
    ) -> Result<MarketAdjoints<R>, MonteCarloError>,
    FReverseLeverage: Fn(&Vec<R>) -> Result<LeverageReverse<R>, MonteCarloError>,
    FReverseMarketIv: Fn(&Vec<R>, &Vec<R>) -> Result<Vec<R>, MonteCarloError>,
> SuppliedHybridWorld<
    R,
    Recorded,
    Dividends,
    FPrice,
    FTimeCount,
    FDiscountCount,
    FDividendCount,
    FLeverageCount,
    FQuoteCount,
    FPseudoShocks,
    FRecordPath,
    FStates,
    FRelativeDiscount,
    FRelativeBond,
    FPayoffAdjoints,
    FProportionalSpots,
    FPathDividends,
    FDividendsOn,
    FNodeTimes,
    FBondCounts,
    FNodeSpots,
    FReverseNode,
    FReversePath,
    FReverseMarket,
    FReverseLeverage,
    FReverseMarketIv,
> {
    #[verifier::type_invariant]
    closed spec fn inv(self) -> bool {
        Self::callable(
            self.price,
            self.time_count,
            self.discount_count,
            self.dividend_count,
            self.leverage_count,
            self.quote_count,
            self.pseudo_shocks,
            self.record_path,
            self.states,
            self.relative_discount,
            self.relative_bond,
            self.payoff_adjoints,
            self.proportional_spots,
            self.path_dividends,
            self.dividends_on,
            self.node_times,
            self.bond_counts,
            self.node_spots,
            self.reverse_node,
            self.reverse_path,
            self.reverse_market,
            self.reverse_leverage,
            self.reverse_market_iv,
        )
            && Self::computes(
                self.price,
                self.time_count,
                self.discount_count,
                self.dividend_count,
                self.leverage_count,
                self.quote_count,
                self.pseudo_shocks,
                self.record_path,
                self.states,
                self.relative_discount,
                self.relative_bond,
                self.payoff_adjoints,
                self.proportional_spots,
                self.path_dividends,
                self.dividends_on,
                self.node_times,
                self.bond_counts,
                self.node_spots,
                self.reverse_node,
                self.reverse_path,
                self.reverse_market,
                self.reverse_leverage,
                self.reverse_market_iv,
                self.model@,
            )
    }

    /// The functions accept every argument.
    pub open spec fn callable(
        price: FPrice,
        time_count: FTimeCount,
        discount_count: FDiscountCount,
        dividend_count: FDividendCount,
        leverage_count: FLeverageCount,
        quote_count: FQuoteCount,
        pseudo_shocks: FPseudoShocks,
        record_path: FRecordPath,
        states: FStates,
        relative_discount: FRelativeDiscount,
        relative_bond: FRelativeBond,
        payoff_adjoints: FPayoffAdjoints,
        proportional_spots: FProportionalSpots,
        path_dividends: FPathDividends,
        dividends_on: FDividendsOn,
        node_times: FNodeTimes,
        bond_counts: FBondCounts,
        node_spots: FNodeSpots,
        reverse_node: FReverseNode,
        reverse_path: FReversePath,
        reverse_market: FReverseMarket,
        reverse_leverage: FReverseLeverage,
        reverse_market_iv: FReverseMarketIv,
    ) -> bool {
        &&& forall|plan: &HullWhiteEquityPricingPlan<R>| #[trigger] call_requires(price, (plan,))
        &&& call_requires(time_count, ())
        &&& call_requires(discount_count, ())
        &&& call_requires(dividend_count, ())
        &&& call_requires(leverage_count, ())
        &&& call_requires(quote_count, ())
        &&& forall|path: u64| #[trigger] call_requires(pseudo_shocks, (path,))
        &&& forall|shocks: &Vec<R>| #[trigger] call_requires(record_path, (shocks,))
        &&& forall|path: &Recorded| #[trigger] call_requires(states, (path,))
        &&& forall|time: R, integrated: R| #[trigger] call_requires(
            relative_discount,
            (time, integrated),
        )
        &&& forall|from: R, to: R, factor: R| #[trigger] call_requires(
            relative_bond,
            (from, to, factor),
        )
        &&& forall|grid: &Vec<R>, spots: &Vec<AffineSpot<R>>| #[trigger] call_requires(
            payoff_adjoints,
            (grid, spots),
        )
        &&& forall|grid: &Vec<R>, equities: &Vec<R>| #[trigger] call_requires(
            proportional_spots,
            (grid, equities),
        )
        &&& call_requires(path_dividends, ())
        &&& forall|grid: &Vec<R>| #[trigger] call_requires(dividends_on, (grid,))
        &&& forall|dividends: &Dividends| #[trigger] call_requires(node_times, (dividends,))
        &&& forall|dividends: &Dividends| #[trigger] call_requires(bond_counts, (dividends,))
        &&& forall|dividends: &Dividends, node: usize, equity: R, rate: R| #[trigger] call_requires(
            node_spots,
            (dividends, node, equity, rate),
        )
        &&& forall|
            dividends: &Dividends,
            node: usize,
            equity: R,
            rate: R,
            seed: SpotSeed<R>,
            adjoints: &HullWhiteDividendNodeAdjoints<R>,
        |
            #[trigger] call_requires(
                reverse_node,
                (dividends, node, equity, rate, seed, adjoints),
            )
        &&& forall|path: &Recorded, seeds: &Vec<R>|
            #[trigger] call_requires(reverse_path, (path, seeds))
        &&& forall|dividends: &Dividends, nodes: &Vec<HullWhiteDividendNodeAdjoints<R>>|
            #[trigger] call_requires(
                reverse_market,
                (dividends, nodes),
            )
        &&& forall|seeds: &Vec<R>| #[trigger] call_requires(reverse_leverage, (seeds,))
        &&& forall|local_variance: &Vec<R>, forward_log_density: &Vec<R>| #[trigger] call_requires(
            reverse_market_iv,
            (local_variance, forward_log_density),
        )
    }

    /// The functions compute those of the model.
    pub open spec fn computes(
        price: FPrice,
        time_count: FTimeCount,
        discount_count: FDiscountCount,
        dividend_count: FDividendCount,
        leverage_count: FLeverageCount,
        quote_count: FQuoteCount,
        pseudo_shocks: FPseudoShocks,
        record_path: FRecordPath,
        states: FStates,
        relative_discount: FRelativeDiscount,
        relative_bond: FRelativeBond,
        payoff_adjoints: FPayoffAdjoints,
        proportional_spots: FProportionalSpots,
        path_dividends: FPathDividends,
        dividends_on: FDividendsOn,
        node_times: FNodeTimes,
        bond_counts: FBondCounts,
        node_spots: FNodeSpots,
        reverse_node: FReverseNode,
        reverse_path: FReversePath,
        reverse_market: FReverseMarket,
        reverse_leverage: FReverseLeverage,
        reverse_market_iv: FReverseMarketIv,
        model: SuppliedHybridWorldModel<R, Recorded, Dividends>,
    ) -> bool {
        &&& forall|
            plan: &HullWhiteEquityPricingPlan<R>,
            result: Result<HullWhitePrice<R>, MonteCarloError>,
        | #[trigger]
            call_ensures(price, (plan,), result) ==> result == (model.price)(*plan)
        &&& forall|result: usize| #[trigger]
            call_ensures(time_count, (), result) ==> result == (model.time_count)()
        &&& forall|result: usize| #[trigger]
            call_ensures(discount_count, (), result) ==> result == (model.discount_count)()
        &&& forall|result: usize| #[trigger]
            call_ensures(dividend_count, (), result) ==> result == (model.dividend_count)()
        &&& forall|result: usize| #[trigger]
            call_ensures(leverage_count, (), result) ==> result == (model.leverage_count)()
        &&& forall|result: usize| #[trigger]
            call_ensures(quote_count, (), result) ==> result == (model.quote_count)()
        &&& forall|path: u64, result: Result<Vec<R>, MonteCarloError>| #[trigger]
            call_ensures(
                pseudo_shocks,
                (path,),
                result,
            ) ==> seen(result) == (model.pseudo_shocks)(path)
        &&& forall|shocks: &Vec<R>, result: Result<Recorded, MonteCarloError>| #[trigger]
            call_ensures(record_path, (shocks,), result) ==> result == (model.record_path)(shocks@)
                && (
                result matches Ok(p) ==> (model.states)(p).len() == (model.time_count)()
            )
        &&& forall|path: &Recorded, result: Vec<HybridState<R>>| #[trigger]
            call_ensures(states, (path,), result) ==> result@ == (model.states)(*path)
        &&& forall|time: R, integrated: R, result: Result<R, MonteCarloError>| #[trigger]
            call_ensures(
                relative_discount,
                (time, integrated),
                result,
            ) ==> result == (model.relative_discount)(time, integrated)
        &&& forall|from: R, to: R, factor: R, result: Result<R, MonteCarloError>| #[trigger]
            call_ensures(
                relative_bond,
                (from, to, factor),
                result,
            ) ==> result == (model.relative_bond)(from, to, factor)
        &&& forall|
            grid: &Vec<R>,
            spots: &Vec<AffineSpot<R>>,
            result: Result<(R, Vec<SpotSeed<R>>), MonteCarloError>,
        |
            #[trigger]
            call_ensures(
                payoff_adjoints,
                (grid, spots),
                result,
            ) ==> pair_seen(result) == (model.payoff_adjoints)(grid@, spots@)
        &&& forall|
            grid: &Vec<R>,
            equities: &Vec<R>,
            result: Result<Vec<AffineSpot<R>>, MonteCarloError>,
        |
            #[trigger]
            call_ensures(
                proportional_spots,
                (grid, equities),
                result,
            ) ==> seen(result) == (model.proportional_spots)(grid@, equities@)
        &&& forall|result: Option<Dividends>| #[trigger]
            call_ensures(path_dividends, (), result) ==> result == (model.path_dividends)()
        &&& forall|grid: &Vec<R>, result: Result<Dividends, MonteCarloError>| #[trigger]
            call_ensures(dividends_on, (grid,), result) ==> result == (model.dividends_on)(grid@)
                && (
                result matches Ok(d) ==> (model.node_times)(d) == grid@
            )
        &&& forall|dividends: &Dividends, result: Vec<R>| #[trigger]
            call_ensures(
                node_times,
                (dividends,),
                result,
            ) ==> result@ == (model.node_times)(*dividends)
        &&& forall|dividends: &Dividends, result: Vec<usize>| #[trigger]
            call_ensures(bond_counts, (dividends,), result)
                ==> result@ == (model.bond_counts)(*dividends) && (
                result@.len() == (model.node_times)(*dividends).len()
                    && 3 + flat_len(result@) + (model.leverage_count)() <= usize::MAX
            )
        &&& forall|
            dividends: &Dividends,
            node: usize,
            equity: R,
            rate: R,
            result: Result<AffineSpot<R>, MonteCarloError>,
        |
            #[trigger]
            call_ensures(
                node_spots,
                (dividends, node, equity, rate),
                result,
            ) ==> result == (model.node_spots)(*dividends, node, equity, rate)
        &&& forall|
            dividends: &Dividends,
            node: usize,
            equity: R,
            rate: R,
            seed: SpotSeed<R>,
            adjoints: &HullWhiteDividendNodeAdjoints<R>,
            result: Result<(R, HullWhiteDividendNodeAdjoints<R>), MonteCarloError>,
        |
            #[trigger]
            call_ensures(reverse_node, (dividends, node, equity, rate, seed, adjoints), result)
                ==> node_seen(result)
                    == (model.reverse_node)(*dividends, node, equity, rate, seed, adjoints@) && (
                result matches Ok((x, n)) ==> n@.bond_amounts.len() == adjoints@.bond_amounts.len()
            )
        &&& forall|path: &Recorded, seeds: &Vec<R>, result: Result<PathReverse<R>, MonteCarloError>|
            #[trigger]
            call_ensures(reverse_path, (path, seeds), result)
                ==> viewed(result) == (model.reverse_path)(*path, seeds@) && (
                (
                    result matches Ok(v) ==> (
                        v@.dividends matches Some(nodes)
                            ==> (model.path_dividends)() matches Some(d) && fitting(
                            nodes,
                            (model.bond_counts)(d),
                        )
                    )
                ) && (
                    result matches Ok(v) ==> (model.leverage_count)() <= v@.squared_leverage.len()
                )
            )
        &&& forall|
            dividends: &Dividends,
            nodes: &Vec<HullWhiteDividendNodeAdjoints<R>>,
            result: Result<MarketAdjoints<R>, MonteCarloError>,
        |
            #[trigger]
            call_ensures(reverse_market, (dividends, nodes), result)
                ==> viewed(result) == (model.reverse_market)(*dividends, views(nodes@)) && (
                result matches Ok(v) ==> v@.discount_log_df.len() == (model.discount_count)()
                    && v@.dividend_log_df.len() == (model.dividend_count)()
            )
        &&& forall|seeds: &Vec<R>, result: Result<LeverageReverse<R>, MonteCarloError>| #[trigger]
            call_ensures(reverse_leverage, (seeds,), result)
                ==> viewed(result) == (model.reverse_leverage)(seeds@) && (
                (
                    result matches Ok(v) ==> (
                        v@.dividends matches Some(nodes)
                            ==> (model.path_dividends)() matches Some(d) && fitting(
                            nodes,
                            (model.bond_counts)(d),
                        )
                    )
                ) && (
                    result matches Ok(v) ==> v@.local_variance.len() == (model.leverage_count)()
                        && v@.forward_log_density.len() == (model.leverage_count)()
                )
            )
        &&& forall|
            local_variance: &Vec<R>,
            forward_log_density: &Vec<R>,
            result: Result<Vec<R>, MonteCarloError>,
        |
            #[trigger]
            call_ensures(
                reverse_market_iv,
                (local_variance, forward_log_density),
                result,
            ) ==> seen(result) == (model.reverse_market_iv)(local_variance@, forward_log_density@) && (
                result matches Ok(v) ==> v@.len() == (model.quote_count)()
            )
    }

    /// The functions that were supplied.
    pub closed spec fn supplied(self) -> SuppliedHybridWorldModel<R, Recorded, Dividends> {
        self.model@
    }

    /// Takes functions that give the same result whenever they are given the
    /// same arguments.
    pub fn new(
        price: FPrice,
        time_count: FTimeCount,
        discount_count: FDiscountCount,
        dividend_count: FDividendCount,
        leverage_count: FLeverageCount,
        quote_count: FQuoteCount,
        pseudo_shocks: FPseudoShocks,
        record_path: FRecordPath,
        states: FStates,
        relative_discount: FRelativeDiscount,
        relative_bond: FRelativeBond,
        payoff_adjoints: FPayoffAdjoints,
        proportional_spots: FProportionalSpots,
        path_dividends: FPathDividends,
        dividends_on: FDividendsOn,
        node_times: FNodeTimes,
        bond_counts: FBondCounts,
        node_spots: FNodeSpots,
        reverse_node: FReverseNode,
        reverse_path: FReversePath,
        reverse_market: FReverseMarket,
        reverse_leverage: FReverseLeverage,
        reverse_market_iv: FReverseMarketIv,
    ) -> (s: Self)
        requires
            Self::callable(
                price,
                time_count,
                discount_count,
                dividend_count,
                leverage_count,
                quote_count,
                pseudo_shocks,
                record_path,
                states,
                relative_discount,
                relative_bond,
                payoff_adjoints,
                proportional_spots,
                path_dividends,
                dividends_on,
                node_times,
                bond_counts,
                node_spots,
                reverse_node,
                reverse_path,
                reverse_market,
                reverse_leverage,
                reverse_market_iv,
            ),
            exists|model: SuppliedHybridWorldModel<R, Recorded, Dividends>|
                #[trigger] Self::computes(
                    price,
                    time_count,
                    discount_count,
                    dividend_count,
                    leverage_count,
                    quote_count,
                    pseudo_shocks,
                    record_path,
                    states,
                    relative_discount,
                    relative_bond,
                    payoff_adjoints,
                    proportional_spots,
                    path_dividends,
                    dividends_on,
                    node_times,
                    bond_counts,
                    node_spots,
                    reverse_node,
                    reverse_path,
                    reverse_market,
                    reverse_leverage,
                    reverse_market_iv,
                    model,
                ),
        ensures
            Self::computes(
                price,
                time_count,
                discount_count,
                dividend_count,
                leverage_count,
                quote_count,
                pseudo_shocks,
                record_path,
                states,
                relative_discount,
                relative_bond,
                payoff_adjoints,
                proportional_spots,
                path_dividends,
                dividends_on,
                node_times,
                bond_counts,
                node_spots,
                reverse_node,
                reverse_path,
                reverse_market,
                reverse_leverage,
                reverse_market_iv,
                s.supplied(),
            ),
    {
        let ghost model = choose|model: SuppliedHybridWorldModel<R, Recorded, Dividends>| #[trigger]
            Self::computes(
            price,
            time_count,
            discount_count,
            dividend_count,
            leverage_count,
            quote_count,
            pseudo_shocks,
            record_path,
            states,
            relative_discount,
            relative_bond,
            payoff_adjoints,
            proportional_spots,
            path_dividends,
            dividends_on,
            node_times,
            bond_counts,
            node_spots,
            reverse_node,
            reverse_path,
            reverse_market,
            reverse_leverage,
            reverse_market_iv,
            model,
        );
        SuppliedHybridWorld {
            price,
            time_count,
            discount_count,
            dividend_count,
            leverage_count,
            quote_count,
            pseudo_shocks,
            record_path,
            states,
            relative_discount,
            relative_bond,
            payoff_adjoints,
            proportional_spots,
            path_dividends,
            dividends_on,
            node_times,
            bond_counts,
            node_spots,
            reverse_node,
            reverse_path,
            reverse_market,
            reverse_leverage,
            reverse_market_iv,
            model: Ghost(model),
        }
    }

    /// Takes functions that are known to compute `model`.
    pub fn with_model(
        price: FPrice,
        time_count: FTimeCount,
        discount_count: FDiscountCount,
        dividend_count: FDividendCount,
        leverage_count: FLeverageCount,
        quote_count: FQuoteCount,
        pseudo_shocks: FPseudoShocks,
        record_path: FRecordPath,
        states: FStates,
        relative_discount: FRelativeDiscount,
        relative_bond: FRelativeBond,
        payoff_adjoints: FPayoffAdjoints,
        proportional_spots: FProportionalSpots,
        path_dividends: FPathDividends,
        dividends_on: FDividendsOn,
        node_times: FNodeTimes,
        bond_counts: FBondCounts,
        node_spots: FNodeSpots,
        reverse_node: FReverseNode,
        reverse_path: FReversePath,
        reverse_market: FReverseMarket,
        reverse_leverage: FReverseLeverage,
        reverse_market_iv: FReverseMarketIv,
        model: Ghost<SuppliedHybridWorldModel<R, Recorded, Dividends>>,
    ) -> (s: Self)
        requires
            Self::callable(
                price,
                time_count,
                discount_count,
                dividend_count,
                leverage_count,
                quote_count,
                pseudo_shocks,
                record_path,
                states,
                relative_discount,
                relative_bond,
                payoff_adjoints,
                proportional_spots,
                path_dividends,
                dividends_on,
                node_times,
                bond_counts,
                node_spots,
                reverse_node,
                reverse_path,
                reverse_market,
                reverse_leverage,
                reverse_market_iv,
            ),
            Self::computes(
                price,
                time_count,
                discount_count,
                dividend_count,
                leverage_count,
                quote_count,
                pseudo_shocks,
                record_path,
                states,
                relative_discount,
                relative_bond,
                payoff_adjoints,
                proportional_spots,
                path_dividends,
                dividends_on,
                node_times,
                bond_counts,
                node_spots,
                reverse_node,
                reverse_path,
                reverse_market,
                reverse_leverage,
                reverse_market_iv,
                model@,
            ),
        ensures
            s.supplied() == model@,
    {
        SuppliedHybridWorld {
            price,
            time_count,
            discount_count,
            dividend_count,
            leverage_count,
            quote_count,
            pseudo_shocks,
            record_path,
            states,
            relative_discount,
            relative_bond,
            payoff_adjoints,
            proportional_spots,
            path_dividends,
            dividends_on,
            node_times,
            bond_counts,
            node_spots,
            reverse_node,
            reverse_path,
            reverse_market,
            reverse_leverage,
            reverse_market_iv,
            model,
        }
    }
}

impl<
    R: Scalar,
    Recorded,
    Dividends,
    FPrice: Fn(&HullWhiteEquityPricingPlan<R>) -> Result<HullWhitePrice<R>, MonteCarloError>,
    FTimeCount: Fn() -> usize,
    FDiscountCount: Fn() -> usize,
    FDividendCount: Fn() -> usize,
    FLeverageCount: Fn() -> usize,
    FQuoteCount: Fn() -> usize,
    FPseudoShocks: Fn(u64) -> Result<Vec<R>, MonteCarloError>,
    FRecordPath: Fn(&Vec<R>) -> Result<Recorded, MonteCarloError>,
    FStates: Fn(&Recorded) -> Vec<HybridState<R>>,
    FRelativeDiscount: Fn(R, R) -> Result<R, MonteCarloError>,
    FRelativeBond: Fn(R, R, R) -> Result<R, MonteCarloError>,
    FPayoffAdjoints: Fn(&Vec<R>, &Vec<AffineSpot<R>>) -> Result<
        (R, Vec<SpotSeed<R>>),
        MonteCarloError,
    >,
    FProportionalSpots: Fn(&Vec<R>, &Vec<R>) -> Result<Vec<AffineSpot<R>>, MonteCarloError>,
    FPathDividends: Fn() -> Option<Dividends>,
    FDividendsOn: Fn(&Vec<R>) -> Result<Dividends, MonteCarloError>,
    FNodeTimes: Fn(&Dividends) -> Vec<R>,
    FBondCounts: Fn(&Dividends) -> Vec<usize>,
    FNodeSpots: Fn(&Dividends, usize, R, R) -> Result<AffineSpot<R>, MonteCarloError>,
    FReverseNode: Fn(
        &Dividends,
        usize,
        R,
        R,
        SpotSeed<R>,
        &HullWhiteDividendNodeAdjoints<R>,
    ) -> Result<(R, HullWhiteDividendNodeAdjoints<R>), MonteCarloError>,
    FReversePath: Fn(&Recorded, &Vec<R>) -> Result<PathReverse<R>, MonteCarloError>,
    FReverseMarket: Fn(
        &Dividends,
        &Vec<HullWhiteDividendNodeAdjoints<R>>,
    ) -> Result<MarketAdjoints<R>, MonteCarloError>,
    FReverseLeverage: Fn(&Vec<R>) -> Result<LeverageReverse<R>, MonteCarloError>,
    FReverseMarketIv: Fn(&Vec<R>, &Vec<R>) -> Result<Vec<R>, MonteCarloError>,
> HybridWorld<R> for SuppliedHybridWorld<
    R,
    Recorded,
    Dividends,
    FPrice,
    FTimeCount,
    FDiscountCount,
    FDividendCount,
    FLeverageCount,
    FQuoteCount,
    FPseudoShocks,
    FRecordPath,
    FStates,
    FRelativeDiscount,
    FRelativeBond,
    FPayoffAdjoints,
    FProportionalSpots,
    FPathDividends,
    FDividendsOn,
    FNodeTimes,
    FBondCounts,
    FNodeSpots,
    FReverseNode,
    FReversePath,
    FReverseMarket,
    FReverseLeverage,
    FReverseMarketIv,
> {
    type Recorded = Recorded;

    type Dividends = Dividends;

    open spec fn priced(&self, plan: HullWhiteEquityPricingPlan<R>) -> Result<
        HullWhitePrice<R>,
        MonteCarloError,
    > {
        (self.supplied().price)(plan)
    }

    open spec fn time_count_of(&self) -> usize {
        (self.supplied().time_count)()
    }

    open spec fn discount_count_of(&self) -> usize {
        (self.supplied().discount_count)()
    }

    open spec fn dividend_count_of(&self) -> usize {
        (self.supplied().dividend_count)()
    }

    open spec fn leverage_count_of(&self) -> usize {
        (self.supplied().leverage_count)()
    }

    open spec fn quote_count_of(&self) -> usize {
        (self.supplied().quote_count)()
    }

    open spec fn pseudo_shocks_of(&self, path: u64) -> Result<Seq<R>, MonteCarloError> {
        (self.supplied().pseudo_shocks)(path)
    }

    open spec fn recorded(&self, shocks: Seq<R>) -> Result<Recorded, MonteCarloError> {
        (self.supplied().record_path)(shocks)
    }

    open spec fn states_of(&self, path: Self::Recorded) -> Seq<HybridState<R>> {
        (self.supplied().states)(path)
    }

    open spec fn relative_discount_of(&self, time: R, integrated: R) -> Result<R, MonteCarloError> {
        (self.supplied().relative_discount)(time, integrated)
    }

    open spec fn relative_bond_of(&self, from: R, to: R, factor: R) -> Result<R, MonteCarloError> {
        (self.supplied().relative_bond)(from, to, factor)
    }

    open spec fn payoff_adjoints_of(
        &self,
        grid: Seq<R>,
        spots: Seq<AffineSpot<R>>,
    ) -> Result<(R, Seq<SpotSeed<R>>), MonteCarloError> {
        (self.supplied().payoff_adjoints)(grid, spots)
    }

    open spec fn proportional_spots_of(
        &self,
        grid: Seq<R>,
        equities: Seq<R>,
    ) -> Result<Seq<AffineSpot<R>>, MonteCarloError> {
        (self.supplied().proportional_spots)(grid, equities)
    }

    open spec fn path_dividends_of(&self) -> Option<Dividends> {
        (self.supplied().path_dividends)()
    }

    open spec fn dividends_made(&self, grid: Seq<R>) -> Result<Dividends, MonteCarloError> {
        (self.supplied().dividends_on)(grid)
    }

    open spec fn node_times_of(&self, dividends: Self::Dividends) -> Seq<R> {
        (self.supplied().node_times)(dividends)
    }

    open spec fn bond_counts_of(&self, dividends: Self::Dividends) -> Seq<usize> {
        (self.supplied().bond_counts)(dividends)
    }

    open spec fn node_spots_of(
        &self,
        dividends: Self::Dividends,
        node: usize,
        equity: R,
        rate: R,
    ) -> Result<AffineSpot<R>, MonteCarloError> {
        (self.supplied().node_spots)(dividends, node, equity, rate)
    }

    open spec fn node_reversed(
        &self,
        dividends: Self::Dividends,
        node: usize,
        equity: R,
        rate: R,
        seed: SpotSeed<R>,
        adjoints: NodeAdjointsView<R>,
    ) -> Result<(R, NodeAdjointsView<R>), MonteCarloError> {
        (self.supplied().reverse_node)(dividends, node, equity, rate, seed, adjoints)
    }

    open spec fn path_reversed(
        &self,
        path: Self::Recorded,
        seeds: Seq<R>,
    ) -> Result<PathReverseView<R>, MonteCarloError> {
        (self.supplied().reverse_path)(path, seeds)
    }

    open spec fn market_reversed(
        &self,
        dividends: Self::Dividends,
        nodes: Seq<NodeAdjointsView<R>>,
    ) -> Result<MarketAdjointsView<R>, MonteCarloError> {
        (self.supplied().reverse_market)(dividends, nodes)
    }

    open spec fn leverage_reversed(&self, seeds: Seq<R>) -> Result<
        LeverageReverseView<R>,
        MonteCarloError,
    > {
        (self.supplied().reverse_leverage)(seeds)
    }

    open spec fn market_iv_reversed(
        &self,
        local_variance: Seq<R>,
        forward_log_density: Seq<R>,
    ) -> Result<Seq<R>, MonteCarloError> {
        (self.supplied().reverse_market_iv)(local_variance, forward_log_density)
    }

    fn price(&self, plan: &HullWhiteEquityPricingPlan<R>) -> (r: Result<
        HullWhitePrice<R>,
        MonteCarloError,
    >) {
        proof {
            use_type_invariant(self);
        }
        (self.price)(plan)
    }

    fn time_count(&self) -> (r: usize) {
        proof {
            use_type_invariant(self);
        }
        (self.time_count)()
    }

    fn discount_count(&self) -> (r: usize) {
        proof {
            use_type_invariant(self);
        }
        (self.discount_count)()
    }

    fn dividend_count(&self) -> (r: usize) {
        proof {
            use_type_invariant(self);
        }
        (self.dividend_count)()
    }

    fn leverage_count(&self) -> (r: usize) {
        proof {
            use_type_invariant(self);
        }
        (self.leverage_count)()
    }

    fn quote_count(&self) -> (r: usize) {
        proof {
            use_type_invariant(self);
        }
        (self.quote_count)()
    }

    fn pseudo_shocks(&self, path: u64) -> (r: Result<Vec<R>, MonteCarloError>) {
        proof {
            use_type_invariant(self);
        }
        (self.pseudo_shocks)(path)
    }

    fn record_path(&self, shocks: &Vec<R>) -> (r: Result<Self::Recorded, MonteCarloError>) {
        proof {
            use_type_invariant(self);
        }
        (self.record_path)(shocks)
    }

    fn states(&self, path: &Self::Recorded) -> (r: Vec<HybridState<R>>) {
        proof {
            use_type_invariant(self);
        }
        (self.states)(path)
    }

    fn relative_discount(&self, time: R, integrated: R) -> (r: Result<R, MonteCarloError>) {
        proof {
            use_type_invariant(self);
        }
        (self.relative_discount)(time, integrated)
    }

    fn relative_bond(&self, from: R, to: R, factor: R) -> (r: Result<R, MonteCarloError>) {
        proof {
            use_type_invariant(self);
        }
        (self.relative_bond)(from, to, factor)
    }

    fn payoff_adjoints(&self, grid: &Vec<R>, spots: &Vec<AffineSpot<R>>) -> (
        r: Result<(R, Vec<SpotSeed<R>>), MonteCarloError>
    ) {
        proof {
            use_type_invariant(self);
        }
        (self.payoff_adjoints)(grid, spots)
    }

    fn proportional_spots(&self, grid: &Vec<R>, equities: &Vec<R>) -> (
        r: Result<Vec<AffineSpot<R>>, MonteCarloError>
    ) {
        proof {
            use_type_invariant(self);
        }
        (self.proportional_spots)(grid, equities)
    }

    fn path_dividends(&self) -> (r: Option<Self::Dividends>) {
        proof {
            use_type_invariant(self);
        }
        (self.path_dividends)()
    }

    fn dividends_on(&self, grid: &Vec<R>) -> (r: Result<Self::Dividends, MonteCarloError>) {
        proof {
            use_type_invariant(self);
        }
        (self.dividends_on)(grid)
    }

    fn node_times(&self, dividends: &Self::Dividends) -> (r: Vec<R>) {
        proof {
            use_type_invariant(self);
        }
        (self.node_times)(dividends)
    }

    fn bond_counts(&self, dividends: &Self::Dividends) -> (r: Vec<usize>) {
        proof {
            use_type_invariant(self);
        }
        (self.bond_counts)(dividends)
    }

    fn node_spots(
        &self,
        dividends: &Self::Dividends,
        node: usize,
        equity: R,
        rate: R,
    ) -> (r: Result<AffineSpot<R>, MonteCarloError>) {
        proof {
            use_type_invariant(self);
        }
        (self.node_spots)(dividends, node, equity, rate)
    }

    fn reverse_node(
        &self,
        dividends: &Self::Dividends,
        node: usize,
        equity: R,
        rate: R,
        seed: SpotSeed<R>,
        adjoints: &HullWhiteDividendNodeAdjoints<R>,
    ) -> (r: Result<(R, HullWhiteDividendNodeAdjoints<R>), MonteCarloError>) {
        proof {
            use_type_invariant(self);
        }
        (self.reverse_node)(dividends, node, equity, rate, seed, adjoints)
    }

    fn reverse_path(
        &self,
        path: &Self::Recorded,
        seeds: &Vec<R>,
    ) -> (r: Result<PathReverse<R>, MonteCarloError>) {
        proof {
            use_type_invariant(self);
        }
        (self.reverse_path)(path, seeds)
    }

    fn reverse_market(
        &self,
        dividends: &Self::Dividends,
        nodes: &Vec<HullWhiteDividendNodeAdjoints<R>>,
    ) -> (r: Result<MarketAdjoints<R>, MonteCarloError>) {
        proof {
            use_type_invariant(self);
        }
        (self.reverse_market)(dividends, nodes)
    }

    fn reverse_leverage(&self, seeds: &Vec<R>) -> (r: Result<LeverageReverse<R>, MonteCarloError>) {
        proof {
            use_type_invariant(self);
        }
        (self.reverse_leverage)(seeds)
    }

    fn reverse_market_iv(
        &self,
        local_variance: &Vec<R>,
        forward_log_density: &Vec<R>,
    ) -> (r: Result<Vec<R>, MonteCarloError>) {
        proof {
            use_type_invariant(self);
        }
        (self.reverse_market_iv)(local_variance, forward_log_density)
    }
}

} // verus!
