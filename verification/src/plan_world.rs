//! What the derivatives of a dividend plan obtain from its path, its payoff and
//! its markets.

use crate::errors::MonteCarloError;
use crate::market::CarryMarket;
use crate::models::{
    Bergomi1Factor, Bergomi2Factor, BuehlerDividendState, Pair, RoughBergomi,
};
use crate::results::{pair_seen, seen};
use crate::reverse::{DividendPath, PathNode, SpotSeed};
use crate::scalar::Scalar;
use vstd::prelude::*;

verus! {

/// The parameters of a market can be counted.
pub open spec fn market_sized<R: Scalar, C: CarryMarket<R>>(c: C) -> bool {
    16 + c.events_of().len() + c.discount_times_of().len() + c.repo_spread_times_of().len()
        <= usize::MAX
}

/// What the derivatives of a plan obtain from what lies beneath it.
pub trait PlanWorld<R: Scalar> {
    /// A leverage surface.
    type Surface;

    /// The spots of a node, before and after its dividend.
    type Spot;

    /// A market.
    type Market: CarryMarket<R>;

    /// The states of a path under shocks.
    spec fn evolution(
        &self,
        path: DividendPath<R, Self::Surface>,
        shocks: Seq<R>,
    ) -> Result<Seq<BuehlerDividendState<R>>, MonteCarloError>;

    /// The spots of a node in a state.
    spec fn spots_of(
        &self,
        node: PathNode<R>,
        state: BuehlerDividendState<R>,
    ) -> Result<Self::Spot, MonteCarloError>;

    /// The discounted payoff of the spots at the times of a path.
    spec fn payoff_of(&self, times: Seq<R>, spots: Seq<Self::Spot>) -> Result<R, MonteCarloError>;

    /// The discounted payoff of the spots at the times of a path, and its derivative with
    /// respect to each.
    spec fn payoff_adjoints_of(
        &self,
        times: Seq<R>,
        spots: Seq<Self::Spot>,
    ) -> Result<(R, Seq<SpotSeed<R>>), MonteCarloError>;

    /// The market with another spot.
    spec fn market_moved(&self, spot: R) -> Result<Self::Market, MonteCarloError>;

    /// The path of the plan in another market.
    spec fn path_moved(&self, market: Self::Market) -> Result<
        DividendPath<R, Self::Surface>,
        MonteCarloError,
    >;

    /// The path of the plan in another market, without its volatility.
    spec fn residual_base_of(&self, market: Self::Market) -> Result<
        DividendPath<R, Self::Surface>,
        MonteCarloError,
    >;

    /// The residual equity that a path starts from.
    spec fn residual_equity_of(&self, path: DividendPath<R, Self::Surface>) -> R;

    /// The calibrated leverage surface, anchored at another residual equity.
    spec fn surface_anchored(&self, initial: R) -> Result<Self::Surface, MonteCarloError>;

    /// A path with one volatility factor and a leverage surface.
    spec fn one_attached(
        &self,
        path: DividendPath<R, Self::Surface>,
        factor: Bergomi1Factor<R>,
        correlation: R,
        surface: Self::Surface,
    ) -> Result<DividendPath<R, Self::Surface>, MonteCarloError>;

    /// A path with two volatility factors and a leverage surface.
    spec fn two_attached(
        &self,
        path: DividendPath<R, Self::Surface>,
        factor: Bergomi2Factor<R>,
        correlations: Pair<R>,
        surface: Self::Surface,
    ) -> Result<DividendPath<R, Self::Surface>, MonteCarloError>;

    /// A path with rough volatility and a leverage surface.
    spec fn rough_attached(
        &self,
        path: DividendPath<R, Self::Surface>,
        factor: RoughBergomi<R>,
        correlation: R,
        surface: Self::Surface,
    ) -> Result<DividendPath<R, Self::Surface>, MonteCarloError>;

    /// The bits of a number.
    spec fn bits_of(&self, number: R) -> u64;

    /// Computes [`Self::evolution`].
    fn evolve_path(
        &self,
        path: &DividendPath<R, Self::Surface>,
        shocks: &Vec<R>,
    ) -> (r: Result<Vec<BuehlerDividendState<R>>, MonteCarloError>)
        ensures
            seen(r) == self.evolution(*path, shocks@),
    ;

    /// Computes [`Self::spots_of`].
    fn spots(
        &self,
        node: PathNode<R>,
        state: BuehlerDividendState<R>,
    ) -> (r: Result<Self::Spot, MonteCarloError>)
        ensures
            r == self.spots_of(node, state),
    ;

    /// Computes [`Self::payoff_of`].
    fn payoff(&self, times: &Vec<R>, spots: &Vec<Self::Spot>) -> (r: Result<R, MonteCarloError>)
        ensures
            r == self.payoff_of(times@, spots@),
    ;

    /// Computes [`Self::payoff_adjoints_of`].
    fn payoff_adjoints(&self, times: &Vec<R>, spots: &Vec<Self::Spot>) -> (
        r: Result<(R, Vec<SpotSeed<R>>), MonteCarloError>
    )
        ensures
            pair_seen(r) == self.payoff_adjoints_of(times@, spots@),
    ;

    /// Computes [`Self::market_moved`].
    fn market_at(&self, spot: R) -> (r: Result<Self::Market, MonteCarloError>)
        ensures
            r == self.market_moved(spot),
            r matches Ok(c) ==> market_sized::<R, Self::Market>(c),
    ;

    /// Computes [`Self::path_moved`].
    fn path_at(&self, market: &Self::Market) -> (
        r: Result<DividendPath<R, Self::Surface>, MonteCarloError>
    )
        ensures
            r == self.path_moved(*market),
            r matches Ok(p) ==> p@.valid(),
    ;

    /// Computes [`Self::residual_base_of`].
    fn residual_base(&self, market: &Self::Market) -> (
        r: Result<DividendPath<R, Self::Surface>, MonteCarloError>
    )
        ensures
            r == self.residual_base_of(*market),
            r matches Ok(p) ==> p@.valid(),
    ;

    /// Computes [`Self::residual_equity_of`].
    fn residual_equity(&self, path: &DividendPath<R, Self::Surface>) -> (r: R)
        ensures
            r == self.residual_equity_of(*path),
    ;

    /// Computes [`Self::surface_anchored`].
    fn anchor(&self, initial: R) -> (r: Result<Self::Surface, MonteCarloError>)
        ensures
            r == self.surface_anchored(initial),
    ;

    /// Computes [`Self::one_attached`].
    fn attach_one(
        &self,
        path: &DividendPath<R, Self::Surface>,
        factor: Bergomi1Factor<R>,
        correlation: R,
        surface: Self::Surface,
    ) -> (r: Result<DividendPath<R, Self::Surface>, MonteCarloError>)
        ensures
            r == self.one_attached(*path, factor, correlation, surface),
            r matches Ok(p) ==> p@.valid(),
    ;

    /// Computes [`Self::two_attached`].
    fn attach_two(
        &self,
        path: &DividendPath<R, Self::Surface>,
        factor: Bergomi2Factor<R>,
        correlations: Pair<R>,
        surface: Self::Surface,
    ) -> (r: Result<DividendPath<R, Self::Surface>, MonteCarloError>)
        ensures
            r == self.two_attached(*path, factor, correlations, surface),
            r matches Ok(p) ==> p@.valid(),
    ;

    /// Computes [`Self::rough_attached`].
    fn attach_rough(
        &self,
        path: &DividendPath<R, Self::Surface>,
        factor: RoughBergomi<R>,
        correlation: R,
        surface: Self::Surface,
    ) -> (r: Result<DividendPath<R, Self::Surface>, MonteCarloError>)
        ensures
            r == self.rough_attached(*path, factor, correlation, surface),
            r matches Ok(p) ==> p@.valid(),
    ;

    /// Computes [`Self::bits_of`].
    fn bits(&self, number: R) -> (r: u64)
        ensures
            r == self.bits_of(number),
    ;
}

/// The functions behind a [`SuppliedPlanWorld`], as mathematical functions.
#[verifier::reject_recursive_types(R)]
#[verifier::reject_recursive_types(Surface)]
#[verifier::reject_recursive_types(Spot)]
#[verifier::reject_recursive_types(Market)]
pub ghost struct SuppliedPlanWorldModel<R, Surface, Spot, Market> {
    pub evolve_path: spec_fn(DividendPath<R, Surface>, Seq<R>) -> Result<
        Seq<BuehlerDividendState<R>>,
        MonteCarloError,
    >,
    pub spots: spec_fn(PathNode<R>, BuehlerDividendState<R>) -> Result<Spot, MonteCarloError>,
    pub payoff: spec_fn(Seq<R>, Seq<Spot>) -> Result<R, MonteCarloError>,
    pub payoff_adjoints: spec_fn(Seq<R>, Seq<Spot>) -> Result<
        (R, Seq<SpotSeed<R>>),
        MonteCarloError,
    >,
    pub market_at: spec_fn(R) -> Result<Market, MonteCarloError>,
    pub path_at: spec_fn(Market) -> Result<DividendPath<R, Surface>, MonteCarloError>,
    pub residual_base: spec_fn(Market) -> Result<DividendPath<R, Surface>, MonteCarloError>,
    pub residual_equity: spec_fn(DividendPath<R, Surface>) -> R,
    pub anchor: spec_fn(R) -> Result<Surface, MonteCarloError>,
    pub attach_one: spec_fn(
        DividendPath<R, Surface>,
        Bergomi1Factor<R>,
        R,
        Surface,
    ) -> Result<DividendPath<R, Surface>, MonteCarloError>,
    pub attach_two: spec_fn(
        DividendPath<R, Surface>,
        Bergomi2Factor<R>,
        Pair<R>,
        Surface,
    ) -> Result<DividendPath<R, Surface>, MonteCarloError>,
    pub attach_rough: spec_fn(
        DividendPath<R, Surface>,
        RoughBergomi<R>,
        R,
        Surface,
    ) -> Result<DividendPath<R, Surface>, MonteCarloError>,
    pub bits: spec_fn(R) -> u64,
}

/// A [`PlanWorld`] whose functions are supplied one by one.
#[verifier::reject_recursive_types(R)]
#[verifier::reject_recursive_types(Surface)]
#[verifier::reject_recursive_types(Spot)]
#[verifier::reject_recursive_types(Market)]
pub struct SuppliedPlanWorld<
    R: Scalar,
    Surface,
    Spot,
    Market: CarryMarket<R>,
    FEvolvePath: Fn(&DividendPath<R, Surface>, &Vec<R>) -> Result<
        Vec<BuehlerDividendState<R>>,
        MonteCarloError,
    >,
    FSpots: Fn(PathNode<R>, BuehlerDividendState<R>) -> Result<Spot, MonteCarloError>,
    FPayoff: Fn(&Vec<R>, &Vec<Spot>) -> Result<R, MonteCarloError>,
    FPayoffAdjoints: Fn(&Vec<R>, &Vec<Spot>) -> Result<(R, Vec<SpotSeed<R>>), MonteCarloError>,
    FMarketAt: Fn(R) -> Result<Market, MonteCarloError>,
    FPathAt: Fn(&Market) -> Result<DividendPath<R, Surface>, MonteCarloError>,
    FResidualBase: Fn(&Market) -> Result<DividendPath<R, Surface>, MonteCarloError>,
    FResidualEquity: Fn(&DividendPath<R, Surface>) -> R,
    FAnchor: Fn(R) -> Result<Surface, MonteCarloError>,
    FAttachOne: Fn(
        &DividendPath<R, Surface>,
        Bergomi1Factor<R>,
        R,
        Surface,
    ) -> Result<DividendPath<R, Surface>, MonteCarloError>,
    FAttachTwo: Fn(
        &DividendPath<R, Surface>,
        Bergomi2Factor<R>,
        Pair<R>,
        Surface,
    ) -> Result<DividendPath<R, Surface>, MonteCarloError>,
    FAttachRough: Fn(
        &DividendPath<R, Surface>,
        RoughBergomi<R>,
        R,
        Surface,
    ) -> Result<DividendPath<R, Surface>, MonteCarloError>,
    FBits: Fn(R) -> u64,
> {
    evolve_path: FEvolvePath,
    spots: FSpots,
    payoff: FPayoff,
    payoff_adjoints: FPayoffAdjoints,
    market_at: FMarketAt,
    path_at: FPathAt,
    residual_base: FResidualBase,
    residual_equity: FResidualEquity,
    anchor: FAnchor,
    attach_one: FAttachOne,
    attach_two: FAttachTwo,
    attach_rough: FAttachRough,
    bits: FBits,
    model: Ghost<SuppliedPlanWorldModel<R, Surface, Spot, Market>>,
}

impl<
    R: Scalar,
    Surface,
    Spot,
    Market: CarryMarket<R>,
    FEvolvePath: Fn(&DividendPath<R, Surface>, &Vec<R>) -> Result<
        Vec<BuehlerDividendState<R>>,
        MonteCarloError,
    >,
    FSpots: Fn(PathNode<R>, BuehlerDividendState<R>) -> Result<Spot, MonteCarloError>,
    FPayoff: Fn(&Vec<R>, &Vec<Spot>) -> Result<R, MonteCarloError>,
    FPayoffAdjoints: Fn(&Vec<R>, &Vec<Spot>) -> Result<(R, Vec<SpotSeed<R>>), MonteCarloError>,
    FMarketAt: Fn(R) -> Result<Market, MonteCarloError>,
    FPathAt: Fn(&Market) -> Result<DividendPath<R, Surface>, MonteCarloError>,
    FResidualBase: Fn(&Market) -> Result<DividendPath<R, Surface>, MonteCarloError>,
    FResidualEquity: Fn(&DividendPath<R, Surface>) -> R,
    FAnchor: Fn(R) -> Result<Surface, MonteCarloError>,
    FAttachOne: Fn(
        &DividendPath<R, Surface>,
        Bergomi1Factor<R>,
        R,
        Surface,
    ) -> Result<DividendPath<R, Surface>, MonteCarloError>,
    FAttachTwo: Fn(
        &DividendPath<R, Surface>,
        Bergomi2Factor<R>,
        Pair<R>,
        Surface,
    ) -> Result<DividendPath<R, Surface>, MonteCarloError>,
    FAttachRough: Fn(
        &DividendPath<R, Surface>,
        RoughBergomi<R>,
        R,
        Surface,
    ) -> Result<DividendPath<R, Surface>, MonteCarloError>,
    FBits: Fn(R) -> u64,
> SuppliedPlanWorld<
    R,
    Surface,
    Spot,
    Market,
    FEvolvePath,
    FSpots,
    FPayoff,
    FPayoffAdjoints,
    FMarketAt,
    FPathAt,
    FResidualBase,
    FResidualEquity,
    FAnchor,
    FAttachOne,
    FAttachTwo,
    FAttachRough,
    FBits,
> {
    #[verifier::type_invariant]
    closed spec fn inv(self) -> bool {
        Self::callable(
            self.evolve_path,
            self.spots,
            self.payoff,
            self.payoff_adjoints,
            self.market_at,
            self.path_at,
            self.residual_base,
            self.residual_equity,
            self.anchor,
            self.attach_one,
            self.attach_two,
            self.attach_rough,
            self.bits,
        )
            && Self::computes(
                self.evolve_path,
                self.spots,
                self.payoff,
                self.payoff_adjoints,
                self.market_at,
                self.path_at,
                self.residual_base,
                self.residual_equity,
                self.anchor,
                self.attach_one,
                self.attach_two,
                self.attach_rough,
                self.bits,
                self.model@,
            )
    }

    /// The functions accept every argument.
    pub open spec fn callable(
        evolve_path: FEvolvePath,
        spots: FSpots,
        payoff: FPayoff,
        payoff_adjoints: FPayoffAdjoints,
        market_at: FMarketAt,
        path_at: FPathAt,
        residual_base: FResidualBase,
        residual_equity: FResidualEquity,
        anchor: FAnchor,
        attach_one: FAttachOne,
        attach_two: FAttachTwo,
        attach_rough: FAttachRough,
        bits: FBits,
    ) -> bool {
        &&& forall|path: &DividendPath<R, Surface>, shocks: &Vec<R>|
            #[trigger] call_requires(evolve_path, (path, shocks))
        &&& forall|node: PathNode<R>, state: BuehlerDividendState<R>|
            #[trigger] call_requires(spots, (node, state))
        &&& forall|times: &Vec<R>, spots: &Vec<Spot>|
            #[trigger] call_requires(payoff, (times, spots))
        &&& forall|times: &Vec<R>, spots: &Vec<Spot>| #[trigger] call_requires(
            payoff_adjoints,
            (times, spots),
        )
        &&& forall|spot: R| #[trigger] call_requires(market_at, (spot,))
        &&& forall|market: &Market| #[trigger] call_requires(path_at, (market,))
        &&& forall|market: &Market| #[trigger] call_requires(residual_base, (market,))
        &&& forall|path: &DividendPath<R, Surface>|
            #[trigger] call_requires(residual_equity, (path,))
        &&& forall|initial: R| #[trigger] call_requires(anchor, (initial,))
        &&& forall|
            path: &DividendPath<R, Surface>,
            factor: Bergomi1Factor<R>,
            correlation: R,
            surface: Surface,
        |
            #[trigger] call_requires(
                attach_one,
                (path, factor, correlation, surface),
            )
        &&& forall|
            path: &DividendPath<R, Surface>,
            factor: Bergomi2Factor<R>,
            correlations: Pair<R>,
            surface: Surface,
        |
            #[trigger] call_requires(
                attach_two,
                (path, factor, correlations, surface),
            )
        &&& forall|
            path: &DividendPath<R, Surface>,
            factor: RoughBergomi<R>,
            correlation: R,
            surface: Surface,
        |
            #[trigger] call_requires(
                attach_rough,
                (path, factor, correlation, surface),
            )
        &&& forall|number: R| #[trigger] call_requires(bits, (number,))
    }

    /// The functions compute those of the model.
    pub open spec fn computes(
        evolve_path: FEvolvePath,
        spots: FSpots,
        payoff: FPayoff,
        payoff_adjoints: FPayoffAdjoints,
        market_at: FMarketAt,
        path_at: FPathAt,
        residual_base: FResidualBase,
        residual_equity: FResidualEquity,
        anchor: FAnchor,
        attach_one: FAttachOne,
        attach_two: FAttachTwo,
        attach_rough: FAttachRough,
        bits: FBits,
        model: SuppliedPlanWorldModel<R, Surface, Spot, Market>,
    ) -> bool {
        &&& forall|
            path: &DividendPath<R, Surface>,
            shocks: &Vec<R>,
            result: Result<Vec<BuehlerDividendState<R>>, MonteCarloError>,
        |
            #[trigger]
            call_ensures(
                evolve_path,
                (path, shocks),
                result,
            ) ==> seen(result) == (model.evolve_path)(*path, shocks@)
        &&& forall|
            node: PathNode<R>,
            state: BuehlerDividendState<R>,
            result: Result<Spot, MonteCarloError>,
        |
            #[trigger]
            call_ensures(spots, (node, state), result) ==> result == (model.spots)(node, state)
        &&& forall|times: &Vec<R>, spots: &Vec<Spot>, result: Result<R, MonteCarloError>| #[trigger]
            call_ensures(
                payoff,
                (times, spots),
                result,
            ) ==> result == (model.payoff)(times@, spots@)
        &&& forall|
            times: &Vec<R>,
            spots: &Vec<Spot>,
            result: Result<(R, Vec<SpotSeed<R>>), MonteCarloError>,
        |
            #[trigger]
            call_ensures(
                payoff_adjoints,
                (times, spots),
                result,
            ) ==> pair_seen(result) == (model.payoff_adjoints)(times@, spots@)
        &&& forall|spot: R, result: Result<Market, MonteCarloError>| #[trigger]
            call_ensures(market_at, (spot,), result) ==> result == (model.market_at)(spot) && (
                result matches Ok(c) ==> market_sized::<R, Market>(c)
            )
        &&& forall|market: &Market, result: Result<DividendPath<R, Surface>, MonteCarloError>|
            #[trigger]
            call_ensures(path_at, (market,), result) ==> result == (model.path_at)(*market) && (
                result matches Ok(p) ==> p@.valid()
            )
        &&& forall|market: &Market, result: Result<DividendPath<R, Surface>, MonteCarloError>|
            #[trigger]
            call_ensures(residual_base, (market,), result)
                ==> result == (model.residual_base)(*market) && (
                result matches Ok(p) ==> p@.valid()
            )
        &&& forall|path: &DividendPath<R, Surface>, result: R| #[trigger]
            call_ensures(
                residual_equity,
                (path,),
                result,
            ) ==> result == (model.residual_equity)(*path)
        &&& forall|initial: R, result: Result<Surface, MonteCarloError>| #[trigger]
            call_ensures(anchor, (initial,), result) ==> result == (model.anchor)(initial)
        &&& forall|
            path: &DividendPath<R, Surface>,
            factor: Bergomi1Factor<R>,
            correlation: R,
            surface: Surface,
            result: Result<DividendPath<R, Surface>, MonteCarloError>,
        |
            #[trigger]
            call_ensures(
                attach_one,
                (path, factor, correlation, surface),
                result,
            ) ==> result == (model.attach_one)(
                *path,
                factor,
                correlation,
                surface,
            ) && (result matches Ok(p) ==> p@.valid())
        &&& forall|
            path: &DividendPath<R, Surface>,
            factor: Bergomi2Factor<R>,
            correlations: Pair<R>,
            surface: Surface,
            result: Result<DividendPath<R, Surface>, MonteCarloError>,
        |
            #[trigger]
            call_ensures(
                attach_two,
                (path, factor, correlations, surface),
                result,
            ) ==> result == (model.attach_two)(
                *path,
                factor,
                correlations,
                surface,
            ) && (result matches Ok(p) ==> p@.valid())
        &&& forall|
            path: &DividendPath<R, Surface>,
            factor: RoughBergomi<R>,
            correlation: R,
            surface: Surface,
            result: Result<DividendPath<R, Surface>, MonteCarloError>,
        |
            #[trigger]
            call_ensures(
                attach_rough,
                (path, factor, correlation, surface),
                result,
            ) ==> result == (model.attach_rough)(
                *path,
                factor,
                correlation,
                surface,
            ) && (result matches Ok(p) ==> p@.valid())
        &&& forall|number: R, result: u64| #[trigger]
            call_ensures(bits, (number,), result) ==> result == (model.bits)(number)
    }

    /// The functions that were supplied.
    pub closed spec fn supplied(self) -> SuppliedPlanWorldModel<R, Surface, Spot, Market> {
        self.model@
    }

    /// Takes functions that give the same result whenever they are given the
    /// same arguments.
    pub fn new(
        evolve_path: FEvolvePath,
        spots: FSpots,
        payoff: FPayoff,
        payoff_adjoints: FPayoffAdjoints,
        market_at: FMarketAt,
        path_at: FPathAt,
        residual_base: FResidualBase,
        residual_equity: FResidualEquity,
        anchor: FAnchor,
        attach_one: FAttachOne,
        attach_two: FAttachTwo,
        attach_rough: FAttachRough,
        bits: FBits,
    ) -> (s: Self)
        requires
            Self::callable(
                evolve_path,
                spots,
                payoff,
                payoff_adjoints,
                market_at,
                path_at,
                residual_base,
                residual_equity,
                anchor,
                attach_one,
                attach_two,
                attach_rough,
                bits,
            ),
            exists|model: SuppliedPlanWorldModel<R, Surface, Spot, Market>|
                #[trigger] Self::computes(
                    evolve_path,
                    spots,
                    payoff,
                    payoff_adjoints,
                    market_at,
                    path_at,
                    residual_base,
                    residual_equity,
                    anchor,
                    attach_one,
                    attach_two,
                    attach_rough,
                    bits,
                    model,
                ),
        ensures
            Self::computes(
                evolve_path,
                spots,
                payoff,
                payoff_adjoints,
                market_at,
                path_at,
                residual_base,
                residual_equity,
                anchor,
                attach_one,
                attach_two,
                attach_rough,
                bits,
                s.supplied(),
            ),
    {
        let ghost model = choose|model: SuppliedPlanWorldModel<R, Surface, Spot, Market>| #[trigger]
            Self::computes(
            evolve_path,
            spots,
            payoff,
            payoff_adjoints,
            market_at,
            path_at,
            residual_base,
            residual_equity,
            anchor,
            attach_one,
            attach_two,
            attach_rough,
            bits,
            model,
        );
        SuppliedPlanWorld {
            evolve_path,
            spots,
            payoff,
            payoff_adjoints,
            market_at,
            path_at,
            residual_base,
            residual_equity,
            anchor,
            attach_one,
            attach_two,
            attach_rough,
            bits,
            model: Ghost(model),
        }
    }

    /// Takes functions that are known to compute `model`.
    pub fn with_model(
        evolve_path: FEvolvePath,
        spots: FSpots,
        payoff: FPayoff,
        payoff_adjoints: FPayoffAdjoints,
        market_at: FMarketAt,
        path_at: FPathAt,
        residual_base: FResidualBase,
        residual_equity: FResidualEquity,
        anchor: FAnchor,
        attach_one: FAttachOne,
        attach_two: FAttachTwo,
        attach_rough: FAttachRough,
        bits: FBits,
        model: Ghost<SuppliedPlanWorldModel<R, Surface, Spot, Market>>,
    ) -> (s: Self)
        requires
            Self::callable(
                evolve_path,
                spots,
                payoff,
                payoff_adjoints,
                market_at,
                path_at,
                residual_base,
                residual_equity,
                anchor,
                attach_one,
                attach_two,
                attach_rough,
                bits,
            ),
            Self::computes(
                evolve_path,
                spots,
                payoff,
                payoff_adjoints,
                market_at,
                path_at,
                residual_base,
                residual_equity,
                anchor,
                attach_one,
                attach_two,
                attach_rough,
                bits,
                model@,
            ),
        ensures
            s.supplied() == model@,
    {
        SuppliedPlanWorld {
            evolve_path,
            spots,
            payoff,
            payoff_adjoints,
            market_at,
            path_at,
            residual_base,
            residual_equity,
            anchor,
            attach_one,
            attach_two,
            attach_rough,
            bits,
            model,
        }
    }
}

impl<
    R: Scalar,
    Surface,
    Spot,
    Market: CarryMarket<R>,
    FEvolvePath: Fn(&DividendPath<R, Surface>, &Vec<R>) -> Result<
        Vec<BuehlerDividendState<R>>,
        MonteCarloError,
    >,
    FSpots: Fn(PathNode<R>, BuehlerDividendState<R>) -> Result<Spot, MonteCarloError>,
    FPayoff: Fn(&Vec<R>, &Vec<Spot>) -> Result<R, MonteCarloError>,
    FPayoffAdjoints: Fn(&Vec<R>, &Vec<Spot>) -> Result<(R, Vec<SpotSeed<R>>), MonteCarloError>,
    FMarketAt: Fn(R) -> Result<Market, MonteCarloError>,
    FPathAt: Fn(&Market) -> Result<DividendPath<R, Surface>, MonteCarloError>,
    FResidualBase: Fn(&Market) -> Result<DividendPath<R, Surface>, MonteCarloError>,
    FResidualEquity: Fn(&DividendPath<R, Surface>) -> R,
    FAnchor: Fn(R) -> Result<Surface, MonteCarloError>,
    FAttachOne: Fn(
        &DividendPath<R, Surface>,
        Bergomi1Factor<R>,
        R,
        Surface,
    ) -> Result<DividendPath<R, Surface>, MonteCarloError>,
    FAttachTwo: Fn(
        &DividendPath<R, Surface>,
        Bergomi2Factor<R>,
        Pair<R>,
        Surface,
    ) -> Result<DividendPath<R, Surface>, MonteCarloError>,
    FAttachRough: Fn(
        &DividendPath<R, Surface>,
        RoughBergomi<R>,
        R,
        Surface,
    ) -> Result<DividendPath<R, Surface>, MonteCarloError>,
    FBits: Fn(R) -> u64,
> PlanWorld<R> for SuppliedPlanWorld<
    R,
    Surface,
    Spot,
    Market,
    FEvolvePath,
    FSpots,
    FPayoff,
    FPayoffAdjoints,
    FMarketAt,
    FPathAt,
    FResidualBase,
    FResidualEquity,
    FAnchor,
    FAttachOne,
    FAttachTwo,
    FAttachRough,
    FBits,
> {
    type Surface = Surface;

    type Spot = Spot;

    type Market = Market;

    open spec fn evolution(
        &self,
        path: DividendPath<R, Self::Surface>,
        shocks: Seq<R>,
    ) -> Result<Seq<BuehlerDividendState<R>>, MonteCarloError> {
        (self.supplied().evolve_path)(path, shocks)
    }

    open spec fn spots_of(
        &self,
        node: PathNode<R>,
        state: BuehlerDividendState<R>,
    ) -> Result<Spot, MonteCarloError> {
        (self.supplied().spots)(node, state)
    }

    open spec fn payoff_of(
        &self,
        times: Seq<R>,
        spots: Seq<Self::Spot>,
    ) -> Result<R, MonteCarloError> {
        (self.supplied().payoff)(times, spots)
    }

    open spec fn payoff_adjoints_of(
        &self,
        times: Seq<R>,
        spots: Seq<Self::Spot>,
    ) -> Result<(R, Seq<SpotSeed<R>>), MonteCarloError> {
        (self.supplied().payoff_adjoints)(times, spots)
    }

    open spec fn market_moved(&self, spot: R) -> Result<Market, MonteCarloError> {
        (self.supplied().market_at)(spot)
    }

    open spec fn path_moved(&self, market: Self::Market) -> Result<
        DividendPath<R, Surface>,
        MonteCarloError,
    > {
        (self.supplied().path_at)(market)
    }

    open spec fn residual_base_of(&self, market: Self::Market) -> Result<
        DividendPath<R, Surface>,
        MonteCarloError,
    > {
        (self.supplied().residual_base)(market)
    }

    open spec fn residual_equity_of(&self, path: DividendPath<R, Self::Surface>) -> R {
        (self.supplied().residual_equity)(path)
    }

    open spec fn surface_anchored(&self, initial: R) -> Result<Surface, MonteCarloError> {
        (self.supplied().anchor)(initial)
    }

    open spec fn one_attached(
        &self,
        path: DividendPath<R, Self::Surface>,
        factor: Bergomi1Factor<R>,
        correlation: R,
        surface: Self::Surface,
    ) -> Result<DividendPath<R, Surface>, MonteCarloError> {
        (self.supplied().attach_one)(path, factor, correlation, surface)
    }

    open spec fn two_attached(
        &self,
        path: DividendPath<R, Self::Surface>,
        factor: Bergomi2Factor<R>,
        correlations: Pair<R>,
        surface: Self::Surface,
    ) -> Result<DividendPath<R, Surface>, MonteCarloError> {
        (self.supplied().attach_two)(path, factor, correlations, surface)
    }

    open spec fn rough_attached(
        &self,
        path: DividendPath<R, Self::Surface>,
        factor: RoughBergomi<R>,
        correlation: R,
        surface: Self::Surface,
    ) -> Result<DividendPath<R, Surface>, MonteCarloError> {
        (self.supplied().attach_rough)(path, factor, correlation, surface)
    }

    open spec fn bits_of(&self, number: R) -> u64 {
        (self.supplied().bits)(number)
    }

    fn evolve_path(
        &self,
        path: &DividendPath<R, Self::Surface>,
        shocks: &Vec<R>,
    ) -> (r: Result<Vec<BuehlerDividendState<R>>, MonteCarloError>) {
        proof {
            use_type_invariant(self);
        }
        (self.evolve_path)(path, shocks)
    }

    fn spots(
        &self,
        node: PathNode<R>,
        state: BuehlerDividendState<R>,
    ) -> (r: Result<Self::Spot, MonteCarloError>) {
        proof {
            use_type_invariant(self);
        }
        (self.spots)(node, state)
    }

    fn payoff(&self, times: &Vec<R>, spots: &Vec<Self::Spot>) -> (r: Result<R, MonteCarloError>) {
        proof {
            use_type_invariant(self);
        }
        (self.payoff)(times, spots)
    }

    fn payoff_adjoints(&self, times: &Vec<R>, spots: &Vec<Self::Spot>) -> (
        r: Result<(R, Vec<SpotSeed<R>>), MonteCarloError>
    ) {
        proof {
            use_type_invariant(self);
        }
        (self.payoff_adjoints)(times, spots)
    }

    fn market_at(&self, spot: R) -> (r: Result<Self::Market, MonteCarloError>) {
        proof {
            use_type_invariant(self);
        }
        (self.market_at)(spot)
    }

    fn path_at(&self, market: &Self::Market) -> (
        r: Result<DividendPath<R, Self::Surface>, MonteCarloError>
    ) {
        proof {
            use_type_invariant(self);
        }
        (self.path_at)(market)
    }

    fn residual_base(&self, market: &Self::Market) -> (
        r: Result<DividendPath<R, Self::Surface>, MonteCarloError>
    ) {
        proof {
            use_type_invariant(self);
        }
        (self.residual_base)(market)
    }

    fn residual_equity(&self, path: &DividendPath<R, Self::Surface>) -> (r: R) {
        proof {
            use_type_invariant(self);
        }
        (self.residual_equity)(path)
    }

    fn anchor(&self, initial: R) -> (r: Result<Self::Surface, MonteCarloError>) {
        proof {
            use_type_invariant(self);
        }
        (self.anchor)(initial)
    }

    fn attach_one(
        &self,
        path: &DividendPath<R, Self::Surface>,
        factor: Bergomi1Factor<R>,
        correlation: R,
        surface: Self::Surface,
    ) -> (r: Result<DividendPath<R, Self::Surface>, MonteCarloError>) {
        proof {
            use_type_invariant(self);
        }
        (self.attach_one)(path, factor, correlation, surface)
    }

    fn attach_two(
        &self,
        path: &DividendPath<R, Self::Surface>,
        factor: Bergomi2Factor<R>,
        correlations: Pair<R>,
        surface: Self::Surface,
    ) -> (r: Result<DividendPath<R, Self::Surface>, MonteCarloError>) {
        proof {
            use_type_invariant(self);
        }
        (self.attach_two)(path, factor, correlations, surface)
    }

    fn attach_rough(
        &self,
        path: &DividendPath<R, Self::Surface>,
        factor: RoughBergomi<R>,
        correlation: R,
        surface: Self::Surface,
    ) -> (r: Result<DividendPath<R, Self::Surface>, MonteCarloError>) {
        proof {
            use_type_invariant(self);
        }
        (self.attach_rough)(path, factor, correlation, surface)
    }

    fn bits(&self, number: R) -> (r: u64) {
        proof {
            use_type_invariant(self);
        }
        (self.bits)(number)
    }
}

} // verus!
