//! What the risk of a residual-equity leverage plan obtains from its calibration.

use crate::errors::MonteCarloError;
use crate::models::BuehlerDividendState;
use crate::results::seen;
use crate::reverse::SpotSeed;
use crate::scalar::Scalar;
use vstd::prelude::*;

verus! {

/// The calibration and the path of a residual-equity leverage plan.
pub trait ResidualWorld<R: Scalar> {
    /// The residual equity that the leverage surface of the path starts from, where it has one.
    spec fn anchor_of(&self) -> Option<R>;

    /// The residual equity that the path starts from.
    spec fn risky_spot_of(&self) -> R;

    /// The number of entries of the leverage surface.
    spec fn leverage_count_of(&self) -> usize;

    /// Whether the calibration kept a trace to reverse.
    spec fn trace_retained(&self) -> bool;

    /// The derivatives of a path with respect to the entries of the leverage surface.
    spec fn leverage_pullback_of(
        &self,
        shocks: Seq<R>,
        states: Seq<BuehlerDividendState<R>>,
        seeds: Seq<SpotSeed<R>>,
    ) -> Result<Seq<R>, MonteCarloError>;

    /// The derivatives of the calibration target, as refined, out of those of the leverage surface.
    spec fn reversed_leverage(&self, adjoints: Seq<R>) -> Result<Seq<R>, MonteCarloError>;

    /// The times of the refined target.
    spec fn refined_times_of(&self) -> Seq<R>;

    /// Whether there is a basis of buckets to report to.
    spec fn basis_exists(&self) -> bool;

    /// The number of buckets.
    spec fn bucket_count_of(&self) -> usize;

    /// The density of a row of adjoints.
    spec fn density_of(&self, row: Seq<R>) -> Result<Seq<R>, MonteCarloError>;

    /// The reporting row of a maturity.
    spec fn density_row_of(&self, maturity: R) -> Option<usize>;

    /// The buckets of a density at a maturity.
    spec fn projection_of(
        &self,
        row: usize,
        maturity: R,
        density: Seq<R>,
    ) -> Result<Seq<R>, MonteCarloError>;

    /// Computes [`Self::anchor_of`].
    fn anchor(&self) -> (r: Option<R>)
        ensures
            r == self.anchor_of(),
    ;

    /// Computes [`Self::risky_spot_of`].
    fn risky_spot(&self) -> (r: R)
        ensures
            r == self.risky_spot_of(),
    ;

    /// Computes [`Self::leverage_count_of`].
    fn leverage_count(&self) -> (r: usize)
        ensures
            r == self.leverage_count_of(),
    ;

    /// Computes [`Self::trace_retained`].
    fn retains_trace(&self) -> (r: bool)
        ensures
            r == self.trace_retained(),
    ;

    /// Computes [`Self::leverage_pullback_of`].
    fn leverage_pullback(
        &self,
        shocks: &Vec<R>,
        states: &Vec<BuehlerDividendState<R>>,
        seeds: &Vec<SpotSeed<R>>,
    ) -> (r: Result<Vec<R>, MonteCarloError>)
        ensures
            seen(r) == self.leverage_pullback_of(shocks@, states@, seeds@),
    ;

    /// Computes [`Self::reversed_leverage`].
    fn reverse_leverage(&self, adjoints: &Vec<R>) -> (r: Result<Vec<R>, MonteCarloError>)
        ensures
            seen(r) == self.reversed_leverage(adjoints@),
    ;

    /// Computes [`Self::refined_times_of`].
    fn refined_times(&self) -> (r: Vec<R>)
        ensures
            r@ == self.refined_times_of(),
    ;

    /// Computes [`Self::basis_exists`].
    fn has_basis(&self) -> (r: bool)
        ensures
            r == self.basis_exists(),
    ;

    /// Computes [`Self::bucket_count_of`].
    fn bucket_count(&self) -> (r: usize)
        ensures
            r == self.bucket_count_of(),
    ;

    /// Computes [`Self::density_of`].
    fn density(&self, row: &Vec<R>) -> (r: Result<Vec<R>, MonteCarloError>)
        ensures
            seen(r) == self.density_of(row@),
    ;

    /// Computes [`Self::density_row_of`].
    fn density_row(&self, maturity: R) -> (r: Option<usize>)
        ensures
            r == self.density_row_of(maturity),
    ;

    /// Computes [`Self::projection_of`].
    fn projection(
        &self,
        row: usize,
        maturity: R,
        density: &Vec<R>,
    ) -> (r: Result<Vec<R>, MonteCarloError>)
        ensures
            seen(r) == self.projection_of(row, maturity, density@),
    ;
}

/// The functions behind a [`SuppliedResidualWorld`], as mathematical functions.
#[verifier::reject_recursive_types(R)]
pub ghost struct SuppliedResidualWorldModel<R> {
    pub anchor: spec_fn() -> Option<R>,
    pub risky_spot: spec_fn() -> R,
    pub leverage_count: spec_fn() -> usize,
    pub retains_trace: spec_fn() -> bool,
    pub leverage_pullback: spec_fn(
        Seq<R>,
        Seq<BuehlerDividendState<R>>,
        Seq<SpotSeed<R>>,
    ) -> Result<Seq<R>, MonteCarloError>,
    pub reverse_leverage: spec_fn(Seq<R>) -> Result<Seq<R>, MonteCarloError>,
    pub refined_times: spec_fn() -> Seq<R>,
    pub has_basis: spec_fn() -> bool,
    pub bucket_count: spec_fn() -> usize,
    pub density: spec_fn(Seq<R>) -> Result<Seq<R>, MonteCarloError>,
    pub density_row: spec_fn(R) -> Option<usize>,
    pub projection: spec_fn(usize, R, Seq<R>) -> Result<Seq<R>, MonteCarloError>,
}

/// A [`ResidualWorld`] whose functions are supplied one by one.
#[verifier::reject_recursive_types(R)]
pub struct SuppliedResidualWorld<
    R: Scalar,
    FAnchor: Fn() -> Option<R>,
    FRiskySpot: Fn() -> R,
    FLeverageCount: Fn() -> usize,
    FRetainsTrace: Fn() -> bool,
    FLeveragePullback: Fn(
        &Vec<R>,
        &Vec<BuehlerDividendState<R>>,
        &Vec<SpotSeed<R>>,
    ) -> Result<Vec<R>, MonteCarloError>,
    FReverseLeverage: Fn(&Vec<R>) -> Result<Vec<R>, MonteCarloError>,
    FRefinedTimes: Fn() -> Vec<R>,
    FHasBasis: Fn() -> bool,
    FBucketCount: Fn() -> usize,
    FDensity: Fn(&Vec<R>) -> Result<Vec<R>, MonteCarloError>,
    FDensityRow: Fn(R) -> Option<usize>,
    FProjection: Fn(usize, R, &Vec<R>) -> Result<Vec<R>, MonteCarloError>,
> {
    anchor: FAnchor,
    risky_spot: FRiskySpot,
    leverage_count: FLeverageCount,
    retains_trace: FRetainsTrace,
    leverage_pullback: FLeveragePullback,
    reverse_leverage: FReverseLeverage,
    refined_times: FRefinedTimes,
    has_basis: FHasBasis,
    bucket_count: FBucketCount,
    density: FDensity,
    density_row: FDensityRow,
    projection: FProjection,
    model: Ghost<SuppliedResidualWorldModel<R>>,
}

impl<
    R: Scalar,
    FAnchor: Fn() -> Option<R>,
    FRiskySpot: Fn() -> R,
    FLeverageCount: Fn() -> usize,
    FRetainsTrace: Fn() -> bool,
    FLeveragePullback: Fn(
        &Vec<R>,
        &Vec<BuehlerDividendState<R>>,
        &Vec<SpotSeed<R>>,
    ) -> Result<Vec<R>, MonteCarloError>,
    FReverseLeverage: Fn(&Vec<R>) -> Result<Vec<R>, MonteCarloError>,
    FRefinedTimes: Fn() -> Vec<R>,
    FHasBasis: Fn() -> bool,
    FBucketCount: Fn() -> usize,
    FDensity: Fn(&Vec<R>) -> Result<Vec<R>, MonteCarloError>,
    FDensityRow: Fn(R) -> Option<usize>,
    FProjection: Fn(usize, R, &Vec<R>) -> Result<Vec<R>, MonteCarloError>,
> SuppliedResidualWorld<
    R,
    FAnchor,
    FRiskySpot,
    FLeverageCount,
    FRetainsTrace,
    FLeveragePullback,
    FReverseLeverage,
    FRefinedTimes,
    FHasBasis,
    FBucketCount,
    FDensity,
    FDensityRow,
    FProjection,
> {
    #[verifier::type_invariant]
    closed spec fn inv(self) -> bool {
        Self::callable(
            self.anchor,
            self.risky_spot,
            self.leverage_count,
            self.retains_trace,
            self.leverage_pullback,
            self.reverse_leverage,
            self.refined_times,
            self.has_basis,
            self.bucket_count,
            self.density,
            self.density_row,
            self.projection,
        )
            && Self::computes(
                self.anchor,
                self.risky_spot,
                self.leverage_count,
                self.retains_trace,
                self.leverage_pullback,
                self.reverse_leverage,
                self.refined_times,
                self.has_basis,
                self.bucket_count,
                self.density,
                self.density_row,
                self.projection,
                self.model@,
            )
    }

    /// The functions accept every argument.
    pub open spec fn callable(
        anchor: FAnchor,
        risky_spot: FRiskySpot,
        leverage_count: FLeverageCount,
        retains_trace: FRetainsTrace,
        leverage_pullback: FLeveragePullback,
        reverse_leverage: FReverseLeverage,
        refined_times: FRefinedTimes,
        has_basis: FHasBasis,
        bucket_count: FBucketCount,
        density: FDensity,
        density_row: FDensityRow,
        projection: FProjection,
    ) -> bool {
        &&& call_requires(anchor, ())
        &&& call_requires(risky_spot, ())
        &&& call_requires(leverage_count, ())
        &&& call_requires(retains_trace, ())
        &&& forall|shocks: &Vec<R>, states: &Vec<BuehlerDividendState<R>>, seeds: &Vec<SpotSeed<R>>|
            #[trigger] call_requires(
                leverage_pullback,
                (shocks, states, seeds),
            )
        &&& forall|adjoints: &Vec<R>| #[trigger] call_requires(reverse_leverage, (adjoints,))
        &&& call_requires(refined_times, ())
        &&& call_requires(has_basis, ())
        &&& call_requires(bucket_count, ())
        &&& forall|row: &Vec<R>| #[trigger] call_requires(density, (row,))
        &&& forall|maturity: R| #[trigger] call_requires(density_row, (maturity,))
        &&& forall|row: usize, maturity: R, density: &Vec<R>| #[trigger] call_requires(
            projection,
            (row, maturity, density),
        )
    }

    /// The functions compute those of the model.
    pub open spec fn computes(
        anchor: FAnchor,
        risky_spot: FRiskySpot,
        leverage_count: FLeverageCount,
        retains_trace: FRetainsTrace,
        leverage_pullback: FLeveragePullback,
        reverse_leverage: FReverseLeverage,
        refined_times: FRefinedTimes,
        has_basis: FHasBasis,
        bucket_count: FBucketCount,
        density: FDensity,
        density_row: FDensityRow,
        projection: FProjection,
        model: SuppliedResidualWorldModel<R>,
    ) -> bool {
        &&& forall|result: Option<R>| #[trigger]
            call_ensures(anchor, (), result) ==> result == (model.anchor)()
        &&& forall|result: R| #[trigger]
            call_ensures(risky_spot, (), result) ==> result == (model.risky_spot)()
        &&& forall|result: usize| #[trigger]
            call_ensures(leverage_count, (), result) ==> result == (model.leverage_count)()
        &&& forall|result: bool| #[trigger]
            call_ensures(retains_trace, (), result) ==> result == (model.retains_trace)()
        &&& forall|
            shocks: &Vec<R>,
            states: &Vec<BuehlerDividendState<R>>,
            seeds: &Vec<SpotSeed<R>>,
            result: Result<Vec<R>, MonteCarloError>,
        |
            #[trigger]
            call_ensures(
                leverage_pullback,
                (shocks, states, seeds),
                result,
            ) ==> seen(result) == (model.leverage_pullback)(shocks@, states@, seeds@)
        &&& forall|adjoints: &Vec<R>, result: Result<Vec<R>, MonteCarloError>| #[trigger]
            call_ensures(
                reverse_leverage,
                (adjoints,),
                result,
            ) ==> seen(result) == (model.reverse_leverage)(adjoints@)
        &&& forall|result: Vec<R>| #[trigger]
            call_ensures(refined_times, (), result) ==> result@ == (model.refined_times)()
        &&& forall|result: bool| #[trigger]
            call_ensures(has_basis, (), result) ==> result == (model.has_basis)()
        &&& forall|result: usize| #[trigger]
            call_ensures(bucket_count, (), result) ==> result == (model.bucket_count)()
        &&& forall|row: &Vec<R>, result: Result<Vec<R>, MonteCarloError>| #[trigger]
            call_ensures(density, (row,), result) ==> seen(result) == (model.density)(row@)
        &&& forall|maturity: R, result: Option<usize>| #[trigger]
            call_ensures(
                density_row,
                (maturity,),
                result,
            ) ==> result == (model.density_row)(maturity)
        &&& forall|
            row: usize,
            maturity: R,
            density: &Vec<R>,
            result: Result<Vec<R>, MonteCarloError>,
        |
            #[trigger]
            call_ensures(
                projection,
                (row, maturity, density),
                result,
            ) ==> seen(result) == (model.projection)(row, maturity, density@)
    }

    /// The functions that were supplied.
    pub closed spec fn supplied(self) -> SuppliedResidualWorldModel<R> {
        self.model@
    }

    /// Takes functions that give the same result whenever they are given the
    /// same arguments.
    pub fn new(
        anchor: FAnchor,
        risky_spot: FRiskySpot,
        leverage_count: FLeverageCount,
        retains_trace: FRetainsTrace,
        leverage_pullback: FLeveragePullback,
        reverse_leverage: FReverseLeverage,
        refined_times: FRefinedTimes,
        has_basis: FHasBasis,
        bucket_count: FBucketCount,
        density: FDensity,
        density_row: FDensityRow,
        projection: FProjection,
    ) -> (s: Self)
        requires
            Self::callable(
                anchor,
                risky_spot,
                leverage_count,
                retains_trace,
                leverage_pullback,
                reverse_leverage,
                refined_times,
                has_basis,
                bucket_count,
                density,
                density_row,
                projection,
            ),
            exists|model: SuppliedResidualWorldModel<R>| #[trigger] Self::computes(
                anchor,
                risky_spot,
                leverage_count,
                retains_trace,
                leverage_pullback,
                reverse_leverage,
                refined_times,
                has_basis,
                bucket_count,
                density,
                density_row,
                projection,
                model,
            ),
        ensures
            Self::computes(
                anchor,
                risky_spot,
                leverage_count,
                retains_trace,
                leverage_pullback,
                reverse_leverage,
                refined_times,
                has_basis,
                bucket_count,
                density,
                density_row,
                projection,
                s.supplied(),
            ),
    {
        let ghost model = choose|model: SuppliedResidualWorldModel<R>| #[trigger] Self::computes(
            anchor,
            risky_spot,
            leverage_count,
            retains_trace,
            leverage_pullback,
            reverse_leverage,
            refined_times,
            has_basis,
            bucket_count,
            density,
            density_row,
            projection,
            model,
        );
        SuppliedResidualWorld {
            anchor,
            risky_spot,
            leverage_count,
            retains_trace,
            leverage_pullback,
            reverse_leverage,
            refined_times,
            has_basis,
            bucket_count,
            density,
            density_row,
            projection,
            model: Ghost(model),
        }
    }

    /// Takes functions that are known to compute `model`.
    pub fn with_model(
        anchor: FAnchor,
        risky_spot: FRiskySpot,
        leverage_count: FLeverageCount,
        retains_trace: FRetainsTrace,
        leverage_pullback: FLeveragePullback,
        reverse_leverage: FReverseLeverage,
        refined_times: FRefinedTimes,
        has_basis: FHasBasis,
        bucket_count: FBucketCount,
        density: FDensity,
        density_row: FDensityRow,
        projection: FProjection,
        model: Ghost<SuppliedResidualWorldModel<R>>,
    ) -> (s: Self)
        requires
            Self::callable(
                anchor,
                risky_spot,
                leverage_count,
                retains_trace,
                leverage_pullback,
                reverse_leverage,
                refined_times,
                has_basis,
                bucket_count,
                density,
                density_row,
                projection,
            ),
            Self::computes(
                anchor,
                risky_spot,
                leverage_count,
                retains_trace,
                leverage_pullback,
                reverse_leverage,
                refined_times,
                has_basis,
                bucket_count,
                density,
                density_row,
                projection,
                model@,
            ),
        ensures
            s.supplied() == model@,
    {
        SuppliedResidualWorld {
            anchor,
            risky_spot,
            leverage_count,
            retains_trace,
            leverage_pullback,
            reverse_leverage,
            refined_times,
            has_basis,
            bucket_count,
            density,
            density_row,
            projection,
            model,
        }
    }
}

impl<
    R: Scalar,
    FAnchor: Fn() -> Option<R>,
    FRiskySpot: Fn() -> R,
    FLeverageCount: Fn() -> usize,
    FRetainsTrace: Fn() -> bool,
    FLeveragePullback: Fn(
        &Vec<R>,
        &Vec<BuehlerDividendState<R>>,
        &Vec<SpotSeed<R>>,
    ) -> Result<Vec<R>, MonteCarloError>,
    FReverseLeverage: Fn(&Vec<R>) -> Result<Vec<R>, MonteCarloError>,
    FRefinedTimes: Fn() -> Vec<R>,
    FHasBasis: Fn() -> bool,
    FBucketCount: Fn() -> usize,
    FDensity: Fn(&Vec<R>) -> Result<Vec<R>, MonteCarloError>,
    FDensityRow: Fn(R) -> Option<usize>,
    FProjection: Fn(usize, R, &Vec<R>) -> Result<Vec<R>, MonteCarloError>,
> ResidualWorld<R> for SuppliedResidualWorld<
    R,
    FAnchor,
    FRiskySpot,
    FLeverageCount,
    FRetainsTrace,
    FLeveragePullback,
    FReverseLeverage,
    FRefinedTimes,
    FHasBasis,
    FBucketCount,
    FDensity,
    FDensityRow,
    FProjection,
> {
    open spec fn anchor_of(&self) -> Option<R> {
        (self.supplied().anchor)()
    }

    open spec fn risky_spot_of(&self) -> R {
        (self.supplied().risky_spot)()
    }

    open spec fn leverage_count_of(&self) -> usize {
        (self.supplied().leverage_count)()
    }

    open spec fn trace_retained(&self) -> bool {
        (self.supplied().retains_trace)()
    }

    open spec fn leverage_pullback_of(
        &self,
        shocks: Seq<R>,
        states: Seq<BuehlerDividendState<R>>,
        seeds: Seq<SpotSeed<R>>,
    ) -> Result<Seq<R>, MonteCarloError> {
        (self.supplied().leverage_pullback)(shocks, states, seeds)
    }

    open spec fn reversed_leverage(&self, adjoints: Seq<R>) -> Result<Seq<R>, MonteCarloError> {
        (self.supplied().reverse_leverage)(adjoints)
    }

    open spec fn refined_times_of(&self) -> Seq<R> {
        (self.supplied().refined_times)()
    }

    open spec fn basis_exists(&self) -> bool {
        (self.supplied().has_basis)()
    }

    open spec fn bucket_count_of(&self) -> usize {
        (self.supplied().bucket_count)()
    }

    open spec fn density_of(&self, row: Seq<R>) -> Result<Seq<R>, MonteCarloError> {
        (self.supplied().density)(row)
    }

    open spec fn density_row_of(&self, maturity: R) -> Option<usize> {
        (self.supplied().density_row)(maturity)
    }

    open spec fn projection_of(
        &self,
        row: usize,
        maturity: R,
        density: Seq<R>,
    ) -> Result<Seq<R>, MonteCarloError> {
        (self.supplied().projection)(row, maturity, density)
    }

    fn anchor(&self) -> (r: Option<R>) {
        proof {
            use_type_invariant(self);
        }
        (self.anchor)()
    }

    fn risky_spot(&self) -> (r: R) {
        proof {
            use_type_invariant(self);
        }
        (self.risky_spot)()
    }

    fn leverage_count(&self) -> (r: usize) {
        proof {
            use_type_invariant(self);
        }
        (self.leverage_count)()
    }

    fn retains_trace(&self) -> (r: bool) {
        proof {
            use_type_invariant(self);
        }
        (self.retains_trace)()
    }

    fn leverage_pullback(
        &self,
        shocks: &Vec<R>,
        states: &Vec<BuehlerDividendState<R>>,
        seeds: &Vec<SpotSeed<R>>,
    ) -> (r: Result<Vec<R>, MonteCarloError>) {
        proof {
            use_type_invariant(self);
        }
        (self.leverage_pullback)(shocks, states, seeds)
    }

    fn reverse_leverage(&self, adjoints: &Vec<R>) -> (r: Result<Vec<R>, MonteCarloError>) {
        proof {
            use_type_invariant(self);
        }
        (self.reverse_leverage)(adjoints)
    }

    fn refined_times(&self) -> (r: Vec<R>) {
        proof {
            use_type_invariant(self);
        }
        (self.refined_times)()
    }

    fn has_basis(&self) -> (r: bool) {
        proof {
            use_type_invariant(self);
        }
        (self.has_basis)()
    }

    fn bucket_count(&self) -> (r: usize) {
        proof {
            use_type_invariant(self);
        }
        (self.bucket_count)()
    }

    fn density(&self, row: &Vec<R>) -> (r: Result<Vec<R>, MonteCarloError>) {
        proof {
            use_type_invariant(self);
        }
        (self.density)(row)
    }

    fn density_row(&self, maturity: R) -> (r: Option<usize>) {
        proof {
            use_type_invariant(self);
        }
        (self.density_row)(maturity)
    }

    fn projection(
        &self,
        row: usize,
        maturity: R,
        density: &Vec<R>,
    ) -> (r: Result<Vec<R>, MonteCarloError>) {
        proof {
            use_type_invariant(self);
        }
        (self.projection)(row, maturity, density)
    }
}

} // verus!
