//! The payoff of a product.

use crate::affine::AffineSpot;
use crate::errors::MonteCarloError;
use crate::results::pair_seen;
use crate::reverse::SpotSeed;
use crate::scalar::Scalar;
use vstd::prelude::*;

verus! {

/// What a product pays on the spots of a path.
pub trait SpotPayoff<R: Scalar> {
    /// The payoff of the spots at some times, discounted along the curve.
    spec fn payoff_of(&self, grid: Seq<R>, spots: Seq<AffineSpot<R>>) -> Result<R, MonteCarloError>;

    /// The payoff of the spots at some times, and its derivative with respect to each.
    spec fn payoff_adjoints_of(
        &self,
        grid: Seq<R>,
        spots: Seq<AffineSpot<R>>,
    ) -> Result<(R, Seq<SpotSeed<R>>), MonteCarloError>;

    /// Computes [`Self::payoff_of`].
    fn payoff(&self, grid: &Vec<R>, spots: &Vec<AffineSpot<R>>) -> (r: Result<R, MonteCarloError>)
        ensures
            r == self.payoff_of(grid@, spots@),
    ;

    /// Computes [`Self::payoff_adjoints_of`].
    fn payoff_adjoints(&self, grid: &Vec<R>, spots: &Vec<AffineSpot<R>>) -> (
        r: Result<(R, Vec<SpotSeed<R>>), MonteCarloError>
    )
        ensures
            pair_seen(r) == self.payoff_adjoints_of(grid@, spots@),
    ;
}

/// The functions behind a [`SuppliedSpotPayoff`], as mathematical functions.
#[verifier::reject_recursive_types(R)]
pub ghost struct SuppliedSpotPayoffModel<R> {
    pub payoff: spec_fn(Seq<R>, Seq<AffineSpot<R>>) -> Result<R, MonteCarloError>,
    pub payoff_adjoints: spec_fn(Seq<R>, Seq<AffineSpot<R>>) -> Result<
        (R, Seq<SpotSeed<R>>),
        MonteCarloError,
    >,
}

/// A [`SpotPayoff`] whose functions are supplied one by one.
#[verifier::reject_recursive_types(R)]
pub struct SuppliedSpotPayoff<
    R: Scalar,
    FPayoff: Fn(&Vec<R>, &Vec<AffineSpot<R>>) -> Result<R, MonteCarloError>,
    FPayoffAdjoints: Fn(&Vec<R>, &Vec<AffineSpot<R>>) -> Result<
        (R, Vec<SpotSeed<R>>),
        MonteCarloError,
    >,
> {
    payoff: FPayoff,
    payoff_adjoints: FPayoffAdjoints,
    model: Ghost<SuppliedSpotPayoffModel<R>>,
}

impl<
    R: Scalar,
    FPayoff: Fn(&Vec<R>, &Vec<AffineSpot<R>>) -> Result<R, MonteCarloError>,
    FPayoffAdjoints: Fn(&Vec<R>, &Vec<AffineSpot<R>>) -> Result<
        (R, Vec<SpotSeed<R>>),
        MonteCarloError,
    >,
> SuppliedSpotPayoff<R, FPayoff, FPayoffAdjoints> {
    #[verifier::type_invariant]
    closed spec fn inv(self) -> bool {
        Self::callable(self.payoff, self.payoff_adjoints)
            && Self::computes(self.payoff, self.payoff_adjoints, self.model@)
    }

    /// The functions accept every argument.
    pub open spec fn callable(payoff: FPayoff, payoff_adjoints: FPayoffAdjoints) -> bool {
        &&& forall|grid: &Vec<R>, spots: &Vec<AffineSpot<R>>|
            #[trigger] call_requires(payoff, (grid, spots))
        &&& forall|grid: &Vec<R>, spots: &Vec<AffineSpot<R>>| #[trigger] call_requires(
            payoff_adjoints,
            (grid, spots),
        )
    }

    /// The functions compute those of the model.
    pub open spec fn computes(
        payoff: FPayoff,
        payoff_adjoints: FPayoffAdjoints,
        model: SuppliedSpotPayoffModel<R>,
    ) -> bool {
        &&& forall|grid: &Vec<R>, spots: &Vec<AffineSpot<R>>, result: Result<R, MonteCarloError>|
            #[trigger]
            call_ensures(payoff, (grid, spots), result) ==> result == (model.payoff)(grid@, spots@)
        &&& forall|
            grid: &Vec<R>,
            spots: &Vec<AffineSpot<R>>,
            result: Result<(R, Vec<SpotSeed<R>>), MonteCarloError>,
        |
            #[trigger]
            call_ensures(
                payoff_adjoints,
                (grid, spots),
                result,
            ) ==> pair_seen(result) == (model.payoff_adjoints)(grid@, spots@)
    }

    /// The functions that were supplied.
    pub closed spec fn supplied(self) -> SuppliedSpotPayoffModel<R> {
        self.model@
    }

    /// Takes functions that give the same result whenever they are given the
    /// same arguments.
    pub fn new(payoff: FPayoff, payoff_adjoints: FPayoffAdjoints) -> (s: Self)
        requires
            Self::callable(payoff, payoff_adjoints),
            exists|model: SuppliedSpotPayoffModel<R>| #[trigger] Self::computes(
                payoff,
                payoff_adjoints,
                model,
            ),
        ensures
            Self::computes(payoff, payoff_adjoints, s.supplied()),
    {
        let ghost model = choose|model: SuppliedSpotPayoffModel<R>| #[trigger] Self::computes(
            payoff,
            payoff_adjoints,
            model,
        );
        SuppliedSpotPayoff { payoff, payoff_adjoints, model: Ghost(model) }
    }

    /// Takes functions that are known to compute `model`.
    pub fn with_model(
        payoff: FPayoff,
        payoff_adjoints: FPayoffAdjoints,
        model: Ghost<SuppliedSpotPayoffModel<R>>,
    ) -> (s: Self)
        requires
            Self::callable(payoff, payoff_adjoints),
            Self::computes(payoff, payoff_adjoints, model@),
        ensures
            s.supplied() == model@,
    {
        SuppliedSpotPayoff { payoff, payoff_adjoints, model }
    }
}

impl<
    R: Scalar,
    FPayoff: Fn(&Vec<R>, &Vec<AffineSpot<R>>) -> Result<R, MonteCarloError>,
    FPayoffAdjoints: Fn(&Vec<R>, &Vec<AffineSpot<R>>) -> Result<
        (R, Vec<SpotSeed<R>>),
        MonteCarloError,
    >,
> SpotPayoff<R> for SuppliedSpotPayoff<R, FPayoff, FPayoffAdjoints> {
    open spec fn payoff_of(
        &self,
        grid: Seq<R>,
        spots: Seq<AffineSpot<R>>,
    ) -> Result<R, MonteCarloError> {
        (self.supplied().payoff)(grid, spots)
    }

    open spec fn payoff_adjoints_of(
        &self,
        grid: Seq<R>,
        spots: Seq<AffineSpot<R>>,
    ) -> Result<(R, Seq<SpotSeed<R>>), MonteCarloError> {
        (self.supplied().payoff_adjoints)(grid, spots)
    }

    fn payoff(&self, grid: &Vec<R>, spots: &Vec<AffineSpot<R>>) -> (r: Result<R, MonteCarloError>) {
        proof {
            use_type_invariant(self);
        }
        (self.payoff)(grid, spots)
    }

    fn payoff_adjoints(&self, grid: &Vec<R>, spots: &Vec<AffineSpot<R>>) -> (
        r: Result<(R, Vec<SpotSeed<R>>), MonteCarloError>
    ) {
        proof {
            use_type_invariant(self);
        }
        (self.payoff_adjoints)(grid, spots)
    }
}

} // verus!
