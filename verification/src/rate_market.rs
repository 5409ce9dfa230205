//! The market beneath cash dividends under stochastic rates.

use crate::errors::MonteCarloError;
use crate::rates::{HullWhite1Factor, RatesView};
use crate::results::{resized, resized_to_itself, seen};
use crate::scalar::Scalar;
use vstd::prelude::*;

verus! {

/// A dividend of a schedule: its number, its ex-date, the mean of its cash, and
/// its share of the spot.
#[derive(Clone, Copy, Debug, PartialEq)]
pub struct MixedEvent<R> {
    pub event: u64,
    pub ex_time: R,
    pub fixed_cash: R,
    pub beta: R,
}

/// What dividends under stochastic rates obtain from their market.
pub trait RateMarket<R: Scalar> {
    /// The spot.
    spec fn spot_of(&self) -> R;

    /// The cash dividends, in the order of the schedule.
    spec fn events_of(&self) -> Seq<MixedEvent<R>>;

    /// The discount factor at a time.
    spec fn discount_of(&self, time: R) -> Result<R, MonteCarloError>;

    /// The repo-spread factor at a time.
    spec fn repo_discount_of(&self, time: R) -> Result<R, MonteCarloError>;

    /// The bond of a rate model from a time to a maturity where the rate factor is zero.
    spec fn bond_price_of(
        &self,
        rates: RatesView<R>,
        time: R,
        maturity: R,
    ) -> Result<R, MonteCarloError>;

    /// The variance of the integral of the rate of a model up to a time.
    spec fn integrated_variance_of(
        &self,
        rates: RatesView<R>,
        time: R,
    ) -> Result<R, MonteCarloError>;

    /// The pillars of the discount curve.
    spec fn discount_times_of(&self) -> Seq<R>;

    /// The pillars of the repo-spread curve.
    spec fn repo_spread_times_of(&self) -> Seq<R>;

    /// `out` with what a seed of the logarithm of the discount curve at a time adds to its pillars.
    spec fn discount_transposed(
        &self,
        time: R,
        seed: R,
        out: Seq<R>,
    ) -> Result<Seq<R>, MonteCarloError>;

    /// `out` with what a seed of the logarithm of the repo-spread curve at a time adds to its
    /// pillars.
    spec fn repo_spread_transposed(
        &self,
        time: R,
        seed: R,
        out: Seq<R>,
    ) -> Result<Seq<R>, MonteCarloError>;

    /// What a seed adds to the pillars leaves their number as it is.
    proof fn transposes_keep_sizes(&self, time: R, seed: R, out: Seq<R>)
        ensures
            self.discount_transposed(time, seed, out) matches Ok(v) ==> v.len() == out.len(),
            self.repo_spread_transposed(time, seed, out) matches Ok(v) ==> v.len() == out.len(),
    ;

    /// Computes [`Self::spot_of`].
    fn spot(&self) -> (r: R)
        ensures
            r == self.spot_of(),
    ;

    /// Computes [`Self::events_of`].
    fn events(&self) -> (r: Vec<MixedEvent<R>>)
        ensures
            r@ == self.events_of(),
    ;

    /// Computes [`Self::discount_of`].
    fn discount(&self, time: R) -> (r: Result<R, MonteCarloError>)
        ensures
            r == self.discount_of(time),
    ;

    /// Computes [`Self::repo_discount_of`].
    fn repo_discount(&self, time: R) -> (r: Result<R, MonteCarloError>)
        ensures
            r == self.repo_discount_of(time),
    ;

    /// Computes [`Self::bond_price_of`].
    fn bond_price(&self, rates: &HullWhite1Factor<R>, time: R, maturity: R) -> (r: Result<
        R,
        MonteCarloError,
    >)
        ensures
            r == self.bond_price_of(rates@, time, maturity),
    ;

    /// Computes [`Self::integrated_variance_of`].
    fn integrated_variance(&self, rates: &HullWhite1Factor<R>, time: R) -> (r: Result<
        R,
        MonteCarloError,
    >)
        ensures
            r == self.integrated_variance_of(rates@, time),
    ;

    /// Computes [`Self::discount_times_of`].
    fn discount_times(&self) -> (r: Vec<R>)
        ensures
            r@ == self.discount_times_of(),
    ;

    /// Computes [`Self::repo_spread_times_of`].
    fn repo_spread_times(&self) -> (r: Vec<R>)
        ensures
            r@ == self.repo_spread_times_of(),
    ;

    /// Computes [`Self::discount_transposed`].
    fn transpose_discount(
        &self,
        time: R,
        seed: R,
        out: &Vec<R>,
    ) -> (r: Result<Vec<R>, MonteCarloError>)
        ensures
            seen(r) == self.discount_transposed(time, seed, out@),
            r matches Ok(v) ==> v@.len() == out@.len(),
    ;

    /// Computes [`Self::repo_spread_transposed`].
    fn transpose_repo_spread(
        &self,
        time: R,
        seed: R,
        out: &Vec<R>,
    ) -> (r: Result<Vec<R>, MonteCarloError>)
        ensures
            seen(r) == self.repo_spread_transposed(time, seed, out@),
            r matches Ok(v) ==> v@.len() == out@.len(),
    ;
}

/// The functions behind a [`SuppliedRateMarket`], as mathematical functions.
#[verifier::reject_recursive_types(R)]
pub ghost struct SuppliedRateMarketModel<R> {
    pub spot: spec_fn() -> R,
    pub events: spec_fn() -> Seq<MixedEvent<R>>,
    pub discount: spec_fn(R) -> Result<R, MonteCarloError>,
    pub repo_discount: spec_fn(R) -> Result<R, MonteCarloError>,
    pub bond_price: spec_fn(RatesView<R>, R, R) -> Result<R, MonteCarloError>,
    pub integrated_variance: spec_fn(RatesView<R>, R) -> Result<R, MonteCarloError>,
    pub discount_times: spec_fn() -> Seq<R>,
    pub repo_spread_times: spec_fn() -> Seq<R>,
    pub transpose_discount: spec_fn(R, R, Seq<R>) -> Result<Seq<R>, MonteCarloError>,
    pub transpose_repo_spread: spec_fn(R, R, Seq<R>) -> Result<Seq<R>, MonteCarloError>,
}

/// A [`RateMarket`] whose functions are supplied one by one.
#[verifier::reject_recursive_types(R)]
pub struct SuppliedRateMarket<
    R: Scalar,
    FSpot: Fn() -> R,
    FEvents: Fn() -> Vec<MixedEvent<R>>,
    FDiscount: Fn(R) -> Result<R, MonteCarloError>,
    FRepoDiscount: Fn(R) -> Result<R, MonteCarloError>,
    FBondPrice: Fn(&HullWhite1Factor<R>, R, R) -> Result<R, MonteCarloError>,
    FIntegratedVariance: Fn(&HullWhite1Factor<R>, R) -> Result<R, MonteCarloError>,
    FDiscountTimes: Fn() -> Vec<R>,
    FRepoSpreadTimes: Fn() -> Vec<R>,
    FTransposeDiscount: Fn(R, R, &Vec<R>) -> Result<Vec<R>, MonteCarloError>,
    FTransposeRepoSpread: Fn(R, R, &Vec<R>) -> Result<Vec<R>, MonteCarloError>,
> {
    spot: FSpot,
    events: FEvents,
    discount: FDiscount,
    repo_discount: FRepoDiscount,
    bond_price: FBondPrice,
    integrated_variance: FIntegratedVariance,
    discount_times: FDiscountTimes,
    repo_spread_times: FRepoSpreadTimes,
    transpose_discount: FTransposeDiscount,
    transpose_repo_spread: FTransposeRepoSpread,
    model: Ghost<SuppliedRateMarketModel<R>>,
}

impl<
    R: Scalar,
    FSpot: Fn() -> R,
    FEvents: Fn() -> Vec<MixedEvent<R>>,
    FDiscount: Fn(R) -> Result<R, MonteCarloError>,
    FRepoDiscount: Fn(R) -> Result<R, MonteCarloError>,
    FBondPrice: Fn(&HullWhite1Factor<R>, R, R) -> Result<R, MonteCarloError>,
    FIntegratedVariance: Fn(&HullWhite1Factor<R>, R) -> Result<R, MonteCarloError>,
    FDiscountTimes: Fn() -> Vec<R>,
    FRepoSpreadTimes: Fn() -> Vec<R>,
    FTransposeDiscount: Fn(R, R, &Vec<R>) -> Result<Vec<R>, MonteCarloError>,
    FTransposeRepoSpread: Fn(R, R, &Vec<R>) -> Result<Vec<R>, MonteCarloError>,
> SuppliedRateMarket<
    R,
    FSpot,
    FEvents,
    FDiscount,
    FRepoDiscount,
    FBondPrice,
    FIntegratedVariance,
    FDiscountTimes,
    FRepoSpreadTimes,
    FTransposeDiscount,
    FTransposeRepoSpread,
> {
    #[verifier::type_invariant]
    closed spec fn inv(self) -> bool {
        Self::callable(
            self.spot,
            self.events,
            self.discount,
            self.repo_discount,
            self.bond_price,
            self.integrated_variance,
            self.discount_times,
            self.repo_spread_times,
            self.transpose_discount,
            self.transpose_repo_spread,
        )
            && Self::computes(
                self.spot,
                self.events,
                self.discount,
                self.repo_discount,
                self.bond_price,
                self.integrated_variance,
                self.discount_times,
                self.repo_spread_times,
                self.transpose_discount,
                self.transpose_repo_spread,
                self.model@,
            )
    }

    /// The functions accept every argument.
    pub open spec fn callable(
        spot: FSpot,
        events: FEvents,
        discount: FDiscount,
        repo_discount: FRepoDiscount,
        bond_price: FBondPrice,
        integrated_variance: FIntegratedVariance,
        discount_times: FDiscountTimes,
        repo_spread_times: FRepoSpreadTimes,
        transpose_discount: FTransposeDiscount,
        transpose_repo_spread: FTransposeRepoSpread,
    ) -> bool {
        &&& call_requires(spot, ())
        &&& call_requires(events, ())
        &&& forall|time: R| #[trigger] call_requires(discount, (time,))
        &&& forall|time: R| #[trigger] call_requires(repo_discount, (time,))
        &&& forall|rates: &HullWhite1Factor<R>, time: R, maturity: R| #[trigger] call_requires(
            bond_price,
            (rates, time, maturity),
        )
        &&& forall|rates: &HullWhite1Factor<R>, time: R| #[trigger] call_requires(
            integrated_variance,
            (rates, time),
        )
        &&& call_requires(discount_times, ())
        &&& call_requires(repo_spread_times, ())
        &&& forall|time: R, seed: R, out: &Vec<R>| #[trigger] call_requires(
            transpose_discount,
            (time, seed, out),
        )
        &&& forall|time: R, seed: R, out: &Vec<R>| #[trigger] call_requires(
            transpose_repo_spread,
            (time, seed, out),
        )
    }

    /// The functions compute those of the model.
    pub open spec fn computes(
        spot: FSpot,
        events: FEvents,
        discount: FDiscount,
        repo_discount: FRepoDiscount,
        bond_price: FBondPrice,
        integrated_variance: FIntegratedVariance,
        discount_times: FDiscountTimes,
        repo_spread_times: FRepoSpreadTimes,
        transpose_discount: FTransposeDiscount,
        transpose_repo_spread: FTransposeRepoSpread,
        model: SuppliedRateMarketModel<R>,
    ) -> bool {
        &&& forall|result: R| #[trigger]
            call_ensures(spot, (), result) ==> result == (model.spot)()
        &&& forall|result: Vec<MixedEvent<R>>| #[trigger]
            call_ensures(events, (), result) ==> result@ == (model.events)()
        &&& forall|time: R, result: Result<R, MonteCarloError>| #[trigger]
            call_ensures(discount, (time,), result) ==> result == (model.discount)(time)
        &&& forall|time: R, result: Result<R, MonteCarloError>| #[trigger]
            call_ensures(repo_discount, (time,), result) ==> result == (model.repo_discount)(time)
        &&& forall|
            rates: &HullWhite1Factor<R>,
            time: R,
            maturity: R,
            result: Result<R, MonteCarloError>,
        | #[trigger]
            call_ensures(
                bond_price,
                (rates, time, maturity),
                result,
            ) ==> result == (model.bond_price)(rates@, time, maturity)
        &&& forall|
            rates: &HullWhite1Factor<R>,
            time: R,
            result: Result<R, MonteCarloError>,
        | #[trigger]
            call_ensures(
                integrated_variance,
                (rates, time),
                result,
            ) ==> result == (model.integrated_variance)(rates@, time)
        &&& forall|result: Vec<R>| #[trigger]
            call_ensures(discount_times, (), result) ==> result@ == (model.discount_times)()
        &&& forall|result: Vec<R>| #[trigger]
            call_ensures(repo_spread_times, (), result) ==> result@ == (model.repo_spread_times)()
        &&& forall|time: R, seed: R, out: &Vec<R>, result: Result<Vec<R>, MonteCarloError>|
            #[trigger]
            call_ensures(transpose_discount, (time, seed, out), result)
                ==> seen(result) == (model.transpose_discount)(time, seed, out@) && (
                result matches Ok(v) ==> v@.len() == out@.len()
            )
        &&& forall|time: R, seed: R, out: &Vec<R>, result: Result<Vec<R>, MonteCarloError>|
            #[trigger]
            call_ensures(
                transpose_repo_spread,
                (time, seed, out),
                result,
            ) ==> seen(result) == (model.transpose_repo_spread)(time, seed, out@) && (
                result matches Ok(v) ==> v@.len() == out@.len()
            )
    }

    /// The functions that were supplied.
    pub closed spec fn supplied(self) -> SuppliedRateMarketModel<R> {
        self.model@
    }

    /// Takes functions that give the same result whenever they are given the
    /// same arguments.
    pub fn new(
        spot: FSpot,
        events: FEvents,
        discount: FDiscount,
        repo_discount: FRepoDiscount,
        bond_price: FBondPrice,
        integrated_variance: FIntegratedVariance,
        discount_times: FDiscountTimes,
        repo_spread_times: FRepoSpreadTimes,
        transpose_discount: FTransposeDiscount,
        transpose_repo_spread: FTransposeRepoSpread,
    ) -> (s: Self)
        requires
            Self::callable(
                spot,
                events,
                discount,
                repo_discount,
                bond_price,
                integrated_variance,
                discount_times,
                repo_spread_times,
                transpose_discount,
                transpose_repo_spread,
            ),
            exists|model: SuppliedRateMarketModel<R>| #[trigger] Self::computes(
                spot,
                events,
                discount,
                repo_discount,
                bond_price,
                integrated_variance,
                discount_times,
                repo_spread_times,
                transpose_discount,
                transpose_repo_spread,
                model,
            ),
        ensures
            Self::computes(
                spot,
                events,
                discount,
                repo_discount,
                bond_price,
                integrated_variance,
                discount_times,
                repo_spread_times,
                transpose_discount,
                transpose_repo_spread,
                s.supplied(),
            ),
    {
        let ghost model = choose|model: SuppliedRateMarketModel<R>| #[trigger] Self::computes(
            spot,
            events,
            discount,
            repo_discount,
            bond_price,
            integrated_variance,
            discount_times,
            repo_spread_times,
            transpose_discount,
            transpose_repo_spread,
            model,
        );
        SuppliedRateMarket {
            spot,
            events,
            discount,
            repo_discount,
            bond_price,
            integrated_variance,
            discount_times,
            repo_spread_times,
            transpose_discount,
            transpose_repo_spread,
            model: Ghost(model),
        }
    }

    /// Takes functions that are known to compute `model`.
    pub fn with_model(
        spot: FSpot,
        events: FEvents,
        discount: FDiscount,
        repo_discount: FRepoDiscount,
        bond_price: FBondPrice,
        integrated_variance: FIntegratedVariance,
        discount_times: FDiscountTimes,
        repo_spread_times: FRepoSpreadTimes,
        transpose_discount: FTransposeDiscount,
        transpose_repo_spread: FTransposeRepoSpread,
        model: Ghost<SuppliedRateMarketModel<R>>,
    ) -> (s: Self)
        requires
            Self::callable(
                spot,
                events,
                discount,
                repo_discount,
                bond_price,
                integrated_variance,
                discount_times,
                repo_spread_times,
                transpose_discount,
                transpose_repo_spread,
            ),
            Self::computes(
                spot,
                events,
                discount,
                repo_discount,
                bond_price,
                integrated_variance,
                discount_times,
                repo_spread_times,
                transpose_discount,
                transpose_repo_spread,
                model@,
            ),
        ensures
            s.supplied() == model@,
    {
        SuppliedRateMarket {
            spot,
            events,
            discount,
            repo_discount,
            bond_price,
            integrated_variance,
            discount_times,
            repo_spread_times,
            transpose_discount,
            transpose_repo_spread,
            model,
        }
    }
}

impl<
    R: Scalar,
    FSpot: Fn() -> R,
    FEvents: Fn() -> Vec<MixedEvent<R>>,
    FDiscount: Fn(R) -> Result<R, MonteCarloError>,
    FRepoDiscount: Fn(R) -> Result<R, MonteCarloError>,
    FBondPrice: Fn(&HullWhite1Factor<R>, R, R) -> Result<R, MonteCarloError>,
    FIntegratedVariance: Fn(&HullWhite1Factor<R>, R) -> Result<R, MonteCarloError>,
    FDiscountTimes: Fn() -> Vec<R>,
    FRepoSpreadTimes: Fn() -> Vec<R>,
    FTransposeDiscount: Fn(R, R, &Vec<R>) -> Result<Vec<R>, MonteCarloError>,
    FTransposeRepoSpread: Fn(R, R, &Vec<R>) -> Result<Vec<R>, MonteCarloError>,
> RateMarket<R> for SuppliedRateMarket<
    R,
    FSpot,
    FEvents,
    FDiscount,
    FRepoDiscount,
    FBondPrice,
    FIntegratedVariance,
    FDiscountTimes,
    FRepoSpreadTimes,
    FTransposeDiscount,
    FTransposeRepoSpread,
> {
    open spec fn spot_of(&self) -> R {
        (self.supplied().spot)()
    }

    open spec fn events_of(&self) -> Seq<MixedEvent<R>> {
        (self.supplied().events)()
    }

    open spec fn discount_of(&self, time: R) -> Result<R, MonteCarloError> {
        (self.supplied().discount)(time)
    }

    open spec fn repo_discount_of(&self, time: R) -> Result<R, MonteCarloError> {
        (self.supplied().repo_discount)(time)
    }

    open spec fn bond_price_of(&self, rates: RatesView<R>, time: R, maturity: R) -> Result<
        R,
        MonteCarloError,
    > {
        (self.supplied().bond_price)(rates, time, maturity)
    }

    open spec fn integrated_variance_of(&self, rates: RatesView<R>, time: R) -> Result<
        R,
        MonteCarloError,
    > {
        (self.supplied().integrated_variance)(rates, time)
    }

    open spec fn discount_times_of(&self) -> Seq<R> {
        (self.supplied().discount_times)()
    }

    open spec fn repo_spread_times_of(&self) -> Seq<R> {
        (self.supplied().repo_spread_times)()
    }

    open spec fn discount_transposed(
        &self,
        time: R,
        seed: R,
        out: Seq<R>,
    ) -> Result<Seq<R>, MonteCarloError> {
        resized((self.supplied().transpose_discount)(time, seed, out), out.len())
    }

    open spec fn repo_spread_transposed(
        &self,
        time: R,
        seed: R,
        out: Seq<R>,
    ) -> Result<Seq<R>, MonteCarloError> {
        resized((self.supplied().transpose_repo_spread)(time, seed, out), out.len())
    }

    proof fn transposes_keep_sizes(&self, time: R, seed: R, out: Seq<R>) {
    }

    fn spot(&self) -> (r: R) {
        proof {
            use_type_invariant(self);
        }
        (self.spot)()
    }

    fn events(&self) -> (r: Vec<MixedEvent<R>>) {
        proof {
            use_type_invariant(self);
        }
        (self.events)()
    }

    fn discount(&self, time: R) -> (r: Result<R, MonteCarloError>) {
        proof {
            use_type_invariant(self);
        }
        (self.discount)(time)
    }

    fn repo_discount(&self, time: R) -> (r: Result<R, MonteCarloError>) {
        proof {
            use_type_invariant(self);
        }
        (self.repo_discount)(time)
    }

    fn bond_price(&self, rates: &HullWhite1Factor<R>, time: R, maturity: R) -> (r: Result<
        R,
        MonteCarloError,
    >) {
        proof {
            use_type_invariant(self);
        }
        (self.bond_price)(rates, time, maturity)
    }

    fn integrated_variance(&self, rates: &HullWhite1Factor<R>, time: R) -> (r: Result<
        R,
        MonteCarloError,
    >) {
        proof {
            use_type_invariant(self);
        }
        (self.integrated_variance)(rates, time)
    }

    fn discount_times(&self) -> (r: Vec<R>) {
        proof {
            use_type_invariant(self);
        }
        (self.discount_times)()
    }

    fn repo_spread_times(&self) -> (r: Vec<R>) {
        proof {
            use_type_invariant(self);
        }
        (self.repo_spread_times)()
    }

    fn transpose_discount(
        &self,
        time: R,
        seed: R,
        out: &Vec<R>,
    ) -> (r: Result<Vec<R>, MonteCarloError>) {
        proof {
            use_type_invariant(self);
        }
        let r = (self.transpose_discount)(time, seed, out);
        proof {
            resized_to_itself(r, out@.len());
        }
        r
    }

    fn transpose_repo_spread(
        &self,
        time: R,
        seed: R,
        out: &Vec<R>,
    ) -> (r: Result<Vec<R>, MonteCarloError>) {
        proof {
            use_type_invariant(self);
        }
        let r = (self.transpose_repo_spread)(time, seed, out);
        proof {
            resized_to_itself(r, out@.len());
        }
        r
    }
}

} // verus!
