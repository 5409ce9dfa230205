//! The market beneath a dividend path: its forwards, its cash dividends and
//! the pillars of its curves.

use crate::errors::MonteCarloError;
use crate::results::{resized, resized_to_itself, seen};
use crate::scalar::Scalar;
use vstd::prelude::*;

verus! {

/// A cash dividend: its number in the schedule, its ex-date and its mean.
#[derive(Clone, Copy, Debug, PartialEq)]
pub struct CashEvent<R> {
    pub event: u64,
    pub ex_time: R,
    pub fixed_cash: R,
}

/// What the derivatives of a dividend path obtain from its market.
pub trait CarryMarket<R: Scalar> {
    /// The spot.
    spec fn spot_of(&self) -> R;

    /// The forward at a time.
    spec fn forward_of(&self, time: R) -> Result<R, MonteCarloError>;

    /// The cash dividends, in the order of the schedule.
    spec fn events_of(&self) -> Seq<CashEvent<R>>;

    /// The pillars of the discount curve.
    spec fn discount_times_of(&self) -> Seq<R>;

    /// The pillars of the repo-spread curve.
    spec fn repo_spread_times_of(&self) -> Seq<R>;

    /// `out` with what a seed of the logarithm of the discount curve at a time adds to its pillars.
    spec fn discount_transposed(
        &self,
        time: R,
        seed: R,
        out: Seq<R>,
    ) -> Result<Seq<R>, MonteCarloError>;

    /// `out` with what a seed of the logarithm of the repo-spread curve at a time adds to its
    /// pillars.
    spec fn repo_spread_transposed(
        &self,
        time: R,
        seed: R,
        out: Seq<R>,
    ) -> Result<Seq<R>, MonteCarloError>;

    /// What a seed adds to the pillars leaves their number as it is.
    proof fn transposes_keep_sizes(&self, time: R, seed: R, out: Seq<R>)
        ensures
            self.discount_transposed(time, seed, out) matches Ok(v) ==> v.len() == out.len(),
            self.repo_spread_transposed(time, seed, out) matches Ok(v) ==> v.len() == out.len(),
    ;

    /// Computes [`Self::spot_of`].
    fn spot(&self) -> (r: R)
        ensures
            r == self.spot_of(),
    ;

    /// Computes [`Self::forward_of`].
    fn forward(&self, time: R) -> (r: Result<R, MonteCarloError>)
        ensures
            r == self.forward_of(time),
    ;

    /// Computes [`Self::events_of`].
    fn events(&self) -> (r: Vec<CashEvent<R>>)
        ensures
            r@ == self.events_of(),
    ;

    /// Computes [`Self::discount_times_of`].
    fn discount_times(&self) -> (r: Vec<R>)
        ensures
            r@ == self.discount_times_of(),
    ;

    /// Computes [`Self::repo_spread_times_of`].
    fn repo_spread_times(&self) -> (r: Vec<R>)
        ensures
            r@ == self.repo_spread_times_of(),
    ;

    /// Computes [`Self::discount_transposed`].
    fn transpose_discount(
        &self,
        time: R,
        seed: R,
        out: &Vec<R>,
    ) -> (r: Result<Vec<R>, MonteCarloError>)
        ensures
            seen(r) == self.discount_transposed(time, seed, out@),
            r matches Ok(v) ==> v@.len() == out@.len(),
    ;

    /// Computes [`Self::repo_spread_transposed`].
    fn transpose_repo_spread(
        &self,
        time: R,
        seed: R,
        out: &Vec<R>,
    ) -> (r: Result<Vec<R>, MonteCarloError>)
        ensures
            seen(r) == self.repo_spread_transposed(time, seed, out@),
            r matches Ok(v) ==> v@.len() == out@.len(),
    ;
}

/// The functions behind a [`SuppliedCarryMarket`], as mathematical functions.
#[verifier::reject_recursive_types(R)]
pub ghost struct SuppliedCarryMarketModel<R> {
    pub spot: spec_fn() -> R,
    pub forward: spec_fn(R) -> Result<R, MonteCarloError>,
    pub events: spec_fn() -> Seq<CashEvent<R>>,
    pub discount_times: spec_fn() -> Seq<R>,
    pub repo_spread_times: spec_fn() -> Seq<R>,
    pub transpose_discount: spec_fn(R, R, Seq<R>) -> Result<Seq<R>, MonteCarloError>,
    pub transpose_repo_spread: spec_fn(R, R, Seq<R>) -> Result<Seq<R>, MonteCarloError>,
}

/// A [`CarryMarket`] whose functions are supplied one by one.
#[verifier::reject_recursive_types(R)]
pub struct SuppliedCarryMarket<
    R: Scalar,
    FSpot: Fn() -> R,
    FForward: Fn(R) -> Result<R, MonteCarloError>,
    FEvents: Fn() -> Vec<CashEvent<R>>,
    FDiscountTimes: Fn() -> Vec<R>,
    FRepoSpreadTimes: Fn() -> Vec<R>,
    FTransposeDiscount: Fn(R, R, &Vec<R>) -> Result<Vec<R>, MonteCarloError>,
    FTransposeRepoSpread: Fn(R, R, &Vec<R>) -> Result<Vec<R>, MonteCarloError>,
> {
    spot: FSpot,
    forward: FForward,
    events: FEvents,
    discount_times: FDiscountTimes,
    repo_spread_times: FRepoSpreadTimes,
    transpose_discount: FTransposeDiscount,
    transpose_repo_spread: FTransposeRepoSpread,
    model: Ghost<SuppliedCarryMarketModel<R>>,
}

impl<
    R: Scalar,
    FSpot: Fn() -> R,
    FForward: Fn(R) -> Result<R, MonteCarloError>,
    FEvents: Fn() -> Vec<CashEvent<R>>,
    FDiscountTimes: Fn() -> Vec<R>,
    FRepoSpreadTimes: Fn() -> Vec<R>,
    FTransposeDiscount: Fn(R, R, &Vec<R>) -> Result<Vec<R>, MonteCarloError>,
    FTransposeRepoSpread: Fn(R, R, &Vec<R>) -> Result<Vec<R>, MonteCarloError>,
> SuppliedCarryMarket<
    R,
    FSpot,
    FForward,
    FEvents,
    FDiscountTimes,
    FRepoSpreadTimes,
    FTransposeDiscount,
    FTransposeRepoSpread,
> {
    #[verifier::type_invariant]
    closed spec fn inv(self) -> bool {
        Self::callable(
            self.spot,
            self.forward,
            self.events,
            self.discount_times,
            self.repo_spread_times,
            self.transpose_discount,
            self.transpose_repo_spread,
        )
            && Self::computes(
                self.spot,
                self.forward,
                self.events,
                self.discount_times,
                self.repo_spread_times,
                self.transpose_discount,
                self.transpose_repo_spread,
                self.model@,
            )
    }

    /// The functions accept every argument.
    pub open spec fn callable(
        spot: FSpot,
        forward: FForward,
        events: FEvents,
        discount_times: FDiscountTimes,
        repo_spread_times: FRepoSpreadTimes,
        transpose_discount: FTransposeDiscount,
        transpose_repo_spread: FTransposeRepoSpread,
    ) -> bool {
        &&& call_requires(spot, ())
        &&& forall|time: R| #[trigger] call_requires(forward, (time,))
        &&& call_requires(events, ())
        &&& call_requires(discount_times, ())
        &&& call_requires(repo_spread_times, ())
        &&& forall|time: R, seed: R, out: &Vec<R>| #[trigger] call_requires(
            transpose_discount,
            (time, seed, out),
        )
        &&& forall|time: R, seed: R, out: &Vec<R>| #[trigger] call_requires(
            transpose_repo_spread,
            (time, seed, out),
        )
    }

    /// The functions compute those of the model.
    pub open spec fn computes(
        spot: FSpot,
        forward: FForward,
        events: FEvents,
        discount_times: FDiscountTimes,
        repo_spread_times: FRepoSpreadTimes,
        transpose_discount: FTransposeDiscount,
        transpose_repo_spread: FTransposeRepoSpread,
        model: SuppliedCarryMarketModel<R>,
    ) -> bool {
        &&& forall|result: R| #[trigger]
            call_ensures(spot, (), result) ==> result == (model.spot)()
        &&& forall|time: R, result: Result<R, MonteCarloError>| #[trigger]
            call_ensures(forward, (time,), result) ==> result == (model.forward)(time)
        &&& forall|result: Vec<CashEvent<R>>| #[trigger]
            call_ensures(events, (), result) ==> result@ == (model.events)()
        &&& forall|result: Vec<R>| #[trigger]
            call_ensures(discount_times, (), result) ==> result@ == (model.discount_times)()
        &&& forall|result: Vec<R>| #[trigger]
            call_ensures(repo_spread_times, (), result) ==> result@ == (model.repo_spread_times)()
        &&& forall|time: R, seed: R, out: &Vec<R>, result: Result<Vec<R>, MonteCarloError>|
            #[trigger]
            call_ensures(transpose_discount, (time, seed, out), result)
                ==> seen(result) == (model.transpose_discount)(time, seed, out@) && (
                result matches Ok(v) ==> v@.len() == out@.len()
            )
        &&& forall|time: R, seed: R, out: &Vec<R>, result: Result<Vec<R>, MonteCarloError>|
            #[trigger]
            call_ensures(
                transpose_repo_spread,
                (time, seed, out),
                result,
            ) ==> seen(result) == (model.transpose_repo_spread)(time, seed, out@) && (
                result matches Ok(v) ==> v@.len() == out@.len()
            )
    }

    /// The functions that were supplied.
    pub closed spec fn supplied(self) -> SuppliedCarryMarketModel<R> {
        self.model@
    }

    /// Takes functions that give the same result whenever they are given the
    /// same arguments.
    pub fn new(
        spot: FSpot,
        forward: FForward,
        events: FEvents,
        discount_times: FDiscountTimes,
        repo_spread_times: FRepoSpreadTimes,
        transpose_discount: FTransposeDiscount,
        transpose_repo_spread: FTransposeRepoSpread,
    ) -> (s: Self)
        requires
            Self::callable(
                spot,
                forward,
                events,
                discount_times,
                repo_spread_times,
                transpose_discount,
                transpose_repo_spread,
            ),
            exists|model: SuppliedCarryMarketModel<R>| #[trigger] Self::computes(
                spot,
                forward,
                events,
                discount_times,
                repo_spread_times,
                transpose_discount,
                transpose_repo_spread,
                model,
            ),
        ensures
            Self::computes(
                spot,
                forward,
                events,
                discount_times,
                repo_spread_times,
                transpose_discount,
                transpose_repo_spread,
                s.supplied(),
            ),
    {
        let ghost model = choose|model: SuppliedCarryMarketModel<R>| #[trigger] Self::computes(
            spot,
            forward,
            events,
            discount_times,
            repo_spread_times,
            transpose_discount,
            transpose_repo_spread,
            model,
        );
        SuppliedCarryMarket {
            spot,
            forward,
            events,
            discount_times,
            repo_spread_times,
            transpose_discount,
            transpose_repo_spread,
            model: Ghost(model),
        }
    }

    /// Takes functions that are known to compute `model`.
    pub fn with_model(
        spot: FSpot,
        forward: FForward,
        events: FEvents,
        discount_times: FDiscountTimes,
        repo_spread_times: FRepoSpreadTimes,
        transpose_discount: FTransposeDiscount,
        transpose_repo_spread: FTransposeRepoSpread,
        model: Ghost<SuppliedCarryMarketModel<R>>,
    ) -> (s: Self)
        requires
            Self::callable(
                spot,
                forward,
                events,
                discount_times,
                repo_spread_times,
                transpose_discount,
                transpose_repo_spread,
            ),
            Self::computes(
                spot,
                forward,
                events,
                discount_times,
                repo_spread_times,
                transpose_discount,
                transpose_repo_spread,
                model@,
            ),
        ensures
            s.supplied() == model@,
    {
        SuppliedCarryMarket {
            spot,
            forward,
            events,
            discount_times,
            repo_spread_times,
            transpose_discount,
            transpose_repo_spread,
            model,
        }
    }
}

impl<
    R: Scalar,
    FSpot: Fn() -> R,
    FForward: Fn(R) -> Result<R, MonteCarloError>,
    FEvents: Fn() -> Vec<CashEvent<R>>,
    FDiscountTimes: Fn() -> Vec<R>,
    FRepoSpreadTimes: Fn() -> Vec<R>,
    FTransposeDiscount: Fn(R, R, &Vec<R>) -> Result<Vec<R>, MonteCarloError>,
    FTransposeRepoSpread: Fn(R, R, &Vec<R>) -> Result<Vec<R>, MonteCarloError>,
> CarryMarket<R> for SuppliedCarryMarket<
    R,
    FSpot,
    FForward,
    FEvents,
    FDiscountTimes,
    FRepoSpreadTimes,
    FTransposeDiscount,
    FTransposeRepoSpread,
> {
    open spec fn spot_of(&self) -> R {
        (self.supplied().spot)()
    }

    open spec fn forward_of(&self, time: R) -> Result<R, MonteCarloError> {
        (self.supplied().forward)(time)
    }

    open spec fn events_of(&self) -> Seq<CashEvent<R>> {
        (self.supplied().events)()
    }

    open spec fn discount_times_of(&self) -> Seq<R> {
        (self.supplied().discount_times)()
    }

    open spec fn repo_spread_times_of(&self) -> Seq<R> {
        (self.supplied().repo_spread_times)()
    }

    open spec fn discount_transposed(
        &self,
        time: R,
        seed: R,
        out: Seq<R>,
    ) -> Result<Seq<R>, MonteCarloError> {
        resized((self.supplied().transpose_discount)(time, seed, out), out.len())
    }

    open spec fn repo_spread_transposed(
        &self,
        time: R,
        seed: R,
        out: Seq<R>,
    ) -> Result<Seq<R>, MonteCarloError> {
        resized((self.supplied().transpose_repo_spread)(time, seed, out), out.len())
    }

    proof fn transposes_keep_sizes(&self, time: R, seed: R, out: Seq<R>) {
    }

    fn spot(&self) -> (r: R) {
        proof {
            use_type_invariant(self);
        }
        (self.spot)()
    }

    fn forward(&self, time: R) -> (r: Result<R, MonteCarloError>) {
        proof {
            use_type_invariant(self);
        }
        (self.forward)(time)
    }

    fn events(&self) -> (r: Vec<CashEvent<R>>) {
        proof {
            use_type_invariant(self);
        }
        (self.events)()
    }

    fn discount_times(&self) -> (r: Vec<R>) {
        proof {
            use_type_invariant(self);
        }
        (self.discount_times)()
    }

    fn repo_spread_times(&self) -> (r: Vec<R>) {
        proof {
            use_type_invariant(self);
        }
        (self.repo_spread_times)()
    }

    fn transpose_discount(
        &self,
        time: R,
        seed: R,
        out: &Vec<R>,
    ) -> (r: Result<Vec<R>, MonteCarloError>) {
        proof {
            use_type_invariant(self);
        }
        let r = (self.transpose_discount)(time, seed, out);
        proof {
            resized_to_itself(r, out@.len());
        }
        r
    }

    fn transpose_repo_spread(
        &self,
        time: R,
        seed: R,
        out: &Vec<R>,
    ) -> (r: Result<Vec<R>, MonteCarloError>) {
        proof {
            use_type_invariant(self);
        }
        let r = (self.transpose_repo_spread)(time, seed, out);
        proof {
            resized_to_itself(r, out@.len());
        }
        r
    }
}

} // verus!
