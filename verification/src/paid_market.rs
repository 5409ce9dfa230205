//! The market beneath dividends that are paid in cash and in proportion.

use crate::errors::MonteCarloError;
use crate::results::seen;
use crate::scalar::Scalar;
use vstd::prelude::*;

verus! {

/// A dividend: a fixed amount, and a share of the spot before it.
#[derive(Clone, Copy, Debug, PartialEq)]
pub struct PaidDividend<R> {
    pub ex_time: R,
    pub fixed_cash: R,
    pub beta: R,
}

/// What dividends that are paid obtain from their market.
pub trait PaidMarket<R: Scalar> {
    /// The dividends, in the order of the schedule.
    spec fn schedule_of(&self) -> Seq<PaidDividend<R>>;

    /// The logarithm of the discount factor at a time.
    spec fn log_discount_of(&self, time: R) -> Result<R, MonteCarloError>;

    /// The logarithm of the dividend factor at a time.
    spec fn log_dividend_of(&self, time: R) -> Result<R, MonteCarloError>;

    /// The deterministic part of the integral of the rate between two times.
    spec fn integrated_shift_of(&self, from: R, to: R) -> Result<R, MonteCarloError>;

    /// The pillars of the discount curve.
    spec fn discount_pillars_of(&self) -> Seq<R>;

    /// The pillars of the dividend curve.
    spec fn dividend_pillars_of(&self) -> Seq<R>;

    /// `out` with what a seed of the logarithm of the discount curve at a time adds to its pillars.
    spec fn discount_transposed(
        &self,
        time: R,
        seed: R,
        out: Seq<R>,
    ) -> Result<Seq<R>, MonteCarloError>;

    /// `out` with what a seed of the logarithm of the dividend curve at a time adds to its pillars.
    spec fn dividend_transposed(
        &self,
        time: R,
        seed: R,
        out: Seq<R>,
    ) -> Result<Seq<R>, MonteCarloError>;

    /// Computes [`Self::schedule_of`].
    fn schedule(&self) -> (r: Vec<PaidDividend<R>>)
        ensures
            r@ == self.schedule_of(),
    ;

    /// Computes [`Self::log_discount_of`].
    fn log_discount(&self, time: R) -> (r: Result<R, MonteCarloError>)
        ensures
            r == self.log_discount_of(time),
    ;

    /// Computes [`Self::log_dividend_of`].
    fn log_dividend(&self, time: R) -> (r: Result<R, MonteCarloError>)
        ensures
            r == self.log_dividend_of(time),
    ;

    /// Computes [`Self::integrated_shift_of`].
    fn integrated_shift(&self, from: R, to: R) -> (r: Result<R, MonteCarloError>)
        ensures
            r == self.integrated_shift_of(from, to),
    ;

    /// Computes [`Self::discount_pillars_of`].
    fn discount_pillars(&self) -> (r: Vec<R>)
        ensures
            r@ == self.discount_pillars_of(),
    ;

    /// Computes [`Self::dividend_pillars_of`].
    fn dividend_pillars(&self) -> (r: Vec<R>)
        ensures
            r@ == self.dividend_pillars_of(),
    ;

    /// Computes [`Self::discount_transposed`].
    fn transpose_discount(
        &self,
        time: R,
        seed: R,
        out: &Vec<R>,
    ) -> (r: Result<Vec<R>, MonteCarloError>)
        ensures
            seen(r) == self.discount_transposed(time, seed, out@),
            r matches Ok(v) ==> v@.len() == out@.len(),
    ;

    /// Computes [`Self::dividend_transposed`].
    fn transpose_dividend(
        &self,
        time: R,
        seed: R,
        out: &Vec<R>,
    ) -> (r: Result<Vec<R>, MonteCarloError>)
        ensures
            seen(r) == self.dividend_transposed(time, seed, out@),
            r matches Ok(v) ==> v@.len() == out@.len(),
    ;
}

/// The functions behind a [`SuppliedPaidMarket`], as mathematical functions.
#[verifier::reject_recursive_types(R)]
pub ghost struct SuppliedPaidMarketModel<R> {
    pub schedule: spec_fn() -> Seq<PaidDividend<R>>,
    pub log_discount: spec_fn(R) -> Result<R, MonteCarloError>,
    pub log_dividend: spec_fn(R) -> Result<R, MonteCarloError>,
    pub integrated_shift: spec_fn(R, R) -> Result<R, MonteCarloError>,
    pub discount_pillars: spec_fn() -> Seq<R>,
    pub dividend_pillars: spec_fn() -> Seq<R>,
    pub transpose_discount: spec_fn(R, R, Seq<R>) -> Result<Seq<R>, MonteCarloError>,
    pub transpose_dividend: spec_fn(R, R, Seq<R>) -> Result<Seq<R>, MonteCarloError>,
}

/// A [`PaidMarket`] whose functions are supplied one by one.
#[verifier::reject_recursive_types(R)]
pub struct SuppliedPaidMarket<
    R: Scalar,
    FSchedule: Fn() -> Vec<PaidDividend<R>>,
    FLogDiscount: Fn(R) -> Result<R, MonteCarloError>,
    FLogDividend: Fn(R) -> Result<R, MonteCarloError>,
    FIntegratedShift: Fn(R, R) -> Result<R, MonteCarloError>,
    FDiscountPillars: Fn() -> Vec<R>,
    FDividendPillars: Fn() -> Vec<R>,
    FTransposeDiscount: Fn(R, R, &Vec<R>) -> Result<Vec<R>, MonteCarloError>,
    FTransposeDividend: Fn(R, R, &Vec<R>) -> Result<Vec<R>, MonteCarloError>,
> {
    schedule: FSchedule,
    log_discount: FLogDiscount,
    log_dividend: FLogDividend,
    integrated_shift: FIntegratedShift,
    discount_pillars: FDiscountPillars,
    dividend_pillars: FDividendPillars,
    transpose_discount: FTransposeDiscount,
    transpose_dividend: FTransposeDividend,
    model: Ghost<SuppliedPaidMarketModel<R>>,
}

impl<
    R: Scalar,
    FSchedule: Fn() -> Vec<PaidDividend<R>>,
    FLogDiscount: Fn(R) -> Result<R, MonteCarloError>,
    FLogDividend: Fn(R) -> Result<R, MonteCarloError>,
    FIntegratedShift: Fn(R, R) -> Result<R, MonteCarloError>,
    FDiscountPillars: Fn() -> Vec<R>,
    FDividendPillars: Fn() -> Vec<R>,
    FTransposeDiscount: Fn(R, R, &Vec<R>) -> Result<Vec<R>, MonteCarloError>,
    FTransposeDividend: Fn(R, R, &Vec<R>) -> Result<Vec<R>, MonteCarloError>,
> SuppliedPaidMarket<
    R,
    FSchedule,
    FLogDiscount,
    FLogDividend,
    FIntegratedShift,
    FDiscountPillars,
    FDividendPillars,
    FTransposeDiscount,
    FTransposeDividend,
> {
    #[verifier::type_invariant]
    closed spec fn inv(self) -> bool {
        Self::callable(
            self.schedule,
            self.log_discount,
            self.log_dividend,
            self.integrated_shift,
            self.discount_pillars,
            self.dividend_pillars,
            self.transpose_discount,
            self.transpose_dividend,
        )
            && Self::computes(
                self.schedule,
                self.log_discount,
                self.log_dividend,
                self.integrated_shift,
                self.discount_pillars,
                self.dividend_pillars,
                self.transpose_discount,
                self.transpose_dividend,
                self.model@,
            )
    }

    /// The functions accept every argument.
    pub open spec fn callable(
        schedule: FSchedule,
        log_discount: FLogDiscount,
        log_dividend: FLogDividend,
        integrated_shift: FIntegratedShift,
        discount_pillars: FDiscountPillars,
        dividend_pillars: FDividendPillars,
        transpose_discount: FTransposeDiscount,
        transpose_dividend: FTransposeDividend,
    ) -> bool {
        &&& call_requires(schedule, ())
        &&& forall|time: R| #[trigger] call_requires(log_discount, (time,))
        &&& forall|time: R| #[trigger] call_requires(log_dividend, (time,))
        &&& forall|from: R, to: R| #[trigger] call_requires(integrated_shift, (from, to))
        &&& call_requires(discount_pillars, ())
        &&& call_requires(dividend_pillars, ())
        &&& forall|time: R, seed: R, out: &Vec<R>| #[trigger] call_requires(
            transpose_discount,
            (time, seed, out),
        )
        &&& forall|time: R, seed: R, out: &Vec<R>| #[trigger] call_requires(
            transpose_dividend,
            (time, seed, out),
        )
    }

    /// The functions compute those of the model.
    pub open spec fn computes(
        schedule: FSchedule,
        log_discount: FLogDiscount,
        log_dividend: FLogDividend,
        integrated_shift: FIntegratedShift,
        discount_pillars: FDiscountPillars,
        dividend_pillars: FDividendPillars,
        transpose_discount: FTransposeDiscount,
        transpose_dividend: FTransposeDividend,
        model: SuppliedPaidMarketModel<R>,
    ) -> bool {
        &&& forall|result: Vec<PaidDividend<R>>| #[trigger]
            call_ensures(schedule, (), result) ==> result@ == (model.schedule)()
        &&& forall|time: R, result: Result<R, MonteCarloError>| #[trigger]
            call_ensures(log_discount, (time,), result) ==> result == (model.log_discount)(time)
        &&& forall|time: R, result: Result<R, MonteCarloError>| #[trigger]
            call_ensures(log_dividend, (time,), result) ==> result == (model.log_dividend)(time)
        &&& forall|from: R, to: R, result: Result<R, MonteCarloError>| #[trigger]
            call_ensures(
                integrated_shift,
                (from, to),
                result,
            ) ==> result == (model.integrated_shift)(from, to)
        &&& forall|result: Vec<R>| #[trigger]
            call_ensures(discount_pillars, (), result) ==> result@ == (model.discount_pillars)()
        &&& forall|result: Vec<R>| #[trigger]
            call_ensures(dividend_pillars, (), result) ==> result@ == (model.dividend_pillars)()
        &&& forall|time: R, seed: R, out: &Vec<R>, result: Result<Vec<R>, MonteCarloError>|
            #[trigger]
            call_ensures(transpose_discount, (time, seed, out), result)
                ==> seen(result) == (model.transpose_discount)(time, seed, out@) && (
                result matches Ok(v) ==> v@.len() == out@.len()
            )
        &&& forall|time: R, seed: R, out: &Vec<R>, result: Result<Vec<R>, MonteCarloError>|
            #[trigger]
            call_ensures(transpose_dividend, (time, seed, out), result)
                ==> seen(result) == (model.transpose_dividend)(time, seed, out@) && (
                result matches Ok(v) ==> v@.len() == out@.len()
            )
    }

    /// The functions that were supplied.
    pub closed spec fn supplied(self) -> SuppliedPaidMarketModel<R> {
        self.model@
    }

    /// Takes functions that give the same result whenever they are given the
    /// same arguments.
    pub fn new(
        schedule: FSchedule,
        log_discount: FLogDiscount,
        log_dividend: FLogDividend,
        integrated_shift: FIntegratedShift,
        discount_pillars: FDiscountPillars,
        dividend_pillars: FDividendPillars,
        transpose_discount: FTransposeDiscount,
        transpose_dividend: FTransposeDividend,
    ) -> (s: Self)
        requires
            Self::callable(
                schedule,
                log_discount,
                log_dividend,
                integrated_shift,
                discount_pillars,
                dividend_pillars,
                transpose_discount,
                transpose_dividend,
            ),
            exists|model: SuppliedPaidMarketModel<R>| #[trigger] Self::computes(
                schedule,
                log_discount,
                log_dividend,
                integrated_shift,
                discount_pillars,
                dividend_pillars,
                transpose_discount,
                transpose_dividend,
                model,
            ),
        ensures
            Self::computes(
                schedule,
                log_discount,
                log_dividend,
                integrated_shift,
                discount_pillars,
                dividend_pillars,
                transpose_discount,
                transpose_dividend,
                s.supplied(),
            ),
    {
        let ghost model = choose|model: SuppliedPaidMarketModel<R>| #[trigger] Self::computes(
            schedule,
            log_discount,
            log_dividend,
            integrated_shift,
            discount_pillars,
            dividend_pillars,
            transpose_discount,
            transpose_dividend,
            model,
        );
        SuppliedPaidMarket {
            schedule,
            log_discount,
            log_dividend,
            integrated_shift,
            discount_pillars,
            dividend_pillars,
            transpose_discount,
            transpose_dividend,
            model: Ghost(model),
        }
    }

    /// Takes functions that are known to compute `model`.
    pub fn with_model(
        schedule: FSchedule,
        log_discount: FLogDiscount,
        log_dividend: FLogDividend,
        integrated_shift: FIntegratedShift,
        discount_pillars: FDiscountPillars,
        dividend_pillars: FDividendPillars,
        transpose_discount: FTransposeDiscount,
        transpose_dividend: FTransposeDividend,
        model: Ghost<SuppliedPaidMarketModel<R>>,
    ) -> (s: Self)
        requires
            Self::callable(
                schedule,
                log_discount,
                log_dividend,
                integrated_shift,
                discount_pillars,
                dividend_pillars,
                transpose_discount,
                transpose_dividend,
            ),
            Self::computes(
                schedule,
                log_discount,
                log_dividend,
                integrated_shift,
                discount_pillars,
                dividend_pillars,
                transpose_discount,
                transpose_dividend,
                model@,
            ),
        ensures
            s.supplied() == model@,
    {
        SuppliedPaidMarket {
            schedule,
            log_discount,
            log_dividend,
            integrated_shift,
            discount_pillars,
            dividend_pillars,
            transpose_discount,
            transpose_dividend,
            model,
        }
    }
}

impl<
    R: Scalar,
    FSchedule: Fn() -> Vec<PaidDividend<R>>,
    FLogDiscount: Fn(R) -> Result<R, MonteCarloError>,
    FLogDividend: Fn(R) -> Result<R, MonteCarloError>,
    FIntegratedShift: Fn(R, R) -> Result<R, MonteCarloError>,
    FDiscountPillars: Fn() -> Vec<R>,
    FDividendPillars: Fn() -> Vec<R>,
    FTransposeDiscount: Fn(R, R, &Vec<R>) -> Result<Vec<R>, MonteCarloError>,
    FTransposeDividend: Fn(R, R, &Vec<R>) -> Result<Vec<R>, MonteCarloError>,
> PaidMarket<R> for SuppliedPaidMarket<
    R,
    FSchedule,
    FLogDiscount,
    FLogDividend,
    FIntegratedShift,
    FDiscountPillars,
    FDividendPillars,
    FTransposeDiscount,
    FTransposeDividend,
> {
    open spec fn schedule_of(&self) -> Seq<PaidDividend<R>> {
        (self.supplied().schedule)()
    }

    open spec fn log_discount_of(&self, time: R) -> Result<R, MonteCarloError> {
        (self.supplied().log_discount)(time)
    }

    open spec fn log_dividend_of(&self, time: R) -> Result<R, MonteCarloError> {
        (self.supplied().log_dividend)(time)
    }

    open spec fn integrated_shift_of(&self, from: R, to: R) -> Result<R, MonteCarloError> {
        (self.supplied().integrated_shift)(from, to)
    }

    open spec fn discount_pillars_of(&self) -> Seq<R> {
        (self.supplied().discount_pillars)()
    }

    open spec fn dividend_pillars_of(&self) -> Seq<R> {
        (self.supplied().dividend_pillars)()
    }

    open spec fn discount_transposed(
        &self,
        time: R,
        seed: R,
        out: Seq<R>,
    ) -> Result<Seq<R>, MonteCarloError> {
        (self.supplied().transpose_discount)(time, seed, out)
    }

    open spec fn dividend_transposed(
        &self,
        time: R,
        seed: R,
        out: Seq<R>,
    ) -> Result<Seq<R>, MonteCarloError> {
        (self.supplied().transpose_dividend)(time, seed, out)
    }

    fn schedule(&self) -> (r: Vec<PaidDividend<R>>) {
        proof {
            use_type_invariant(self);
        }
        (self.schedule)()
    }

    fn log_discount(&self, time: R) -> (r: Result<R, MonteCarloError>) {
        proof {
            use_type_invariant(self);
        }
        (self.log_discount)(time)
    }

    fn log_dividend(&self, time: R) -> (r: Result<R, MonteCarloError>) {
        proof {
            use_type_invariant(self);
        }
        (self.log_dividend)(time)
    }

    fn integrated_shift(&self, from: R, to: R) -> (r: Result<R, MonteCarloError>) {
        proof {
            use_type_invariant(self);
        }
        (self.integrated_shift)(from, to)
    }

    fn discount_pillars(&self) -> (r: Vec<R>) {
        proof {
            use_type_invariant(self);
        }
        (self.discount_pillars)()
    }

    fn dividend_pillars(&self) -> (r: Vec<R>) {
        proof {
            use_type_invariant(self);
        }
        (self.dividend_pillars)()
    }

    fn transpose_discount(
        &self,
        time: R,
        seed: R,
        out: &Vec<R>,
    ) -> (r: Result<Vec<R>, MonteCarloError>) {
        proof {
            use_type_invariant(self);
        }
        (self.transpose_discount)(time, seed, out)
    }

    fn transpose_dividend(
        &self,
        time: R,
        seed: R,
        out: &Vec<R>,
    ) -> (r: Result<Vec<R>, MonteCarloError>) {
        proof {
            use_type_invariant(self);
        }
        (self.transpose_dividend)(time, seed, out)
    }
}

} // verus!
