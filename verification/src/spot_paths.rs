//! Spot paths of a constant volatility, and exercise policies.

use crate::engine::EngineConfig;
use crate::errors::MonteCarloError;
use crate::models::Fingerprint;
use crate::results::seen;
use crate::sampling::Statistics;
use crate::scalar::Scalar;
use crate::simulation::{Checksums, RandomDomain, PATHWISE_COMPONENTS};
use vstd::prelude::*;

verus! {

/// How an exercise policy was fitted.
pub struct ExercisePolicyDetails<R> {
    /// The numbers that describe the regression of each exercise date.
    pub regression_diagnostics: Vec<Vec<R>>,
    /// The functions of the basis, by their numbers.
    pub policy_basis: Vec<u64>,
    /// The largest immediate value that is not worth an exercise.
    pub itm_abs_tolerance: R,
    /// The settings of the solver.
    pub cpqr_config: Vec<R>,
    pub max_matrix_elements: usize,
    /// The coefficients of the decision at each exercise date.
    pub decision_models: Vec<Vec<R>>,
}

/// What a constant-volatility valuation obtains from its paths.
pub trait SpotPaths<R: Scalar> {
    /// The price and the risk of the path of some normals.
    spec fn pathwise_values_of(&self, normals: Seq<R>) -> Result<Seq<R>, MonteCarloError>;

    /// The price of the path of some normals, and what its bridges did.
    spec fn barrier_values_of(&self, normals: Seq<R>) -> Result<Seq<R>, MonteCarloError>;

    /// The discounted payoff of the path of some normals.
    spec fn payoff_of(&self, normals: Seq<R>) -> Result<R, MonteCarloError>;

    /// Computes [`Self::pathwise_values_of`].
    fn pathwise_values(&self, normals: &Vec<R>) -> (r: Result<Vec<R>, MonteCarloError>)
        ensures
            seen(r) == self.pathwise_values_of(normals@),
            r matches Ok(v) ==> v@.len() == PATHWISE_COMPONENTS,
    ;

    /// Computes [`Self::barrier_values_of`].
    fn barrier_values(&self, normals: &Vec<R>) -> (r: Result<Vec<R>, MonteCarloError>)
        ensures
            seen(r) == self.barrier_values_of(normals@),
            r matches Ok(v) ==> v@.len() == PATHWISE_COMPONENTS,
    ;

    /// Computes [`Self::payoff_of`].
    fn payoff(&self, normals: &Vec<R>) -> (r: Result<R, MonteCarloError>)
        ensures
            r == self.payoff_of(normals@),
    ;
}

/// The functions behind a [`SuppliedSpotPaths`], as mathematical functions.
#[verifier::reject_recursive_types(R)]
pub ghost struct SuppliedSpotPathsModel<R> {
    pub pathwise_values: spec_fn(Seq<R>) -> Result<Seq<R>, MonteCarloError>,
    pub barrier_values: spec_fn(Seq<R>) -> Result<Seq<R>, MonteCarloError>,
    pub payoff: spec_fn(Seq<R>) -> Result<R, MonteCarloError>,
}

/// [`SpotPaths`] whose functions are supplied one by one.
#[verifier::reject_recursive_types(R)]
pub struct SuppliedSpotPaths<
    R: Scalar,
    FPathwiseValues: Fn(&Vec<R>) -> Result<Vec<R>, MonteCarloError>,
    FBarrierValues: Fn(&Vec<R>) -> Result<Vec<R>, MonteCarloError>,
    FPayoff: Fn(&Vec<R>) -> Result<R, MonteCarloError>,
> {
    pathwise_values: FPathwiseValues,
    barrier_values: FBarrierValues,
    payoff: FPayoff,
    model: Ghost<SuppliedSpotPathsModel<R>>,
}

impl<
    R: Scalar,
    FPathwiseValues: Fn(&Vec<R>) -> Result<Vec<R>, MonteCarloError>,
    FBarrierValues: Fn(&Vec<R>) -> Result<Vec<R>, MonteCarloError>,
    FPayoff: Fn(&Vec<R>) -> Result<R, MonteCarloError>,
> SuppliedSpotPaths<R, FPathwiseValues, FBarrierValues, FPayoff> {
    #[verifier::type_invariant]
    closed spec fn inv(self) -> bool {
        Self::callable(self.pathwise_values, self.barrier_values, self.payoff)
            && Self::computes(self.pathwise_values, self.barrier_values, self.payoff, self.model@)
    }

    /// The functions accept every argument.
    pub open spec fn callable(
        pathwise_values: FPathwiseValues,
        barrier_values: FBarrierValues,
        payoff: FPayoff,
    ) -> bool {
        &&& forall|normals: &Vec<R>| #[trigger] call_requires(pathwise_values, (normals,))
        &&& forall|normals: &Vec<R>| #[trigger] call_requires(barrier_values, (normals,))
        &&& forall|normals: &Vec<R>| #[trigger] call_requires(payoff, (normals,))
    }

    /// The functions compute those of the model.
    pub open spec fn computes(
        pathwise_values: FPathwiseValues,
        barrier_values: FBarrierValues,
        payoff: FPayoff,
        model: SuppliedSpotPathsModel<R>,
    ) -> bool {
        &&& forall|normals: &Vec<R>, result: Result<Vec<R>, MonteCarloError>| #[trigger]
            call_ensures(pathwise_values, (normals,), result)
                ==> seen(result) == (model.pathwise_values)(normals@) && (
                result matches Ok(v) ==> v@.len() == PATHWISE_COMPONENTS
            )
        &&& forall|normals: &Vec<R>, result: Result<Vec<R>, MonteCarloError>| #[trigger]
            call_ensures(barrier_values, (normals,), result)
                ==> seen(result) == (model.barrier_values)(normals@) && (
                result matches Ok(v) ==> v@.len() == PATHWISE_COMPONENTS
            )
        &&& forall|normals: &Vec<R>, result: Result<R, MonteCarloError>| #[trigger]
            call_ensures(payoff, (normals,), result) ==> result == (model.payoff)(normals@)
    }

    /// The functions that were supplied.
    pub closed spec fn supplied(self) -> SuppliedSpotPathsModel<R> {
        self.model@
    }

    /// Takes functions that give the same result whenever they are given the
    /// same arguments.
    pub fn new(
        pathwise_values: FPathwiseValues,
        barrier_values: FBarrierValues,
        payoff: FPayoff,
    ) -> (s: Self)
        requires
            Self::callable(pathwise_values, barrier_values, payoff),
            exists|model: SuppliedSpotPathsModel<R>|
                #[trigger] Self::computes(pathwise_values, barrier_values, payoff, model),
        ensures
            Self::computes(pathwise_values, barrier_values, payoff, s.supplied()),
    {
        let ghost model = choose|model: SuppliedSpotPathsModel<R>| #[trigger]
            Self::computes(pathwise_values, barrier_values, payoff, model);
        SuppliedSpotPaths { pathwise_values, barrier_values, payoff, model: Ghost(model) }
    }

    /// Takes functions that are known to compute `model`.
    pub fn with_model(
        pathwise_values: FPathwiseValues,
        barrier_values: FBarrierValues,
        payoff: FPayoff,
        model: Ghost<SuppliedSpotPathsModel<R>>,
    ) -> (s: Self)
        requires
            Self::callable(pathwise_values, barrier_values, payoff),
            Self::computes(pathwise_values, barrier_values, payoff, model@),
        ensures
            s.supplied() == model@,
    {
        SuppliedSpotPaths { pathwise_values, barrier_values, payoff, model }
    }
}

impl<
    R: Scalar,
    FPathwiseValues: Fn(&Vec<R>) -> Result<Vec<R>, MonteCarloError>,
    FBarrierValues: Fn(&Vec<R>) -> Result<Vec<R>, MonteCarloError>,
    FPayoff: Fn(&Vec<R>) -> Result<R, MonteCarloError>,
> SpotPaths<R> for SuppliedSpotPaths<R, FPathwiseValues, FBarrierValues, FPayoff> {
    open spec fn pathwise_values_of(&self, normals: Seq<R>) -> Result<Seq<R>, MonteCarloError> {
        (self.supplied().pathwise_values)(normals)
    }

    open spec fn barrier_values_of(&self, normals: Seq<R>) -> Result<Seq<R>, MonteCarloError> {
        (self.supplied().barrier_values)(normals)
    }

    open spec fn payoff_of(&self, normals: Seq<R>) -> Result<R, MonteCarloError> {
        (self.supplied().payoff)(normals)
    }

    fn pathwise_values(&self, normals: &Vec<R>) -> (r: Result<Vec<R>, MonteCarloError>) {
        proof {
            use_type_invariant(self);
        }
        (self.pathwise_values)(normals)
    }

    fn barrier_values(&self, normals: &Vec<R>) -> (r: Result<Vec<R>, MonteCarloError>) {
        proof {
            use_type_invariant(self);
        }
        (self.barrier_values)(normals)
    }

    fn payoff(&self, normals: &Vec<R>) -> (r: Result<R, MonteCarloError>) {
        proof {
            use_type_invariant(self);
        }
        (self.payoff)(normals)
    }
}

/// What an early-exercise valuation obtains from its regressions.
pub trait ExercisePolicies<R: Scalar> {
    /// The features and the immediate values of some paths.
    type Matrices;

    /// A trained policy.
    type Fitted;

    /// Paths under a policy.
    type Valued;

    /// The features and the immediate values of the paths of an engine.
    spec fn matrices_of(
        &self,
        training: bool,
        engine: EngineConfig,
    ) -> Result<Self::Matrices, MonteCarloError>;

    /// The number of paths.
    spec fn path_count_of(&self, matrices: Self::Matrices) -> usize;

    /// The failure of the training metadata, if they cannot be made.
    spec fn metadata_failure_of(&self) -> Option<MonteCarloError>;

    /// The policy that the training paths give.
    spec fn trained(&self, matrices: Self::Matrices) -> Result<Self::Fitted, MonteCarloError>;

    /// The valuation paths under a policy.
    spec fn valued(
        &self,
        fitted: Self::Fitted,
        matrices: Self::Matrices,
    ) -> Result<Self::Valued, MonteCarloError>;

    /// The discounted cash flow of each path.
    spec fn cashflows_of(&self, valued: Self::Valued) -> Seq<R>;

    /// The stopping index of each path.
    spec fn stops_of(&self, valued: Self::Valued) -> Seq<usize>;

    /// The number of paths that stop at each exercise date.
    spec fn counts_of(&self, valued: Self::Valued) -> Seq<u64>;

    /// The fingerprint of the policy.
    spec fn fingerprint_of(&self, valued: Self::Valued) -> Fingerprint;

    /// The discount factor of each exercise date.
    spec fn discounts_of(&self) -> Seq<R>;

    /// The cash flow of each training path.
    spec fn realized_of(&self, fitted: Self::Fitted) -> Seq<R>;

    /// The stopping index of each training path.
    spec fn training_stops_of(&self, fitted: Self::Fitted) -> Seq<usize>;

    /// The checksums of the quasi-random tables behind some paths.
    spec fn checksums_of(&self, matrices: Self::Matrices) -> Checksums;

    /// What the pseudo-random numbers of the training are for.
    spec fn training_domain_of(&self) -> RandomDomain;

    /// The exercise dates.
    spec fn dates_of(&self) -> Seq<i64>;

    /// The exercise dates that a dividend falls on.
    spec fn collisions_of(&self) -> Seq<i64>;

    /// How a policy was fitted.
    spec fn details_of(&self, fitted: Self::Fitted) -> ExercisePolicyDetails<R>;

    /// The value of each sampling unit of an engine, out of those of its paths.
    spec fn unit_values_of(
        &self,
        values: Seq<R>,
        engine: EngineConfig,
    ) -> Result<Seq<R>, MonteCarloError>;

    /// The statistics of a constant volatility under a frozen policy.
    spec fn constant_vol_statistics_of(
        &self,
        engine: EngineConfig,
        stops: Seq<usize>,
    ) -> Result<Seq<Statistics<R>>, MonteCarloError>;

    /// Computes [`Self::matrices_of`].
    fn matrices(
        &self,
        training: bool,
        engine: EngineConfig,
    ) -> (r: Result<Self::Matrices, MonteCarloError>)
        ensures
            r == self.matrices_of(training, engine),
    ;

    /// Computes [`Self::path_count_of`].
    fn path_count(&self, matrices: &Self::Matrices) -> (r: usize)
        ensures
            r == self.path_count_of(*matrices),
    ;

    /// Computes [`Self::metadata_failure_of`].
    fn metadata_failure(&self) -> (r: Option<MonteCarloError>)
        ensures
            r == self.metadata_failure_of(),
    ;

    /// Computes [`Self::trained`].
    fn train(&self, matrices: &Self::Matrices) -> (r: Result<Self::Fitted, MonteCarloError>)
        ensures
            r == self.trained(*matrices),
    ;

    /// Computes [`Self::valued`].
    fn value(
        &self,
        fitted: &Self::Fitted,
        matrices: &Self::Matrices,
    ) -> (r: Result<Self::Valued, MonteCarloError>)
        ensures
            r == self.valued(*fitted, *matrices),
    ;

    /// Computes [`Self::cashflows_of`].
    fn discounted_cashflows(&self, valued: &Self::Valued) -> (r: Vec<R>)
        ensures
            r@ == self.cashflows_of(*valued),
    ;

    /// Computes [`Self::stops_of`].
    fn stopping_indices(&self, valued: &Self::Valued) -> (r: Vec<usize>)
        ensures
            r@ == self.stops_of(*valued),
    ;

    /// Computes [`Self::counts_of`].
    fn exercise_counts(&self, valued: &Self::Valued) -> (r: Vec<u64>)
        ensures
            r@ == self.counts_of(*valued),
    ;

    /// Computes [`Self::fingerprint_of`].
    fn policy_fingerprint(&self, valued: &Self::Valued) -> (r: Fingerprint)
        ensures
            r == self.fingerprint_of(*valued),
    ;

    /// Computes [`Self::discounts_of`].
    fn discount_factors(&self) -> (r: Vec<R>)
        ensures
            r@ == self.discounts_of(),
    ;

    /// Computes [`Self::realized_of`].
    fn realized_cashflows(&self, fitted: &Self::Fitted) -> (r: Vec<R>)
        ensures
            r@ == self.realized_of(*fitted),
    ;

    /// Computes [`Self::training_stops_of`].
    fn training_stops(&self, fitted: &Self::Fitted) -> (r: Vec<usize>)
        ensures
            r@ == self.training_stops_of(*fitted),
            forall|i: int| 0 <= i < r@.len() ==> #[trigger] r@[i] < self.discounts_of().len(),
    ;

    /// Computes [`Self::checksums_of`].
    fn table_checksums(&self, matrices: &Self::Matrices) -> (r: Checksums)
        ensures
            r == self.checksums_of(*matrices),
    ;

    /// Computes [`Self::training_domain_of`].
    fn training_domain(&self) -> (r: RandomDomain)
        ensures
            r == self.training_domain_of(),
    ;

    /// Computes [`Self::dates_of`].
    fn exercise_dates(&self) -> (r: Vec<i64>)
        ensures
            r@ == self.dates_of(),
    ;

    /// Computes [`Self::collisions_of`].
    fn dividend_collisions(&self) -> (r: Vec<i64>)
        ensures
            r@ == self.collisions_of(),
    ;

    /// Computes [`Self::details_of`].
    fn policy_details(&self, fitted: &Self::Fitted) -> (r: ExercisePolicyDetails<R>)
        ensures
            r == self.details_of(*fitted),
    ;

    /// Computes [`Self::unit_values_of`].
    fn unit_values(
        &self,
        values: &Vec<R>,
        engine: EngineConfig,
    ) -> (r: Result<Vec<R>, MonteCarloError>)
        ensures
            seen(r) == self.unit_values_of(values@, engine),
    ;

    /// Computes [`Self::constant_vol_statistics_of`].
    fn constant_vol_statistics(
        &self,
        engine: EngineConfig,
        stops: &Vec<usize>,
    ) -> (r: Result<Vec<Statistics<R>>, MonteCarloError>)
        ensures
            seen(r) == self.constant_vol_statistics_of(engine, stops@),
            r matches Ok(v) ==> v@.len() == PATHWISE_COMPONENTS,
    ;
}

/// The functions behind a [`SuppliedExercisePolicies`], as mathematical functions.
#[verifier::reject_recursive_types(R)]
#[verifier::reject_recursive_types(Matrices)]
#[verifier::reject_recursive_types(Fitted)]
#[verifier::reject_recursive_types(Valued)]
pub ghost struct SuppliedExercisePoliciesModel<R, Matrices, Fitted, Valued> {
    pub matrices: spec_fn(bool, EngineConfig) -> Result<Matrices, MonteCarloError>,
    pub path_count: spec_fn(Matrices) -> usize,
    pub metadata_failure: spec_fn() -> Option<MonteCarloError>,
    pub train: spec_fn(Matrices) -> Result<Fitted, MonteCarloError>,
    pub value: spec_fn(Fitted, Matrices) -> Result<Valued, MonteCarloError>,
    pub discounted_cashflows: spec_fn(Valued) -> Seq<R>,
    pub stopping_indices: spec_fn(Valued) -> Seq<usize>,
    pub exercise_counts: spec_fn(Valued) -> Seq<u64>,
    pub policy_fingerprint: spec_fn(Valued) -> Fingerprint,
    pub discount_factors: spec_fn() -> Seq<R>,
    pub realized_cashflows: spec_fn(Fitted) -> Seq<R>,
    pub training_stops: spec_fn(Fitted) -> Seq<usize>,
    pub table_checksums: spec_fn(Matrices) -> Checksums,
    pub training_domain: spec_fn() -> RandomDomain,
    pub exercise_dates: spec_fn() -> Seq<i64>,
    pub dividend_collisions: spec_fn() -> Seq<i64>,
    pub policy_details: spec_fn(Fitted) -> ExercisePolicyDetails<R>,
    pub unit_values: spec_fn(Seq<R>, EngineConfig) -> Result<Seq<R>, MonteCarloError>,
    pub constant_vol_statistics: spec_fn(EngineConfig, Seq<usize>) -> Result<
        Seq<Statistics<R>>,
        MonteCarloError,
    >,
}

/// [`ExercisePolicies`] whose functions are supplied one by one.
#[verifier::reject_recursive_types(R)]
#[verifier::reject_recursive_types(Matrices)]
#[verifier::reject_recursive_types(Fitted)]
#[verifier::reject_recursive_types(Valued)]
pub struct SuppliedExercisePolicies<
    R: Scalar,
    Matrices,
    Fitted,
    Valued,
    FMatrices: Fn(bool, EngineConfig) -> Result<Matrices, MonteCarloError>,
    FPathCount: Fn(&Matrices) -> usize,
    FMetadataFailure: Fn() -> Option<MonteCarloError>,
    FTrain: Fn(&Matrices) -> Result<Fitted, MonteCarloError>,
    FValue: Fn(&Fitted, &Matrices) -> Result<Valued, MonteCarloError>,
    FDiscountedCashflows: Fn(&Valued) -> Vec<R>,
    FStoppingIndices: Fn(&Valued) -> Vec<usize>,
    FExerciseCounts: Fn(&Valued) -> Vec<u64>,
    FPolicyFingerprint: Fn(&Valued) -> Fingerprint,
    FDiscountFactors: Fn() -> Vec<R>,
    FRealizedCashflows: Fn(&Fitted) -> Vec<R>,
    FTrainingStops: Fn(&Fitted) -> Vec<usize>,
    FTableChecksums: Fn(&Matrices) -> Checksums,
    FTrainingDomain: Fn() -> RandomDomain,
    FExerciseDates: Fn() -> Vec<i64>,
    FDividendCollisions: Fn() -> Vec<i64>,
    FPolicyDetails: Fn(&Fitted) -> ExercisePolicyDetails<R>,
    FUnitValues: Fn(&Vec<R>, EngineConfig) -> Result<Vec<R>, MonteCarloError>,
    FConstantVolStatistics: Fn(EngineConfig, &Vec<usize>) -> Result<
        Vec<Statistics<R>>,
        MonteCarloError,
    >,
> {
    matrices: FMatrices,
    path_count: FPathCount,
    metadata_failure: FMetadataFailure,
    train: FTrain,
    value: FValue,
    discounted_cashflows: FDiscountedCashflows,
    stopping_indices: FStoppingIndices,
    exercise_counts: FExerciseCounts,
    policy_fingerprint: FPolicyFingerprint,
    discount_factors: FDiscountFactors,
    realized_cashflows: FRealizedCashflows,
    training_stops: FTrainingStops,
    table_checksums: FTableChecksums,
    training_domain: FTrainingDomain,
    exercise_dates: FExerciseDates,
    dividend_collisions: FDividendCollisions,
    policy_details: FPolicyDetails,
    unit_values: FUnitValues,
    constant_vol_statistics: FConstantVolStatistics,
    model: Ghost<SuppliedExercisePoliciesModel<R, Matrices, Fitted, Valued>>,
}

impl<
    R: Scalar,
    Matrices,
    Fitted,
    Valued,
    FMatrices: Fn(bool, EngineConfig) -> Result<Matrices, MonteCarloError>,
    FPathCount: Fn(&Matrices) -> usize,
    FMetadataFailure: Fn() -> Option<MonteCarloError>,
    FTrain: Fn(&Matrices) -> Result<Fitted, MonteCarloError>,
    FValue: Fn(&Fitted, &Matrices) -> Result<Valued, MonteCarloError>,
    FDiscountedCashflows: Fn(&Valued) -> Vec<R>,
    FStoppingIndices: Fn(&Valued) -> Vec<usize>,
    FExerciseCounts: Fn(&Valued) -> Vec<u64>,
    FPolicyFingerprint: Fn(&Valued) -> Fingerprint,
    FDiscountFactors: Fn() -> Vec<R>,
    FRealizedCashflows: Fn(&Fitted) -> Vec<R>,
    FTrainingStops: Fn(&Fitted) -> Vec<usize>,
    FTableChecksums: Fn(&Matrices) -> Checksums,
    FTrainingDomain: Fn() -> RandomDomain,
    FExerciseDates: Fn() -> Vec<i64>,
    FDividendCollisions: Fn() -> Vec<i64>,
    FPolicyDetails: Fn(&Fitted) -> ExercisePolicyDetails<R>,
    FUnitValues: Fn(&Vec<R>, EngineConfig) -> Result<Vec<R>, MonteCarloError>,
    FConstantVolStatistics: Fn(EngineConfig, &Vec<usize>) -> Result<
        Vec<Statistics<R>>,
        MonteCarloError,
    >,
> SuppliedExercisePolicies<
    R,
    Matrices,
    Fitted,
    Valued,
    FMatrices,
    FPathCount,
    FMetadataFailure,
    FTrain,
    FValue,
    FDiscountedCashflows,
    FStoppingIndices,
    FExerciseCounts,
    FPolicyFingerprint,
    FDiscountFactors,
    FRealizedCashflows,
    FTrainingStops,
    FTableChecksums,
    FTrainingDomain,
    FExerciseDates,
    FDividendCollisions,
    FPolicyDetails,
    FUnitValues,
    FConstantVolStatistics,
> {
    #[verifier::type_invariant]
    closed spec fn inv(self) -> bool {
        Self::callable(
            self.matrices,
            self.path_count,
            self.metadata_failure,
            self.train,
            self.value,
            self.discounted_cashflows,
            self.stopping_indices,
            self.exercise_counts,
            self.policy_fingerprint,
            self.discount_factors,
            self.realized_cashflows,
            self.training_stops,
            self.table_checksums,
            self.training_domain,
            self.exercise_dates,
            self.dividend_collisions,
            self.policy_details,
            self.unit_values,
            self.constant_vol_statistics,
        )
            && Self::computes(
                self.matrices,
                self.path_count,
                self.metadata_failure,
                self.train,
                self.value,
                self.discounted_cashflows,
                self.stopping_indices,
                self.exercise_counts,
                self.policy_fingerprint,
                self.discount_factors,
                self.realized_cashflows,
                self.training_stops,
                self.table_checksums,
                self.training_domain,
                self.exercise_dates,
                self.dividend_collisions,
                self.policy_details,
                self.unit_values,
                self.constant_vol_statistics,
                self.model@,
            )
    }

    /// The functions accept every argument.
    pub open spec fn callable(
        matrices: FMatrices,
        path_count: FPathCount,
        metadata_failure: FMetadataFailure,
        train: FTrain,
        value: FValue,
        discounted_cashflows: FDiscountedCashflows,
        stopping_indices: FStoppingIndices,
        exercise_counts: FExerciseCounts,
        policy_fingerprint: FPolicyFingerprint,
        discount_factors: FDiscountFactors,
        realized_cashflows: FRealizedCashflows,
        training_stops: FTrainingStops,
        table_checksums: FTableChecksums,
        training_domain: FTrainingDomain,
        exercise_dates: FExerciseDates,
        dividend_collisions: FDividendCollisions,
        policy_details: FPolicyDetails,
        unit_values: FUnitValues,
        constant_vol_statistics: FConstantVolStatistics,
    ) -> bool {
        &&& forall|training: bool, engine: EngineConfig|
            #[trigger] call_requires(matrices, (training, engine))
        &&& forall|matrices: &Matrices| #[trigger] call_requires(path_count, (matrices,))
        &&& call_requires(metadata_failure, ())
        &&& forall|matrices: &Matrices| #[trigger] call_requires(train, (matrices,))
        &&& forall|fitted: &Fitted, matrices: &Matrices|
            #[trigger] call_requires(value, (fitted, matrices))
        &&& forall|valued: &Valued| #[trigger] call_requires(discounted_cashflows, (valued,))
        &&& forall|valued: &Valued| #[trigger] call_requires(stopping_indices, (valued,))
        &&& forall|valued: &Valued| #[trigger] call_requires(exercise_counts, (valued,))
        &&& forall|valued: &Valued| #[trigger] call_requires(policy_fingerprint, (valued,))
        &&& call_requires(discount_factors, ())
        &&& forall|fitted: &Fitted| #[trigger] call_requires(realized_cashflows, (fitted,))
        &&& forall|fitted: &Fitted| #[trigger] call_requires(training_stops, (fitted,))
        &&& forall|matrices: &Matrices| #[trigger] call_requires(table_checksums, (matrices,))
        &&& call_requires(training_domain, ())
        &&& call_requires(exercise_dates, ())
        &&& call_requires(dividend_collisions, ())
        &&& forall|fitted: &Fitted| #[trigger] call_requires(policy_details, (fitted,))
        &&& forall|values: &Vec<R>, engine: EngineConfig|
            #[trigger] call_requires(unit_values, (values, engine))
        &&& forall|engine: EngineConfig, stops: &Vec<usize>|
            #[trigger] call_requires(constant_vol_statistics, (engine, stops))
    }

    /// The functions compute those of the model.
    pub open spec fn computes(
        matrices: FMatrices,
        path_count: FPathCount,
        metadata_failure: FMetadataFailure,
        train: FTrain,
        value: FValue,
        discounted_cashflows: FDiscountedCashflows,
        stopping_indices: FStoppingIndices,
        exercise_counts: FExerciseCounts,
        policy_fingerprint: FPolicyFingerprint,
        discount_factors: FDiscountFactors,
        realized_cashflows: FRealizedCashflows,
        training_stops: FTrainingStops,
        table_checksums: FTableChecksums,
        training_domain: FTrainingDomain,
        exercise_dates: FExerciseDates,
        dividend_collisions: FDividendCollisions,
        policy_details: FPolicyDetails,
        unit_values: FUnitValues,
        constant_vol_statistics: FConstantVolStatistics,
        model: SuppliedExercisePoliciesModel<R, Matrices, Fitted, Valued>,
    ) -> bool {
        &&& forall|training: bool, engine: EngineConfig, result: Result<Matrices, MonteCarloError>|
            #[trigger]
            call_ensures(
                matrices,
                (training, engine),
                result,
            ) ==> result == (model.matrices)(training, engine)
        &&& forall|matrices: &Matrices, result: usize| #[trigger]
            call_ensures(
                path_count,
                (matrices,),
                result,
            ) ==> result == (model.path_count)(*matrices)
        &&& forall|result: Option<MonteCarloError>| #[trigger]
            call_ensures(metadata_failure, (), result) ==> result == (model.metadata_failure)()
        &&& forall|matrices: &Matrices, result: Result<Fitted, MonteCarloError>| #[trigger]
            call_ensures(train, (matrices,), result) ==> result == (model.train)(*matrices)
        &&& forall|fitted: &Fitted, matrices: &Matrices, result: Result<Valued, MonteCarloError>|
            #[trigger]
            call_ensures(
                value,
                (fitted, matrices),
                result,
            ) ==> result == (model.value)(*fitted, *matrices)
        &&& forall|valued: &Valued, result: Vec<R>| #[trigger]
            call_ensures(
                discounted_cashflows,
                (valued,),
                result,
            ) ==> result@ == (model.discounted_cashflows)(*valued)
        &&& forall|valued: &Valued, result: Vec<usize>| #[trigger]
            call_ensures(
                stopping_indices,
                (valued,),
                result,
            ) ==> result@ == (model.stopping_indices)(*valued)
        &&& forall|valued: &Valued, result: Vec<u64>| #[trigger]
            call_ensures(
                exercise_counts,
                (valued,),
                result,
            ) ==> result@ == (model.exercise_counts)(*valued)
        &&& forall|valued: &Valued, result: Fingerprint| #[trigger]
            call_ensures(
                policy_fingerprint,
                (valued,),
                result,
            ) ==> result == (model.policy_fingerprint)(*valued)
        &&& forall|result: Vec<R>| #[trigger]
            call_ensures(discount_factors, (), result) ==> result@ == (model.discount_factors)()
        &&& forall|fitted: &Fitted, result: Vec<R>| #[trigger]
            call_ensures(
                realized_cashflows,
                (fitted,),
                result,
            ) ==> result@ == (model.realized_cashflows)(*fitted)
        &&& forall|fitted: &Fitted, result: Vec<usize>| #[trigger]
            call_ensures(training_stops, (fitted,), result)
                ==> result@ == (model.training_stops)(*fitted) && (
                forall|i: int|
                    0 <= i < result@.len()
                        ==> #[trigger] result@[i] < (model.discount_factors)().len()
            )
        &&& forall|matrices: &Matrices, result: Checksums| #[trigger]
            call_ensures(
                table_checksums,
                (matrices,),
                result,
            ) ==> result == (model.table_checksums)(*matrices)
        &&& forall|result: RandomDomain| #[trigger]
            call_ensures(training_domain, (), result) ==> result == (model.training_domain)()
        &&& forall|result: Vec<i64>| #[trigger]
            call_ensures(exercise_dates, (), result) ==> result@ == (model.exercise_dates)()
        &&& forall|result: Vec<i64>| #[trigger]
            call_ensures(
                dividend_collisions,
                (),
                result,
            ) ==> result@ == (model.dividend_collisions)()
        &&& forall|fitted: &Fitted, result: ExercisePolicyDetails<R>| #[trigger]
            call_ensures(
                policy_details,
                (fitted,),
                result,
            ) ==> result == (model.policy_details)(*fitted)
        &&& forall|values: &Vec<R>, engine: EngineConfig, result: Result<Vec<R>, MonteCarloError>|
            #[trigger]
            call_ensures(
                unit_values,
                (values, engine),
                result,
            ) ==> seen(result) == (model.unit_values)(values@, engine)
        &&& forall|
            engine: EngineConfig,
            stops: &Vec<usize>,
            result: Result<Vec<Statistics<R>>, MonteCarloError>,
        |
            #[trigger]
            call_ensures(constant_vol_statistics, (engine, stops), result)
                ==> seen(result) == (model.constant_vol_statistics)(engine, stops@) && (
                result matches Ok(v) ==> v@.len() == PATHWISE_COMPONENTS
            )
    }

    /// The functions that were supplied.
    pub closed spec fn supplied(self) -> SuppliedExercisePoliciesModel<R, Matrices, Fitted, Valued> {
        self.model@
    }

    /// Takes functions that give the same result whenever they are given the
    /// same arguments.
    pub fn new(
        matrices: FMatrices,
        path_count: FPathCount,
        metadata_failure: FMetadataFailure,
        train: FTrain,
        value: FValue,
        discounted_cashflows: FDiscountedCashflows,
        stopping_indices: FStoppingIndices,
        exercise_counts: FExerciseCounts,
        policy_fingerprint: FPolicyFingerprint,
        discount_factors: FDiscountFactors,
        realized_cashflows: FRealizedCashflows,
        training_stops: FTrainingStops,
        table_checksums: FTableChecksums,
        training_domain: FTrainingDomain,
        exercise_dates: FExerciseDates,
        dividend_collisions: FDividendCollisions,
        policy_details: FPolicyDetails,
        unit_values: FUnitValues,
        constant_vol_statistics: FConstantVolStatistics,
    ) -> (s: Self)
        requires
            Self::callable(
                matrices,
                path_count,
                metadata_failure,
                train,
                value,
                discounted_cashflows,
                stopping_indices,
                exercise_counts,
                policy_fingerprint,
                discount_factors,
                realized_cashflows,
                training_stops,
                table_checksums,
                training_domain,
                exercise_dates,
                dividend_collisions,
                policy_details,
                unit_values,
                constant_vol_statistics,
            ),
            exists|model: SuppliedExercisePoliciesModel<R, Matrices, Fitted, Valued>|
                #[trigger] Self::computes(
                    matrices,
                    path_count,
                    metadata_failure,
                    train,
                    value,
                    discounted_cashflows,
                    stopping_indices,
                    exercise_counts,
                    policy_fingerprint,
                    discount_factors,
                    realized_cashflows,
                    training_stops,
                    table_checksums,
                    training_domain,
                    exercise_dates,
                    dividend_collisions,
                    policy_details,
                    unit_values,
                    constant_vol_statistics,
                    model,
                ),
        ensures
            Self::computes(
                matrices,
                path_count,
                metadata_failure,
                train,
                value,
                discounted_cashflows,
                stopping_indices,
                exercise_counts,
                policy_fingerprint,
                discount_factors,
                realized_cashflows,
                training_stops,
                table_checksums,
                training_domain,
                exercise_dates,
                dividend_collisions,
                policy_details,
                unit_values,
                constant_vol_statistics,
                s.supplied(),
            ),
    {
        let ghost model = choose|model: SuppliedExercisePoliciesModel<R, Matrices, Fitted, Valued>| #[trigger]
            Self::computes(
                matrices,
                path_count,
                metadata_failure,
                train,
                value,
                discounted_cashflows,
                stopping_indices,
                exercise_counts,
                policy_fingerprint,
                discount_factors,
                realized_cashflows,
                training_stops,
                table_checksums,
                training_domain,
                exercise_dates,
                dividend_collisions,
                policy_details,
                unit_values,
                constant_vol_statistics,
                model,
            );
        SuppliedExercisePolicies {
            matrices,
            path_count,
            metadata_failure,
            train,
            value,
            discounted_cashflows,
            stopping_indices,
            exercise_counts,
            policy_fingerprint,
            discount_factors,
            realized_cashflows,
            training_stops,
            table_checksums,
            training_domain,
            exercise_dates,
            dividend_collisions,
            policy_details,
            unit_values,
            constant_vol_statistics,
            model: Ghost(model),
        }
    }

    /// Takes functions that are known to compute `model`.
    pub fn with_model(
        matrices: FMatrices,
        path_count: FPathCount,
        metadata_failure: FMetadataFailure,
        train: FTrain,
        value: FValue,
        discounted_cashflows: FDiscountedCashflows,
        stopping_indices: FStoppingIndices,
        exercise_counts: FExerciseCounts,
        policy_fingerprint: FPolicyFingerprint,
        discount_factors: FDiscountFactors,
        realized_cashflows: FRealizedCashflows,
        training_stops: FTrainingStops,
        table_checksums: FTableChecksums,
        training_domain: FTrainingDomain,
        exercise_dates: FExerciseDates,
        dividend_collisions: FDividendCollisions,
        policy_details: FPolicyDetails,
        unit_values: FUnitValues,
        constant_vol_statistics: FConstantVolStatistics,
        model: Ghost<SuppliedExercisePoliciesModel<R, Matrices, Fitted, Valued>>,
    ) -> (s: Self)
        requires
            Self::callable(
                matrices,
                path_count,
                metadata_failure,
                train,
                value,
                discounted_cashflows,
                stopping_indices,
                exercise_counts,
                policy_fingerprint,
                discount_factors,
                realized_cashflows,
                training_stops,
                table_checksums,
                training_domain,
                exercise_dates,
                dividend_collisions,
                policy_details,
                unit_values,
                constant_vol_statistics,
            ),
            Self::computes(
                matrices,
                path_count,
                metadata_failure,
                train,
                value,
                discounted_cashflows,
                stopping_indices,
                exercise_counts,
                policy_fingerprint,
                discount_factors,
                realized_cashflows,
                training_stops,
                table_checksums,
                training_domain,
                exercise_dates,
                dividend_collisions,
                policy_details,
                unit_values,
                constant_vol_statistics,
                model@,
            ),
        ensures
            s.supplied() == model@,
    {
        SuppliedExercisePolicies {
            matrices,
            path_count,
            metadata_failure,
            train,
            value,
            discounted_cashflows,
            stopping_indices,
            exercise_counts,
            policy_fingerprint,
            discount_factors,
            realized_cashflows,
            training_stops,
            table_checksums,
            training_domain,
            exercise_dates,
            dividend_collisions,
            policy_details,
            unit_values,
            constant_vol_statistics,
            model,
        }
    }
}

impl<
    R: Scalar,
    Matrices,
    Fitted,
    Valued,
    FMatrices: Fn(bool, EngineConfig) -> Result<Matrices, MonteCarloError>,
    FPathCount: Fn(&Matrices) -> usize,
    FMetadataFailure: Fn() -> Option<MonteCarloError>,
    FTrain: Fn(&Matrices) -> Result<Fitted, MonteCarloError>,
    FValue: Fn(&Fitted, &Matrices) -> Result<Valued, MonteCarloError>,
    FDiscountedCashflows: Fn(&Valued) -> Vec<R>,
    FStoppingIndices: Fn(&Valued) -> Vec<usize>,
    FExerciseCounts: Fn(&Valued) -> Vec<u64>,
    FPolicyFingerprint: Fn(&Valued) -> Fingerprint,
    FDiscountFactors: Fn() -> Vec<R>,
    FRealizedCashflows: Fn(&Fitted) -> Vec<R>,
    FTrainingStops: Fn(&Fitted) -> Vec<usize>,
    FTableChecksums: Fn(&Matrices) -> Checksums,
    FTrainingDomain: Fn() -> RandomDomain,
    FExerciseDates: Fn() -> Vec<i64>,
    FDividendCollisions: Fn() -> Vec<i64>,
    FPolicyDetails: Fn(&Fitted) -> ExercisePolicyDetails<R>,
    FUnitValues: Fn(&Vec<R>, EngineConfig) -> Result<Vec<R>, MonteCarloError>,
    FConstantVolStatistics: Fn(EngineConfig, &Vec<usize>) -> Result<
        Vec<Statistics<R>>,
        MonteCarloError,
    >,
> ExercisePolicies<R> for SuppliedExercisePolicies<
    R,
    Matrices,
    Fitted,
    Valued,
    FMatrices,
    FPathCount,
    FMetadataFailure,
    FTrain,
    FValue,
    FDiscountedCashflows,
    FStoppingIndices,
    FExerciseCounts,
    FPolicyFingerprint,
    FDiscountFactors,
    FRealizedCashflows,
    FTrainingStops,
    FTableChecksums,
    FTrainingDomain,
    FExerciseDates,
    FDividendCollisions,
    FPolicyDetails,
    FUnitValues,
    FConstantVolStatistics,
> {
    type Matrices = Matrices;

    type Fitted = Fitted;

    type Valued = Valued;

    open spec fn matrices_of(
        &self,
        training: bool,
        engine: EngineConfig,
    ) -> Result<Matrices, MonteCarloError> {
        (self.supplied().matrices)(training, engine)
    }

    open spec fn path_count_of(&self, matrices: Self::Matrices) -> usize {
        (self.supplied().path_count)(matrices)
    }

    open spec fn metadata_failure_of(&self) -> Option<MonteCarloError> {
        (self.supplied().metadata_failure)()
    }

    open spec fn trained(&self, matrices: Self::Matrices) -> Result<Fitted, MonteCarloError> {
        (self.supplied().train)(matrices)
    }

    open spec fn valued(
        &self,
        fitted: Self::Fitted,
        matrices: Self::Matrices,
    ) -> Result<Valued, MonteCarloError> {
        (self.supplied().value)(fitted, matrices)
    }

    open spec fn cashflows_of(&self, valued: Self::Valued) -> Seq<R> {
        (self.supplied().discounted_cashflows)(valued)
    }

    open spec fn stops_of(&self, valued: Self::Valued) -> Seq<usize> {
        (self.supplied().stopping_indices)(valued)
    }

    open spec fn counts_of(&self, valued: Self::Valued) -> Seq<u64> {
        (self.supplied().exercise_counts)(valued)
    }

    open spec fn fingerprint_of(&self, valued: Self::Valued) -> Fingerprint {
        (self.supplied().policy_fingerprint)(valued)
    }

    open spec fn discounts_of(&self) -> Seq<R> {
        (self.supplied().discount_factors)()
    }

    open spec fn realized_of(&self, fitted: Self::Fitted) -> Seq<R> {
        (self.supplied().realized_cashflows)(fitted)
    }

    open spec fn training_stops_of(&self, fitted: Self::Fitted) -> Seq<usize> {
        (self.supplied().training_stops)(fitted)
    }

    open spec fn checksums_of(&self, matrices: Self::Matrices) -> Checksums {
        (self.supplied().table_checksums)(matrices)
    }

    open spec fn training_domain_of(&self) -> RandomDomain {
        (self.supplied().training_domain)()
    }

    open spec fn dates_of(&self) -> Seq<i64> {
        (self.supplied().exercise_dates)()
    }

    open spec fn collisions_of(&self) -> Seq<i64> {
        (self.supplied().dividend_collisions)()
    }

    open spec fn details_of(&self, fitted: Self::Fitted) -> ExercisePolicyDetails<R> {
        (self.supplied().policy_details)(fitted)
    }

    open spec fn unit_values_of(
        &self,
        values: Seq<R>,
        engine: EngineConfig,
    ) -> Result<Seq<R>, MonteCarloError> {
        (self.supplied().unit_values)(values, engine)
    }

    open spec fn constant_vol_statistics_of(
        &self,
        engine: EngineConfig,
        stops: Seq<usize>,
    ) -> Result<Seq<Statistics<R>>, MonteCarloError> {
        (self.supplied().constant_vol_statistics)(engine, stops)
    }

    fn matrices(
        &self,
        training: bool,
        engine: EngineConfig,
    ) -> (r: Result<Self::Matrices, MonteCarloError>) {
        proof {
            use_type_invariant(self);
        }
        (self.matrices)(training, engine)
    }

    fn path_count(&self, matrices: &Self::Matrices) -> (r: usize) {
        proof {
            use_type_invariant(self);
        }
        (self.path_count)(matrices)
    }

    fn metadata_failure(&self) -> (r: Option<MonteCarloError>) {
        proof {
            use_type_invariant(self);
        }
        (self.metadata_failure)()
    }

    fn train(&self, matrices: &Self::Matrices) -> (r: Result<Self::Fitted, MonteCarloError>) {
        proof {
            use_type_invariant(self);
        }
        (self.train)(matrices)
    }

    fn value(
        &self,
        fitted: &Self::Fitted,
        matrices: &Self::Matrices,
    ) -> (r: Result<Self::Valued, MonteCarloError>) {
        proof {
            use_type_invariant(self);
        }
        (self.value)(fitted, matrices)
    }

    fn discounted_cashflows(&self, valued: &Self::Valued) -> (r: Vec<R>) {
        proof {
            use_type_invariant(self);
        }
        (self.discounted_cashflows)(valued)
    }

    fn stopping_indices(&self, valued: &Self::Valued) -> (r: Vec<usize>) {
        proof {
            use_type_invariant(self);
        }
        (self.stopping_indices)(valued)
    }

    fn exercise_counts(&self, valued: &Self::Valued) -> (r: Vec<u64>) {
        proof {
            use_type_invariant(self);
        }
        (self.exercise_counts)(valued)
    }

    fn policy_fingerprint(&self, valued: &Self::Valued) -> (r: Fingerprint) {
        proof {
            use_type_invariant(self);
        }
        (self.policy_fingerprint)(valued)
    }

    fn discount_factors(&self) -> (r: Vec<R>) {
        proof {
            use_type_invariant(self);
        }
        (self.discount_factors)()
    }

    fn realized_cashflows(&self, fitted: &Self::Fitted) -> (r: Vec<R>) {
        proof {
            use_type_invariant(self);
        }
        (self.realized_cashflows)(fitted)
    }

    fn training_stops(&self, fitted: &Self::Fitted) -> (r: Vec<usize>) {
        proof {
            use_type_invariant(self);
        }
        (self.training_stops)(fitted)
    }

    fn table_checksums(&self, matrices: &Self::Matrices) -> (r: Checksums) {
        proof {
            use_type_invariant(self);
        }
        (self.table_checksums)(matrices)
    }

    fn training_domain(&self) -> (r: RandomDomain) {
        proof {
            use_type_invariant(self);
        }
        (self.training_domain)()
    }

    fn exercise_dates(&self) -> (r: Vec<i64>) {
        proof {
            use_type_invariant(self);
        }
        (self.exercise_dates)()
    }

    fn dividend_collisions(&self) -> (r: Vec<i64>) {
        proof {
            use_type_invariant(self);
        }
        (self.dividend_collisions)()
    }

    fn policy_details(&self, fitted: &Self::Fitted) -> (r: ExercisePolicyDetails<R>) {
        proof {
            use_type_invariant(self);
        }
        (self.policy_details)(fitted)
    }

    fn unit_values(
        &self,
        values: &Vec<R>,
        engine: EngineConfig,
    ) -> (r: Result<Vec<R>, MonteCarloError>) {
        proof {
            use_type_invariant(self);
        }
        (self.unit_values)(values, engine)
    }

    fn constant_vol_statistics(
        &self,
        engine: EngineConfig,
        stops: &Vec<usize>,
    ) -> (r: Result<Vec<Statistics<R>>, MonteCarloError>) {
        proof {
            use_type_invariant(self);
        }
        (self.constant_vol_statistics)(engine, stops)
    }
}

} // verus!
