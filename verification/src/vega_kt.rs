//! The bucketed vega of a simulation.

use crate::errors::MonteCarloError;
use crate::estimation::mean_of;
use crate::neumaier::{compensated_sum, sum_compensated};
use crate::sampling::Statistics;
use crate::scalar::{minus, Math, Model, Scalar};
use crate::units::rows_of;
use vstd::prelude::*;

verus! {

/// What a bucketed vega obtains from its reporting basis.
pub trait VegaBuckets<R: Scalar> {
    /// The estimates of the buckets.
    type Estimates;

    /// A projection to the buckets.
    type Projection;

    /// A covariance of the buckets.
    type Covariance;

    /// A bucketed vega.
    type Report;

    /// The estimates of the buckets, beside the prices of the same sampling units.
    spec fn bucket_estimates_of(
        &self,
        prices: Seq<R>,
        samples: Seq<R>,
        count: usize,
    ) -> Result<Self::Estimates, MonteCarloError>;

    /// The mean of each bucket.
    spec fn raw_means_of(&self, estimates: Self::Estimates) -> Seq<R>;

    /// The projection with the given bucket means, remainder and total.
    spec fn projection_of(
        &self,
        means: Seq<R>,
        remainder: R,
        total: R,
    ) -> Result<Self::Projection, MonteCarloError>;

    /// Whether the full covariance of the buckets was asked for.
    spec fn covariance_wanted(&self) -> bool;

    /// The full covariance of the buckets.
    spec fn covariance_of(
        &self,
        samples: Seq<R>,
        count: usize,
    ) -> Result<Self::Covariance, MonteCarloError>;

    /// The number of reporting rows.
    spec fn density_rows_of(&self) -> usize;

    /// The report of a projection on a reporting row.
    spec fn report_of(
        &self,
        row: usize,
        projection: Self::Projection,
        estimates: Self::Estimates,
        covariance: Option<Self::Covariance>,
    ) -> Result<Self::Report, MonteCarloError>;

    /// Computes [`Self::bucket_estimates_of`].
    fn bucket_estimates(
        &self,
        prices: &Vec<R>,
        samples: &Vec<R>,
        count: usize,
    ) -> (r: Result<Self::Estimates, MonteCarloError>)
        ensures
            r == self.bucket_estimates_of(prices@, samples@, count),
    ;

    /// Computes [`Self::raw_means_of`].
    fn raw_means(&self, estimates: &Self::Estimates) -> (r: Vec<R>)
        ensures
            r@ == self.raw_means_of(*estimates),
    ;

    /// Computes [`Self::projection_of`].
    fn project_parts(
        &self,
        means: &Vec<R>,
        remainder: R,
        total: R,
    ) -> (r: Result<Self::Projection, MonteCarloError>)
        ensures
            r == self.projection_of(means@, remainder, total),
    ;

    /// Computes [`Self::covariance_wanted`].
    fn wants_covariance(&self) -> (r: bool)
        ensures
            r == self.covariance_wanted(),
    ;

    /// Computes [`Self::covariance_of`].
    fn covariance(&self, samples: &Vec<R>, count: usize) -> (
        r: Result<Self::Covariance, MonteCarloError>
    )
        ensures
            r == self.covariance_of(samples@, count),
    ;

    /// Computes [`Self::density_rows_of`].
    fn density_row_count(&self) -> (r: usize)
        ensures
            r == self.density_rows_of(),
    ;

    /// Computes [`Self::report_of`].
    fn vega_report(
        &self,
        row: usize,
        projection: Self::Projection,
        estimates: Self::Estimates,
        covariance: Option<Self::Covariance>,
    ) -> (r: Result<Self::Report, MonteCarloError>)
        ensures
            r == self.report_of(row, projection, estimates, covariance),
    ;
}

/// The functions behind a [`SuppliedVegaBuckets`], as mathematical functions.
#[verifier::reject_recursive_types(R)]
#[verifier::reject_recursive_types(Estimates)]
#[verifier::reject_recursive_types(Projection)]
#[verifier::reject_recursive_types(Covariance)]
#[verifier::reject_recursive_types(Report)]
pub ghost struct SuppliedVegaBucketsModel<R, Estimates, Projection, Covariance, Report> {
    pub bucket_estimates: spec_fn(Seq<R>, Seq<R>, usize) -> Result<Estimates, MonteCarloError>,
    pub raw_means: spec_fn(Estimates) -> Seq<R>,
    pub project_parts: spec_fn(Seq<R>, R, R) -> Result<Projection, MonteCarloError>,
    pub wants_covariance: spec_fn() -> bool,
    pub covariance: spec_fn(Seq<R>, usize) -> Result<Covariance, MonteCarloError>,
    pub density_row_count: spec_fn() -> usize,
    pub vega_report: spec_fn(
        usize,
        Projection,
        Estimates,
        Option<Covariance>,
    ) -> Result<Report, MonteCarloError>,
}

/// [`VegaBuckets`] whose functions are supplied one by one.
#[verifier::reject_recursive_types(R)]
#[verifier::reject_recursive_types(Estimates)]
#[verifier::reject_recursive_types(Projection)]
#[verifier::reject_recursive_types(Covariance)]
#[verifier::reject_recursive_types(Report)]
pub struct SuppliedVegaBuckets<
    R: Scalar,
    Estimates,
    Projection,
    Covariance,
    Report,
    FBucketEstimates: Fn(&Vec<R>, &Vec<R>, usize) -> Result<Estimates, MonteCarloError>,
    FRawMeans: Fn(&Estimates) -> Vec<R>,
    FProjectParts: Fn(&Vec<R>, R, R) -> Result<Projection, MonteCarloError>,
    FWantsCovariance: Fn() -> bool,
    FCovariance: Fn(&Vec<R>, usize) -> Result<Covariance, MonteCarloError>,
    FDensityRowCount: Fn() -> usize,
    FVegaReport: Fn(
        usize,
        Projection,
        Estimates,
        Option<Covariance>,
    ) -> Result<Report, MonteCarloError>,
> {
    bucket_estimates: FBucketEstimates,
    raw_means: FRawMeans,
    project_parts: FProjectParts,
    wants_covariance: FWantsCovariance,
    covariance: FCovariance,
    density_row_count: FDensityRowCount,
    vega_report: FVegaReport,
    model: Ghost<SuppliedVegaBucketsModel<R, Estimates, Projection, Covariance, Report>>,
}

impl<
    R: Scalar,
    Estimates,
    Projection,
    Covariance,
    Report,
    FBucketEstimates: Fn(&Vec<R>, &Vec<R>, usize) -> Result<Estimates, MonteCarloError>,
    FRawMeans: Fn(&Estimates) -> Vec<R>,
    FProjectParts: Fn(&Vec<R>, R, R) -> Result<Projection, MonteCarloError>,
    FWantsCovariance: Fn() -> bool,
    FCovariance: Fn(&Vec<R>, usize) -> Result<Covariance, MonteCarloError>,
    FDensityRowCount: Fn() -> usize,
    FVegaReport: Fn(
        usize,
        Projection,
        Estimates,
        Option<Covariance>,
    ) -> Result<Report, MonteCarloError>,
> SuppliedVegaBuckets<
    R,
    Estimates,
    Projection,
    Covariance,
    Report,
    FBucketEstimates,
    FRawMeans,
    FProjectParts,
    FWantsCovariance,
    FCovariance,
    FDensityRowCount,
    FVegaReport,
> {
    #[verifier::type_invariant]
    closed spec fn inv(self) -> bool {
        Self::callable(
            self.bucket_estimates,
            self.raw_means,
            self.project_parts,
            self.wants_covariance,
            self.covariance,
            self.density_row_count,
            self.vega_report,
        )
            && Self::computes(
                self.bucket_estimates,
                self.raw_means,
                self.project_parts,
                self.wants_covariance,
                self.covariance,
                self.density_row_count,
                self.vega_report,
                self.model@,
            )
    }

    /// The functions accept every argument.
    pub open spec fn callable(
        bucket_estimates: FBucketEstimates,
        raw_means: FRawMeans,
        project_parts: FProjectParts,
        wants_covariance: FWantsCovariance,
        covariance: FCovariance,
        density_row_count: FDensityRowCount,
        vega_report: FVegaReport,
    ) -> bool {
        &&& forall|prices: &Vec<R>, samples: &Vec<R>, count: usize| #[trigger] call_requires(
            bucket_estimates,
            (prices, samples, count),
        )
        &&& forall|estimates: &Estimates| #[trigger] call_requires(raw_means, (estimates,))
        &&& forall|means: &Vec<R>, remainder: R, total: R| #[trigger] call_requires(
            project_parts,
            (means, remainder, total),
        )
        &&& call_requires(wants_covariance, ())
        &&& forall|samples: &Vec<R>, count: usize|
            #[trigger] call_requires(covariance, (samples, count))
        &&& call_requires(density_row_count, ())
        &&& forall|
            row: usize,
            projection: Projection,
            estimates: Estimates,
            covariance: Option<Covariance>,
        |
            #[trigger] call_requires(
                vega_report,
                (row, projection, estimates, covariance),
            )
    }

    /// The functions compute those of the model.
    pub open spec fn computes(
        bucket_estimates: FBucketEstimates,
        raw_means: FRawMeans,
        project_parts: FProjectParts,
        wants_covariance: FWantsCovariance,
        covariance: FCovariance,
        density_row_count: FDensityRowCount,
        vega_report: FVegaReport,
        model: SuppliedVegaBucketsModel<R, Estimates, Projection, Covariance, Report>,
    ) -> bool {
        &&& forall|
            prices: &Vec<R>,
            samples: &Vec<R>,
            count: usize,
            result: Result<Estimates, MonteCarloError>,
        |
            #[trigger]
            call_ensures(
                bucket_estimates,
                (prices, samples, count),
                result,
            ) ==> result == (model.bucket_estimates)(prices@, samples@, count)
        &&& forall|estimates: &Estimates, result: Vec<R>| #[trigger]
            call_ensures(
                raw_means,
                (estimates,),
                result,
            ) ==> result@ == (model.raw_means)(*estimates)
        &&& forall|
            means: &Vec<R>,
            remainder: R,
            total: R,
            result: Result<Projection, MonteCarloError>,
        |
            #[trigger]
            call_ensures(
                project_parts,
                (means, remainder, total),
                result,
            ) ==> result == (model.project_parts)(means@, remainder, total)
        &&& forall|result: bool| #[trigger]
            call_ensures(wants_covariance, (), result) ==> result == (model.wants_covariance)()
        &&& forall|samples: &Vec<R>, count: usize, result: Result<Covariance, MonteCarloError>|
            #[trigger]
            call_ensures(
                covariance,
                (samples, count),
                result,
            ) ==> result == (model.covariance)(samples@, count)
        &&& forall|result: usize| #[trigger]
            call_ensures(density_row_count, (), result) ==> result == (model.density_row_count)()
        &&& forall|
            row: usize,
            projection: Projection,
            estimates: Estimates,
            covariance: Option<Covariance>,
            result: Result<Report, MonteCarloError>,
        |
            #[trigger]
            call_ensures(
                vega_report,
                (row, projection, estimates, covariance),
                result,
            ) ==> result == (model.vega_report)(row, projection, estimates, covariance)
    }

    /// The functions that were supplied.
    pub closed spec fn supplied(self) -> SuppliedVegaBucketsModel<
        R,
        Estimates,
        Projection,
        Covariance,
        Report,
    > {
        self.model@
    }

    /// Takes functions that give the same result whenever they are given the
    /// same arguments.
    pub fn new(
        bucket_estimates: FBucketEstimates,
        raw_means: FRawMeans,
        project_parts: FProjectParts,
        wants_covariance: FWantsCovariance,
        covariance: FCovariance,
        density_row_count: FDensityRowCount,
        vega_report: FVegaReport,
    ) -> (s: Self)
        requires
            Self::callable(
                bucket_estimates,
                raw_means,
                project_parts,
                wants_covariance,
                covariance,
                density_row_count,
                vega_report,
            ),
            exists|model: SuppliedVegaBucketsModel<R, Estimates, Projection, Covariance, Report>|
                #[trigger] Self::computes(
                    bucket_estimates,
                    raw_means,
                    project_parts,
                    wants_covariance,
                    covariance,
                    density_row_count,
                    vega_report,
                    model,
                ),
        ensures
            Self::computes(
                bucket_estimates,
                raw_means,
                project_parts,
                wants_covariance,
                covariance,
                density_row_count,
                vega_report,
                s.supplied(),
            ),
    {
        let ghost model = choose|model: SuppliedVegaBucketsModel<R, Estimates, Projection, Covariance, Report>| #[trigger]
            Self::computes(
            bucket_estimates,
            raw_means,
            project_parts,
            wants_covariance,
            covariance,
            density_row_count,
            vega_report,
            model,
        );
        SuppliedVegaBuckets {
            bucket_estimates,
            raw_means,
            project_parts,
            wants_covariance,
            covariance,
            density_row_count,
            vega_report,
            model: Ghost(model),
        }
    }

    /// Takes functions that are known to compute `model`.
    pub fn with_model(
        bucket_estimates: FBucketEstimates,
        raw_means: FRawMeans,
        project_parts: FProjectParts,
        wants_covariance: FWantsCovariance,
        covariance: FCovariance,
        density_row_count: FDensityRowCount,
        vega_report: FVegaReport,
        model: Ghost<SuppliedVegaBucketsModel<R, Estimates, Projection, Covariance, Report>>,
    ) -> (s: Self)
        requires
            Self::callable(
                bucket_estimates,
                raw_means,
                project_parts,
                wants_covariance,
                covariance,
                density_row_count,
                vega_report,
            ),
            Self::computes(
                bucket_estimates,
                raw_means,
                project_parts,
                wants_covariance,
                covariance,
                density_row_count,
                vega_report,
                model@,
            ),
        ensures
            s.supplied() == model@,
    {
        SuppliedVegaBuckets {
            bucket_estimates,
            raw_means,
            project_parts,
            wants_covariance,
            covariance,
            density_row_count,
            vega_report,
            model,
        }
    }
}

impl<
    R: Scalar,
    Estimates,
    Projection,
    Covariance,
    Report,
    FBucketEstimates: Fn(&Vec<R>, &Vec<R>, usize) -> Result<Estimates, MonteCarloError>,
    FRawMeans: Fn(&Estimates) -> Vec<R>,
    FProjectParts: Fn(&Vec<R>, R, R) -> Result<Projection, MonteCarloError>,
    FWantsCovariance: Fn() -> bool,
    FCovariance: Fn(&Vec<R>, usize) -> Result<Covariance, MonteCarloError>,
    FDensityRowCount: Fn() -> usize,
    FVegaReport: Fn(
        usize,
        Projection,
        Estimates,
        Option<Covariance>,
    ) -> Result<Report, MonteCarloError>,
> VegaBuckets<R> for SuppliedVegaBuckets<
    R,
    Estimates,
    Projection,
    Covariance,
    Report,
    FBucketEstimates,
    FRawMeans,
    FProjectParts,
    FWantsCovariance,
    FCovariance,
    FDensityRowCount,
    FVegaReport,
> {
    type Estimates = Estimates;

    type Projection = Projection;

    type Covariance = Covariance;

    type Report = Report;

    open spec fn bucket_estimates_of(
        &self,
        prices: Seq<R>,
        samples: Seq<R>,
        count: usize,
    ) -> Result<Estimates, MonteCarloError> {
        (self.supplied().bucket_estimates)(prices, samples, count)
    }

    open spec fn raw_means_of(&self, estimates: Self::Estimates) -> Seq<R> {
        (self.supplied().raw_means)(estimates)
    }

    open spec fn projection_of(
        &self,
        means: Seq<R>,
        remainder: R,
        total: R,
    ) -> Result<Projection, MonteCarloError> {
        (self.supplied().project_parts)(means, remainder, total)
    }

    open spec fn covariance_wanted(&self) -> bool {
        (self.supplied().wants_covariance)()
    }

    open spec fn covariance_of(
        &self,
        samples: Seq<R>,
        count: usize,
    ) -> Result<Covariance, MonteCarloError> {
        (self.supplied().covariance)(samples, count)
    }

    open spec fn density_rows_of(&self) -> usize {
        (self.supplied().density_row_count)()
    }

    open spec fn report_of(
        &self,
        row: usize,
        projection: Self::Projection,
        estimates: Self::Estimates,
        covariance: Option<Self::Covariance>,
    ) -> Result<Report, MonteCarloError> {
        (self.supplied().vega_report)(row, projection, estimates, covariance)
    }

    fn bucket_estimates(
        &self,
        prices: &Vec<R>,
        samples: &Vec<R>,
        count: usize,
    ) -> (r: Result<Self::Estimates, MonteCarloError>) {
        proof {
            use_type_invariant(self);
        }
        (self.bucket_estimates)(prices, samples, count)
    }

    fn raw_means(&self, estimates: &Self::Estimates) -> (r: Vec<R>) {
        proof {
            use_type_invariant(self);
        }
        (self.raw_means)(estimates)
    }

    fn project_parts(
        &self,
        means: &Vec<R>,
        remainder: R,
        total: R,
    ) -> (r: Result<Self::Projection, MonteCarloError>) {
        proof {
            use_type_invariant(self);
        }
        (self.project_parts)(means, remainder, total)
    }

    fn wants_covariance(&self) -> (r: bool) {
        proof {
            use_type_invariant(self);
        }
        (self.wants_covariance)()
    }

    fn covariance(&self, samples: &Vec<R>, count: usize) -> (
        r: Result<Self::Covariance, MonteCarloError>
    ) {
        proof {
            use_type_invariant(self);
        }
        (self.covariance)(samples, count)
    }

    fn density_row_count(&self) -> (r: usize) {
        proof {
            use_type_invariant(self);
        }
        (self.density_row_count)()
    }

    fn vega_report(
        &self,
        row: usize,
        projection: Self::Projection,
        estimates: Self::Estimates,
        covariance: Option<Self::Covariance>,
    ) -> (r: Result<Self::Report, MonteCarloError>) {
        proof {
            use_type_invariant(self);
        }
        (self.vega_report)(row, projection, estimates, covariance)
    }
}

/// The bucketed vega out of estimates of its buckets: what the vega has beyond
/// their sum is its remainder, and the last reporting row carries the report.
pub open spec fn vega_kt_from<R: Scalar, K: VegaBuckets<R>>(
    m: Model<R>,
    k: K,
    estimates: K::Estimates,
    mean_vega: R,
    samples: Seq<R>,
    count: usize,
) -> Result<K::Report, MonteCarloError> {
    let means = k.raw_means_of(estimates);
    match k.projection_of(means, minus(mean_vega, compensated_sum(m, means)), mean_vega) {
        Err(e) => Err(e),
        Ok(projection) => {
            let covariance: Result<Option<K::Covariance>, MonteCarloError> =
                if k.covariance_wanted() {
                match k.covariance_of(samples, count) {
                    Err(e) => Err(e),
                    Ok(c) => Ok(Some(c)),
                }
            } else {
                Ok(None)
            };
            match covariance {
                Err(e) => Err(e),
                Ok(covariance) => if k.density_rows_of() == 0 {
                    Err(MonteCarloError::MismatchedLocalVolatilityReportingBasis)
                } else {
                    k.report_of(
                        (k.density_rows_of() - 1) as usize,
                        projection,
                        estimates,
                        covariance,
                    )
                },
            }
        },
    }
}

/// The bucketed vega: the buckets are estimated first.
pub open spec fn vega_kt_of<R: Scalar, K: VegaBuckets<R>>(
    m: Model<R>,
    k: K,
    mean_vega: R,
    prices: Seq<R>,
    samples: Seq<R>,
    count: usize,
) -> Result<K::Report, MonteCarloError> {
    match k.bucket_estimates_of(prices, samples, count) {
        Err(e) => Err(e),
        Ok(estimates) => vega_kt_from(m, k, estimates, mean_vega, samples, count),
    }
}

/// Makes the bucketed vega out of estimates of its buckets.
pub fn report_vega_kt<R: Scalar, M: Math<R>, K: VegaBuckets<R>>(
    m: &M,
    k: &K,
    estimates: K::Estimates,
    mean_vega: R,
    samples: &Vec<R>,
    count: usize,
) -> (r: Result<K::Report, MonteCarloError>)
    ensures
        r == vega_kt_from(m.model(), *k, estimates, mean_vega, samples@, count),
{
    m.laws();
    let means = k.raw_means(&estimates);
    let remainder = mean_vega - sum_compensated(m, means.as_slice());
    let projection = match k.project_parts(&means, remainder, mean_vega) {
        Err(e) => return Err(e),
        Ok(projection) => projection,
    };
    let covariance = if k.wants_covariance() {
        match k.covariance(samples, count) {
            Err(e) => return Err(e),
            Ok(c) => Some(c),
        }
    } else {
        None
    };
    let rows = k.density_row_count();
    if rows == 0 {
        return Err(MonteCarloError::MismatchedLocalVolatilityReportingBasis);
    }
    k.vega_report(rows - 1, projection, estimates, covariance)
}

/// Makes the bucketed vega.
pub fn build_vega_kt_result<R: Scalar, M: Math<R>, K: VegaBuckets<R>>(
    m: &M,
    k: &K,
    vega: Statistics<R>,
    units: u64,
    prices: &Vec<R>,
    samples: &Vec<R>,
    count: usize,
) -> (r: Result<K::Report, MonteCarloError>)
    ensures
        r == vega_kt_of(
            m.model(),
            *k,
            mean_of(m.model(), vega, units),
            prices@,
            samples@,
            count,
        ),
{
    m.laws();
    let estimates = match k.bucket_estimates(prices, samples, count) {
        Err(e) => return Err(e),
        Ok(estimates) => estimates,
    };
    report_vega_kt(m, k, estimates, vega.total / m.of(units), samples, count)
}

/// The entries behind the first `skipped` of each of the first `k` rows, row
/// after row.
pub open spec fn tails<R>(table: Seq<Seq<R>>, skipped: int, k: nat) -> Seq<R>
    decreases k,
{
    if k == 0 {
        Seq::empty()
    } else {
        tails(table, skipped, (k - 1) as nat) + table[k - 1].skip(skipped)
    }
}

/// Joins the entries behind the first `skipped` of each row.
pub fn join_tails<R: Scalar>(table: &Vec<Vec<R>>, skipped: usize) -> (samples: Vec<R>)
    requires
        forall|i: int| 0 <= i < table@.len() ==> skipped <= (#[trigger] table@[i])@.len(),
    ensures
        samples@ == tails(rows_of(table@), skipped as int, table@.len()),
{
    let mut samples: Vec<R> = Vec::new();
    let mut i: usize = 0;
    while i < table.len()
        invariant
            i <= table@.len(),
            forall|i: int| 0 <= i < table@.len() ==> skipped <= (#[trigger] table@[i])@.len(),
            samples@ == tails(rows_of(table@), skipped as int, i as nat),
        decreases table@.len() - i,
    {
        let row = &table[i];
        let ghost before = samples@;
        let mut j: usize = skipped;
        while j < row.len()
            invariant
                skipped <= j <= row@.len(),
                samples@ == before + row@.subrange(skipped as int, j as int),
            decreases row@.len() - j,
        {
            samples.push(row[j]);
            j = j + 1;
            assert(samples@ =~= before + row@.subrange(skipped as int, j as int));
        }
        assert(row@.subrange(skipped as int, j as int) =~= row@.skip(skipped as int));
        i = i + 1;
    }
    samples
}

} // verus!
