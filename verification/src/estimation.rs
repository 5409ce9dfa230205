//! From draws to estimates: the reduction of the sampled rows, the replicate
//! means of a scrambled simulation, and the standard errors.

use crate::engine::{EngineConfig, VarianceReduction};
use crate::errors::{invalid, invalid_field, MonteCarloError};
use crate::linear::{build, collect};
use crate::results::{gather, gather_stops, seen};
use crate::sampling::{
    draw_normals, draw_quasi_normals, path_normals, quasi_normals, sample, sampled, Backend,
    Contribution, Quantities, Statistics,
};
use crate::scalar::{all_finite, lawful, over, Math, Model, Scalar};
use crate::units::{statistics_of, summarise, table_of, tabulate, Rows, UnitSampler};
use vstd::prelude::*;

verus! {

/// A simulation to run: its engine, the dimension of a draw, the number of
/// interleaved factors, and what failed while its parts were made.
#[derive(Clone, Copy, Debug)]
pub struct Job {
    pub engine: EngineConfig,
    pub dimension: u32,
    pub factors: usize,
    /// The failure of the executor, if it could not be made.
    pub executor_failure: Option<MonteCarloError>,
    /// The failure of the quasi-random plan, if it could not be made.
    pub quasi_failure: Option<MonteCarloError>,
    /// The failure of the Brownian bridge, if it could not be made.
    pub bridge_failure: Option<MonteCarloError>,
}

impl Job {
    /// There is a factor, and a draw can be indexed.
    pub open spec fn valid(self) -> bool {
        0 < self.factors && self.dimension + self.factors <= usize::MAX
    }

    /// The failure of the bridge, where it is requested.
    pub open spec fn bridge_error(self) -> Option<MonteCarloError> {
        if self.engine.reduction().brownian_bridge {
            self.bridge_failure
        } else {
            None
        }
    }
}

/// The quantities of the pseudo-random path `p`.
pub open spec fn pseudo_row<R: Scalar, B: Backend<R>>(
    b: B,
    q: Quantities<R>,
    job: Job,
) -> spec_fn(int) -> Result<Seq<R>, MonteCarloError> {
    |p: int|
        sampled(
            b,
            q,
            job.engine.reduction(),
            job.factors as int,
            path_normals(b, p as u64, job.dimension),
        )
}

/// The quantities of the point `p` of a scramble.
pub open spec fn quasi_row<R: Scalar, B: Backend<R>>(
    b: B,
    q: Quantities<R>,
    job: Job,
    scramble: u32,
) -> spec_fn(int) -> Result<Seq<R>, MonteCarloError> {
    |p: int|
        match quasi_normals(b, scramble, p as u64, job.dimension) {
            Err(e) => Err(e),
            Ok(z) => sampled(b, q, job.engine.reduction(), job.factors as int, z),
        }
}

/// The rows of a simulation of quantities.
pub open spec fn job_rows<R: Scalar, B: Backend<R>>(b: B, q: Quantities<R>, job: Job) -> Rows<R> {
    Rows {
        width: q.width,
        unit: pseudo_row(b, q, job),
        point: |scramble: u32, p: int| quasi_row(b, q, job, scramble)(p),
    }
}

/// The statistics of each quantity after the whole simulation, or the first
/// failure: of the quasi-random plan, of the bridge, of a draw.
pub open spec fn simulated<R: Scalar, B: Backend<R>>(
    m: Model<R>,
    b: B,
    q: Quantities<R>,
    job: Job,
) -> Result<Seq<Statistics<R>>, MonteCarloError> {
    let quasi_error = match job.engine {
        EngineConfig::PseudoMonteCarlo(_) => None,
        EngineConfig::RandomizedQuasiMonteCarlo(_) => job.quasi_failure,
    };
    match quasi_error {
        Some(e) => Err(e),
        None => match job.bridge_error() {
            Some(e) => Err(e),
            None => match table_of(m, b, job_rows(b, q, job), job.engine, false) {
                Err(e) => Err(e),
                Ok(table) => Ok(statistics_of(b, job.engine, false, table, q.width)),
            },
        },
    }
}

/// The draws of a simulation.
pub struct JobSampler<'a, R: Scalar, M: Math<R>, B: Backend<R>, C: Contribution<R>> {
    m: &'a M,
    b: &'a B,
    c: &'a C,
    job: &'a Job,
    reduction: VarianceReduction,
    number: Ghost<R>,
}

impl<'a, R: Scalar, M: Math<R>, B: Backend<R>, C: Contribution<R>> JobSampler<'a, R, M, B, C> {
    #[verifier::type_invariant]
    spec fn inv(self) -> bool {
        self.job.valid() && self.reduction == self.job.engine.reduction()
    }

    /// Makes the draws of a simulation.
    pub fn new(m: &'a M, b: &'a B, c: &'a C, job: &'a Job) -> (s: Self)
        requires
            job.valid(),
        ensures
            s.rows() == job_rows(*b, c.quantities(), *job),
    {
        let reduction = match job.engine {
            EngineConfig::PseudoMonteCarlo(config) => config.variance_reduction,
            EngineConfig::RandomizedQuasiMonteCarlo(config) => config.variance_reduction,
        };
        JobSampler { m, b, c, job, reduction, number: Ghost(arbitrary()) }
    }
}

impl<'a, R: Scalar, M: Math<R>, B: Backend<R>, C: Contribution<R>> UnitSampler<R> for JobSampler<
    'a,
    R,
    M,
    B,
    C,
> {
    closed spec fn rows(&self) -> Rows<R> {
        job_rows(*self.b, self.c.quantities(), *self.job)
    }

    open spec fn unit_exists(&self, unit: u64) -> bool {
        true
    }

    open spec fn point_exists(&self, scramble: u32, point: u64) -> bool {
        true
    }

    fn sample_unit(&self, unit: u64) -> (r: Result<Vec<R>, MonteCarloError>) {
        proof {
            use_type_invariant(self);
        }
        let z = draw_normals(self.b, unit, self.job.dimension);
        sample(self.m, self.b, self.c, self.reduction, self.job.factors, z)
    }

    fn sample_point(&self, scramble: u32, point: u64) -> (r: Result<Vec<R>, MonteCarloError>) {
        proof {
            use_type_invariant(self);
        }
        match draw_quasi_normals(self.b, scramble, point, self.job.dimension) {
            Err(e) => Err(e),
            Ok(z) => sample(self.m, self.b, self.c, self.reduction, self.job.factors, z),
        }
    }
}

/// Runs a simulation of `width` quantities.
pub fn simulate<R: Scalar, M: Math<R>, B: Backend<R>, C: Contribution<R>>(
    m: &M,
    b: &B,
    c: &C,
    job: &Job,
    width: usize,
) -> (r: Result<Vec<Statistics<R>>, MonteCarloError>)
    requires
        job.valid(),
        width == c.quantities().width,
    ensures
        seen(r) == simulated(m.model(), *b, c.quantities(), *job),
        r matches Ok(v) ==> v@.len() == width,
{
    let reduction = match job.engine {
        EngineConfig::PseudoMonteCarlo(config) => config.variance_reduction,
        EngineConfig::RandomizedQuasiMonteCarlo(config) => {
            if let Some(e) = job.quasi_failure {
                return Err(e);
            }
            config.variance_reduction
        },
    };
    if reduction.brownian_bridge {
        if let Some(e) = job.bridge_failure {
            return Err(e);
        }
    }
    let sampler = JobSampler::new(m, b, c, job);
    match tabulate(m, b, &sampler, &job.engine, false, width) {
        Err(e) => Err(e),
        Ok(table) => Ok(summarise(b, &job.engine, false, &table, width, width)),
    }
}

/// The mean of a quantity over the sampling units.
pub open spec fn mean_of<R: Scalar>(m: Model<R>, s: Statistics<R>, units: u64) -> R {
    over(s.total, m.of(units))
}

/// The standard error of a mean. It needs a sample variance, and has to be
/// finite.
pub open spec fn error_of<R: Scalar>(
    m: Model<R>,
    s: Statistics<R>,
    units: u64,
    field: &'static str,
) -> Result<R, MonteCarloError> {
    match s.sample_variance {
        None => Err(MonteCarloError::InsufficientSamplingUnits { count: units }),
        Some(variance) => {
            let error = m.sqrt(over(variance, m.of(units)));
            if m.is_finite(error) {
                Ok(error)
            } else {
                Err(invalid_field(field))
            }
        },
    }
}

/// The standard error of a mean.
pub fn estimator_error<R: Scalar, M: Math<R>>(
    m: &M,
    s: Statistics<R>,
    units: u64,
    field: &'static str,
) -> (r: Result<R, MonteCarloError>)
    ensures
        r == error_of(m.model(), s, units, field),
{
    m.laws();
    match s.sample_variance {
        None => Err(MonteCarloError::InsufficientSamplingUnits { count: units }),
        Some(variance) => {
            let error = m.sqrt(variance / m.of(units));
            if !m.is_finite(error) {
                return Err(invalid(field));
            }
            Ok(error)
        },
    }
}

/// Means and standard errors, quantity by quantity.
pub struct Estimates<R> {
    pub values: Vec<R>,
    pub errors: Vec<R>,
}

/// The standard error of each quantity.
pub open spec fn errors_of<R: Scalar>(
    m: Model<R>,
    s: Seq<Statistics<R>>,
    units: u64,
    field: &'static str,
) -> spec_fn(int) -> Result<R, MonteCarloError> {
    |j: int| error_of(m, s[j], units, field)
}

/// The means and the standard errors of all quantities. The first standard
/// error that cannot be had fails, then any number that is not finite.
pub open spec fn estimated<R: Scalar>(
    m: Model<R>,
    s: Seq<Statistics<R>>,
    units: u64,
    error_field: &'static str,
    field: &'static str,
) -> Result<(Seq<R>, Seq<R>), MonteCarloError> {
    let values = Seq::new(s.len(), |j: int| mean_of(m, s[j], units));
    match gather(s.len(), errors_of(m, s, units, error_field)) {
        Err(e) => Err(e),
        Ok(errors) => if m.all_finite(values) && m.all_finite(errors) {
            Ok((values, errors))
        } else {
            Err(invalid_field(field))
        },
    }
}

/// Takes the means and the standard errors of all quantities.
pub fn estimate<R: Scalar, M: Math<R>>(
    m: &M,
    statistics: &Vec<Statistics<R>>,
    units: u64,
    error_field: &'static str,
    field: &'static str,
) -> (r: Result<Estimates<R>, MonteCarloError>)
    ensures
        (match r {
            Ok(e) => Ok((e.values@, e.errors@)),
            Err(e) => Err(e),
        }) == estimated(m.model(), statistics@, units, error_field, field),
        r matches Ok(e) ==> e.values@.len() == statistics@.len() && e.errors@.len()
            == statistics@.len(),
{
    m.laws();
    let count = m.of(units);
    let mut values: Vec<R> = Vec::new();
    let mut j: usize = 0;
    while j < statistics.len()
        invariant
            j <= statistics@.len(),
            lawful::<R>(),
            count == m.model().of(units),
            values@.len() == j,
            forall|k: int|
                0 <= k < j ==> #[trigger] values@[k] == mean_of(m.model(), statistics@[k], units),
        decreases statistics@.len() - j,
    {
        values.push(statistics[j].total / count);
        j = j + 1;
    }
    assert(values@ =~= Seq::new(
        statistics@.len(),
        |j: int| mean_of(m.model(), statistics@[j], units),
    ));
    let ghost f = errors_of(m.model(), statistics@, units, error_field);
    let mut errors: Vec<R> = Vec::new();
    let mut j: usize = 0;
    while j < statistics.len()
        invariant
            j <= statistics@.len(),
            errors@.len() == j,
            f == errors_of(m.model(), statistics@, units, error_field),
            gather(j as nat, f) == Ok::<Seq<R>, MonteCarloError>(errors@),
        decreases statistics@.len() - j,
    {
        let error = estimator_error(m, statistics[j], units, error_field);
        assert(error == f(j as int));
        match error {
            Err(e) => {
                proof {
                    assert(gather((j + 1) as nat, f) == Err::<Seq<R>, MonteCarloError>(e));
                    gather_stops((j + 1) as nat, statistics@.len(), f);
                }
                return Err(e);
            },
            Ok(x) => {
                errors.push(x);
            },
        }
        j = j + 1;
    }
    if !all_finite(m, values.as_slice()) || !all_finite(m, errors.as_slice()) {
        return Err(invalid(field));
    }
    Ok(Estimates { values, errors })
}

/// The standard error of each quantity, finite or not.
pub open spec fn raw_errors<R: Scalar>(m: Model<R>, s: Seq<Statistics<R>>, units: u64) -> spec_fn(
    int,
) -> Result<R, MonteCarloError> {
    |j: int|
        match s[j].sample_variance {
            None => Err(MonteCarloError::InsufficientSamplingUnits { count: units }),
            Some(variance) => Ok(m.sqrt(over(variance, m.of(units)))),
        }
}

/// The means and the standard errors of all quantities. Every variance is
/// required, then every number has to be finite.
pub open spec fn estimated_together<R: Scalar>(
    m: Model<R>,
    s: Seq<Statistics<R>>,
    units: u64,
    field: &'static str,
) -> Result<(Seq<R>, Seq<R>), MonteCarloError> {
    let values = Seq::new(s.len(), |j: int| mean_of(m, s[j], units));
    match gather(s.len(), raw_errors(m, s, units)) {
        Err(e) => Err(e),
        Ok(errors) => if m.all_finite(values) && m.all_finite(errors) {
            Ok((values, errors))
        } else {
            Err(invalid_field(field))
        },
    }
}

/// Takes the means and the standard errors of all quantities.
pub fn estimate_together<R: Scalar, M: Math<R>>(
    m: &M,
    statistics: &Vec<Statistics<R>>,
    units: u64,
    field: &'static str,
) -> (r: Result<Estimates<R>, MonteCarloError>)
    ensures
        (match r {
            Ok(e) => Ok((e.values@, e.errors@)),
            Err(e) => Err(e),
        }) == estimated_together(m.model(), statistics@, units, field),
        r matches Ok(e) ==> e.values@.len() == statistics@.len() && e.errors@.len()
            == statistics@.len(),
{
    let n = statistics.len();
    let ghost mean = |j: int| mean_of(m.model(), statistics@[j], units);
    let values_at = |j: usize| -> (x: R)
        requires
            j < n,
        ensures
            x == mean(j as int),
        {
            m.laws();
            statistics[j].total / m.of(units)
        };
    let values = build(n, values_at, Ghost(mean));
    assert(values@ =~= Seq::new(
        statistics@.len(),
        |j: int| mean_of(m.model(), statistics@[j], units),
    ));
    let ghost raw = raw_errors(m.model(), statistics@, units);
    let errors_at = |j: usize| -> (x: Result<R, MonteCarloError>)
        requires
            j < n,
        ensures
            x == raw(j as int),
        {
            m.laws();
            match statistics[j].sample_variance {
                None => Err(MonteCarloError::InsufficientSamplingUnits { count: units }),
                Some(variance) => Ok(m.sqrt(variance / m.of(units))),
            }
        };
    let errors = match collect(n, errors_at, Ghost(raw)) {
        Err(e) => return Err(e),
        Ok(v) => v,
    };
    if !all_finite(m, values.as_slice()) || !all_finite(m, errors.as_slice()) {
        return Err(invalid(field));
    }
    Ok(Estimates { values, errors })
}

} // verus!
