//! The price of a stochastic-dividend plan.

use crate::engine::{EngineConfig, VarianceReduction};
use crate::errors::{invalid, invalid_field, MonteCarloError};
use crate::estimation::Job;
use crate::linear::collect;
use crate::models::BuehlerDividendState;
use crate::plan::{engine_units, price_of, StochasticDividendPrice, StochasticDividendPricingPlan};
use crate::plan_world::PlanWorld;
use crate::results::{gather, seen};
use crate::reverse::{DividendPath, PathNode};
use crate::sampling::{
    apply_sign, bridge_factors, bridged, draw_normals, draw_quasi_normals, path_normals,
    quasi_normals, signed, Backend, Statistics,
};
use crate::scalar::{literal, negated, over, plus, Math, Model, Scalar};
use crate::units::{statistics_of, summarise, table_of, tabulate, Rows, UnitSampler};
use crate::world::paired_nodes;
use core::ops::Neg;
use vstd::prelude::*;

verus! {

/// The spots of a node of a path.
pub open spec fn plan_spot<R: Scalar, W: PlanWorld<R>>(
    w: W,
    nodes: Seq<PathNode<R>>,
    states: Seq<BuehlerDividendState<R>>,
) -> spec_fn(int) -> Result<W::Spot, MonteCarloError> {
    |i: int| w.spots_of(nodes[i], states[i])
}

/// The spots of the nodes that have a state.
pub open spec fn plan_spots<R: Scalar, W: PlanWorld<R>>(
    w: W,
    nodes: Seq<PathNode<R>>,
    states: Seq<BuehlerDividendState<R>>,
) -> Result<Seq<W::Spot>, MonteCarloError> {
    gather(paired_nodes(nodes.len(), states.len()), plan_spot(w, nodes, states))
}

/// Reads the spots of the nodes of an evolved path.
pub fn read_spots<R: Scalar, W: PlanWorld<R>>(
    w: &W,
    path: &DividendPath<R, W::Surface>,
    states: &Vec<BuehlerDividendState<R>>,
) -> (r: Result<Vec<W::Spot>, MonteCarloError>)
    ensures
        seen(r) == plan_spots(*w, path.nodes@, states@),
{
    let count: usize = if path.nodes.len() <= states.len() {
        path.nodes.len()
    } else {
        states.len()
    };
    let ghost spot = plan_spot(*w, path.nodes@, states@);
    let f_at = |i: usize| -> (r: Result<W::Spot, MonteCarloError>)
        requires
            i < count,
        ensures
            r == spot(i as int),
        { w.spots(path.nodes[i], states[i]) };
    collect(
        count,
        f_at,
        Ghost(spot),
    )
}

/// The discounted payoff of a path under shocks.
pub open spec fn path_value<R: Scalar, W: PlanWorld<R>>(
    w: W,
    path: DividendPath<R, W::Surface>,
) -> spec_fn(Seq<R>) -> Result<R, MonteCarloError> {
    |shocks: Seq<R>|
        match w.evolution(path, shocks) {
            Err(e) => Err(e),
            Ok(states) => match plan_spots(w, path.nodes@, states) {
                Err(e) => Err(e),
                Ok(spots) => w.payoff_of(path.times@, spots),
            },
        }
}

/// The price of a draw that has passed the bridge: its value, or the mean of its
/// value and of that of its reflection.
pub open spec fn draw_price<R: Scalar>(
    value: spec_fn(Seq<R>) -> Result<R, MonteCarloError>,
    antithetic: bool,
    z: Seq<R>,
) -> Result<R, MonteCarloError> {
    match value(signed(z, literal(1))) {
        Err(e) => Err(e),
        Ok(first) => if !antithetic {
            Ok(over(plus(literal(0), first), literal(1)))
        } else {
            match value(signed(z, negated(literal(1)))) {
                Err(e) => Err(e),
                Ok(second) => Ok(over(plus(plus(literal(0), first), second), literal(2))),
            }
        },
    }
}

/// The price of a draw.
pub open spec fn price_row<R: Scalar, B: Backend<R>>(
    b: B,
    value: spec_fn(Seq<R>) -> Result<R, MonteCarloError>,
    job: Job,
    normals: Result<Seq<R>, MonteCarloError>,
) -> Result<Seq<R>, MonteCarloError> {
    let reduction = job.engine.reduction();
    let arranged = match normals {
        Err(e) => Err(e),
        Ok(z) => if reduction.brownian_bridge {
            bridged(b, z, job.factors as int)
        } else {
            Ok(z)
        },
    };
    match arranged {
        Err(e) => Err(e),
        Ok(z) => match draw_price(value, reduction.antithetic, z) {
            Err(e) => Err(e),
            Ok(x) => Ok(seq![x]),
        },
    }
}

/// The prices of the draws of a simulation.
pub open spec fn price_rows<R: Scalar, B: Backend<R>>(
    b: B,
    value: spec_fn(Seq<R>) -> Result<R, MonteCarloError>,
    job: Job,
) -> Rows<R> {
    Rows {
        width: 1,
        unit: |p: int| price_row(b, value, job, Ok(path_normals(b, p as u64, job.dimension))),
        point: |scramble: u32, p: int|
            price_row(b, value, job, quasi_normals(b, scramble, p as u64, job.dimension)),
    }
}

/// What a path is worth under shocks.
pub trait PathValue<R: Scalar> {
    /// The value.
    spec fn value_of(&self) -> spec_fn(Seq<R>) -> Result<R, MonteCarloError>;

    /// Computes the value.
    fn value(&self, shocks: &Vec<R>) -> (r: Result<R, MonteCarloError>)
        ensures
            r == (self.value_of())(shocks@),
    ;
}

struct PlanValue<'a, R: Scalar, W: PlanWorld<R>> {
    w: &'a W,
    path: &'a DividendPath<R, W::Surface>,
}

impl<'a, R: Scalar, W: PlanWorld<R>> PathValue<R> for PlanValue<'a, R, W> {
    closed spec fn value_of(&self) -> spec_fn(Seq<R>) -> Result<R, MonteCarloError> {
        path_value(*self.w, *self.path)
    }

    fn value(&self, shocks: &Vec<R>) -> (r: Result<R, MonteCarloError>) {
        let states = match self.w.evolve_path(self.path, shocks) {
            Err(e) => return Err(e),
            Ok(states) => states,
        };
        match read_spots(self.w, self.path, &states) {
            Err(e) => Err(e),
            Ok(spots) => self.w.payoff(&self.path.times, &spots),
        }
    }
}

struct PriceSampler<'a, R: Scalar, M: Math<R>, B: Backend<R>, V: PathValue<R>> {
    m: &'a M,
    b: &'a B,
    v: &'a V,
    job: &'a Job,
    reduction: VarianceReduction,
    number: Ghost<R>,
}

impl<'a, R: Scalar, M: Math<R>, B: Backend<R>, V: PathValue<R>> PriceSampler<'a, R, M, B, V> {
    #[verifier::type_invariant]
    spec fn inv(self) -> bool {
        self.job.valid() && self.reduction == self.job.engine.reduction()
    }

    /// Prices a draw.
    fn price(&self, normals: Vec<R>) -> (r: Result<Vec<R>, MonteCarloError>)
        requires
            normals@.len() == self.job.dimension,
        ensures
            seen(r) == price_row(*self.b, self.v.value_of(), *self.job, Ok(normals@)),
            r matches Ok(v) ==> v@.len() == 1,
    {
        proof {
            use_type_invariant(self);
        }
        self.m.laws();
        let z = if self.reduction.brownian_bridge {
            match bridge_factors(self.b, normals, self.job.factors) {
                Err(e) => return Err(e),
                Ok(w) => w,
            }
        } else {
            normals
        };
        let one = R::from(1u32);
        let shocks = apply_sign(self.m, &z, one);
        let first = match self.v.value(&shocks) {
            Err(e) => return Err(e),
            Ok(x) => x,
        };
        let mut value = R::from(0u32) + first;
        if self.reduction.antithetic {
            let shocks = apply_sign(self.m, &z, one.neg());
            let second = match self.v.value(&shocks) {
                Err(e) => return Err(e),
                Ok(x) => x,
            };
            value = (value + second) / R::from(2u32);
        } else {
            value = value / R::from(1u32);
        }
        let row: Vec<R> = vec![value];
        assert(row@ =~= seq![value]);
        Ok(row)
    }
}

impl<'a, R: Scalar, M: Math<R>, B: Backend<R>, V: PathValue<R>> UnitSampler<R> for PriceSampler<
    'a,
    R,
    M,
    B,
    V,
> {
    closed spec fn rows(&self) -> Rows<R> {
        price_rows(*self.b, self.v.value_of(), *self.job)
    }

    open spec fn unit_exists(&self, unit: u64) -> bool {
        true
    }

    open spec fn point_exists(&self, scramble: u32, point: u64) -> bool {
        true
    }

    fn sample_unit(&self, unit: u64) -> (r: Result<Vec<R>, MonteCarloError>) {
        let z = draw_normals(self.b, unit, self.job.dimension);
        self.price(z)
    }

    fn sample_point(&self, scramble: u32, point: u64) -> (r: Result<Vec<R>, MonteCarloError>) {
        match draw_quasi_normals(self.b, scramble, point, self.job.dimension) {
            Err(e) => Err(e),
            Ok(z) => self.price(z),
        }
    }
}

/// The failure of the parts of a simulation, in the order in which they are
/// made: the executor, the quasi-random plan, the bridge.
pub open spec fn job_error(job: Job) -> Option<MonteCarloError> {
    if job.executor_failure is Some {
        job.executor_failure
    } else if job.engine is RandomizedQuasiMonteCarlo && job.quasi_failure is Some {
        job.quasi_failure
    } else {
        job.bridge_error()
    }
}

/// Computes [`job_error`].
pub fn check_job(job: &Job) -> (e: Option<MonteCarloError>)
    ensures
        e == job_error(*job),
{
    if job.executor_failure.is_some() {
        return job.executor_failure;
    }
    match job.engine {
        EngineConfig::PseudoMonteCarlo(c) => if c.variance_reduction.brownian_bridge {
            job.bridge_failure
        } else {
            None
        },
        EngineConfig::RandomizedQuasiMonteCarlo(c) => {
            if job.quasi_failure.is_some() {
                return job.quasi_failure;
            }
            if c.variance_reduction.brownian_bridge {
                job.bridge_failure
            } else {
                None
            }
        },
    }
}

/// The value and the standard error of a price. A variance is required, and
/// both have to be finite.
pub open spec fn price_estimate<R: Scalar>(
    m: Model<R>,
    s: Statistics<R>,
    units: u64,
    field: &'static str,
) -> Result<(R, R), MonteCarloError> {
    match s.sample_variance {
        None => Err(MonteCarloError::InsufficientSamplingUnits { count: units }),
        Some(variance) => {
            let value = over(s.total, m.of(units));
            let error = m.sqrt(over(variance, m.of(units)));
            if m.is_finite(value) && m.is_finite(error) {
                Ok((value, error))
            } else {
                Err(invalid_field(field))
            }
        },
    }
}

/// Computes [`price_estimate`].
pub fn estimate_price<R: Scalar, M: Math<R>>(
    m: &M,
    s: Statistics<R>,
    units: u64,
    field: &'static str,
) -> (r: Result<(R, R), MonteCarloError>)
    ensures
        r == price_estimate(m.model(), s, units, field),
{
    m.laws();
    let variance = match s.sample_variance {
        None => return Err(MonteCarloError::InsufficientSamplingUnits { count: units }),
        Some(variance) => variance,
    };
    let count = m.of(units);
    let value = s.total / count;
    let error = m.sqrt(variance / count);
    if !m.is_finite(value) || !m.is_finite(error) {
        return Err(invalid(field));
    }
    Ok((value, error))
}

/// The value and the standard error of the price of a simulation.
pub open spec fn priced_job<R: Scalar, B: Backend<R>>(
    m: Model<R>,
    b: B,
    value: spec_fn(Seq<R>) -> Result<R, MonteCarloError>,
    job: Job,
) -> Result<(R, R), MonteCarloError> {
    match job_error(job) {
        Some(e) => Err(e),
        None => match table_of(m, b, price_rows(b, value, job), job.engine, false) {
            Err(e) => Err(e),
            Ok(table) => price_estimate(
                m,
                statistics_of(b, job.engine, false, table, 1)[0],
                job.engine.units(),
                "price_estimator",
            ),
        },
    }
}

/// Prices a simulation.
pub fn price_job<R: Scalar, M: Math<R>, B: Backend<R>, V: PathValue<R>>(
    m: &M,
    b: &B,
    v: &V,
    job: &Job,
) -> (r: Result<(R, R), MonteCarloError>)
    requires
        job.valid(),
    ensures
        r == priced_job(m.model(), *b, v.value_of(), *job),
{
    if let Some(e) = check_job(job) {
        return Err(e);
    }
    let reduction = match job.engine {
        EngineConfig::PseudoMonteCarlo(c) => c.variance_reduction,
        EngineConfig::RandomizedQuasiMonteCarlo(c) => c.variance_reduction,
    };
    let sampler = PriceSampler { m, b, v, job, reduction, number: Ghost(arbitrary()) };
    let table = match tabulate(m, b, &sampler, &job.engine, false, 1) {
        Err(e) => return Err(e),
        Ok(table) => table,
    };
    let s = summarise(b, &job.engine, false, &table, 1, 1);
    estimate_price(m, s[0], engine_units(&job.engine), "price_estimator")
}

/// The price of a plan.
pub open spec fn evaluated<R: Scalar, B: Backend<R>, W: PlanWorld<R>>(
    m: Model<R>,
    b: B,
    w: W,
    plan: StochasticDividendPricingPlan<R, DividendPath<R, W::Surface>>,
) -> Result<StochasticDividendPrice<R>, MonteCarloError> {
    match priced_job(m, b, path_value(w, plan.path), plan.job) {
        Err(e) => Err(e),
        Ok((value, error)) => Ok(price_of(plan, value, error)),
    }
}

impl<R: Scalar, L> StochasticDividendPricingPlan<R, DividendPath<R, L>> {
    /// Prices the plan.
    pub fn evaluate<M: Math<R>, B: Backend<R>, W: PlanWorld<R, Surface = L>>(
        &self,
        m: &M,
        b: &B,
        w: &W,
    ) -> (r: Result<StochasticDividendPrice<R>, MonteCarloError>)
        requires
            self.job.valid(),
        ensures
            r == evaluated(m.model(), *b, *w, *self),
    {
        let v = PlanValue { w, path: &self.path };
        match price_job(m, b, &v, &self.job) {
            Err(e) => Err(e),
            Ok((value, error)) => Ok(self.price(value, error)),
        }
    }
}

} // verus!
