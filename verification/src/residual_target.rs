//! The local-variance risk of a residual-equity leverage plan: the derivatives of a
//! path with respect to its leverage surface, reversed through the calibration.

use crate::dividend_price::{check_job, job_error, plan_spots, read_spots};
use crate::errors::{invalid, invalid_field, unsupported_risk, LsvError, MonteCarloError};
use crate::estimation::{job_rows, mean_of, JobSampler};
use crate::hybrid_aad::{append, taken};
use crate::linear::{collect, rows_seen, viewed};
use crate::neumaier::{compensated_sum, sum_compensated};
use crate::pathwise::{add_prefix, added_prefix, make_zeros};
use crate::plan::{
    engine_units, price_of, StochasticDividendPrice, StochasticDividendPricingPlan,
};
use crate::plan_world::PlanWorld;
use crate::residual_world::ResidualWorld;
use crate::results::{gather, opt_seen, seen};
use crate::reverse::DividendPath;
use crate::sampling::{as_they_are, zeros, Backend, Contribution, Quantities};
use crate::scalar::{all_finite, lawful, literal, same, times, Math, Model, Scalar};
use crate::target_grid::{gather_adjoints, spread, TargetGrid};
use crate::target_risk::{
    error_or, run_target, take_error_or, target_outcome, MeanReverse, TargetOutcome,
    TargetOutcomeView,
};
use crate::vega_kt::{report_vega_kt, vega_kt_from, VegaBuckets};
use vstd::prelude::*;

verus! {

/// The derivatives with respect to the local variances of the calibration target, the
/// calibration included.
pub struct StochasticDividendLocalVarianceRisk<R> {
    pub price: StochasticDividendPrice<R>,
    pub time_nodes: Vec<R>,
    pub log_moneyness_nodes: Vec<R>,
    pub node_adjoints: Vec<R>,
    /// The errors of the scrambles, where there are some. The calibration has no part
    /// in them: its draws are fixed.
    pub standard_errors: Option<Vec<R>>,
    pub method: &'static str,
}

/// A [`StochasticDividendLocalVarianceRisk`] as a mathematical value.
pub ghost struct LocalVarianceRiskView<R> {
    pub price: StochasticDividendPrice<R>,
    pub time_nodes: Seq<R>,
    pub log_moneyness_nodes: Seq<R>,
    pub node_adjoints: Seq<R>,
    pub standard_errors: Option<Seq<R>>,
    pub method: &'static str,
}

impl<R> View for StochasticDividendLocalVarianceRisk<R> {
    type V = LocalVarianceRiskView<R>;

    open spec fn view(&self) -> LocalVarianceRiskView<R> {
        LocalVarianceRiskView {
            price: self.price,
            time_nodes: self.time_nodes@,
            log_moneyness_nodes: self.log_moneyness_nodes@,
            node_adjoints: self.node_adjoints@,
            standard_errors: opt_seen(self.standard_errors),
            method: self.method,
        }
    }
}

/// The calibration is that of the target, and both can be counted.
pub open spec fn residual_fits<R: Scalar, V: ResidualWorld<R>, G: TargetGrid<R>>(
    v: V,
    g: G,
) -> bool {
    &&& v.leverage_count_of() < usize::MAX
    &&& g.values_of().len() < usize::MAX
    &&& g.values_of().len() == g.time_nodes_of().len() * g.log_moneyness_nodes_of().len()
    &&& forall|a: Seq<R>|
        #[trigger] v.reversed_leverage(a) matches Ok(refined) ==> refined.len()
            == v.refined_times_of().len() * g.log_moneyness_nodes_of().len()
}

/// What one set of shocks contributes: the payoff, and its derivatives with respect to
/// the entries of the leverage surface.
pub open spec fn leverage_terms<R: Scalar, W: PlanWorld<R>, V: ResidualWorld<R>>(
    w: W,
    v: V,
    path: DividendPath<R, W::Surface>,
) -> spec_fn(Seq<R>) -> Result<Seq<R>, MonteCarloError> {
    |shocks: Seq<R>|
        match w.evolution(path, shocks) {
            Err(e) => Err(e),
            Ok(states) => match plan_spots(w, path.nodes@, states) {
                Err(e) => Err(e),
                Ok(spots) => match w.payoff_adjoints_of(path.times@, spots) {
                    Err(e) => Err(e),
                    Ok((payoff, seeds)) => match v.leverage_pullback_of(shocks, states, seeds) {
                        Err(e) => Err(e),
                        Ok(leverage) => if leverage.len() != v.leverage_count_of() {
                            Err(invalid_field("lsv_local_variance_risk_width"))
                        } else {
                            Ok(seq![payoff] + leverage)
                        },
                    },
                },
            },
        }
}

struct LeverageContribution<'a, R: Scalar, W: PlanWorld<R>, V: ResidualWorld<R>> {
    w: &'a W,
    v: &'a V,
    path: &'a DividendPath<R, W::Surface>,
    number: Ghost<R>,
}

impl<'a, R: Scalar, W: PlanWorld<R>, V: ResidualWorld<R>> Contribution<
    R,
> for LeverageContribution<'a, R, W, V> {
    closed spec fn term_count(&self) -> nat {
        1 + self.v.leverage_count_of() as nat
    }

    closed spec fn quantities(&self) -> Quantities<R> {
        Quantities {
            width: 1 + self.v.leverage_count_of() as nat,
            terms: leverage_terms(*self.w, *self.v, *self.path),
            finish: as_they_are(),
        }
    }

    fn contribute(&self, shocks: &Vec<R>) -> (r: Result<Vec<R>, MonteCarloError>) {
        let states = match self.w.evolve_path(self.path, shocks) {
            Err(e) => return Err(e),
            Ok(v) => v,
        };
        let spots = match read_spots(self.w, self.path, &states) {
            Err(e) => return Err(e),
            Ok(v) => v,
        };
        let (payoff, seeds) = match self.w.payoff_adjoints(&self.path.times, &spots) {
            Err(e) => return Err(e),
            Ok(v) => v,
        };
        let leverage = match self.v.leverage_pullback(shocks, &states, &seeds) {
            Err(e) => return Err(e),
            Ok(v) => v,
        };
        if leverage.len() != self.v.leverage_count() {
            return Err(invalid("lsv_local_variance_risk_width"));
        }
        let mut row: Vec<R> = vec![payoff];
        append(&mut row, &leverage);
        assert(row@ =~= seq![payoff] + leverage@);
        Ok(row)
    }

    fn finish(&self, row: Vec<R>) -> (r: Result<Vec<R>, MonteCarloError>) {
        Ok(row)
    }
}

/// The derivatives of the target out of those of the leverage surface: through the
/// calibration, then from the refined times back to those of the target.
pub open spec fn residual_reverse<R: Scalar, V: ResidualWorld<R>, G: TargetGrid<R>>(
    v: V,
    g: G,
) -> spec_fn(Seq<R>) -> Result<Seq<R>, MonteCarloError> {
    |leverage: Seq<R>|
        match v.reversed_leverage(leverage) {
            Err(e) => Err(e),
            Ok(refined) => spread(g, v.refined_times_of(), refined, refined.len()),
        }
}

struct ResidualReverse<'a, R: Scalar, M: Math<R>, V: ResidualWorld<R>, G: TargetGrid<R>> {
    m: &'a M,
    v: &'a V,
    g: &'a G,
    number: Ghost<R>,
}

impl<'a, R: Scalar, M: Math<R>, V: ResidualWorld<R>, G: TargetGrid<R>> ResidualReverse<
    'a,
    R,
    M,
    V,
    G,
> {
    #[verifier::type_invariant]
    spec fn inv(self) -> bool {
        residual_fits(*self.v, *self.g)
    }
}

impl<'a, R: Scalar, M: Math<R>, V: ResidualWorld<R>, G: TargetGrid<R>> MeanReverse<
    R,
> for ResidualReverse<'a, R, M, V, G> {
    closed spec fn reverse_of(&self) -> spec_fn(Seq<R>) -> Result<Seq<R>, MonteCarloError> {
        residual_reverse(*self.v, *self.g)
    }

    closed spec fn size(&self) -> nat {
        self.g.values_of().len()
    }

    fn reverse(&self, mean: &Vec<R>) -> (r: Result<Vec<R>, MonteCarloError>) {
        proof {
            use_type_invariant(self);
        }
        match self.v.reverse_leverage(mean) {
            Err(e) => Err(e),
            Ok(refined) => {
                let grid = self.v.refined_times();
                gather_adjoints(self.m, self.g, &grid, &refined)
            },
        }
    }
}

/// Why the local-variance risk of a plan is refused before any path is drawn.
pub open spec fn target_refusal<R: Scalar, P, V: ResidualWorld<R>>(
    v: V,
    plan: StochasticDividendPricingPlan<R, P>,
) -> Option<MonteCarloError> {
    if plan.lsv is None {
        Some(
            unsupported_risk(
                "local-variance risk requires a stochastic-dividend residual LSV plan",
            ),
        )
    } else if !plan.risk_supported {
        Some(
            unsupported_risk(
                "stochastic-dividend LSV discontinuous payoff requires explicit smoothing",
            ),
        )
    } else if !v.trace_retained() {
        Some(MonteCarloError::Lsv(LsvError::ReverseTraceNotRetained))
    } else if v.anchor_of() is None {
        Some(
            unsupported_risk(
                "local-variance risk requires a stochastic-dividend residual LSV path",
            ),
        )
    } else {
        job_error(plan.job)
    }
}

/// What the simulation of a plan gives.
pub open spec fn residual_outcome<
    R: Scalar,
    B: Backend<R>,
    W: PlanWorld<R>,
    V: ResidualWorld<R>,
    G: TargetGrid<R>,
>(
    m: Model<R>,
    b: B,
    w: W,
    v: V,
    g: G,
    plan: StochasticDividendPricingPlan<R, DividendPath<R, W::Surface>>,
) -> Result<TargetOutcomeView<R>, MonteCarloError> {
    match target_refusal(v, plan) {
        Some(e) => Err(e),
        None => target_outcome(
            m,
            b,
            job_rows(
                b,
                Quantities {
                    width: 1 + v.leverage_count_of() as nat,
                    terms: leverage_terms(w, v, plan.path),
                    finish: as_they_are(),
                },
                plan.job,
            ),
            plan.job.engine,
            residual_reverse(v, g),
            g.values_of().len(),
            invalid_field("lsv_local_variance_standard_error"),
        ),
    }
}

/// The local-variance risk of a plan: its price needs a finite standard error, then
/// every number has to be finite.
pub open spec fn local_variance_risk<
    R: Scalar,
    B: Backend<R>,
    W: PlanWorld<R>,
    V: ResidualWorld<R>,
    G: TargetGrid<R>,
>(
    m: Model<R>,
    b: B,
    w: W,
    v: V,
    g: G,
    plan: StochasticDividendPricingPlan<R, DividendPath<R, W::Surface>>,
) -> Result<LocalVarianceRiskView<R>, MonteCarloError> {
    match residual_outcome(m, b, w, v, g, plan) {
        Err(e) => Err(e),
        Ok(o) => {
            let units = plan.job.engine.units();
            let value = mean_of(m, o.price, units);
            match error_or(
                m,
                o.price,
                units,
                invalid_field("lsv_local_variance_standard_error"),
            ) {
                Err(e) => Err(e),
                Ok(error) => if !m.is_finite(value) || !m.is_finite(error) || !m.all_finite(
                    o.derivatives,
                ) || (o.standard_errors is Some && !m.all_finite(o.standard_errors->0)) {
                    Err(invalid_field("lsv_local_variance_risk_estimator"))
                } else {
                    Ok(
                        LocalVarianceRiskView {
                            price: price_of(plan, value, error),
                            time_nodes: g.time_nodes_of(),
                            log_moneyness_nodes: g.log_moneyness_nodes_of(),
                            node_adjoints: o.derivatives,
                            standard_errors: o.standard_errors,
                            method: "buehler-residual-lsv-path-and-discrete-particle-vjp-v1",
                        },
                    )
                },
            }
        },
    }
}

/// The derivatives with respect to local volatilities, out of those with respect to
/// their squares.
pub open spec fn volatility_adjoint<R: Scalar>(
    m: Model<R>,
    variances: Seq<R>,
    adjoints: Seq<R>,
) -> spec_fn(int) -> Result<R, MonteCarloError> {
    |i: int|
        {
            let value = times(times(literal(2), m.sqrt(variances[i])), adjoints[i]);
            if m.is_finite(value) {
                Ok(value)
            } else {
                Err(invalid_field("lsv_local_volatility_adjoint"))
            }
        }
}

/// All the derivatives with respect to local volatilities.
pub open spec fn volatility_adjoints<R: Scalar, G: TargetGrid<R>>(
    m: Model<R>,
    g: G,
    adjoints: Seq<R>,
) -> Result<Seq<R>, MonteCarloError> {
    if adjoints.len() != g.values_of().len() {
        Err(invalid_field("lsv_local_variance_node_count"))
    } else {
        gather(adjoints.len(), volatility_adjoint(m, g.values_of(), adjoints))
    }
}

/// Takes the derivatives with respect to local volatilities.
pub fn local_vol_node_adjoints<R: Scalar, M: Math<R>, G: TargetGrid<R>>(
    m: &M,
    g: &G,
    adjoints: &Vec<R>,
) -> (r: Result<Vec<R>, MonteCarloError>)
    ensures
        seen(r) == volatility_adjoints(m.model(), *g, adjoints@),
        r matches Ok(v) ==> v@.len() == g.values_of().len(),
{
    let variances = g.values();
    let n = adjoints.len();
    if n != variances.len() {
        return Err(invalid("lsv_local_variance_node_count"));
    }
    let ghost entry = volatility_adjoint(m.model(), variances@, adjoints@);
    let f_at = |i: usize| -> (x: Result<R, MonteCarloError>)
        requires
            i < n,
        ensures
            x == entry(i as int),
        {
            m.laws();
            let value = R::from(2u32) * m.sqrt(variances[i]) * adjoints[i];
            if !m.is_finite(value) {
                return Err(invalid("lsv_local_volatility_adjoint"));
            }
            Ok(value)
        };
    collect(
        n,
        f_at,
        Ghost(entry),
    )
}

/// The buckets of the first `k` maturities of a target. A maturity of zero has none;
/// each other needs a density, a reporting row and a projection, in this order.
pub open spec fn residual_buckets<R: Scalar, V: ResidualWorld<R>, G: TargetGrid<R>>(
    v: V,
    g: G,
    adjoints: Seq<R>,
    k: nat,
) -> Result<Seq<R>, MonteCarloError>
    decreases k,
{
    if k == 0 {
        Ok(zeros(v.bucket_count_of() as nat))
    } else {
        match residual_buckets(v, g, adjoints, (k - 1) as nat) {
            Err(e) => Err(e),
            Ok(buckets) => {
                let maturity = g.time_nodes_of()[k - 1];
                let width = g.log_moneyness_nodes_of().len();
                let row = adjoints.subrange((k - 1) * width, (k - 1) * width + width);
                if same(maturity, literal(0)) {
                    Ok(buckets)
                } else {
                    match v.density_of(row) {
                        Err(e) => Err(e),
                        Ok(density) => match v.density_row_of(maturity) {
                            None => Err(MonteCarloError::MismatchedLocalVolatilityReportingBasis),
                            Some(at) => match v.projection_of(at, maturity, density) {
                                Err(e) => Err(e),
                                Ok(projected) => Ok(added_prefix(buckets, projected)),
                            },
                        },
                    }
                }
            },
        }
    }
}

proof fn buckets_stop<R: Scalar, V: ResidualWorld<R>, G: TargetGrid<R>>(
    v: V,
    g: G,
    adjoints: Seq<R>,
    k: nat,
    n: nat,
)
    requires
        k <= n,
        residual_buckets(v, g, adjoints, k) is Err,
    ensures
        residual_buckets(v, g, adjoints, n) == residual_buckets(v, g, adjoints, k),
    decreases n,
{
    if k < n {
        buckets_stop(v, g, adjoints, k, (n - 1) as nat);
    }
}

fn take_buckets<R: Scalar, M: Math<R>, V: ResidualWorld<R>, G: TargetGrid<R>>(
    m: &M,
    v: &V,
    g: &G,
    adjoints: &Vec<R>,
) -> (r: Result<Vec<R>, MonteCarloError>)
    requires
        adjoints@.len() == g.time_nodes_of().len() * g.log_moneyness_nodes_of().len(),
    ensures
        seen(r) == residual_buckets(*v, *g, adjoints@, g.time_nodes_of().len()),
{
    m.laws();
    let zero = R::from(0u32);
    let maturities = g.time_nodes();
    let width = g.log_moneyness_nodes().len();
    let mut buckets = make_zeros(m, v.bucket_count());
    let mut start: usize = 0;
    let mut k: usize = 0;
    let ghost n = maturities@.len();
    while k < maturities.len()
        invariant
            lawful::<R>(),
            zero == literal::<R>(0),
            n == maturities@.len(),
            maturities@ == g.time_nodes_of(),
            width == g.log_moneyness_nodes_of().len(),
            adjoints@.len() == n * width,
            k <= n,
            start == k * width,
            residual_buckets(*v, *g, adjoints@, k as nat) == Ok::<Seq<R>, MonteCarloError>(
                buckets@,
            ),
        decreases n - k,
    {
        proof {
            let (a, b, w) = (k as int, n as int, width as int);
            assert(a * w + w <= b * w && (a + 1) * w == a * w + w) by (nonlinear_arith)
                requires
                    0 <= a < b,
                    0 <= w,
            ;
            if residual_buckets(*v, *g, adjoints@, (k + 1) as nat) is Err {
                buckets_stop(*v, *g, adjoints@, (k + 1) as nat, n);
            }
        }
        let maturity = maturities[k];
        if !(maturity == zero) {
            let row = taken(adjoints, start, width);
            let density = match v.density(&row) {
                Err(e) => return Err(e),
                Ok(d) => d,
            };
            let at = match v.density_row(maturity) {
                None => return Err(MonteCarloError::MismatchedLocalVolatilityReportingBasis),
                Some(at) => at,
            };
            let projected = match v.projection(at, maturity, &density) {
                Err(e) => return Err(e),
                Ok(p) => p,
            };
            add_prefix(m, &mut buckets, &projected);
        }
        assert(adjoints@.len() == adjoints.len());
        start = start + width;
        k = k + 1;
    }
    Ok(buckets)
}

/// The buckets of the first `n` units, one after the other.
pub open spec fn bucket_samples<R: Scalar, V: ResidualWorld<R>, G: TargetGrid<R>>(
    m: Model<R>,
    v: V,
    g: G,
    samples: Seq<Seq<R>>,
    n: nat,
) -> Result<Seq<R>, MonteCarloError>
    decreases n,
{
    if n == 0 {
        Ok(Seq::empty())
    } else {
        match bucket_samples(m, v, g, samples, (n - 1) as nat) {
            Err(e) => Err(e),
            Ok(before) => match volatility_adjoints(m, g, samples[n - 1]) {
                Err(e) => Err(e),
                Ok(adjoints) => match residual_buckets(
                    v,
                    g,
                    adjoints,
                    g.time_nodes_of().len(),
                ) {
                    Err(e) => Err(e),
                    Ok(buckets) => Ok(before + buckets),
                },
            },
        }
    }
}

proof fn samples_stop<R: Scalar, V: ResidualWorld<R>, G: TargetGrid<R>>(
    m: Model<R>,
    v: V,
    g: G,
    samples: Seq<Seq<R>>,
    k: nat,
    n: nat,
)
    requires
        k <= n,
        bucket_samples(m, v, g, samples, k) is Err,
    ensures
        bucket_samples(m, v, g, samples, n) == bucket_samples(m, v, g, samples, k),
    decreases n,
{
    if k < n {
        samples_stop(m, v, g, samples, k, (n - 1) as nat);
    }
}

fn take_bucket_samples<R: Scalar, M: Math<R>, V: ResidualWorld<R>, G: TargetGrid<R>>(
    m: &M,
    v: &V,
    g: &G,
    samples: &Vec<Vec<R>>,
) -> (r: Result<Vec<R>, MonteCarloError>)
    requires
        residual_fits(*v, *g),
    ensures
        seen(r) == bucket_samples(m.model(), *v, *g, rows_seen(samples@), samples@.len()),
{
    let ghost rows = rows_seen(samples@);
    let mut all: Vec<R> = Vec::new();
    let mut i: usize = 0;
    while i < samples.len()
        invariant
            residual_fits(*v, *g),
            rows == rows_seen(samples@),
            i <= samples@.len(),
            bucket_samples(m.model(), *v, *g, rows, i as nat) == Ok::<Seq<R>, MonteCarloError>(
                all@,
            ),
        decreases samples@.len() - i,
    {
        proof {
            if bucket_samples(m.model(), *v, *g, rows, (i + 1) as nat) is Err {
                samples_stop(m.model(), *v, *g, rows, (i + 1) as nat, samples@.len());
            }
            assert(rows[i as int] == samples@[i as int]@);
        }
        let adjoints = match local_vol_node_adjoints(m, g, &samples[i]) {
            Err(e) => return Err(e),
            Ok(a) => a,
        };
        let buckets = match take_buckets(m, v, g, &adjoints) {
            Err(e) => return Err(e),
            Ok(b) => b,
        };
        append(&mut all, &buckets);
        i = i + 1;
    }
    Ok(all)
}

/// The bucketed vega of a plan: it needs a basis, the simulation, the buckets of each
/// unit, and their estimates.
pub open spec fn residual_vega_kt<
    R: Scalar,
    B: Backend<R>,
    W: PlanWorld<R>,
    V: ResidualWorld<R>,
    G: TargetGrid<R>,
    K: VegaBuckets<R>,
>(
    m: Model<R>,
    b: B,
    w: W,
    v: V,
    g: G,
    k: K,
    plan: StochasticDividendPricingPlan<R, DividendPath<R, W::Surface>>,
) -> Result<K::Report, MonteCarloError> {
    if !v.basis_exists() {
        Err(MonteCarloError::MissingLocalVolatilityReportingBasis)
    } else {
        match residual_outcome(m, b, w, v, g, plan) {
            Err(e) => Err(e),
            Ok(o) => match bucket_samples(m, v, g, o.samples, o.samples.len()) {
                Err(e) => Err(e),
                Ok(samples) => match k.bucket_estimates_of(
                    o.prices,
                    samples,
                    v.bucket_count_of(),
                ) {
                    Err(e) => Err(e),
                    Ok(estimates) => match volatility_adjoints(m, g, o.derivatives) {
                        Err(e) => Err(e),
                        Ok(adjoints) => vega_kt_from(
                            m,
                            k,
                            estimates,
                            compensated_sum(m, adjoints),
                            samples,
                            v.bucket_count_of(),
                        ),
                    },
                },
            },
        }
    }
}

impl<R: Scalar, L> StochasticDividendPricingPlan<R, DividendPath<R, L>> {
    /// The plan can be run, and its calibration is that of the target.
    pub open spec fn target_ready<V: ResidualWorld<R>, G: TargetGrid<R>>(self, v: V, g: G) -> bool {
        &&& self.job.valid()
        &&& self.job.engine.units() > 0
        &&& residual_fits(v, g)
    }

    fn check_target<V: ResidualWorld<R>>(&self, v: &V) -> (e: Option<MonteCarloError>)
        ensures
            e == target_refusal(*v, *self),
    {
        if self.lsv.is_none() {
            return Some(
                MonteCarloError::UnsupportedRiskForModel {
                    model: "local-variance risk requires a stochastic-dividend residual LSV plan",
                },
            );
        }
        if !self.risk_supported {
            return Some(
                MonteCarloError::UnsupportedRiskForModel {
                    model: "stochastic-dividend LSV discontinuous payoff requires explicit smoothing",
                },
            );
        }
        if !v.retains_trace() {
            return Some(MonteCarloError::Lsv(LsvError::ReverseTraceNotRetained));
        }
        if v.anchor().is_none() {
            return Some(
                MonteCarloError::UnsupportedRiskForModel {
                    model: "local-variance risk requires a stochastic-dividend residual LSV path",
                },
            );
        }
        check_job(&self.job)
    }

    fn lsv_local_variance_samples<
        M: Math<R>,
        B: Backend<R>,
        W: PlanWorld<R, Surface = L>,
        V: ResidualWorld<R>,
        G: TargetGrid<R>,
    >(&self, m: &M, b: &B, w: &W, v: &V, g: &G) -> (r: Result<TargetOutcome<R>, MonteCarloError>)
        requires
            self.target_ready(*v, *g),
        ensures
            viewed(r) == residual_outcome(m.model(), *b, *w, *v, *g, *self),
            r matches Ok(o) ==> o@.sized(g.values_of().len()),
    {
        if let Some(e) = self.check_target(v) {
            return Err(e);
        }
        let contribution = LeverageContribution {
            w,
            v,
            path: &self.path,
            number: Ghost(arbitrary()),
        };
        let sampler = JobSampler::new(m, b, &contribution, &self.job);
        let reverse = ResidualReverse { m, v, g, number: Ghost(arbitrary()) };
        run_target(
            m,
            b,
            &sampler,
            &self.job.engine,
            1 + v.leverage_count(),
            &reverse,
            invalid("lsv_local_variance_standard_error"),
        )
    }

    /// The derivatives with respect to the local variances that were calibrated to. The
    /// calibration moves with them.
    pub fn evaluate_local_variance_risk<
        M: Math<R>,
        B: Backend<R>,
        W: PlanWorld<R, Surface = L>,
        V: ResidualWorld<R>,
        G: TargetGrid<R>,
    >(&self, m: &M, b: &B, w: &W, v: &V, g: &G) -> (r: Result<
        StochasticDividendLocalVarianceRisk<R>,
        MonteCarloError,
    >)
        requires
            self.target_ready(*v, *g),
        ensures
            viewed(r) == local_variance_risk(m.model(), *b, *w, *v, *g, *self),
            r matches Ok(risk) ==> risk@.node_adjoints.len() == g.values_of().len(),
    {
        m.laws();
        let o = match self.lsv_local_variance_samples(m, b, w, v, g) {
            Err(e) => return Err(e),
            Ok(o) => o,
        };
        let units = engine_units(&self.job.engine);
        let value = o.price.total / m.of(units);
        let error = match take_error_or(
            m,
            o.price,
            units,
            invalid("lsv_local_variance_standard_error"),
        ) {
            Err(e) => return Err(e),
            Ok(x) => x,
        };
        let errors_finite = match &o.standard_errors {
            None => true,
            Some(e) => all_finite(m, e.as_slice()),
        };
        if !m.is_finite(value) || !m.is_finite(error) || !all_finite(m, o.derivatives.as_slice())
            || !errors_finite {
            return Err(invalid("lsv_local_variance_risk_estimator"));
        }
        Ok(
            StochasticDividendLocalVarianceRisk {
                price: self.price(value, error),
                time_nodes: g.time_nodes(),
                log_moneyness_nodes: g.log_moneyness_nodes(),
                node_adjoints: o.derivatives,
                standard_errors: o.standard_errors,
                method: "buehler-residual-lsv-path-and-discrete-particle-vjp-v1",
            },
        )
    }

    /// The vega of the reporting buckets: the derivatives with respect to local
    /// volatilities, projected maturity by maturity.
    pub fn evaluate_vega_kt<
        M: Math<R>,
        B: Backend<R>,
        W: PlanWorld<R, Surface = L>,
        V: ResidualWorld<R>,
        G: TargetGrid<R>,
        K: VegaBuckets<R>,
    >(&self, m: &M, b: &B, w: &W, v: &V, g: &G, k: &K) -> (r: Result<K::Report, MonteCarloError>)
        requires
            self.target_ready(*v, *g),
        ensures
            r == residual_vega_kt(m.model(), *b, *w, *v, *g, *k, *self),
    {
        if !v.has_basis() {
            return Err(MonteCarloError::MissingLocalVolatilityReportingBasis);
        }
        let o = match self.lsv_local_variance_samples(m, b, w, v, g) {
            Err(e) => return Err(e),
            Ok(o) => o,
        };
        let samples = match take_bucket_samples(m, v, g, &o.samples) {
            Err(e) => return Err(e),
            Ok(s) => s,
        };
        let count = v.bucket_count();
        let estimates = match k.bucket_estimates(&o.prices, &samples, count) {
            Err(e) => return Err(e),
            Ok(e) => e,
        };
        let adjoints = match local_vol_node_adjoints(m, g, &o.derivatives) {
            Err(e) => return Err(e),
            Ok(a) => a,
        };
        let mean_vega = sum_compensated(m, adjoints.as_slice());
        report_vega_kt(m, k, estimates, mean_vega, &samples, count)
    }
}

} // verus!
