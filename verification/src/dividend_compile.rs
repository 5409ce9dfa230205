//! The compilation of dividend plans.

use crate::compile_world::{CompileWorld, PlanRequest};
use crate::dividend_compiler::DividendCompiler;
use crate::dynamics::KernelNumerics;
use crate::engine::EngineConfig;
use crate::errors::{
    invalid, invalid_field, unsupported_feature, MonteCarloError, StochasticDividendError,
};
use crate::estimation::Job;
use crate::fingerprint::{all_le_bytes, blake3_digest, Message};
use crate::hw_plan::{bits_all, keep_until, push_numbers, until};
use crate::hybrid_aad::append;
use crate::models::{
    Bergomi1Factor, Bergomi2Factor, BuehlerDividendModel, Fingerprint, LsvCalibration, Pair,
    RoughBergomi,
};
use crate::plan::StochasticDividendPricingPlan;
use crate::reverse::{rough_path_of, DividendPath};
use crate::scalar::{le, literal, Math, Scalar};
use vstd::prelude::*;
use vstd::string::*;

verus! {

pub(crate) fn unsupported_request(feature: &'static str) -> (e: MonteCarloError)
    ensures
        e == unsupported_feature(feature),
{
    MonteCarloError::StochasticDividend(StochasticDividendError::Unsupported { feature })
}

/// Why a request at constant volatility is refused before anything is compiled.
pub open spec fn bs_refusal<R: Scalar>(q: PlanRequest<R>) -> Option<MonteCarloError> {
    if q.delta || q.gamma || q.vega || q.vega_kt {
        Some(unsupported_feature("Greeks; submit a price-only request"))
    } else if q.volatility is None {
        Some(unsupported_feature("nonconstant residual-equity volatility"))
    } else if le(q.expiry, literal(0)) {
        Some(invalid_field("positive_horizon"))
    } else {
        None
    }
}

/// The failure of the quasi-random plan of a dimension, where the engine needs it.
pub open spec fn quasi_refusal<R: Scalar, Z: CompileWorld<R>>(
    z: Z,
    engine: EngineConfig,
    dimension: usize,
) -> Option<MonteCarloError> {
    if engine is RandomizedQuasiMonteCarlo {
        z.quasi_failure_of(dimension as u32)
    } else {
        None
    }
}

pub(crate) fn check_quasi<R: Scalar, Z: CompileWorld<R>>(
    z: &Z,
    engine: &EngineConfig,
    dimension: usize,
) -> (e: Option<MonteCarloError>)
    requires
        dimension <= u32::MAX,
    ensures
        e == quasi_refusal(*z, *engine, dimension),
{
    match engine {
        EngineConfig::PseudoMonteCarlo(_) => None,
        EngineConfig::RandomizedQuasiMonteCarlo(_) => z.quasi_failure(dimension as u32),
    }
}

/// The path of a request at constant volatility, or why it is refused.
pub open spec fn bs_path<R: Scalar, Z: CompileWorld<R>, K: DividendCompiler<R>>(
    z: Z,
    k: K,
    q: PlanRequest<R>,
    model: BuehlerDividendModel<R>,
    maximum_step: R,
) -> Result<DividendPath<R, K::Surface>, MonteCarloError> {
    match bs_refusal(q) {
        Some(e) => Err(e),
        None => match z.observation_times_of() {
            Err(e) => Err(e),
            Ok(looked) => match z.grid_of(
                looked.push(q.expiry) + until(k.event_times_of(), q.expiry),
                maximum_step,
            ) {
                Err(e) => Err(e),
                Ok(grid) => match k.path_of(model, q.volatility->0, grid) {
                    Err(e) => Err(e),
                    Ok(path) => match quasi_refusal(z, q.engine, path.dimension) {
                        Some(e) => Err(e),
                        None => Ok(path),
                    },
                },
            },
        },
    }
}

/// The message that identifies a plan before its volatility is attached.
pub open spec fn base_message<R: Scalar, Z: CompileWorld<R>>(
    z: Z,
    head: Seq<u8>,
    model: BuehlerDividendModel<R>,
    maximum_step: R,
    nodes: Seq<R>,
) -> Seq<u8> {
    head + z.base_fingerprint_of().bytes@ + all_le_bytes(
        bits_all(
            z,
            seq![
                model.mean_reversion,
                model.equity_linkage,
                model.dividend_volatility,
                model.equity_dividend_correlation,
                maximum_step,
            ],
        ),
    ) + all_le_bytes(bits_all(z, nodes))
}

pub(crate) fn finish_base_message<R: Scalar, Z: CompileWorld<R>>(
    z: &Z,
    head: Message,
    model: BuehlerDividendModel<R>,
    maximum_step: R,
    nodes: &Vec<R>,
) -> (message: Message)
    ensures
        message@ == base_message(*z, head@, model, maximum_step, nodes@),
{
    let mut message = head;
    message.push_fingerprint(&z.base_fingerprint());
    let parameters: Vec<R> = vec![
        model.mean_reversion,
        model.equity_linkage,
        model.dividend_volatility,
        model.equity_dividend_correlation,
        maximum_step,
    ];
    let ghost listed = seq![
        model.mean_reversion,
        model.equity_linkage,
        model.dividend_volatility,
        model.equity_dividend_correlation,
        maximum_step,
    ];
    assert(parameters@ =~= listed);
    push_numbers(z, &mut message, &parameters);
    push_numbers(z, &mut message, nodes);
    message
}

/// The head of the message of a plan at constant volatility.
pub open spec fn bs_head<R: Scalar, K: DividendCompiler<R>>(k: K) -> Seq<u8> {
    k.base_scheme_of().spec_bytes() + "rank-major-before-correlation-price-only".spec_bytes()
}

/// The simulation of a path.
pub open spec fn dividend_job<R: Scalar, Z: CompileWorld<R>, K: DividendCompiler<R>>(
    z: Z,
    k: K,
    engine: EngineConfig,
    path: DividendPath<R, K::Surface>,
) -> Job {
    Job {
        engine,
        dimension: path.dimension as u32,
        factors: k.factors_of(path),
        executor_failure: z.executor_failure_of(),
        quasi_failure: z.quasi_failure_of(path.dimension as u32),
        bridge_failure: z.bridge_failure_of(path.times@),
    }
}

/// What a plan on a path holds.
pub open spec fn plan_on<R: Scalar, Z: CompileWorld<R>, K: DividendCompiler<R>>(
    z: Z,
    k: K,
    q: PlanRequest<R>,
    model: BuehlerDividendModel<R>,
    path: DividendPath<R, K::Surface>,
    lsv: Option<LsvCalibration<R>>,
    digest: Seq<u8>,
    p: StochasticDividendPricingPlan<R, DividendPath<R, K::Surface>>,
) -> bool {
    &&& p.path == path
    &&& p.path_is_lsv == (lsv is Some)
    &&& p.model == model
    &&& p.job == dividend_job(z, k, q.engine, path)
    &&& p.fingerprint.bytes@ == digest
    &&& p.scheme == k.scheme_of(path)
    &&& p.payment_time == q.payment
    &&& p.risk_supported == (q.pathwise || q.smoothed)
    &&& p.lsv == lsv
    &&& p.path@.valid()
    &&& p.job.valid()
}

/// A draw of a path can be indexed.
pub open spec fn draws_fit() -> bool {
    u32::MAX + 16 <= usize::MAX
}

pub(crate) fn make_plan<R: Scalar, Z: CompileWorld<R>, K: DividendCompiler<R>>(
    z: &Z,
    k: &K,
    q: &PlanRequest<R>,
    model: BuehlerDividendModel<R>,
    path: DividendPath<R, K::Surface>,
    lsv: Option<LsvCalibration<R>>,
    fingerprint: Fingerprint,
) -> (p: StochasticDividendPricingPlan<R, DividendPath<R, K::Surface>>)
    requires
        draws_fit(),
        path@.valid(),
        path.dimension <= u32::MAX,
    ensures
        plan_on(*z, *k, *q, model, path, lsv, fingerprint.bytes@, p),
{
    let job = Job {
        engine: q.engine,
        dimension: path.dimension as u32,
        factors: k.factors(&path),
        executor_failure: z.executor_failure(),
        quasi_failure: z.quasi_failure(path.dimension as u32),
        bridge_failure: z.bridge_failure(&path.times),
    };
    let scheme = k.scheme(&path);
    StochasticDividendPricingPlan {
        path,
        path_is_lsv: lsv.is_some(),
        model,
        job,
        fingerprint,
        scheme,
        payment_time: q.payment,
        risk_supported: q.pathwise || q.smoothed,
        lsv,
    }
}

/// The digest of a plan whose volatility was attached to one with the digest `before`.
pub open spec fn volatility_digest<R: Scalar, K: DividendCompiler<R>>(
    k: K,
    before: Seq<u8>,
    path: DividendPath<R, K::Surface>,
) -> Seq<u8> {
    blake3_digest(before + k.volatility_message_of(path))
}

fn push_bytes(message: &mut Message, bytes: &Vec<u8>)
    ensures
        final(message)@ == old(message)@ + bytes@,
{
    let ghost start = message@;
    let mut i: usize = 0;
    while i < bytes.len()
        invariant
            i <= bytes@.len(),
            message@ == start + bytes@.take(i as int),
        decreases bytes@.len() - i,
    {
        message.push_byte(bytes[i]);
        assert(message@ =~= start + bytes@.take(i + 1));
        i = i + 1;
    }
    assert(bytes@.take(i as int) =~= bytes@);
}

pub(crate) fn attach_volatility<R: Scalar, K: DividendCompiler<R>>(
    k: &K,
    before: &Fingerprint,
    path: &DividendPath<R, K::Surface>,
) -> (f: Fingerprint)
    ensures
        f.bytes@ == volatility_digest(*k, before.bytes@, *path),
{
    let mut message = Message::new();
    message.push_fingerprint(before);
    assert(message@ =~= before.bytes@);
    push_bytes(&mut message, &k.volatility_message(path));
    message.fingerprint()
}

/// A path after its volatility is attached, or why it is refused.
pub open spec fn moved_path<R: Scalar, Z: CompileWorld<R>, L>(
    z: Z,
    engine: EngineConfig,
    base: Result<DividendPath<R, L>, MonteCarloError>,
    moved: spec_fn(DividendPath<R, L>) -> Result<DividendPath<R, L>, MonteCarloError>,
) -> Result<DividendPath<R, L>, MonteCarloError> {
    match base {
        Err(e) => Err(e),
        Ok(path) => match moved(path) {
            Err(e) => Err(e),
            Ok(path) => match quasi_refusal(z, engine, path.dimension) {
                Some(e) => Err(e),
                None => Ok(path),
            },
        },
    }
}

/// The digest of a plan at constant volatility.
pub open spec fn bs_digest<R: Scalar, Z: CompileWorld<R>, K: DividendCompiler<R>>(
    z: Z,
    k: K,
    model: BuehlerDividendModel<R>,
    maximum_step: R,
    path: DividendPath<R, K::Surface>,
) -> Seq<u8> {
    blake3_digest(base_message(z, bs_head(k), model, maximum_step, path.times@))
}

impl<R: Scalar, L> StochasticDividendPricingPlan<R, DividendPath<R, L>> {
    fn compile_bs_path<M: Math<R>, Z: CompileWorld<R>, K: DividendCompiler<R, Surface = L>>(
        m: &M,
        z: &Z,
        k: &K,
        q: &PlanRequest<R>,
        model: BuehlerDividendModel<R>,
        maximum_step: R,
    ) -> (r: Result<DividendPath<R, L>, MonteCarloError>)
        ensures
            r == bs_path(*z, *k, *q, model, maximum_step),
            r matches Ok(p) ==> p@.valid() && p.dimension <= u32::MAX,
    {
        m.laws();
        if q.delta || q.gamma || q.vega || q.vega_kt {
            return Err(unsupported_request("Greeks; submit a price-only request"));
        }
        let volatility = match q.volatility {
            None => return Err(unsupported_request("nonconstant residual-equity volatility")),
            Some(v) => v,
        };
        if q.expiry <= R::from(0u32) {
            return Err(invalid("positive_horizon"));
        }
        let mut required = match z.observation_times() {
            Err(e) => return Err(e),
            Ok(v) => v,
        };
        required.push(q.expiry);
        let dates = keep_until(m, &k.event_times(), q.expiry);
        append(&mut required, &dates);
        let grid = match z.grid(&required, maximum_step) {
            Err(e) => return Err(e),
            Ok(v) => v,
        };
        let path = match k.path(model, volatility, &grid) {
            Err(e) => return Err(e),
            Ok(p) => p,
        };
        if let Some(e) = check_quasi(z, &q.engine, path.dimension) {
            return Err(e);
        }
        Ok(path)
    }

    fn bs_fingerprint<Z: CompileWorld<R>, K: DividendCompiler<R, Surface = L>>(
        z: &Z,
        k: &K,
        model: BuehlerDividendModel<R>,
        maximum_step: R,
        path: &DividendPath<R, L>,
    ) -> (f: Fingerprint)
        ensures
            f.bytes@ == bs_digest(*z, *k, model, maximum_step, *path),
    {
        let mut head = Message::new();
        head.push_text(k.base_scheme());
        assert(head@ =~= k.base_scheme_of().spec_bytes());
        head.push_text("rank-major-before-correlation-price-only");
        let message = finish_base_message(z, head, model, maximum_step, &path.times);
        message.fingerprint()
    }

    /// Compiles a request at constant volatility, that of the residual equity.
    pub fn compile_bs<M: Math<R>, Z: CompileWorld<R>, K: DividendCompiler<R, Surface = L>>(
        m: &M,
        z: &Z,
        k: &K,
        q: &PlanRequest<R>,
        model: BuehlerDividendModel<R>,
        maximum_step: R,
    ) -> (r: Result<Self, MonteCarloError>)
        requires
            draws_fit(),
        ensures
            match (r, bs_path(*z, *k, *q, model, maximum_step)) {
                (Ok(p), Ok(path)) => plan_on(
                    *z,
                    *k,
                    *q,
                    model,
                    path,
                    None,
                    bs_digest(*z, *k, model, maximum_step, path),
                    p,
                ),
                (Err(e), Err(f)) => e == f,
                _ => false,
            },
    {
        let path = match Self::compile_bs_path(m, z, k, q, model, maximum_step) {
            Err(e) => return Err(e),
            Ok(p) => p,
        };
        let fingerprint = Self::bs_fingerprint(z, k, model, maximum_step, &path);
        Ok(make_plan(z, k, q, model, path, None, fingerprint))
    }
}

impl<R: Scalar, L> StochasticDividendPricingPlan<R, DividendPath<R, L>> {
    /// Compiles a request with one volatility factor. Its volatility is the initial one.
    pub fn compile_bergomi<M: Math<R>, Z: CompileWorld<R>, K: DividendCompiler<R, Surface = L>>(
        m: &M,
        z: &Z,
        k: &K,
        q: &PlanRequest<R>,
        model: BuehlerDividendModel<R>,
        factor: Bergomi1Factor<R>,
        dividend_volatility_correlation: R,
        maximum_step: R,
    ) -> (r: Result<Self, MonteCarloError>)
        requires
            draws_fit(),
        ensures
            match (
                r,
                moved_path(
                    *z,
                    q.engine,
                    bs_path(*z, *k, *q, model, maximum_step),
                    |path: DividendPath<R, L>| k.bergomi_path(
                        path,
                        factor,
                        dividend_volatility_correlation,
                    ),
                ),
            ) {
                (Ok(p), Ok(path)) => plan_on(
                    *z,
                    *k,
                    *q,
                    model,
                    path,
                    None,
                    volatility_digest(
                        *k,
                        bs_digest(
                            *z,
                            *k,
                            model,
                            maximum_step,
                            bs_path(*z, *k, *q, model, maximum_step)->Ok_0,
                        ),
                        path,
                    ),
                    p,
                ),
                (Err(e), Err(f)) => e == f,
                _ => false,
            },
    {
        let base = match Self::compile_bs_path(m, z, k, q, model, maximum_step) {
            Err(e) => return Err(e),
            Ok(p) => p,
        };
        let before = Self::bs_fingerprint(z, k, model, maximum_step, &base);
        let path = match k.with_bergomi(&base, factor, dividend_volatility_correlation) {
            Err(e) => return Err(e),
            Ok(p) => p,
        };
        if let Some(e) = check_quasi(z, &q.engine, path.dimension) {
            return Err(e);
        }
        let fingerprint = attach_volatility(k, &before, &path);
        Ok(make_plan(z, k, q, model, path, None, fingerprint))
    }

    /// Compiles a request with two volatility factors.
    pub fn compile_bergomi_two_factor<M: Math<R>, Z: CompileWorld<R>, K: DividendCompiler<R, Surface = L>>(
        m: &M,
        z: &Z,
        k: &K,
        q: &PlanRequest<R>,
        model: BuehlerDividendModel<R>,
        factor: Bergomi2Factor<R>,
        dividend_volatility_correlations: Pair<R>,
        maximum_step: R,
    ) -> (r: Result<Self, MonteCarloError>)
        requires
            draws_fit(),
        ensures
            match (
                r,
                moved_path(
                    *z,
                    q.engine,
                    bs_path(*z, *k, *q, model, maximum_step),
                    |path: DividendPath<R, L>| k.two_factor_path(
                        path,
                        factor,
                        dividend_volatility_correlations,
                    ),
                ),
            ) {
                (Ok(p), Ok(path)) => plan_on(
                    *z,
                    *k,
                    *q,
                    model,
                    path,
                    None,
                    volatility_digest(
                        *k,
                        bs_digest(
                            *z,
                            *k,
                            model,
                            maximum_step,
                            bs_path(*z, *k, *q, model, maximum_step)->Ok_0,
                        ),
                        path,
                    ),
                    p,
                ),
                (Err(e), Err(f)) => e == f,
                _ => false,
            },
    {
        let base = match Self::compile_bs_path(m, z, k, q, model, maximum_step) {
            Err(e) => return Err(e),
            Ok(p) => p,
        };
        let before = Self::bs_fingerprint(z, k, model, maximum_step, &base);
        let path = match k.with_bergomi_two_factor(
            &base,
            factor,
            dividend_volatility_correlations,
        ) {
            Err(e) => return Err(e),
            Ok(p) => p,
        };
        if let Some(e) = check_quasi(z, &q.engine, path.dimension) {
            return Err(e);
        }
        let fingerprint = attach_volatility(k, &before, &path);
        Ok(make_plan(z, k, q, model, path, None, fingerprint))
    }

    /// Compiles a request with rough volatility, whose volatility is that of a log-variance.
    pub fn compile_rough_bergomi<
        M: Math<R>,
        N: KernelNumerics<R>,
        Z: CompileWorld<R>,
        K: DividendCompiler<R, Surface = L>,
    >(
        m: &M,
        o: &N,
        z: &Z,
        k: &K,
        q: &PlanRequest<R>,
        model: BuehlerDividendModel<R>,
        factor: RoughBergomi<R>,
        dividend_volatility_correlation: R,
        maximum_step: R,
    ) -> (r: Result<Self, MonteCarloError>)
        requires
            draws_fit(),
        ensures
            match bs_path(*z, *k, *q, model, maximum_step) {
                Err(e) => r == Err::<Self, MonteCarloError>(e),
                Ok(base) => match rough_path_of(
                    m.model(),
                    *o,
                    base@,
                    factor,
                    dividend_volatility_correlation,
                ) {
                    Err(e) => r == Err::<Self, MonteCarloError>(e),
                    Ok(path) => match quasi_refusal(*z, q.engine, path.dimension) {
                        Some(e) => r == Err::<Self, MonteCarloError>(e),
                        None => r matches Ok(p) && p.path@ == path && p.path@.valid() && plan_on(
                            *z,
                            *k,
                            *q,
                            model,
                            p.path,
                            None,
                            volatility_digest(
                                *k,
                                bs_digest(*z, *k, model, maximum_step, base),
                                p.path,
                            ),
                            p,
                        ),
                    },
                },
            },
    {
        let base = match Self::compile_bs_path(m, z, k, q, model, maximum_step) {
            Err(e) => return Err(e),
            Ok(p) => p,
        };
        let before = Self::bs_fingerprint(z, k, model, maximum_step, &base);
        let path = match base.with_rough_bergomi(m, o, factor, dividend_volatility_correlation) {
            Err(e) => return Err(e),
            Ok(p) => p,
        };
        if let Some(e) = check_quasi(z, &q.engine, path.dimension) {
            return Err(e);
        }
        let fingerprint = attach_volatility(k, &before, &path);
        Ok(make_plan(z, k, q, model, path, None, fingerprint))
    }
}

} // verus!
