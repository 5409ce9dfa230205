//! Leverage plans: a target is refined to the times of a product, a model is calibrated
//! to it, and both are priced with.

use crate::engine::EngineConfig;
use crate::errors::{unsupported_risk, MonteCarloError};
use crate::fingerprint::{all_be_bytes, be_bytes, blake3_digest, Message};
use crate::linear::{build, viewed};
use crate::lsv_compiler::{calibrated_alike, trace_is_apart, Calibrating, LsvCompiler};
use crate::lsv_model::{trace_aside, LsvModel, LsvParticleConfig, LsvPriceModel};
use crate::lsv_pricing::{
    lsv_evaluated, lsv_local_variance, plans_that_price_alike, ExecutionPolicy,
    LsvLocalVarianceRisk, LsvPrice, LsvPricingCore,
};
use crate::models::{Fingerprint, RoughBergomi};
use crate::sampling::Backend;
use crate::scalar::{Math, Model, Scalar};
use crate::target_grid::{refinable, refine, refined_values, TargetGrid};
use vstd::prelude::*;
use vstd::string::*;

verus! {

/// What a request for a leverage plan asks for.
pub struct LsvRequest<G> {
    /// The local variances to calibrate to, where the model gives some.
    pub target: Option<G>,
    pub delta: bool,
    pub gamma: bool,
    pub vega: bool,
    pub vega_kt: bool,
    pub engine: EngineConfig,
    pub policy: ExecutionPolicy,
    /// Whether the payoff has pathwise derivatives by itself.
    pub pathwise: bool,
    /// Whether the payoff is smoothed.
    pub smoothed: bool,
    /// The name of the reversal of the calibration.
    pub reverse_method: &'static str,
}

/// The model that a request is calibrated to, or why it is refused: it needs a target,
/// asks for a price alone, and is compiled, refined, calibrated and planned in turn.
pub open spec fn lsv_calibrated<R: Scalar, W: LsvCompiler<R>, G: TargetGrid<R>>(
    w: W,
    q: LsvRequest<G>,
    parameters: Seq<R>,
    particles: LsvParticleConfig<R>,
) -> Result<W::Calibrated, MonteCarloError> {
    match q.target {
        None => Err(
            MonteCarloError::UnsupportedModel {
                model: "Bergomi LSV requires a LocalVolatility calibration target",
            },
        ),
        Some(g) => if q.delta || q.gamma || q.vega || q.vega_kt {
            Err(
                unsupported_risk(
                    "Bergomi LSV: use price_only and evaluate_local_variance_risk",
                ),
            )
        } else if w.base_refusal_of() is Some {
            Err(w.base_refusal_of()->0)
        } else {
            match w.time_grid_of() {
                Err(e) => Err(e),
                Ok(grid) => match refined_values(g, grid) {
                    Err(e) => Err(e),
                    Ok(values) => if w.refined_refusal_of(grid, values) is Some {
                        Err(w.refined_refusal_of(grid, values)->0)
                    } else if w.executor_failure_of() is Some {
                        Err(w.executor_failure_of()->0)
                    } else {
                        match w.calibration_of(
                            parameters,
                            grid,
                            values,
                            w.initial_spot_of(),
                            particles,
                        ) {
                            Err(e) => Err(e),
                            Ok(calibrated) => match w.pricing_failure_of(calibrated, grid) {
                                Some(e) => Err(e),
                                None => Ok(calibrated),
                            },
                        }
                    },
                },
            }
        },
    }
}

/// The calibration of a compiler.
pub open spec fn calibrating<R: Scalar, W: LsvCompiler<R>>(w: W) -> Calibrating<R, W::Calibrated> {
    |
        parameters: Seq<R>,
        grid: Seq<R>,
        values: Seq<R>,
        initial: R,
        particles: LsvParticleConfig<R>,
    |
        w.calibration_of(parameters, grid, values, initial, particles)
}

/// Whether a trace is kept moves no calibration.
pub open spec fn keeps_traces_apart<R: Scalar, W: LsvCompiler<R>>(w: W) -> bool {
    trace_is_apart::<R, W::Calibrated>(
        calibrating::<R, W>(w),
        |c: W::Calibrated, grid: Seq<R>| w.pricing_failure_of(c, grid),
        |c: W::Calibrated| w.quasi_failure_of(c),
    )
}

/// The bits of numbers.
pub open spec fn all_bits<R: Scalar, W: LsvCompiler<R>>(w: W, v: Seq<R>) -> Seq<u64> {
    Seq::new(v.len(), |i: int| w.bits_of(v[i]))
}

/// The byte of a truth value.
pub open spec fn truth_byte(b: bool) -> u8 {
    if b {
        1
    } else {
        0
    }
}

/// The message that identifies a plan.
pub open spec fn lsv_message<R: Scalar, W: LsvCompiler<R>>(
    w: W,
    tag: &'static str,
    parameters: Seq<R>,
    particles: LsvParticleConfig<R>,
    leverage: Seq<R>,
) -> Seq<u8> {
    tag.spec_bytes() + w.base_fingerprint_of().bytes@ + all_be_bytes(
        all_bits(
            w,
            parameters.push(particles.log_bandwidth).push(particles.minimum_effective_samples),
        ),
    ) + be_bytes(particles.particle_count) + be_bytes(particles.seed) + seq![
        truth_byte(particles.retain_reverse_trace),
    ] + all_be_bytes(all_bits(w, leverage))
}

fn take_bits<R: Scalar, W: LsvCompiler<R>>(w: &W, v: &Vec<R>) -> (bits: Vec<u64>)
    ensures
        bits@ == all_bits(*w, v@),
{
    let n = v.len();
    let ghost entry = |i: int| w.bits_of(v@[i]);
    let bits_at = |i: usize| -> (x: u64)
        requires
            i < n,
        ensures
            x == entry(i as int),
        { w.bits(v[i]) };
    let bits = build(
        n,
        bits_at,
        Ghost(entry),
    );
    assert(bits@ =~= all_bits(*w, v@));
    bits
}

fn make_lsv_message<R: Scalar, W: LsvCompiler<R>>(
    w: &W,
    tag: &'static str,
    parameters: Vec<R>,
    particles: LsvParticleConfig<R>,
    leverage: &Vec<R>,
) -> (message: Message)
    ensures
        message@ == lsv_message(*w, tag, parameters@, particles, leverage@),
{
    let mut message = Message::new();
    message.push_text(tag);
    assert(message@ =~= tag.spec_bytes());
    message.push_fingerprint(&w.base_fingerprint());
    let mut numbers = parameters;
    numbers.push(particles.log_bandwidth);
    numbers.push(particles.minimum_effective_samples);
    message.push_all_reversed(&take_bits(w, &numbers));
    message.push_u64_reversed(particles.particle_count);
    message.push_u64_reversed(particles.seed);
    let ghost before = message@;
    let byte: u8 = if particles.retain_reverse_trace {
        1
    } else {
        0
    };
    message.push_byte(byte);
    assert(message@ =~= before + seq![truth_byte(particles.retain_reverse_trace)]);
    message.push_all_reversed(&take_bits(w, leverage));
    message
}

/// What a compiled plan holds.
pub open spec fn lsv_compiled<R: Scalar, W: LsvCompiler<R>, G: TargetGrid<R>>(
    w: W,
    q: LsvRequest<G>,
    tag: &'static str,
    parameters: Seq<R>,
    particles: LsvParticleConfig<R>,
    p: LsvPricingCore<W::Calibrated, G>,
) -> bool {
    let c = p.calibration;
    &&& lsv_calibrated(w, q, parameters, particles) == Ok::<W::Calibrated, MonteCarloError>(c)
    &&& q.target == Some(p.original_target)
    &&& p.engine == q.engine
    &&& p.policy == q.policy
    &&& p.executor_failure is None
    &&& p.quasi_failure == w.quasi_failure_of(c)
    &&& p.bridge_failure == w.bridge_failure_of(w.time_grid_of()->Ok_0)
    &&& p.risk_supported == (q.pathwise || q.smoothed)
    &&& p.fingerprint.bytes@ == blake3_digest(
        lsv_message(w, tag, parameters, c.particles_of(), c.squared_leverage_of()),
    )
    &&& p.reverse_method == q.reverse_method
}

/// The target of a request can be refined to the times of the product.
pub open spec fn lsv_refinable<R: Scalar, W: LsvCompiler<R>, G: TargetGrid<R>>(
    w: W,
    q: LsvRequest<G>,
) -> bool {
    q.target matches Some(g) ==> (w.time_grid_of() matches Ok(grid) ==> refinable(g, grid))
}

impl<C, G> LsvPricingCore<C, G> {
    /// Compiles a request. The message of its fingerprint starts with `tag` and the
    /// `parameters` of the model.
    pub fn compile<R: Scalar, W: LsvCompiler<R, Calibrated = C>>(
        w: &W,
        q: LsvRequest<G>,
        tag: &'static str,
        parameters: Vec<R>,
        particles: LsvParticleConfig<R>,
    ) -> (r: Result<Self, MonteCarloError>) where C: LsvModel<R>, G: TargetGrid<R>
        requires
            lsv_refinable(*w, q),
        ensures
            r matches Ok(p) ==> lsv_compiled(*w, q, tag, parameters@, particles, p),
            r matches Ok(p) ==> p.calibration.particles_of() == particles,
            r matches Err(e) ==> lsv_calibrated(*w, q, parameters@, particles) == Err::<
                C,
                MonteCarloError,
            >(e),
            keeps_traces_apart::<R, W>(*w),
    {
        w.trace_laws();
        let target = match q.target {
            None => return Err(
                MonteCarloError::UnsupportedModel {
                    model: "Bergomi LSV requires a LocalVolatility calibration target",
                },
            ),
            Some(g) => g,
        };
        if q.delta || q.gamma || q.vega || q.vega_kt {
            return Err(
                MonteCarloError::UnsupportedRiskForModel {
                    model: "Bergomi LSV: use price_only and evaluate_local_variance_risk",
                },
            );
        }
        if let Some(e) = w.base_refusal() {
            return Err(e);
        }
        let grid = match w.time_grid() {
            Err(e) => return Err(e),
            Ok(g) => g,
        };
        let values = match refine(&target, &grid) {
            Err(e) => return Err(e),
            Ok(v) => v,
        };
        if let Some(e) = w.refined_refusal(&grid, &values) {
            return Err(e);
        }
        if let Some(e) = w.executor_failure() {
            return Err(e);
        }
        let calibration = match w.calibrate(
            &parameters,
            &grid,
            &values,
            w.initial_spot(),
            particles,
        ) {
            Err(e) => return Err(e),
            Ok(c) => c,
        };
        proof {
            let calibrate = calibrating::<R, W>(*w);
            assert(calibrate(parameters@, grid@, values@, w.initial_spot_of(), particles) is Ok);
        }
        if let Some(e) = w.pricing_failure(&calibration, &grid) {
            return Err(e);
        }
        let leverage = calibration.squared_leverage();
        let message = make_lsv_message(w, tag, parameters, calibration.particles(), &leverage);
        let quasi_failure = w.quasi_failure(&calibration);
        Ok(
            LsvPricingCore {
                calibration,
                original_target: target,
                engine: q.engine,
                policy: q.policy,
                executor_failure: None,
                quasi_failure,
                bridge_failure: w.bridge_failure(&grid),
                risk_supported: q.pathwise || q.smoothed,
                fingerprint: message.fingerprint(),
                reverse_method: q.reverse_method,
            },
        )
    }
}

/// The tag of a plan with Bergomi factors.
pub open spec fn bergomi_tag(factors: usize) -> &'static str {
    if factors == 1 {
        "pricing/bergomi-lsv-plan/v2\0"
    } else {
        "pricing/bergomi-two-factor-lsv-plan/v2\0"
    }
}

/// A plan whose volatility has Bergomi factors.
pub struct BergomiLsvPricingPlan<C, G> {
    pub core: LsvPricingCore<C, G>,
}

impl<C, G> BergomiLsvPricingPlan<C, G> {
    /// Compiles a request with so many factors of the given parameters.
    pub fn compile<R: Scalar, W: LsvCompiler<R, Calibrated = C>>(
        w: &W,
        q: LsvRequest<G>,
        factors: usize,
        parameters: Vec<R>,
        particles: LsvParticleConfig<R>,
    ) -> (r: Result<Self, MonteCarloError>) where C: LsvModel<R>, G: TargetGrid<R>
        requires
            lsv_refinable(*w, q),
        ensures
            r matches Ok(p) ==> lsv_compiled(
                *w,
                q,
                bergomi_tag(factors),
                parameters@,
                particles,
                p.core,
            ),
            r matches Ok(p) ==> p.core.calibration.particles_of() == particles,
            r matches Err(e) ==> lsv_calibrated(*w, q, parameters@, particles) == Err::<
                C,
                MonteCarloError,
            >(e),
            keeps_traces_apart::<R, W>(*w),
    {
        let tag = if factors == 1 {
            "pricing/bergomi-lsv-plan/v2\0"
        } else {
            "pricing/bergomi-two-factor-lsv-plan/v2\0"
        };
        match LsvPricingCore::compile(w, q, tag, parameters, particles) {
            Err(e) => Err(e),
            Ok(core) => Ok(BergomiLsvPricingPlan { core }),
        }
    }

    /// The calibrated model.
    pub fn calibration(&self) -> (c: &C)
        ensures
            *c == self.core.calibration,
    {
        &self.core.calibration
    }

    /// The digest of everything that determines the plan.
    pub fn plan_fingerprint(&self) -> (f: Fingerprint)
        ensures
            f == self.core.fingerprint,
    {
        self.core.fingerprint
    }

    /// How the paths are shared out.
    pub fn execution_policy(&self) -> (p: ExecutionPolicy)
        ensures
            p == self.core.policy,
    {
        self.core.policy
    }

    /// Prices the plan.
    pub fn evaluate<R: Scalar, M: Math<R>, B: Backend<R>>(&self, m: &M, b: &B) -> (r: Result<
        LsvPrice<R>,
        MonteCarloError,
    >) where C: LsvPriceModel<R>
        requires
            self.core.priceable::<R>(),
        ensures
            r == lsv_evaluated(m.model(), *b, self.core),
    {
        self.core.evaluate(m, b)
    }

    /// The derivatives with respect to the local variances that were calibrated to.
    pub fn evaluate_local_variance_risk<R: Scalar, M: Math<R>, B: Backend<R>>(
        &self,
        m: &M,
        b: &B,
    ) -> (r: Result<LsvLocalVarianceRisk<R>, MonteCarloError>) where
        C: LsvModel<R>,
        G: TargetGrid<R>,

        requires
            self.core.valid::<R>(),
        ensures
            viewed(r) == lsv_local_variance(m.model(), *b, self.core),
            r matches Ok(risk) ==> risk@.node_adjoints.len()
                == self.core.original_target.values_of().len(),
    {
        self.core.evaluate_local_variance_risk(m, b)
    }
}

/// A plan whose volatility is rough.
pub struct RoughBergomiLsvPricingPlan<C, G> {
    pub core: LsvPricingCore<C, G>,
}

impl<C, G> RoughBergomiLsvPricingPlan<C, G> {
    /// Compiles a request. The rough driver starts at the valuation.
    pub fn compile<R: Scalar, W: LsvCompiler<R, Calibrated = C>>(
        w: &W,
        q: LsvRequest<G>,
        model: RoughBergomi<R>,
        particles: LsvParticleConfig<R>,
    ) -> (r: Result<Self, MonteCarloError>) where C: LsvModel<R>, G: TargetGrid<R>
        requires
            lsv_refinable(*w, q),
        ensures
            r matches Ok(p) ==> lsv_compiled(
                *w,
                q,
                "pricing/rough-bergomi-lsv-plan/v2\0",
                seq![model.hurst, model.vol_of_vol, model.correlation],
                particles,
                p.core,
            ),
            r matches Ok(p) ==> p.core.calibration.particles_of() == particles,
            r matches Err(e) ==> lsv_calibrated(
                *w,
                q,
                seq![model.hurst, model.vol_of_vol, model.correlation],
                particles,
            ) == Err::<C, MonteCarloError>(e),
            keeps_traces_apart::<R, W>(*w),
    {
        let parameters: Vec<R> = vec![model.hurst, model.vol_of_vol, model.correlation];
        assert(parameters@ =~= seq![model.hurst, model.vol_of_vol, model.correlation]);
        let tag = "pricing/rough-bergomi-lsv-plan/v2\0";
        match LsvPricingCore::compile(w, q, tag, parameters, particles) {
            Err(e) => Err(e),
            Ok(core) => Ok(RoughBergomiLsvPricingPlan { core }),
        }
    }

    /// The calibrated model.
    pub fn calibration(&self) -> (c: &C)
        ensures
            *c == self.core.calibration,
    {
        &self.core.calibration
    }

    /// The digest of everything that determines the plan.
    pub fn plan_fingerprint(&self) -> (f: Fingerprint)
        ensures
            f == self.core.fingerprint,
    {
        self.core.fingerprint
    }

    /// How the paths are shared out.
    pub fn execution_policy(&self) -> (p: ExecutionPolicy)
        ensures
            p == self.core.policy,
    {
        self.core.policy
    }

    /// Prices the plan.
    pub fn evaluate<R: Scalar, M: Math<R>, B: Backend<R>>(&self, m: &M, b: &B) -> (r: Result<
        LsvPrice<R>,
        MonteCarloError,
    >) where C: LsvPriceModel<R>
        requires
            self.core.priceable::<R>(),
        ensures
            r == lsv_evaluated(m.model(), *b, self.core),
    {
        self.core.evaluate(m, b)
    }

    /// The derivatives with respect to the local variances that were calibrated to.
    pub fn evaluate_local_variance_risk<R: Scalar, M: Math<R>, B: Backend<R>>(
        &self,
        m: &M,
        b: &B,
    ) -> (r: Result<LsvLocalVarianceRisk<R>, MonteCarloError>) where
        C: LsvModel<R>,
        G: TargetGrid<R>,

        requires
            self.core.valid::<R>(),
        ensures
            viewed(r) == lsv_local_variance(m.model(), *b, self.core),
            r matches Ok(risk) ==> risk@.node_adjoints.len()
                == self.core.original_target.values_of().len(),
    {
        self.core.evaluate_local_variance_risk(m, b)
    }
}

/// A request can be compiled with a trace exactly where it can be without, and is refused
/// for the same reason.
pub proof fn retained_trace_is_not_why_a_plan_fails<
    R: Scalar,
    W: LsvCompiler<R>,
    G: TargetGrid<R>,
>(
    w: W,
    q: LsvRequest<G>,
    parameters: Seq<R>,
    a: LsvParticleConfig<R>,
    b: LsvParticleConfig<R>,
)
    requires
        keeps_traces_apart::<R, W>(w),
        trace_aside(a, b),
    ensures
        match (lsv_calibrated(w, q, parameters, a), lsv_calibrated(w, q, parameters, b)) {
            (Ok(c), Ok(d)) => calibrated_alike::<R, W::Calibrated>(
                Ok(c),
                Ok(d),
                |c: W::Calibrated, grid: Seq<R>| w.pricing_failure_of(c, grid),
                |c: W::Calibrated| w.quasi_failure_of(c),
                w.time_grid_of()->Ok_0,
            ) && c.particles_of() == a && d.particles_of() == b,
            (Err(e), Err(f)) => e == f,
            _ => false,
        },
{
    if let (Some(g), Ok(grid)) = (q.target, w.time_grid_of()) {
        if let Ok(values) = refined_values(g, grid) {
            let calibrate = calibrating::<R, W>(w);
            let spot = w.initial_spot_of();
            let c = calibrate(parameters, grid, values, spot, a);
            let d = calibrate(parameters, grid, values, spot, b);
            let pricing = |c: W::Calibrated, grid: Seq<R>| w.pricing_failure_of(c, grid);
            let quasi = |c: W::Calibrated| w.quasi_failure_of(c);
            assert(calibrated_alike::<R, W::Calibrated>(c, d, pricing, quasi, grid));
            if c is Ok {
                assert(pricing(c->Ok_0, grid) == pricing(d->Ok_0, grid));
            }
        }
    }
}

/// A plan that keeps a trace prices as the one that does not, bit for bit, or fails as it
/// does. Only the fingerprints tell them apart.
pub proof fn retained_trace_does_not_move_the_price<
    R: Scalar,
    B: Backend<R>,
    W: LsvCompiler<R>,
    G: TargetGrid<R>,
>(
    m: Model<R>,
    backend: B,
    w: W,
    q: LsvRequest<G>,
    tag: &'static str,
    parameters: Seq<R>,
    a: LsvParticleConfig<R>,
    b: LsvParticleConfig<R>,
    x: LsvPricingCore<W::Calibrated, G>,
    y: LsvPricingCore<W::Calibrated, G>,
)
    requires
        keeps_traces_apart::<R, W>(w),
        trace_aside(a, b),
        lsv_compiled(w, q, tag, parameters, a, x),
        lsv_compiled(w, q, tag, parameters, b, y),
    ensures
        lsv_evaluated(m, backend, y) == (match lsv_evaluated(m, backend, x) {
            Err(e) => Err::<LsvPrice<R>, MonteCarloError>(e),
            Ok(price) => Ok(LsvPrice { plan_fingerprint: y.fingerprint, ..price }),
        }),
{
    retained_trace_is_not_why_a_plan_fails::<R, W, G>(w, q, parameters, a, b);
    let quasi = |c: W::Calibrated| w.quasi_failure_of(c);
    assert(quasi(x.calibration) == quasi(y.calibration));
    plans_that_price_alike::<R, B, W::Calibrated, W::Calibrated, G, G>(m, backend, x, y);
}

/// What identifies a plan tells whether it keeps a trace.
pub proof fn retained_trace_is_identified<R: Scalar, W: LsvCompiler<R>>(
    w: W,
    tag: &'static str,
    parameters: Seq<R>,
    a: LsvParticleConfig<R>,
    b: LsvParticleConfig<R>,
    leverage: Seq<R>,
)
    requires
        trace_aside(a, b),
    ensures
        a.retain_reverse_trace != b.retain_reverse_trace ==> lsv_message(
            w,
            tag,
            parameters,
            a,
            leverage,
        ) != lsv_message(w, tag, parameters, b, leverage),
{
    let start = tag.spec_bytes() + w.base_fingerprint_of().bytes@ + all_be_bytes(
        all_bits(w, parameters.push(a.log_bandwidth).push(a.minimum_effective_samples)),
    ) + be_bytes(a.particle_count) + be_bytes(a.seed);
    let n = start.len() as int;
    assert(lsv_message(w, tag, parameters, a, leverage)[n] == truth_byte(a.retain_reverse_trace));
    assert(lsv_message(w, tag, parameters, b, leverage)[n] == truth_byte(b.retain_reverse_trace));
}

} // verus!
