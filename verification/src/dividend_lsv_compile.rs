//! The compilation of dividend plans whose residual equity has a leverage surface.

use crate::compile_world::{CompileWorld, PlanRequest};
use crate::dividend_compile::{
    attach_volatility, base_message, check_quasi, draws_fit, finish_base_message, make_plan,
    moved_path, plan_on, unsupported_request, volatility_digest,
};
use crate::dividend_compiler::DividendCompiler;
use crate::errors::{invalid, invalid_field, unsupported_feature, MonteCarloError};
use crate::fingerprint::{all_le_bytes, blake3_digest, le_bytes, Message};
use crate::hw_plan::{bits_all, keep_until, push_numbers, until};
use crate::hybrid_aad::append;
use crate::linear::viewed;
use crate::lsv_model::LsvParticleConfig;
use crate::lsv_plan::truth_byte;
use crate::models::{
    Bergomi1Factor, Bergomi2Factor, BuehlerDividendModel, Fingerprint, LsvCalibration, Pair,
};
use crate::plan::StochasticDividendPricingPlan;
use crate::reverse::DividendPath;
use crate::scalar::{le, literal, Math, Scalar};
use crate::target_grid::{refinable, refine, refined_values, TargetGrid};
use vstd::prelude::*;
use vstd::string::*;

verus! {

/// What a leverage plan is calibrated from: its path before any volatility is attached,
/// and its target on the times of that path.
pub struct LsvBase<R, L> {
    pub path: DividendPath<R, L>,
    pub grid: Vec<R>,
    pub values: Vec<R>,
}

/// An [`LsvBase`] as a mathematical value.
pub ghost struct LsvBaseView<R, L> {
    pub path: DividendPath<R, L>,
    pub grid: Seq<R>,
    pub values: Seq<R>,
}

impl<R, L> View for LsvBase<R, L> {
    type V = LsvBaseView<R, L>;

    open spec fn view(&self) -> LsvBaseView<R, L> {
        LsvBaseView { path: self.path, grid: self.grid@, values: self.values@ }
    }
}

/// Why a request is refused before anything is compiled.
pub open spec fn lsv_base_refusal<R: Scalar, G>(q: PlanRequest<R>, target: Option<G>) -> Option<
    MonteCarloError,
> {
    if q.delta || q.gamma || q.vega {
        Some(
            unsupported_feature(
                "Delta, Gamma and scalar Vega for residual-equity LSV; use the dedicated recalibration-aware risk methods",
            ),
        )
    } else if target is None {
        Some(
            unsupported_feature(
                "residual-equity LSV requires a LocalVolatility calibration target",
            ),
        )
    } else if le(q.expiry, literal(0)) {
        Some(invalid_field("positive_horizon"))
    } else {
        None
    }
}

/// The times that the grid of a leverage plan has to hold, up to the expiry: those of
/// the product and of the target, and the dates of the dividends.
pub open spec fn lsv_required<R: Scalar>(
    product: Seq<R>,
    target: Seq<R>,
    dates: Seq<R>,
    expiry: R,
) -> Seq<R> {
    (until(product, expiry) + until(target, expiry) + until(dates, expiry)).push(expiry)
}

/// What a request is calibrated from, or why it is refused.
pub open spec fn lsv_base<
    R: Scalar,
    Z: CompileWorld<R>,
    K: DividendCompiler<R>,
    G: TargetGrid<R>,
>(
    z: Z,
    k: K,
    q: PlanRequest<R>,
    target: Option<G>,
    model: BuehlerDividendModel<R>,
    maximum_step: R,
) -> Result<LsvBaseView<R, K::Surface>, MonteCarloError> {
    match lsv_base_refusal(q, target) {
        Some(e) => Err(e),
        None => match z.observation_times_of() {
            Err(e) => Err(e),
            Ok(_) => match k.lsv_time_grid_of() {
                Err(e) => Err(e),
                Ok(product) => match z.grid_of(
                    lsv_required(
                        product,
                        target->0.time_nodes_of(),
                        k.event_times_of(),
                        q.expiry,
                    ),
                    maximum_step,
                ) {
                    Err(e) => Err(e),
                    Ok(grid) => match refined_values(target->0, grid) {
                        Err(e) => Err(e),
                        Ok(values) => match k.refined_refusal_of(grid, values) {
                            Some(e) => Err(e),
                            None => match k.path_of(model, literal(0), grid) {
                                Err(e) => Err(e),
                                Ok(path) => Ok(LsvBaseView { path, grid, values }),
                            },
                        },
                    },
                },
            },
        },
    }
}

/// The target can be refined to any grid that the request may lead to.
pub open spec fn target_refinable<
    R: Scalar,
    Z: CompileWorld<R>,
    G: TargetGrid<R>,
>(z: Z, target: Option<G>, maximum_step: R) -> bool {
    target matches Some(g) ==> forall|required: Seq<R>|
        #[trigger] z.grid_of(required, maximum_step) matches Ok(grid) ==> refinable(g, grid)
}

/// The digest of a plan before any volatility is attached.
pub open spec fn lsv_base_digest<R: Scalar, Z: CompileWorld<R>>(
    z: Z,
    model: BuehlerDividendModel<R>,
    maximum_step: R,
    nodes: Seq<R>,
) -> Seq<u8> {
    blake3_digest(
        base_message(
            z,
            "buehler-residual-lsv-base-v1".spec_bytes(),
            model,
            maximum_step,
            nodes,
        ),
    )
}

/// The digest of a plan whose particles were added to one with the digest `before`.
pub open spec fn particle_digest<R: Scalar, Z: CompileWorld<R>>(
    z: Z,
    before: Seq<u8>,
    particles: LsvParticleConfig<R>,
) -> Seq<u8> {
    blake3_digest(
        before + "particle-calibration-v1".spec_bytes() + le_bytes(particles.particle_count)
            + le_bytes(particles.seed) + all_le_bytes(
            bits_all(
                z,
                seq![particles.log_bandwidth, particles.minimum_effective_samples],
            ),
        ) + seq![truth_byte(particles.retain_reverse_trace)],
    )
}

fn attach_particles<R: Scalar, Z: CompileWorld<R>>(
    z: &Z,
    before: &Fingerprint,
    particles: LsvParticleConfig<R>,
) -> (f: Fingerprint)
    ensures
        f.bytes@ == particle_digest(*z, before.bytes@, particles),
{
    let mut message = Message::new();
    message.push_fingerprint(before);
    assert(message@ =~= before.bytes@);
    message.push_text("particle-calibration-v1");
    message.push_u64(particles.particle_count);
    message.push_u64(particles.seed);
    let numbers: Vec<R> = vec![particles.log_bandwidth, particles.minimum_effective_samples];
    assert(numbers@ =~= seq![particles.log_bandwidth, particles.minimum_effective_samples]);
    push_numbers(z, &mut message, &numbers);
    let ghost so_far = message@;
    let byte: u8 = if particles.retain_reverse_trace {
        1
    } else {
        0
    };
    message.push_byte(byte);
    assert(message@ =~= so_far + seq![truth_byte(particles.retain_reverse_trace)]);
    message.fingerprint()
}

/// The path of a leverage plan, or why it is refused: what it is calibrated from, its
/// executor, its calibration, and the path with the surface.
pub open spec fn lsv_path<R: Scalar, Z: CompileWorld<R>, L>(
    z: Z,
    q: PlanRequest<R>,
    base: Result<LsvBaseView<R, L>, MonteCarloError>,
    calibrated: spec_fn(LsvBaseView<R, L>) -> Result<L, MonteCarloError>,
    attached: spec_fn(DividendPath<R, L>, L) -> Result<DividendPath<R, L>, MonteCarloError>,
) -> Result<DividendPath<R, L>, MonteCarloError> {
    match base {
        Err(e) => Err(e),
        Ok(base) => match z.executor_failure_of() {
            Some(e) => Err(e),
            None => match calibrated(base) {
                Err(e) => Err(e),
                Ok(surface) => moved_path(
                    z,
                    q.engine,
                    Ok(base.path),
                    |path: DividendPath<R, L>| attached(path, surface),
                ),
            },
        },
    }
}

impl<R: Scalar, L> StochasticDividendPricingPlan<R, DividendPath<R, L>> {
    fn compile_lsv_base<
        M: Math<R>,
        Z: CompileWorld<R>,
        K: DividendCompiler<R, Surface = L>,
        G: TargetGrid<R>,
    >(
        m: &M,
        z: &Z,
        k: &K,
        q: &PlanRequest<R>,
        target: &Option<G>,
        model: BuehlerDividendModel<R>,
        maximum_step: R,
    ) -> (r: Result<LsvBase<R, L>, MonteCarloError>)
        requires
            target_refinable(*z, *target, maximum_step),
        ensures
            viewed(r) == lsv_base(*z, *k, *q, *target, model, maximum_step),
            r matches Ok(b) ==> b.path@.valid() && b.path.dimension <= u32::MAX,
    {
        m.laws();
        if q.delta || q.gamma || q.vega {
            return Err(
                unsupported_request(
                    "Delta, Gamma and scalar Vega for residual-equity LSV; use the dedicated recalibration-aware risk methods",
                ),
            );
        }
        let g = match target {
            None => return Err(
                unsupported_request(
                    "residual-equity LSV requires a LocalVolatility calibration target",
                ),
            ),
            Some(g) => g,
        };
        if q.expiry <= R::from(0u32) {
            return Err(invalid("positive_horizon"));
        }
        if let Err(e) = z.observation_times() {
            return Err(e);
        }
        let product = match k.lsv_time_grid() {
            Err(e) => return Err(e),
            Ok(v) => v,
        };
        let mut required = keep_until(m, &product, q.expiry);
        append(&mut required, &keep_until(m, &g.time_nodes(), q.expiry));
        append(&mut required, &keep_until(m, &k.event_times(), q.expiry));
        required.push(q.expiry);
        let grid = match z.grid(&required, maximum_step) {
            Err(e) => return Err(e),
            Ok(v) => v,
        };
        assert(z.grid_of(required@, maximum_step) == Ok::<Seq<R>, MonteCarloError>(grid@));
        let values = match refine(g, &grid) {
            Err(e) => return Err(e),
            Ok(v) => v,
        };
        if let Some(e) = k.refined_refusal(&grid, &values) {
            return Err(e);
        }
        match k.path(model, R::from(0u32), &grid) {
            Err(e) => Err(e),
            Ok(path) => Ok(LsvBase { path, grid, values }),
        }
    }

    fn finish_lsv<Z: CompileWorld<R>, K: DividendCompiler<R, Surface = L>>(
        z: &Z,
        k: &K,
        q: &PlanRequest<R>,
        model: BuehlerDividendModel<R>,
        maximum_step: R,
        nodes: &Vec<R>,
        path: DividendPath<R, L>,
        lsv: LsvCalibration<R>,
        particles: LsvParticleConfig<R>,
    ) -> (p: Self)
        requires
            draws_fit(),
            path@.valid(),
            path.dimension <= u32::MAX,
        ensures
            plan_on(
                *z,
                *k,
                *q,
                model,
                path,
                Some(lsv),
                particle_digest(
                    *z,
                    volatility_digest(
                        *k,
                        lsv_base_digest(*z, model, maximum_step, nodes@),
                        path,
                    ),
                    particles,
                ),
                p,
            ),
    {
        let mut head = Message::new();
        head.push_text("buehler-residual-lsv-base-v1");
        assert(head@ =~= "buehler-residual-lsv-base-v1".spec_bytes());
        let message = finish_base_message(z, head, model, maximum_step, nodes);
        let before = attach_volatility(k, &message.fingerprint(), &path);
        let fingerprint = attach_particles(z, &before, particles);
        make_plan(z, k, q, model, path, Some(lsv), fingerprint)
    }
}

impl<R: Scalar, L> StochasticDividendPricingPlan<R, DividendPath<R, L>> {
    /// Compiles a request with one volatility factor and a surface that is calibrated to the
    /// local variances of the residual equity.
    pub fn compile_bergomi_lsv<
        M: Math<R>,
        Z: CompileWorld<R>,
        K: DividendCompiler<R, Surface = L>,
        G: TargetGrid<R>,
    >(
        m: &M,
        z: &Z,
        k: &K,
        q: &PlanRequest<R>,
        target: &Option<G>,
        model: BuehlerDividendModel<R>,
        factor: Bergomi1Factor<R>,
        dividend_volatility_correlation: R,
        particles: LsvParticleConfig<R>,
        maximum_step: R,
    ) -> (r: Result<Self, MonteCarloError>)
        requires
            draws_fit(),
            target_refinable(*z, *target, maximum_step),
        ensures
            match (
                r,
                lsv_path(
                    *z,
                    *q,
                    lsv_base(*z, *k, *q, *target, model, maximum_step),
                    |base: LsvBaseView<R, L>|
                        k.calibration_one(
                            base.grid,
                            base.values,
                            factor,
                            k.risky_spot_of(base.path),
                            particles,
                        ),
                    |path: DividendPath<R, L>, surface: L|
                        k.bergomi_lsv_path(path, factor, dividend_volatility_correlation, surface),
                ),
            ) {
                (Ok(p), Ok(path)) => plan_on(
                    *z,
                    *k,
                    *q,
                    model,
                    path,
                    Some(LsvCalibration::One { factor, dividend_volatility_correlation }),
                    particle_digest(
                        *z,
                        volatility_digest(
                            *k,
                            lsv_base_digest(
                                *z,
                                model,
                                maximum_step,
                                lsv_base(
                                    *z,
                                    *k,
                                    *q,
                                    *target,
                                    model,
                                    maximum_step,
                                )->Ok_0.path.times@,
                            ),
                            path,
                        ),
                        particles,
                    ),
                    p,
                ),
                (Err(e), Err(f)) => e == f,
                _ => false,
            },
    {
        let base = match Self::compile_lsv_base(m, z, k, q, target, model, maximum_step) {
            Err(e) => return Err(e),
            Ok(b) => b,
        };
        if let Some(e) = z.executor_failure() {
            return Err(e);
        }
        let surface = match k.calibrate_one(
            &base.grid,
            &base.values,
            factor,
            k.risky_spot(&base.path),
            particles,
        ) {
            Err(e) => return Err(e),
            Ok(s) => s,
        };
        let path = match k.with_bergomi_lsv(
            &base.path,
            factor,
            dividend_volatility_correlation,
            surface,
        ) {
            Err(e) => return Err(e),
            Ok(p) => p,
        };
        if let Some(e) = check_quasi(z, &q.engine, path.dimension) {
            return Err(e);
        }
        let lsv = LsvCalibration::One { factor, dividend_volatility_correlation };
        Ok(
            Self::finish_lsv(
                z,
                k,
                q,
                model,
                maximum_step,
                &base.path.times,
                path,
                lsv,
                particles,
            ),
        )
    }

    /// Compiles a request with two volatility factors and a calibrated surface.
    pub fn compile_bergomi_two_factor_lsv<
        M: Math<R>,
        Z: CompileWorld<R>,
        K: DividendCompiler<R, Surface = L>,
        G: TargetGrid<R>,
    >(
        m: &M,
        z: &Z,
        k: &K,
        q: &PlanRequest<R>,
        target: &Option<G>,
        model: BuehlerDividendModel<R>,
        factor: Bergomi2Factor<R>,
        dividend_volatility_correlations: Pair<R>,
        particles: LsvParticleConfig<R>,
        maximum_step: R,
    ) -> (r: Result<Self, MonteCarloError>)
        requires
            draws_fit(),
            target_refinable(*z, *target, maximum_step),
        ensures
            match (
                r,
                lsv_path(
                    *z,
                    *q,
                    lsv_base(*z, *k, *q, *target, model, maximum_step),
                    |base: LsvBaseView<R, L>|
                        k.calibration_two(
                            base.grid,
                            base.values,
                            factor,
                            k.risky_spot_of(base.path),
                            particles,
                        ),
                    |path: DividendPath<R, L>, surface: L|
                        k.two_factor_lsv_path(
                            path,
                            factor,
                            dividend_volatility_correlations,
                            surface,
                        ),
                ),
            ) {
                (Ok(p), Ok(path)) => plan_on(
                    *z,
                    *k,
                    *q,
                    model,
                    path,
                    Some(LsvCalibration::Two { factor, dividend_volatility_correlations }),
                    particle_digest(
                        *z,
                        volatility_digest(
                            *k,
                            lsv_base_digest(
                                *z,
                                model,
                                maximum_step,
                                lsv_base(
                                    *z,
                                    *k,
                                    *q,
                                    *target,
                                    model,
                                    maximum_step,
                                )->Ok_0.path.times@,
                            ),
                            path,
                        ),
                        particles,
                    ),
                    p,
                ),
                (Err(e), Err(f)) => e == f,
                _ => false,
            },
    {
        let base = match Self::compile_lsv_base(m, z, k, q, target, model, maximum_step) {
            Err(e) => return Err(e),
            Ok(b) => b,
        };
        if let Some(e) = z.executor_failure() {
            return Err(e);
        }
        let surface = match k.calibrate_two(
            &base.grid,
            &base.values,
            factor,
            k.risky_spot(&base.path),
            particles,
        ) {
            Err(e) => return Err(e),
            Ok(s) => s,
        };
        let path = match k.with_bergomi_two_factor_lsv(
            &base.path,
            factor,
            dividend_volatility_correlations,
            surface,
        ) {
            Err(e) => return Err(e),
            Ok(p) => p,
        };
        if let Some(e) = check_quasi(z, &q.engine, path.dimension) {
            return Err(e);
        }
        let lsv = LsvCalibration::Two { factor, dividend_volatility_correlations };
        Ok(
            Self::finish_lsv(
                z,
                k,
                q,
                model,
                maximum_step,
                &base.path.times,
                path,
                lsv,
                particles,
            ),
        )
    }
}

} // verus!
