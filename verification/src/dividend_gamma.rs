//! Gamma of a stochastic-dividend plan: central differences of its spot
//! derivative under common shocks, on a ladder of three bumps.

use crate::dividend_price::{plan_spots, read_spots};
use crate::dynamics::DividendDynamics;
use crate::engine::paths_fit;
use crate::errors::{invalid, invalid_field, unsupported_risk, MonteCarloError};
use crate::estimation::{
    estimate, estimate_together, estimated, estimated_together, simulate, simulated, Job,
};
use crate::fingerprint::{all_le_bytes, blake3_digest, Message};
use crate::linear::{build, collect, collect_views, hundredth, viewed, views};
use crate::market::CarryMarket;
use crate::models::{BuehlerDividendState, Fingerprint, LsvCalibration};
use crate::plan::{
    engine_paths, engine_units, price_of, StochasticDividendPrice, StochasticDividendPricingPlan,
};
use crate::plan_world::{market_sized, PlanWorld};
use crate::results::gather;
use crate::reverse::{context_of, spot_pullback_of, ContextView, DividendPath, ReverseContext};
use crate::sampling::{half, Backend, Contribution, Quantities};
use crate::scalar::{
    all_finite, ge, gt, le, literal, minus, over, plus, times, Math, Model, Scalar,
};
use crate::simulation::{resolve_spot_bump, resolved_bump, SpotBump};
use vstd::prelude::*;
use vstd::string::*;

verus! {

/// Gamma on a ladder of three spot bumps, with the gaps between them.
pub struct StochasticDividendGammaRisk<R> {
    pub price: StochasticDividendPrice<R>,
    pub delta: R,
    pub delta_standard_error: R,
    pub spot: R,
    pub spot_bumps: Vec<R>,
    pub gamma_estimates: Vec<R>,
    pub gamma_standard_errors: Vec<R>,
    pub bump_differences: Vec<R>,
    pub bump_difference_standard_errors: Vec<R>,
    pub payoff_evaluations: u128,
    pub risk_fingerprint: Fingerprint,
    pub method: &'static str,
}

/// A [`StochasticDividendGammaRisk`] as a mathematical value.
pub ghost struct GammaRiskView<R> {
    pub price: StochasticDividendPrice<R>,
    pub delta: R,
    pub delta_standard_error: R,
    pub spot: R,
    pub spot_bumps: Seq<R>,
    pub gamma_estimates: Seq<R>,
    pub gamma_standard_errors: Seq<R>,
    pub bump_differences: Seq<R>,
    pub bump_difference_standard_errors: Seq<R>,
    pub payoff_evaluations: int,
    pub risk_fingerprint: Seq<u8>,
    pub method: &'static str,
}

impl<R> View for StochasticDividendGammaRisk<R> {
    type V = GammaRiskView<R>;

    open spec fn view(&self) -> GammaRiskView<R> {
        GammaRiskView {
            price: self.price,
            delta: self.delta,
            delta_standard_error: self.delta_standard_error,
            spot: self.spot,
            spot_bumps: self.spot_bumps@,
            gamma_estimates: self.gamma_estimates@,
            gamma_standard_errors: self.gamma_standard_errors@,
            bump_differences: self.bump_differences@,
            bump_difference_standard_errors: self.bump_difference_standard_errors@,
            payoff_evaluations: self.payoff_evaluations as int,
            risk_fingerprint: self.risk_fingerprint.bytes@,
            method: self.method,
        }
    }
}

impl<R> GammaRiskView<R> {
    /// There is an estimate for each of the three bumps, and a difference for each gap
    /// between them.
    pub open spec fn valid(self) -> bool {
        &&& self.spot_bumps.len() == 3
        &&& self.gamma_estimates.len() == 3
        &&& self.gamma_standard_errors.len() == 3
        &&& self.bump_differences.len() == 2
        &&& self.bump_difference_standard_errors.len() == 2
    }
}

impl<R: Scalar> StochasticDividendGammaRisk<R> {
    /// Gamma at the middle bump.
    pub fn gamma(&self) -> (x: R)
        requires
            self@.valid(),
        ensures
            x == self@.gamma_estimates[1],
    {
        self.gamma_estimates[1]
    }

    /// The standard error of gamma at the middle bump.
    pub fn standard_error(&self) -> (x: R)
        requires
            self@.valid(),
        ensures
            x == self@.gamma_standard_errors[1],
    {
        self.gamma_standard_errors[1]
    }

    /// The change of the spot derivative over one percent of the spot.
    pub fn delta_change_per_one_percent_spot<M: Math<R>>(&self, m: &M) -> (x: R)
        requires
            self@.valid(),
        ensures
            x == times(times(hundredth(), self@.spot), self@.gamma_estimates[1]),
            x == delta_change(self@.spot, self@.gamma_estimates[1]),
    {
        m.laws();
        let gamma = self.gamma();
        (R::from(1u32) / R::from(100u32)) * self.spot * gamma
    }
}

/// The change of the spot derivative over one percent of the spot.
pub open spec fn delta_change<R: Scalar>(spot: R, gamma: R) -> R {
    times(times(hundredth(), spot), gamma)
}

/// The names that the failures of a gamma carry.
pub struct GammaFields {
    pub spot_bump: &'static str,
    pub shifted_spot: &'static str,
    pub sample: &'static str,
    pub estimator: &'static str,
    pub method: &'static str,
}

/// A plan in another market, with what its derivatives need.
pub struct Scenario<R, L> {
    pub path: DividendPath<R, L>,
    pub reverse: ReverseContext<R>,
}

/// A [`Scenario`] as a mathematical value.
pub ghost struct ScenarioView<R, L> {
    pub path: DividendPath<R, L>,
    pub reverse: ContextView<R>,
}

impl<R, L> View for Scenario<R, L> {
    type V = ScenarioView<R, L>;

    open spec fn view(&self) -> ScenarioView<R, L> {
        ScenarioView { path: self.path, reverse: self.reverse@ }
    }
}

/// A context that a spot derivative can be taken with.
pub open spec fn spot_ready<R>(k: ContextView<R>) -> bool {
    &&& 1 <= k.nodes.len()
    &&& 5 <= k.base()
    &&& forall|i: int| 0 <= i < k.nodes.len() ==> (#[trigger] k.nodes[i]).of(k.base())
}

/// The three bumps: half of one, the bump itself, and its double.
pub open spec fn ladder<R: Scalar>(h: R) -> Seq<R> {
    seq![times(half(), h), h, times(literal(2), h)]
}

/// A bump that moves the spot both ways by a finite amount.
pub open spec fn bump_moves<R: Scalar>(m: Model<R>, spot: R, h: R) -> bool {
    &&& m.is_finite(h)
    &&& !le(h, literal(0))
    &&& m.is_finite(times(literal(2), h))
    &&& !ge(minus(spot, h), spot)
    &&& !le(plus(spot, h), spot)
}

/// The spot of the scenario `q`: down and up by each bump in turn.
pub open spec fn scenario_spot<R: Scalar>(spot: R, bumps: Seq<R>, q: int) -> R {
    if q % 2 == 0 {
        minus(spot, bumps[q / 2])
    } else {
        plus(spot, bumps[q / 2])
    }
}

/// The path of a calibrated plan in a market: its leverage surface is anchored anew at
/// the residual equity of the market, and attached with the factors that it was
/// calibrated with.
pub open spec fn reanchored_path<R: Scalar, W: PlanWorld<R>>(
    w: W,
    calibration: LsvCalibration<R>,
    market: W::Market,
) -> Result<DividendPath<R, W::Surface>, MonteCarloError> {
    match w.residual_base_of(market) {
        Err(e) => Err(e),
        Ok(base) => match w.surface_anchored(w.residual_equity_of(base)) {
            Err(e) => Err(e),
            Ok(surface) => match calibration {
                LsvCalibration::One { factor, dividend_volatility_correlation } => w.one_attached(
                    base,
                    factor,
                    dividend_volatility_correlation,
                    surface,
                ),
                LsvCalibration::Two { factor, dividend_volatility_correlations } => w.two_attached(
                    base,
                    factor,
                    dividend_volatility_correlations,
                    surface,
                ),
                LsvCalibration::Rough {
                    factor,
                    dividend_volatility_correlation,
                } => w.rough_attached(
                    base,
                    factor,
                    dividend_volatility_correlation,
                    surface,
                ),
            },
        },
    }
}

/// Computes [`reanchored_path`].
fn reanchor_path<R: Scalar, W: PlanWorld<R>>(
    w: &W,
    calibration: LsvCalibration<R>,
    market: &W::Market,
) -> (r: Result<DividendPath<R, W::Surface>, MonteCarloError>)
    ensures
        r == reanchored_path(*w, calibration, *market),
        r matches Ok(p) ==> p@.valid(),
{
    let base = match w.residual_base(market) {
        Err(e) => return Err(e),
        Ok(p) => p,
    };
    let surface = match w.anchor(w.residual_equity(&base)) {
        Err(e) => return Err(e),
        Ok(s) => s,
    };
    match calibration {
        LsvCalibration::One { factor, dividend_volatility_correlation } => w.attach_one(
            &base,
            factor,
            dividend_volatility_correlation,
            surface,
        ),
        LsvCalibration::Two { factor, dividend_volatility_correlations } => w.attach_two(
            &base,
            factor,
            dividend_volatility_correlations,
            surface,
        ),
        LsvCalibration::Rough { factor, dividend_volatility_correlation } => w.attach_rough(
            &base,
            factor,
            dividend_volatility_correlation,
            surface,
        ),
    }
}

/// The path of a plan in a market: the plain one, or the one whose leverage
/// surface is anchored anew.
pub open spec fn moved_path<R: Scalar, W: PlanWorld<R>>(
    w: W,
    residual: Option<LsvCalibration<R>>,
    market: W::Market,
    dimension: usize,
) -> Result<DividendPath<R, W::Surface>, MonteCarloError> {
    match residual {
        Some(calibration) => match reanchored_path(w, calibration, market) {
            Err(e) => Err(e),
            Ok(path) => if path.dimension != dimension {
                Err(invalid_field("lsv_gamma_random_dimension"))
            } else {
                Ok(path)
            },
        },
        None => w.path_moved(market),
    }
}

/// The scenario `q`: its bump is checked first, then its spot, then the plan is
/// moved there.
pub open spec fn scenario_of<R: Scalar, Y: DividendDynamics<R>, W: PlanWorld<R>>(
    m: Model<R>,
    y: Y,
    w: W,
    residual: Option<LsvCalibration<R>>,
    spot: R,
    bumps: Seq<R>,
    dimension: usize,
    payment: R,
    fields: GammaFields,
) -> spec_fn(int) -> Result<ScenarioView<R, W::Surface>, MonteCarloError> {
    |q: int|
        {
            let shifted = scenario_spot(spot, bumps, q);
            if !bump_moves(m, spot, bumps[q / 2]) {
                Err(invalid_field(fields.spot_bump))
            } else if !(m.is_finite(shifted) && gt(shifted, literal(0))) {
                Err(invalid_field(fields.shifted_spot))
            } else {
                match w.market_moved(shifted) {
                    Err(e) => Err(e),
                    Ok(market) => match moved_path(w, residual, market, dimension) {
                        Err(e) => Err(e),
                        Ok(path) => match context_of(y, market, path@, payment) {
                            Err(e) => Err(e),
                            Ok(reverse) => Ok(ScenarioView { path, reverse }),
                        },
                    },
                }
            }
        }
}

/// The payoff of states on a path, and its derivative with respect to the spot.
pub open spec fn spot_adjoint_of<R: Scalar, W: PlanWorld<R>>(
    m: Model<R>,
    w: W,
    s: ScenarioView<R, W::Surface>,
    states: Seq<BuehlerDividendState<R>>,
) -> Result<(R, R), MonteCarloError> {
    match plan_spots(w, s.path.nodes@, states) {
        Err(e) => Err(e),
        Ok(spots) => match w.payoff_adjoints_of(s.path.times@, spots) {
            Err(e) => Err(e),
            Ok((payoff, seeds)) => match spot_pullback_of(m, s.reverse, states, seeds) {
                Err(e) => Err(e),
                Ok(delta) => Ok((payoff, delta)),
            },
        },
    }
}

/// Computes [`spot_adjoint_of`].
pub(crate) fn spot_adjoint<R: Scalar, M: Math<R>, W: PlanWorld<R>>(
    m: &M,
    w: &W,
    path: &DividendPath<R, W::Surface>,
    reverse: &ReverseContext<R>,
    states: &Vec<BuehlerDividendState<R>>,
) -> (r: Result<(R, R), MonteCarloError>)
    requires
        spot_ready(reverse@),
    ensures
        r == spot_adjoint_of(
            m.model(),
            *w,
            (ScenarioView { path: *path, reverse: reverse@ }),
            states@,
        ),
{
    let spots = match read_spots(w, path, states) {
        Err(e) => return Err(e),
        Ok(spots) => spots,
    };
    let (payoff, seeds) = match w.payoff_adjoints(&path.times, &spots) {
        Err(e) => return Err(e),
        Ok(v) => v,
    };
    match reverse.spot_pullback(m, states, &seeds) {
        Err(e) => Err(e),
        Ok(delta) => Ok((payoff, delta)),
    }
}

/// Gamma at the bump `j`: the difference of the spot derivatives, down first.
pub open spec fn gamma_at<R: Scalar, W: PlanWorld<R>>(
    m: Model<R>,
    w: W,
    scenarios: Seq<ScenarioView<R, W::Surface>>,
    bumps: Seq<R>,
    states: Seq<BuehlerDividendState<R>>,
) -> spec_fn(int) -> Result<R, MonteCarloError> {
    |j: int|
        match spot_adjoint_of(m, w, scenarios[2 * j], states) {
            Err(e) => Err(e),
            Ok((_, down)) => match spot_adjoint_of(m, w, scenarios[2 * j + 1], states) {
                Err(e) => Err(e),
                Ok((_, up)) => Ok(over(minus(up, down), times(literal(2), bumps[j]))),
            },
        }
}

/// What one set of shocks contributes: the payoff, the spot derivative, and
/// gamma at each bump. The states are those of the plan in every scenario.
pub open spec fn gamma_terms<R: Scalar, W: PlanWorld<R>>(
    m: Model<R>,
    w: W,
    base: ScenarioView<R, W::Surface>,
    scenarios: Seq<ScenarioView<R, W::Surface>>,
    bumps: Seq<R>,
) -> spec_fn(Seq<R>) -> Result<Seq<R>, MonteCarloError> {
    |shocks: Seq<R>|
        match w.evolution(base.path, shocks) {
            Err(e) => Err(e),
            Ok(states) => match spot_adjoint_of(m, w, base, states) {
                Err(e) => Err(e),
                Ok((price, delta)) => match gather(
                    3,
                    gamma_at(m, w, scenarios, bumps, states),
                ) {
                    Err(e) => Err(e),
                    Ok(gammas) => Ok(seq![price, delta] + gammas),
                },
            },
        }
}

/// The quantities of averaged contributions: the gaps between neighbouring
/// bumps beside them. All have to be finite.
pub open spec fn gamma_finish<R: Scalar>(m: Model<R>, field: &'static str) -> spec_fn(
    Seq<R>,
) -> Result<Seq<R>, MonteCarloError> {
    |row: Seq<R>|
        {
            let all = row + seq![minus(row[2], row[3]), minus(row[3], row[4])];
            if m.all_finite(all) {
                Ok(all)
            } else {
                Err(invalid_field(field))
            }
        }
}

struct GammaContribution<'a, R: Scalar, M: Math<R>, W: PlanWorld<R>> {
    m: &'a M,
    w: &'a W,
    path: &'a DividendPath<R, W::Surface>,
    reverse: &'a ReverseContext<R>,
    scenarios: &'a Vec<Scenario<R, W::Surface>>,
    bumps: &'a Vec<R>,
    field: &'static str,
}

impl<'a, R: Scalar, M: Math<R>, W: PlanWorld<R>> GammaContribution<'a, R, M, W> {
    #[verifier::type_invariant]
    spec fn inv(self) -> bool {
        &&& spot_ready(self.reverse@)
        &&& self.scenarios@.len() == 6
        &&& self.bumps@.len() == 3
        &&& forall|q: int| 0 <= q < 6 ==> spot_ready((#[trigger] self.scenarios@[q]).reverse@)
    }
}

impl<'a, R: Scalar, M: Math<R>, W: PlanWorld<R>> Contribution<R> for GammaContribution<
    'a,
    R,
    M,
    W,
> {
    open spec fn term_count(&self) -> nat {
        5
    }

    closed spec fn quantities(&self) -> Quantities<R> {
        Quantities {
            width: 7,
            terms: gamma_terms(
                self.m.model(),
                *self.w,
                ScenarioView { path: *self.path, reverse: self.reverse@ },
                views(self.scenarios@),
                self.bumps@,
            ),
            finish: gamma_finish(self.m.model(), self.field),
        }
    }

    fn contribute(&self, shocks: &Vec<R>) -> (r: Result<Vec<R>, MonteCarloError>) {
        proof {
            use_type_invariant(self);
        }
        let m = self.m;
        let states = match self.w.evolve_path(self.path, shocks) {
            Err(e) => return Err(e),
            Ok(states) => states,
        };
        let (price, delta) = match spot_adjoint(m, self.w, self.path, self.reverse, &states) {
            Err(e) => return Err(e),
            Ok(v) => v,
        };
        let ghost law = gamma_at(
            m.model(),
            *self.w,
            views(self.scenarios@),
            self.bumps@,
            states@,
        );
        let gammas_at = |j: usize| -> (x: Result<R, MonteCarloError>)
            requires
                j < 3,
            ensures
                x == law(j as int),
            {
                m.laws();
                let lower = &self.scenarios[2 * j];
                let upper = &self.scenarios[2 * j + 1];
                proof {
                    assert(spot_ready(self.scenarios@[2 * j].reverse@));
                    assert(spot_ready(self.scenarios@[2 * j + 1].reverse@));
                    assert(views(self.scenarios@)[2 * j] == lower@);
                    assert(views(self.scenarios@)[2 * j + 1] == upper@);
                }
                let down = match spot_adjoint(m, self.w, &lower.path, &lower.reverse, &states) {
                    Err(e) => return Err(e),
                    Ok((_, d)) => d,
                };
                let up = match spot_adjoint(m, self.w, &upper.path, &upper.reverse, &states) {
                    Err(e) => return Err(e),
                    Ok((_, d)) => d,
                };
                Ok((up - down) / (R::from(2u32) * self.bumps[j]))
            };
        let gammas = match collect(
            3,
            gammas_at,
            Ghost(law),
        ) {
            Err(e) => return Err(e),
            Ok(v) => v,
        };
        let row: Vec<R> = vec![price, delta, gammas[0], gammas[1], gammas[2]];
        assert(row@ =~= seq![price, delta] + gammas@);
        Ok(row)
    }

    fn finish(&self, row: Vec<R>) -> (r: Result<Vec<R>, MonteCarloError>) {
        let m = self.m;
        m.laws();
        let first = row[2] - row[3];
        let second = row[3] - row[4];
        let all: Vec<R> = vec![row[0], row[1], row[2], row[3], row[4], first, second];
        assert(all@ =~= row@ + seq![first, second]);
        if !all_finite(m, all.as_slice()) {
            return Err(invalid(self.field));
        }
        Ok(all)
    }
}

/// The name of a way to give a bump.
pub open spec fn convention_of<R>(bump: SpotBump<R>) -> &'static str {
    match bump {
        SpotBump::Absolute(_) => "absolute",
        SpotBump::Relative(_) => "relative",
    }
}

/// What identifies a gamma: its method, the plan, and the bumps with the way in
/// which they were given.
pub open spec fn gamma_message<R: Scalar, W: PlanWorld<R>>(
    w: W,
    method: &'static str,
    plan: Fingerprint,
    convention: &'static str,
    bumps: Seq<R>,
) -> Seq<u8> {
    method.spec_bytes() + plan.bytes@ + convention.spec_bytes() + all_le_bytes(
        Seq::new(bumps.len(), |i: int| w.bits_of(bumps[i])),
    )
}

/// The failures of a plain gamma.
pub open spec fn plain_fields() -> GammaFields {
    GammaFields {
        spot_bump: "gamma_spot_bump",
        shifted_spot: "gamma_shifted_spot",
        sample: "gamma_sample",
        estimator: "gamma_estimator",
        method: "buehler-common-noise-aad-delta-gamma-v1",
    }
}

/// The failures of the gamma of a leverage surface.
pub open spec fn residual_fields() -> GammaFields {
    GammaFields {
        spot_bump: "lsv_gamma_spot_bump",
        shifted_spot: "lsv_gamma_shifted_spot",
        sample: "lsv_gamma_sample",
        estimator: "lsv_gamma_estimator",
        method: "buehler-residual-lsv-scale-invariant-aad-delta-gamma-v1",
    }
}

/// The estimates of a gamma.
pub open spec fn gamma_estimated<R: Scalar, B: Backend<R>>(
    m: Model<R>,
    b: B,
    q: Quantities<R>,
    job: Job,
    residual: Option<LsvCalibration<R>>,
    fields: GammaFields,
) -> Result<(Seq<R>, Seq<R>), MonteCarloError> {
    match job.executor_failure {
        Some(e) => Err(e),
        None => match simulated(m, b, q, job) {
            Err(e) => Err(e),
            Ok(s) => if residual is Some {
                estimated(
                    m,
                    s,
                    job.engine.units(),
                    "lsv_gamma_standard_error",
                    fields.estimator,
                )
            } else {
                estimated_together(m, s, job.engine.units(), fields.estimator)
            },
        },
    }
}

/// The numbers of a gamma: every scenario is made before the plan's own
/// derivatives are prepared, and both before anything is simulated.
pub open spec fn gamma_evaluated<
    R: Scalar,
    B: Backend<R>,
    Y: DividendDynamics<R>,
    W: PlanWorld<R>,
>(
    m: Model<R>,
    b: B,
    y: Y,
    w: W,
    market: W::Market,
    plan: StochasticDividendPricingPlan<R, DividendPath<R, W::Surface>>,
    bump: SpotBump<R>,
    residual: Option<LsvCalibration<R>>,
    fields: GammaFields,
) -> Result<GammaRiskView<R>, MonteCarloError> {
    let spot = market.spot_of();
    let bumps = ladder(resolved_bump(bump, spot));
    match gather(
        6,
        scenario_of(
            m,
            y,
            w,
            residual,
            spot,
            bumps,
            plan.path.dimension,
            plan.payment_time,
            fields,
        ),
    ) {
        Err(e) => Err(e),
        Ok(scenarios) => match context_of(y, market, plan.path@, plan.payment_time) {
            Err(e) => Err(e),
            Ok(reverse) => match gamma_estimated(
                m,
                b,
                Quantities {
                    width: 7,
                    terms: gamma_terms(
                        m,
                        w,
                        ScenarioView { path: plan.path, reverse },
                        scenarios,
                        bumps,
                    ),
                    finish: gamma_finish(m, fields.sample),
                },
                plan.job,
                residual,
                fields,
            ) {
                Err(e) => Err(e),
                Ok((values, errors)) => Ok(
                    GammaRiskView {
                        price: price_of(plan, values[0], errors[0]),
                        delta: values[1],
                        delta_standard_error: errors[1],
                        spot,
                        spot_bumps: bumps,
                        gamma_estimates: values.subrange(2, 5),
                        gamma_standard_errors: errors.subrange(2, 5),
                        bump_differences: values.subrange(5, 7),
                        bump_difference_standard_errors: errors.subrange(5, 7),
                        payoff_evaluations: 7 * plan.job.engine.paths(),
                        risk_fingerprint: blake3_digest(
                            gamma_message(
                                w,
                                fields.method,
                                plan.fingerprint,
                                convention_of(bump),
                                bumps,
                            ),
                        ),
                        method: fields.method,
                    },
                ),
            },
        },
    }
}

impl<R: Scalar, L> StochasticDividendPricingPlan<R, DividendPath<R, L>> {
    /// Makes the scenario `q`.
    fn spot_scenario<M: Math<R>, Y: DividendDynamics<R>, W: PlanWorld<R, Surface = L>>(
        &self,
        m: &M,
        y: &Y,
        w: &W,
        residual: Option<LsvCalibration<R>>,
        spot: R,
        bumps: &Vec<R>,
        fields: &GammaFields,
        q: usize,
    ) -> (r: Result<Scenario<R, L>, MonteCarloError>)
        requires
            q < 6,
            bumps@.len() == 3,
        ensures
            viewed(r) == scenario_of(
                m.model(),
                *y,
                *w,
                residual,
                spot,
                bumps@,
                self.path.dimension,
                self.payment_time,
                *fields,
            )(q as int),
            r matches Ok(s) ==> spot_ready(s.reverse@),
    {
        m.laws();
        let zero = R::from(0u32);
        let h = bumps[q / 2];
        if !m.is_finite(h) || h <= zero || !m.is_finite(R::from(2u32) * h) || spot
            - h >= spot || spot + h
            <= spot {
            return Err(invalid(fields.spot_bump));
        }
        let shifted = if q % 2 == 0 {
            spot - h
        } else {
            spot + h
        };
        if !(m.is_finite(shifted) && shifted > zero) {
            return Err(invalid(fields.shifted_spot));
        }
        let market = match w.market_at(shifted) {
            Err(e) => return Err(e),
            Ok(market) => market,
        };
        let path = match residual {
            Some(calibration) => {
                let path = match reanchor_path(w, calibration, &market) {
                    Err(e) => return Err(e),
                    Ok(path) => path,
                };
                if path.dimension != self.path.dimension {
                    return Err(invalid("lsv_gamma_random_dimension"));
                }
                path
            },
            None => match w.path_at(&market) {
                Err(e) => return Err(e),
                Ok(path) => path,
            },
        };
        let reverse = match ReverseContext::new(m, y, &market, &path, self.payment_time) {
            Err(e) => return Err(e),
            Ok(k) => k,
        };
        Ok(Scenario { path, reverse })
    }

    /// Estimates gamma.
    fn gamma_ladder<
        M: Math<R>,
        B: Backend<R>,
        Y: DividendDynamics<R>,
        W: PlanWorld<R, Surface = L>,
    >(
        &self,
        m: &M,
        b: &B,
        y: &Y,
        w: &W,
        market: &W::Market,
        bump: SpotBump<R>,
        residual: Option<LsvCalibration<R>>,
        fields: &GammaFields,
    ) -> (r: Result<StochasticDividendGammaRisk<R>, MonteCarloError>)
        requires
            self.job.valid(),
            self.path@.valid(),
            market_sized::<R, W::Market>(*market),
        ensures
            viewed(r) == gamma_evaluated(
                m.model(),
                *b,
                *y,
                *w,
                *market,
                *self,
                bump,
                residual,
                *fields,
            ),
            r matches Ok(risk) ==> risk@.valid(),
    {
        m.laws();
        let spot = market.spot();
        let h = resolve_spot_bump(m, bump, spot);
        let bumps: Vec<R> = vec![(R::from(1u32) / R::from(2u32)) * h, h, R::from(2u32) * h];
        assert(bumps@ =~= ladder(h));
        let ghost law = scenario_of(
            m.model(),
            *y,
            *w,
            residual,
            spot,
            bumps@,
            self.path.dimension,
            self.payment_time,
            *fields,
        );
        let ghost ready = |s: Scenario<R, L>| spot_ready(s.reverse@);
        let scenarios_at = |q: usize| -> (x: Result<Scenario<R, L>, MonteCarloError>)
            requires
                q < 6,
            ensures
                viewed(x) == law(q as int),
                x matches Ok(s) ==> ready(s),
            { self.spot_scenario(m, y, w, residual, spot, &bumps, fields, q) };
        let scenarios = match collect_views(
            6,
            scenarios_at,
            Ghost(law),
            Ghost(ready),
        ) {
            Err(e) => return Err(e),
            Ok(v) => v,
        };
        let reverse = match ReverseContext::new(m, y, market, &self.path, self.payment_time) {
            Err(e) => return Err(e),
            Ok(k) => k,
        };
        proof {
            assert forall|q: int| 0 <= q < 6 implies spot_ready(
                (#[trigger] scenarios@[q]).reverse@,
            ) by {
                assert(ready(scenarios@[q]));
            }
        }
        let estimates = match gamma_estimates(
            m,
            b,
            w,
            &self.path,
            &reverse,
            &scenarios,
            &bumps,
            &self.job,
            residual,
            fields,
        ) {
            Err(e) => return Err(e),
            Ok(e) => e,
        };
        let (values, errors) = estimates;
        let paths = engine_paths(&self.job.engine);
        proof {
            paths_fit(self.job.engine);
        }
        let price = self.price(values[0], errors[0]);
        let risk_fingerprint = gamma_fingerprint(
            m,
            w,
            fields.method,
            &self.fingerprint,
            bump,
            &bumps,
        );
        let gammas: Vec<R> = vec![values[2], values[3], values[4]];
        assert(gammas@ =~= values@.subrange(2, 5));
        let gamma_errors: Vec<R> = vec![errors[2], errors[3], errors[4]];
        assert(gamma_errors@ =~= errors@.subrange(2, 5));
        let gaps: Vec<R> = vec![values[5], values[6]];
        assert(gaps@ =~= values@.subrange(5, 7));
        let gap_errors: Vec<R> = vec![errors[5], errors[6]];
        assert(gap_errors@ =~= errors@.subrange(5, 7));
        Ok(
            StochasticDividendGammaRisk {
                price,
                delta: values[1],
                delta_standard_error: errors[1],
                spot,
                spot_bumps: bumps,
                gamma_estimates: gammas,
                gamma_standard_errors: gamma_errors,
                bump_differences: gaps,
                bump_difference_standard_errors: gap_errors,
                payoff_evaluations: 7 * paths,
                risk_fingerprint,
                method: fields.method,
            },
        )
    }
}

/// Computes [`gamma_estimated`].
fn gamma_estimates<R: Scalar, M: Math<R>, B: Backend<R>, W: PlanWorld<R>>(
    m: &M,
    b: &B,
    w: &W,
    path: &DividendPath<R, W::Surface>,
    reverse: &ReverseContext<R>,
    scenarios: &Vec<Scenario<R, W::Surface>>,
    bumps: &Vec<R>,
    job: &Job,
    residual: Option<LsvCalibration<R>>,
    fields: &GammaFields,
) -> (r: Result<(Vec<R>, Vec<R>), MonteCarloError>)
    requires
        job.valid(),
        spot_ready(reverse@),
        scenarios@.len() == 6,
        bumps@.len() == 3,
        forall|q: int| 0 <= q < 6 ==> spot_ready((#[trigger] scenarios@[q]).reverse@),
    ensures
        (match r {
            Ok((values, errors)) => Ok((values@, errors@)),
            Err(e) => Err(e),
        }) == gamma_estimated(
            m.model(),
            *b,
            (Quantities {
                width: 7,
                terms: gamma_terms(
                    m.model(),
                    *w,
                    (ScenarioView { path: *path, reverse: reverse@ }),
                    views(scenarios@),
                    bumps@,
                ),
                finish: gamma_finish(m.model(), fields.sample),
            }),
            *job,
            residual,
            *fields,
        ),
        r matches Ok((values, errors)) ==> values@.len() == 7 && errors@.len() == 7,
{
    if let Some(e) = job.executor_failure {
        return Err(e);
    }
    let c = GammaContribution { m, w, path, reverse, scenarios, bumps, field: fields.sample };
    let s = match simulate(m, b, &c, job, 7) {
        Err(e) => return Err(e),
        Ok(s) => s,
    };
    let units = engine_units(&job.engine);
    let estimates = if residual.is_some() {
        match estimate(m, &s, units, "lsv_gamma_standard_error", fields.estimator) {
            Err(e) => return Err(e),
            Ok(e) => e,
        }
    } else {
        match estimate_together(m, &s, units, fields.estimator) {
            Err(e) => return Err(e),
            Ok(e) => e,
        }
    };
    Ok((estimates.values, estimates.errors))
}

/// Takes the fingerprint of a gamma.
fn gamma_fingerprint<R: Scalar, M: Math<R>, W: PlanWorld<R>>(
    m: &M,
    w: &W,
    method: &'static str,
    plan: &Fingerprint,
    bump: SpotBump<R>,
    bumps: &Vec<R>,
) -> (f: Fingerprint)
    ensures
        f.bytes@ == blake3_digest(
            gamma_message(*w, method, *plan, convention_of(bump), bumps@),
        ),
{
    let mut message = Message::new();
    message.push_text(method);
    message.push_fingerprint(plan);
    match bump {
        SpotBump::Absolute(_) => message.push_text("absolute"),
        SpotBump::Relative(_) => message.push_text("relative"),
    }
    let n = bumps.len();
    let ghost bit = |i: int| w.bits_of(bumps@[i]);
    let bits_at = |i: usize| -> (x: u64)
        requires
            i < n,
        ensures
            x == bit(i as int),
        { w.bits(bumps[i]) };
    let bits = build(
        n,
        bits_at,
        Ghost(bit),
    );
    assert(bits@ =~= Seq::new(bumps@.len(), |i: int| w.bits_of(bumps@[i])));
    message.push_all(&bits);
    assert(message@ =~= gamma_message(*w, method, *plan, convention_of(bump), bumps@));
    message.fingerprint()
}

impl<R: Scalar, L> StochasticDividendPricingPlan<R, DividendPath<R, L>> {
    /// Gamma of a plan without a leverage surface.
    pub fn evaluate_gamma<
        M: Math<R>,
        B: Backend<R>,
        Y: DividendDynamics<R>,
        W: PlanWorld<R, Surface = L>,
    >(
        &self,
        m: &M,
        b: &B,
        y: &Y,
        w: &W,
        market: &W::Market,
        bump: SpotBump<R>,
    ) -> (r: Result<StochasticDividendGammaRisk<R>, MonteCarloError>)
        requires
            self.job.valid(),
            self.path@.valid(),
            market_sized::<R, W::Market>(*market),
        ensures
            viewed(r) == (if self.path_is_lsv {
                Err(
                    unsupported_risk(
                        "stochastic-dividend residual LSV requires recalibration-aware Gamma",
                    ),
                )
            } else if !self.risk_supported {
                Err(
                    unsupported_risk(
                        "stochastic-dividend discontinuous payoff requires explicit smoothing",
                    ),
                )
            } else {
                gamma_evaluated(
                    m.model(),
                    *b,
                    *y,
                    *w,
                    *market,
                    *self,
                    bump,
                    None,
                    plain_fields(),
                )
            }),
            r matches Ok(risk) ==> risk@.valid(),
    {
        if self.path_is_lsv {
            return Err(
                MonteCarloError::UnsupportedRiskForModel {
                    model: "stochastic-dividend residual LSV requires recalibration-aware Gamma",
                },
            );
        }
        if !self.risk_supported {
            return Err(
                MonteCarloError::UnsupportedRiskForModel {
                    model: "stochastic-dividend discontinuous payoff requires explicit smoothing",
                },
            );
        }
        let fields = GammaFields {
            spot_bump: "gamma_spot_bump",
            shifted_spot: "gamma_shifted_spot",
            sample: "gamma_sample",
            estimator: "gamma_estimator",
            method: "buehler-common-noise-aad-delta-gamma-v1",
        };
        self.gamma_ladder(m, b, y, w, market, bump, None, &fields)
    }

    /// Gamma of a plan with a leverage surface, which is anchored anew for every
    /// spot; its squared leverage stays.
    pub fn evaluate_lsv_gamma<
        M: Math<R>,
        B: Backend<R>,
        Y: DividendDynamics<R>,
        W: PlanWorld<R, Surface = L>,
    >(
        &self,
        m: &M,
        b: &B,
        y: &Y,
        w: &W,
        market: &W::Market,
        bump: SpotBump<R>,
    ) -> (r: Result<StochasticDividendGammaRisk<R>, MonteCarloError>)
        requires
            self.job.valid(),
            self.path@.valid(),
            market_sized::<R, W::Market>(*market),
        ensures
            viewed(r) == (if self.lsv is None || !self.path_is_lsv {
                Err(
                    unsupported_risk(
                        "LSV Gamma requires a stochastic-dividend residual LSV plan",
                    ),
                )
            } else if !self.risk_supported {
                Err(
                    unsupported_risk(
                        "stochastic-dividend LSV discontinuous payoff requires explicit smoothing",
                    ),
                )
            } else {
                gamma_evaluated(
                    m.model(),
                    *b,
                    *y,
                    *w,
                    *market,
                    *self,
                    bump,
                    self.lsv,
                    residual_fields(),
                )
            }),
            r matches Ok(risk) ==> risk@.valid(),
    {
        if self.lsv.is_none() || !self.path_is_lsv {
            return Err(
                MonteCarloError::UnsupportedRiskForModel {
                    model: "LSV Gamma requires a stochastic-dividend residual LSV plan",
                },
            );
        }
        if !self.risk_supported {
            return Err(
                MonteCarloError::UnsupportedRiskForModel {
                    model: "stochastic-dividend LSV discontinuous payoff requires explicit smoothing",
                },
            );
        }
        let fields = GammaFields {
            spot_bump: "lsv_gamma_spot_bump",
            shifted_spot: "lsv_gamma_shifted_spot",
            sample: "lsv_gamma_sample",
            estimator: "lsv_gamma_estimator",
            method: "buehler-residual-lsv-scale-invariant-aad-delta-gamma-v1",
        };
        self.gamma_ladder(m, b, y, w, market, bump, self.lsv, &fields)
    }
}

} // verus!
