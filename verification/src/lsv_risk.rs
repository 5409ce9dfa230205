//! Finite-bump model risk of a residual-equity leverage plan.
//!
//! Parameters that enter the marginal calibration are bumped with a full
//! recalibration; those that only enter the joint pricing system reuse the
//! calibrated surface. Every scenario is valued under the shocks of the base.

use crate::bumps::{
    bumps_checked, bump_estimates, bump_sizes, estimate_bumps, later_bumps_do_not_matter, moved,
    shift, sizes, validate_bumps, Bump, Domain,
};
use crate::errors::{invalid, invalid_field, unsupported_risk, MonteCarloError};
use crate::models::{Bergomi1Factor, Bergomi2Factor, BuehlerDividendModel, LsvCalibration, Pair};
use crate::plan::{price_of, StochasticDividendPrice, StochasticDividendPricingPlan};
use crate::results::{gather, gather_stops, gather_values};
use crate::sampling::Backend;
use crate::scalar::{Math, Model, Scalar};
use crate::world::{
    dividend_scenario, fixed_calibration_dividend_model_scenario, recalibrated_one,
    recalibrated_one_factor_scenario, recalibrated_two,
    recalibrated_two_factor_scenario, World,
};
use vstd::prelude::*;

verus! {

/// A bump report with its vectors as sequences.
pub ghost struct BumpReport<R> {
    pub price: StochasticDividendPrice<R>,
    pub labels: Seq<Seq<char>>,
    pub derivatives: Seq<R>,
    pub standard_errors: Seq<R>,
    pub bumps: Seq<R>,
    pub method: Seq<char>,
}

/// The characters of each label.
pub open spec fn label_text(labels: Seq<String>) -> Seq<Seq<char>> {
    Seq::new(labels.len(), |i: int| labels[i]@)
}

/// The characters of each literal label.
pub open spec fn literal_text(labels: Seq<&'static str>) -> Seq<Seq<char>> {
    Seq::new(labels.len(), |i: int| labels[i]@)
}

/// Copies literal labels.
pub fn own_labels(labels: &Vec<&'static str>) -> (owned: Vec<String>)
    ensures
        label_text(owned@) == literal_text(labels@),
{
    let mut owned: Vec<String> = Vec::new();
    let mut i: usize = 0;
    while i < labels.len()
        invariant
            i <= labels@.len(),
            owned@.len() == i,
            forall|k: int| 0 <= k < i ==> (#[trigger] owned@[k])@ == labels@[k]@,
        decreases labels@.len() - i,
    {
        owned.push(labels[i].to_owned());
        i = i + 1;
    }
    assert(label_text(owned@) =~= literal_text(labels@));
    owned
}

/// Under a label of a report stands a value.
pub open spec fn stands_under<R>(
    labels: Seq<Seq<char>>,
    values: Seq<R>,
    name: &'static str,
    x: R,
) -> bool {
    exists|i: int|
        0 <= i < labels.len() && i < values.len() && #[trigger] labels[i] == name@ && values[i]
            == x
}

/// The report that the estimates of a bumped plan make: the first quantity is
/// the price, the others are the derivatives.
pub open spec fn report_of<R: Scalar, P>(
    plan: StochasticDividendPricingPlan<R, P>,
    estimates: (Seq<R>, Seq<R>),
    labels: Seq<&'static str>,
    bumps: Seq<R>,
    method: &'static str,
) -> BumpReport<R> {
    BumpReport {
        price: price_of(plan, estimates.0[0], estimates.1[0]),
        labels: literal_text(labels),
        derivatives: estimates.0.skip(1),
        standard_errors: estimates.1.skip(1),
        bumps,
        method: method@,
    }
}

/// What follows the validation of the bumps of a plan: the scenarios in their
/// order, the simulation and the report.
pub open spec fn bumped<R: Scalar, B: Backend<R>, W: World<R>>(
    m: Model<R>,
    b: B,
    w: W,
    plan: StochasticDividendPricingPlan<R, W::Path>,
    bumps: Seq<Bump<R>>,
    scenario: spec_fn(int) -> Result<W::Path, MonteCarloError>,
    labels: Seq<&'static str>,
    error_field: &'static str,
    field: &'static str,
    method: &'static str,
) -> Result<BumpReport<R>, MonteCarloError> {
    match gather((2 * bumps.len()) as nat, scenario) {
        Err(e) => Err(e),
        Ok(scenarios) => match bump_estimates(
            m,
            b,
            w,
            plan.path,
            scenarios,
            sizes(bumps),
            plan.job,
            error_field,
            field,
        ) {
            Err(e) => Err(e),
            Ok(estimates) => Ok(report_of(plan, estimates, labels, sizes(bumps), method)),
        },
    }
}

/// The vectors of a bump report.
struct Assembled<R> {
    price: StochasticDividendPrice<R>,
    labels: Vec<String>,
    derivatives: Vec<R>,
    standard_errors: Vec<R>,
    bumps: Vec<R>,
    method: &'static str,
}

impl<R> Assembled<R> {
    spec fn report(self) -> BumpReport<R> {
        BumpReport {
            price: self.price,
            labels: label_text(self.labels@),
            derivatives: self.derivatives@,
            standard_errors: self.standard_errors@,
            bumps: self.bumps@,
            method: self.method@,
        }
    }
}

/// Copies the entries of `v` behind the first.
fn tail<R: Scalar>(v: &Vec<R>) -> (t: Vec<R>)
    requires
        v@.len() >= 1,
    ensures
        t@ == v@.skip(1),
{
    let mut t: Vec<R> = Vec::new();
    let mut i: usize = 1;
    while i < v.len()
        invariant
            1 <= i <= v@.len(),
            t@.len() == i - 1,
            forall|k: int| 0 <= k < i - 1 ==> #[trigger] t@[k] == v@[k + 1],
        decreases v@.len() - i,
    {
        t.push(v[i]);
        i = i + 1;
    }
    assert(t@ =~= v@.skip(1));
    t
}

/// Simulates the scenarios and makes the report.
fn assemble<R: Scalar, M: Math<R>, B: Backend<R>, W: World<R>>(
    m: &M,
    b: &B,
    w: &W,
    plan: &StochasticDividendPricingPlan<R, W::Path>,
    bumps: &Vec<Bump<R>>,
    scenarios: &Vec<W::Path>,
    labels: &Vec<&'static str>,
    error_field: &'static str,
    field: &'static str,
    method: &'static str,
) -> (r: Result<Assembled<R>, MonteCarloError>)
    requires
        plan.job.valid(),
        scenarios@.len() == 2 * bumps@.len(),
        scenarios@.len() < usize::MAX,
    ensures
        (match r {
            Ok(a) => Ok(a.report()),
            Err(e) => Err(e),
        }) == (match bump_estimates(
            m.model(),
            *b,
            *w,
            plan.path,
            scenarios@,
            sizes(bumps@),
            plan.job,
            error_field,
            field,
        ) {
            Err(e) => Err(e),
            Ok(estimates) => Ok(report_of(*plan, estimates, labels@, sizes(bumps@), method)),
        }),
        r matches Ok(a) ==> a.derivatives@.len() == bumps@.len(),
{
    let sizes = bump_sizes(bumps);
    match estimate_bumps(
        m,
        b,
        w,
        &plan.path,
        scenarios,
        &sizes,
        &plan.job,
        error_field,
        field,
    ) {
        Err(e) => Err(e),
        Ok(estimates) => {
            Ok(
                Assembled {
                    price: plan.price(estimates.values[0], estimates.errors[0]),
                    labels: own_labels(labels),
                    derivatives: tail(&estimates.values),
                    standard_errors: tail(&estimates.errors),
                    bumps: sizes,
                    method,
                },
            )
        },
    }
}

/// Correlation risk of a two-factor plan.
pub struct StochasticDividendLsvBergomi2FactorCorrelationRisk<R> {
    pub price: StochasticDividendPrice<R>,
    pub parameter_labels: Vec<String>,
    pub derivatives: Vec<R>,
    pub standard_errors: Vec<R>,
    pub correlation_bumps: Vec<R>,
    pub method: &'static str,
}

impl<R: Scalar> StochasticDividendLsvBergomi2FactorCorrelationRisk<R> {
    /// The report, with its vectors as sequences.
    pub open spec fn report(self) -> BumpReport<R> {
        BumpReport {
            price: self.price,
            labels: label_text(self.parameter_labels@),
            derivatives: self.derivatives@,
            standard_errors: self.standard_errors@,
            bumps: self.correlation_bumps@,
            method: self.method@,
        }
    }

    /// The derivatives in the correlations of the spot and the volatility factors.
    pub fn spot_volatility_correlation_derivatives(&self) -> (d: [R; 2])
        requires
            self.derivatives@.len() == 5,
        ensures
            d@ == seq![self.derivatives@[0], self.derivatives@[1]],
            self.report().labels == literal_text(two_factor_correlation_labels()) ==> stands_under(
                self.report().labels,
                self.derivatives@,
                "spot_volatility_correlation[0]",
                d@[0],
            ),
            self.report().labels == literal_text(two_factor_correlation_labels()) ==> stands_under(
                self.report().labels,
                self.derivatives@,
                "spot_volatility_correlation[1]",
                d@[1],
            ),
    {
        let d = [self.derivatives[0], self.derivatives[1]];
        proof {
            let labels = self.report().labels;
            if labels == literal_text(two_factor_correlation_labels()) {
                assert(labels[0] == "spot_volatility_correlation[0]"@);
                assert(labels[1] == "spot_volatility_correlation[1]"@);
            }
        }
        d
    }

    /// The derivative in the correlation of the volatility factors.
    pub fn factor_correlation_derivative(&self) -> (d: R)
        requires
            self.derivatives@.len() == 5,
        ensures
            d == self.derivatives@[2],
            self.report().labels == literal_text(two_factor_correlation_labels()) ==> stands_under(
                self.report().labels,
                self.derivatives@,
                "volatility_factor_correlation",
                d,
            ),
    {
        let d = self.derivatives[2];
        proof {
            let labels = self.report().labels;
            if labels == literal_text(two_factor_correlation_labels()) {
                assert(labels[2] == "volatility_factor_correlation"@);
            }
        }
        d
    }

    /// The derivatives in the correlations of the dividend and the volatility factors.
    pub fn dividend_volatility_correlation_derivatives(&self) -> (d: [R; 2])
        requires
            self.derivatives@.len() == 5,
        ensures
            d@ == seq![self.derivatives@[3], self.derivatives@[4]],
            self.report().labels == literal_text(two_factor_correlation_labels()) ==> stands_under(
                self.report().labels,
                self.derivatives@,
                "dividend_volatility_correlation[0]",
                d@[0],
            ),
            self.report().labels == literal_text(two_factor_correlation_labels()) ==> stands_under(
                self.report().labels,
                self.derivatives@,
                "dividend_volatility_correlation[1]",
                d@[1],
            ),
    {
        let d = [self.derivatives[3], self.derivatives[4]];
        proof {
            let labels = self.report().labels;
            if labels == literal_text(two_factor_correlation_labels()) {
                assert(labels[3] == "dividend_volatility_correlation[0]"@);
                assert(labels[4] == "dividend_volatility_correlation[1]"@);
            }
        }
        d
    }
}

/// The bumps of two factor correlation risk, in the order of validation.
pub open spec fn two_factor_correlation_bumps<R: Scalar>(
    factor: Bergomi2Factor<R>,
    correlations: Pair<R>,
    sizes: Seq<R>,
) -> Seq<Bump<R>> {
    seq![
        Bump {
            domain: Domain::Correlation,
            parameter: factor.spot_correlations.first,
            size: sizes[0],
            field: "lsv_bergomi_two_factor_spot_volatility_correlation_bump_0",
        },
        Bump {
            domain: Domain::Correlation,
            parameter: factor.spot_correlations.second,
            size: sizes[1],
            field: "lsv_bergomi_two_factor_spot_volatility_correlation_bump_1",
        },
        Bump {
            domain: Domain::Correlation,
            parameter: factor.factor_correlation,
            size: sizes[2],
            field: "lsv_bergomi_two_factor_factor_correlation_bump",
        },
        Bump {
            domain: Domain::Correlation,
            parameter: correlations.first,
            size: sizes[3],
            field: "lsv_bergomi_two_factor_dividend_volatility_correlation_bump_0",
        },
        Bump {
            domain: Domain::Correlation,
            parameter: correlations.second,
            size: sizes[4],
            field: "lsv_bergomi_two_factor_dividend_volatility_correlation_bump_1",
        },
    ]
}

/// The scenarios of two factor correlation risk: the parameter `k / 2` moved down (even
/// `k`) or up (odd `k`), all others held.
pub open spec fn two_factor_correlation_scenario<R: Scalar, W: World<R>>(
    w: W,
    path: W::Path,
    factor: Bergomi2Factor<R>,
    correlations: Pair<R>,
    sizes: Seq<R>,
) -> spec_fn(int) -> Result<W::Path, MonteCarloError> {
    |k: int|
        {
            let up = k % 2 == 1;
            if k / 2 == 0 {
                let bumped = Bergomi2Factor {
                    spot_correlations: (Pair {
                        first: moved(factor.spot_correlations.first, sizes[0], up),
                        ..factor.spot_correlations
                    }),
                    ..factor
                };
                if w.two_factor_valid(bumped) {
                    recalibrated_two(w, path, bumped, correlations)
                } else {
                    Err(invalid_field("lsv_bergomi_two_factor_bumped_correlation_model"))
                }
            } else if k / 2 == 1 {
                let bumped = Bergomi2Factor {
                    spot_correlations: (Pair {
                        second: moved(factor.spot_correlations.second, sizes[1], up),
                        ..factor.spot_correlations
                    }),
                    ..factor
                };
                if w.two_factor_valid(bumped) {
                    recalibrated_two(w, path, bumped, correlations)
                } else {
                    Err(invalid_field("lsv_bergomi_two_factor_bumped_correlation_model"))
                }
            } else if k / 2 == 2 {
                let bumped = Bergomi2Factor {
                    factor_correlation: moved(factor.factor_correlation, sizes[2], up),
                    ..factor
                };
                if w.two_factor_valid(bumped) {
                    recalibrated_two(w, path, bumped, correlations)
                } else {
                    Err(invalid_field("lsv_bergomi_two_factor_bumped_correlation_model"))
                }
            } else if k / 2 == 3 {
                w.attached_two(path, factor, Pair {
                    first: moved(correlations.first, sizes[3], up),
                    ..correlations
                }, w.surface_of())
            } else {
                w.attached_two(path, factor, Pair {
                    second: moved(correlations.second, sizes[4], up),
                    ..correlations
                }, w.surface_of())
            }
        }
}

/// Makes the scenario `k` of two factor correlation risk.
fn two_factor_correlation_path<R: Scalar, M: Math<R>, W: World<R>>(
    m: &M,
    w: &W,
    path: &W::Path,
    factor: &Bergomi2Factor<R>,
    correlations: Pair<R>,
    sizes: &Vec<R>,
    k: usize,
) -> (r: Result<W::Path, MonteCarloError>)
    requires
        sizes@.len() == 5,
        k < 10,
    ensures
        r == two_factor_correlation_scenario(*w, *path, *factor, correlations, sizes@)(k as int),
{
    let up = k % 2 == 1;
    if k / 2 == 0 {
        let x = shift(m, factor.spot_correlations.first, sizes[0], up);
        let bumped = Bergomi2Factor {
            mean_reversions: factor.mean_reversions,
            vol_of_vol: factor.vol_of_vol,
            mixing_weight: factor.mixing_weight,
            spot_correlations: Pair { first: x, second: factor.spot_correlations.second },
            factor_correlation: factor.factor_correlation,
        };
        if !w.is_two_factor(&bumped) {
            return Err(invalid("lsv_bergomi_two_factor_bumped_correlation_model"));
        }
        recalibrated_two_factor_scenario(w, path, &bumped, correlations)
    } else if k / 2 == 1 {
        let x = shift(m, factor.spot_correlations.second, sizes[1], up);
        let bumped = Bergomi2Factor {
            mean_reversions: factor.mean_reversions,
            vol_of_vol: factor.vol_of_vol,
            mixing_weight: factor.mixing_weight,
            spot_correlations: Pair { first: factor.spot_correlations.first, second: x },
            factor_correlation: factor.factor_correlation,
        };
        if !w.is_two_factor(&bumped) {
            return Err(invalid("lsv_bergomi_two_factor_bumped_correlation_model"));
        }
        recalibrated_two_factor_scenario(w, path, &bumped, correlations)
    } else if k / 2 == 2 {
        let x = shift(m, factor.factor_correlation, sizes[2], up);
        let bumped = Bergomi2Factor {
            mean_reversions: factor.mean_reversions,
            vol_of_vol: factor.vol_of_vol,
            mixing_weight: factor.mixing_weight,
            spot_correlations: factor.spot_correlations,
            factor_correlation: x,
        };
        if !w.is_two_factor(&bumped) {
            return Err(invalid("lsv_bergomi_two_factor_bumped_correlation_model"));
        }
        recalibrated_two_factor_scenario(w, path, &bumped, correlations)
    } else if k / 2 == 3 {
        let x = shift(m, correlations.first, sizes[3], up);
        let bumped = Pair { first: x, second: correlations.second };
        w.attach_two(path, factor, bumped, w.surface())
    } else {
        let x = shift(m, correlations.second, sizes[4], up);
        let bumped = Pair { first: correlations.first, second: x };
        w.attach_two(path, factor, bumped, w.surface())
    }
}

/// Makes the scenarios of two factor correlation risk, in their order.
fn two_factor_correlation_paths<R: Scalar, M: Math<R>, W: World<R>>(
    m: &M,
    w: &W,
    path: &W::Path,
    factor: &Bergomi2Factor<R>,
    correlations: Pair<R>,
    sizes: &Vec<R>,
) -> (r: Result<Vec<W::Path>, MonteCarloError>)
    requires
        sizes@.len() == 5,
    ensures
        (match r {
            Ok(v) => Ok(v@),
            Err(e) => Err(e),
        }) == gather(10, two_factor_correlation_scenario(*w, *path, *factor, correlations, sizes@)),
        r matches Ok(v) ==> v@.len() == 10,
{
    let ghost f = two_factor_correlation_scenario(*w, *path, *factor, correlations, sizes@);
    let mut paths: Vec<W::Path> = Vec::new();
    let mut k: usize = 0;
    while k < 10
        invariant
            k <= 10,
            sizes@.len() == 5,
            f == two_factor_correlation_scenario(*w, *path, *factor, correlations, sizes@),
            paths@.len() == k,
            gather(k as nat, f) == Ok::<Seq<W::Path>, MonteCarloError>(paths@),
        decreases 10 - k,
    {
        match two_factor_correlation_path(m, w, path, factor, correlations, sizes, k) {
            Err(e) => {
                proof {
                    assert(gather((k + 1) as nat, f) == Err::<Seq<W::Path>, MonteCarloError>(e));
                    gather_stops((k + 1) as nat, 10, f);
                }
                return Err(e);
            },
            Ok(path) => {
                paths.push(path);
            },
        }
        k = k + 1;
    }
    Ok(paths)
}

/// The labels of two factor correlation risk.
pub open spec fn two_factor_correlation_labels() -> Seq<&'static str> {
    seq![
        "spot_volatility_correlation[0]",
        "spot_volatility_correlation[1]",
        "volatility_factor_correlation",
        "dividend_volatility_correlation[0]",
        "dividend_volatility_correlation[1]",
    ]
}

/// The two factor correlation risk of a plan, or the first reason against it.
pub open spec fn two_factor_correlation_risk<R: Scalar, B: Backend<R>, W: World<R>>(
    m: Model<R>,
    b: B,
    w: W,
    plan: StochasticDividendPricingPlan<R, W::Path>,
    sizes: Seq<R>,
) -> Result<BumpReport<R>, MonteCarloError> {
    if !plan.risk_supported {
        Err(
            unsupported_risk(
                "stochastic-dividend LSV discontinuous payoff requires explicit smoothing",
            ),
        )
    } else {
        match plan.lsv {
            None => Err(
                unsupported_risk(
                    "2F Bergomi LSV correlation risk requires a stochastic-dividend residual LSV plan",
                ),
            ),
            Some(LsvCalibration::One { .. }) => Err(
                unsupported_risk("2F Bergomi LSV correlation risk requires a 2F plan"),
            ),
            Some(LsvCalibration::Rough { .. }) => Err(
                unsupported_risk("2F Bergomi LSV correlation risk requires a 2F plan"),
            ),
            Some(LsvCalibration::Two {
                factor,
                dividend_volatility_correlations: correlations,
            }) => match bumps_checked(
                m,
                two_factor_correlation_bumps(factor, correlations, sizes),
            ) {
                Err(e) => Err(e),
                Ok(_) => match plan.job.executor_failure {
                    Some(e) => Err(e),
                    None => bumped(
                    m,
                    b,
                    w,
                    plan,
                    two_factor_correlation_bumps(factor, correlations, sizes),
                    two_factor_correlation_scenario(w, plan.path, factor, correlations, sizes),
                    two_factor_correlation_labels(),
                    "lsv_bergomi_two_factor_correlation_standard_error",
                    "lsv_bergomi_two_factor_correlation_risk_estimator",
                    "buehler-residual-lsv-common-noise-bergomi-2f-correlation-v1",
                ),
                },
            },
        }
    }
}

impl<R: Scalar, P> StochasticDividendPricingPlan<R, P> {
    /// Central-difference correlation risk of a two-factor plan. The correlations of
    /// the spot and of the volatility factors are bumped with a recalibration, those
    /// of the dividend with the calibrated surface.
    pub fn evaluate_lsv_bergomi_two_factor_correlation_risk<M: Math<R>, B: Backend<R>, W: World<R, Path = P>>(
        &self,
        m: &M,
        b: &B,
        w: &W,
        spot_volatility_correlation_bumps: [R; 2],
        factor_correlation_bump: R,
        dividend_volatility_correlation_bumps: [R; 2],
    ) -> (r: Result<StochasticDividendLsvBergomi2FactorCorrelationRisk<R>, MonteCarloError>)
        requires
            self.job.valid(),
        ensures
            (match r {
                Ok(risk) => Ok(risk.report()),
                Err(e) => Err(e),
            }) == two_factor_correlation_risk(
                m.model(),
                *b,
                *w,
                *self,
                seq![
                    spot_volatility_correlation_bumps@[0],
                    spot_volatility_correlation_bumps@[1],
                    factor_correlation_bump,
                    dividend_volatility_correlation_bumps@[0],
                    dividend_volatility_correlation_bumps@[1],
                ],
            ),
            r matches Ok(risk) ==> risk.derivatives@.len() == 5,
    {
        if !self.risk_supported {
            return Err(
                MonteCarloError::UnsupportedRiskForModel {
                    model: "stochastic-dividend LSV discontinuous payoff requires explicit smoothing",
                },
            );
        }
        let (factor, correlations) = match &self.lsv {
            Some(LsvCalibration::Two {
                factor,
                dividend_volatility_correlations,
            }) => (factor, *dividend_volatility_correlations),
            Some(LsvCalibration::One { .. }) => {
                return Err(MonteCarloError::UnsupportedRiskForModel {
                    model: "2F Bergomi LSV correlation risk requires a 2F plan",
                });
            },
            Some(LsvCalibration::Rough { .. }) => {
                return Err(MonteCarloError::UnsupportedRiskForModel {
                    model: "2F Bergomi LSV correlation risk requires a 2F plan",
                });
            },
            None => {
                return Err(MonteCarloError::UnsupportedRiskForModel {
                    model: "2F Bergomi LSV correlation risk requires a stochastic-dividend residual LSV plan",
                });
            },
        };
        let sizes: Vec<R> = vec![
            spot_volatility_correlation_bumps[0],
            spot_volatility_correlation_bumps[1],
            factor_correlation_bump,
            dividend_volatility_correlation_bumps[0],
            dividend_volatility_correlation_bumps[1],
        ];
        assert(
            sizes@ =~= seq![
                spot_volatility_correlation_bumps@[0],
                spot_volatility_correlation_bumps@[1],
                factor_correlation_bump,
                dividend_volatility_correlation_bumps@[0],
                dividend_volatility_correlation_bumps@[1],
            ]
        );
        let bumps: Vec<Bump<R>> = vec![
            Bump {
                domain: Domain::Correlation,
                parameter: factor.spot_correlations.first,
                size: sizes[0],
                field: "lsv_bergomi_two_factor_spot_volatility_correlation_bump_0",
            },
            Bump {
                domain: Domain::Correlation,
                parameter: factor.spot_correlations.second,
                size: sizes[1],
                field: "lsv_bergomi_two_factor_spot_volatility_correlation_bump_1",
            },
            Bump {
                domain: Domain::Correlation,
                parameter: factor.factor_correlation,
                size: sizes[2],
                field: "lsv_bergomi_two_factor_factor_correlation_bump",
            },
            Bump {
                domain: Domain::Correlation,
                parameter: correlations.first,
                size: sizes[3],
                field: "lsv_bergomi_two_factor_dividend_volatility_correlation_bump_0",
            },
            Bump {
                domain: Domain::Correlation,
                parameter: correlations.second,
                size: sizes[4],
                field: "lsv_bergomi_two_factor_dividend_volatility_correlation_bump_1",
            },
        ];
        assert(bumps@ =~= two_factor_correlation_bumps(*factor, correlations, sizes@));
        if let Err(e) = validate_bumps(m, &bumps) {
            return Err(e);
        }
        if let Some(e) = self.job.executor_failure {
            return Err(e);
        }
        let scenarios = match two_factor_correlation_paths(
            m,
            w,
            &self.path,
            factor,
            correlations,
            &sizes,
        ) {
            Err(e) => return Err(e),
            Ok(scenarios) => scenarios,
        };
        let labels: Vec<&'static str> = vec![
            "spot_volatility_correlation[0]",
            "spot_volatility_correlation[1]",
            "volatility_factor_correlation",
            "dividend_volatility_correlation[0]",
            "dividend_volatility_correlation[1]",
        ];
        assert(labels@ =~= two_factor_correlation_labels());
        match assemble(
            m,
            b,
            w,
            self,
            &bumps,
            &scenarios,
            &labels,
            "lsv_bergomi_two_factor_correlation_standard_error",
            "lsv_bergomi_two_factor_correlation_risk_estimator",
            "buehler-residual-lsv-common-noise-bergomi-2f-correlation-v1",
        ) {
            Err(e) => Err(e),
            Ok(a) => Ok(
                StochasticDividendLsvBergomi2FactorCorrelationRisk {
                    price: a.price,
                    parameter_labels: a.labels,
                    derivatives: a.derivatives,
                    standard_errors: a.standard_errors,
                    correlation_bumps: a.bumps,
                    method: a.method,
                },
            ),
        }
    }
}

/// Parameter risk of a two-factor plan.
pub struct StochasticDividendLsvBergomi2FactorRisk<R> {
    pub price: StochasticDividendPrice<R>,
    pub parameter_labels: Vec<String>,
    pub derivatives: Vec<R>,
    pub standard_errors: Vec<R>,
    pub parameter_bumps: Vec<R>,
    pub method: &'static str,
}

impl<R: Scalar> StochasticDividendLsvBergomi2FactorRisk<R> {
    /// The report, with its vectors as sequences.
    pub open spec fn report(self) -> BumpReport<R> {
        BumpReport {
            price: self.price,
            labels: label_text(self.parameter_labels@),
            derivatives: self.derivatives@,
            standard_errors: self.standard_errors@,
            bumps: self.parameter_bumps@,
            method: self.method@,
        }
    }

    /// The derivatives in the mean reversions.
    pub fn mean_reversion_derivatives(&self) -> (d: [R; 2])
        requires
            self.derivatives@.len() == 4,
        ensures
            d@ == seq![self.derivatives@[0], self.derivatives@[1]],
            self.report().labels == literal_text(two_factor_parameter_labels()) ==> stands_under(
                self.report().labels,
                self.derivatives@,
                "bergomi_mean_reversion[0]",
                d@[0],
            ),
            self.report().labels == literal_text(two_factor_parameter_labels()) ==> stands_under(
                self.report().labels,
                self.derivatives@,
                "bergomi_mean_reversion[1]",
                d@[1],
            ),
    {
        let d = [self.derivatives[0], self.derivatives[1]];
        proof {
            let labels = self.report().labels;
            if labels == literal_text(two_factor_parameter_labels()) {
                assert(labels[0] == "bergomi_mean_reversion[0]"@);
                assert(labels[1] == "bergomi_mean_reversion[1]"@);
            }
        }
        d
    }

    /// The derivative in the volatility of volatility.
    pub fn vol_of_vol_derivative(&self) -> (d: R)
        requires
            self.derivatives@.len() == 4,
        ensures
            d == self.derivatives@[2],
            self.report().labels == literal_text(two_factor_parameter_labels()) ==> stands_under(
                self.report().labels,
                self.derivatives@,
                "bergomi_vol_of_vol",
                d,
            ),
    {
        let d = self.derivatives[2];
        proof {
            let labels = self.report().labels;
            if labels == literal_text(two_factor_parameter_labels()) {
                assert(labels[2] == "bergomi_vol_of_vol"@);
            }
        }
        d
    }

    /// The derivative in the mixing weight.
    pub fn mixing_weight_derivative(&self) -> (d: R)
        requires
            self.derivatives@.len() == 4,
        ensures
            d == self.derivatives@[3],
            self.report().labels == literal_text(two_factor_parameter_labels()) ==> stands_under(
                self.report().labels,
                self.derivatives@,
                "bergomi_mixing_weight",
                d,
            ),
    {
        let d = self.derivatives[3];
        proof {
            let labels = self.report().labels;
            if labels == literal_text(two_factor_parameter_labels()) {
                assert(labels[3] == "bergomi_mixing_weight"@);
            }
        }
        d
    }
}

/// The bumps of two factor parameter risk, in the order of validation.
pub open spec fn two_factor_parameter_bumps<R: Scalar>(
    factor: Bergomi2Factor<R>,
    correlations: Pair<R>,
    sizes: Seq<R>,
) -> Seq<Bump<R>> {
    seq![
        Bump {
            domain: Domain::Nonnegative,
            parameter: factor.mean_reversions.first,
            size: sizes[0],
            field: "lsv_bergomi_two_factor_mean_reversion_bump_0",
        },
        Bump {
            domain: Domain::Nonnegative,
            parameter: factor.mean_reversions.second,
            size: sizes[1],
            field: "lsv_bergomi_two_factor_mean_reversion_bump_1",
        },
        Bump {
            domain: Domain::Nonnegative,
            parameter: factor.vol_of_vol,
            size: sizes[2],
            field: "lsv_bergomi_two_factor_vol_of_vol_bump",
        },
        Bump {
            domain: Domain::UnitInterval,
            parameter: factor.mixing_weight,
            size: sizes[3],
            field: "lsv_bergomi_two_factor_mixing_weight_bump",
        },
    ]
}

/// The scenarios of two factor parameter risk: the parameter `k / 2` moved down (even
/// `k`) or up (odd `k`), all others held.
pub open spec fn two_factor_parameter_scenario<R: Scalar, W: World<R>>(
    w: W,
    path: W::Path,
    factor: Bergomi2Factor<R>,
    correlations: Pair<R>,
    sizes: Seq<R>,
) -> spec_fn(int) -> Result<W::Path, MonteCarloError> {
    |k: int|
        {
            let up = k % 2 == 1;
            if k / 2 == 0 {
                let bumped = Bergomi2Factor {
                    mean_reversions: (Pair {
                        first: moved(factor.mean_reversions.first, sizes[0], up),
                        ..factor.mean_reversions
                    }),
                    ..factor
                };
                if w.two_factor_valid(bumped) {
                    recalibrated_two(w, path, bumped, correlations)
                } else {
                    Err(invalid_field("lsv_bergomi_two_factor_bumped_model"))
                }
            } else if k / 2 == 1 {
                let bumped = Bergomi2Factor {
                    mean_reversions: (Pair {
                        second: moved(factor.mean_reversions.second, sizes[1], up),
                        ..factor.mean_reversions
                    }),
                    ..factor
                };
                if w.two_factor_valid(bumped) {
                    recalibrated_two(w, path, bumped, correlations)
                } else {
                    Err(invalid_field("lsv_bergomi_two_factor_bumped_model"))
                }
            } else if k / 2 == 2 {
                let bumped = Bergomi2Factor {
                    vol_of_vol: moved(factor.vol_of_vol, sizes[2], up),
                    ..factor
                };
                if w.two_factor_valid(bumped) {
                    recalibrated_two(w, path, bumped, correlations)
                } else {
                    Err(invalid_field("lsv_bergomi_two_factor_bumped_model"))
                }
            } else {
                let bumped = Bergomi2Factor {
                    mixing_weight: moved(factor.mixing_weight, sizes[3], up),
                    ..factor
                };
                if w.two_factor_valid(bumped) {
                    recalibrated_two(w, path, bumped, correlations)
                } else {
                    Err(invalid_field("lsv_bergomi_two_factor_bumped_model"))
                }
            }
        }
}

/// Makes the scenario `k` of two factor parameter risk.
fn two_factor_parameter_path<R: Scalar, M: Math<R>, W: World<R>>(
    m: &M,
    w: &W,
    path: &W::Path,
    factor: &Bergomi2Factor<R>,
    correlations: Pair<R>,
    sizes: &Vec<R>,
    k: usize,
) -> (r: Result<W::Path, MonteCarloError>)
    requires
        sizes@.len() == 4,
        k < 8,
    ensures
        r == two_factor_parameter_scenario(*w, *path, *factor, correlations, sizes@)(k as int),
{
    let up = k % 2 == 1;
    if k / 2 == 0 {
        let x = shift(m, factor.mean_reversions.first, sizes[0], up);
        let bumped = Bergomi2Factor {
            mean_reversions: Pair { first: x, second: factor.mean_reversions.second },
            vol_of_vol: factor.vol_of_vol,
            mixing_weight: factor.mixing_weight,
            spot_correlations: factor.spot_correlations,
            factor_correlation: factor.factor_correlation,
        };
        if !w.is_two_factor(&bumped) {
            return Err(invalid("lsv_bergomi_two_factor_bumped_model"));
        }
        recalibrated_two_factor_scenario(w, path, &bumped, correlations)
    } else if k / 2 == 1 {
        let x = shift(m, factor.mean_reversions.second, sizes[1], up);
        let bumped = Bergomi2Factor {
            mean_reversions: Pair { first: factor.mean_reversions.first, second: x },
            vol_of_vol: factor.vol_of_vol,
            mixing_weight: factor.mixing_weight,
            spot_correlations: factor.spot_correlations,
            factor_correlation: factor.factor_correlation,
        };
        if !w.is_two_factor(&bumped) {
            return Err(invalid("lsv_bergomi_two_factor_bumped_model"));
        }
        recalibrated_two_factor_scenario(w, path, &bumped, correlations)
    } else if k / 2 == 2 {
        let x = shift(m, factor.vol_of_vol, sizes[2], up);
        let bumped = Bergomi2Factor {
            mean_reversions: factor.mean_reversions,
            vol_of_vol: x,
            mixing_weight: factor.mixing_weight,
            spot_correlations: factor.spot_correlations,
            factor_correlation: factor.factor_correlation,
        };
        if !w.is_two_factor(&bumped) {
            return Err(invalid("lsv_bergomi_two_factor_bumped_model"));
        }
        recalibrated_two_factor_scenario(w, path, &bumped, correlations)
    } else {
        let x = shift(m, factor.mixing_weight, sizes[3], up);
        let bumped = Bergomi2Factor {
            mean_reversions: factor.mean_reversions,
            vol_of_vol: factor.vol_of_vol,
            mixing_weight: x,
            spot_correlations: factor.spot_correlations,
            factor_correlation: factor.factor_correlation,
        };
        if !w.is_two_factor(&bumped) {
            return Err(invalid("lsv_bergomi_two_factor_bumped_model"));
        }
        recalibrated_two_factor_scenario(w, path, &bumped, correlations)
    }
}

/// Makes the scenarios of two factor parameter risk, in their order.
fn two_factor_parameter_paths<R: Scalar, M: Math<R>, W: World<R>>(
    m: &M,
    w: &W,
    path: &W::Path,
    factor: &Bergomi2Factor<R>,
    correlations: Pair<R>,
    sizes: &Vec<R>,
) -> (r: Result<Vec<W::Path>, MonteCarloError>)
    requires
        sizes@.len() == 4,
    ensures
        (match r {
            Ok(v) => Ok(v@),
            Err(e) => Err(e),
        }) == gather(8, two_factor_parameter_scenario(*w, *path, *factor, correlations, sizes@)),
        r matches Ok(v) ==> v@.len() == 8,
{
    let ghost f = two_factor_parameter_scenario(*w, *path, *factor, correlations, sizes@);
    let mut paths: Vec<W::Path> = Vec::new();
    let mut k: usize = 0;
    while k < 8
        invariant
            k <= 8,
            sizes@.len() == 4,
            f == two_factor_parameter_scenario(*w, *path, *factor, correlations, sizes@),
            paths@.len() == k,
            gather(k as nat, f) == Ok::<Seq<W::Path>, MonteCarloError>(paths@),
        decreases 8 - k,
    {
        match two_factor_parameter_path(m, w, path, factor, correlations, sizes, k) {
            Err(e) => {
                proof {
                    assert(gather((k + 1) as nat, f) == Err::<Seq<W::Path>, MonteCarloError>(e));
                    gather_stops((k + 1) as nat, 8, f);
                }
                return Err(e);
            },
            Ok(path) => {
                paths.push(path);
            },
        }
        k = k + 1;
    }
    Ok(paths)
}

/// The labels of two factor parameter risk.
pub open spec fn two_factor_parameter_labels() -> Seq<&'static str> {
    seq![
        "bergomi_mean_reversion[0]",
        "bergomi_mean_reversion[1]",
        "bergomi_vol_of_vol",
        "bergomi_mixing_weight",
    ]
}

/// The two factor parameter risk of a plan, or the first reason against it.
pub open spec fn two_factor_parameter_risk<R: Scalar, B: Backend<R>, W: World<R>>(
    m: Model<R>,
    b: B,
    w: W,
    plan: StochasticDividendPricingPlan<R, W::Path>,
    sizes: Seq<R>,
) -> Result<BumpReport<R>, MonteCarloError> {
    if !plan.risk_supported {
        Err(
            unsupported_risk(
                "stochastic-dividend LSV discontinuous payoff requires explicit smoothing",
            ),
        )
    } else {
        match plan.lsv {
            None => Err(
                unsupported_risk(
                    "2F Bergomi LSV parameter risk requires a stochastic-dividend residual LSV plan",
                ),
            ),
            Some(LsvCalibration::One { .. }) => Err(
                unsupported_risk("2F Bergomi LSV parameter risk requires a 2F plan"),
            ),
            Some(LsvCalibration::Rough { .. }) => Err(
                unsupported_risk("2F Bergomi LSV parameter risk requires a 2F plan"),
            ),
            Some(LsvCalibration::Two {
                factor,
                dividend_volatility_correlations: correlations,
            }) => match bumps_checked(m, two_factor_parameter_bumps(factor, correlations, sizes)) {
                Err(e) => Err(e),
                Ok(_) => match plan.job.executor_failure {
                    Some(e) => Err(e),
                    None => bumped(
                    m,
                    b,
                    w,
                    plan,
                    two_factor_parameter_bumps(factor, correlations, sizes),
                    two_factor_parameter_scenario(w, plan.path, factor, correlations, sizes),
                    two_factor_parameter_labels(),
                    "lsv_bergomi_two_factor_parameter_standard_error",
                    "lsv_bergomi_two_factor_parameter_risk_estimator",
                    "buehler-residual-lsv-common-noise-full-recalibration-bergomi-2f-v1",
                ),
                },
            },
        }
    }
}

impl<R: Scalar, P> StochasticDividendPricingPlan<R, P> {
    /// Central-difference parameter risk of a two-factor plan, with a recalibration for
    /// every bump.
    pub fn evaluate_lsv_bergomi_two_factor_parameter_risk<M: Math<R>, B: Backend<R>, W: World<R, Path = P>>(
        &self,
        m: &M,
        b: &B,
        w: &W,
        mean_reversion_bumps: [R; 2],
        vol_of_vol_bump: R,
        mixing_weight_bump: R,
    ) -> (r: Result<StochasticDividendLsvBergomi2FactorRisk<R>, MonteCarloError>)
        requires
            self.job.valid(),
        ensures
            (match r {
                Ok(risk) => Ok(risk.report()),
                Err(e) => Err(e),
            }) == two_factor_parameter_risk(
                m.model(),
                *b,
                *w,
                *self,
                seq![
                    mean_reversion_bumps@[0],
                    mean_reversion_bumps@[1],
                    vol_of_vol_bump,
                    mixing_weight_bump,
                ],
            ),
            r matches Ok(risk) ==> risk.derivatives@.len() == 4,
    {
        if !self.risk_supported {
            return Err(
                MonteCarloError::UnsupportedRiskForModel {
                    model: "stochastic-dividend LSV discontinuous payoff requires explicit smoothing",
                },
            );
        }
        let (factor, correlations) = match &self.lsv {
            Some(LsvCalibration::Two {
                factor,
                dividend_volatility_correlations,
            }) => (factor, *dividend_volatility_correlations),
            Some(LsvCalibration::One { .. }) => {
                return Err(MonteCarloError::UnsupportedRiskForModel {
                    model: "2F Bergomi LSV parameter risk requires a 2F plan",
                });
            },
            Some(LsvCalibration::Rough { .. }) => {
                return Err(MonteCarloError::UnsupportedRiskForModel {
                    model: "2F Bergomi LSV parameter risk requires a 2F plan",
                });
            },
            None => {
                return Err(MonteCarloError::UnsupportedRiskForModel {
                    model: "2F Bergomi LSV parameter risk requires a stochastic-dividend residual LSV plan",
                });
            },
        };
        let sizes: Vec<R> = vec![
            mean_reversion_bumps[0],
            mean_reversion_bumps[1],
            vol_of_vol_bump,
            mixing_weight_bump,
        ];
        assert(
            sizes@ =~= seq![
                mean_reversion_bumps@[0],
                mean_reversion_bumps@[1],
                vol_of_vol_bump,
                mixing_weight_bump,
            ]
        );
        let bumps: Vec<Bump<R>> = vec![
            Bump {
                domain: Domain::Nonnegative,
                parameter: factor.mean_reversions.first,
                size: sizes[0],
                field: "lsv_bergomi_two_factor_mean_reversion_bump_0",
            },
            Bump {
                domain: Domain::Nonnegative,
                parameter: factor.mean_reversions.second,
                size: sizes[1],
                field: "lsv_bergomi_two_factor_mean_reversion_bump_1",
            },
            Bump {
                domain: Domain::Nonnegative,
                parameter: factor.vol_of_vol,
                size: sizes[2],
                field: "lsv_bergomi_two_factor_vol_of_vol_bump",
            },
            Bump {
                domain: Domain::UnitInterval,
                parameter: factor.mixing_weight,
                size: sizes[3],
                field: "lsv_bergomi_two_factor_mixing_weight_bump",
            },
        ];
        assert(bumps@ =~= two_factor_parameter_bumps(*factor, correlations, sizes@));
        if let Err(e) = validate_bumps(m, &bumps) {
            return Err(e);
        }
        if let Some(e) = self.job.executor_failure {
            return Err(e);
        }
        let scenarios = match two_factor_parameter_paths(
            m,
            w,
            &self.path,
            factor,
            correlations,
            &sizes,
        ) {
            Err(e) => return Err(e),
            Ok(scenarios) => scenarios,
        };
        let labels: Vec<&'static str> = vec![
            "bergomi_mean_reversion[0]",
            "bergomi_mean_reversion[1]",
            "bergomi_vol_of_vol",
            "bergomi_mixing_weight",
        ];
        assert(labels@ =~= two_factor_parameter_labels());
        match assemble(
            m,
            b,
            w,
            self,
            &bumps,
            &scenarios,
            &labels,
            "lsv_bergomi_two_factor_parameter_standard_error",
            "lsv_bergomi_two_factor_parameter_risk_estimator",
            "buehler-residual-lsv-common-noise-full-recalibration-bergomi-2f-v1",
        ) {
            Err(e) => Err(e),
            Ok(a) => Ok(
                StochasticDividendLsvBergomi2FactorRisk {
                    price: a.price,
                    parameter_labels: a.labels,
                    derivatives: a.derivatives,
                    standard_errors: a.standard_errors,
                    parameter_bumps: a.bumps,
                    method: a.method,
                },
            ),
        }
    }
}

/// Dividend-model risk of a leverage plan.
pub struct StochasticDividendLsvDividendModelRisk<R> {
    pub price: StochasticDividendPrice<R>,
    pub parameter_labels: Vec<String>,
    pub derivatives: Vec<R>,
    pub standard_errors: Vec<R>,
    pub parameter_bumps: Vec<R>,
    pub method: &'static str,
}

impl<R: Scalar> StochasticDividendLsvDividendModelRisk<R> {
    /// The report, with its vectors as sequences.
    pub open spec fn report(self) -> BumpReport<R> {
        BumpReport {
            price: self.price,
            labels: label_text(self.parameter_labels@),
            derivatives: self.derivatives@,
            standard_errors: self.standard_errors@,
            bumps: self.parameter_bumps@,
            method: self.method@,
        }
    }

    /// The derivative in the mean reversion of the dividend.
    pub fn dividend_mean_reversion_derivative(&self) -> (d: R)
        requires
            self.derivatives@.len() == 4,
        ensures
            d == self.derivatives@[0],
            self.report().labels == literal_text(dividend_model_labels()) ==> stands_under(
                self.report().labels,
                self.derivatives@,
                "dividend_mean_reversion",
                d,
            ),
    {
        let d = self.derivatives[0];
        proof {
            let labels = self.report().labels;
            if labels == literal_text(dividend_model_labels()) {
                assert(labels[0] == "dividend_mean_reversion"@);
            }
        }
        d
    }

    /// The derivative in the linkage to the equity.
    pub fn equity_linkage_derivative(&self) -> (d: R)
        requires
            self.derivatives@.len() == 4,
        ensures
            d == self.derivatives@[1],
            self.report().labels == literal_text(dividend_model_labels()) ==> stands_under(
                self.report().labels,
                self.derivatives@,
                "equity_linkage",
                d,
            ),
    {
        let d = self.derivatives[1];
        proof {
            let labels = self.report().labels;
            if labels == literal_text(dividend_model_labels()) {
                assert(labels[1] == "equity_linkage"@);
            }
        }
        d
    }

    /// The derivative in the volatility of the dividend.
    pub fn dividend_volatility_derivative(&self) -> (d: R)
        requires
            self.derivatives@.len() == 4,
        ensures
            d == self.derivatives@[2],
            self.report().labels == literal_text(dividend_model_labels()) ==> stands_under(
                self.report().labels,
                self.derivatives@,
                "dividend_volatility",
                d,
            ),
    {
        let d = self.derivatives[2];
        proof {
            let labels = self.report().labels;
            if labels == literal_text(dividend_model_labels()) {
                assert(labels[2] == "dividend_volatility"@);
            }
        }
        d
    }

    /// The derivative in the correlation of equity and dividend.
    pub fn equity_dividend_correlation_derivative(&self) -> (d: R)
        requires
            self.derivatives@.len() == 4,
        ensures
            d == self.derivatives@[3],
            self.report().labels == literal_text(dividend_model_labels()) ==> stands_under(
                self.report().labels,
                self.derivatives@,
                "equity_dividend_correlation",
                d,
            ),
    {
        let d = self.derivatives[3];
        proof {
            let labels = self.report().labels;
            if labels == literal_text(dividend_model_labels()) {
                assert(labels[3] == "equity_dividend_correlation"@);
            }
        }
        d
    }
}

/// The bumps of dividend model risk, in the order of validation.
pub open spec fn dividend_model_bumps<R: Scalar>(
    model: BuehlerDividendModel<R>,
    sizes: Seq<R>,
) -> Seq<Bump<R>> {
    seq![
        Bump {
            domain: Domain::Nonnegative,
            parameter: model.mean_reversion,
            size: sizes[0],
            field: "lsv_dividend_mean_reversion_bump",
        },
        Bump {
            domain: Domain::UnitInterval,
            parameter: model.equity_linkage,
            size: sizes[1],
            field: "lsv_equity_linkage_bump",
        },
        Bump {
            domain: Domain::Nonnegative,
            parameter: model.dividend_volatility,
            size: sizes[2],
            field: "lsv_dividend_volatility_bump",
        },
        Bump {
            domain: Domain::Correlation,
            parameter: model.equity_dividend_correlation,
            size: sizes[3],
            field: "lsv_equity_dividend_correlation_bump",
        },
    ]
}

/// The scenarios of dividend model risk: the parameter `k / 2` moved down (even
/// `k`) or up (odd `k`), all others held.
pub open spec fn dividend_model_scenario<R: Scalar, W: World<R>>(
    w: W,
    path: W::Path,
    calibration: LsvCalibration<R>,
    model: BuehlerDividendModel<R>,
    sizes: Seq<R>,
) -> spec_fn(int) -> Result<W::Path, MonteCarloError> {
    |k: int|
        {
            let up = k % 2 == 1;
            if k / 2 == 0 {
                let bumped = BuehlerDividendModel {
                    mean_reversion: moved(model.mean_reversion, sizes[0], up),
                    ..model
                };
                if w.dividend_valid(bumped) {
                    dividend_scenario(w, path, calibration, bumped)
                } else {
                    Err(invalid_field("lsv_bumped_dividend_model"))
                }
            } else if k / 2 == 1 {
                let bumped = BuehlerDividendModel {
                    equity_linkage: moved(model.equity_linkage, sizes[1], up),
                    ..model
                };
                if w.dividend_valid(bumped) {
                    dividend_scenario(w, path, calibration, bumped)
                } else {
                    Err(invalid_field("lsv_bumped_dividend_model"))
                }
            } else if k / 2 == 2 {
                let bumped = BuehlerDividendModel {
                    dividend_volatility: moved(model.dividend_volatility, sizes[2], up),
                    ..model
                };
                if w.dividend_valid(bumped) {
                    dividend_scenario(w, path, calibration, bumped)
                } else {
                    Err(invalid_field("lsv_bumped_dividend_model"))
                }
            } else {
                let bumped = BuehlerDividendModel {
                    equity_dividend_correlation: moved(
                        model.equity_dividend_correlation,
                        sizes[3],
                        up,
                    ),
                    ..model
                };
                if w.dividend_valid(bumped) {
                    dividend_scenario(w, path, calibration, bumped)
                } else {
                    Err(invalid_field("lsv_bumped_dividend_model"))
                }
            }
        }
}

/// Makes the scenario `k` of dividend model risk.
fn dividend_model_path<R: Scalar, M: Math<R>, W: World<R>>(
    m: &M,
    w: &W,
    path: &W::Path,
    calibration: &LsvCalibration<R>,
    model: &BuehlerDividendModel<R>,
    sizes: &Vec<R>,
    k: usize,
) -> (r: Result<W::Path, MonteCarloError>)
    requires
        sizes@.len() == 4,
        k < 8,
    ensures
        r == dividend_model_scenario(*w, *path, *calibration, *model, sizes@)(k as int),
{
    let up = k % 2 == 1;
    if k / 2 == 0 {
        let x = shift(m, model.mean_reversion, sizes[0], up);
        let bumped = BuehlerDividendModel {
            mean_reversion: x,
            equity_linkage: model.equity_linkage,
            dividend_volatility: model.dividend_volatility,
            equity_dividend_correlation: model.equity_dividend_correlation,
        };
        if !w.is_dividend_model(&bumped) {
            return Err(invalid("lsv_bumped_dividend_model"));
        }
        fixed_calibration_dividend_model_scenario(m, w, path, calibration, &bumped)
    } else if k / 2 == 1 {
        let x = shift(m, model.equity_linkage, sizes[1], up);
        let bumped = BuehlerDividendModel {
            mean_reversion: model.mean_reversion,
            equity_linkage: x,
            dividend_volatility: model.dividend_volatility,
            equity_dividend_correlation: model.equity_dividend_correlation,
        };
        if !w.is_dividend_model(&bumped) {
            return Err(invalid("lsv_bumped_dividend_model"));
        }
        fixed_calibration_dividend_model_scenario(m, w, path, calibration, &bumped)
    } else if k / 2 == 2 {
        let x = shift(m, model.dividend_volatility, sizes[2], up);
        let bumped = BuehlerDividendModel {
            mean_reversion: model.mean_reversion,
            equity_linkage: model.equity_linkage,
            dividend_volatility: x,
            equity_dividend_correlation: model.equity_dividend_correlation,
        };
        if !w.is_dividend_model(&bumped) {
            return Err(invalid("lsv_bumped_dividend_model"));
        }
        fixed_calibration_dividend_model_scenario(m, w, path, calibration, &bumped)
    } else {
        let x = shift(m, model.equity_dividend_correlation, sizes[3], up);
        let bumped = BuehlerDividendModel {
            mean_reversion: model.mean_reversion,
            equity_linkage: model.equity_linkage,
            dividend_volatility: model.dividend_volatility,
            equity_dividend_correlation: x,
        };
        if !w.is_dividend_model(&bumped) {
            return Err(invalid("lsv_bumped_dividend_model"));
        }
        fixed_calibration_dividend_model_scenario(m, w, path, calibration, &bumped)
    }
}

/// Makes the scenarios of dividend model risk, in their order.
fn dividend_model_paths<R: Scalar, M: Math<R>, W: World<R>>(
    m: &M,
    w: &W,
    path: &W::Path,
    calibration: &LsvCalibration<R>,
    model: &BuehlerDividendModel<R>,
    sizes: &Vec<R>,
) -> (r: Result<Vec<W::Path>, MonteCarloError>)
    requires
        sizes@.len() == 4,
    ensures
        (match r {
            Ok(v) => Ok(v@),
            Err(e) => Err(e),
        }) == gather(8, dividend_model_scenario(*w, *path, *calibration, *model, sizes@)),
        r matches Ok(v) ==> v@.len() == 8,
{
    let ghost f = dividend_model_scenario(*w, *path, *calibration, *model, sizes@);
    let mut paths: Vec<W::Path> = Vec::new();
    let mut k: usize = 0;
    while k < 8
        invariant
            k <= 8,
            sizes@.len() == 4,
            f == dividend_model_scenario(*w, *path, *calibration, *model, sizes@),
            paths@.len() == k,
            gather(k as nat, f) == Ok::<Seq<W::Path>, MonteCarloError>(paths@),
        decreases 8 - k,
    {
        match dividend_model_path(m, w, path, calibration, model, sizes, k) {
            Err(e) => {
                proof {
                    assert(gather((k + 1) as nat, f) == Err::<Seq<W::Path>, MonteCarloError>(e));
                    gather_stops((k + 1) as nat, 8, f);
                }
                return Err(e);
            },
            Ok(path) => {
                paths.push(path);
            },
        }
        k = k + 1;
    }
    Ok(paths)
}

/// The labels of dividend model risk.
pub open spec fn dividend_model_labels() -> Seq<&'static str> {
    seq![
        "dividend_mean_reversion",
        "equity_linkage",
        "dividend_volatility",
        "equity_dividend_correlation",
    ]
}

/// The dividend model risk of a plan, or the first reason against it.
pub open spec fn dividend_model_risk<R: Scalar, B: Backend<R>, W: World<R>>(
    m: Model<R>,
    b: B,
    w: W,
    plan: StochasticDividendPricingPlan<R, W::Path>,
    sizes: Seq<R>,
) -> Result<BumpReport<R>, MonteCarloError> {
    if !plan.risk_supported {
        Err(
            unsupported_risk(
                "stochastic-dividend LSV discontinuous payoff requires explicit smoothing",
            ),
        )
    } else {
        match plan.lsv {
            None => Err(
                unsupported_risk(
                    "dividend-model LSV risk requires a stochastic-dividend residual LSV plan",
                ),
            ),
            Some(calibration) => if !plan.path_is_lsv {
                Err(
                    unsupported_risk(
                        "dividend-model LSV risk requires a residual LSV pricing path",
                    ),
                )
            } else {
                let bumps = dividend_model_bumps(plan.model, sizes);
                let scenario = dividend_model_scenario(
                    w,
                    plan.path,
                    calibration,
                    plan.model,
                    sizes,
                );
                match bumps_checked(m, bumps) {
                    Err(e) => Err(e),
                    Ok(_) => match gather(8, scenario) {
                        Err(e) => Err(e),
                        Ok(_) => match plan.job.executor_failure {
                            Some(e) => Err(e),
                            None => bumped(
                                m,
                                b,
                                w,
                                plan,
                                bumps,
                                scenario,
                                dividend_model_labels(),
                                "lsv_dividend_model_standard_error",
                                "lsv_dividend_model_risk_estimator",
                                "buehler-residual-lsv-common-noise-fixed-calibration-dividend-model-v1",
                            ),
                        },
                    },
                }
            },
        }
    }
}

impl<R: Scalar, P> StochasticDividendPricingPlan<R, P> {
    /// Central-difference risk in the parameters of the dividend model. They do not
    /// enter the calibration, so the calibrated surface is kept.
    pub fn evaluate_lsv_dividend_model_risk<M: Math<R>, B: Backend<R>, W: World<R, Path = P>>(
        &self,
        m: &M,
        b: &B,
        w: &W,
        dividend_mean_reversion_bump: R,
        equity_linkage_bump: R,
        dividend_volatility_bump: R,
        equity_dividend_correlation_bump: R,
    ) -> (r: Result<StochasticDividendLsvDividendModelRisk<R>, MonteCarloError>)
        requires
            self.job.valid(),
        ensures
            (match r {
                Ok(risk) => Ok(risk.report()),
                Err(e) => Err(e),
            }) == dividend_model_risk(
                m.model(),
                *b,
                *w,
                *self,
                seq![
                    dividend_mean_reversion_bump,
                    equity_linkage_bump,
                    dividend_volatility_bump,
                    equity_dividend_correlation_bump,
                ],
            ),
            r matches Ok(risk) ==> risk.derivatives@.len() == 4,
    {
        if !self.risk_supported {
            return Err(
                MonteCarloError::UnsupportedRiskForModel {
                    model: "stochastic-dividend LSV discontinuous payoff requires explicit smoothing",
                },
            );
        }
        let calibration = match &self.lsv {
            Some(calibration) => calibration,
            None => {
                return Err(MonteCarloError::UnsupportedRiskForModel {
                    model: "dividend-model LSV risk requires a stochastic-dividend residual LSV plan",
                });
            },
        };
        if !self.path_is_lsv {
            return Err(MonteCarloError::UnsupportedRiskForModel {
                model: "dividend-model LSV risk requires a residual LSV pricing path",
            });
        }
        let model = &self.model;
        let sizes: Vec<R> = vec![
            dividend_mean_reversion_bump,
            equity_linkage_bump,
            dividend_volatility_bump,
            equity_dividend_correlation_bump,
        ];
        assert(
            sizes@ =~= seq![
                dividend_mean_reversion_bump,
                equity_linkage_bump,
                dividend_volatility_bump,
                equity_dividend_correlation_bump,
            ]
        );
        let bumps: Vec<Bump<R>> = vec![
            Bump {
                domain: Domain::Nonnegative,
                parameter: model.mean_reversion,
                size: sizes[0],
                field: "lsv_dividend_mean_reversion_bump",
            },
            Bump {
                domain: Domain::UnitInterval,
                parameter: model.equity_linkage,
                size: sizes[1],
                field: "lsv_equity_linkage_bump",
            },
            Bump {
                domain: Domain::Nonnegative,
                parameter: model.dividend_volatility,
                size: sizes[2],
                field: "lsv_dividend_volatility_bump",
            },
            Bump {
                domain: Domain::Correlation,
                parameter: model.equity_dividend_correlation,
                size: sizes[3],
                field: "lsv_equity_dividend_correlation_bump",
            },
        ];
        assert(bumps@ =~= dividend_model_bumps(*model, sizes@));
        if let Err(e) = validate_bumps(m, &bumps) {
            return Err(e);
        }
        let scenarios = match dividend_model_paths(m, w, &self.path, calibration, model, &sizes) {
            Err(e) => return Err(e),
            Ok(scenarios) => scenarios,
        };
        if let Some(e) = self.job.executor_failure {
            return Err(e);
        }
        let labels: Vec<&'static str> = vec![
            "dividend_mean_reversion",
            "equity_linkage",
            "dividend_volatility",
            "equity_dividend_correlation",
        ];
        assert(labels@ =~= dividend_model_labels());
        match assemble(
            m,
            b,
            w,
            self,
            &bumps,
            &scenarios,
            &labels,
            "lsv_dividend_model_standard_error",
            "lsv_dividend_model_risk_estimator",
            "buehler-residual-lsv-common-noise-fixed-calibration-dividend-model-v1",
        ) {
            Err(e) => Err(e),
            Ok(a) => Ok(
                StochasticDividendLsvDividendModelRisk {
                    price: a.price,
                    parameter_labels: a.labels,
                    derivatives: a.derivatives,
                    standard_errors: a.standard_errors,
                    parameter_bumps: a.bumps,
                    method: a.method,
                },
            ),
        }
    }
}

/// Correlation risk of a one-factor plan.
pub struct StochasticDividendLsvCorrelationRisk<R> {
    pub price: StochasticDividendPrice<R>,
    pub parameter_labels: Vec<String>,
    pub derivatives: Vec<R>,
    pub standard_errors: Vec<R>,
    pub correlation_bumps: Vec<R>,
    pub method: &'static str,
}

impl<R: Scalar> StochasticDividendLsvCorrelationRisk<R> {
    /// The report, with its vectors as sequences.
    pub open spec fn report(self) -> BumpReport<R> {
        BumpReport {
            price: self.price,
            labels: label_text(self.parameter_labels@),
            derivatives: self.derivatives@,
            standard_errors: self.standard_errors@,
            bumps: self.correlation_bumps@,
            method: self.method@,
        }
    }

    /// The derivative in the correlation of equity and volatility.
    pub fn equity_volatility_correlation_derivative(&self) -> (d: R)
        requires
            self.derivatives@.len() == 2,
        ensures
            d == self.derivatives@[0],
            self.report().labels == literal_text(correlation_labels()) ==> stands_under(
                self.report().labels,
                self.derivatives@,
                "equity_volatility_correlation",
                d,
            ),
    {
        let d = self.derivatives[0];
        proof {
            let labels = self.report().labels;
            if labels == literal_text(correlation_labels()) {
                assert(labels[0] == "equity_volatility_correlation"@);
            }
        }
        d
    }

    /// The derivative in the correlation of dividend and volatility.
    pub fn dividend_volatility_correlation_derivative(&self) -> (d: R)
        requires
            self.derivatives@.len() == 2,
        ensures
            d == self.derivatives@[1],
            self.report().labels == literal_text(correlation_labels()) ==> stands_under(
                self.report().labels,
                self.derivatives@,
                "dividend_volatility_correlation",
                d,
            ),
    {
        let d = self.derivatives[1];
        proof {
            let labels = self.report().labels;
            if labels == literal_text(correlation_labels()) {
                assert(labels[1] == "dividend_volatility_correlation"@);
            }
        }
        d
    }
}

/// The bumps of correlation risk, in the order of validation.
pub open spec fn correlation_bumps<R: Scalar>(
    factor: Bergomi1Factor<R>,
    correlation: R,
    sizes: Seq<R>,
) -> Seq<Bump<R>> {
    seq![
        Bump {
            domain: Domain::Correlation,
            parameter: factor.correlation,
            size: sizes[0],
            field: "lsv_bergomi_equity_volatility_correlation_bump",
        },
        Bump {
            domain: Domain::Correlation,
            parameter: correlation,
            size: sizes[1],
            field: "lsv_bergomi_dividend_volatility_correlation_bump",
        },
    ]
}

/// The scenarios of correlation risk: the parameter `k / 2` moved down (even
/// `k`) or up (odd `k`), all others held.
pub open spec fn correlation_scenario<R: Scalar, W: World<R>>(
    w: W,
    path: W::Path,
    factor: Bergomi1Factor<R>,
    correlation: R,
    sizes: Seq<R>,
) -> spec_fn(int) -> Result<W::Path, MonteCarloError> {
    |k: int|
        {
            let up = k % 2 == 1;
            if k / 2 == 0 {
                recalibrated_one(w, path, Bergomi1Factor {
                    correlation: moved(factor.correlation, sizes[0], up),
                    ..factor
                }, correlation)
            } else {
                w.attached_one(path, factor, moved(correlation, sizes[1], up), w.surface_of())
            }
        }
}

/// Makes the scenario `k` of correlation risk.
fn correlation_path<R: Scalar, M: Math<R>, W: World<R>>(
    m: &M,
    w: &W,
    path: &W::Path,
    factor: &Bergomi1Factor<R>,
    correlation: R,
    sizes: &Vec<R>,
    k: usize,
) -> (r: Result<W::Path, MonteCarloError>)
    requires
        sizes@.len() == 2,
        k < 4,
    ensures
        r == correlation_scenario(*w, *path, *factor, correlation, sizes@)(k as int),
{
    let up = k % 2 == 1;
    if k / 2 == 0 {
        let x = shift(m, factor.correlation, sizes[0], up);
        let bumped = Bergomi1Factor {
            mean_reversion: factor.mean_reversion,
            vol_of_vol: factor.vol_of_vol,
            correlation: x,
        };
        recalibrated_one_factor_scenario(w, path, &bumped, correlation)
    } else {
        let x = shift(m, correlation, sizes[1], up);
        w.attach_one(path, factor, x, w.surface())
    }
}

/// Makes the scenarios of correlation risk, in their order.
fn correlation_paths<R: Scalar, M: Math<R>, W: World<R>>(
    m: &M,
    w: &W,
    path: &W::Path,
    factor: &Bergomi1Factor<R>,
    correlation: R,
    sizes: &Vec<R>,
) -> (r: Result<Vec<W::Path>, MonteCarloError>)
    requires
        sizes@.len() == 2,
    ensures
        (match r {
            Ok(v) => Ok(v@),
            Err(e) => Err(e),
        }) == gather(4, correlation_scenario(*w, *path, *factor, correlation, sizes@)),
        r matches Ok(v) ==> v@.len() == 4,
{
    let ghost f = correlation_scenario(*w, *path, *factor, correlation, sizes@);
    let mut paths: Vec<W::Path> = Vec::new();
    let mut k: usize = 0;
    while k < 4
        invariant
            k <= 4,
            sizes@.len() == 2,
            f == correlation_scenario(*w, *path, *factor, correlation, sizes@),
            paths@.len() == k,
            gather(k as nat, f) == Ok::<Seq<W::Path>, MonteCarloError>(paths@),
        decreases 4 - k,
    {
        match correlation_path(m, w, path, factor, correlation, sizes, k) {
            Err(e) => {
                proof {
                    assert(gather((k + 1) as nat, f) == Err::<Seq<W::Path>, MonteCarloError>(e));
                    gather_stops((k + 1) as nat, 4, f);
                }
                return Err(e);
            },
            Ok(path) => {
                paths.push(path);
            },
        }
        k = k + 1;
    }
    Ok(paths)
}

/// The labels of correlation risk.
pub open spec fn correlation_labels() -> Seq<&'static str> {
    seq![
        "equity_volatility_correlation",
        "dividend_volatility_correlation",
    ]
}

/// The correlation risk of a plan, or the first reason against it.
pub open spec fn correlation_risk<R: Scalar, B: Backend<R>, W: World<R>>(
    m: Model<R>,
    b: B,
    w: W,
    plan: StochasticDividendPricingPlan<R, W::Path>,
    sizes: Seq<R>,
) -> Result<BumpReport<R>, MonteCarloError> {
    if !plan.risk_supported {
        Err(
            unsupported_risk(
                "stochastic-dividend LSV discontinuous payoff requires explicit smoothing",
            ),
        )
    } else {
        match plan.lsv {
            None => Err(
                unsupported_risk(
                    "Bergomi LSV correlation risk requires a stochastic-dividend residual LSV plan",
                ),
            ),
            Some(LsvCalibration::Two { .. }) => Err(
                unsupported_risk("1F Bergomi LSV correlation risk does not apply to a 2F plan"),
            ),
            Some(LsvCalibration::Rough { .. }) => Err(
                unsupported_risk("1F Bergomi LSV correlation risk does not apply to a rough plan"),
            ),
            Some(LsvCalibration::One {
                factor,
                dividend_volatility_correlation: correlation,
            }) => match bumps_checked(m, correlation_bumps(factor, correlation, sizes)) {
                Err(e) => Err(e),
                Ok(_) => match plan.job.executor_failure {
                    Some(e) => Err(e),
                    None => if !w.one_factor_valid(
                        Bergomi1Factor {
                            correlation: moved(factor.correlation, sizes[0], false),
                            ..factor
                        },
                    ) {
                        Err(invalid_field("lsv_bergomi_equity_volatility_correlation_down"))
                    } else if !w.one_factor_valid(
                        Bergomi1Factor {
                            correlation: moved(factor.correlation, sizes[0], true),
                            ..factor
                        },
                    ) {
                        Err(invalid_field("lsv_bergomi_equity_volatility_correlation_up"))
                    } else {
                        bumped(
                    m,
                    b,
                    w,
                    plan,
                    correlation_bumps(factor, correlation, sizes),
                    correlation_scenario(w, plan.path, factor, correlation, sizes),
                    correlation_labels(),
                    "lsv_correlation_standard_error",
                    "lsv_correlation_risk_estimator",
                    "buehler-residual-lsv-common-noise-bergomi-1f-correlation-v1",
                )
                    },
                },
            },
        }
    }
}

impl<R: Scalar, P> StochasticDividendPricingPlan<R, P> {
    /// Central-difference correlation risk of a one-factor plan. The correlation of
    /// equity and volatility is bumped with a recalibration, that of dividend and
    /// volatility with the calibrated surface. Both bumped models are made before
    /// either is calibrated.
    pub fn evaluate_lsv_correlation_risk<M: Math<R>, B: Backend<R>, W: World<R, Path = P>>(
        &self,
        m: &M,
        b: &B,
        w: &W,
        equity_volatility_correlation_bump: R,
        dividend_volatility_correlation_bump: R,
    ) -> (r: Result<StochasticDividendLsvCorrelationRisk<R>, MonteCarloError>)
        requires
            self.job.valid(),
        ensures
            (match r {
                Ok(risk) => Ok(risk.report()),
                Err(e) => Err(e),
            }) == correlation_risk(
                m.model(),
                *b,
                *w,
                *self,
                seq![equity_volatility_correlation_bump, dividend_volatility_correlation_bump],
            ),
            r matches Ok(risk) ==> risk.derivatives@.len() == 2,
    {
        if !self.risk_supported {
            return Err(
                MonteCarloError::UnsupportedRiskForModel {
                    model: "stochastic-dividend LSV discontinuous payoff requires explicit smoothing",
                },
            );
        }
        let (factor, correlation) = match &self.lsv {
            Some(LsvCalibration::One {
                factor,
                dividend_volatility_correlation,
            }) => (factor, *dividend_volatility_correlation),
            Some(LsvCalibration::Two { .. }) => {
                return Err(MonteCarloError::UnsupportedRiskForModel {
                    model: "1F Bergomi LSV correlation risk does not apply to a 2F plan",
                });
            },
            Some(LsvCalibration::Rough { .. }) => {
                return Err(MonteCarloError::UnsupportedRiskForModel {
                    model: "1F Bergomi LSV correlation risk does not apply to a rough plan",
                });
            },
            None => {
                return Err(MonteCarloError::UnsupportedRiskForModel {
                    model: "Bergomi LSV correlation risk requires a stochastic-dividend residual LSV plan",
                });
            },
        };
        let sizes: Vec<R> = vec![
            equity_volatility_correlation_bump,
            dividend_volatility_correlation_bump,
        ];
        assert(
            sizes@ =~= seq![
                equity_volatility_correlation_bump,
                dividend_volatility_correlation_bump,
            ]
        );
        let bumps: Vec<Bump<R>> = vec![
            Bump {
                domain: Domain::Correlation,
                parameter: factor.correlation,
                size: sizes[0],
                field: "lsv_bergomi_equity_volatility_correlation_bump",
            },
            Bump {
                domain: Domain::Correlation,
                parameter: correlation,
                size: sizes[1],
                field: "lsv_bergomi_dividend_volatility_correlation_bump",
            },
        ];
        assert(bumps@ =~= correlation_bumps(*factor, correlation, sizes@));
        if let Err(e) = validate_bumps(m, &bumps) {
            return Err(e);
        }
        if let Some(e) = self.job.executor_failure {
            return Err(e);
        }
        let down = Bergomi1Factor {
            mean_reversion: factor.mean_reversion,
            vol_of_vol: factor.vol_of_vol,
            correlation: shift(m, factor.correlation, sizes[0], false),
        };
        if !w.is_one_factor(&down) {
            return Err(invalid("lsv_bergomi_equity_volatility_correlation_down"));
        }
        let up = Bergomi1Factor {
            mean_reversion: factor.mean_reversion,
            vol_of_vol: factor.vol_of_vol,
            correlation: shift(m, factor.correlation, sizes[0], true),
        };
        if !w.is_one_factor(&up) {
            return Err(invalid("lsv_bergomi_equity_volatility_correlation_up"));
        }
        let scenarios = match correlation_paths(m, w, &self.path, factor, correlation, &sizes) {
            Err(e) => return Err(e),
            Ok(scenarios) => scenarios,
        };
        let labels: Vec<&'static str> = vec![
            "equity_volatility_correlation",
            "dividend_volatility_correlation",
        ];
        assert(labels@ =~= correlation_labels());
        match assemble(
            m,
            b,
            w,
            self,
            &bumps,
            &scenarios,
            &labels,
            "lsv_correlation_standard_error",
            "lsv_correlation_risk_estimator",
            "buehler-residual-lsv-common-noise-bergomi-1f-correlation-v1",
        ) {
            Err(e) => Err(e),
            Ok(a) => Ok(
                StochasticDividendLsvCorrelationRisk {
                    price: a.price,
                    parameter_labels: a.labels,
                    derivatives: a.derivatives,
                    standard_errors: a.standard_errors,
                    correlation_bumps: a.bumps,
                    method: a.method,
                },
            ),
        }
    }
}

/// Parameter risk of a one-factor plan.
pub struct StochasticDividendLsvBergomiRisk<R> {
    pub price: StochasticDividendPrice<R>,
    pub parameter_labels: Vec<String>,
    pub derivatives: Vec<R>,
    pub standard_errors: Vec<R>,
    pub parameter_bumps: Vec<R>,
    pub method: &'static str,
}

impl<R: Scalar> StochasticDividendLsvBergomiRisk<R> {
    /// The report, with its vectors as sequences.
    pub open spec fn report(self) -> BumpReport<R> {
        BumpReport {
            price: self.price,
            labels: label_text(self.parameter_labels@),
            derivatives: self.derivatives@,
            standard_errors: self.standard_errors@,
            bumps: self.parameter_bumps@,
            method: self.method@,
        }
    }

    /// The derivative in the mean reversion.
    pub fn mean_reversion_derivative(&self) -> (d: R)
        requires
            self.derivatives@.len() == 2,
        ensures
            d == self.derivatives@[0],
            self.report().labels == literal_text(parameter_labels()) ==> stands_under(
                self.report().labels,
                self.derivatives@,
                "bergomi_mean_reversion",
                d,
            ),
    {
        let d = self.derivatives[0];
        proof {
            let labels = self.report().labels;
            if labels == literal_text(parameter_labels()) {
                assert(labels[0] == "bergomi_mean_reversion"@);
            }
        }
        d
    }

    /// The derivative in the volatility of volatility.
    pub fn vol_of_vol_derivative(&self) -> (d: R)
        requires
            self.derivatives@.len() == 2,
        ensures
            d == self.derivatives@[1],
            self.report().labels == literal_text(parameter_labels()) ==> stands_under(
                self.report().labels,
                self.derivatives@,
                "bergomi_vol_of_vol",
                d,
            ),
    {
        let d = self.derivatives[1];
        proof {
            let labels = self.report().labels;
            if labels == literal_text(parameter_labels()) {
                assert(labels[1] == "bergomi_vol_of_vol"@);
            }
        }
        d
    }
}

/// The bumps of parameter risk, in the order of validation.
pub open spec fn parameter_bumps<R: Scalar>(
    factor: Bergomi1Factor<R>,
    correlation: R,
    sizes: Seq<R>,
) -> Seq<Bump<R>> {
    seq![
        Bump {
            domain: Domain::Nonnegative,
            parameter: factor.mean_reversion,
            size: sizes[0],
            field: "lsv_bergomi_mean_reversion_bump",
        },
        Bump {
            domain: Domain::Nonnegative,
            parameter: factor.vol_of_vol,
            size: sizes[1],
            field: "lsv_bergomi_vol_of_vol_bump",
        },
    ]
}

/// The scenarios of parameter risk: the parameter `k / 2` moved down (even
/// `k`) or up (odd `k`), all others held.
pub open spec fn parameter_scenario<R: Scalar, W: World<R>>(
    w: W,
    path: W::Path,
    factor: Bergomi1Factor<R>,
    correlation: R,
    sizes: Seq<R>,
) -> spec_fn(int) -> Result<W::Path, MonteCarloError> {
    |k: int|
        {
            let up = k % 2 == 1;
            if k / 2 == 0 {
                let bumped = Bergomi1Factor {
                    mean_reversion: moved(factor.mean_reversion, sizes[0], up),
                    ..factor
                };
                if w.one_factor_valid(bumped) {
                    recalibrated_one(w, path, bumped, correlation)
                } else {
                    Err(
                        invalid_field(
                            if up { "lsv_bergomi_mean_reversion_up" } else { "lsv_bergomi_mean_reversion_down" },
                        ),
                    )
                }
            } else {
                let bumped = Bergomi1Factor {
                    vol_of_vol: moved(factor.vol_of_vol, sizes[1], up),
                    ..factor
                };
                if w.one_factor_valid(bumped) {
                    recalibrated_one(w, path, bumped, correlation)
                } else {
                    Err(
                        invalid_field(
                            if up { "lsv_bergomi_vol_of_vol_up" } else { "lsv_bergomi_vol_of_vol_down" },
                        ),
                    )
                }
            }
        }
}

/// Makes the scenario `k` of parameter risk.
fn parameter_path<R: Scalar, M: Math<R>, W: World<R>>(
    m: &M,
    w: &W,
    path: &W::Path,
    factor: &Bergomi1Factor<R>,
    correlation: R,
    sizes: &Vec<R>,
    k: usize,
) -> (r: Result<W::Path, MonteCarloError>)
    requires
        sizes@.len() == 2,
        k < 4,
    ensures
        r == parameter_scenario(*w, *path, *factor, correlation, sizes@)(k as int),
{
    let up = k % 2 == 1;
    if k / 2 == 0 {
        let x = shift(m, factor.mean_reversion, sizes[0], up);
        let bumped = Bergomi1Factor {
            mean_reversion: x,
            vol_of_vol: factor.vol_of_vol,
            correlation: factor.correlation,
        };
        if !w.is_one_factor(&bumped) {
            return Err(
                invalid(
                    if up { "lsv_bergomi_mean_reversion_up" } else { "lsv_bergomi_mean_reversion_down" },
                ),
            );
        }
        recalibrated_one_factor_scenario(w, path, &bumped, correlation)
    } else {
        let x = shift(m, factor.vol_of_vol, sizes[1], up);
        let bumped = Bergomi1Factor {
            mean_reversion: factor.mean_reversion,
            vol_of_vol: x,
            correlation: factor.correlation,
        };
        if !w.is_one_factor(&bumped) {
            return Err(
                invalid(
                    if up { "lsv_bergomi_vol_of_vol_up" } else { "lsv_bergomi_vol_of_vol_down" },
                ),
            );
        }
        recalibrated_one_factor_scenario(w, path, &bumped, correlation)
    }
}

/// Makes the scenarios of parameter risk, in their order.
fn parameter_paths<R: Scalar, M: Math<R>, W: World<R>>(
    m: &M,
    w: &W,
    path: &W::Path,
    factor: &Bergomi1Factor<R>,
    correlation: R,
    sizes: &Vec<R>,
) -> (r: Result<Vec<W::Path>, MonteCarloError>)
    requires
        sizes@.len() == 2,
    ensures
        (match r {
            Ok(v) => Ok(v@),
            Err(e) => Err(e),
        }) == gather(4, parameter_scenario(*w, *path, *factor, correlation, sizes@)),
        r matches Ok(v) ==> v@.len() == 4,
{
    let ghost f = parameter_scenario(*w, *path, *factor, correlation, sizes@);
    let mut paths: Vec<W::Path> = Vec::new();
    let mut k: usize = 0;
    while k < 4
        invariant
            k <= 4,
            sizes@.len() == 2,
            f == parameter_scenario(*w, *path, *factor, correlation, sizes@),
            paths@.len() == k,
            gather(k as nat, f) == Ok::<Seq<W::Path>, MonteCarloError>(paths@),
        decreases 4 - k,
    {
        match parameter_path(m, w, path, factor, correlation, sizes, k) {
            Err(e) => {
                proof {
                    assert(gather((k + 1) as nat, f) == Err::<Seq<W::Path>, MonteCarloError>(e));
                    gather_stops((k + 1) as nat, 4, f);
                }
                return Err(e);
            },
            Ok(path) => {
                paths.push(path);
            },
        }
        k = k + 1;
    }
    Ok(paths)
}

/// The labels of parameter risk.
pub open spec fn parameter_labels() -> Seq<&'static str> {
    seq![
        "bergomi_mean_reversion",
        "bergomi_vol_of_vol",
    ]
}

/// The parameter risk of a plan, or the first reason against it.
pub open spec fn parameter_risk<R: Scalar, B: Backend<R>, W: World<R>>(
    m: Model<R>,
    b: B,
    w: W,
    plan: StochasticDividendPricingPlan<R, W::Path>,
    sizes: Seq<R>,
) -> Result<BumpReport<R>, MonteCarloError> {
    if !plan.risk_supported {
        Err(
            unsupported_risk(
                "stochastic-dividend LSV discontinuous payoff requires explicit smoothing",
            ),
        )
    } else {
        match plan.lsv {
            None => Err(
                unsupported_risk(
                    "Bergomi LSV parameter risk requires a stochastic-dividend residual LSV plan",
                ),
            ),
            Some(LsvCalibration::Two { .. }) => Err(
                unsupported_risk("1F Bergomi LSV parameter risk does not apply to a 2F plan"),
            ),
            Some(LsvCalibration::Rough { .. }) => Err(
                unsupported_risk("1F Bergomi LSV parameter risk does not apply to a rough plan"),
            ),
            Some(LsvCalibration::One {
                factor,
                dividend_volatility_correlation: correlation,
            }) => match bumps_checked(m, parameter_bumps(factor, correlation, sizes)) {
                Err(e) => Err(e),
                Ok(_) => match plan.job.executor_failure {
                    Some(e) => Err(e),
                    None => bumped(
                    m,
                    b,
                    w,
                    plan,
                    parameter_bumps(factor, correlation, sizes),
                    parameter_scenario(w, plan.path, factor, correlation, sizes),
                    parameter_labels(),
                    "lsv_bergomi_parameter_standard_error",
                    "lsv_bergomi_parameter_risk_estimator",
                    "buehler-residual-lsv-common-noise-full-recalibration-bergomi-1f-v1",
                ),
                },
            },
        }
    }
}

impl<R: Scalar, P> StochasticDividendPricingPlan<R, P> {
    /// Central-difference parameter risk of a one-factor plan, with a recalibration for
    /// every bump. Seeds, shocks and all other parameters are held.
    pub fn evaluate_lsv_bergomi_parameter_risk<M: Math<R>, B: Backend<R>, W: World<R, Path = P>>(
        &self,
        m: &M,
        b: &B,
        w: &W,
        mean_reversion_bump: R,
        vol_of_vol_bump: R,
    ) -> (r: Result<StochasticDividendLsvBergomiRisk<R>, MonteCarloError>)
        requires
            self.job.valid(),
        ensures
            (match r {
                Ok(risk) => Ok(risk.report()),
                Err(e) => Err(e),
            }) == parameter_risk(
                m.model(),
                *b,
                *w,
                *self,
                seq![mean_reversion_bump, vol_of_vol_bump],
            ),
            r matches Ok(risk) ==> risk.derivatives@.len() == 2,
    {
        if !self.risk_supported {
            return Err(
                MonteCarloError::UnsupportedRiskForModel {
                    model: "stochastic-dividend LSV discontinuous payoff requires explicit smoothing",
                },
            );
        }
        let (factor, correlation) = match &self.lsv {
            Some(LsvCalibration::One {
                factor,
                dividend_volatility_correlation,
            }) => (factor, *dividend_volatility_correlation),
            Some(LsvCalibration::Two { .. }) => {
                return Err(MonteCarloError::UnsupportedRiskForModel {
                    model: "1F Bergomi LSV parameter risk does not apply to a 2F plan",
                });
            },
            Some(LsvCalibration::Rough { .. }) => {
                return Err(MonteCarloError::UnsupportedRiskForModel {
                    model: "1F Bergomi LSV parameter risk does not apply to a rough plan",
                });
            },
            None => {
                return Err(MonteCarloError::UnsupportedRiskForModel {
                    model: "Bergomi LSV parameter risk requires a stochastic-dividend residual LSV plan",
                });
            },
        };
        let sizes: Vec<R> = vec![mean_reversion_bump, vol_of_vol_bump];
        assert(sizes@ =~= seq![mean_reversion_bump, vol_of_vol_bump]);
        let bumps: Vec<Bump<R>> = vec![
            Bump {
                domain: Domain::Nonnegative,
                parameter: factor.mean_reversion,
                size: sizes[0],
                field: "lsv_bergomi_mean_reversion_bump",
            },
            Bump {
                domain: Domain::Nonnegative,
                parameter: factor.vol_of_vol,
                size: sizes[1],
                field: "lsv_bergomi_vol_of_vol_bump",
            },
        ];
        assert(bumps@ =~= parameter_bumps(*factor, correlation, sizes@));
        if let Err(e) = validate_bumps(m, &bumps) {
            return Err(e);
        }
        if let Some(e) = self.job.executor_failure {
            return Err(e);
        }
        let scenarios = match parameter_paths(m, w, &self.path, factor, correlation, &sizes) {
            Err(e) => return Err(e),
            Ok(scenarios) => scenarios,
        };
        let labels: Vec<&'static str> = vec![
            "bergomi_mean_reversion",
            "bergomi_vol_of_vol",
        ];
        assert(labels@ =~= parameter_labels());
        match assemble(
            m,
            b,
            w,
            self,
            &bumps,
            &scenarios,
            &labels,
            "lsv_bergomi_parameter_standard_error",
            "lsv_bergomi_parameter_risk_estimator",
            "buehler-residual-lsv-common-noise-full-recalibration-bergomi-1f-v1",
        ) {
            Err(e) => Err(e),
            Ok(a) => Ok(
                StochasticDividendLsvBergomiRisk {
                    price: a.price,
                    parameter_labels: a.labels,
                    derivatives: a.derivatives,
                    standard_errors: a.standard_errors,
                    parameter_bumps: a.bumps,
                    method: a.method,
                },
            ),
        }
    }
}

/// The price and the derivative with respect to the correlation of equity and
/// volatility do not depend on the bump of the correlation of dividend and volatility,
/// nor do their standard errors.
pub proof fn dividend_bump_does_not_matter<R: Scalar, B: Backend<R>, W: World<R>>(
    m: Model<R>,
    b: B,
    w: W,
    plan: StochasticDividendPricingPlan<R, W::Path>,
    equity_bump: R,
    first: R,
    second: R,
)
    ensures
        match (
            correlation_risk(m, b, w, plan, seq![equity_bump, first]),
            correlation_risk(m, b, w, plan, seq![equity_bump, second]),
        ) {
            (Ok(r), Ok(t)) => r.price == t.price && r.derivatives[0] == t.derivatives[0]
                && r.standard_errors[0] == t.standard_errors[0],
            _ => true,
        },
{
    let (x, y) = (seq![equity_bump, first], seq![equity_bump, second]);
    if let (Ok(r), Ok(t)) = (
        correlation_risk(m, b, w, plan, x),
        correlation_risk(m, b, w, plan, y),
    ) {
        if let Some(LsvCalibration::One { factor, dividend_volatility_correlation: correlation }) =
            plan.lsv {
            let (f, g) = (
                correlation_scenario(w, plan.path, factor, correlation, x),
                correlation_scenario(w, plan.path, factor, correlation, y),
            );
            let (p, q) = (
                correlation_bumps(factor, correlation, x),
                correlation_bumps(factor, correlation, y),
            );
            gather_values(4, f);
            gather_values(4, g);
            let (scenarios, others) = (gather(4, f)->Ok_0, gather(4, g)->Ok_0);
            assert(f(0) == g(0) && f(1) == g(1));
            assert(scenarios.take(2) =~= others.take(2));
            assert(sizes(p).take(1) =~= sizes(q).take(1));
            later_bumps_do_not_matter(
                m,
                b,
                w,
                plan.path,
                scenarios,
                sizes(p),
                others,
                sizes(q),
                1,
                plan.job,
                "lsv_correlation_standard_error",
                "lsv_correlation_risk_estimator",
                0,
            );
            later_bumps_do_not_matter(
                m,
                b,
                w,
                plan.path,
                scenarios,
                sizes(p),
                others,
                sizes(q),
                1,
                plan.job,
                "lsv_correlation_standard_error",
                "lsv_correlation_risk_estimator",
                1,
            );
        }
    }
}

} // verus!
