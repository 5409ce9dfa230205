//! The derivatives of a path with respect to the reversion and the volatilities of
//! the rate, at fixed normals: the covariances of the steps move, and with them the
//! rate, the claims and the discount factor of the payment.

use crate::errors::{invalid, invalid_field, MonteCarloError};
use crate::hw_cash::CashInputs;
use crate::hw_cash_risk::{
    b_mean_reversion_derivative, cash_coefficient_rate_derivatives, cash_rate_rows, decayed_slope,
    matrix_seen,
};
use crate::hw_path::{
    claims_within, node_growth, projection, square, CashClaim, RatePathView, RateStepView,
    StochasticDividendHullWhitePathPlan, StochasticDividendHullWhiteState,
};
use crate::hybrid_aad::taken;
use crate::hybrid_risk::{indexed, push_indexed};
use crate::linear::{
    are_rows_finite, build, chunk, collect_rows, collect_views, dot, dot_at, rows_finite,
    rows_seen, smallest_pivot, make_smallest_pivot, take_total, total, viewed, views,
};
use crate::pathwise::make_zeros;
use crate::quadrature::{add_all, integrate_panel, panel, Tolerance};
use crate::rates::{
    b, correlated, decayed, part_end, part_start, rate_field, transition_of, HullWhite1Factor,
    HybridCorrelation, RatesView,
};
use crate::results::{gather, gather_stops, seen};
use crate::reverse::Label;
use crate::sampling::{added, half, zeros};
use crate::scalar::{
    all_finite, lawful, le, literal, minus, negated, over, plus, same, times, Math, Model, Scalar,
};
use core::ops::Neg;
use vstd::prelude::*;

verus! {

/// The tolerance of the integrals of covariances.
pub open spec fn rate_tolerance<R: Scalar>() -> Tolerance<R> {
    Tolerance {
        absolute: over(literal(2), times(literal(10000000), literal(1000000))),
        relative: over(literal(2), times(literal(1000000), literal(1000000))),
        field: "hw_rate_quadrature_convergence",
    }
}

fn make_rate_tolerance<R: Scalar, M: Math<R>>(m: &M) -> (t: Tolerance<R>)
    ensures
        t == rate_tolerance::<R>(),
{
    m.laws();
    Tolerance {
        absolute: R::from(2u32) / (R::from(10000000u32) * R::from(1000000u32)),
        relative: R::from(2u32) / (R::from(1000000u32) * R::from(1000000u32)),
        field: "hw_rate_quadrature_convergence",
    }
}

/// How deep the integrals of covariances are halved.
pub const RATE_DEPTH: u32 = 24;

/// The correlation of two of the drivers of a step. The rate and its integral are
/// driven by the same noise.
pub open spec fn driver_correlation<R: Scalar>(corr: HybridCorrelation<R>, i: int, j: int) -> R {
    if i == j || (i >= 2 && j >= 2) {
        literal(1)
    } else if (i == 0 && j == 1) || (i == 1 && j == 0) {
        corr.equity_second
    } else if i == 0 || j == 0 {
        corr.equity_rate
    } else {
        corr.second_rate
    }
}

fn take_driver_correlation<R: Scalar, M: Math<R>>(
    m: &M,
    corr: HybridCorrelation<R>,
    i: usize,
    j: usize,
) -> (x: R)
    ensures
        x == driver_correlation(corr, i as int, j as int),
{
    m.laws();
    if i == j || (i >= 2 && j >= 2) {
        R::from(1u32)
    } else if (i == 0 && j == 1) || (i == 1 && j == 0) {
        corr.equity_second
    } else if i == 0 || j == 0 {
        corr.equity_rate
    } else {
        corr.second_rate
    }
}

/// How each driver of a step responds to the noise a time `tau` before its end.
pub open spec fn kernel<R: Scalar>(m: Model<R>, a: R, sigma: R, tau: R, i: int) -> R {
    if i < 2 {
        literal(1)
    } else if i == 2 {
        times(sigma, m.exp(times(negated(a), tau)))
    } else {
        times(sigma, decayed(m, a, tau))
    }
}

/// The derivative of [`kernel`] with respect to the reversion, or to the volatility
/// of the part.
pub open spec fn kernel_slope<R: Scalar>(
    m: Model<R>,
    a: R,
    sigma: R,
    tau: R,
    part: int,
    p: int,
    i: int,
) -> R {
    if p == 0 && i == 2 {
        times(times(negated(tau), sigma), m.exp(times(negated(a), tau)))
    } else if p == 0 && i == 3 {
        times(sigma, decayed_slope(m, a, tau))
    } else if p == part + 1 && i == 2 {
        m.exp(times(negated(a), tau))
    } else if p == part + 1 && i == 3 {
        decayed(m, a, tau)
    } else {
        literal(0)
    }
}

/// What is integrated over a part of a step, parameter by parameter and row by row
/// of the covariances.
pub open spec fn covariance_integrand<R: Scalar>(
    m: Model<R>,
    rates: RatesView<R>,
    corr: HybridCorrelation<R>,
    end: R,
    part: int,
) -> spec_fn(R) -> Result<Seq<R>, MonteCarloError> {
    let a = rates.mean_reversion;
    let sigma = rates.volatilities[part];
    let width = (16 * (1 + rates.volatilities.len())) as nat;
    |u: R|
        {
            let tau = minus(end, u);
            Ok(
                Seq::new(
                    width,
                    |c: int|
                        {
                            let p = c / 16;
                            let i = (c % 16) / 4;
                            let j = c % 4;
                            times(
                                driver_correlation(corr, i, j),
                                plus(
                                    times(
                                        kernel_slope(m, a, sigma, tau, part, p, i),
                                        kernel(m, a, sigma, tau, j),
                                    ),
                                    times(
                                        kernel(m, a, sigma, tau, i),
                                        kernel_slope(m, a, sigma, tau, part, p, j),
                                    ),
                                ),
                            )
                        },
                ),
            )
        }
}

fn take_kernel<R: Scalar, M: Math<R>>(m: &M, a: R, sigma: R, tau: R, i: usize) -> (x: R)
    ensures
        x == kernel(m.model(), a, sigma, tau, i as int),
{
    m.laws();
    if i < 2 {
        R::from(1u32)
    } else if i == 2 {
        sigma * m.exp(a.neg() * tau)
    } else {
        sigma * b(m, a, tau)
    }
}

fn take_kernel_slope<R: Scalar, M: Math<R>>(
    m: &M,
    a: R,
    sigma: R,
    tau: R,
    part: usize,
    p: usize,
    i: usize,
) -> (x: R)
    requires
        part < usize::MAX,
    ensures
        x == kernel_slope(m.model(), a, sigma, tau, part as int, p as int, i as int),
{
    m.laws();
    if p == 0 && i == 2 {
        tau.neg() * sigma * m.exp(a.neg() * tau)
    } else if p == 0 && i == 3 {
        sigma * b_mean_reversion_derivative(m, a, tau)
    } else if p == part + 1 && i == 2 {
        m.exp(a.neg() * tau)
    } else if p == part + 1 && i == 3 {
        b(m, a, tau)
    } else {
        R::from(0u32)
    }
}

/// The rates have few enough volatilities to be counted with their covariances.
pub open spec fn rates_sized<R>(rates: RatesView<R>) -> bool {
    16 * (1 + rates.volatilities.len()) <= usize::MAX
}

fn covariance_integrand_at<R: Scalar, M: Math<R>>(
    m: &M,
    rates: &HullWhite1Factor<R>,
    corr: HybridCorrelation<R>,
    end: R,
    part: usize,
    u: R,
) -> (r: Result<Vec<R>, MonteCarloError>)
    requires
        rates@.valid(),
        rates_sized(rates@),
        part < rates@.volatilities.len(),
    ensures
        seen(r) == covariance_integrand(m.model(), rates@, corr, end, part as int)(u),
        r matches Ok(v) ==> v@.len() == 16 * (1 + rates@.volatilities.len()),
{
    m.laws();
    let a = rates.mean_reversion;
    let sigma = rates.volatilities[part];
    let width: usize = 16 * (1 + rates.volatilities.len());
    let tau = end - u;
    let ghost want = covariance_integrand(m.model(), rates@, corr, end, part as int)(u)->Ok_0;
    let ghost entry = |c: int| want[c];
    let v_at = |c: usize| -> (x: R)
        requires
            c < width,
        ensures
            x == entry(c as int),
        {
            m.laws();
            let p: usize = c / 16;
            let i: usize = (c % 16) / 4;
            let j: usize = c % 4;
            take_driver_correlation(m, corr, i, j) * (take_kernel_slope(
                m,
                a,
                sigma,
                tau,
                part,
                p,
                i,
            ) * take_kernel(m, a, sigma, tau, j) + take_kernel(m, a, sigma, tau, i)
                * take_kernel_slope(m, a, sigma, tau, part, p, j))
        };
    let v = build(
        width,
        v_at,
        Ghost(entry),
    );
    assert(v@ =~= want);
    Ok(v)
}

/// The derivatives of the covariances of a step over its first `n` parts.
pub open spec fn covariance_parts<R: Scalar>(
    m: Model<R>,
    rates: RatesView<R>,
    corr: HybridCorrelation<R>,
    start: R,
    end: R,
    n: nat,
) -> Result<Seq<R>, MonteCarloError>
    decreases n,
{
    let width = (16 * (1 + rates.volatilities.len())) as nat;
    if n == 0 {
        Ok(zeros(width))
    } else {
        match covariance_parts(m, rates, corr, start, end, (n - 1) as nat) {
            Err(e) => Err(e),
            Ok(before) => {
                let lo = part_start(rates, start, n - 1);
                let hi = part_end(rates, end, n - 1);
                if le(hi, lo) {
                    Ok(before)
                } else {
                    match panel(
                        m,
                        covariance_integrand(m, rates, corr, end, n - 1),
                        lo,
                        hi,
                        minus(end, start),
                        rate_tolerance(),
                        RATE_DEPTH as nat,
                    ) {
                        Err(e) => Err(e),
                        Ok(part) => Ok(added(before, part)),
                    }
                }
            },
        }
    }
}

proof fn covariance_parts_stop<R: Scalar>(
    m: Model<R>,
    rates: RatesView<R>,
    corr: HybridCorrelation<R>,
    start: R,
    end: R,
    a: nat,
    n: nat,
)
    requires
        a <= n,
        covariance_parts(m, rates, corr, start, end, a) is Err,
    ensures
        covariance_parts(m, rates, corr, start, end, n) == covariance_parts(
            m,
            rates,
            corr,
            start,
            end,
            a,
        ),
    decreases n,
{
    if a < n {
        covariance_parts_stop(m, rates, corr, start, end, a, (n - 1) as nat);
    }
}

/// The derivatives of the covariances of a step, sixteen for each parameter.
pub open spec fn covariance_slopes<R: Scalar>(
    m: Model<R>,
    rates: RatesView<R>,
    corr: HybridCorrelation<R>,
    start: R,
    end: R,
) -> Result<Seq<R>, MonteCarloError> {
    if le(end, start) {
        Ok(zeros((16 * (1 + rates.volatilities.len())) as nat))
    } else {
        match covariance_parts(m, rates, corr, start, end, rates.volatility_times.len()) {
            Err(e) => Err(e),
            Ok(v) => if m.all_finite(v) {
                Ok(v)
            } else {
                Err(invalid_field("hw_covariance_tangent"))
            },
        }
    }
}

/// Takes the derivatives of the covariances of a step.
pub fn covariance_derivatives<R: Scalar, M: Math<R>>(
    m: &M,
    rates: &HullWhite1Factor<R>,
    corr: HybridCorrelation<R>,
    start: R,
    end: R,
) -> (r: Result<Vec<R>, MonteCarloError>)
    requires
        rates@.valid(),
        rates_sized(rates@),
    ensures
        seen(r) == covariance_slopes(m.model(), rates@, corr, start, end),
        r matches Ok(v) ==> v@.len() == 16 * (1 + rates@.volatilities.len()),
{
    m.laws();
    let width: usize = 16 * (1 + rates.volatilities.len());
    let mut all = make_zeros(m, width);
    if end <= start {
        return Ok(all);
    }
    let n = rates.volatility_times.len();
    let span = end - start;
    let mut i: usize = 0;
    while i < n
        invariant
            lawful::<R>(),
            rates@.valid(),
            rates_sized(rates@),
            n == rates@.volatility_times.len(),
            width == 16 * (1 + rates@.volatilities.len()),
            span == minus(end, start),
            !le(end, start),
            i <= n,
            all@.len() == width,
            covariance_parts(m.model(), rates@, corr, start, end, i as nat) == Ok::<
                Seq<R>,
                MonteCarloError,
            >(all@),
        decreases n - i,
    {
        proof {
            if covariance_parts(m.model(), rates@, corr, start, end, (i + 1) as nat) is Err {
                covariance_parts_stop(
                    m.model(),
                    rates@,
                    corr,
                    start,
                    end,
                    (i + 1) as nat,
                    n as nat,
                );
            }
        }
        let lo = if rates.volatility_times[i] > start {
            rates.volatility_times[i]
        } else {
            start
        };
        let hi = if i + 1 < n && rates.volatility_times[i + 1] < end {
            rates.volatility_times[i + 1]
        } else {
            end
        };
        if !(hi <= lo) {
            let ghost g = covariance_integrand(m.model(), rates@, corr, end, i as int);
            let f = |u: R| -> (z: Result<Vec<R>, MonteCarloError>)
                ensures
                    seen(z) == g(u),
                    z matches Ok(v) ==> v@.len() == width,
                { covariance_integrand_at(m, rates, corr, end, i, u) };
            let part = match integrate_panel(
                m,
                &f,
                Ghost(g),
                Ghost(width as nat),
                lo,
                hi,
                span,
                make_rate_tolerance(m),
                RATE_DEPTH,
            ) {
                Err(e) => return Err(e),
                Ok(v) => v,
            };
            all = add_all(m, &all, &part);
        }
        i = i + 1;
    }
    if !all_finite(m, all.as_slice()) {
        return Err(invalid("hw_covariance_tangent"));
    }
    Ok(all)
}

/// What the entries so far of a row of the derivative of a factor leave of an entry
/// of the derivative of its matrix.
pub open spec fn prior_terms<R: Scalar>(
    l: Seq<Seq<R>>,
    before: Seq<Seq<R>>,
    own: Seq<R>,
    i: int,
    j: int,
) -> Seq<R> {
    Seq::new(
        j as nat,
        |k: int|
            plus(
                times(own[k], l[j][k]),
                times(
                    l[i][k],
                    if j == i {
                        own[k]
                    } else {
                        before[j][k]
                    },
                ),
            ),
    )
}

/// The first `n` entries of the row `i` of the derivative of a factor.
pub open spec fn direction_entries<R: Scalar>(
    l: Seq<Seq<R>>,
    d: Seq<R>,
    before: Seq<Seq<R>>,
    i: int,
    n: nat,
) -> Result<Seq<R>, MonteCarloError>
    decreases n,
{
    if n == 0 {
        Ok(Seq::empty())
    } else {
        match direction_entries(l, d, before, i, (n - 1) as nat) {
            Err(e) => Err(e),
            Ok(own) => {
                let j = n - 1;
                let left = minus(d[4 * i + j], total(prior_terms(l, before, own, i, j)));
                if same(l[j][j], literal(0)) {
                    Err(invalid_field("singular_hw_parameter_adjoint"))
                } else if j == i {
                    Ok(own.push(over(left, times(literal(2), l[i][i]))))
                } else {
                    Ok(own.push(over(minus(left, times(l[i][j], before[j][j])), l[j][j])))
                }
            },
        }
    }
}

/// A row of size four, with zeros behind its entries.
pub open spec fn padded<R: Scalar>(own: Seq<R>) -> Seq<R> {
    Seq::new(
        4,
        |j: int|
            if j < own.len() {
                own[j]
            } else {
                literal(0)
            },
    )
}

/// The first `n` rows of the derivative of a factor.
pub open spec fn direction_rows<R: Scalar>(l: Seq<Seq<R>>, d: Seq<R>, n: nat) -> Result<
    Seq<Seq<R>>,
    MonteCarloError,
>
    decreases n,
{
    if n == 0 {
        Ok(Seq::empty())
    } else {
        match direction_rows(l, d, (n - 1) as nat) {
            Err(e) => Err(e),
            Ok(before) => match direction_entries(l, d, before, n - 1, n) {
                Err(e) => Err(e),
                Ok(own) => Ok(before.push(padded(own))),
            },
        }
    }
}

proof fn direction_rows_stop<R: Scalar>(l: Seq<Seq<R>>, d: Seq<R>, a: nat, n: nat)
    requires
        a <= n,
        direction_rows(l, d, a) is Err,
    ensures
        direction_rows(l, d, n) == direction_rows(l, d, a),
    decreases n,
{
    if a < n {
        direction_rows_stop(l, d, a, (n - 1) as nat);
    }
}

proof fn direction_entries_stop<R: Scalar>(
    l: Seq<Seq<R>>,
    d: Seq<R>,
    before: Seq<Seq<R>>,
    i: int,
    a: nat,
    n: nat,
)
    requires
        a <= n,
        direction_entries(l, d, before, i, a) is Err,
    ensures
        direction_entries(l, d, before, i, n) == direction_entries(l, d, before, i, a),
    decreases n,
{
    if a < n {
        direction_entries_stop(l, d, before, i, a, (n - 1) as nat);
    }
}

fn direction_row<R: Scalar, M: Math<R>>(
    m: &M,
    l: &Vec<Vec<R>>,
    d: &Vec<R>,
    before: &Vec<Vec<R>>,
    i: usize,
) -> (r: Result<Vec<R>, MonteCarloError>)
    requires
        square(rows_seen(l@)),
        d@.len() == 16,
        i < 4,
        before@.len() == i,
        forall|k: int| 0 <= k < i ==> (#[trigger] before@[k])@.len() == 4,
    ensures
        (match r {
            Ok(v) => Ok(v@),
            Err(e) => Err(e),
        }) == (match direction_entries(
            rows_seen(l@),
            d@,
            rows_seen(before@),
            i as int,
            (i + 1) as nat,
        ) {
            Ok(own) => Ok(padded(own)),
            Err(e) => Err(e),
        }),
        r matches Ok(v) ==> v@.len() == 4,
{
    m.laws();
    let ghost ls = rows_seen(l@);
    let ghost bs = rows_seen(before@);
    let mut own: Vec<R> = Vec::new();
    let mut j: usize = 0;
    while j <= i
        invariant
            lawful::<R>(),
            ls == rows_seen(l@),
            bs == rows_seen(before@),
            square(ls),
            d@.len() == 16,
            i < 4,
            j <= i + 1,
            before@.len() == i,
            forall|k: int| 0 <= k < i ==> (#[trigger] before@[k])@.len() == 4,
            own@.len() == j,
            direction_entries(
                ls,
                d@,
                bs,
                i as int,
                j as nat,
            ) == Ok::<Seq<R>, MonteCarloError>(own@),
        decreases i + 1 - j,
    {
        proof {
            if direction_entries(ls, d@, bs, i as int, (j + 1) as nat) is Err {
                direction_entries_stop(ls, d@, bs, i as int, (j + 1) as nat, (i + 1) as nat);
            }
            assert(ls[i as int] == l@[i as int]@ && ls[j as int] == l@[j as int]@);
            assert(ls[i as int].len() == 4 && ls[j as int].len() == 4);
            if j < i {
                assert(bs[j as int] == before@[j as int]@);
            }
        }
        let ghost term = |k: int| prior_terms(ls, bs, own@, i as int, j as int)[k];
        let terms_at = |k: usize| -> (x: R)
            requires
                k < j,
            ensures
                x == term(k as int),
            {
                m.laws();
                let other = if j == i {
                    own[k]
                } else {
                    before[j][k]
                };
                own[k] * l[j][k] + l[i][k] * other
            };
        let terms = build(
            j,
            terms_at,
            Ghost(term),
        );
        assert(terms@ =~= prior_terms(ls, bs, own@, i as int, j as int));
        let left = d[4 * i + j] - take_total(m, &terms);
        if l[j][j] == R::from(0u32) {
            return Err(invalid("singular_hw_parameter_adjoint"));
        }
        let x = if j == i {
            left / (R::from(2u32) * l[i][i])
        } else {
            (left - l[i][j] * before[j][j]) / l[j][j]
        };
        own.push(x);
        j = j + 1;
    }
    let ghost entry = |k: int| padded(own@)[k];
    let n = own.len();
    let v_at = |k: usize| -> (x: R)
        requires
            k < 4,
        ensures
            x == entry(k as int),
        {
            m.laws();
            if k < n {
                own[k]
            } else {
                R::from(0u32)
            }
        };
    let v = build(
        4,
        v_at,
        Ghost(entry),
    );
    assert(v@ =~= padded(own@));
    Ok(v)
}

/// The derivative of a factor in a direction of its matrix.
pub fn cholesky_direction<R: Scalar, M: Math<R>>(m: &M, l: &Vec<Vec<R>>, d: &Vec<R>) -> (r: Result<
    Vec<Vec<R>>,
    MonteCarloError,
>)
    requires
        square(rows_seen(l@)),
        d@.len() == 16,
    ensures
        matrix_seen(r) == direction_rows(rows_seen(l@), d@, 4),
        r matches Ok(v) ==> square(rows_seen(v@)),
{
    let mut rows: Vec<Vec<R>> = Vec::new();
    assert(rows_seen(rows@) =~= Seq::empty());
    let mut i: usize = 0;
    while i < 4
        invariant
            square(rows_seen(l@)),
            d@.len() == 16,
            i <= 4,
            rows@.len() == i,
            forall|k: int| 0 <= k < i ==> (#[trigger] rows@[k])@.len() == 4,
            direction_rows(rows_seen(l@), d@, i as nat) == Ok::<Seq<Seq<R>>, MonteCarloError>(
                rows_seen(rows@),
            ),
        decreases 4 - i,
    {
        proof {
            if direction_rows(rows_seen(l@), d@, (i + 1) as nat) is Err {
                direction_rows_stop(rows_seen(l@), d@, (i + 1) as nat, 4);
            }
        }
        let ghost before = rows_seen(rows@);
        let row = match direction_row(m, l, d, &rows, i) {
            Err(e) => return Err(e),
            Ok(v) => v,
        };
        let ghost seen_row = row@;
        rows.push(row);
        assert(rows_seen(rows@) =~= before.push(seen_row));
        i = i + 1;
    }
    proof {
        assert forall|k: int| 0 <= k < 4 implies (#[trigger] rows_seen(rows@)[k]).len() == 4 by {
            assert(rows@[k]@.len() == 4);
        }
    }
    Ok(rows)
}

/// How a step depends on a parameter of the rate.
pub struct StepTangent<R> {
    pub decay: R,
    pub integral_loading: R,
    pub noise: Vec<Vec<R>>,
}

/// A [`StepTangent`] as a mathematical value.
pub ghost struct StepTangentView<R> {
    pub decay: R,
    pub integral_loading: R,
    pub noise: Seq<Seq<R>>,
}

impl<R> View for StepTangent<R> {
    type V = StepTangentView<R>;

    open spec fn view(&self) -> StepTangentView<R> {
        StepTangentView {
            decay: self.decay,
            integral_loading: self.integral_loading,
            noise: rows_seen(self.noise@),
        }
    }
}

/// How a step depends on each parameter of the rate.
pub struct StepTangents<R> {
    pub parameters: Vec<StepTangent<R>>,
}

impl<R> View for StepTangents<R> {
    type V = Seq<StepTangentView<R>>;

    open spec fn view(&self) -> Seq<StepTangentView<R>> {
        views(self.parameters@)
    }
}

/// How a claim depends on a parameter of the rate.
#[derive(Clone, Copy, Debug, PartialEq)]
pub struct ClaimTangent<R> {
    pub amount: R,
    pub duration: R,
    pub equity: R,
    pub dividend: R,
    pub constant: R,
}

/// How a node depends on the parameters of the rate, claim by claim.
pub struct NodeTangent<R> {
    pub half_integral_variance: Vec<R>,
    pub claims: Vec<Vec<ClaimTangent<R>>>,
}

/// A [`NodeTangent`] as a mathematical value.
pub ghost struct NodeTangentView<R> {
    pub half_integral_variance: Seq<R>,
    pub claims: Seq<Seq<ClaimTangent<R>>>,
}

impl<R> View for NodeTangent<R> {
    type V = NodeTangentView<R>;

    open spec fn view(&self) -> NodeTangentView<R> {
        NodeTangentView {
            half_integral_variance: self.half_integral_variance@,
            claims: rows_seen(self.claims@),
        }
    }
}

/// The factor of a step is far enough from singular.
pub open spec fn well_conditioned<R: Scalar>(
    m: Model<R>,
    noise: Seq<Seq<R>>,
    c: Seq<Seq<R>>,
    i: int,
) -> bool {
    let scale = m.sqrt(c[i][i]);
    let pivot = if same(scale, literal(0)) {
        literal(0)
    } else {
        over(noise[i][i], scale)
    };
    m.is_finite(pivot) && !le(pivot, smallest_pivot())
}

/// Every row of the factor of a step is far enough from singular.
pub open spec fn all_conditioned<R: Scalar>(
    m: Model<R>,
    noise: Seq<Seq<R>>,
    c: Seq<Seq<R>>,
) -> bool {
    forall|q: int| 0 <= q < 4 ==> #[trigger] well_conditioned(m, noise, c, q)
}

/// How a step depends on a parameter of the rate.
pub open spec fn step_tangent<R: Scalar>(
    m: Model<R>,
    rates: RatesView<R>,
    step: RateStepView<R>,
    t0: R,
    t1: R,
    slopes: Seq<R>,
) -> spec_fn(int) -> Result<StepTangentView<R>, MonteCarloError> {
    |p: int|
        match direction_rows(step.noise, slopes.subrange(16 * p, 16 * p + 16), 4) {
            Err(e) => Err(e),
            Ok(noise) => {
                let decay = if p == 0 {
                    times(negated(minus(t1, t0)), step.decay)
                } else {
                    literal(0)
                };
                let integral_loading = if p == 0 {
                    decayed_slope(m, rates.mean_reversion, step.dt)
                } else {
                    literal(0)
                };
                if m.is_finite(decay) && m.is_finite(integral_loading) && rows_finite(m, noise) {
                    Ok(StepTangentView { decay, integral_loading, noise })
                } else {
                    Err(invalid_field("hw_step_parameter_derivative"))
                }
            },
        }
}

/// How a step depends on the parameters of the rate.
pub open spec fn step_tangents<R: Scalar>(
    m: Model<R>,
    rates: RatesView<R>,
    corr: HybridCorrelation<R>,
    p: RatePathView<R>,
) -> spec_fn(int) -> Result<Seq<StepTangentView<R>>, MonteCarloError> {
    |i: int|
        match transition_of(m, rates, p.times[i], p.times[i + 1], literal(0), corr) {
            Err(e) => Err(e),
            Ok(x) => if !all_conditioned(m, p.steps[i].noise, x.covariance) {
                Err(invalid_field("singular_hw_parameter_adjoint"))
            } else {
                match covariance_slopes(m, rates, corr, p.times[i], p.times[i + 1]) {
                    Err(e) => Err(e),
                    Ok(slopes) => gather(
                        1 + rates.volatilities.len(),
                        step_tangent(m, rates, p.steps[i], p.times[i], p.times[i + 1], slopes),
                    ),
                }
            },
        }
}

/// Tests that a factor is far enough from singular.
pub(crate) fn is_well_conditioned<R: Scalar, M: Math<R>>(
    m: &M,
    noise: &Vec<Vec<R>>,
    c: &Vec<Vec<R>>,
) -> (b: bool)
    requires
        square(rows_seen(noise@)),
        square(rows_seen(c@)),
    ensures
        b == all_conditioned(m.model(), rows_seen(noise@), rows_seen(c@)),
{
    m.laws();
    let least = make_smallest_pivot(m);
    let mut i: usize = 0;
    while i < 4
        invariant
            lawful::<R>(),
            least == smallest_pivot::<R>(),
            square(rows_seen(noise@)),
            square(rows_seen(c@)),
            i <= 4,
            forall|q: int|
                0 <= q < i ==> #[trigger] well_conditioned(
                    m.model(),
                    rows_seen(noise@),
                    rows_seen(c@),
                    q,
                ),
        decreases 4 - i,
    {
        proof {
            assert(rows_seen(noise@)[i as int].len() == 4 && rows_seen(c@)[i as int].len() == 4);
            assert(rows_seen(noise@)[i as int] == noise@[i as int]@);
            assert(rows_seen(c@)[i as int] == c@[i as int]@);
        }
        let scale = m.sqrt(c[i][i]);
        let pivot = if scale == R::from(0u32) {
            R::from(0u32)
        } else {
            noise[i][i] / scale
        };
        if !m.is_finite(pivot) || pivot <= least {
            assert(!well_conditioned(m.model(), rows_seen(noise@), rows_seen(c@), i as int));
            return false;
        }
        i = i + 1;
    }
    true
}

fn take_step_tangents<R: Scalar, M: Math<R>>(
    m: &M,
    rates: &HullWhite1Factor<R>,
    corr: HybridCorrelation<R>,
    path: &StochasticDividendHullWhitePathPlan<R>,
    i: usize,
) -> (r: Result<StepTangents<R>, MonteCarloError>)
    requires
        rates@.valid(),
        rates_sized(rates@),
        path@.valid(),
        i < path@.steps.len(),
    ensures
        viewed(r) == step_tangents(m.model(), rates@, corr, path@)(i as int),
        r matches Ok(v) ==> v@.len() == 1 + rates@.volatilities.len() && forall|p: int|
            0 <= p < v@.len() ==> square((#[trigger] v@[p]).noise),
{
    m.laws();
    let n: usize = 1 + rates.volatilities.len();
    let t0 = path.times[i];
    let t1 = path.times[i + 1];
    let x = match rates.transition(m, t0, t1, R::from(0u32), corr) {
        Err(e) => return Err(e),
        Ok(v) => v,
    };
    proof {
        assert(path@.steps[i as int] == path.steps@[i as int]@);
        assert(square(path@.steps[i as int].noise));
        assert forall|q: int| 0 <= q < 4 implies (#[trigger] x@.covariance[q]).len() == 4 by {
            assert(x.covariance@[q]@.len() == 4);
        }
    }
    let step = &path.steps[i];
    if !is_well_conditioned(m, &step.noise, &x.covariance) {
        return Err(invalid("singular_hw_parameter_adjoint"));
    }
    let slopes = match covariance_derivatives(m, rates, corr, t0, t1) {
        Err(e) => return Err(e),
        Ok(v) => v,
    };
    let ghost law = step_tangent(m.model(), rates@, step@, t0, t1, slopes@);
    let ghost sized = |s: StepTangent<R>| square(s@.noise);
    let parameters_at = |p: usize| -> (z: Result<StepTangent<R>, MonteCarloError>)
        requires
            p < n,
        ensures
            viewed(z) == law(p as int),
            z matches Ok(s) ==> sized(s),
        {
            m.laws();
            let d = taken(&slopes, 16 * p, 16);
            let noise = match cholesky_direction(m, &step.noise, &d) {
                Err(e) => return Err(e),
                Ok(v) => v,
            };
            let decay = if p == 0 {
                (t1 - t0).neg() * step.decay
            } else {
                R::from(0u32)
            };
            let integral_loading = if p == 0 {
                b_mean_reversion_derivative(m, rates.mean_reversion, step.dt)
            } else {
                R::from(0u32)
            };
            if !m.is_finite(decay) || !m.is_finite(integral_loading) || !are_rows_finite(
                m,
                &noise,
            ) {
                return Err(invalid("hw_step_parameter_derivative"));
            }
            Ok(StepTangent { decay, integral_loading, noise })
        };
    let parameters = match collect_views(
        n,
        parameters_at,
        Ghost(law),
        Ghost(sized),
    ) {
        Err(e) => return Err(e),
        Ok(v) => v,
    };
    let t = StepTangents { parameters };
    proof {
        assert forall|p: int| 0 <= p < t@.len() implies square((#[trigger] t@[p]).noise) by {
            assert(sized(t.parameters@[p]));
        }
    }
    Ok(t)
}

/// The correlations of drivers that do not move together.
pub open spec fn apart<R: Scalar>() -> HybridCorrelation<R> {
    HybridCorrelation {
        equity_second: literal(0),
        equity_rate: literal(0),
        second_rate: literal(0),
    }
}

/// The derivatives of the variance of the integral of the rate.
pub open spec fn variance_slopes<R: Scalar>(
    m: Model<R>,
    rates: RatesView<R>,
    start: R,
    end: R,
) -> Result<
    Seq<R>,
    MonteCarloError,
> {
    if !correlated(m, apart::<R>()) {
        Err(rate_field("correlation", 0))
    } else {
        match covariance_slopes(m, rates, apart(), start, end) {
            Err(e) => Err(e),
            Ok(v) => Ok(Seq::new(1 + rates.volatilities.len(), |p: int| v[16 * p + 15])),
        }
    }
}

/// Takes the derivatives of the variance of the integral of the rate.
pub fn variance_derivatives<R: Scalar, M: Math<R>>(
    m: &M,
    rates: &HullWhite1Factor<R>,
    start: R,
    end: R,
) -> (r: Result<Vec<R>, MonteCarloError>)
    requires
        rates@.valid(),
        rates_sized(rates@),
    ensures
        seen(r) == variance_slopes(m.model(), rates@, start, end),
        r matches Ok(v) ==> v@.len() == 1 + rates@.volatilities.len(),
{
    m.laws();
    let zero = R::from(0u32);
    let corr = match HybridCorrelation::new(m, zero, zero, zero) {
        Err(e) => return Err(e),
        Ok(v) => v,
    };
    let all = match covariance_derivatives(m, rates, corr, start, end) {
        Err(e) => return Err(e),
        Ok(v) => v,
    };
    let n: usize = 1 + rates.volatilities.len();
    let ghost entry = |p: int| all@[16 * p + 15];
    let v_at = |p: usize| -> (x: R)
        requires
            p < n,
        ensures
            x == entry(p as int),
        { all[16 * p + 15] };
    let v = build(
        n,
        v_at,
        Ghost(entry),
    );
    assert(v@ =~= Seq::new(1 + rates@.volatilities.len(), |p: int| all@[16 * p + 15]));
    Ok(v)
}

/// How a claim depends on each parameter of the rate.
pub open spec fn claim_tangents<R: Scalar>(
    m: Model<R>,
    rates: RatesView<R>,
    x: CashInputs<R>,
    t: R,
    maturity: R,
    claim: CashClaim<R>,
) -> Result<Seq<ClaimTangent<R>>, MonteCarloError> {
    let zero = literal::<R>(0);
    match variance_slopes(m, rates, zero, t) {
        Err(e) => Err(e),
        Ok(near) => match variance_slopes(m, rates, zero, maturity) {
            Err(e) => Err(e),
            Ok(far) => match variance_slopes(m, rates, t, maturity) {
                Err(e) => Err(e),
                Ok(between) => match cash_rate_rows(m, rates, x, t, maturity) {
                    Err(e) => Err(e),
                    Ok(rows) => Ok(
                        Seq::new(
                            1 + rates.volatilities.len(),
                            |p: int|
                                ClaimTangent {
                                    amount: times(
                                        claim.amount,
                                        times(
                                            half(),
                                            plus(plus(negated(far[p]), near[p]), between[p]),
                                        ),
                                    ),
                                    duration: if p == 0 {
                                        decayed_slope(m, rates.mean_reversion, minus(maturity, t))
                                    } else {
                                        zero
                                    },
                                    equity: rows[p][0],
                                    dividend: rows[p][1],
                                    constant: rows[p][2],
                                },
                        ),
                    ),
                },
            },
        },
    }
}

fn take_claim_tangents<R: Scalar, M: Math<R>>(
    m: &M,
    rates: &HullWhite1Factor<R>,
    x: CashInputs<R>,
    t: R,
    maturity: R,
    claim: CashClaim<R>,
) -> (r: Result<Vec<ClaimTangent<R>>, MonteCarloError>)
    requires
        rates@.valid(),
        rates_sized(rates@),
    ensures
        seen(r) == claim_tangents(m.model(), rates@, x, t, maturity, claim),
        r matches Ok(v) ==> v@.len() == 1 + rates@.volatilities.len(),
{
    m.laws();
    let zero = R::from(0u32);
    let near = match variance_derivatives(m, rates, zero, t) {
        Err(e) => return Err(e),
        Ok(v) => v,
    };
    let far = match variance_derivatives(m, rates, zero, maturity) {
        Err(e) => return Err(e),
        Ok(v) => v,
    };
    let between = match variance_derivatives(m, rates, t, maturity) {
        Err(e) => return Err(e),
        Ok(v) => v,
    };
    let rows = match cash_coefficient_rate_derivatives(m, rates, x, t, maturity) {
        Err(e) => return Err(e),
        Ok(v) => v,
    };
    let n: usize = 1 + rates.volatilities.len();
    let ghost want = claim_tangents(m.model(), rates@, x, t, maturity, claim)->Ok_0;
    let ghost entry = |p: int| want[p];
    let v_at = |p: usize| -> (z: ClaimTangent<R>)
        requires
            p < n,
        ensures
            z == entry(p as int),
        {
            m.laws();
            assert(rows@[p as int]@.len() == 3);
            assert(rows_seen(rows@)[p as int] == rows@[p as int]@);
            ClaimTangent {
                amount: claim.amount * (
                    (R::from(1u32) / R::from(2u32)) * (far[p].neg() + near[p] + between[p])
                ),
                duration: if p == 0 {
                    b_mean_reversion_derivative(m, rates.mean_reversion, maturity - t)
                } else {
                    R::from(0u32)
                },
                equity: rows[p][0],
                dividend: rows[p][1],
                constant: rows[p][2],
            }
        };
    let v = build(
        n,
        v_at,
        Ghost(entry),
    );
    assert(v@ =~= want);
    Ok(v)
}

/// How a node depends on the parameters of the rate.
pub open spec fn node_tangent<R: Scalar>(
    m: Model<R>,
    rates: RatesView<R>,
    x: CashInputs<R>,
    p: RatePathView<R>,
) -> spec_fn(int) -> Result<NodeTangentView<R>, MonteCarloError> {
    |i: int|
        match variance_slopes(m, rates, literal(0), p.times[i]) {
            Err(e) => Err(e),
            Ok(v) => match gather(
                p.nodes[i].claims.len(),
                |k: int|
                    {
                        let claim = p.nodes[i].claims[k];
                        claim_tangents(
                            m,
                            rates,
                            x,
                            p.times[i],
                            p.cash_times[claim.index as int],
                            claim,
                        )
                    },
            ) {
                Err(e) => Err(e),
                Ok(claims) => Ok(
                    NodeTangentView {
                        half_integral_variance: Seq::new(v.len(), |q: int| times(half(), v[q])),
                        claims,
                    },
                ),
            },
        }
}

/// A node tangent has an entry for each of `n` parameters.
pub open spec fn node_sized<R>(t: NodeTangentView<R>, n: nat) -> bool {
    &&& t.half_integral_variance.len() == n
    &&& forall|k: int| 0 <= k < t.claims.len() ==> (#[trigger] t.claims[k]).len() == n
}

fn take_node_tangent<R: Scalar, M: Math<R>>(
    m: &M,
    rates: &HullWhite1Factor<R>,
    x: CashInputs<R>,
    path: &StochasticDividendHullWhitePathPlan<R>,
    i: usize,
) -> (r: Result<NodeTangent<R>, MonteCarloError>)
    requires
        rates@.valid(),
        rates_sized(rates@),
        path@.valid(),
        i < path@.nodes.len(),
    ensures
        viewed(r) == node_tangent(m.model(), rates@, x, path@)(i as int),
        r matches Ok(t) ==> node_sized(t@, 1 + rates@.volatilities.len()) && t@.claims.len()
            == path@.nodes[i as int].claims.len(),
{
    m.laws();
    assert(path@.nodes[i as int] == path.nodes@[i as int]@);
    assert(claims_within(path@.nodes[i as int].claims, path@.cash_times.len()));
    let t = path.times[i];
    let variance = match variance_derivatives(m, rates, R::from(0u32), t) {
        Err(e) => return Err(e),
        Ok(v) => v,
    };
    let n = variance.len();
    let ghost halves = |q: int| times(half(), variance@[q]);
    let half_integral_variance_at = |q: usize| -> (z: R)
        requires
            q < n,
        ensures
            z == halves(q as int),
        {
            m.laws();
            (R::from(1u32) / R::from(2u32)) * variance[q]
        };
    let half_integral_variance = build(
        n,
        half_integral_variance_at,
        Ghost(halves),
    );
    let count = path.nodes[i].claims.len();
    let ghost law = |k: int|
        {
            let claim = path@.nodes[i as int].claims[k];
            claim_tangents(
                m.model(),
                rates@,
                x,
                path@.times[i as int],
                path@.cash_times[claim.index as int],
                claim,
            )
        };
    let claims_at = |k: usize| -> (z: Result<Vec<ClaimTangent<R>>, MonteCarloError>)
        requires
            k < count,
        ensures
            seen(z) == law(k as int),
            z matches Ok(v) ==> v@.len() == n,
        {
            let claim = path.nodes[i].claims[k];
            assert(path@.nodes[i as int].claims[k as int].index < path@.cash_times.len());
            take_claim_tangents(m, rates, x, t, path.cash_times[claim.index], claim)
        };
    let claims = match collect_rows(
        count,
        claims_at,
        Ghost(law),
        Ghost(n as nat),
    ) {
        Err(e) => return Err(e),
        Ok(v) => v,
    };
    let node = NodeTangent { half_integral_variance, claims };
    proof {
        let want = node_tangent(m.model(), rates@, x, path@)(i as int)->Ok_0;
        assert(node@.half_integral_variance =~= want.half_integral_variance);
        assert forall|k: int| 0 <= k < node@.claims.len() implies (
        #[trigger] node@.claims[k]).len() == n by {
            assert(node.claims@[k]@.len() == n);
        }
    }
    Ok(node)
}

/// The derivative of the spot that is left at first, out of the first `n` claims.
pub open spec fn risky_slope<R: Scalar>(
    claims: Seq<CashClaim<R>>,
    tangents: Seq<Seq<ClaimTangent<R>>>,
    p: int,
    n: nat,
) -> R
    decreases n,
{
    if n == 0 {
        literal(0)
    } else {
        let claim = claims[n - 1];
        let d = tangents[n - 1][p];
        let shape = plus(plus(claim.equity, claim.dividend), claim.constant);
        let slope = total(seq![d.equity, d.dividend, d.constant]);
        let before = risky_slope(claims, tangents, p, (n - 1) as nat);
        minus(
            before,
            times(claim.carry_weight, plus(times(d.amount, shape), times(claim.amount, slope))),
        )
    }
}

fn take_risky_slope<R: Scalar, M: Math<R>>(
    m: &M,
    claims: &Vec<CashClaim<R>>,
    tangents: &Vec<Vec<ClaimTangent<R>>>,
    p: usize,
) -> (x: R)
    requires
        tangents@.len() == claims@.len(),
        forall|k: int| 0 <= k < tangents@.len() ==> p < (#[trigger] tangents@[k])@.len(),
    ensures
        x == risky_slope(claims@, rows_seen(tangents@), p as int, claims@.len()),
{
    m.laws();
    let mut sum = R::from(0u32);
    let mut k: usize = 0;
    while k < claims.len()
        invariant
            lawful::<R>(),
            k <= claims@.len(),
            tangents@.len() == claims@.len(),
            forall|k: int| 0 <= k < tangents@.len() ==> p < (#[trigger] tangents@[k])@.len(),
            sum == risky_slope(claims@, rows_seen(tangents@), p as int, k as nat),
        decreases claims@.len() - k,
    {
        assert(p < tangents@[k as int]@.len());
        assert(rows_seen(tangents@)[k as int] == tangents@[k as int]@);
        let claim = claims[k];
        let d = tangents[k][p];
        let shape = claim.equity + claim.dividend + claim.constant;
        let parts: Vec<R> = vec![d.equity, d.dividend, d.constant];
        assert(parts@ =~= seq![d.equity, d.dividend, d.constant]);
        let slope = take_total(m, &parts);
        sum = sum - claim.carry_weight * (d.amount * shape + claim.amount * slope);
        k = k + 1;
    }
    sum
}

/// What the derivatives of a path with respect to the parameters of the rate need.
pub struct HullWhiteRateSensitivityContext<R> {
    pub labels: Vec<Label>,
    pub steps: Vec<StepTangents<R>>,
    pub nodes: Vec<NodeTangent<R>>,
    pub risky_spot: Vec<R>,
    pub payment_log_constant: Vec<R>,
    pub payment_duration: Vec<R>,
}

/// A [`HullWhiteRateSensitivityContext`] as a mathematical value.
pub ghost struct RateSensitivityView<R> {
    pub labels: Seq<Label>,
    pub steps: Seq<Seq<StepTangentView<R>>>,
    pub nodes: Seq<NodeTangentView<R>>,
    pub risky_spot: Seq<R>,
    pub payment_log_constant: Seq<R>,
    pub payment_duration: Seq<R>,
}

impl<R> View for HullWhiteRateSensitivityContext<R> {
    type V = RateSensitivityView<R>;

    open spec fn view(&self) -> RateSensitivityView<R> {
        RateSensitivityView {
            labels: self.labels@,
            steps: views(self.steps@),
            nodes: views(self.nodes@),
            risky_spot: self.risky_spot@,
            payment_log_constant: self.payment_log_constant@,
            payment_duration: self.payment_duration@,
        }
    }
}

impl<R> RateSensitivityView<R> {
    /// The context belongs to a path.
    pub open spec fn of(self, p: RatePathView<R>) -> bool {
        let n = self.labels.len();
        &&& n > 0
        &&& self.steps.len() == p.steps.len()
        &&& forall|i: int|
            0 <= i < self.steps.len() ==> (#[trigger] self.steps[i]).len() == n
                && tangents_square(self.steps[i])
        &&& self.nodes.len() == p.nodes.len()
        &&& forall|i: int|
            0 <= i < self.nodes.len() ==> node_sized(#[trigger] self.nodes[i], n)
                && self.nodes[i].claims.len() == p.nodes[i].claims.len()
        &&& self.risky_spot.len() == n
        &&& self.payment_log_constant.len() == n
        &&& self.payment_duration.len() == n
    }
}

/// The factors of the tangents of a step have size four.
pub open spec fn tangents_square<R>(t: Seq<StepTangentView<R>>) -> bool {
    forall|p: int| 0 <= p < t.len() ==> square((#[trigger] t[p]).noise)
}

/// The names of the parameters of the rate.
pub open spec fn rate_parameter_labels(volatilities: nat) -> Seq<Label> {
    seq![Label::Named("rate_mean_reversion")] + indexed("rate_volatility", volatilities)
}

/// The derivatives of the logarithm of the discount factor of the payment, and of
/// its duration.
pub open spec fn payment_slopes<R: Scalar>(
    m: Model<R>,
    rates: RatesView<R>,
    expiry: R,
    payment: R,
) -> Result<(Seq<R>, Seq<R>), MonteCarloError> {
    let n = 1 + rates.volatilities.len();
    match variance_slopes(m, rates, literal(0), payment) {
        Err(e) => Err(e),
        Ok(whole) => match variance_slopes(m, rates, expiry, payment) {
            Err(e) => Err(e),
            Ok(after) => Ok(
                (
                    Seq::new(n, |p: int| times(half(), plus(negated(whole[p]), after[p]))),
                    Seq::new(
                        n,
                        |p: int|
                            if p == 0 {
                                decayed_slope(m, rates.mean_reversion, minus(payment, expiry))
                            } else {
                                literal(0)
                            },
                    ),
                ),
            ),
        },
    }
}

/// What the derivatives of a path with respect to the parameters of the rate need,
/// or why they cannot be had.
pub open spec fn rate_sensitivity<R: Scalar>(
    m: Model<R>,
    rates: RatesView<R>,
    x: CashInputs<R>,
    p: RatePathView<R>,
    payment: R,
) -> Result<RateSensitivityView<R>, MonteCarloError> {
    let n = 1 + rates.volatilities.len();
    let corr = HybridCorrelation {
        equity_second: p.model.equity_dividend_correlation,
        equity_rate: x.rho_f,
        second_rate: x.rho_d,
    };
    if !correlated(m, corr) {
        Err(rate_field("correlation", 0))
    } else {
        match gather(p.steps.len(), step_tangents(m, rates, corr, p)) {
            Err(e) => Err(e),
            Ok(steps) => match gather(p.nodes.len(), node_tangent(m, rates, x, p)) {
                Err(e) => Err(e),
                Ok(nodes) => {
                    let claims = p.nodes[0].claims;
                    let risky_spot = Seq::new(
                        n,
                        |q: int| risky_slope(claims, nodes[0].claims, q, claims.len()),
                    );
                    match payment_slopes(m, rates, p.times.last(), payment) {
                        Err(e) => Err(e),
                        Ok((constant, duration)) => if m.all_finite(risky_spot) && m.all_finite(
                            constant,
                        ) && m.all_finite(duration) {
                            Ok(
                                RateSensitivityView {
                                    labels: rate_parameter_labels(rates.volatilities.len()),
                                    steps,
                                    nodes,
                                    risky_spot,
                                    payment_log_constant: constant,
                                    payment_duration: duration,
                                },
                            )
                        } else {
                            Err(invalid_field("hw_parameter_context"))
                        },
                    }
                },
            },
        }
    }
}

fn take_payment_slopes<R: Scalar, M: Math<R>>(
    m: &M,
    rates: &HullWhite1Factor<R>,
    expiry: R,
    payment: R,
) -> (r: Result<(Vec<R>, Vec<R>), MonteCarloError>)
    requires
        rates@.valid(),
        rates_sized(rates@),
    ensures
        (match r {
            Ok((a, d)) => Ok((a@, d@)),
            Err(e) => Err(e),
        }) == payment_slopes(m.model(), rates@, expiry, payment),
        r matches Ok((a, d)) ==> a@.len() == 1 + rates@.volatilities.len() && d@.len() == 1
            + rates@.volatilities.len(),
{
    m.laws();
    let n: usize = 1 + rates.volatilities.len();
    let whole = match variance_derivatives(m, rates, R::from(0u32), payment) {
        Err(e) => return Err(e),
        Ok(v) => v,
    };
    let after = match variance_derivatives(m, rates, expiry, payment) {
        Err(e) => return Err(e),
        Ok(v) => v,
    };
    let ghost want = payment_slopes(m.model(), rates@, expiry, payment)->Ok_0;
    let ghost constants = |p: int| want.0[p];
    let constant_at = |p: usize| -> (z: R)
        requires
            p < n,
        ensures
            z == constants(p as int),
        {
            m.laws();
            (R::from(1u32) / R::from(2u32)) * (whole[p].neg() + after[p])
        };
    let constant = build(
        n,
        constant_at,
        Ghost(constants),
    );
    let ghost durations = |p: int| want.1[p];
    let duration_at = |p: usize| -> (z: R)
        requires
            p < n,
        ensures
            z == durations(p as int),
        {
            m.laws();
            if p == 0 {
                b_mean_reversion_derivative(m, rates.mean_reversion, payment - expiry)
            } else {
                R::from(0u32)
            }
        };
    let duration = build(
        n,
        duration_at,
        Ghost(durations),
    );
    assert(constant@ =~= want.0);
    assert(duration@ =~= want.1);
    Ok((constant, duration))
}

fn all_step_tangents<R: Scalar, M: Math<R>>(
    m: &M,
    rates: &HullWhite1Factor<R>,
    corr: HybridCorrelation<R>,
    path: &StochasticDividendHullWhitePathPlan<R>,
) -> (r: Result<Vec<StepTangents<R>>, MonteCarloError>)
    requires
        rates@.valid(),
        rates_sized(rates@),
        path@.valid(),
    ensures
        (match r {
            Ok(v) => Ok(views(v@)),
            Err(e) => Err(e),
        }) == gather(path@.steps.len(), step_tangents(m.model(), rates@, corr, path@)),
        r matches Ok(v) ==> v@.len() == path@.steps.len() && forall|i: int|
            0 <= i < v@.len() ==> (#[trigger] v@[i])@.len() == 1 + rates@.volatilities.len()
                && tangents_square(v@[i]@),
{
    let n = path.steps.len();
    assert(path@.steps.len() == path.steps@.len());
    let ghost law = step_tangents(m.model(), rates@, corr, path@);
    let ghost count = 1 + rates@.volatilities.len();
    let ghost sized = |t: StepTangents<R>| t@.len() == count && tangents_square(t@);
    let v_at = |i: usize| -> (z: Result<StepTangents<R>, MonteCarloError>)
        requires
            i < n,
        ensures
            viewed(z) == law(i as int),
            z matches Ok(t) ==> sized(t),
        { take_step_tangents(m, rates, corr, path, i) };
    let v = match collect_views(
        n,
        v_at,
        Ghost(law),
        Ghost(sized),
    ) {
        Err(e) => return Err(e),
        Ok(v) => v,
    };
    proof {
        assert forall|i: int| 0 <= i < v@.len() implies (#[trigger] v@[i])@.len() == 1
            + rates@.volatilities.len() && tangents_square(v@[i]@) by {
            assert(sized(v@[i]));
        }
    }
    Ok(v)
}

fn all_node_tangents<R: Scalar, M: Math<R>>(
    m: &M,
    rates: &HullWhite1Factor<R>,
    x: CashInputs<R>,
    path: &StochasticDividendHullWhitePathPlan<R>,
) -> (r: Result<Vec<NodeTangent<R>>, MonteCarloError>)
    requires
        rates@.valid(),
        rates_sized(rates@),
        path@.valid(),
    ensures
        (match r {
            Ok(v) => Ok(views(v@)),
            Err(e) => Err(e),
        }) == gather(path@.nodes.len(), node_tangent(m.model(), rates@, x, path@)),
        r matches Ok(v) ==> v@.len() == path@.nodes.len() && forall|i: int|
            0 <= i < v@.len() ==> node_sized((#[trigger] v@[i])@, 1 + rates@.volatilities.len())
                && v@[i]@.claims.len() == path@.nodes[i].claims.len(),
{
    let n = path.nodes.len();
    assert(path@.nodes.len() == path.nodes@.len());
    let ghost law = node_tangent(m.model(), rates@, x, path@);
    let mut v: Vec<NodeTangent<R>> = Vec::new();
    assert(views(v@) =~= Seq::empty());
    let mut i: usize = 0;
    while i < n
        invariant
            rates@.valid(),
            rates_sized(rates@),
            path@.valid(),
            n == path@.nodes.len(),
            law == node_tangent(m.model(), rates@, x, path@),
            i <= n,
            v@.len() == i,
            forall|k: int|
                0 <= k < v@.len() ==> node_sized(
                    (#[trigger] v@[k])@,
                    1 + rates@.volatilities.len(),
                ) && v@[k]@.claims.len() == path@.nodes[k].claims.len(),
            gather(i as nat, law) == Ok::<Seq<NodeTangentView<R>>, MonteCarloError>(views(v@)),
        decreases n - i,
    {
        let ghost before = views(v@);
        match take_node_tangent(m, rates, x, path, i) {
            Err(e) => {
                proof {
                    assert(law(i as int) == Err::<NodeTangentView<R>, MonteCarloError>(e));
                    assert(gather((i + 1) as nat, law) == Err::<
                        Seq<NodeTangentView<R>>,
                        MonteCarloError,
                    >(e));
                    gather_stops((i + 1) as nat, n as nat, law);
                }
                return Err(e);
            },
            Ok(t) => {
                let ghost seen_node = t@;
                v.push(t);
                assert(law(i as int) == Ok::<NodeTangentView<R>, MonteCarloError>(seen_node));
                assert(views(v@) =~= before.push(seen_node));
            },
        }
        i = i + 1;
    }
    Ok(v)
}

impl<R: Scalar> HullWhiteRateSensitivityContext<R> {
    /// Prepares the derivatives of a path with respect to the parameters of the
    /// rate.
    pub fn new<M: Math<R>>(
        m: &M,
        rates: &HullWhite1Factor<R>,
        x: CashInputs<R>,
        path: &StochasticDividendHullWhitePathPlan<R>,
        payment: R,
    ) -> (r: Result<Self, MonteCarloError>)
        requires
            rates@.valid(),
            rates_sized(rates@),
            path@.valid(),
            x.dividends == path.model,
            x.sigma == path.volatility,
        ensures
            viewed(r) == rate_sensitivity(m.model(), rates@, x, path@, payment),
            r matches Ok(k) ==> k@.of(path@),
    {
        let corr = match HybridCorrelation::new(
            m,
            path.model.equity_dividend_correlation,
            x.rho_f,
            x.rho_d,
        ) {
            Err(e) => return Err(e),
            Ok(v) => v,
        };
        let steps = match all_step_tangents(m, rates, corr, path) {
            Err(e) => return Err(e),
            Ok(v) => v,
        };
        let nodes = match all_node_tangents(m, rates, x, path) {
            Err(e) => return Err(e),
            Ok(v) => v,
        };
        let n: usize = 1 + rates.volatilities.len();
        proof {
            assert(path@.nodes[0] == path.nodes@[0]@);
            assert(views(nodes@)[0] == nodes@[0]@);
            assert(node_sized(nodes@[0]@, n as nat));
            assert forall|k: int| 0 <= k < nodes@[0].claims@.len() implies n <= (
            #[trigger] nodes@[0].claims@[k])@.len() by {
                assert(nodes@[0]@.claims[k].len() == n);
            }
        }
        let claims = &path.nodes[0].claims;
        let rows = &nodes[0].claims;
        let ghost slope = |q: int|
            risky_slope(claims@, rows_seen(rows@), q, claims@.len());
        let risky_spot_at = |q: usize| -> (z: R)
            requires
                q < n,
            ensures
                z == slope(q as int),
            { take_risky_slope(m, claims, rows, q) };
        let risky_spot = build(
            n,
            risky_spot_at,
            Ghost(slope),
        );
        let expiry = path.times[path.times.len() - 1];
        let (payment_log_constant, payment_duration) = match take_payment_slopes(
            m,
            rates,
            expiry,
            payment,
        ) {
            Err(e) => return Err(e),
            Ok(v) => v,
        };
        proof {
            assert(risky_spot@ =~= Seq::new(
                n as nat,
                |q: int|
                    risky_slope(
                        path@.nodes[0].claims,
                        views(nodes@)[0].claims,
                        q,
                        path@.nodes[0].claims.len(),
                    ),
            ));
        }
        if !all_finite(m, risky_spot.as_slice()) || !all_finite(m, payment_log_constant.as_slice())
            || !all_finite(m, payment_duration.as_slice()) {
            return Err(invalid("hw_parameter_context"));
        }
        let mut labels: Vec<Label> = vec![Label::Named("rate_mean_reversion")];
        push_indexed(&mut labels, "rate_volatility", rates.volatilities.len());
        assert(labels@ =~= rate_parameter_labels(rates@.volatilities.len()));
        let k = HullWhiteRateSensitivityContext {
            labels,
            steps,
            nodes,
            risky_spot,
            payment_log_constant,
            payment_duration,
        };
        proof {
            assert forall|i: int| 0 <= i < k@.steps.len() implies (#[trigger] k@.steps[i]).len()
                == n && tangents_square(k@.steps[i]) by {
                assert(k.steps@[i]@.len() == n);
            }
            assert forall|i: int| 0 <= i < k@.nodes.len() implies node_sized(
                #[trigger] k@.nodes[i],
                n as nat,
            ) && k@.nodes[i].claims.len() == path@.nodes[i].claims.len() by {
                assert(node_sized(k.nodes@[i]@, n as nat));
            }
        }
        Ok(k)
    }
}

/// How the rate at a node depends on a parameter.
#[derive(Clone, Copy, Debug, PartialEq)]
pub struct HullWhiteRateStateTangent<R> {
    pub rate_factor: R,
    pub integrated_rate_factor: R,
}

/// The tangents after one step.
pub open spec fn tangent_stepped<R: Scalar>(
    m: Model<R>,
    step: RateStepView<R>,
    tangents: Seq<StepTangentView<R>>,
    now: Seq<HullWhiteRateStateTangent<R>>,
    old_x: R,
    z: Seq<R>,
) -> Seq<HullWhiteRateStateTangent<R>> {
    Seq::new(
        tangents.len(),
        |p: int|
            {
                let d = tangents[p];
                let s = now[p];
                let rate_noise = dot(d.noise[2], z);
                let integral_noise = dot(d.noise[3], z);
                HullWhiteRateStateTangent {
                    rate_factor: plus(
                        plus(times(step.decay, s.rate_factor), times(d.decay, old_x)),
                        rate_noise,
                    ),
                    integrated_rate_factor: plus(
                        plus(
                            plus(
                                s.integrated_rate_factor,
                                times(step.integral_loading, s.rate_factor),
                            ),
                            times(d.integral_loading, old_x),
                        ),
                        integral_noise,
                    ),
                }
            },
    )
}

/// All tangents are finite.
pub open spec fn tangents_finite<R: Scalar>(
    m: Model<R>,
    t: Seq<HullWhiteRateStateTangent<R>>,
) -> bool {
    forall|p: int|
        0 <= p < t.len() ==> m.is_finite((#[trigger] t[p]).rate_factor) && m.is_finite(
            t[p].integrated_rate_factor,
        )
}

/// The tangents up to the node `n`.
pub open spec fn tangents_upto<R: Scalar>(
    m: Model<R>,
    k: RateSensitivityView<R>,
    path: RatePathView<R>,
    z: Seq<R>,
    states: Seq<StochasticDividendHullWhiteState<R>>,
    n: nat,
) -> Result<Seq<Seq<HullWhiteRateStateTangent<R>>>, MonteCarloError>
    decreases n,
{
    if n == 0 {
        Ok(
            seq![
                Seq::new(
                    k.labels.len(),
                    |p: int|
                        HullWhiteRateStateTangent {
                            rate_factor: literal(0),
                            integrated_rate_factor: literal(0),
                        },
                ),
            ],
        )
    } else {
        match tangents_upto(m, k, path, z, states, (n - 1) as nat) {
            Err(e) => Err(e),
            Ok(rows) => {
                let next = tangent_stepped(
                    m,
                    path.steps[n - 1],
                    k.steps[n - 1],
                    rows.last(),
                    states[n - 1].rate_factor,
                    chunk(z, 4, n - 1),
                );
                if tangents_finite(m, next) {
                    Ok(rows.push(next))
                } else {
                    Err(invalid_field("hw_state_tangent"))
                }
            },
        }
    }
}

/// The tangents of the rate along a path.
pub open spec fn rate_tangents<R: Scalar>(
    m: Model<R>,
    k: RateSensitivityView<R>,
    path: RatePathView<R>,
    z: Seq<R>,
    states: Seq<StochasticDividendHullWhiteState<R>>,
) -> Result<Seq<Seq<HullWhiteRateStateTangent<R>>>, MonteCarloError> {
    if z.len() != path.dimension || states.len() != path.times.len() || k.steps.len() + 1
        != states.len() {
        Err(invalid_field("hw_state_tangent_shape"))
    } else {
        tangents_upto(m, k, path, z, states, k.steps.len())
    }
}

proof fn tangents_stop<R: Scalar>(
    m: Model<R>,
    k: RateSensitivityView<R>,
    path: RatePathView<R>,
    z: Seq<R>,
    states: Seq<StochasticDividendHullWhiteState<R>>,
    a: nat,
    n: nat,
)
    requires
        a <= n,
        tangents_upto(m, k, path, z, states, a) is Err,
    ensures
        tangents_upto(m, k, path, z, states, n) == tangents_upto(m, k, path, z, states, a),
    decreases n,
{
    if a < n {
        tangents_stop(m, k, path, z, states, a, (n - 1) as nat);
    }
}

fn are_tangents_finite<R: Scalar, M: Math<R>>(
    m: &M,
    t: &Vec<HullWhiteRateStateTangent<R>>,
) -> (b: bool)
    ensures
        b == tangents_finite(m.model(), t@),
{
    let mut p: usize = 0;
    while p < t.len()
        invariant
            p <= t@.len(),
            forall|q: int|
                0 <= q < p ==> m.model().is_finite((#[trigger] t@[q]).rate_factor)
                    && m.model().is_finite(t@[q].integrated_rate_factor),
        decreases t@.len() - p,
    {
        if !m.is_finite(t[p].rate_factor) || !m.is_finite(t[p].integrated_rate_factor) {
            return false;
        }
        p = p + 1;
    }
    true
}

/// The derivative of the value of a claim with respect to a parameter.
pub open spec fn claim_slope<R: Scalar>(
    m: Model<R>,
    claim: CashClaim<R>,
    d: ClaimTangent<R>,
    s: StochasticDividendHullWhiteState<R>,
    t: HullWhiteRateStateTangent<R>,
) -> R {
    let shape = projection(claim, s.factors);
    let slope = plus(
        plus(times(d.equity, s.factors.equity), times(d.dividend, s.factors.dividend)),
        d.constant,
    );
    times(
        m.exp(times(negated(claim.duration), s.rate_factor)),
        minus(
            plus(times(d.amount, shape), times(claim.amount, slope)),
            times(
                times(claim.amount, shape),
                plus(times(d.duration, s.rate_factor), times(claim.duration, t.rate_factor)),
            ),
        ),
    )
}

/// The derivative of a spot with respect to a parameter, with the first `n` claims.
pub open spec fn spot_slope<R: Scalar>(
    m: Model<R>,
    k: RateSensitivityView<R>,
    path: RatePathView<R>,
    i: int,
    s: StochasticDividendHullWhiteState<R>,
    t: HullWhiteRateStateTangent<R>,
    p: int,
    n: nat,
) -> R
    decreases n,
{
    if n == 0 {
        let growth = node_growth(m, path.nodes[i], s);
        let equity = s.factors.equity;
        let risky_spot = path.risky_spot;
        let slope = k.risky_spot[p];
        let half_slope = k.nodes[i].half_integral_variance[p];
        plus(
            times(times(slope, growth), equity),
            times(
                times(times(risky_spot, growth), equity),
                plus(t.integrated_rate_factor, half_slope),
            ),
        )
    } else {
        let claim = path.nodes[i].claims[n - 1];
        plus(
            spot_slope(m, k, path, i, s, t, p, (n - 1) as nat),
            times(
                claim.carry_weight,
                claim_slope(m, claim, k.nodes[i].claims[n - 1][p], s, t),
            ),
        )
    }
}

/// The derivatives of a spot with respect to the parameters of the rate.
pub open spec fn spot_slopes<R: Scalar>(
    m: Model<R>,
    k: RateSensitivityView<R>,
    path: RatePathView<R>,
    i: int,
    s: StochasticDividendHullWhiteState<R>,
    t: Seq<HullWhiteRateStateTangent<R>>,
) -> Result<Seq<R>, MonteCarloError> {
    if i >= path.nodes.len() || t.len() != k.labels.len() || k.nodes[i].claims.len()
        != path.nodes[i].claims.len() {
        Err(invalid_field("hw_spot_tangent_shape"))
    } else {
        let out = Seq::new(
            k.labels.len(),
            |p: int| spot_slope(m, k, path, i, s, t[p], p, path.nodes[i].claims.len()),
        );
        if m.all_finite(out) {
            Ok(out)
        } else {
            Err(invalid_field("hw_spot_tangent"))
        }
    }
}

impl<R: Scalar> HullWhiteRateSensitivityContext<R> {
    /// The names of the parameters.
    pub fn labels(&self) -> (v: &Vec<Label>)
        ensures
            v@ == self@.labels,
    {
        &self.labels
    }

    /// The derivatives of the logarithm of the discount factor of the payment.
    pub fn payment_log_constant_derivatives(&self) -> (v: &Vec<R>)
        ensures
            v@ == self@.payment_log_constant,
    {
        &self.payment_log_constant
    }

    /// The derivatives of the duration of the payment.
    pub fn payment_duration_derivatives(&self) -> (v: &Vec<R>)
        ensures
            v@ == self@.payment_duration,
    {
        &self.payment_duration
    }

    fn step_tangent<M: Math<R>>(
        &self,
        m: &M,
        path: &StochasticDividendHullWhitePathPlan<R>,
        i: usize,
        now: &Vec<HullWhiteRateStateTangent<R>>,
        old_x: R,
        normals: &Vec<R>,
    ) -> (v: Vec<HullWhiteRateStateTangent<R>>)
        requires
            path@.valid(),
            self@.of(path@),
            i < path@.steps.len(),
            now@.len() == self@.labels.len(),
            normals@.len() == path@.dimension,
        ensures
            v@ == tangent_stepped(
                m.model(),
                path@.steps[i as int],
                self@.steps[i as int],
                now@,
                old_x,
                chunk(normals@, 4, i as int),
            ),
            v@.len() == self@.labels.len(),
    {
        let n = self.labels.len();
        let at: usize = 4 * i;
        proof {
            assert(path@.steps[i as int] == path.steps@[i as int]@);
            assert(self@.steps[i as int] == self.steps@[i as int]@);
            assert(self@.steps[i as int].len() == n);
        }
        let step = &path.steps[i];
        let tangents = &self.steps[i].parameters;
        let ghost want = tangent_stepped(
            m.model(),
            path@.steps[i as int],
            self@.steps[i as int],
            now@,
            old_x,
            chunk(normals@, 4, i as int),
        );
        let ghost entry = |p: int| want[p];
        let v_at = |p: usize| -> (x: HullWhiteRateStateTangent<R>)
            requires
                p < n,
            ensures
                x == entry(p as int),
            {
                m.laws();
                let d = &tangents[p];
                proof {
                    assert(self@.steps[i as int][p as int] == d@);
                    assert(square(self@.steps[i as int][p as int].noise));
                    assert(d@.noise[2].len() == 4 && d@.noise[3].len() == 4);
                    assert(d@.noise[2] == d.noise@[2]@ && d@.noise[3] == d.noise@[3]@);
                }
                let s = now[p];
                let rate_noise = dot_at(m, &d.noise[2], normals, at);
                let integral_noise = dot_at(m, &d.noise[3], normals, at);
                HullWhiteRateStateTangent {
                    rate_factor: step.decay * s.rate_factor + d.decay * old_x + rate_noise,
                    integrated_rate_factor: s.integrated_rate_factor
                        + step.integral_loading * s.rate_factor + d.integral_loading * old_x
                            + integral_noise,
                }
            };
        let v = build(
            n,
            v_at,
            Ghost(entry),
        );
        assert(v@ =~= want);
        v
    }

    /// Takes the tangents of the rate along a path.
    pub fn evolve_rate_tangents<M: Math<R>>(
        &self,
        m: &M,
        path: &StochasticDividendHullWhitePathPlan<R>,
        normals: &Vec<R>,
        states: &Vec<StochasticDividendHullWhiteState<R>>,
    ) -> (r: Result<Vec<Vec<HullWhiteRateStateTangent<R>>>, MonteCarloError>)
        requires
            path@.valid(),
            self@.of(path@),
        ensures
            (match r {
                Ok(v) => Ok(rows_seen(v@)),
                Err(e) => Err(e),
            }) == rate_tangents(m.model(), self@, path@, normals@, states@),
            r matches Ok(v) ==> v@.len() == path@.times.len() && forall|i: int|
                0 <= i < v@.len() ==> (#[trigger] v@[i])@.len() == self@.labels.len(),
    {
        m.laws();
        if normals.len() != path.dimension as usize || states.len() != path.times.len()
            || states.len() == 0 || self.steps.len() != states.len() - 1 {
            return Err(invalid("hw_state_tangent_shape"));
        }
        let n = self.labels.len();
        let ghost nothing = |p: int|
            HullWhiteRateStateTangent {
                rate_factor: literal::<R>(0),
                integrated_rate_factor: literal(0),
            };
        let first_at = |p: usize| -> (x: HullWhiteRateStateTangent<R>)
            requires
                p < n,
            ensures
                x == nothing(p as int),
            {
                m.laws();
                HullWhiteRateStateTangent {
                    rate_factor: R::from(0u32),
                    integrated_rate_factor: R::from(0u32),
                }
            };
        let first = build(
            n,
            first_at,
            Ghost(nothing),
        );
        let mut rows: Vec<Vec<HullWhiteRateStateTangent<R>>> = vec![first];
        proof {
            assert(rows_seen(rows@) =~= tangents_upto(
                m.model(),
                self@,
                path@,
                normals@,
                states@,
                0,
            )->Ok_0);
        }
        let count = self.steps.len();
        let mut i: usize = 0;
        while i < count
            invariant
                path@.valid(),
                self@.of(path@),
                normals@.len() == path@.dimension,
                states@.len() == path@.times.len(),
                count == self@.steps.len(),
                count + 1 == states@.len(),
                i <= count,
                rows@.len() == i + 1,
                forall|k: int|
                    0 <= k < rows@.len() ==> (#[trigger] rows@[k])@.len() == self@.labels.len(),
                tangents_upto(m.model(), self@, path@, normals@, states@, i as nat) == Ok::<
                    Seq<Seq<HullWhiteRateStateTangent<R>>>,
                    MonteCarloError,
                >(rows_seen(rows@)),
            decreases count - i,
        {
            proof {
                if tangents_upto(
                    m.model(),
                    self@,
                    path@,
                    normals@,
                    states@,
                    (i + 1) as nat,
                ) is Err {
                    tangents_stop(
                        m.model(),
                        self@,
                        path@,
                        normals@,
                        states@,
                        (i + 1) as nat,
                        count as nat,
                    );
                }
                assert(rows@[i as int]@.len() == self@.labels.len());
            }
            let ghost before = rows_seen(rows@);
            assert(before.last() == rows@[i as int]@);
            let next = self.step_tangent(
                m,
                path,
                i,
                &rows[i],
                states[i].rate_factor,
                normals,
            );
            if !are_tangents_finite(m, &next) {
                return Err(invalid("hw_state_tangent"));
            }
            let ghost seen_next = next@;
            rows.push(next);
            assert(rows_seen(rows@) =~= before.push(seen_next));
            i = i + 1;
        }
        Ok(rows)
    }

    fn take_spot_slope<M: Math<R>>(
        &self,
        m: &M,
        path: &StochasticDividendHullWhitePathPlan<R>,
        i: usize,
        s: StochasticDividendHullWhiteState<R>,
        t: HullWhiteRateStateTangent<R>,
        p: usize,
    ) -> (x: R)
        requires
            path@.valid(),
            self@.of(path@),
            i < path@.nodes.len(),
            p < self@.labels.len(),
        ensures
            x == spot_slope(
                m.model(),
                self@,
                path@,
                i as int,
                s,
                t,
                p as int,
                path@.nodes[i as int].claims.len(),
            ),
    {
        m.laws();
        proof {
            assert(path@.nodes[i as int] == path.nodes@[i as int]@);
            assert(self@.nodes[i as int] == self.nodes@[i as int]@);
            assert(node_sized(self@.nodes[i as int], self@.labels.len()));
        }
        let node = &path.nodes[i];
        let growth = node.residual_growth * m.exp(
            s.integrated_rate_factor + node.half_integral_variance,
        );
        let equity = s.factors.equity;
        let risky_spot = path.risky_spot;
        let slope = self.risky_spot[p];
        let half_slope = self.nodes[i].half_integral_variance[p];
        let mut sum = slope * growth * equity + risky_spot * growth * equity * (
            t.integrated_rate_factor + half_slope
        );
        let n = node.claims.len();
        let mut k: usize = 0;
        while k < n
            invariant
                lawful::<R>(),
                path@.valid(),
                self@.of(path@),
                i < path@.nodes.len(),
                p < self@.labels.len(),
                node@ == path@.nodes[i as int],
                self@.nodes[i as int] == self.nodes@[i as int]@,
                node_sized(self@.nodes[i as int], self@.labels.len()),
                self@.nodes[i as int].claims.len() == n,
                n == node.claims@.len(),
                k <= n,
                sum == spot_slope(m.model(), self@, path@, i as int, s, t, p as int, k as nat),
            decreases n - k,
        {
            proof {
                assert(self@.nodes[i as int].claims[k as int].len() == self@.labels.len());
                assert(self@.nodes[i as int].claims[k as int]
                    == self.nodes@[i as int].claims@[k as int]@);
            }
            let claim = node.claims[k];
            let d = self.nodes[i].claims[k][p];
            let shape = claim.equity * s.factors.equity + claim.dividend * s.factors.dividend
                + claim.constant;
            let rise = d.equity * s.factors.equity + d.dividend * s.factors.dividend + d.constant;
            let value = m.exp(claim.duration.neg() * s.rate_factor) * (
                d.amount * shape + claim.amount * rise - claim.amount * shape * (
                    d.duration * s.rate_factor + claim.duration * t.rate_factor
                )
            );
            sum = sum + claim.carry_weight * value;
            k = k + 1;
        }
        sum
    }

    /// Takes the derivatives of a spot with respect to the parameters of the rate.
    pub fn spot_derivatives<M: Math<R>>(
        &self,
        m: &M,
        path: &StochasticDividendHullWhitePathPlan<R>,
        index: usize,
        state: StochasticDividendHullWhiteState<R>,
        state_tangents: &Vec<HullWhiteRateStateTangent<R>>,
    ) -> (r: Result<Vec<R>, MonteCarloError>)
        requires
            path@.valid(),
            self@.of(path@),
        ensures
            seen(r) == spot_slopes(
                m.model(),
                self@,
                path@,
                index as int,
                state,
                state_tangents@,
            ),
            r matches Ok(v) ==> v@.len() == self@.labels.len(),
    {
        let n = self.labels.len();
        if index >= path.nodes.len() || state_tangents.len() != n {
            return Err(invalid("hw_spot_tangent_shape"));
        }
        assert(self@.nodes[index as int].claims.len() == path@.nodes[index as int].claims.len());
        let ghost entry = |p: int|
            spot_slope(
                m.model(),
                self@,
                path@,
                index as int,
                state,
                state_tangents@[p],
                p,
                path@.nodes[index as int].claims.len(),
            );
        let out_at = |p: usize| -> (x: R)
            requires
                p < n,
            ensures
                x == entry(p as int),
            { self.take_spot_slope(m, path, index, state, state_tangents[p], p) };
        let out = build(
            n,
            out_at,
            Ghost(entry),
        );
        assert(out@ =~= Seq::new(
            self@.labels.len(),
            |p: int|
                spot_slope(
                    m.model(),
                    self@,
                    path@,
                    index as int,
                    state,
                    state_tangents@[p],
                    p,
                    path@.nodes[index as int].claims.len(),
                ),
        ));
        if !all_finite(m, out.as_slice()) {
            return Err(invalid("hw_spot_tangent"));
        }
        Ok(out)
    }
}

} // verus!
