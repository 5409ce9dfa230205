//! How the coefficients of a claim depend on the dividend model, on the rates and
//! on their correlations. Each derivative is integrated by itself.

use crate::dynamics::DividendDynamics;
use crate::errors::{invalid, invalid_field, MonteCarloError};
use crate::hw_cash::{
    cash_tolerance, make_cash_tolerance, rate_brownian_integral, rate_integral, CashInputs,
    CASH_DEPTH,
};
use crate::linear::{are_rows_finite, build_rows, collect_rows, rows_finite, rows_seen};
use crate::pathwise::make_zeros;
use crate::quadrature::{computes_integrand, cuts_of, integrate_panels, make_cuts, panels};
use crate::rates::{b, decayed, part_end, part_start, HullWhite1Factor, RatesView};
use crate::results::{gather, seen};
use crate::sampling::{half, zeros};
use crate::scalar::{
    lawful, le, literal, lt, minus, negated, over, plus, same, times, Math, Model, Scalar,
};
use core::ops::Neg;
use vstd::prelude::*;

verus! {

/// A series whose first term is `first` and whose ratios are those of `ratio`
/// from `a` up to `n`: its last term, and its sum.
pub open spec fn series<R: Scalar>(first: R, ratio: spec_fn(int) -> R, a: int, n: int) -> (R, R)
    decreases n - a,
{
    if n <= a {
        (first, first)
    } else {
        let (term, sum) = series(first, ratio, a, n - 1);
        let next = times(term, ratio(n - 1));
        (next, plus(sum, next))
    }
}

fn sum_series<R: Scalar, M: Math<R>, F: Fn(u32) -> R>(
    m: &M,
    first: R,
    f: F,
    Ghost(ratio): Ghost<spec_fn(int) -> R>,
    a: u32,
    n: u32,
) -> (x: R)
    requires
        a <= n,
        forall|i: u32| a <= i < n ==> #[trigger] call_requires(f, (i,)),
        forall|i: u32, y: R| #[trigger] call_ensures(f, (i,), y) && a <= i < n ==> y == ratio(
            i as int,
        ),
    ensures
        x == series(first, ratio, a as int, n as int).1,
{
    m.laws();
    let mut term = first;
    let mut sum = first;
    let mut i: u32 = a;
    while i < n
        invariant
            lawful::<R>(),
            a <= i <= n,
            forall|i: u32| a <= i < n ==> #[trigger] call_requires(f, (i,)),
            forall|i: u32, y: R| #[trigger]
                call_ensures(f, (i,), y) && a <= i < n ==> y == ratio(i as int),
            (term, sum) == series(first, ratio, a as int, i as int),
        decreases n - i,
    {
        term = term * f(i);
        sum = sum + term;
        i = i + 1;
    }
    sum
}

/// One tenth.
pub open spec fn tenth<R: Scalar>() -> R {
    over(literal(1), literal(10))
}

/// The derivative of the integral of `exp(-a u)` over the first `h` of `u` with
/// respect to `a`, by its series where the two are small.
pub open spec fn decayed_slope<R: Scalar>(m: Model<R>, a: R, h: R) -> R {
    let z = times(a, h);
    if lt(m.abs(z), tenth()) {
        let ratio = |n: int|
            over(times(negated(z), literal(n as u32)), literal((n * n - 1) as u32));
        let sum = series(negated(half::<R>()), ratio, 2, 24).1;
        times(times(h, h), sum)
    } else {
        over(minus(times(plus(literal(1), z), m.exp(negated(z))), literal(1)), times(a, a))
    }
}

/// Computes [`decayed_slope`].
pub fn b_mean_reversion_derivative<R: Scalar, M: Math<R>>(m: &M, a: R, h: R) -> (x: R)
    ensures
        x == decayed_slope(m.model(), a, h),
{
    m.laws();
    let z = a * h;
    if m.abs(z) < R::from(1u32) / R::from(10u32) {
        let ghost ratio = |n: int|
            over(times(negated(z), literal(n as u32)), literal((n * n - 1) as u32));
        let first = R::from(1u32) / R::from(2u32);
        let ratio_at = |n: u32| -> (x: R)
            requires
                2 <= n < 24,
            ensures
                x == ratio(n as int),
            {
                m.laws();
                assert(4 <= n * n <= 576) by (nonlinear_arith)
                    requires
                        2 <= n < 24,
                ;
                z.neg() * R::from(n) / R::from(n * n - 1)
            };
        let sum = sum_series(m, first.neg(), ratio_at, Ghost(ratio), 2, 24);
        return h * h * sum;
    }
    ((R::from(1u32) + z) * m.exp(z.neg()) - R::from(1u32)) / (a * a)
}

/// The integral of [`decayed`] over the first `h`.
pub open spec fn decayed_integral<R: Scalar>(m: Model<R>, a: R, h: R) -> R {
    let z = times(a, h);
    if lt(m.abs(z), tenth()) {
        let ratio = |n: int| over(negated(z), literal((n + 2) as u32));
        let sum = series(half::<R>(), ratio, 1, 20).1;
        times(times(h, h), sum)
    } else {
        over(minus(h, decayed(m, a, h)), a)
    }
}

/// Computes [`decayed_integral`].
pub fn integrated_b<R: Scalar, M: Math<R>>(m: &M, a: R, h: R) -> (x: R)
    ensures
        x == decayed_integral(m.model(), a, h),
{
    m.laws();
    let z = a * h;
    if m.abs(z) < R::from(1u32) / R::from(10u32) {
        let ghost ratio = |n: int| over(negated(z), literal((n + 2) as u32));
        let first = R::from(1u32) / R::from(2u32);
        let ratio_at = |n: u32| -> (x: R)
            requires
                1 <= n < 20,
            ensures
                x == ratio(n as int),
            {
                m.laws();
                z.neg() / R::from(n + 2)
            };
        let sum = sum_series(m, first, ratio_at, Ghost(ratio), 1, 20);
        return h * h * sum;
    }
    (h - b(m, a, h)) / a
}

/// The derivative of [`decayed_integral`] with respect to `a`.
pub open spec fn decayed_integral_slope<R: Scalar>(m: Model<R>, a: R, h: R) -> R {
    let z = times(a, h);
    if lt(m.abs(z), tenth()) {
        let ratio = |n: int|
            over(times(negated(z), literal(n as u32)), literal(((n - 1) * (n + 2)) as u32));
        let sum = series(over(negated(literal::<R>(1)), literal(6)), ratio, 2, 24).1;
        times(times(times(h, h), h), sum)
    } else {
        over(
            minus(minus(decayed(m, a, h), h), times(a, decayed_slope(m, a, h))),
            times(a, a),
        )
    }
}

/// Computes [`decayed_integral_slope`].
pub fn integrated_b_mean_reversion_derivative<R: Scalar, M: Math<R>>(m: &M, a: R, h: R) -> (x: R)
    ensures
        x == decayed_integral_slope(m.model(), a, h),
{
    m.laws();
    let z = a * h;
    if m.abs(z) < R::from(1u32) / R::from(10u32) {
        let ghost ratio = |n: int|
            over(times(negated(z), literal(n as u32)), literal(((n - 1) * (n + 2)) as u32));
        let one = R::from(1u32);
        let ratio_at = |n: u32| -> (x: R)
            requires
                2 <= n < 24,
            ensures
                x == ratio(n as int),
            {
                m.laws();
                assert(0 <= (n - 1) * (n + 2) <= 1000) by (nonlinear_arith)
                    requires
                        2 <= n < 24,
                ;
                z.neg() * R::from(n) / R::from((n - 1) * (n + 2))
            };
        let sum = sum_series(m, one.neg() / R::from(6u32), ratio_at, Ghost(ratio), 2, 24);
        return h * h * h * sum;
    }
    (b(m, a, h) - h - a * b_mean_reversion_derivative(m, a, h)) / (a * a)
}

/// The derivatives of [`rate_integral`] with respect to the reversion and to each
/// volatility of the rate, over the first `n` parts.
pub open spec fn rate_integral_slopes<R: Scalar>(
    m: Model<R>,
    rates: RatesView<R>,
    start: R,
    maturity: R,
    n: nat,
) -> Seq<R>
    decreases n,
{
    if n == 0 {
        zeros(1 + rates.volatilities.len())
    } else {
        let before = rate_integral_slopes(m, rates, start, maturity, (n - 1) as nat);
        let lo = part_start(rates, start, n - 1);
        let hi = part_end(rates, maturity, n - 1);
        if le(hi, lo) {
            before
        } else {
            let a = rates.mean_reversion;
            let far = minus(maturity, lo);
            let near = minus(maturity, hi);
            let whole = minus(decayed_integral(m, a, far), decayed_integral(m, a, near));
            let slope = minus(
                decayed_integral_slope(m, a, far),
                decayed_integral_slope(m, a, near),
            );
            let first = before.update(
                0,
                plus(before[0], times(rates.volatilities[n - 1], slope)),
            );
            first.update(n as int, plus(first[n as int], whole))
        }
    }
}

/// All derivatives of [`rate_integral`], which are zero where nothing is left.
pub open spec fn rate_slopes<R: Scalar>(
    m: Model<R>,
    rates: RatesView<R>,
    start: R,
    maturity: R,
) -> Seq<
    R,
> {
    if le(maturity, start) {
        zeros(1 + rates.volatilities.len())
    } else {
        rate_integral_slopes(m, rates, start, maturity, rates.volatility_times.len())
    }
}

/// Computes [`rate_slopes`].
pub fn rate_brownian_integral_derivatives<R: Scalar, M: Math<R>>(
    m: &M,
    rates: &HullWhite1Factor<R>,
    start: R,
    maturity: R,
) -> (v: Vec<R>)
    requires
        rates@.valid(),
        rates@.volatilities.len() < usize::MAX,
    ensures
        v@ == rate_slopes(m.model(), rates@, start, maturity),
        v@.len() == 1 + rates@.volatilities.len(),
{
    m.laws();
    let n = rates.volatility_times.len();
    let mut out = make_zeros(m, 1 + rates.volatilities.len());
    if maturity <= start {
        return out;
    }
    let a = rates.mean_reversion;
    let mut i: usize = 0;
    while i < n
        invariant
            lawful::<R>(),
            rates@.valid(),
            n == rates@.volatility_times.len(),
            a == rates@.mean_reversion,
            i <= n,
            out@.len() == 1 + rates@.volatilities.len(),
            out@ == rate_integral_slopes(m.model(), rates@, start, maturity, i as nat),
        decreases n - i,
    {
        let lo = if rates.volatility_times[i] > start {
            rates.volatility_times[i]
        } else {
            start
        };
        let hi = if i + 1 < n && rates.volatility_times[i + 1] < maturity {
            rates.volatility_times[i + 1]
        } else {
            maturity
        };
        if !(hi <= lo) {
            let near = maturity - hi;
            let far = maturity - lo;
            let whole = integrated_b(m, a, far) - integrated_b(m, a, near);
            let slope = integrated_b_mean_reversion_derivative(m, a, far)
                - integrated_b_mean_reversion_derivative(m, a, near);
            let x = out[0] + rates.volatilities[i] * slope;
            out.set(0, x);
            let x = out[i + 1] + whole;
            out.set(i + 1, x);
        }
        i = i + 1;
    }
    out
}

/// A row of derivatives of the coefficients of a claim: those of equity and of
/// one are integrated.
pub open spec fn integrated_row<R: Scalar>(
    m: Model<R>,
    f: spec_fn(R) -> Result<Seq<R>, MonteCarloError>,
    cuts: Seq<R>,
    tau: R,
    middle: R,
) -> Result<Seq<R>, MonteCarloError> {
    match panels(
        m,
        f,
        2,
        cuts,
        tau,
        cash_tolerance(),
        CASH_DEPTH as nat,
        (cuts.len() - 1) as nat,
    ) {
        Err(e) => Err(e),
        Ok(v) => Ok(seq![v[0], middle, v[1]]),
    }
}

/// Computes [`integrated_row`].
fn integrate_row<R: Scalar, M: Math<R>, F: Fn(R) -> Result<Vec<R>, MonteCarloError>>(
    m: &M,
    f: &F,
    Ghost(g): Ghost<spec_fn(R) -> Result<Seq<R>, MonteCarloError>>,
    cuts: &Vec<R>,
    tau: R,
    middle: R,
) -> (r: Result<Vec<R>, MonteCarloError>)
    requires
        computes_integrand(*f, g, 2),
        cuts@.len() > 0,
    ensures
        seen(r) == integrated_row(m.model(), g, cuts@, tau, middle),
        r matches Ok(v) ==> v@.len() == 3,
{
    match integrate_panels(
        m,
        f,
        Ghost(g),
        2,
        cuts,
        tau,
        make_cash_tolerance(m),
        CASH_DEPTH,
    ) {
        Err(e) => Err(e),
        Ok(v) => {
            let row = vec![v[0], middle, v[1]];
            assert(row@ =~= seq![v@[0], middle, v@[1]]);
            Ok(row)
        },
    }
}

/// Two finite numbers, or a failure.
pub open spec fn finite_pair<R: Scalar>(m: Model<R>, a: R, b: R, field: &'static str) -> Result<
    Seq<R>,
    MonteCarloError,
> {
    if m.is_finite(a) && m.is_finite(b) {
        Ok(seq![a, b])
    } else {
        Err(invalid_field(field))
    }
}

fn make_finite_pair<R: Scalar, M: Math<R>>(m: &M, a: R, b: R, field: &'static str) -> (r: Result<
    Vec<R>,
    MonteCarloError,
>)
    ensures
        seen(r) == finite_pair(m.model(), a, b, field),
        r matches Ok(v) ==> v@.len() == 2,
{
    if !m.is_finite(a) || !m.is_finite(b) {
        return Err(invalid(field));
    }
    let v = vec![a, b];
    assert(v@ =~= seq![a, b]);
    Ok(v)
}

/// What is integrated for the derivative with respect to the volatility of
/// equity, the speed of reversion, the linkage to equity, or the volatility of
/// dividends.
pub open spec fn jacobian_integrand<R: Scalar>(
    m: Model<R>,
    rates: RatesView<R>,
    x: CashInputs<R>,
    total: R,
    maturity: R,
    row: int,
) -> spec_fn(R) -> Result<Seq<R>, MonteCarloError> {
    let k = x.dividends.mean_reversion;
    let alpha = x.dividends.equity_linkage;
    let cf = times(x.sigma, x.rho_f);
    let cd = times(x.dividends.dividend_volatility, x.rho_d);
    let rho_f = x.rho_f;
    let rho_d = x.rho_d;
    |v: R|
        match rate_integral(m, rates, minus(maturity, v), maturity) {
            Err(e) => Err(e),
            Ok(tail) => {
                let e = m.exp(minus(times(negated(k), v), times(cd, tail)));
                let ef = m.exp(
                    minus(
                        minus(times(negated(k), v), times(cd, tail)),
                        times(cf, minus(total, tail)),
                    ),
                );
                let (first, second) = if row == 0 {
                    (
                        times(
                            times(times(times(negated(alpha), k), rho_f), minus(total, tail)),
                            ef,
                        ),
                        literal(0),
                    )
                } else if row == 1 {
                    (
                        times(times(alpha, minus(literal(1), times(k, v))), ef),
                        times(times(minus(literal(1), alpha), minus(literal(1), times(k, v))), e),
                    )
                } else if row == 2 {
                    (times(k, ef), times(negated(k), e))
                } else {
                    (
                        times(times(times(times(negated(alpha), k), rho_d), tail), ef),
                        times(
                            times(times(times(negated(minus(literal(1), alpha)), k), rho_d), tail),
                            e,
                        ),
                    )
                };
                finite_pair(m, first, second, "cash_derivative_integrand")
            },
        }
}

fn jacobian_integrand_at<R: Scalar, M: Math<R>>(
    m: &M,
    rates: &HullWhite1Factor<R>,
    x: CashInputs<R>,
    total: R,
    maturity: R,
    row: usize,
    v: R,
) -> (r: Result<Vec<R>, MonteCarloError>)
    requires
        rates@.valid(),
    ensures
        seen(r) == jacobian_integrand(m.model(), rates@, x, total, maturity, row as int)(v),
        r matches Ok(y) ==> y@.len() == 2,
{
    m.laws();
    let k = x.dividends.mean_reversion;
    let alpha = x.dividends.equity_linkage;
    let cf = x.sigma * x.rho_f;
    let cd = x.dividends.dividend_volatility * x.rho_d;
    let rho_f = x.rho_f;
    let rho_d = x.rho_d;
    let tail = match rate_brownian_integral(m, rates, maturity - v, maturity) {
        Err(e) => return Err(e),
        Ok(y) => y,
    };
    let e = m.exp(k.neg() * v - cd * tail);
    let ef = m.exp(k.neg() * v - cd * tail - cf * (total - tail));
    let (first, second) = if row == 0 {
        (alpha.neg() * k * rho_f * (total - tail) * ef, R::from(0u32))
    } else if row == 1 {
        (
            alpha * (R::from(1u32) - k * v) * ef,
            (R::from(1u32) - alpha) * (R::from(1u32) - k * v) * e,
        )
    } else if row == 2 {
        (k * ef, k.neg() * e)
    } else {
        (alpha.neg() * k * rho_d * tail * ef, (R::from(1u32) - alpha).neg() * k * rho_d * tail * e)
    };
    make_finite_pair(m, first, second, "cash_derivative_integrand")
}

/// The rows of derivatives of the coefficients of a claim with respect to the
/// volatility of equity, the speed of reversion, the linkage to equity and the
/// volatility of dividends.
pub open spec fn cash_jacobian<R: Scalar, Y: DividendDynamics<R>>(
    m: Model<R>,
    y: Y,
    rates: RatesView<R>,
    x: CashInputs<R>,
    t: R,
    maturity: R,
) -> Result<Seq<Seq<R>>, MonteCarloError> {
    let tau = minus(maturity, t);
    let k = x.dividends.mean_reversion;
    let alpha = x.dividends.equity_linkage;
    let cd = times(x.dividends.dividend_volatility, x.rho_d);
    let rho_d = x.rho_d;
    match rate_integral(m, rates, t, maturity) {
        Err(e) => Err(e),
        Ok(total) => if rates.deterministic() {
            let p = y.decay_of(k, tau);
            let (w, comp) = (p.first, p.second);
            Ok(
                seq![
                    zeros(3),
                    seq![
                        times(times(alpha, tau), w),
                        times(negated(tau), w),
                        times(times(minus(literal(1), alpha), tau), w),
                    ],
                    seq![comp, literal(0), negated(comp)],
                    zeros(3),
                ],
            )
        } else {
            let by = m.exp(minus(times(negated(k), tau), times(cd, total)));
            let cuts = cuts_of(m, rates.volatility_times, t, maturity);
            match gather(
                4,
                |row: int|
                    integrated_row(
                        m,
                        jacobian_integrand(m, rates, x, total, maturity, row),
                        cuts,
                        tau,
                        if row == 1 {
                            times(negated(tau), by)
                        } else if row == 3 {
                            times(times(negated(rho_d), total), by)
                        } else {
                            literal(0)
                        },
                    ),
            ) {
                Err(e) => Err(e),
                Ok(rows) => if rows_finite(m, rows) {
                    Ok(rows)
                } else {
                    Err(invalid_field("cash_derivative_coefficients"))
                },
            }
        },
    }
}

/// A result with its rows taken as sequences.
pub open spec fn matrix_seen<R>(r: Result<Vec<Vec<R>>, MonteCarloError>) -> Result<
    Seq<Seq<R>>,
    MonteCarloError,
> {
    match r {
        Ok(v) => Ok(rows_seen(v@)),
        Err(e) => Err(e),
    }
}

/// Takes the derivatives of the coefficients of a claim.
pub fn cash_coefficient_jacobian<R: Scalar, M: Math<R>, Y: DividendDynamics<R>>(
    m: &M,
    y: &Y,
    rates: &HullWhite1Factor<R>,
    x: CashInputs<R>,
    t: R,
    maturity: R,
) -> (r: Result<Vec<Vec<R>>, MonteCarloError>)
    requires
        rates@.valid(),
    ensures
        matrix_seen(r) == cash_jacobian(m.model(), *y, rates@, x, t, maturity),
        r matches Ok(v) ==> v@.len() == 4 && forall|i: int|
            0 <= i < 4 ==> (#[trigger] v@[i])@.len() == 3,
{
    m.laws();
    let tau = maturity - t;
    let k = x.dividends.mean_reversion;
    let alpha = x.dividends.equity_linkage;
    let cd = x.dividends.dividend_volatility * x.rho_d;
    let rho_d = x.rho_d;
    let total = match rate_brownian_integral(m, rates, t, maturity) {
        Err(e) => return Err(e),
        Ok(v) => v,
    };
    if rates.is_deterministic(m) {
        let p = y.decay(k, tau);
        let w = p.first;
        let comp = p.second;
        let a = alpha * tau * w;
        let c = tau.neg() * w;
        let d = (R::from(1u32) - alpha) * tau * w;
        let down = comp.neg();
        let zero = R::from(0u32);
        let first = make_zeros(m, 3);
        let second = vec![a, c, d];
        let third = vec![comp, zero, down];
        let last = make_zeros(m, 3);
        assert(second@ =~= seq![a, c, d]);
        assert(third@ =~= seq![comp, zero, down]);
        let v = vec![first, second, third, last];
        proof {
            assert(rows_seen(v@) =~= seq![
                zeros(3),
                seq![a, c, d],
                seq![comp, literal(0), negated(comp)],
                zeros(3),
            ]);
        }
        return Ok(v);
    }
    let by = m.exp(k.neg() * tau - cd * total);
    let cuts = make_cuts(m, &rates.volatility_times, t, maturity);
    let ghost g = |row: int|
        integrated_row(
            m.model(),
            jacobian_integrand(m.model(), rates@, x, total, maturity, row),
            cuts@,
            tau,
            if row == 1 {
                times(negated(tau), by)
            } else if row == 3 {
                times(times(negated(rho_d), total), by)
            } else {
                literal(0)
            },
        );
    let rows_at = |row: usize| -> (z: Result<Vec<R>, MonteCarloError>)
        requires
            row < 4,
        ensures
            seen(z) == g(row as int),
            z matches Ok(w) ==> w@.len() == 3,
        {
            m.laws();
            let ghost h = jacobian_integrand(
                m.model(),
                rates@,
                x,
                total,
                maturity,
                row as int,
            );
            let f = |v: R| -> (z: Result<Vec<R>, MonteCarloError>)
                ensures
                    seen(z) == h(v),
                    z matches Ok(w) ==> w@.len() == 2,
                { jacobian_integrand_at(m, rates, x, total, maturity, row, v) };
            let middle = if row == 1 {
                tau.neg() * by
            } else if row == 3 {
                rho_d.neg() * total * by
            } else {
                R::from(0u32)
            };
            integrate_row(m, &f, Ghost(h), &cuts, tau, middle)
        };
    let rows = match collect_rows(
        4,
        rows_at,
        Ghost(g),
        Ghost(3),
    ) {
        Err(e) => return Err(e),
        Ok(v) => v,
    };
    if !are_rows_finite(m, &rows) {
        return Err(invalid("cash_derivative_coefficients"));
    }
    Ok(rows)
}

/// What is integrated for the derivative with respect to a parameter of the rate.
pub open spec fn rate_integrand<R: Scalar>(
    m: Model<R>,
    rates: RatesView<R>,
    x: CashInputs<R>,
    total: R,
    slope: R,
    maturity: R,
    p: int,
) -> spec_fn(R) -> Result<Seq<R>, MonteCarloError> {
    let k = x.dividends.mean_reversion;
    let alpha = x.dividends.equity_linkage;
    let cf = times(x.sigma, x.rho_f);
    let cd = times(x.dividends.dividend_volatility, x.rho_d);
    |v: R|
        match rate_integral(m, rates, minus(maturity, v), maturity) {
            Err(e) => Err(e),
            Ok(tail) => {
                let dtail = rate_slopes(m, rates, minus(maturity, v), maturity)[p];
                let first = times(
                    times(
                        times(alpha, k),
                        m.exp(
                            minus(
                                minus(times(negated(k), v), times(cd, tail)),
                                times(cf, minus(total, tail)),
                            ),
                        ),
                    ),
                    minus(times(negated(cd), dtail), times(cf, minus(slope, dtail))),
                );
                let second = times(
                    times(
                        times(minus(literal(1), alpha), k),
                        m.exp(minus(times(negated(k), v), times(cd, tail))),
                    ),
                    times(negated(cd), dtail),
                );
                finite_pair(m, first, second, "cash_rate_derivative_integrand")
            },
        }
}

fn rate_integrand_at<R: Scalar, M: Math<R>>(
    m: &M,
    rates: &HullWhite1Factor<R>,
    x: CashInputs<R>,
    total: R,
    slope: R,
    maturity: R,
    p: usize,
    v: R,
) -> (r: Result<Vec<R>, MonteCarloError>)
    requires
        rates@.valid(),
        rates@.volatilities.len() < usize::MAX,
        p < 1 + rates@.volatilities.len(),
    ensures
        seen(r) == rate_integrand(m.model(), rates@, x, total, slope, maturity, p as int)(v),
        r matches Ok(y) ==> y@.len() == 2,
{
    m.laws();
    let k = x.dividends.mean_reversion;
    let alpha = x.dividends.equity_linkage;
    let cf = x.sigma * x.rho_f;
    let cd = x.dividends.dividend_volatility * x.rho_d;
    let start = maturity - v;
    let tail = match rate_brownian_integral(m, rates, start, maturity) {
        Err(e) => return Err(e),
        Ok(y) => y,
    };
    let slopes = rate_brownian_integral_derivatives(m, rates, start, maturity);
    let dtail = slopes[p];
    let first = alpha * k * m.exp(
        k.neg() * v - cd * tail - cf * (total - tail),
    ) * (cd.neg() * dtail - cf * (slope - dtail));
    let second = (R::from(1u32) - alpha) * k * m.exp(k.neg() * v - cd * tail) * (cd.neg() * dtail);
    make_finite_pair(m, first, second, "cash_rate_derivative_integrand")
}

/// The rows of derivatives of the coefficients of a claim with respect to the
/// reversion and to each volatility of the rate.
pub open spec fn cash_rate_rows<R: Scalar>(
    m: Model<R>,
    rates: RatesView<R>,
    x: CashInputs<R>,
    t: R,
    maturity: R,
) -> Result<Seq<Seq<R>>, MonteCarloError> {
    let n = 1 + rates.volatilities.len();
    let tau = minus(maturity, t);
    let k = x.dividends.mean_reversion;
    let cf = times(x.sigma, x.rho_f);
    let cd = times(x.dividends.dividend_volatility, x.rho_d);
    let zero = literal::<R>(0);
    match rate_integral(m, rates, t, maturity) {
        Err(e) => Err(e),
        Ok(total) => {
            let slopes = rate_slopes(m, rates, t, maturity);
            let by = m.exp(minus(times(negated(k), tau), times(cd, total)));
            if (same(cf, zero) && same(cd, zero)) || same(k, zero) || same(tau, zero) {
                Ok(Seq::new(n, |p: int| seq![zero, times(times(negated(cd), slopes[p]), by), zero]))
            } else {
                let cuts = cuts_of(m, rates.volatility_times, t, maturity);
                match gather(
                    n,
                    |p: int|
                        integrated_row(
                            m,
                            rate_integrand(m, rates, x, total, slopes[p], maturity, p),
                            cuts,
                            tau,
                            times(times(negated(cd), slopes[p]), by),
                        ),
                ) {
                    Err(e) => Err(e),
                    Ok(rows) => if rows_finite(m, rows) {
                        Ok(rows)
                    } else {
                        Err(invalid_field("cash_rate_derivative_coefficients"))
                    },
                }
            }
        },
    }
}

/// Takes the derivatives of the coefficients of a claim with respect to the
/// parameters of the rate.
pub fn cash_coefficient_rate_derivatives<R: Scalar, M: Math<R>>(
    m: &M,
    rates: &HullWhite1Factor<R>,
    x: CashInputs<R>,
    t: R,
    maturity: R,
) -> (r: Result<Vec<Vec<R>>, MonteCarloError>)
    requires
        rates@.valid(),
        rates@.volatilities.len() < usize::MAX,
    ensures
        matrix_seen(r) == cash_rate_rows(m.model(), rates@, x, t, maturity),
        r matches Ok(v) ==> v@.len() == 1 + rates@.volatilities.len() && forall|i: int|
            0 <= i < v@.len() ==> (#[trigger] v@[i])@.len() == 3,
{
    m.laws();
    let n: usize = 1 + rates.volatilities.len();
    let zero = R::from(0u32);
    let tau = maturity - t;
    let k = x.dividends.mean_reversion;
    let cf = x.sigma * x.rho_f;
    let cd = x.dividends.dividend_volatility * x.rho_d;
    let total = match rate_brownian_integral(m, rates, t, maturity) {
        Err(e) => return Err(e),
        Ok(v) => v,
    };
    let slopes = rate_brownian_integral_derivatives(m, rates, t, maturity);
    let by = m.exp(k.neg() * tau - cd * total);
    if (cf == zero && cd == zero) || k == zero || tau == zero {
        let ghost g = |p: int|
            seq![literal::<R>(0), times(times(negated(cd), slopes@[p]), by), literal::<R>(0)];
        let rows_at = |p: usize| -> (row: Vec<R>)
            requires
                p < n,
            ensures
                row@ == g(p as int),
            {
                m.laws();
                let none = R::from(0u32);
                let middle = cd.neg() * slopes[p] * by;
                let row = vec![none, middle, none];
                assert(row@ =~= seq![none, middle, none]);
                row
            };
        let rows = build_rows(
            n,
            rows_at,
            Ghost(g),
        );
        proof {
            assert(rows_seen(rows@) =~= cash_rate_rows(m.model(), rates@, x, t, maturity)->Ok_0);
        }
        return Ok(rows);
    }
    let cuts = make_cuts(m, &rates.volatility_times, t, maturity);
    let ghost g = |p: int|
        integrated_row(
            m.model(),
            rate_integrand(m.model(), rates@, x, total, slopes@[p], maturity, p),
            cuts@,
            tau,
            times(times(negated(cd), slopes@[p]), by),
        );
    let rows_at = |p: usize| -> (z: Result<Vec<R>, MonteCarloError>)
        requires
            p < n,
        ensures
            seen(z) == g(p as int),
            z matches Ok(w) ==> w@.len() == 3,
        {
            m.laws();
            let slope = slopes[p];
            let ghost h = rate_integrand(
                m.model(),
                rates@,
                x,
                total,
                slope,
                maturity,
                p as int,
            );
            let f = |v: R| -> (z: Result<Vec<R>, MonteCarloError>)
                ensures
                    seen(z) == h(v),
                    z matches Ok(w) ==> w@.len() == 2,
                { rate_integrand_at(m, rates, x, total, slope, maturity, p, v) };
            let middle = cd.neg() * slope * by;
            integrate_row(m, &f, Ghost(h), &cuts, tau, middle)
        };
    let rows = match collect_rows(
        n,
        rows_at,
        Ghost(g),
        Ghost(3),
    ) {
        Err(e) => return Err(e),
        Ok(v) => v,
    };
    if !are_rows_finite(m, &rows) {
        return Err(invalid("cash_rate_derivative_coefficients"));
    }
    Ok(rows)
}

/// What is integrated for the derivative with respect to the correlation of
/// equity and the rate, or of dividends and the rate.
pub open spec fn correlation_integrand<R: Scalar>(
    m: Model<R>,
    rates: RatesView<R>,
    x: CashInputs<R>,
    total: R,
    maturity: R,
    p: int,
) -> spec_fn(R) -> Result<Seq<R>, MonteCarloError> {
    let k = x.dividends.mean_reversion;
    let alpha = x.dividends.equity_linkage;
    let nu = x.dividends.dividend_volatility;
    let sigma = x.sigma;
    let cf = times(x.sigma, x.rho_f);
    let cd = times(nu, x.rho_d);
    |v: R|
        match rate_integral(m, rates, minus(maturity, v), maturity) {
            Err(e) => Err(e),
            Ok(tail) => {
                let common = minus(times(negated(k), v), times(cd, tail));
                let (da, dc) = if p == 1 {
                    (times(negated(sigma), minus(total, tail)), literal(0))
                } else {
                    (times(negated(nu), tail), times(negated(nu), tail))
                };
                finite_pair(
                    m,
                    times(
                        times(times(alpha, k), m.exp(minus(common, times(cf, minus(total, tail))))),
                        da,
                    ),
                    times(times(times(minus(literal(1), alpha), k), m.exp(common)), dc),
                    "cash_correlation_derivative_integrand",
                )
            },
        }
}

fn correlation_integrand_at<R: Scalar, M: Math<R>>(
    m: &M,
    rates: &HullWhite1Factor<R>,
    x: CashInputs<R>,
    total: R,
    maturity: R,
    p: usize,
    v: R,
) -> (r: Result<Vec<R>, MonteCarloError>)
    requires
        rates@.valid(),
    ensures
        seen(r) == correlation_integrand(m.model(), rates@, x, total, maturity, p as int)(v),
        r matches Ok(y) ==> y@.len() == 2,
{
    m.laws();
    let k = x.dividends.mean_reversion;
    let alpha = x.dividends.equity_linkage;
    let nu = x.dividends.dividend_volatility;
    let sigma = x.sigma;
    let cf = x.sigma * x.rho_f;
    let cd = nu * x.rho_d;
    let tail = match rate_brownian_integral(m, rates, maturity - v, maturity) {
        Err(e) => return Err(e),
        Ok(y) => y,
    };
    let common = k.neg() * v - cd * tail;
    let (da, dc) = if p == 1 {
        (sigma.neg() * (total - tail), R::from(0u32))
    } else {
        (nu.neg() * tail, nu.neg() * tail)
    };
    let first = alpha * k * m.exp(common - cf * (total - tail)) * da;
    let second = (R::from(1u32) - alpha) * k * m.exp(common) * dc;
    make_finite_pair(m, first, second, "cash_correlation_derivative_integrand")
}

/// The rows of derivatives of the coefficients of a claim with respect to the
/// correlations of equity and dividends, of equity and the rate, and of dividends
/// and the rate. A correlation of zero has its derivative too.
pub open spec fn cash_correlation_rows<R: Scalar>(
    m: Model<R>,
    rates: RatesView<R>,
    x: CashInputs<R>,
    t: R,
    maturity: R,
) -> Result<Seq<Seq<R>>, MonteCarloError> {
    let tau = minus(maturity, t);
    let k = x.dividends.mean_reversion;
    let nu = x.dividends.dividend_volatility;
    let cd = times(nu, x.rho_d);
    let zero = literal::<R>(0);
    match rate_integral(m, rates, t, maturity) {
        Err(e) => Err(e),
        Ok(total) => {
            let last = times(
                times(negated(nu), total),
                m.exp(minus(times(negated(k), tau), times(cd, total))),
            );
            if same(k, zero) || same(tau, zero) {
                Ok(seq![zeros(3), zeros(3), seq![zero, last, zero]])
            } else {
                let cuts = cuts_of(m, rates.volatility_times, t, maturity);
                match integrated_row(
                    m,
                    correlation_integrand(m, rates, x, total, maturity, 1),
                    cuts,
                    tau,
                    zero,
                ) {
                    Err(e) => Err(e),
                    Ok(second) => match integrated_row(
                        m,
                        correlation_integrand(m, rates, x, total, maturity, 2),
                        cuts,
                        tau,
                        last,
                    ) {
                        Err(e) => Err(e),
                        Ok(third) => {
                            let rows = seq![zeros(3), second, third];
                            if rows_finite(m, rows) {
                                Ok(rows)
                            } else {
                                Err(invalid_field("cash_correlation_derivative_coefficients"))
                            }
                        },
                    },
                }
            }
        },
    }
}

/// Takes the derivatives of the coefficients of a claim with respect to the
/// correlations.
pub fn cash_coefficient_derivatives<R: Scalar, M: Math<R>>(
    m: &M,
    rates: &HullWhite1Factor<R>,
    x: CashInputs<R>,
    t: R,
    maturity: R,
) -> (r: Result<Vec<Vec<R>>, MonteCarloError>)
    requires
        rates@.valid(),
    ensures
        matrix_seen(r) == cash_correlation_rows(m.model(), rates@, x, t, maturity),
        r matches Ok(v) ==> v@.len() == 3 && forall|i: int|
            0 <= i < 3 ==> (#[trigger] v@[i])@.len() == 3,
{
    m.laws();
    let tau = maturity - t;
    let k = x.dividends.mean_reversion;
    let nu = x.dividends.dividend_volatility;
    let cd = nu * x.rho_d;
    let zero = R::from(0u32);
    let total = match rate_brownian_integral(m, rates, t, maturity) {
        Err(e) => return Err(e),
        Ok(v) => v,
    };
    let last = nu.neg() * total * m.exp(k.neg() * tau - cd * total);
    if k == zero || tau == zero {
        let first = make_zeros(m, 3);
        let second = make_zeros(m, 3);
        let third = vec![zero, last, zero];
        assert(third@ =~= seq![zero, last, zero]);
        let v = vec![first, second, third];
        assert(rows_seen(v@) =~= seq![zeros(3), zeros(3), seq![zero, last, zero]]);
        return Ok(v);
    }
    let cuts = make_cuts(m, &rates.volatility_times, t, maturity);
    let ghost g1 = correlation_integrand(m.model(), rates@, x, total, maturity, 1);
    let f1 = |v: R| -> (z: Result<Vec<R>, MonteCarloError>)
        ensures
            seen(z) == g1(v),
            z matches Ok(w) ==> w@.len() == 2,
        { correlation_integrand_at(m, rates, x, total, maturity, 1, v) };
    let second = match integrate_row(m, &f1, Ghost(g1), &cuts, tau, zero) {
        Err(e) => return Err(e),
        Ok(v) => v,
    };
    let ghost g2 = correlation_integrand(m.model(), rates@, x, total, maturity, 2);
    let f2 = |v: R| -> (z: Result<Vec<R>, MonteCarloError>)
        ensures
            seen(z) == g2(v),
            z matches Ok(w) ==> w@.len() == 2,
        { correlation_integrand_at(m, rates, x, total, maturity, 2, v) };
    let third = match integrate_row(m, &f2, Ghost(g2), &cuts, tau, last) {
        Err(e) => return Err(e),
        Ok(v) => v,
    };
    let first = make_zeros(m, 3);
    let ghost (b2, b3) = (second@, third@);
    let v = vec![first, second, third];
    assert(rows_seen(v@) =~= seq![zeros(3), b2, b3]);
    if !are_rows_finite(m, &v) {
        return Err(invalid("cash_correlation_derivative_coefficients"));
    }
    Ok(v)
}

} // verus!
