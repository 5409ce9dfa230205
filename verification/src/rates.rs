//! A one-factor short rate with a piecewise constant volatility, and its joint
//! law with two other drivers over a step.

use crate::errors::{HullWhiteError, MonteCarloError};
use crate::linear::{build, build_rows, rows_seen, take_total, total};
use crate::scalar::{
    all_finite, ge, gt, lawful, le, literal, lt, minus, negated, over, plus, same, times, Math,
    Model, Scalar,
};
use core::ops::Neg;
use vstd::prelude::*;

verus! {

/// The failure that names an entry of an input.
pub open spec fn rate_field(field: &'static str, index: usize) -> MonteCarloError {
    MonteCarloError::HullWhite(HullWhiteError::InvalidInput { field, index })
}

/// Makes [`rate_field`].
pub fn invalid_rate(field: &'static str, index: usize) -> (e: MonteCarloError)
    ensures
        e == rate_field(field, index),
{
    MonteCarloError::HullWhite(HullWhiteError::InvalidInput { field, index })
}

/// A mean-reverting short rate. Its volatility is constant from each time on.
pub struct HullWhite1Factor<R> {
    pub mean_reversion: R,
    pub volatility_times: Vec<R>,
    pub volatilities: Vec<R>,
}

/// A [`HullWhite1Factor`] as a mathematical value.
pub ghost struct RatesView<R> {
    pub mean_reversion: R,
    pub volatility_times: Seq<R>,
    pub volatilities: Seq<R>,
}

impl<R> View for HullWhite1Factor<R> {
    type V = RatesView<R>;

    open spec fn view(&self) -> RatesView<R> {
        RatesView {
            mean_reversion: self.mean_reversion,
            volatility_times: self.volatility_times@,
            volatilities: self.volatilities@,
        }
    }
}

impl<R: Scalar> RatesView<R> {
    /// Each time has its volatility, and there is one.
    pub open spec fn valid(self) -> bool {
        &&& 1 <= self.volatility_times.len()
        &&& self.volatilities.len() == self.volatility_times.len()
    }

    /// No volatility moves the rate.
    pub open spec fn deterministic(self) -> bool {
        forall|i: int|
            0 <= i < self.volatilities.len() ==> same(#[trigger] self.volatilities[i], literal(0))
    }
}

/// Finite and not below zero.
pub open spec fn finite_nonnegative<R: Scalar>(m: Model<R>, x: R) -> bool {
    m.is_finite(x) && ge(x, literal(0))
}

/// The first entry that is not finite or is below zero.
pub open spec fn first_negative<R: Scalar>(m: Model<R>, v: Seq<R>, i: int) -> Option<int>
    decreases v.len() - i,
{
    if i >= v.len() {
        None
    } else if !finite_nonnegative(m, v[i]) {
        Some(i)
    } else {
        first_negative(m, v, i + 1)
    }
}

/// The first time that is not finite or not after the one before it; the first
/// time has to be zero.
pub open spec fn first_unordered<R: Scalar>(m: Model<R>, v: Seq<R>, i: int) -> Option<int>
    decreases v.len() - i,
{
    if i >= v.len() {
        None
    } else if !m.is_finite(v[i]) || (if i == 0 {
        !same(v[0], literal(0))
    } else {
        !gt(v[i], v[i - 1])
    }) {
        Some(i)
    } else {
        first_unordered(m, v, i + 1)
    }
}

/// The failure of the inputs of a rate model.
pub open spec fn rates_error<R: Scalar>(
    m: Model<R>,
    mean_reversion: R,
    grid: Seq<R>,
    volatilities: Seq<R>,
) -> Option<MonteCarloError> {
    if !finite_nonnegative(m, mean_reversion) {
        Some(rate_field("mean_reversion", 0))
    } else if grid.len() == 0 || grid.len() != volatilities.len() {
        Some(rate_field("volatility_times", grid.len() as usize))
    } else {
        match first_unordered(m, grid, 0) {
            Some(i) => Some(rate_field("volatility_times", i as usize)),
            None => match first_negative(m, volatilities, 0) {
                Some(i) => Some(rate_field("volatilities", i as usize)),
                None => None,
            },
        }
    }
}

impl<R: Scalar> HullWhite1Factor<R> {
    /// Takes the speed of reversion and the volatility from each time on.
    pub fn new<M: Math<R>>(
        m: &M,
        mean_reversion: R,
        volatility_times: Vec<R>,
        volatilities: Vec<R>,
    ) -> (r: Result<HullWhite1Factor<R>, MonteCarloError>)
        ensures
            (match r {
                Ok(h) => Ok(h@),
                Err(e) => Err(e),
            }) == (match rates_error(m.model(), mean_reversion, volatility_times@, volatilities@) {
                Some(e) => Err(e),
                None => Ok(
                    (RatesView {
                        mean_reversion,
                        volatility_times: volatility_times@,
                        volatilities: volatilities@,
                    }),
                ),
            }),
            r matches Ok(h) ==> h@.valid(),
    {
        m.laws();
        let zero = R::from(0u32);
        if !(m.is_finite(mean_reversion) && mean_reversion >= zero) {
            return Err(invalid_rate("mean_reversion", 0));
        }
        let n = volatility_times.len();
        if n == 0 || n != volatilities.len() {
            return Err(invalid_rate("volatility_times", n));
        }
        let mut i: usize = 0;
        while i < n
            invariant
                lawful::<R>(),
                zero == literal::<R>(0),
                i <= n,
                n == volatility_times@.len(),
                n == volatilities@.len(),
                0 < n,
                finite_nonnegative(m.model(), mean_reversion),
                first_unordered(m.model(), volatility_times@, 0) == first_unordered(
                    m.model(),
                    volatility_times@,
                    i as int,
                ),
            decreases n - i,
        {
            let t = volatility_times[i];
            let ordered = if i == 0 {
                t == zero
            } else {
                t > volatility_times[i - 1]
            };
            if !m.is_finite(t) || !ordered {
                return Err(invalid_rate("volatility_times", i));
            }
            i = i + 1;
        }
        let mut i: usize = 0;
        while i < n
            invariant
                lawful::<R>(),
                zero == literal::<R>(0),
                i <= n,
                n == volatility_times@.len(),
                n == volatilities@.len(),
                0 < n,
                finite_nonnegative(m.model(), mean_reversion),
                first_unordered(m.model(), volatility_times@, 0) is None,
                first_negative(m.model(), volatilities@, 0) == first_negative(
                    m.model(),
                    volatilities@,
                    i as int,
                ),
            decreases n - i,
        {
            let v = volatilities[i];
            if !(m.is_finite(v) && v >= zero) {
                return Err(invalid_rate("volatilities", i));
            }
            i = i + 1;
        }
        Ok(HullWhite1Factor { mean_reversion, volatility_times, volatilities })
    }

    /// Whether no volatility moves the rate.
    pub fn is_deterministic<M: Math<R>>(&self, m: &M) -> (b: bool)
        ensures
            b == self@.deterministic(),
    {
        m.laws();
        let mut i: usize = 0;
        while i < self.volatilities.len()
            invariant
                lawful::<R>(),
                i <= self@.volatilities.len(),
                forall|k: int|
                    0 <= k < i ==> same(#[trigger] self@.volatilities[k], literal(0)),
            decreases self@.volatilities.len() - i,
        {
            if !(self.volatilities[i] == R::from(0u32)) {
                assert(!same(self@.volatilities[i as int], literal(0)));
                return false;
            }
            i = i + 1;
        }
        true
    }
}

/// The correlations of equity, a second driver and the rate.
#[derive(Clone, Copy, Debug, PartialEq)]
pub struct HybridCorrelation<R> {
    pub equity_second: R,
    pub equity_rate: R,
    pub second_rate: R,
}

/// The correlations are those of three drivers.
pub open spec fn correlated<R: Scalar>(m: Model<R>, c: HybridCorrelation<R>) -> bool {
    let (a, b, d) = (c.equity_second, c.equity_rate, c.second_rate);
    let determinant = minus(
        minus(
            minus(plus(literal(1), times(times(times(literal(2), a), b), d)), times(a, a)),
            times(b, b),
        ),
        times(d, d),
    );
    &&& m.is_finite(a) && le(m.abs(a), literal(1))
    &&& m.is_finite(b) && le(m.abs(b), literal(1))
    &&& m.is_finite(d) && le(m.abs(d), literal(1))
    &&& ge(determinant, literal(0))
}

impl<R: Scalar> HybridCorrelation<R> {
    /// Takes the correlations of three drivers.
    pub fn new<M: Math<R>>(m: &M, equity_second: R, equity_rate: R, second_rate: R) -> (r: Result<
        HybridCorrelation<R>,
        MonteCarloError,
    >)
        ensures
            r == ({
                let c = HybridCorrelation { equity_second, equity_rate, second_rate };
                if correlated(m.model(), c) {
                    Ok(c)
                } else {
                    Err(rate_field("correlation", 0))
                }
            }),
    {
        m.laws();
        let a = equity_second;
        let b = equity_rate;
        let d = second_rate;
        let one = R::from(1u32);
        let determinant = R::from(1u32) + R::from(2u32) * a * b * d - a * a - b * b - d * d;
        if m.is_finite(a) && m.abs(a) <= one && m.is_finite(b) && m.abs(b) <= one && m.is_finite(d)
            && m.abs(d) <= one && determinant >= R::from(0u32) {
            Ok(HybridCorrelation { equity_second, equity_rate, second_rate })
        } else {
            Err(invalid_rate("correlation", 0))
        }
    }
}

/// The integral of `exp(-c z)` over the first `h` of `z`.
pub open spec fn decayed<R: Scalar>(m: Model<R>, c: R, h: R) -> R {
    if same(c, literal(0)) {
        h
    } else {
        over(negated(m.exp_m1(times(negated(c), h))), c)
    }
}

/// Computes [`decayed`]. It is the duration of a bond under a reverting rate.
pub fn b<R: Scalar, M: Math<R>>(m: &M, c: R, h: R) -> (x: R)
    ensures
        x == decayed(m.model(), c, h),
{
    m.laws();
    if c == R::from(0u32) {
        h
    } else {
        m.exp_m1(c.neg() * h).neg() / c
    }
}

/// The integral of `exp(-c z)` for `z` from `near` to `near + h`.
pub open spec fn window<R: Scalar>(m: Model<R>, c: R, near: R, h: R) -> R {
    times(m.exp(times(negated(c), near)), decayed(m, c, h))
}

fn take_window<R: Scalar, M: Math<R>>(m: &M, c: R, near: R, h: R) -> (x: R)
    ensures
        x == window(m.model(), c, near, h),
{
    m.laws();
    m.exp(c.neg() * near) * b(m, c, h)
}

/// The integral of `z exp(-c z)` for `z` from `near` to `near + h`.
pub open spec fn weighted_window<R: Scalar>(m: Model<R>, c: R, near: R, h: R) -> R {
    let far = plus(near, h);
    if same(c, literal(0)) {
        over(minus(times(far, far), times(near, near)), literal(2))
    } else {
        over(
            plus(
                minus(
                    times(near, m.exp(times(negated(c), near))),
                    times(far, m.exp(times(negated(c), far))),
                ),
                window(m, c, near, h),
            ),
            c,
        )
    }
}

fn take_weighted_window<R: Scalar, M: Math<R>>(m: &M, c: R, near: R, h: R) -> (x: R)
    ensures
        x == weighted_window(m.model(), c, near, h),
{
    m.laws();
    let far = near + h;
    if c == R::from(0u32) {
        (far * far - near * near) / R::from(2u32)
    } else {
        (near * m.exp(c.neg() * near) - far * m.exp(c.neg() * far) + take_window(m, c, near, h)) / c
    }
}

/// The covariances of the drivers over a part of a step on which the volatility
/// of the rate is `s`: equity, the second driver, the rate and its integral.
/// They stand row by row in the lower triangle; `near` is the time from the end
/// of the part to the end of the step, and `h` its length.
pub open spec fn part_covariances<R: Scalar>(
    m: Model<R>,
    a: R,
    k: R,
    corr: HybridCorrelation<R>,
    s: R,
    near: R,
    h: R,
) -> Seq<R> {
    let far = plus(near, h);
    let ea = window(m, a, near, h);
    let e2a = window(m, times(literal(2), a), near, h);
    let ek = window(m, k, near, h);
    let eka = window(m, plus(k, a), near, h);
    let flat = same(a, literal(0));
    let integral_equity = if flat {
        over(minus(times(far, far), times(near, near)), literal(2))
    } else {
        over(minus(h, ea), a)
    };
    let integral_second = if flat {
        weighted_window(m, k, near, h)
    } else {
        over(minus(ek, eka), a)
    };
    let integral_rate = if flat {
        over(minus(times(far, far), times(near, near)), literal(2))
    } else {
        over(minus(ea, e2a), a)
    };
    let integral_integral = if flat {
        over(minus(times(times(far, far), far), times(times(near, near), near)), literal(3))
    } else {
        over(plus(minus(h, times(literal(2), ea)), e2a), times(a, a))
    };
    seq![
        h,
        times(corr.equity_second, ek),
        window(m, times(literal(2), k), near, h),
        times(times(corr.equity_rate, s), ea),
        times(times(corr.second_rate, s), eka),
        times(times(s, s), e2a),
        times(times(corr.equity_rate, s), integral_equity),
        times(times(corr.second_rate, s), integral_second),
        times(times(s, s), integral_rate),
        times(times(s, s), integral_integral),
    ]
}

fn take_part<R: Scalar, M: Math<R>>(
    m: &M,
    a: R,
    k: R,
    corr: HybridCorrelation<R>,
    s: R,
    near: R,
    h: R,
) -> (v: Vec<R>)
    ensures
        v@ == part_covariances(m.model(), a, k, corr, s, near, h),
        v@.len() == 10,
{
    m.laws();
    let far = near + h;
    let ea = take_window(m, a, near, h);
    let e2a = take_window(m, R::from(2u32) * a, near, h);
    let ek = take_window(m, k, near, h);
    let eka = take_window(m, k + a, near, h);
    let flat = a == R::from(0u32);
    let integral_equity = if flat {
        (far * far - near * near) / R::from(2u32)
    } else {
        (h - ea) / a
    };
    let integral_second = if flat {
        take_weighted_window(m, k, near, h)
    } else {
        (ek - eka) / a
    };
    let integral_rate = if flat {
        (far * far - near * near) / R::from(2u32)
    } else {
        (ea - e2a) / a
    };
    let integral_integral = if flat {
        (far * far * far - near * near * near) / R::from(3u32)
    } else {
        (h - R::from(2u32) * ea + e2a) / (a * a)
    };
    let second = take_window(m, R::from(2u32) * k, near, h);
    let v: Vec<R> = vec![
        h,
        corr.equity_second * ek,
        second,
        corr.equity_rate * s * ea,
        corr.second_rate * s * eka,
        s * s * e2a,
        corr.equity_rate * s * integral_equity,
        corr.second_rate * s * integral_second,
        s * s * integral_rate,
        s * s * integral_integral,
    ];
    assert(v@ =~= part_covariances(m.model(), a, k, corr, s, near, h));
    v
}

/// The start of the part `i` of a step: the volatility that holds there began
/// no later.
pub open spec fn part_start<R: Scalar>(rates: RatesView<R>, from: R, i: int) -> R {
    if gt(rates.volatility_times[i], from) {
        rates.volatility_times[i]
    } else {
        from
    }
}

/// The end of the part `i` of a step.
pub open spec fn part_end<R: Scalar>(rates: RatesView<R>, to: R, i: int) -> R {
    if i + 1 < rates.volatility_times.len() && lt(rates.volatility_times[i + 1], to) {
        rates.volatility_times[i + 1]
    } else {
        to
    }
}

/// The covariances over the first `n` parts of a step. A part that ends no later
/// than it starts is none.
pub open spec fn parts_summed<R: Scalar>(
    m: Model<R>,
    rates: RatesView<R>,
    from: R,
    to: R,
    k: R,
    corr: HybridCorrelation<R>,
    n: nat,
) -> Seq<R>
    decreases n,
{
    if n == 0 {
        Seq::new(10, |c: int| literal(0))
    } else {
        let before = parts_summed(m, rates, from, to, k, corr, (n - 1) as nat);
        let lo = part_start(rates, from, n - 1);
        let hi = part_end(rates, to, n - 1);
        if lt(lo, hi) {
            let part = part_covariances(
                m,
                rates.mean_reversion,
                k,
                corr,
                rates.volatilities[n - 1],
                minus(to, hi),
                minus(hi, lo),
            );
            Seq::new(10, |c: int| plus(before[c], part[c]))
        } else {
            before
        }
    }
}

/// The place of an entry of a symmetric matrix in its lower triangle.
pub open spec fn triangle(i: int, j: int) -> int {
    if i >= j {
        row_start(i) + j
    } else {
        row_start(j) + i
    }
}

/// Where a row of a lower triangle of size four starts.
pub open spec fn row_start(i: int) -> int {
    if i == 0 {
        0
    } else if i == 1 {
        1
    } else if i == 2 {
        3
    } else {
        6
    }
}

/// The rate over a step: how its factor decays, how the factor feeds the
/// integral, and the covariances of the drivers.
pub struct RateTransition<R> {
    pub rate_decay: R,
    pub integral_loading: R,
    pub covariance: Vec<Vec<R>>,
}

/// A [`RateTransition`] as a mathematical value.
pub ghost struct TransitionView<R> {
    pub rate_decay: R,
    pub integral_loading: R,
    pub covariance: Seq<Seq<R>>,
}

impl<R> View for RateTransition<R> {
    type V = TransitionView<R>;

    open spec fn view(&self) -> TransitionView<R> {
        TransitionView {
            rate_decay: self.rate_decay,
            integral_loading: self.integral_loading,
            covariance: rows_seen(self.covariance@),
        }
    }
}

/// The full matrix of covariances.
pub open spec fn full_matrix<R>(lower: Seq<R>) -> Seq<Seq<R>> {
    Seq::new(4, |i: int| Seq::new(4, |j: int| lower[triangle(i, j)]))
}

/// The rate over a step from `from` to `to`, where the second driver reverts
/// with the speed `k`.
pub open spec fn transition_of<R: Scalar>(
    m: Model<R>,
    rates: RatesView<R>,
    from: R,
    to: R,
    k: R,
    corr: HybridCorrelation<R>,
) -> Result<TransitionView<R>, MonteCarloError> {
    if !(m.is_finite(from) && m.is_finite(to) && ge(from, literal(0)) && !lt(to, from)) {
        Err(rate_field("transition_time", 0))
    } else {
        let lower = parts_summed(m, rates, from, to, k, corr, rates.volatility_times.len());
        let h = minus(to, from);
        let a = rates.mean_reversion;
        if m.all_finite(lower) {
            Ok(
                TransitionView {
                    rate_decay: m.exp(times(negated(a), h)),
                    integral_loading: decayed(m, a, h),
                    covariance: full_matrix(lower),
                },
            )
        } else {
            Err(rate_field("transition_covariance", 0))
        }
    }
}

impl<R: Scalar> HullWhite1Factor<R> {
    /// The joint law of equity, a second driver, the rate and its integral over
    /// a step.
    pub fn transition<M: Math<R>>(
        &self,
        m: &M,
        from: R,
        to: R,
        k: R,
        corr: HybridCorrelation<R>,
    ) -> (r: Result<RateTransition<R>, MonteCarloError>)
        requires
            self@.valid(),
        ensures
            (match r {
                Ok(t) => Ok(t@),
                Err(e) => Err(e),
            }) == transition_of(m.model(), self@, from, to, k, corr),
            r matches Ok(t) ==> t.covariance@.len() == 4 && forall|i: int|
                0 <= i < 4 ==> (#[trigger] t.covariance@[i])@.len() == 4,
    {
        m.laws();
        let zero = R::from(0u32);
        if !(m.is_finite(from) && m.is_finite(to) && from >= zero && !(to < from)) {
            return Err(invalid_rate("transition_time", 0));
        }
        let ghost none = |c: int| literal::<R>(0);
        let n = self.volatility_times.len();
        let lower_at = |c: usize| -> (x: R)
            requires
                c < 10,
            ensures
                x == none(c as int),
            {
                m.laws();
                R::from(0u32)
            };
        let mut lower = build(
            10,
            lower_at,
            Ghost(none),
        );
        assert(lower@ =~= parts_summed(m.model(), self@, from, to, k, corr, 0));
        let mut i: usize = 0;
        while i < n
            invariant
                lawful::<R>(),
                self@.valid(),
                n == self@.volatility_times.len(),
                i <= n,
                lower@.len() == 10,
                lower@ == parts_summed(m.model(), self@, from, to, k, corr, i as nat),
            decreases n - i,
        {
            let lo = if self.volatility_times[i] > from {
                self.volatility_times[i]
            } else {
                from
            };
            let hi = if i + 1 < n && self.volatility_times[i + 1] < to {
                self.volatility_times[i + 1]
            } else {
                to
            };
            if lo < hi {
                let part = take_part(
                    m,
                    self.mean_reversion,
                    k,
                    corr,
                    self.volatilities[i],
                    to - hi,
                    hi - lo,
                );
                let ghost sum = |c: int| plus(lower@[c], part@[c]);
                let next_at = |c: usize| -> (x: R)
                    requires
                        c < 10,
                    ensures
                        x == sum(c as int),
                    {
                        m.laws();
                        lower[c] + part[c]
                    };
                let next = build(
                    10,
                    next_at,
                    Ghost(sum),
                );
                assert(next@ =~= parts_summed(m.model(), self@, from, to, k, corr, (i + 1) as nat));
                lower = next;
            }
            i = i + 1;
        }
        if !all_finite(m, lower.as_slice()) {
            return Err(invalid_rate("transition_covariance", 0));
        }
        let h = to - from;
        let ghost rows = |i: int| full_matrix(lower@)[i];
        let covariance_at = |i: usize| -> (row: Vec<R>)
            requires
                i < 4,
            ensures
                row@ == rows(i as int),
            {
                let row: Vec<R> = if i == 0 {
                    vec![lower[0], lower[1], lower[3], lower[6]]
                } else if i == 1 {
                    vec![lower[1], lower[2], lower[4], lower[7]]
                } else if i == 2 {
                    vec![lower[3], lower[4], lower[5], lower[8]]
                } else {
                    vec![lower[6], lower[7], lower[8], lower[9]]
                };
                assert(row@ =~= full_matrix(lower@)[i as int]);
                row
            };
        let covariance = build_rows(
            4,
            covariance_at,
            Ghost(rows),
        );
        assert(rows_seen(covariance@) =~= full_matrix(lower@));
        let a = self.mean_reversion;
        Ok(
            RateTransition {
                rate_decay: m.exp(a.neg() * h),
                integral_loading: b(m, a, h),
                covariance,
            },
        )
    }
}

/// The products of two rows of the columns of a factor.
pub open spec fn column_products<R: Scalar>(columns: Seq<Seq<R>>, i: int, j: int) -> Seq<R> {
    Seq::new(columns.len(), |h: int| times(columns[h][i], columns[h][j]))
}

/// What is left of an entry of a matrix after the columns of its factor.
pub open spec fn remainder<R: Scalar>(c: Seq<Seq<R>>, columns: Seq<Seq<R>>, i: int, j: int) -> R {
    minus(c[i][j], total(column_products(columns, i, j)))
}

/// Below this share of its variance, the remaining variance of a driver is none.
pub open spec fn variance_floor<R: Scalar>(variance: R) -> R {
    over(variance, times(literal(10000000), literal(10000000)))
}

/// The column `j` of the lower factor. A driver without variance of its own has
/// an empty column; one whose remaining variance is negative has none.
pub open spec fn loading_column<R: Scalar>(
    m: Model<R>,
    c: Seq<Seq<R>>,
    columns: Seq<Seq<R>>,
    j: int,
) -> Result<Seq<R>, MonteCarloError> {
    let pivot = remainder(c, columns, j, j);
    let floor = variance_floor(c[j][j]);
    if gt(pivot, floor) {
        let root = m.sqrt(pivot);
        Ok(
            Seq::new(
                4,
                |i: int|
                    if i < j {
                        literal(0)
                    } else if i == j {
                        root
                    } else {
                        over(remainder(c, columns, i, j), root)
                    },
            ),
        )
    } else if ge(pivot, negated(floor)) {
        Ok(Seq::new(4, |i: int| literal(0)))
    } else {
        Err(rate_field("transition_covariance", j as usize))
    }
}

/// The first `n` columns of the lower factor of a matrix of covariances.
pub open spec fn loading_columns<R: Scalar>(m: Model<R>, c: Seq<Seq<R>>, n: nat) -> Result<
    Seq<Seq<R>>,
    MonteCarloError,
>
    decreases n,
{
    if n == 0 {
        Ok(Seq::empty())
    } else {
        match loading_columns(m, c, (n - 1) as nat) {
            Err(e) => Err(e),
            Ok(columns) => match loading_column(m, c, columns, n - 1) {
                Err(e) => Err(e),
                Ok(column) => Ok(columns.push(column)),
            },
        }
    }
}

/// The rows of the lower factor of a matrix of covariances.
pub open spec fn loading_of<R: Scalar>(m: Model<R>, c: Seq<Seq<R>>) -> Result<
    Seq<Seq<R>>,
    MonteCarloError,
> {
    match loading_columns(m, c, 4) {
        Err(e) => Err(e),
        Ok(columns) => Ok(Seq::new(4, |i: int| Seq::new(4, |j: int| columns[j][i]))),
    }
}

fn take_remainder<R: Scalar, M: Math<R>>(
    m: &M,
    c: &Vec<Vec<R>>,
    columns: &Vec<Vec<R>>,
    i: usize,
    j: usize,
) -> (x: R)
    requires
        i < 4,
        j < 4,
        c@.len() == 4,
        forall|h: int| 0 <= h < 4 ==> (#[trigger] c@[h])@.len() == 4,
        forall|h: int| 0 <= h < columns@.len() ==> (#[trigger] columns@[h])@.len() == 4,
    ensures
        x == remainder(rows_seen(c@), rows_seen(columns@), i as int, j as int),
{
    m.laws();
    let n = columns.len();
    let ghost product = |h: int|
        column_products(rows_seen(columns@), i as int, j as int)[h];
    let products_at = |h: usize| -> (x: R)
        requires
            h < n,
        ensures
            x == product(h as int),
        {
            m.laws();
            assert(columns@[h as int]@.len() == 4);
            columns[h][i] * columns[h][j]
        };
    let products = build(
        n,
        products_at,
        Ghost(product),
    );
    assert(products@ =~= column_products(rows_seen(columns@), i as int, j as int));
    assert(c@[i as int]@.len() == 4);
    c[i][j] - take_total(m, &products)
}

/// The loadings of the drivers of a step on four independent normals.
pub fn covariance_loading<R: Scalar, M: Math<R>>(m: &M, c: &Vec<Vec<R>>) -> (r: Result<
    Vec<Vec<R>>,
    MonteCarloError,
>)
    requires
        c@.len() == 4,
        forall|h: int| 0 <= h < 4 ==> (#[trigger] c@[h])@.len() == 4,
    ensures
        (match r {
            Ok(l) => Ok(rows_seen(l@)),
            Err(e) => Err(e),
        }) == loading_of(m.model(), rows_seen(c@)),
        r matches Ok(l) ==> l@.len() == 4 && forall|h: int|
            0 <= h < 4 ==> (#[trigger] l@[h])@.len() == 4,
{
    m.laws();
    let ghost matrix = rows_seen(c@);
    let mut columns: Vec<Vec<R>> = Vec::new();
    assert(rows_seen(columns@) =~= Seq::empty());
    let mut j: usize = 0;
    while j < 4
        invariant
            lawful::<R>(),
            j <= 4,
            c@.len() == 4,
            forall|h: int| 0 <= h < 4 ==> (#[trigger] c@[h])@.len() == 4,
            matrix == rows_seen(c@),
            columns@.len() == j,
            forall|h: int| 0 <= h < columns@.len() ==> (#[trigger] columns@[h])@.len() == 4,
            loading_columns(m.model(), matrix, j as nat) == Ok::<Seq<Seq<R>>, MonteCarloError>(
                rows_seen(columns@),
            ),
        decreases 4 - j,
    {
        assert(c@[j as int]@.len() == 4);
        let pivot = take_remainder(m, c, &columns, j, j);
        let variance = c[j][j];
        let floor = variance / (R::from(10000000u32) * R::from(10000000u32));
        let ghost before = rows_seen(columns@);
        let column = if pivot > floor {
            let root = m.sqrt(pivot);
            let ghost entry = |i: int|
                if i < j {
                    literal(0)
                } else if i == j {
                    root
                } else {
                    over(remainder(rows_seen(c@), rows_seen(columns@), i, j as int), root)
                };
            let column_at = |i: usize| -> (x: R)
                requires
                    i < 4,
                ensures
                    x == entry(i as int),
                {
                    m.laws();
                    if i < j {
                        R::from(0u32)
                    } else if i == j {
                        root
                    } else {
                        take_remainder(m, c, &columns, i, j) / root
                    }
                };
            let column = build(
                4,
                column_at,
                Ghost(entry),
            );
            assert(column@ =~= loading_column(m.model(), matrix, before, j as int)->Ok_0);
            column
        } else if pivot >= floor.neg() {
            let zero = R::from(0u32);
            let column: Vec<R> = vec![zero, zero, zero, zero];
            assert(column@ =~= Seq::new(4, |i: int| literal(0)));
            column
        } else {
            proof {
                loading_stops(m.model(), matrix, (j + 1) as nat, 4);
            }
            return Err(invalid_rate("transition_covariance", j));
        };
        columns.push(column);
        assert(rows_seen(columns@) =~= before.push(column@));
        j = j + 1;
    }
    let ghost rows = |i: int| Seq::new(4, |h: int| rows_seen(columns@)[h][i]);
    let l_at = |i: usize| -> (row: Vec<R>)
        requires
            i < 4,
        ensures
            row@ == rows(i as int),
        {
            proof {
                assert(columns@[0]@.len() == 4);
                assert(columns@[1]@.len() == 4);
                assert(columns@[2]@.len() == 4);
                assert(columns@[3]@.len() == 4);
            }
            let row: Vec<R> = vec![columns[0][i], columns[1][i], columns[2][i], columns[3][i]];
            assert(row@ =~= Seq::new(4, |h: int| rows_seen(columns@)[h][i as int]));
            row
        };
    let l = build_rows(
        4,
        l_at,
        Ghost(rows),
    );
    assert(rows_seen(l@) =~= Seq::new(
        4,
        |i: int| Seq::new(4, |h: int| rows_seen(columns@)[h][i]),
    ));
    Ok(l)
}

proof fn loading_stops<R: Scalar>(m: Model<R>, c: Seq<Seq<R>>, a: nat, n: nat)
    requires
        a <= n,
        loading_columns(m, c, a) is Err,
    ensures
        loading_columns(m, c, n) == loading_columns(m, c, a),
    decreases n,
{
    if a < n {
        loading_stops(m, c, a, (n - 1) as nat);
    }
}

/// Rates that do not move: no reversion, and no volatility.
pub fn deterministic_rates<R: Scalar, M: Math<R>>(m: &M) -> (r: Result<
    HullWhite1Factor<R>,
    MonteCarloError,
>)
    ensures
        (match r {
            Ok(h) => Ok(h@),
            Err(e) => Err(e),
        }) == (match rates_error(
            m.model(),
            literal::<R>(0),
            seq![literal::<R>(0)],
            seq![literal::<R>(0)],
        ) {
            Some(e) => Err(e),
            None => Ok(
                (RatesView {
                    mean_reversion: literal::<R>(0),
                    volatility_times: seq![literal::<R>(0)],
                    volatilities: seq![literal::<R>(0)],
                }),
            ),
        }),
{
    m.laws();
    let zero = R::from(0u32);
    let grid: Vec<R> = vec![zero];
    let volatilities: Vec<R> = vec![zero];
    assert(grid@ =~= seq![literal::<R>(0)]);
    assert(volatilities@ =~= seq![literal::<R>(0)]);
    HullWhite1Factor::new(m, zero, grid, volatilities)
}

} // verus!
