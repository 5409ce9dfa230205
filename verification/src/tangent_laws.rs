//! What tangents and integrals are: an adaptive integral is exact on what its rule is exact
//! on, the derivative of a factor moves its matrix as asked, the tangents of a step are its
//! moves but for the product of the moves, and what is discounted moves as a product.

use crate::dynamics::DividendDynamics;
use crate::errors::MonteCarloError;
use crate::factor_laws::totals;
use crate::hw_aad::{
    discounted_seeds, moved_value, pair_log_discount, pair_terms, rate_log_discount, seed_terms,
};
use crate::hw_cash::CashInputs;
use crate::hw_cash_risk::cash_jacobian;
use crate::hw_correlation_risk::{correlation_stepped, HullWhiteCorrelationStateTangent};
use crate::hw_path::{
    initial_state, node_growth, projection, CashClaim, RatePathView, RateStepView,
    StochasticDividendHullWhiteState,
};
use crate::hw_plan::{rate_times, until};
use crate::hw_rate_risk::{
    claim_slope, direction_entries, direction_rows, padded, prior_terms, spot_slope,
    tangent_stepped, ClaimTangent, HullWhiteRateStateTangent, RateSensitivityView, StepTangentView,
};
use crate::hw_reverse::{coefficients, model_bumps, row_bumps};
use crate::linear::{dot, total};
use crate::market::CashEvent;
use crate::models::BuehlerDividendModel;
use crate::quadrature::{agreed, integral, panels, simpson_of, Tolerance};
use crate::rate_market::MixedEvent;
use crate::rates::RatesView;
use crate::reverse::{event_coefficients, Coefficients, SpotSeed};
use crate::sampling::{added, half};
use crate::scalar::{exact, gt, le, literal, minus, negated, over, plus, times, Model, Scalar};
use crate::simulation_laws::{counts, sum_of};
use crate::sweep_laws::{negates, regroups, spreads};
use vstd::prelude::*;

verus! {

/// A quadratic function.
pub open spec fn quadratic(p: real, q: real, r: real, x: real) -> real {
    p + q * x + r * (x * x)
}

/// Six times the integral of a quadratic function from nothing on.
pub open spec fn six_integrals(p: real, q: real, r: real, x: real) -> real {
    6 as real * (p * x) + 3 as real * (q * (x * x)) + 2 as real * (r * (x * x * x))
}

proof fn cubes(l: real, h: real)
    ensures
        (h - l) * (l * l + l * h + h * h) == h * h * h - l * l * l,
        (h - l) * (l + h) == h * h - l * l,
{
    let (a, b, c) = (l * l, l * h, h * h);
    spreads(a + b + c, h, -l);
    negates(l, a + b + c);
    spreads(h, a + b, c);
    spreads(h, a, b);
    spreads(l, a + b, c);
    spreads(l, a, b);
    regroups(h, l, l);
    regroups(l, l, h);
    regroups(h, l, h);
    regroups(l, h, h);
    regroups(h, h, h);
    regroups(l, l, l);
    regroups(l, h, l);
    spreads(l + h, h, -l);
    negates(l, l + h);
    spreads(h, l, h);
    spreads(l, l, h);
}

proof fn rule_is_exact(p: real, q: real, r: real, l: real, h: real, mid: real, s: real)
    requires
        2 as real * mid == l + h,
        6 as real * s == (h - l) * (quadratic(p, q, r, l) + 4 as real * quadratic(p, q, r, mid)
            + quadratic(p, q, r, h)),
    ensures
        6 as real * s == six_integrals(p, q, r, h) - six_integrals(p, q, r, l),
{
    let d = h - l;
    let (a, b, c) = (l * l, l * h, h * h);
    let t = l + h;
    spreads(t, l, h);
    spreads(l, l, h);
    spreads(h, l, h);
    regroups(h, l, 1 as real);
    assert(t * t == a + 2 as real * b + c);
    assert(4 as real * (mid * mid) == t * t) by (nonlinear_arith)
        requires
            2 as real * mid == t,
    ;
    assert(2 as real * (q * mid) == q * t) by (nonlinear_arith)
        requires
            2 as real * mid == t,
    ;
    let m2 = mid * mid;
    assert(4 as real * (r * m2) == r * (4 as real * m2)) by (nonlinear_arith);
    spreads(q, l, h);
    let f = a + b + c;
    spreads(r, a, t * t);
    spreads(r, a + t * t, c);
    assert(a + t * t + c == 2 as real * f);
    assert(r * (2 as real * f) == 2 as real * (r * f)) by (nonlinear_arith);
    let whole = 6 as real * p + 3 as real * (q * t) + 2 as real * (r * f);
    assert(quadratic(p, q, r, l) + 4 as real * quadratic(p, q, r, mid) + quadratic(p, q, r, h)
        == whole);
    let (u, v, w) = (6 as real * p, 3 as real * (q * t), 2 as real * (r * f));
    spreads(d, u + v, w);
    spreads(d, u, v);
    cubes(l, h);
    scaled(d, p, 6 as real);
    scaled(d, q * t, 3 as real);
    scaled(d, r * f, 2 as real);
    regroups(d, q, t);
    regroups(q, d, t);
    regroups(d, r, f);
    regroups(r, d, f);
    let (h3, l3) = (h * h * h, l * l * l);
    spreads(p, h, l);
    regroups(d, p, 1 as real);
    spreads(q, c, a);
    spreads(r, h3, l3);
}

proof fn scaled(d: real, x: real, n: real)
    ensures
        d * (n * x) == n * (d * x),
{
    regroups(d, n, x);
    regroups(n, d, x);
}

/// What is integrated has the component `j` quadratic.
pub open spec fn integrates_quadratic<R: Scalar>(
    value: spec_fn(R) -> real,
    f: spec_fn(R) -> Result<Seq<R>, MonteCarloError>,
    n: nat,
    j: int,
    p: real,
    q: real,
    r: real,
) -> bool {
    forall|x: R| #[trigger]
        f(x) matches Ok(v) ==> v.len() == n && value(v[j]) == quadratic(p, q, r, value(x))
}

proof fn simpson_is_exact<R: Scalar>(
    value: spec_fn(R) -> real,
    m: Model<R>,
    lo: R,
    hi: R,
    mid: R,
    a: Seq<R>,
    b: Seq<R>,
    c: Seq<R>,
    j: int,
    p: real,
    q: real,
    r: real,
)
    requires
        counts(m, value),
        0 <= j < a.len(),
        2 as real * value(mid) == value(lo) + value(hi),
        value(a[j]) == quadratic(p, q, r, value(lo)),
        value(b[j]) == quadratic(p, q, r, value(mid)),
        value(c[j]) == quadratic(p, q, r, value(hi)),
    ensures
        6 as real * value(simpson_of(lo, hi, a, b, c)[j]) == six_integrals(p, q, r, value(hi))
            - six_integrals(p, q, r, value(lo)),
{
    let (four, six) = (literal::<R>(4), literal::<R>(6));
    assert(value(four) == 4 as real && value(six) == 6 as real);
    let w = over(minus(hi, lo), six);
    let x = plus(plus(a[j], times(four, b[j])), c[j]);
    let (k, y) = (value(w), value(x));
    assert(k * 6 as real == value(hi) - value(lo));
    assert(6 as real * (k * y) == (k * 6 as real) * y) by (nonlinear_arith);
    rule_is_exact(p, q, r, value(lo), value(hi), value(mid), k * y);
}

proof fn middles<R: Scalar>(value: spec_fn(R) -> real, m: Model<R>, lo: R, hi: R)
    requires
        counts(m, value),
    ensures
        2 as real * value(times(plus(lo, hi), half())) == value(lo) + value(hi),
{
    let (one, two) = (literal::<R>(1), literal::<R>(2));
    assert(value(one) == 1 as real && value(two) == 2 as real);
    assert(value(over(one, two)) * value(two) == value(one));
    let (s, h) = (value(lo) + value(hi), value(half::<R>()));
    assert(2 as real * (s * h) == s) by (nonlinear_arith)
        requires
            h * 2 as real == 1 as real,
    ;
}

/// The integral of a quadratic component is exact, at whatever depth it is taken.
pub proof fn integrals_of_quadratics_are_exact<R: Scalar>(
    value: spec_fn(R) -> real,
    m: Model<R>,
    f: spec_fn(R) -> Result<Seq<R>, MonteCarloError>,
    lo: R,
    hi: R,
    a: Seq<R>,
    b: Seq<R>,
    c: Seq<R>,
    whole: Seq<R>,
    absolute: R,
    t: Tolerance<R>,
    depth: nat,
    n: nat,
    j: int,
    p: real,
    q: real,
    r: real,
)
    requires
        counts(m, value),
        integrates_quadratic(value, f, n, j, p, q, r),
        0 <= j < n,
        f(lo) == Ok::<Seq<R>, MonteCarloError>(a),
        f(times(plus(lo, hi), half())) == Ok::<Seq<R>, MonteCarloError>(b),
        f(hi) == Ok::<Seq<R>, MonteCarloError>(c),
        whole == simpson_of(lo, hi, a, b, c),
    ensures
        integral(m, f, lo, hi, a, b, c, whole, absolute, t, depth) matches Ok(v) ==> v.len() == n
            && 6 as real * value(v[j]) == six_integrals(p, q, r, value(hi)) - six_integrals(
            p,
            q,
            r,
            value(lo),
        ),
    decreases depth,
{
    let mid = times(plus(lo, hi), half());
    let (x, y) = (times(plus(lo, mid), half()), times(plus(mid, hi), half()));
    middles(value, m, lo, hi);
    middles(value, m, lo, mid);
    middles(value, m, mid, hi);
    if f(x) is Ok && f(y) is Ok {
        let (l, g) = (f(x)->Ok_0, f(y)->Ok_0);
        let left = simpson_of(lo, mid, a, l, b);
        let right = simpson_of(mid, hi, b, g, c);
        simpson_is_exact(value, m, lo, hi, mid, a, b, c, j, p, q, r);
        simpson_is_exact(value, m, lo, mid, x, a, l, b, j, p, q, r);
        simpson_is_exact(value, m, mid, hi, y, b, g, c, j, p, q, r);
        let fine = added(left, right);
        assert(value(fine[j]) == value(whole[j]));
        let fifteen = literal::<R>(15);
        assert(value(fifteen) == 15 as real);
        let gap = over(minus(fine[j], whole[j]), fifteen);
        assert(value(gap) * 15 as real == 0 as real);
        if !agreed(m, fine, whole, absolute, t.relative) && depth > 0 {
            let less = times(absolute, half());
            let d = (depth - 1) as nat;
            integrals_of_quadratics_are_exact(
                value,
                m,
                f,
                lo,
                mid,
                a,
                l,
                b,
                left,
                less,
                t,
                d,
                n,
                j,
                p,
                q,
                r,
            );
            integrals_of_quadratics_are_exact(
                value,
                m,
                f,
                mid,
                hi,
                b,
                g,
                c,
                right,
                less,
                t,
                d,
                n,
                j,
                p,
                q,
                r,
            );
        }
    }
}

/// The integral over panels between cuts is that from the first cut to the last.
pub proof fn panels_join<R: Scalar>(
    value: spec_fn(R) -> real,
    m: Model<R>,
    f: spec_fn(R) -> Result<Seq<R>, MonteCarloError>,
    n: nat,
    cuts: Seq<R>,
    span: R,
    t: Tolerance<R>,
    depth: nat,
    k: nat,
    j: int,
    p: real,
    q: real,
    r: real,
)
    requires
        counts(m, value),
        integrates_quadratic(value, f, n, j, p, q, r),
        0 <= j < n,
        k < cuts.len(),
    ensures
        panels(m, f, n, cuts, span, t, depth, k) matches Ok(v) ==> v.len() == n && 6 as real
            * value(v[j]) == six_integrals(p, q, r, value(cuts[k as int])) - six_integrals(
            p,
            q,
            r,
            value(cuts[0]),
        ),
    decreases k,
{
    if k > 0 {
        panels_join(value, m, f, n, cuts, span, t, depth, (k - 1) as nat, j, p, q, r);
        let (lo, hi) = (cuts[k - 1], cuts[k as int]);
        let mid = times(plus(lo, hi), half());
        if f(lo) is Ok && f(mid) is Ok && f(hi) is Ok {
            let (a, b, c) = (f(lo)->Ok_0, f(mid)->Ok_0, f(hi)->Ok_0);
            integrals_of_quadratics_are_exact(
                value,
                m,
                f,
                lo,
                hi,
                a,
                b,
                c,
                simpson_of(lo, hi, a, b, c),
                over(times(t.absolute, minus(hi, lo)), span),
                t,
                depth,
                n,
                j,
                p,
                q,
                r,
            );
        }
    }
}

/// What the first `n` entries of two rows of a factor and of its derivative make of an entry
/// of its matrix.
pub open spec fn moved_rows<R>(
    value: spec_fn(R) -> real,
    l: Seq<Seq<R>>,
    rows: Seq<Seq<R>>,
    i: int,
    j: int,
    n: nat,
) -> real
    decreases n,
{
    if n == 0 {
        0 as real
    } else {
        let k = n - 1;
        moved_rows(value, l, rows, i, j, (n - 1) as nat) + value(rows[i][k]) * value(l[j][k])
            + value(l[i][k]) * value(rows[j][k])
    }
}

proof fn entries_begin<R: Scalar>(
    l: Seq<Seq<R>>,
    d: Seq<R>,
    before: Seq<Seq<R>>,
    i: int,
    j: nat,
    n: nat,
)
    requires
        j < n,
        direction_entries(l, d, before, i, n) is Ok,
    ensures
        direction_entries(l, d, before, i, j) is Ok,
        direction_entries(l, d, before, i, n)->Ok_0.len() == n,
        direction_entries(l, d, before, i, n)->Ok_0.take(j as int) == direction_entries(
            l,
            d,
            before,
            i,
            j,
        )->Ok_0,
        direction_entries(l, d, before, i, (j + 1) as nat) is Ok,
        direction_entries(l, d, before, i, n)->Ok_0[j as int] == direction_entries(
            l,
            d,
            before,
            i,
            (j + 1) as nat,
        )->Ok_0[j as int],
    decreases n,
{
    let k = (n - 1) as nat;
    entries_count(l, d, before, i, k);
    let all = direction_entries(l, d, before, i, n)->Ok_0;
    let own = direction_entries(l, d, before, i, k)->Ok_0;
    if j < k {
        entries_begin(l, d, before, i, j, k);
        assert(all.take(j as int) =~= own.take(j as int));
    } else {
        assert(all.take(j as int) =~= own);
    }
}

proof fn entries_count<R: Scalar>(
    l: Seq<Seq<R>>,
    d: Seq<R>,
    before: Seq<Seq<R>>,
    i: int,
    n: nat,
)
    requires
        direction_entries(l, d, before, i, n) is Ok,
    ensures
        direction_entries(l, d, before, i, n)->Ok_0.len() == n,
    decreases n,
{
    if n > 0 {
        entries_count(l, d, before, i, (n - 1) as nat);
    }
}

proof fn rows_begin<R: Scalar>(l: Seq<Seq<R>>, d: Seq<R>, i: nat, n: nat)
    requires
        i < n,
        direction_rows(l, d, n) is Ok,
    ensures
        direction_rows(l, d, i) is Ok,
        direction_rows(l, d, n)->Ok_0.len() == n,
        direction_rows(l, d, n)->Ok_0.take(i as int) == direction_rows(l, d, i)->Ok_0,
        direction_entries(l, d, direction_rows(l, d, i)->Ok_0, i as int, (i + 1) as nat) is Ok,
        direction_rows(l, d, n)->Ok_0[i as int] == padded(
            direction_entries(
                l,
                d,
                direction_rows(l, d, i)->Ok_0,
                i as int,
                (i + 1) as nat,
            )->Ok_0,
        ),
    decreases n,
{
    let k = (n - 1) as nat;
    rows_count(l, d, k);
    let all = direction_rows(l, d, n)->Ok_0;
    let before = direction_rows(l, d, k)->Ok_0;
    if i < k {
        rows_begin(l, d, i, k);
        assert(all.take(i as int) =~= before.take(i as int));
    } else {
        assert(all.take(i as int) =~= before);
    }
}

proof fn rows_count<R: Scalar>(l: Seq<Seq<R>>, d: Seq<R>, n: nat)
    requires
        direction_rows(l, d, n) is Ok,
    ensures
        direction_rows(l, d, n)->Ok_0.len() == n,
    decreases n,
{
    if n > 0 {
        rows_count(l, d, (n - 1) as nat);
    }
}

proof fn prior_terms_add_up<R: Scalar>(
    value: spec_fn(R) -> real,
    l: Seq<Seq<R>>,
    rows: Seq<Seq<R>>,
    i: int,
    j: int,
    terms: Seq<R>,
    n: nat,
)
    requires
        exact(value),
        n <= terms.len(),
        forall|k: int|
            0 <= k < n ==> #[trigger] terms[k] == plus(
                times(rows[i][k], l[j][k]),
                times(l[i][k], rows[j][k]),
            ),
    ensures
        sum_of(value, terms.take(n as int)) == moved_rows(value, l, rows, i, j, n),
    decreases n,
{
    let s = terms.take(n as int);
    if n > 0 {
        prior_terms_add_up(value, l, rows, i, j, terms, (n - 1) as nat);
        assert(s.drop_last() =~= terms.take(n - 1));
        assert(s.last() == terms[n - 1]);
    }
}

/// The derivative of the factor of a step is the one that moves its covariances as asked: the
/// factor times the transpose of its derivative, and the other way round, make the moves.
pub proof fn factor_directions_move_their_matrix<R: Scalar>(
    value: spec_fn(R) -> real,
    m: Model<R>,
    l: Seq<Seq<R>>,
    d: Seq<R>,
    i: int,
    j: int,
)
    requires
        counts(m, value),
        0 <= j <= i < 4,
        value(l[j][j]) != 0 as real,
    ensures
        direction_rows(l, d, 4) matches Ok(rows) ==> moved_rows(
            value,
            l,
            rows,
            i,
            j,
            (j + 1) as nat,
        ) == value(d[4 * i + j]),
{
    if let Ok(rows) = direction_rows(l, d, 4) {
        rows_begin(l, d, i as nat, 4);
        let before = rows.take(i);
        let entries = direction_entries(l, d, before, i, (i + 1) as nat)->Ok_0;
        entries_begin(l, d, before, i, j as nat, (i + 1) as nat);
        let own = entries.take(j);
        let terms = prior_terms(l, before, own, i, j);
        totals(value, terms);
        let two = literal::<R>(2);
        assert(value(two) == 2 as real);
        if j < i {
            assert(rows[j] == before[j]);
        }
        assert forall|k: int| 0 <= k < j implies #[trigger] terms[k] == plus(
            times(rows[i][k], l[j][k]),
            times(l[i][k], rows[j][k]),
        ) by {
            assert(own[k] == entries[k]);
            assert(rows[i][k] == entries[k]);
        }
        prior_terms_add_up(value, l, rows, i, j, terms, j as nat);
        assert(terms.take(j) =~= terms);
        let left = value(d[4 * i + j]) - moved_rows(value, l, rows, i, j, j as nat);
        let (x, p) = (value(entries[j]), value(l[j][j]));
        assert(rows[i][j] == entries[j]);
        if j == i {
            assert(x * (2 as real * p) == left);
            assert(x * (2 as real * p) == x * p + p * x) by (nonlinear_arith);
        } else {
            assert(x * p == left - value(l[i][j]) * value(before[j][j]));
        }
    }
}

/// The tangents of the rate over a step are how the rate and its integral move where the step
/// and the rate both move, but for the product of the two moves.
pub proof fn rate_tangents_are_moves<R: Scalar>(
    value: spec_fn(R) -> real,
    m: Model<R>,
    step: RateStepView<R>,
    tangents: Seq<StepTangentView<R>>,
    now: Seq<HullWhiteRateStateTangent<R>>,
    old: R,
    z: Seq<R>,
    p: int,
)
    requires
        exact(value),
        0 <= p < tangents.len(),
    ensures
        ({
            let next = tangent_stepped(m, step, tangents, now, old, z)[p];
            let (d, s) = (tangents[p], now[p]);
            let (x, dx) = (value(old), value(s.rate_factor));
            let (a, da) = (value(step.decay), value(d.decay));
            let (b, db) = (value(step.integral_loading), value(d.integral_loading));
            &&& value(next.rate_factor) + da * dx == (a + da) * (x + dx) - a * x + value(
                dot(d.noise[2], z),
            )
            &&& value(next.integrated_rate_factor) - value(s.integrated_rate_factor) + db * dx == (b
                + db) * (x + dx) - b * x + value(dot(d.noise[3], z))
        }),
{
    let (d, s) = (tangents[p], now[p]);
    let (x, dx) = (value(old), value(s.rate_factor));
    let (a, da) = (value(step.decay), value(d.decay));
    let (b, db) = (value(step.integral_loading), value(d.integral_loading));
    spreads(x + dx, a, da);
    spreads(a, x, dx);
    spreads(da, x, dx);
    spreads(x + dx, b, db);
    spreads(b, x, dx);
    spreads(db, x, dx);
}

/// The tangents of the rate with respect to a correlation are how the rate and its integral
/// move where their noise moves and the step does not.
pub proof fn correlated_rates_are_moves<R: Scalar, Y: DividendDynamics<R>>(
    value: spec_fn(R) -> real,
    m: Model<R>,
    y: Y,
    path: RatePathView<R>,
    step: RateStepView<R>,
    noise: Seq<Seq<Seq<R>>>,
    s: StochasticDividendHullWhiteState<R>,
    now: Seq<HullWhiteCorrelationStateTangent<R>>,
    z: Seq<R>,
    x: real,
    p: int,
)
    requires
        exact(value),
        0 <= p < 3,
    ensures
        ({
            let next = correlation_stepped(m, y, path, step, noise, s, now, z)[p];
            let dx = value(now[p].rate_factor);
            let (a, b) = (value(step.decay), value(step.integral_loading));
            &&& value(next.rate_factor) == a * (x + dx) - a * x + value(dot(noise[p][2], z))
            &&& value(next.integrated_rate_factor) - value(now[p].integrated_rate_factor) == b * (x
                + dx) - b * x + value(dot(noise[p][3], z))
            &&& p != 0 ==> value(next.dividend_factor) == 0 as real
        }),
{
    let dx = value(now[p].rate_factor);
    spreads(value(step.decay), x, dx);
    spreads(value(step.integral_loading), x, dx);
}

/// A claim moves as a product: with its amount, with its part of equity and dividends, and
/// against what accrues up to its payment.
pub proof fn claims_move_as_products<R: Scalar>(
    value: spec_fn(R) -> real,
    m: Model<R>,
    claim: CashClaim<R>,
    d: ClaimTangent<R>,
    s: StochasticDividendHullWhiteState<R>,
    t: HullWhiteRateStateTangent<R>,
)
    requires
        exact(value),
    ensures
        ({
            let e = value(m.exp(times(negated(claim.duration), s.rate_factor)));
            let (a, w) = (value(claim.amount), value(projection(claim, s.factors)));
            let dw = value(d.equity) * value(s.factors.equity) + value(d.dividend) * value(
                s.factors.dividend,
            ) + value(d.constant);
            let accrues = value(d.duration) * value(s.rate_factor) + value(claim.duration) * value(
                t.rate_factor,
            );
            value(claim_slope(m, claim, d, s, t)) + (a * e * w) * accrues == (value(d.amount) * e)
                * w + (a * e) * dw
        }),
{
    let e = value(m.exp(times(negated(claim.duration), s.rate_factor)));
    let (a, w, da) = (value(claim.amount), value(projection(claim, s.factors)), value(d.amount));
    let dw = value(d.equity) * value(s.factors.equity) + value(d.dividend) * value(
        s.factors.dividend,
    ) + value(d.constant);
    let k = value(d.duration) * value(s.rate_factor) + value(claim.duration) * value(t.rate_factor);
    let (u, v, x) = (da * w, a * dw, (a * w) * k);
    spreads(e, u + v, x);
    spreads(e, u, v);
    regroups(e, da, w);
    regroups(e, a, dw);
    regroups(e, a, w);
    regroups(e, a * w, k);
}

/// The residual equity in a spot moves as a product: with the spot that is left at first, and
/// with what its growth has accrued.
pub proof fn residual_spots_move_as_products<R: Scalar>(
    value: spec_fn(R) -> real,
    m: Model<R>,
    k: RateSensitivityView<R>,
    path: RatePathView<R>,
    i: int,
    s: StochasticDividendHullWhiteState<R>,
    t: HullWhiteRateStateTangent<R>,
    p: int,
)
    requires
        exact(value),
    ensures
        ({
            let equity = value(node_growth(m, path.nodes[i], s)) * value(s.factors.equity);
            value(spot_slope(m, k, path, i, s, t, p, 0)) == equity * (value(k.risky_spot[p])
                + value(path.risky_spot) * (value(t.integrated_rate_factor) + value(
                k.nodes[i].half_integral_variance[p],
            )))
        }),
{
    let (g, e) = (value(node_growth(m, path.nodes[i], s)), value(s.factors.equity));
    let (d, r) = (value(k.risky_spot[p]), value(path.risky_spot));
    let x = value(t.integrated_rate_factor) + value(k.nodes[i].half_integral_variance[p]);
    regroups(d, g, e);
    regroups(d, g * e, 1 as real);
    regroups(r, g, e);
    regroups(g * e, r, x);
    regroups(r, g * e, x);
    spreads(g * e, d, r * x);
}

/// A discounted payoff moves as a product: with the payoff, and with the logarithm of its
/// discount factor.
pub proof fn discounted_payoffs_move_as_products<R: Scalar>(
    value: spec_fn(R) -> real,
    payoff: R,
    payoff_moves: R,
    log_discount: R,
    relative: R,
)
    requires
        exact(value),
    ensures
        value(moved_value(payoff_moves, log_discount, relative, times(relative, payoff))) == value(
            relative,
        ) * (value(payoff_moves) + value(payoff) * value(log_discount)),
{
    let (r, a, b, c) = (value(relative), value(payoff_moves), value(payoff), value(log_discount));
    regroups(r, b, c);
    spreads(r, a, b * c);
}

/// The logarithm of the discount factor of a payment moves with its constant and against what
/// the rate accrues up to the payment, where the duration and the rate both move, but for the
/// product of the two moves.
pub proof fn log_discounts_move_against_rates<R: Scalar>(
    value: spec_fn(R) -> real,
    log_constant: R,
    duration_slope: R,
    duration: R,
    last: StochasticDividendHullWhiteState<R>,
    t: HullWhiteRateStateTangent<R>,
    u: HullWhiteCorrelationStateTangent<R>,
)
    requires
        exact(value),
    ensures
        ({
            let (x, dx) = (value(last.rate_factor), value(t.rate_factor));
            let (d, dd) = (value(duration), value(duration_slope));
            &&& value(rate_log_discount(log_constant, duration_slope, duration, last, t)) + value(
                t.integrated_rate_factor,
            ) + ((d + dd) * (x + dx) - d * x) == value(log_constant) + dd * dx
            &&& value(pair_log_discount(duration, u)) + value(u.integrated_rate_factor) + (d * (x
                + value(u.rate_factor)) - d * x) == 0 as real
        }),
{
    let (x, dx) = (value(last.rate_factor), value(t.rate_factor));
    let (d, dd) = (value(duration), value(duration_slope));
    spreads(x + dx, d, dd);
    spreads(d, x, dx);
    spreads(dd, x, dx);
    spreads(d, x, value(u.rate_factor));
}

/// Discounting a payoff discounts its adjoints: each is that of the payoff times the discount
/// factor, in its own place.
pub proof fn adjoints_are_discounted<R: Scalar>(
    value: spec_fn(R) -> real,
    seeds: Seq<SpotSeed<R>>,
    relative: R,
    slopes: Seq<Seq<R>>,
    q: int,
)
    requires
        exact(value),
    ensures
        discounted_seeds(seeds, relative).len() == seeds.len(),
        sum_of(value, seed_terms(discounted_seeds(seeds, relative), slopes, q)) == value(relative)
            * sum_of(value, seed_terms(seeds, slopes, q)),
    decreases seeds.len(),
{
    let r = value(relative);
    let some = discounted_seeds(seeds, relative);
    if seeds.len() > 0 {
        let fewer = seeds.drop_last();
        adjoints_are_discounted(value, fewer, relative, slopes, q);
        assert(discounted_seeds(fewer, relative) =~= some.drop_last());
        let (s, t) = (seed_terms(some, slopes, q), seed_terms(seeds, slopes, q));
        assert(s.drop_last() =~= seed_terms(some.drop_last(), slopes, q));
        assert(t.drop_last() =~= seed_terms(fewer, slopes, q));
        let i = seeds.len() - 1;
        let (a, b, x) = (value(seeds[i].post), value(seeds[i].pre), value(slopes[i][q]));
        spreads(r, a, b);
        regroups(r, a + b, x);
        spreads(r, sum_of(value, t.drop_last()), (a + b) * x);
    } else {
        negates(r, 0 as real);
    }
}

/// The effect of a parameter on a payoff is what its moves of the spots add up to, before and
/// after the dividends alike.
pub proof fn payoffs_move_with_their_spots<R: Scalar>(
    value: spec_fn(R) -> real,
    seeds: Seq<SpotSeed<R>>,
    slopes: Seq<Seq<R>>,
    pairs: Seq<Seq<SpotSeed<R>>>,
    q: int,
    i: int,
)
    requires
        exact(value),
        0 <= i < seeds.len(),
    ensures
        value(seed_terms(seeds, slopes, q)[i]) == value(seeds[i].post) * value(slopes[i][q])
            + value(seeds[i].pre) * value(slopes[i][q]),
        value(pair_terms(seeds, pairs, q)[i]) == value(seeds[i].post) * value(pairs[i][q].post)
            + value(seeds[i].pre) * value(pairs[i][q].pre),
{
    spreads(value(slopes[i][q]), value(seeds[i].post), value(seeds[i].pre));
}

/// What the three coefficients of a node make of a parameter in the state that every path
/// starts in.
pub open spec fn at_first<R>(value: spec_fn(R) -> real, k: Coefficients<R>, j: int) -> real {
    value(k.equity[j]) + value(k.dividend[j]) + value(k.constant[j])
}

/// A dividend that is still to come does not move the spot at first: neither its mean does,
/// nor the speed at which dividends revert, nor their linkage to equity.
pub proof fn future_dividends_leave_the_first_spot<R: Scalar, Y: DividendDynamics<R>>(
    value: spec_fn(R) -> real,
    y: Y,
    model: BuehlerDividendModel<R>,
    before: Coefficients<R>,
    e: CashEvent<R>,
    t: R,
    ratio: R,
    i: int,
)
    requires
        exact(value),
        0 <= i,
        5 + i < before.equity.len(),
        before.dividend.len() == before.equity.len(),
        before.constant.len() == before.equity.len(),
        gt(e.ex_time, t),
        ({
            let d = y.decay_of(model.mean_reversion, minus(e.ex_time, t));
            value(d.first) + value(d.second) == 1 as real
        }),
    ensures
        ({
            let after = event_coefficients(y, model, before, e, t, ratio, i);
            &&& at_first(value, after, 5 + i) == 0 as real
            &&& at_first(value, after, 2) == at_first(value, before, 2)
            &&& at_first(value, after, 3) == at_first(value, before, 3)
        }),
{
    let h = minus(e.ex_time, t);
    let d = y.decay_of(model.mean_reversion, h);
    let (r, w, c, al) = (
        value(ratio),
        value(d.first),
        value(d.second),
        value(model.equity_linkage),
    );
    let rc = r * c;
    spreads(rc, 1 as real, al);
    regroups(rc, al, 1 as real);
    assert(rc * 1 as real == rc) by (nonlinear_arith);
    spreads(r, w, c);
    assert(r * 1 as real == r) by (nonlinear_arith);
    let g = value(times(times(times(ratio, e.fixed_cash), h), d.first));
    spreads(g, 1 as real, al);
    assert(g * 1 as real == g) by (nonlinear_arith);
}

/// Under rates that are certain, the model of the dividends moves the claims of equity, of
/// dividends and of cash on a dividend against each other: together they stay.
pub proof fn certain_claims_stay_together<R: Scalar, Y: DividendDynamics<R>>(
    value: spec_fn(R) -> real,
    m: Model<R>,
    y: Y,
    rates: RatesView<R>,
    x: CashInputs<R>,
    t: R,
    maturity: R,
    row: int,
)
    requires
        exact(value),
        rates.deterministic(),
        0 <= row < 4,
    ensures
        cash_jacobian(m, y, rates, x, t, maturity) matches Ok(rows) ==> rows.len() == 4
            && rows[row].len() == 3 && value(rows[row][0]) + value(rows[row][1]) + value(
            rows[row][2],
        ) == 0 as real,
{
    let tau = minus(maturity, t);
    let p = y.decay_of(x.dividends.mean_reversion, tau);
    let (a, u, w) = (value(x.dividends.equity_linkage), value(tau), value(p.first));
    regroups(a, u, w);
    regroups(1 as real - a, u, w);
    negates(u, w);
    let g = u * w;
    spreads(g, 1 as real, a);
    regroups(a, g, 1 as real);
    regroups(1 as real - a, g, 1 as real);
    assert(g * 1 as real == g) by (nonlinear_arith);
    assert(row == 0 || row == 1 || row == 2 || row == 3);
}

/// In the state that every path starts in, the model of the dividends moves a claim as it
/// moves the reserve that funds it.
pub proof fn reserves_move_as_first_claims<R: Scalar>(
    value: spec_fn(R) -> real,
    head: Seq<R>,
    amount: R,
    rows: Seq<Seq<R>>,
    n: nat,
    j: int,
)
    requires
        exact(value),
        n < head.len(),
        n <= rows.len(),
        forall|i: int| 0 <= i < rows.len() ==> (#[trigger] rows[i]).len() == 3,
        0 <= j < head.len(),
    ensures
        row_bumps(head, amount, rows, initial_state(), n).len() == head.len(),
        model_bumps(head, amount, rows, n).len() == head.len(),
        value(row_bumps(head, amount, rows, initial_state(), n)[j]) == value(
            model_bumps(head, amount, rows, n)[j],
        ),
    decreases n,
{
    if n > 0 {
        reserves_move_as_first_claims(value, head, amount, rows, (n - 1) as nat, j);
        let row = rows[n - 1];
        assert(rows[n - 1].len() == 3);
        totals(value, row);
        let (a, b, c) = (value(row[0]), value(row[1]), value(row[2]));
        assert(row.drop_last().drop_last().drop_last().len() == 0);
        assert(sum_of(value, row) == a + b + c) by {
            reveal_with_fuel(sum_of, 4);
            assert(row.drop_last().drop_last().last() == row[0]);
            assert(row.drop_last().last() == row[1]);
            assert(row.last() == row[2]);
        }
        assert(a * 1 as real == a && b * 1 as real == b) by (nonlinear_arith);
    }
}

/// In the state that every path starts in, a claim is worth what its coefficients add up to.
pub proof fn first_claims_add_up<R: Scalar>(value: spec_fn(R) -> real, claim: CashClaim<R>)
    requires
        exact(value),
    ensures
        value(projection(claim, initial_state::<R>().factors)) == value(
            total(coefficients(claim)),
        ),
{
    let s = coefficients(claim);
    totals(value, s);
    assert(sum_of(value, s) == value(s[0]) + value(s[1]) + value(s[2])) by {
        reveal_with_fuel(sum_of, 4);
        assert(s.drop_last().drop_last().drop_last().len() == 0);
        assert(s.drop_last().drop_last().last() == s[0]);
        assert(s.drop_last().last() == s[1]);
        assert(s.last() == s[2]);
    }
    let (a, b) = (value(claim.equity), value(claim.dividend));
    assert(a * 1 as real == a && b * 1 as real == b) by (nonlinear_arith);
}

/// Of some times, those up to a time are kept and no others.
pub proof fn times_are_kept_up_to_one<R: Scalar>(v: Seq<R>, last: R, x: R)
    ensures
        until(v, last).contains(x) <==> v.contains(x) && le(x, last),
    decreases v.len(),
{
    if v.len() > 0 {
        times_are_kept_up_to_one(v.drop_last(), last, x);
        let before = until(v.drop_last(), last);
        assert(v =~= v.drop_last().push(v.last()));
        pushed(v.drop_last(), v.last(), x);
        pushed(before, v.last(), x);
    }
}

proof fn pushed<R>(v: Seq<R>, y: R, x: R)
    ensures
        v.push(y).contains(x) <==> v.contains(x) || x == y,
{
    let w = v.push(y);
    if v.contains(x) {
        let i = choose|i: int| 0 <= i < v.len() && v[i] == x;
        assert(w[i] == x);
    }
    if x == y {
        assert(w[v.len() as int] == x);
    }
    if w.contains(x) {
        let i = choose|i: int| 0 <= i < w.len() && w[i] == x;
        if i < v.len() {
            assert(v[i] == x);
        }
    }
}

/// The times of a plan beside rates hold all observations and the expiry.
pub proof fn plan_times_hold_observations<R: Scalar>(
    observed: Seq<R>,
    expiry: R,
    knots: Seq<R>,
    events: Seq<MixedEvent<R>>,
    x: R,
)
    ensures
        observed.contains(x) || x == expiry
            ==> rate_times(observed, expiry, knots, events).contains(
            x,
        ),
        knots.contains(x) && le(x, expiry) ==> rate_times(observed, expiry, knots, events).contains(
            x,
        ),
{
    let all = rate_times(observed, expiry, knots, events);
    let first = observed.push(expiry);
    let kept = until(knots, expiry);
    times_are_kept_up_to_one(knots, expiry, x);
    pushed(observed, expiry, x);
    if first.contains(x) {
        let i = choose|i: int| 0 <= i < first.len() && first[i] == x;
        assert(all[i] == x);
    }
    if kept.contains(x) {
        let i = choose|i: int| 0 <= i < kept.len() && kept[i] == x;
        assert(all[first.len() + i] == x);
    }
}

} // verus!
