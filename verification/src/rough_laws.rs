//! What the derivatives of a fractional driver are: the adjoints of the loadings against
//! their moves, taken forward through the driver.

use crate::errors::MonteCarloError;
use crate::factor_laws::sees_nothing;
use crate::hw_laws::exponentials;
use crate::linear::{chunk, dot, quarter};
use crate::results::{gather, gather_values};
use crate::rough::{driver_path_of, rough_loading, RoughKernelView};
use crate::rough_reverse::{
    correlation_terms, driver_bar, exponent_terms, increment_bar, increment_terms, increment_weight,
    rough_correlation_pullback, rough_pullback, rough_sweep, RoughParameterView,
};
use crate::sampling::half;
use crate::scalar::{exact, literal, minus, negated, over, plus, same, times, Model, Scalar};
use crate::simulation_laws::{compensated_sums_add_up, counts, sum_of};
use crate::sweep_laws::{negates, regroups, spreads};
use vstd::prelude::*;

verus! {

/// The square of a loading is an exponential whose mean is one where the driver is normal
/// with its variance: of the driver times the volatility of volatility, less half of that
/// variance times the square of the volatility of volatility.
pub proof fn squared_loadings_are_centred<R: Scalar>(
    value: spec_fn(R) -> real,
    m: Model<R>,
    eta: R,
    driver: R,
    variance: R,
    exponent: R,
)
    requires
        counts(m, value),
        exponentials(m, value),
        2 as real * value(exponent) == 2 as real * (value(eta) * value(driver)) - value(eta)
            * value(eta) * value(variance),
    ensures
        value(rough_loading(m, eta, driver, variance)) * value(
            rough_loading(m, eta, driver, variance),
        ) == value(m.exp(exponent)),
{
    value_of_halves(value, m);
    let x = minus(
        times(times(half(), eta), driver),
        times(times(times(quarter(), eta), eta), variance),
    );
    let (h, q, e, d, v) = (
        value(half::<R>()),
        value(quarter::<R>()),
        value(eta),
        value(driver),
        value(variance),
    );
    regroups(h, e, d);
    regroups(q, e, e);
    regroups(q, e * e, v);
    let (a, b) = (e * d, e * e * v);
    assert(2 as real * (h * a) == a) by (nonlinear_arith)
        requires
            h * 2 as real == 1 as real,
    ;
    assert(4 as real * (q * b) == b) by (nonlinear_arith)
        requires
            q * 4 as real == 1 as real,
    ;
    assert(value(x) == h * a - q * b);
    assert(value(plus(x, x)) == value(exponent));
    assert(value(m.exp(plus(x, x))) == value(m.exp(x)) * value(m.exp(x)));
    assert(value(m.exp(plus(x, x))) == value(m.exp(exponent)));
}

/// What the increments of the first `n` steps make of the driver at the node `i`, where each
/// moves by `moved`.
pub open spec fn driver_moves<R: Scalar>(
    value: spec_fn(R) -> real,
    k: RoughKernelView<R>,
    moved: spec_fn(int) -> real,
    i: int,
    n: nat,
) -> real
    decreases n,
{
    if n == 0 {
        0 as real
    } else {
        driver_moves(value, k, moved, i, (n - 1) as nat) + value(
            if i == n {
                k.steps[n - 1].average
            } else {
                k.weights[i][n - 1]
            },
        ) * moved(n - 1)
    }
}

/// The adjoints of the first `n` drivers against their moves.
pub open spec fn drivers_moved<R: Scalar>(
    value: spec_fn(R) -> real,
    k: RoughKernelView<R>,
    bars: spec_fn(int) -> real,
    moved: spec_fn(int) -> real,
    n: nat,
) -> real
    decreases n,
{
    if n == 0 {
        0 as real
    } else {
        drivers_moved(value, k, bars, moved, (n - 1) as nat) + bars(n - 1) * driver_moves(
            value,
            k,
            moved,
            n - 1,
            (n - 1) as nat,
        )
    }
}

spec fn column_sum<R: Scalar>(
    value: spec_fn(R) -> real,
    k: RoughKernelView<R>,
    bars: spec_fn(int) -> real,
    j: int,
    n: nat,
) -> real
    decreases n,
{
    if n == 0 || n <= j + 1 {
        0 as real
    } else {
        column_sum(value, k, bars, j, (n - 1) as nat) + bars(n - 1) * value(
            increment_weight(k, n - 1, j),
        )
    }
}

spec fn columns_moved<R: Scalar>(
    value: spec_fn(R) -> real,
    k: RoughKernelView<R>,
    bars: spec_fn(int) -> real,
    moved: spec_fn(int) -> real,
    c: nat,
    n: nat,
) -> real
    decreases c,
{
    if c == 0 {
        0 as real
    } else {
        columns_moved(value, k, bars, moved, (c - 1) as nat, n) + column_sum(
            value,
            k,
            bars,
            c - 1,
            n,
        ) * moved(c - 1)
    }
}

proof fn one_more_row<R: Scalar>(
    value: spec_fn(R) -> real,
    k: RoughKernelView<R>,
    bars: spec_fn(int) -> real,
    moved: spec_fn(int) -> real,
    c: nat,
    n: nat,
)
    requires
        c < n,
    ensures
        columns_moved(value, k, bars, moved, c, n) == columns_moved(
            value,
            k,
            bars,
            moved,
            c,
            (n - 1) as nat,
        ) + bars(n - 1) * driver_moves(value, k, moved, n - 1, c),
    decreases c,
{
    let b = bars(n - 1);
    if c > 0 {
        one_more_row(value, k, bars, moved, (c - 1) as nat, n);
        let j = c - 1;
        let (w, x) = (value(increment_weight(k, n - 1, j)), moved(j));
        let before = column_sum(value, k, bars, j, (n - 1) as nat);
        spreads(x, before, b * w);
        regroups(b, w, x);
        spreads(b, driver_moves(value, k, moved, n - 1, (c - 1) as nat), w * x);
    } else {
        negates(b, 0 as real);
    }
}

proof fn rows_are_columns<R: Scalar>(
    value: spec_fn(R) -> real,
    k: RoughKernelView<R>,
    bars: spec_fn(int) -> real,
    moved: spec_fn(int) -> real,
    n: nat,
)
    ensures
        columns_moved(value, k, bars, moved, n, n) == drivers_moved(value, k, bars, moved, n),
    decreases n,
{
    if n > 0 {
        let c = (n - 1) as nat;
        rows_are_columns(value, k, bars, moved, c);
        one_more_row(value, k, bars, moved, c, n);
        negates(moved(c as int), 0 as real);
    }
}

spec fn bar_at<R: Scalar>(value: spec_fn(R) -> real, reversed: Seq<Option<R>>) -> spec_fn(
    int,
) -> real {
    |i: int|
        match reversed[reversed.len() - 1 - i] {
            Some(b) => value(b),
            None => 0 as real,
        }
}

proof fn columns_add_up<R: Scalar>(
    value: spec_fn(R) -> real,
    k: RoughKernelView<R>,
    reversed: Seq<Option<R>>,
    j: int,
    i: int,
)
    requires
        exact(value),
        0 <= j < i <= reversed.len(),
    ensures
        sum_of(value, increment_terms(k, reversed, j, i)) + column_sum(
            value,
            k,
            bar_at(value, reversed),
            j,
            i as nat,
        ) == column_sum(value, k, bar_at(value, reversed), j, reversed.len()),
    decreases reversed.len() - i,
{
    if i < reversed.len() {
        columns_add_up(value, k, reversed, j, i + 1);
        let later = increment_terms(k, reversed, j, i + 1);
        let w = value(increment_weight(k, i, j));
        match reversed[reversed.len() - 1 - i] {
            Some(b) => {
                let x = times(b, increment_weight(k, i, j));
                assert(later.push(x).drop_last() =~= later);
            },
            None => {
                negates(w, 0 as real);
            },
        }
    }
}

/// How the increment of a step moves with a correlation that moves the loadings by `dl`.
pub open spec fn increment_moves<R: Scalar>(
    value: spec_fn(R) -> real,
    k: RoughKernelView<R>,
    dl: Seq<R>,
    z: Seq<R>,
) -> spec_fn(int) -> real {
    |j: int| value(k.steps[j].root_dt) * value(dot(dl, chunk(z, 4, j)))
}

/// The adjoint of the driver at a node: that of its loading, times the loading and half of
/// the volatility of volatility. The first driver does not move.
pub open spec fn driver_adjoint<R: Scalar>(
    value: spec_fn(R) -> real,
    m: Model<R>,
    k: RoughKernelView<R>,
    drivers: Seq<R>,
    bars: Seq<R>,
) -> spec_fn(int) -> real {
    |i: int|
        if i == 0 {
            0 as real
        } else {
            value(bars[i]) * value(
                rough_loading(m, k.factor.vol_of_vol, drivers[i], k.variances[i]),
            ) * (value(half::<R>()) * value(k.factor.vol_of_vol))
        }
}

proof fn same_adjoints<R: Scalar>(
    value: spec_fn(R) -> real,
    k: RoughKernelView<R>,
    a: spec_fn(int) -> real,
    b: spec_fn(int) -> real,
    moved: spec_fn(int) -> real,
    n: nat,
)
    requires
        forall|i: int| 0 <= i < n ==> #[trigger] a(i) == b(i),
    ensures
        drivers_moved(value, k, a, moved, n) == drivers_moved(value, k, b, moved, n),
    decreases n,
{
    if n > 0 {
        same_adjoints(value, k, a, b, moved, (n - 1) as nat);
        assert(a(n - 1) == b(n - 1));
    }
}

proof fn terms_add_up<R: Scalar>(
    value: spec_fn(R) -> real,
    m: Model<R>,
    k: RoughKernelView<R>,
    dl: Seq<R>,
    z: Seq<R>,
    reversed: Seq<Option<R>>,
    moved: Seq<R>,
    c: nat,
)
    requires
        exact(value),
        sees_nothing(value),
        c <= reversed.len(),
        moved == Seq::new(reversed.len(), increment_bar(m, k, reversed)),
    ensures
        sum_of(value, correlation_terms(k, dl, z, moved, c)) == columns_moved(
            value,
            k,
            bar_at(value, reversed),
            increment_moves(value, k, dl, z),
            c,
            reversed.len(),
        ),
    decreases c,
{
    if c > 0 {
        terms_add_up(value, m, k, dl, z, reversed, moved, (c - 1) as nat);
        let j = c - 1;
        let earlier = correlation_terms(k, dl, z, moved, (c - 1) as nat);
        let bar = moved[j];
        compensated_sums_add_up(value, m, increment_terms(k, reversed, j, j + 1));
        columns_add_up(value, k, reversed, j, j + 1);
        assert(value(bar) == column_sum(value, k, bar_at(value, reversed), j, reversed.len()));
        let (b, r, x) = (
            value(bar),
            value(k.steps[j].root_dt),
            value(dot(dl, chunk(z, 4, j))),
        );
        regroups(b, r, x);
        if same(bar, literal(0)) {
            negates(r * x, 0 as real);
        } else {
            let t = times(times(bar, k.steps[j].root_dt), dot(dl, chunk(z, 4, j)));
            assert(earlier.push(t).drop_last() =~= earlier);
        }
    }
}

/// The derivative of a path with respect to a correlation of its fractional driver is the
/// adjoints of the loadings against the moves of the driver, each a sum of the moves of the
/// increments before it, weighted as the driver weights them.
pub proof fn rough_correlation_pullbacks_transpose<R: Scalar>(
    value: spec_fn(R) -> real,
    m: Model<R>,
    k: RoughKernelView<R>,
    rows: Seq<Seq<R>>,
    z: Seq<R>,
    bars: Seq<R>,
    p: int,
)
    requires
        exact(value),
        sees_nothing(value),
        0 <= p < 3,
    ensures
        rough_correlation_pullback(m, k, rows, z, bars) matches Ok(out) ==> value(out[p])
            == drivers_moved(
            value,
            k,
            driver_adjoint(value, m, k, driver_path_of(m, k, z)->Ok_0.0, bars),
            increment_moves(value, k, rows[p], z),
            k.steps.len(),
        ),
{
    if let Ok(out) = rough_correlation_pullback(m, k, rows, z, bars) {
        let n = k.steps.len();
        let drivers = driver_path_of(m, k, z)->Ok_0.0;
        let f = driver_bar(m, k, drivers, bars);
        let reversed = gather(n, f)->Ok_0;
        gather_values(n, f);
        let moved = Seq::new(n, increment_bar(m, k, reversed));
        let terms = correlation_terms(k, rows[p], z, moved, n);
        compensated_sums_add_up(value, m, terms);
        terms_add_up(value, m, k, rows[p], z, reversed, moved, n);
        let (a, b) = (
            bar_at(value, reversed),
            driver_adjoint(value, m, k, drivers, bars),
        );
        rows_are_columns(value, k, a, increment_moves(value, k, rows[p], z), n);
        assert forall|i: int| 0 <= i < n implies #[trigger] a(i) == b(i) by {
            let t = n - 1 - i;
            assert(f(t) == Ok::<Option<R>, MonteCarloError>(reversed[t]));
            let eta = k.factor.vol_of_vol;
            let l = value(rough_loading(m, eta, drivers[i], k.variances[i]));
            let (x, h, e) = (value(bars[i]), value(half::<R>()), value(eta));
            if i > 0 && reversed[t] is None {
                if x == 0 as real {
                    negates(l, 0 as real);
                    negates(h * e, 0 as real);
                } else {
                    negates(h, 0 as real);
                    negates(x * l, 0 as real);
                }
            }
        }
        same_adjoints(value, k, a, b, increment_moves(value, k, rows[p], z), n);
    }
}

/// Twice the adjoints of the loadings from the step `i` on against their moves with the
/// volatility of volatility: the exponent of a loading moves by half of the driver less half
/// of the variance times the volatility of volatility.
pub open spec fn volatilities_moved<R: Scalar>(
    value: spec_fn(R) -> real,
    m: Model<R>,
    k: RoughKernelView<R>,
    drivers: Seq<R>,
    bars: Seq<R>,
    i: nat,
) -> real
    decreases bars.len() - i,
{
    if i >= bars.len() {
        0 as real
    } else {
        let (x, v) = (drivers[i as int], k.variances[i as int]);
        let eta = k.factor.vol_of_vol;
        volatilities_moved(value, m, k, drivers, bars, i + 1) + value(bars[i as int]) * value(
            rough_loading(m, eta, x, v),
        ) * (value(x) - value(eta) * value(v))
    }
}

proof fn volatilities_swept<R: Scalar>(
    value: spec_fn(R) -> real,
    m: Model<R>,
    k: RoughKernelView<R>,
    p: RoughParameterView<R>,
    z: Seq<R>,
    drivers: Seq<R>,
    increments: Seq<R>,
    bars: Seq<R>,
    i: nat,
)
    requires
        counts(m, value),
        sees_nothing(value),
        i <= bars.len(),
    ensures
        rough_sweep(m, k, p, z, drivers, increments, bars, i) matches Ok((_, list)) ==> 2 as real
            * sum_of(value, list) == volatilities_moved(value, m, k, drivers, bars, i),
    decreases bars.len() - i,
{
    if i < bars.len() {
        volatilities_swept(value, m, k, p, z, drivers, increments, bars, i + 1);
        if let Ok((_, list)) = rough_sweep(m, k, p, z, drivers, increments, bars, i + 1) {
            let at = i as int;
            let eta = k.factor.vol_of_vol;
            let (x, v) = (drivers[at], k.variances[at]);
            let loading = rough_loading(m, eta, x, v);
            let exponent = times(bars[at], loading);
            let t = times(
                exponent,
                minus(times(half(), x), times(times(half(), eta), v)),
            );
            assert(list.push(t).drop_last() =~= list);
            value_of_halves(value, m);
            let (h, e, w, y, q) = (
                value(half::<R>()),
                value(eta),
                value(v),
                value(x),
                value(exponent),
            );
            regroups(h, e, w);
            spreads(h, y, e * w);
            let g = y - e * w;
            assert(value(t) == q * (h * g));
            assert(2 as real * (q * (h * g)) == q * g) by (nonlinear_arith)
                requires
                    h * 2 as real == 1 as real,
            ;
            if same(bars[at], literal(0)) {
                negates(value(loading), 0 as real);
                negates(g, 0 as real);
            }
        }
    }
}

proof fn value_of_halves<R: Scalar>(value: spec_fn(R) -> real, m: Model<R>)
    requires
        counts(m, value),
    ensures
        value(half::<R>()) * 2 as real == 1 as real,
        value(quarter::<R>()) * 4 as real == 1 as real,
{
    let (one, two, four) = (literal::<R>(1), literal::<R>(2), literal::<R>(4));
    assert(value(one) == 1 as real && value(two) == 2 as real && value(four) == 4 as real);
    assert(value(over(one, two)) * value(two) == value(one));
    assert(value(over(one, four)) * value(four) == value(one));
}

/// How the driver at the node `i` moves with the exponent of its kernel: with both parts of
/// its newest cell, and with the weights of the older increments.
pub open spec fn kernel_moves<R: Scalar>(
    value: spec_fn(R) -> real,
    p: RoughParameterView<R>,
    z: Seq<R>,
    increments: Seq<R>,
    i: int,
) -> real {
    if i == 0 {
        0 as real
    } else {
        value(p.near_h[i - 1].first) * value(increments[i - 1]) + value(p.near_h[i - 1].second)
            * value(z[4 * (i - 1) + 3]) + weights_moved(
            value,
            p,
            increments,
            i,
            p.weight_h[i].len(),
        )
    }
}

/// What the first `n` weights of the driver at the node `i` make of its move.
pub open spec fn weights_moved<R: Scalar>(
    value: spec_fn(R) -> real,
    p: RoughParameterView<R>,
    increments: Seq<R>,
    i: int,
    n: nat,
) -> real
    decreases n,
{
    if n == 0 {
        0 as real
    } else {
        weights_moved(value, p, increments, i, (n - 1) as nat) + value(p.weight_h[i][n - 1])
            * value(increments[n - 1])
    }
}

/// Four times the adjoints of the loadings from the step `i` on against their moves with the
/// exponent of the kernel: the exponent of a loading moves by half of the volatility of
/// volatility times the move of the driver, less a quarter of its square times that of the
/// variance.
pub open spec fn exponents_moved<R: Scalar>(
    value: spec_fn(R) -> real,
    m: Model<R>,
    k: RoughKernelView<R>,
    p: RoughParameterView<R>,
    z: Seq<R>,
    drivers: Seq<R>,
    increments: Seq<R>,
    bars: Seq<R>,
    i: nat,
) -> real
    decreases bars.len() - i,
{
    if i >= bars.len() {
        0 as real
    } else {
        let at = i as int;
        let eta = k.factor.vol_of_vol;
        exponents_moved(value, m, k, p, z, drivers, increments, bars, i + 1) + value(bars[at])
            * value(rough_loading(m, eta, drivers[at], k.variances[at])) * (2 as real * (value(eta)
            * kernel_moves(value, p, z, increments, at)) - value(eta) * value(eta) * value(
            p.variance_h[at],
        ))
    }
}

proof fn weights_add_up<R: Scalar>(
    value: spec_fn(R) -> real,
    p: RoughParameterView<R>,
    increments: Seq<R>,
    driver: R,
    i: int,
    n: nat,
)
    requires
        exact(value),
    ensures
        sum_of(
            value,
            Seq::new(n, |j: int| times(times(driver, p.weight_h[i][j]), increments[j])),
        ) == value(driver) * weights_moved(value, p, increments, i, n),
    decreases n,
{
    let f = |j: int| times(times(driver, p.weight_h[i][j]), increments[j]);
    let d = value(driver);
    if n > 0 {
        weights_add_up(value, p, increments, driver, i, (n - 1) as nat);
        assert(Seq::new(n, f).drop_last() =~= Seq::new((n - 1) as nat, f));
        assert(Seq::new(n, f).last() == f(n - 1));
        let (w, x) = (value(p.weight_h[i][n - 1]), value(increments[n - 1]));
        regroups(d, w, x);
        spreads(d, weights_moved(value, p, increments, i, (n - 1) as nat), w * x);
    } else {
        negates(d, 0 as real);
    }
}

proof fn sums_of_both<R>(value: spec_fn(R) -> real, a: Seq<R>, b: Seq<R>)
    ensures
        sum_of(value, a + b) == sum_of(value, a) + sum_of(value, b),
    decreases b.len(),
{
    if b.len() > 0 {
        sums_of_both(value, a, b.drop_last());
        assert((a + b).drop_last() =~= a + b.drop_last());
    } else {
        assert(a + b =~= a);
    }
}

proof fn few_sums<R>(value: spec_fn(R) -> real, x: R, y: R)
    ensures
        sum_of(value, seq![x]) == value(x),
        sum_of(value, seq![x, y]) == value(x) + value(y),
{
    assert(seq![x].drop_last() =~= Seq::empty());
    assert(seq![x, y].drop_last() =~= seq![x]);
    assert(sum_of(value, seq![x]) == sum_of(value, Seq::<R>::empty()) + value(x));
}

proof fn exponent_terms_add_up<R: Scalar>(
    value: spec_fn(R) -> real,
    m: Model<R>,
    k: RoughKernelView<R>,
    p: RoughParameterView<R>,
    z: Seq<R>,
    increments: Seq<R>,
    exponent: R,
    i: int,
)
    requires
        counts(m, value),
    ensures
        4 as real * sum_of(value, exponent_terms(k, p, z, increments, exponent, i)) == value(
            exponent,
        ) * (2 as real * (value(k.factor.vol_of_vol) * kernel_moves(value, p, z, increments, i))
            - value(k.factor.vol_of_vol) * value(k.factor.vol_of_vol) * value(p.variance_h[i])),
{
    value_of_halves(value, m);
    let eta = k.factor.vol_of_vol;
    let head = times(times(times(times(negated(quarter()), exponent), eta), eta), p.variance_h[i]);
    let (q, e, v) = (value(exponent), value(eta), value(p.variance_h[i]));
    let (fourth, h) = (value(quarter::<R>()), value(half::<R>()));
    let km = kernel_moves(value, p, z, increments, i);
    few_sums(value, head, head);
    let s = e * e * v;
    let x = (-fourth) * q;
    assert(value(head) == ((x * e) * e) * v);
    regroups(x, e, e);
    regroups(x, e * e, v);
    assert(4 as real * (x * s) == -(q * s)) by (nonlinear_arith)
        requires
            x == (-fourth) * q,
            fourth * 4 as real == 1 as real,
    ;
    spreads(q, 2 as real * (e * km), s);
    if i == 0 {
        negates(e, 0 as real);
        negates(q, 0 as real);
    } else {
        let driver = times(times(half(), eta), exponent);
        let near = p.near_h[i - 1];
        let a = times(times(driver, near.first), increments[i - 1]);
        let b = times(times(driver, near.second), z[4 * (i - 1) + 3]);
        let rest = Seq::new(
            p.weight_h[i].len(),
            |j: int| times(times(driver, p.weight_h[i][j]), increments[j]),
        );
        few_sums(value, a, b);
        sums_of_both(value, seq![head], seq![a, b]);
        sums_of_both(value, seq![head] + seq![a, b], rest);
        weights_add_up(value, p, increments, driver, i, p.weight_h[i].len());
        let d = value(driver);
        let (a1, a2) = (value(near.first), value(increments[i - 1]));
        let (b1, b2) = (value(near.second), value(z[4 * (i - 1) + 3]));
        let w = weights_moved(value, p, increments, i, p.weight_h[i].len());
        regroups(d, a1, a2);
        regroups(d, b1, b2);
        spreads(d, a1 * a2 + b1 * b2, w);
        spreads(d, a1 * a2, b1 * b2);
        assert(km == a1 * a2 + b1 * b2 + w);
        let g = h * e;
        regroups(g, q, km);
        regroups(h, e, km);
        regroups(q, g, km);
        let y = e * km;
        assert(4 as real * (q * (h * y)) == q * (2 as real * y)) by (nonlinear_arith)
            requires
                h * 2 as real == 1 as real,
        ;
    }
}

proof fn exponents_swept<R: Scalar>(
    value: spec_fn(R) -> real,
    m: Model<R>,
    k: RoughKernelView<R>,
    p: RoughParameterView<R>,
    z: Seq<R>,
    drivers: Seq<R>,
    increments: Seq<R>,
    bars: Seq<R>,
    i: nat,
)
    requires
        counts(m, value),
        sees_nothing(value),
        i <= bars.len(),
    ensures
        rough_sweep(m, k, p, z, drivers, increments, bars, i) matches Ok((list, _)) ==> 4 as real
            * sum_of(value, list) == exponents_moved(
            value,
            m,
            k,
            p,
            z,
            drivers,
            increments,
            bars,
            i,
        ),
    decreases bars.len() - i,
{
    if i < bars.len() {
        exponents_swept(value, m, k, p, z, drivers, increments, bars, i + 1);
        if let Ok((list, _)) = rough_sweep(m, k, p, z, drivers, increments, bars, i + 1) {
            let at = i as int;
            let eta = k.factor.vol_of_vol;
            let loading = rough_loading(m, eta, drivers[at], k.variances[at]);
            let exponent = times(bars[at], loading);
            exponent_terms_add_up(value, m, k, p, z, increments, exponent, at);
            sums_of_both(value, list, exponent_terms(k, p, z, increments, exponent, at));
            if same(bars[at], literal(0)) {
                negates(value(loading), 0 as real);
                negates(
                    2 as real * (value(eta) * kernel_moves(value, p, z, increments, at)) - value(
                        eta,
                    ) * value(eta) * value(p.variance_h[at]),
                    0 as real,
                );
            }
        }
    }
}

/// The derivatives of a path with respect to the exponent of its fractional driver and to its
/// volatility of volatility are the adjoints of the loadings against their moves.
pub proof fn rough_pullbacks_transpose<R: Scalar>(
    value: spec_fn(R) -> real,
    m: Model<R>,
    k: RoughKernelView<R>,
    p: RoughParameterView<R>,
    z: Seq<R>,
    bars: Seq<R>,
)
    requires
        counts(m, value),
        sees_nothing(value),
    ensures
        rough_pullback(m, k, p, z, bars) matches Ok(out) ==> {
            let (drivers, increments) = driver_path_of(m, k, z)->Ok_0;
            &&& 4 as real * value(out.first) == exponents_moved(
                value,
                m,
                k,
                p,
                z,
                drivers,
                increments,
                bars,
                0,
            )
            &&& 2 as real * value(out.second) == volatilities_moved(
                value,
                m,
                k,
                drivers,
                bars,
                0,
            )
        },
{
    if let Ok(out) = rough_pullback(m, k, p, z, bars) {
        let (drivers, increments) = driver_path_of(m, k, z)->Ok_0;
        let (a, b) = rough_sweep(m, k, p, z, drivers, increments, bars, 0)->Ok_0;
        compensated_sums_add_up(value, m, a);
        compensated_sums_add_up(value, m, b);
        exponents_swept(value, m, k, p, z, drivers, increments, bars, 0);
        volatilities_swept(value, m, k, p, z, drivers, increments, bars, 0);
    }
}

} // verus!
