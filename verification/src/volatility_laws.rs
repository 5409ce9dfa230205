//! What the derivatives of volatility factors are: a sweep back through the factors is the
//! transpose of their moves forward, parameter by parameter and correlation by correlation.

use crate::affine_laws::pairing;
use crate::bergomi::{loading_of, step_volatility, KernelView};
use crate::bergomi_reverse::{
    exponent_bar, factor_bars, factors_at, noise_terms, parameter_count, parameter_pullback,
    parameter_sweep, weight_norm, weight_tangent, ParameterReverseView,
};
use crate::correlation_reverse::{
    correlation_pullback, correlation_sweep, edge_count, CorrelationReverseView,
};
use crate::dynamics::KernelNumerics;
use crate::errors::MonteCarloError;
use crate::factor_laws::sees_nothing;
use crate::linear::{chunk, dot, onto};
use crate::local_vol_laws::cancelled;
use crate::models::BuehlerDividendState;
use crate::rough::{driver_of, rough_loading, rough_volatility, RoughKernelView};
use crate::scalar::{exact, literal, minus, negated, over, plus, times, Model, Scalar};
use crate::simulation_laws::{counts, roots};
use crate::sweep_laws::{negates, regroups, spreads};
use vstd::prelude::*;

verus! {

/// How the factors at the start of the step `i` move: they start at rest, decay, and take up
/// the moves of each step.
pub open spec fn factor_moves<R: Scalar, L>(
    value: spec_fn(R) -> real,
    k: KernelView<R, L>,
    source: spec_fn(int, int) -> real,
    i: nat,
) -> Seq<real>
    decreases i,
{
    if i == 0 {
        Seq::new(k.n(), |j: int| 0 as real)
    } else {
        let before = factor_moves(value, k, source, (i - 1) as nat);
        Seq::new(
            k.n(),
            |j: int| value(k.steps[i - 1].decay[j]) * before[j] + source(i - 1, j),
        )
    }
}

/// The adjoints of the loadings from the step `i` on against the moves of the loadings: a
/// loading moves by itself times the move of its exponent.
pub open spec fn loadings_moved<R: Scalar, L>(
    value: spec_fn(R) -> real,
    m: Model<R>,
    k: KernelView<R, L>,
    z: Seq<R>,
    bars: Seq<R>,
    source: spec_fn(int, int) -> real,
    direct: spec_fn(int) -> real,
    i: nat,
) -> real
    decreases k.steps.len() - i,
{
    if i >= k.steps.len() {
        0 as real
    } else {
        loadings_moved(value, m, k, z, bars, source, direct, i + 1) + value(bars[i as int]) * value(
            loading_of(m, k, factors_at(k, z, i), i as int),
        ) * (direct(i as int) + value(k.vol_of_vol) * pairing(
            value,
            k.weights,
            factor_moves(value, k, source, i),
            k.n(),
        ))
    }
}

spec fn swept_moves<R: Scalar, L>(
    value: spec_fn(R) -> real,
    m: Model<R>,
    k: KernelView<R, L>,
    z: Seq<R>,
    bars: Seq<R>,
    source: spec_fn(int, int) -> real,
    direct: spec_fn(int) -> real,
    i: nat,
) -> real
    decreases k.steps.len() - i,
{
    if i >= k.steps.len() {
        0 as real
    } else {
        swept_moves(value, m, k, z, bars, source, direct, i + 1) + pairing(
            value,
            factor_bars(m, k, z, bars, i + 1),
            Seq::new(k.n(), |j: int| source(i as int, j)),
            k.n(),
        ) + value(exponent_bar(m, k, z, bars, i as int)) * direct(i as int)
    }
}

proof fn bars_pair<R: Scalar>(
    value: spec_fn(R) -> real,
    later: Seq<R>,
    decay: Seq<R>,
    weights: Seq<R>,
    bars: Seq<R>,
    q: R,
    vol: R,
    before: Seq<real>,
    source: Seq<real>,
    next: Seq<real>,
    n: nat,
)
    requires
        exact(value),
        n <= bars.len(),
        forall|j: int|
            0 <= j < n ==> #[trigger] bars[j] == plus(
                times(later[j], decay[j]),
                times(times(q, vol), weights[j]),
            ),
        forall|j: int|
            0 <= j < n ==> #[trigger] next[j] == value(decay[j]) * before[j] + source[j],
    ensures
        pairing(value, bars, before, n) + pairing(value, later, source, n) == pairing(
            value,
            later,
            next,
            n,
        ) + (value(q) * value(vol)) * pairing(value, weights, before, n),
    decreases n,
{
    let c = value(q) * value(vol);
    if n > 0 {
        bars_pair(
            value,
            later,
            decay,
            weights,
            bars,
            q,
            vol,
            before,
            source,
            next,
            (n - 1) as nat,
        );
        let j = n - 1;
        let (l, d, w, x, s) = (
            value(later[j]),
            value(decay[j]),
            value(weights[j]),
            before[j],
            source[j],
        );
        assert(value(bars[j]) == l * d + c * w);
        assert(next[j] == d * x + s);
        spreads(x, l * d, c * w);
        regroups(l, d, x);
        regroups(c, w, x);
        spreads(l, d * x, s);
        spreads(c, pairing(value, weights, before, (n - 1) as nat), w * x);
    } else {
        negates(c, 0 as real);
    }
}

proof fn factors_transpose<R: Scalar, L>(
    value: spec_fn(R) -> real,
    m: Model<R>,
    k: KernelView<R, L>,
    z: Seq<R>,
    bars: Seq<R>,
    source: spec_fn(int, int) -> real,
    direct: spec_fn(int) -> real,
    i: nat,
)
    requires
        exact(value),
        i <= k.steps.len(),
    ensures
        swept_moves(value, m, k, z, bars, source, direct, i) + pairing(
            value,
            factor_bars(m, k, z, bars, i),
            factor_moves(value, k, source, i),
            k.n(),
        ) == loadings_moved(value, m, k, z, bars, source, direct, i),
    decreases k.steps.len() - i,
{
    let x = factor_moves(value, k, source, i);
    if i >= k.steps.len() {
        nothing_against(value, factor_bars(m, k, z, bars, i), x, k.n());
    } else {
        factors_transpose(value, m, k, z, bars, source, direct, i + 1);
        let at = i as int;
        let later = factor_bars(m, k, z, bars, i + 1);
        let q = exponent_bar(m, k, z, bars, at);
        let s = Seq::new(k.n(), |j: int| source(at, j));
        bars_pair(
            value,
            later,
            k.steps[at].decay,
            k.weights,
            factor_bars(m, k, z, bars, i),
            q,
            k.vol_of_vol,
            x,
            s,
            factor_moves(value, k, source, i + 1),
            k.n(),
        );
        let (y, w, v) = (
            value(q),
            pairing(value, k.weights, x, k.n()),
            value(k.vol_of_vol),
        );
        regroups(y, v, w);
        spreads(y, direct(at), v * w);
    }
}

proof fn nothing_against<R: Scalar>(value: spec_fn(R) -> real, a: Seq<R>, d: Seq<real>, n: nat)
    requires
        n <= a.len(),
        forall|i: int| 0 <= i < n ==> value(#[trigger] a[i]) == 0 as real,
    ensures
        pairing(value, a, d, n) == 0 as real,
    decreases n,
{
    if n > 0 {
        nothing_against(value, a, d, (n - 1) as nat);
        assert(value(a[n - 1]) == 0 as real);
        negates(d[n - 1], 0 as real);
    }
}

proof fn against_nothing<R: Scalar>(value: spec_fn(R) -> real, a: Seq<R>, d: Seq<real>, n: nat)
    requires
        n <= d.len(),
        forall|i: int| 0 <= i < n ==> #[trigger] d[i] == 0 as real,
    ensures
        pairing(value, a, d, n) == 0 as real,
    decreases n,
{
    if n > 0 {
        against_nothing(value, a, d, (n - 1) as nat);
        assert(d[n - 1] == 0 as real);
        negates(value(a[n - 1]), 0 as real);
    }
}

proof fn noise_pairs<R: Scalar>(
    value: spec_fn(R) -> real,
    base: R,
    later: Seq<R>,
    rows: Seq<Seq<R>>,
    start: int,
    now: Seq<R>,
    n: nat,
)
    requires
        exact(value),
        n <= later.len(),
    ensures
        value(onto(base, noise_terms(later, rows, start, now).take(n as int))) == value(base)
            + pairing(
            value,
            later,
            Seq::new(later.len(), |j: int| value(dot(rows[start + j], now))),
            n,
        ),
    decreases n,
{
    let all = noise_terms(later, rows, start, now);
    let terms = all.take(n as int);
    if n > 0 {
        noise_pairs(value, base, later, rows, start, now, (n - 1) as nat);
        assert(terms.drop_last() =~= all.take(n - 1));
        assert(terms.last() == times(later[n - 1], dot(rows[start + (n - 1)], now)));
    }
}

proof fn split_sources<R: Scalar>(
    value: spec_fn(R) -> real,
    later: Seq<R>,
    noise: Seq<real>,
    source: Seq<real>,
    a: int,
    more: real,
    n: nat,
)
    requires
        0 <= a,
        forall|j: int|
            0 <= j < n ==> #[trigger] source[j] == noise[j] + (if j == a {
                more
            } else {
                0 as real
            }),
    ensures
        pairing(value, later, source, n) == pairing(value, later, noise, n) + (if a < n {
            value(later[a]) * more
        } else {
            0 as real
        }),
    decreases n,
{
    if n > 0 {
        split_sources(value, later, noise, source, a, more, (n - 1) as nat);
        let j = n - 1;
        assert(source[j] == noise[j] + (if j == a {
            more
        } else {
            0 as real
        }));
        spreads(value(later[j]), noise[j], more);
    }
}

/// What a speed adds to the moves of the factors over a step: to the decay of its own factor,
/// and to the noise of all.
pub open spec fn speed_source<R: Scalar, L>(
    value: spec_fn(R) -> real,
    k: KernelView<R, L>,
    p: ParameterReverseView<R>,
    z: Seq<R>,
    a: int,
) -> spec_fn(int, int) -> real {
    |i: int, j: int|
        value(dot(p.steps[i].lower[a * k.n() + j], chunk(z, k.d() as int, i))) + (if j == a {
            value(p.steps[i].decay[a]) * value(factors_at(k, z, i as nat)[a])
        } else {
            0 as real
        })
}

/// Nothing is added to the moves of the factors.
pub open spec fn no_source() -> spec_fn(int, int) -> real {
    |i: int, j: int| 0 as real
}

/// How a parameter moves the exponent of a loading at factors that do not move: a speed
/// through the centering, the volatility of volatility through the weighted factors less twice
/// the centering, and the mixing weight through the weights and the centering.
pub open spec fn exponent_moves<R: Scalar, L>(
    value: spec_fn(R) -> real,
    k: KernelView<R, L>,
    p: ParameterReverseView<R>,
    z: Seq<R>,
    a: int,
) -> spec_fn(int) -> real {
    |i: int|
        {
            let x = factors_at(k, z, i as nat);
            if a < k.n() {
                -(value(k.vol_of_vol) * value(p.centering[i][a]))
            } else if a == k.n() {
                value(dot(k.weights, x)) - 2 as real * value(k.centering[i])
            } else {
                value(k.vol_of_vol) * (value(dot(p.weight, x)) - value(p.centering[i][a]))
            }
        }
}

proof fn parameters_swept<R: Scalar, L>(
    value: spec_fn(R) -> real,
    m: Model<R>,
    k: KernelView<R, L>,
    p: ParameterReverseView<R>,
    z: Seq<R>,
    bars: Seq<R>,
    a: int,
    i: nat,
)
    requires
        counts(m, value),
        0 <= a < parameter_count(k.n()),
        i <= k.steps.len(),
    ensures
        value(parameter_sweep(m, k, p, z, bars, i)[a]) == swept_moves(
            value,
            m,
            k,
            z,
            bars,
            if a < k.n() {
                speed_source(value, k, p, z, a)
            } else {
                no_source()
            },
            exponent_moves(value, k, p, z, a),
            i,
        ),
    decreases k.steps.len() - i,
{
    let n = k.n() as int;
    if i < k.steps.len() {
        parameters_swept(value, m, k, p, z, bars, a, i + 1);
        let at = i as int;
        let out = parameter_sweep(m, k, p, z, bars, i + 1);
        let later = factor_bars(m, k, z, bars, i + 1);
        let x = factors_at(k, z, i);
        let now = chunk(z, k.d() as int, at);
        let (ds, c) = (p.steps[at], p.centering[at]);
        let q = exponent_bar(m, k, z, bars, at);
        let (y, v) = (value(q), value(k.vol_of_vol));
        assert(later.len() == k.n());
        if a < n {
            let f = speed_source(value, k, p, z, a);
            let noise = Seq::new(k.n(), |j: int| value(dot(ds.lower[a * n + j], now)));
            let source = Seq::new(k.n(), |j: int| f(at, j));
            let base = plus(out[a], times(times(later[a], ds.decay[a]), x[a]));
            noise_pairs(value, base, later, ds.lower, a * n, now, k.n());
            assert(noise_terms(later, ds.lower, a * n, now).take(n) =~= noise_terms(
                later,
                ds.lower,
                a * n,
                now,
            ));
            assert(noise =~= Seq::new(
                later.len(),
                |j: int| value(dot(ds.lower[a * n + j], now)),
            ));
            split_sources(
                value,
                later,
                noise,
                source,
                a,
                value(ds.decay[a]) * value(x[a]),
                k.n(),
            );
            regroups(value(later[a]), value(ds.decay[a]), value(x[a]));
            regroups(y, v, value(c[a]));
            negates(y, v * value(c[a]));
        } else {
            let f = no_source();
            let source = Seq::new(k.n(), |j: int| f(at, j));
            against_nothing(value, later, source, k.n());
            if a == n {
                let two = literal::<R>(2);
                assert(value(two) == 2 as real);
            } else {
                regroups(y, v, value(dot(p.weight, x)) - value(c[a]));
            }
        }
    }
}

/// The derivative of a path with respect to a parameter of its volatility factors is the
/// adjoints of the loadings against their moves with that parameter, taken forward.
pub proof fn parameter_pullbacks_transpose<R: Scalar, L>(
    value: spec_fn(R) -> real,
    m: Model<R>,
    k: KernelView<R, L>,
    p: ParameterReverseView<R>,
    z: Seq<R>,
    bars: Seq<R>,
    a: int,
)
    requires
        counts(m, value),
        0 <= a < parameter_count(k.n()),
    ensures
        parameter_pullback(m, k, p, z, bars) matches Ok(out) ==> value(out[a]) == loadings_moved(
            value,
            m,
            k,
            z,
            bars,
            if a < k.n() {
                speed_source(value, k, p, z, a)
            } else {
                no_source()
            },
            exponent_moves(value, k, p, z, a),
            0,
        ),
{
    let source = if a < k.n() {
        speed_source(value, k, p, z, a)
    } else {
        no_source()
    };
    parameters_swept(value, m, k, p, z, bars, a, 0);
    factors_transpose(value, m, k, z, bars, source, exponent_moves(value, k, p, z, a), 0);
    against_nothing(
        value,
        factor_bars(m, k, z, bars, 0),
        factor_moves(value, k, source, 0),
        k.n(),
    );
}

/// What a correlation adds to the moves of the factors over a step: to their noise.
pub open spec fn correlation_source<R: Scalar, L>(
    value: spec_fn(R) -> real,
    k: KernelView<R, L>,
    p: CorrelationReverseView<R>,
    z: Seq<R>,
    a: int,
) -> spec_fn(int, int) -> real {
    |i: int, j: int| value(dot(p.lower[i][a * k.n() + j], chunk(z, k.d() as int, i)))
}

/// How a correlation moves the exponent of a loading at factors that do not move: through the
/// weights and the centering.
pub open spec fn correlated_exponents<R: Scalar, L>(
    value: spec_fn(R) -> real,
    k: KernelView<R, L>,
    p: CorrelationReverseView<R>,
    z: Seq<R>,
    a: int,
) -> spec_fn(int) -> real {
    |i: int|
        value(k.vol_of_vol) * (value(dot(p.weights[a], factors_at(k, z, i as nat))) - value(
            p.centering[i][a],
        ))
}

proof fn correlations_swept<R: Scalar, L>(
    value: spec_fn(R) -> real,
    m: Model<R>,
    k: KernelView<R, L>,
    p: CorrelationReverseView<R>,
    z: Seq<R>,
    bars: Seq<R>,
    a: int,
    i: nat,
)
    requires
        exact(value),
        0 <= a < edge_count(k.n()),
        i <= k.steps.len(),
    ensures
        value(correlation_sweep(m, k, p, z, bars, i)[a]) == swept_moves(
            value,
            m,
            k,
            z,
            bars,
            correlation_source(value, k, p, z, a),
            correlated_exponents(value, k, p, z, a),
            i,
        ),
    decreases k.steps.len() - i,
{
    let n = k.n() as int;
    if i < k.steps.len() {
        correlations_swept(value, m, k, p, z, bars, a, i + 1);
        let at = i as int;
        let out = correlation_sweep(m, k, p, z, bars, i + 1);
        let later = factor_bars(m, k, z, bars, i + 1);
        let x = factors_at(k, z, i);
        let now = chunk(z, k.d() as int, at);
        let rows = p.lower[at];
        let q = exponent_bar(m, k, z, bars, at);
        let f = correlation_source(value, k, p, z, a);
        assert(later.len() == k.n());
        noise_pairs(value, out[a], later, rows, a * n, now, k.n());
        assert(noise_terms(later, rows, a * n, now).take(n) =~= noise_terms(
            later,
            rows,
            a * n,
            now,
        ));
        assert(Seq::new(k.n(), |j: int| f(at, j)) =~= Seq::new(
            later.len(),
            |j: int| value(dot(rows[a * n + j], now)),
        ));
        regroups(
            value(q),
            value(k.vol_of_vol),
            value(dot(p.weights[a], x)) - value(p.centering[at][a]),
        );
    }
}

/// The derivative of a path with respect to a correlation of its volatility factors is the
/// adjoints of the loadings against their moves with that correlation, taken forward.
pub proof fn correlation_pullbacks_transpose<R: Scalar, L>(
    value: spec_fn(R) -> real,
    m: Model<R>,
    k: KernelView<R, L>,
    p: CorrelationReverseView<R>,
    z: Seq<R>,
    bars: Seq<R>,
    a: int,
)
    requires
        exact(value),
        0 <= a < edge_count(k.n()),
    ensures
        correlation_pullback(m, k, p, z, bars) matches Ok(out) ==> value(out[a]) == loadings_moved(
            value,
            m,
            k,
            z,
            bars,
            correlation_source(value, k, p, z, a),
            correlated_exponents(value, k, p, z, a),
            0,
        ),
{
    let source = correlation_source(value, k, p, z, a);
    correlations_swept(value, m, k, p, z, bars, a, 0);
    factors_transpose(value, m, k, z, bars, source, correlated_exponents(value, k, p, z, a), 0);
    against_nothing(
        value,
        factor_bars(m, k, z, bars, 0),
        factor_moves(value, k, source, 0),
        k.n(),
    );
}

/// The volatility of a step without a leverage surface is the initial one times the loading;
/// with one, it is squared the squared leverage times the loading squared.
pub proof fn volatilities_are_loaded<R: Scalar, N: KernelNumerics<R>>(
    value: spec_fn(R) -> real,
    m: Model<R>,
    o: N,
    k: KernelView<R, N::Surface>,
    sigma: R,
    grid: Seq<R>,
    state: BuehlerDividendState<R>,
    x: Seq<R>,
    i: int,
    squared: R,
)
    requires
        counts(m, value),
        roots(m, value),
        sees_nothing(value),
        value(squared) >= 0 as real,
    ensures
        k.leverage is None ==> (step_volatility(m, o, k, sigma, grid, state, x, i) matches Ok(v)
            ==> value(v) == value(sigma) * value(loading_of(m, k, x, i))),
        k.leverage matches Some(s) ==> o.squared_leverage_of(
            s,
            grid[i],
            times(o.initial_level_of(s), state.equity),
        ) == Some(squared) ==> (step_volatility(m, o, k, sigma, grid, state, x, i) matches Ok(v)
            ==> value(v) * value(v) == value(squared) * (value(loading_of(m, k, x, i)) * value(
            loading_of(m, k, x, i),
        ))),
{
    let l = value(loading_of(m, k, x, i));
    negates(l, 0 as real);
    let r = value(m.sqrt(squared));
    assert(r * r == value(squared));
    regroups(r, l, r * l);
    regroups(l, r, l);
    regroups(r, r, l * l);
    regroups(r, l, l);
    assert((r * l) * (r * l) == (r * r) * (l * l));
}

/// Without volatility of volatility a fractional driver leaves the initial volatility.
pub proof fn still_drivers_leave_the_volatility<R: Scalar>(
    value: spec_fn(R) -> real,
    m: Model<R>,
    k: RoughKernelView<R>,
    sigma: R,
    z: Seq<R>,
    i: int,
)
    requires
        exact(value),
        sees_nothing(value),
    ensures
        value(k.factor.vol_of_vol) == 0 as real ==> rough_volatility(m, k, sigma, z, i) == Ok::<
            R,
            MonteCarloError,
        >(sigma),
        rough_volatility(m, k, sigma, z, i) matches Ok(v) ==> value(k.factor.vol_of_vol)
            != 0 as real ==> value(v) == value(sigma) * value(
            rough_loading(m, k.factor.vol_of_vol, driver_of(m, k, z, i), k.variances[i]),
        ),
{
    negates(
        value(rough_loading(m, k.factor.vol_of_vol, driver_of(m, k, z, i), k.variances[i])),
        0 as real,
    );
}

/// The weights of two factors keep their norm as the mixing weight moves: their tangent is
/// orthogonal to them under the correlation of the factors, and turns them towards the second.
pub proof fn mixing_weights_keep_their_norm<R: Scalar>(
    value: spec_fn(R) -> real,
    m: Model<R>,
    weights: Seq<R>,
    theta: R,
    vv: R,
)
    requires
        counts(m, value),
        roots(m, value),
        value(weight_norm(theta, vv)) > 0 as real,
        value(weights[0]) * value(m.sqrt(weight_norm(theta, vv))) == 1 as real - value(theta),
        value(weights[1]) * value(m.sqrt(weight_norm(theta, vv))) == value(theta),
    ensures
        ({
            let t = weight_tangent(m, weights, theta, vv);
            let (a, b, c) = (value(weights[0]), value(weights[1]), value(vv));
            &&& (a + c * b) * value(t[0]) + (b + c * a) * value(t[1]) == 0 as real
            &&& (a * value(t[1]) - b * value(t[0])) * value(weight_norm(theta, vv)) == 1 as real
        }),
{
    let n = weight_norm(theta, vv);
    let (one, two) = (literal::<R>(1), literal::<R>(2));
    assert(value(one) == 1 as real && value(two) == 2 as real);
    let (q, s) = (value(n), value(m.sqrt(n)));
    assert(s * s == q);
    assert(s != 0 as real) by {
        if s == 0 as real {
            negates(s, 0 as real);
        }
    }
    let (a, b, c, h) = (value(weights[0]), value(weights[1]), value(vv), value(theta));
    let i = value(over(one, m.sqrt(n)));
    let j = value(over(negated(one), m.sqrt(n)));
    assert(i * s == 1 as real && j * s == -1 as real);
    negates(i, s);
    cancelled(j, -i, s);
    let slope = over(
        times(minus(literal(1), vv), minus(times(literal(2), theta), literal(1))),
        n,
    );
    let k = value(slope);
    assert(k * q == (1 as real - c) * (2 as real * h - 1 as real));
    let t = weight_tangent(m, weights, theta, vv);
    let (x, y) = (value(t[0]), value(t[1]));
    assert(x == -i - a * k);
    assert(y == i - b * k);
    spreads(s, a, b);
    cancelled(a + b, i, s);
    spreads(a, i, b * k);
    spreads(b, -i, a * k);
    negates(b, i);
    regroups(a, b, k);
    regroups(b, a, k);
    spreads(i, a, b);
    regroups(b, i, 1 as real);
    regroups(a, i, 1 as real);
    assert(a * y - b * x == i * i);
    regroups(i, i, s * s);
    regroups(i, s, s);
    regroups(i, i * s, s);
    assert((i * i) * q == 1 as real);
    let (e, f) = (a + c * b, b + c * a);
    let g = e * a + f * b;
    weights_have_norm_one(a, b, c, h, s, q, g);
    let d = b - a;
    spreads(s, b, a);
    assert(d * s == 2 as real * h - 1 as real) by {
        regroups(s, b, 1 as real);
        regroups(s, a, 1 as real);
        regroups(d, s, 1 as real);
    }
    let u = 1 as real - c;
    assert(f - e == u * d) by {
        spreads(d, 1 as real, c);
        spreads(c, b, a);
        regroups(u, d, 1 as real);
        assert(1 as real * d == d);
        regroups(c, d, 1 as real);
    }
    assert((u * d * i) * q == u * (d * s)) by {
        regroups(u * d, i, q);
        regroups(i, s, s);
        assert(i * q == s) by {
            regroups(i, s, s);
        }
        regroups(u, d, s);
    }
    assert(q != 0 as real);
    cancelled(u * d * i, k, q);
    spreads(e, -i, a * k);
    spreads(f, i, b * k);
    negates(e, i);
    spreads(i, f, e);
    regroups(f, i, 1 as real);
    regroups(e, i, 1 as real);
    regroups(e, a, k);
    regroups(f, b, k);
    spreads(k, e * a, f * b);
    regroups(f - e, i, 1 as real);
    assert(e * x == -(e * i) - (e * a) * k);
    assert(f * y == f * i - (f * b) * k);
    assert(g * k == (e * a) * k + (f * b) * k);
    assert(e * x + f * y == (f - e) * i - g * k);
}

proof fn weights_have_norm_one(a: real, b: real, c: real, h: real, s: real, q: real, g: real)
    requires
        a * s == 1 as real - h,
        b * s == h,
        s * s == q,
        q > 0 as real,
        q == (1 as real - 2 as real * h) * (1 as real - 2 as real * h) + (2 as real * h) * (
        1 as real - h) * (1 as real + c),
        g == (a + c * b) * a + (b + c * a) * b,
    ensures
        g == 1 as real,
{
    let (aa, ab, bb) = (a * a, a * b, b * b);
    spreads(a, a, c * b);
    spreads(b, b, c * a);
    regroups(c, b, a);
    regroups(c, a, b);
    assert(g == aa + bb + 2 as real * (c * ab));
    assert(aa * q == (a * s) * (a * s)) by (nonlinear_arith)
        requires
            aa == a * a,
            s * s == q,
    ;
    assert(bb * q == (b * s) * (b * s)) by (nonlinear_arith)
        requires
            bb == b * b,
            s * s == q,
    ;
    assert(ab * q == (a * s) * (b * s)) by (nonlinear_arith)
        requires
            ab == a * b,
            s * s == q,
    ;
    let p = 1 as real - h;
    regroups(c, ab, q);
    spreads(q, aa + bb, 2 as real * (c * ab));
    spreads(q, aa, bb);
    assert((2 as real * (c * ab)) * q == 2 as real * (c * (ab * q))) by (nonlinear_arith);
    assert(g * q == p * p + h * h + 2 as real * (c * (p * h)));
    assert((1 as real - 2 as real * h) * (1 as real - 2 as real * h) == 1 as real - 4 as real * h
        + 4 as real * (h * h)) by (nonlinear_arith);
    assert(p * p == 1 as real - 2 as real * h + h * h) by (nonlinear_arith)
        requires
            p == 1 as real - h,
    ;
    let ph = p * h;
    assert(ph == h - h * h) by (nonlinear_arith)
        requires
            ph == (1 as real - h) * h,
    ;
    assert((2 as real * h) * p * (1 as real + c) == 2 as real * ph + 2 as real * (c * ph))
        by (nonlinear_arith)
        requires
            ph == p * h,
    ;
    assert(g * q == q);
    assert(1 as real * q == q);
    cancelled(g, 1 as real, q);
}

} // verus!
