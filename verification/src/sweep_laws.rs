//! What a reverse sweep is: the transpose of the moves that it sweeps. Wherever the
//! parameters and the loadings of a path move, its adjoints against those moves are the seeds
//! of its spots against the moves of the spots, taken forward from the start.

use crate::affine_laws::pairing;
use crate::dynamics::DividendDynamics;
use crate::models::{BuehlerDividendModel, BuehlerDividendState};
use crate::reverse::{
    added_at, cash_at, node_added, node_swept, node_term, step_swept, swept, ContextView,
    DividendPathView, NodeJacobianView, SpotSeed, Sweep,
};
use crate::sampling::half;
use crate::scalar::{exact, literal, minus, negated, over, plus, same, times, Model, Scalar};
use crate::simulation_laws::counts;
use vstd::prelude::*;

verus! {

/// A product with a sum or a difference.
pub(crate) proof fn spreads(k: real, a: real, b: real)
    ensures
        k * (a + b) == k * a + k * b,
        (a + b) * k == a * k + b * k,
        k * (a - b) == k * a - k * b,
{
    assert(k * (a + b) == k * a + k * b) by (nonlinear_arith);
    assert((a + b) * k == a * k + b * k) by (nonlinear_arith);
    assert(k * (a - b) == k * a - k * b) by (nonlinear_arith);
}

/// A product of three numbers.
pub(crate) proof fn regroups(a: real, b: real, c: real)
    ensures
        (a * b) * c == a * (b * c),
        (a * b) * c == (a * c) * b,
        a * b == b * a,
{
    assert((a * b) * c == a * (b * c)) by (nonlinear_arith);
    assert((a * b) * c == (a * c) * b) by (nonlinear_arith);
    assert(a * b == b * a) by (nonlinear_arith);
}

/// A product with a number of the other sign, or with nothing.
pub(crate) proof fn negates(a: real, b: real)
    ensures
        a * (-b) == -(a * b),
        (-a) * b == -(a * b),
        a * (0 as real) == 0 as real,
        (0 as real) * a == 0 as real,
{
    assert(a * (-b) == -(a * b)) by (nonlinear_arith);
    assert((-a) * b == -(a * b)) by (nonlinear_arith);
    assert(a * (0 as real) == 0 as real) by (nonlinear_arith);
    assert((0 as real) * a == 0 as real) by (nonlinear_arith);
}

pub(crate) proof fn updated_pairing<R: Scalar>(
    value: spec_fn(R) -> real,
    a: Seq<R>,
    d: Seq<real>,
    at: int,
    x: R,
    n: nat,
)
    requires
        exact(value),
        n <= a.len(),
        0 <= at < a.len(),
    ensures
        pairing(value, a.update(at, plus(a[at], x)), d, n) == pairing(value, a, d, n) + (if at < n {
            value(x) * d[at]
        } else {
            0 as real
        }),
    decreases n,
{
    if n > 0 {
        updated_pairing(value, a, d, at, x, (n - 1) as nat);
        if at == n - 1 {
            let (p, q, r) = (value(a[at]), value(x), d[at]);
            spreads(r, p, q);
        }
    }
}

proof fn replaced_pairing<R: Scalar>(
    value: spec_fn(R) -> real,
    a: Seq<R>,
    d: Seq<real>,
    at: int,
    x: R,
    n: nat,
)
    requires
        n <= a.len(),
        0 <= at < a.len(),
        value(a[at]) == 0 as real,
    ensures
        pairing(value, a.update(at, x), d, n) == pairing(value, a, d, n) + (if at < n {
            value(x) * d[at]
        } else {
            0 as real
        }),
    decreases n,
{
    if n > 0 {
        replaced_pairing(value, a, d, at, x, (n - 1) as nat);
        if at == n - 1 {
            negates(d[at], 0 as real);
        }
    }
}

/// What the first `n` parameters of a node make of the move of its spot.
pub open spec fn jacobian_moves<R: Scalar>(
    value: spec_fn(R) -> real,
    jac: NodeJacobianView<R>,
    s: BuehlerDividendState<R>,
    parameters: Seq<real>,
    n: nat,
) -> real
    decreases n,
{
    if n == 0 {
        0 as real
    } else {
        let j = n - 1;
        jacobian_moves(value, jac, s, parameters, (n - 1) as nat) + (value(s.equity) * value(
            jac.equity[j],
        ) + value(s.dividend) * value(jac.dividend[j]) + value(jac.constant[j])) * parameters[j]
    }
}

/// What the parameters of the dividends that are paid at a node add to each other.
pub open spec fn paid_moves(indices: Seq<usize>, parameters: Seq<real>) -> real
    decreases indices.len(),
{
    if indices.len() == 0 {
        0 as real
    } else {
        paid_moves(indices.drop_last(), parameters) + parameters[indices.last() as int]
    }
}

/// How equity and dividends move.
pub ghost struct StateMove {
    pub equity: real,
    pub dividend: real,
}

/// How the spot after the dividend of a node moves: with the parameters that it is rebuilt
/// with, and with the state that it is rebuilt from.
pub open spec fn post_moves<R: Scalar>(
    value: spec_fn(R) -> real,
    path_equity: R,
    path_dividend: R,
    jac: NodeJacobianView<R>,
    s: BuehlerDividendState<R>,
    parameters: Seq<real>,
    at: StateMove,
) -> real {
    jacobian_moves(value, jac, s, parameters, jac.equity.len()) + value(path_equity) * at.equity
        + value(path_dividend) * at.dividend
}

/// By how much more the spot before the dividend of a node moves: by the dividend that is
/// paid there.
pub open spec fn dividend_moves<R: Scalar>(
    value: spec_fn(R) -> real,
    cash: R,
    jac: NodeJacobianView<R>,
    s: BuehlerDividendState<R>,
    parameters: Seq<real>,
    at: StateMove,
) -> real {
    value(s.dividend) * paid_moves(jac.event_indices, parameters) + value(cash) * at.dividend
}

proof fn indexed_pairing<R: Scalar>(
    value: spec_fn(R) -> real,
    out: Seq<R>,
    indices: Seq<usize>,
    x: R,
    d: Seq<real>,
)
    requires
        exact(value),
        forall|i: int| 0 <= i < indices.len() ==> #[trigger] indices[i] < out.len(),
    ensures
        added_at(out, indices, x).len() == out.len(),
        pairing(value, added_at(out, indices, x), d, out.len()) == pairing(
            value,
            out,
            d,
            out.len(),
        ) + value(x) * paid_moves(indices, d),
    decreases indices.len(),
{
    let y = value(x);
    if indices.len() > 0 {
        let fewer = indices.drop_last();
        assert forall|i: int| 0 <= i < fewer.len() implies #[trigger] fewer[i] < out.len() by {
            assert(indices[i] < out.len());
        }
        indexed_pairing(value, out, fewer, x, d);
        let before = added_at(out, fewer, x);
        assert(indices[indices.len() - 1] < out.len());
        updated_pairing(value, before, d, indices.last() as int, x, out.len());
        let (p, q) = (paid_moves(fewer, d), d[indices.last() as int]);
        spreads(y, p, q);
    } else {
        negates(y, 0 as real);
    }
}

proof fn termed_pairing<R: Scalar>(
    value: spec_fn(R) -> real,
    jac: NodeJacobianView<R>,
    s: BuehlerDividendState<R>,
    seed: SpotSeed<R>,
    out: Seq<R>,
    d: Seq<real>,
    n: nat,
)
    requires
        exact(value),
        n <= out.len(),
        jac.equity.len() <= out.len(),
    ensures
        pairing(
            value,
            Seq::new(
                out.len(),
                |j: int|
                    if j < jac.equity.len() {
                        plus(out[j], node_term(jac, s, seed, j))
                    } else {
                        out[j]
                    },
            ),
            d,
            n,
        ) == pairing(value, out, d, n) + (value(seed.post) + value(seed.pre)) * jacobian_moves(
            value,
            jac,
            s,
            d,
            if n <= jac.equity.len() {
                n
            } else {
                jac.equity.len()
            },
        ),
    decreases n,
{
    let f = |j: int|
        if j < jac.equity.len() {
            plus(out[j], node_term(jac, s, seed, j))
        } else {
            out[j]
        };
    let t = value(seed.post) + value(seed.pre);
    if n > 0 {
        termed_pairing(value, jac, s, seed, out, d, (n - 1) as nat);
        let j = n - 1;
        if j < jac.equity.len() {
            let g = value(s.equity) * value(jac.equity[j]) + value(s.dividend) * value(
                jac.dividend[j],
            ) + value(jac.constant[j]);
            assert(value(node_term(jac, s, seed, j)) == t * g);
            let (p, q, r) = (value(out[j]), d[j], jacobian_moves(value, jac, s, d, j as nat));
            spreads(q, p, t * g);
            spreads(t, r, g * q);
            regroups(t, g, q);
        }
    } else {
        negates(t, 0 as real);
    }
}

/// The adjoints of the sweep of a node are the transpose of the moves of its spots.
pub proof fn node_sweeps_transpose<R: Scalar, L>(
    value: spec_fn(R) -> real,
    path: DividendPathView<R, L>,
    i: int,
    jac: NodeJacobianView<R>,
    s: BuehlerDividendState<R>,
    seed: SpotSeed<R>,
    w: Sweep<R>,
    parameters: Seq<real>,
    at: StateMove,
)
    requires
        exact(value),
        jac.of(jac.equity.len()),
        jac.equity.len() <= w.out.len(),
    ensures
        ({
            let node = path.nodes[i];
            let v = node_swept(node, jac, s, seed, w);
            let n = w.out.len();
            let post = post_moves(
                value,
                node.equity_coefficient,
                node.dividend_coefficient,
                jac,
                s,
                parameters,
                at,
            );
            let more = dividend_moves(value, cash_at(node), jac, s, parameters, at);
            &&& v.out.len() == n && v.bars == w.bars
            &&& pairing(value, v.out, parameters, n) + value(v.equity) * at.equity + value(
                v.dividend,
            ) * at.dividend == pairing(value, w.out, parameters, n) + value(w.equity) * at.equity
                + value(w.dividend) * at.dividend + value(seed.post) * post + value(seed.pre) * (
            post + more)
        }),
{
    let node = path.nodes[i];
    let n = w.out.len();
    let f = |j: int|
        if j < jac.equity.len() {
            plus(w.out[j], node_term(jac, s, seed, j))
        } else {
            w.out[j]
        };
    let first = Seq::new(n, f);
    termed_pairing(value, jac, s, seed, w.out, parameters, n);
    let x = times(seed.pre, s.dividend);
    assert forall|k: int| 0 <= k < jac.event_indices.len() implies #[trigger] jac.event_indices[k]
        < first.len() by {}
    indexed_pairing(value, first, jac.event_indices, x, parameters);
    assert(node_added(jac, s, seed, w.out) == added_at(first, jac.event_indices, x));
    let (p, q) = (value(seed.post), value(seed.pre));
    let g = jacobian_moves(value, jac, s, parameters, jac.equity.len());
    let (a, b, c) = (
        value(node.equity_coefficient),
        value(node.dividend_coefficient),
        value(cash_at(node)),
    );
    let (e, d) = (at.equity, at.dividend);
    let (u, paid) = (value(s.dividend), paid_moves(jac.event_indices, parameters));
    let (we, wd) = (value(w.equity), value(w.dividend));
    let (ae, bd, cd, up) = (a * e, b * d, c * d, u * paid);
    spreads(e, we, (p + q) * a);
    regroups(p + q, a, e);
    spreads(ae, p, q);
    spreads(d, wd, (p + q) * b + q * c);
    spreads(d, (p + q) * b, q * c);
    regroups(p + q, b, d);
    spreads(bd, p, q);
    regroups(q, c, d);
    spreads(g, p, q);
    regroups(q, u, paid);
    let post = post_moves(
        value,
        node.equity_coefficient,
        node.dividend_coefficient,
        jac,
        s,
        parameters,
        at,
    );
    let more = dividend_moves(value, cash_at(node), jac, s, parameters, at);
    assert(post == g + ae + bd);
    assert(more == up + cd);
    spreads(p, g + ae, bd);
    spreads(p, g, ae);
    spreads(q, post, more);
    spreads(q, g + ae, bd);
    spreads(q, g, ae);
    spreads(q, up, cd);
}

/// The numbers of a step: the weights of what stays and of what reverts over half of it, the
/// growth of dividends and of equity by their noise, and the noise of either.
pub ghost struct StepNumbers<R> {
    pub stays: R,
    pub reverts: R,
    pub dividend_growth: R,
    pub equity_growth: R,
    pub root: R,
    pub dt: R,
    pub noised: R,
    pub dividend_volatility: R,
    pub dividend_normal: R,
    pub equity_volatility: R,
    pub equity_normal: R,
    pub second_normal: R,
    pub old_target: R,
    pub new_target: R,
}

/// The numbers of the step that ends in the node `i`.
pub open spec fn step_numbers<R: Scalar, L, Y: DividendDynamics<R>>(
    m: Model<R>,
    y: Y,
    path: DividendPathView<R, L>,
    loadings: Seq<R>,
    z: Seq<R>,
    states: Seq<BuehlerDividendState<R>>,
    i: int,
) -> StepNumbers<R> {
    let model = path.model;
    let rho = model.equity_dividend_correlation;
    let dt = minus(path.times[i], path.times[i - 1]);
    let root = m.sqrt(dt);
    let decays = y.decay_of(model.mean_reversion, times(half(), dt));
    let z0 = z[path.factors() * (i - 1)];
    let z1 = z[path.factors() * (i - 1) + 1];
    let v = times(model.dividend_volatility, root);
    let zd = plus(
        times(rho, z0),
        times(m.sqrt(times(minus(literal(1), rho), plus(literal(1), rho))), z1),
    );
    let u = times(
        if same(path.volatility, literal(0)) {
            literal(0)
        } else {
            times(path.volatility, loadings[i - 1])
        },
        root,
    );
    let growth = m.exp(plus(times(times(negated(half()), v), v), times(v, zd)));
    let old_target = y.target_of(model, states[i - 1].equity);
    StepNumbers {
        stays: decays.first,
        reverts: decays.second,
        dividend_growth: growth,
        equity_growth: m.exp(plus(times(times(negated(half()), u), u), times(u, z0))),
        root,
        dt,
        noised: times(y.blend_of(decays, states[i - 1].dividend, old_target), growth),
        dividend_volatility: v,
        dividend_normal: zd,
        equity_volatility: u,
        equity_normal: z0,
        second_normal: z1,
        old_target,
        new_target: y.target_of(model, states[i].equity),
    }
}

/// How a reversion over half a step moves: with what it reverts from and to, with the speed,
/// and with the linkage of the target to equity.
pub open spec fn reversion_moves<R: Scalar>(
    value: spec_fn(R) -> real,
    model: BuehlerDividendModel<R>,
    x: StepNumbers<R>,
    from: real,
    target: real,
    equity: real,
    from_moves: real,
    equity_moves: real,
    parameters: Seq<real>,
) -> real {
    value(x.stays) * from_moves + value(x.reverts) * value(model.equity_linkage) * equity_moves
        + value(x.reverts) * (equity - 1 as real) * parameters[3] - value(half::<R>()) * value(
        x.dt,
    ) * value(x.stays) * (from - target) * parameters[2]
}

/// How the equity at the end of a step moves: it grows as equity does, and with its
/// volatility and the loading of the step.
pub open spec fn equity_moves<R: Scalar, L>(
    value: spec_fn(R) -> real,
    path: DividendPathView<R, L>,
    x: StepNumbers<R>,
    equity: real,
    loading: real,
    loading_moves: real,
    parameters: Seq<real>,
    before: StateMove,
) -> real {
    value(x.equity_growth) * before.equity + equity * (value(x.equity_normal) - value(
        x.equity_volatility,
    )) * value(x.root) * (loading * parameters[1] + value(path.volatility) * loading_moves)
}

/// How the correlation of equity and dividends moves the normal of the dividends.
pub open spec fn correlation_slope<R: Scalar>(
    value: spec_fn(R) -> real,
    m: Model<R>,
    rho: R,
    x: StepNumbers<R>,
) -> real {
    value(x.equity_normal) - value(
        over(rho, m.sqrt(times(minus(literal(1), rho), plus(literal(1), rho)))),
    ) * value(x.second_normal)
}

/// How the state at the end of a step moves: the dividends revert, are moved by noise, and
/// revert again towards the equity that has moved.
pub open spec fn step_moves<R: Scalar, L, Y: DividendDynamics<R>>(
    value: spec_fn(R) -> real,
    m: Model<R>,
    y: Y,
    path: DividendPathView<R, L>,
    start: Option<usize>,
    loadings: Seq<R>,
    z: Seq<R>,
    states: Seq<BuehlerDividendState<R>>,
    i: int,
    parameters: Seq<real>,
    moves: Seq<real>,
    before: StateMove,
) -> StateMove {
    let x = step_numbers(m, y, path, loadings, z, states, i);
    let (old, now) = (states[i - 1], states[i]);
    let level = reversion_moves(
        value,
        path.model,
        x,
        value(old.dividend),
        value(x.old_target),
        value(old.equity),
        before.dividend,
        before.equity,
        parameters,
    );
    let noised = value(x.dividend_growth) * level + value(x.noised) * ((value(x.dividend_normal)
        - value(x.dividend_volatility)) * value(x.root) * parameters[4] + (match start {
        Some(at) => value(x.dividend_volatility) * correlation_slope(
            value,
            m,
            path.model.equity_dividend_correlation,
            x,
        ) * parameters[at as int],
        None => 0 as real,
    }));
    let equity = equity_moves(
        value,
        path,
        x,
        value(now.equity),
        value(loadings[i - 1]),
        moves[i - 1],
        parameters,
        before,
    );
    StateMove {
        equity,
        dividend: reversion_moves(
            value,
            path.model,
            x,
            value(x.noised),
            value(x.new_target),
            value(now.equity),
            noised,
            equity,
            parameters,
        ),
    }
}

/// How the state at the node `i` moves; the first does not.
pub open spec fn state_moves<R: Scalar, L, Y: DividendDynamics<R>>(
    value: spec_fn(R) -> real,
    m: Model<R>,
    y: Y,
    path: DividendPathView<R, L>,
    start: Option<usize>,
    loadings: Seq<R>,
    z: Seq<R>,
    states: Seq<BuehlerDividendState<R>>,
    i: nat,
    parameters: Seq<real>,
    moves: Seq<real>,
) -> StateMove
    decreases i,
{
    if i == 0 {
        StateMove { equity: 0 as real, dividend: 0 as real }
    } else {
        step_moves(
            value,
            m,
            y,
            path,
            start,
            loadings,
            z,
            states,
            i as int,
            parameters,
            moves,
            state_moves(
                value,
                m,
                y,
                path,
                start,
                loadings,
                z,
                states,
                (i - 1) as nat,
                parameters,
                moves,
            ),
        )
    }
}

/// The seeds of the nodes from `i` on against the moves of their spots.
pub open spec fn spots_moved<R: Scalar, L, Y: DividendDynamics<R>>(
    value: spec_fn(R) -> real,
    m: Model<R>,
    y: Y,
    k: ContextView<R>,
    path: DividendPathView<R, L>,
    loadings: Seq<R>,
    z: Seq<R>,
    states: Seq<BuehlerDividendState<R>>,
    seeds: Seq<SpotSeed<R>>,
    i: int,
    parameters: Seq<real>,
    moves: Seq<real>,
) -> real
    decreases states.len() - i,
{
    if i >= states.len() {
        0 as real
    } else {
        let at = state_moves(
            value,
            m,
            y,
            path,
            k.correlation_start,
            loadings,
            z,
            states,
            i as nat,
            parameters,
            moves,
        );
        let node = path.nodes[i];
        let post = post_moves(
            value,
            node.equity_coefficient,
            node.dividend_coefficient,
            k.nodes[i],
            states[i],
            parameters,
            at,
        );
        spots_moved(
            value,
            m,
            y,
            k,
            path,
            loadings,
            z,
            states,
            seeds,
            i + 1,
            parameters,
            moves,
        ) + value(seeds[i].post) * post + value(seeds[i].pre) * (post + dividend_moves(
            value,
            cash_at(node),
            k.nodes[i],
            states[i],
            parameters,
            at,
        ))
    }
}

pub(crate) proof fn reversion_transposes(
    d: real,
    a: real,
    b: real,
    al: real,
    h: real,
    dt: real,
    gap: real,
    far: real,
    from_moves: real,
    equity_moves: real,
    p2: real,
    p3: real,
)
    ensures
        d * (a * from_moves + b * al * equity_moves + b * far * p3 - h * dt * a * gap * p2) == (a
            * d) * from_moves + (b * al * d) * equity_moves + ((d * b) * far) * p3 + ((d * (-h * dt
            * a)) * gap) * p2,
{
    let (c, q) = (b * al, h * dt * a);
    let (r, s, t, u) = (a * from_moves, c * equity_moves, b * far * p3, q * gap * p2);
    spreads(d, r + s + t, u);
    spreads(d, r + s, t);
    spreads(d, r, s);
    regroups(d, a, from_moves);
    regroups(d, c, equity_moves);
    regroups(d, b * far, p3);
    regroups(d, b, far);
    regroups(d, q * gap, p2);
    regroups(d, q, gap);
    negates(h, dt);
    negates(h * dt, a);
    negates(d, q);
    negates(d * q, gap);
    negates((d * q) * gap, p2);
}

/// The adjoints of the sweep of a step are the transpose of its moves.
#[verifier::rlimit(60)]
#[verifier::spinoff_prover]
pub proof fn step_sweeps_transpose<R: Scalar, L, Y: DividendDynamics<R>>(
    value: spec_fn(R) -> real,
    m: Model<R>,
    y: Y,
    path: DividendPathView<R, L>,
    start: Option<usize>,
    loadings: Seq<R>,
    z: Seq<R>,
    states: Seq<BuehlerDividendState<R>>,
    i: int,
    w: Sweep<R>,
    parameters: Seq<real>,
    moves: Seq<real>,
    before: StateMove,
)
    requires
        exact(value),
        1 <= i <= w.bars.len(),
        w.out.len() >= 5,
        start matches Some(at) ==> at < w.out.len(),
        value(w.bars[i - 1]) == 0 as real,
    ensures
        ({
            let v = step_swept(m, y, path, start, loadings, z, states, i, w);
            let now = step_moves(
                value,
                m,
                y,
                path,
                start,
                loadings,
                z,
                states,
                i,
                parameters,
                moves,
                before,
            );
            let (n, l) = (w.out.len(), w.bars.len());
            &&& v.out.len() == n && v.bars.len() == l
            &&& forall|q: int| 0 <= q < l && q != i - 1 ==> #[trigger] v.bars[q] == w.bars[q]
            &&& pairing(value, v.out, parameters, n) + pairing(value, v.bars, moves, l) + value(
                v.equity,
            ) * before.equity + value(v.dividend) * before.dividend == pairing(
                value,
                w.out,
                parameters,
                n,
            ) + pairing(value, w.bars, moves, l) + value(w.equity) * now.equity + value(w.dividend)
                * now.dividend
        }),
{
    let x = step_numbers(m, y, path, loadings, z, states, i);
    let model = path.model;
    let rho = model.equity_dividend_correlation;
    let (now, old) = (states[i], states[i - 1]);
    let (n, l) = (w.out.len(), w.bars.len());
    let p = parameters;
    let noise_bar = times(x.stays, w.dividend);
    let next = plus(w.equity, times(times(x.reverts, model.equity_linkage), w.dividend));
    let level_bar = times(noise_bar, x.dividend_growth);
    let slope_stays = times(times(negated(half()), x.dt), x.stays);
    let t1 = times(times(w.dividend, slope_stays), minus(x.noised, x.new_target));
    let o1 = w.out.update(2, plus(w.out[2], t1));
    updated_pairing(value, w.out, p, 2, t1, n);
    let t2 = times(times(w.dividend, x.reverts), minus(now.equity, literal(1)));
    let o2 = o1.update(3, plus(o1[3], t2));
    updated_pairing(value, o1, p, 3, t2, n);
    let t3 = times(
        times(times(noise_bar, x.noised), minus(x.dividend_normal, x.dividend_volatility)),
        x.root,
    );
    let o3 = o2.update(4, plus(o2[4], t3));
    updated_pairing(value, o2, p, 4, t3, n);
    let slope = minus(
        x.equity_normal,
        times(
            over(rho, m.sqrt(times(minus(literal(1), rho), plus(literal(1), rho)))),
            x.second_normal,
        ),
    );
    let t4 = times(times(times(noise_bar, x.noised), x.dividend_volatility), slope);
    let o4 = match start {
        Some(at) => o3.update(at as int, plus(o3[at as int], t4)),
        None => o3,
    };
    if let Some(at) = start {
        updated_pairing(value, o3, p, at as int, t4, n);
    }
    let moved = times(
        times(times(next, now.equity), minus(x.equity_normal, x.equity_volatility)),
        x.root,
    );
    let t5 = times(moved, loadings[i - 1]);
    let o5 = o4.update(1, plus(o4[1], t5));
    updated_pairing(value, o4, p, 1, t5, n);
    let t6 = times(times(level_bar, slope_stays), minus(old.dividend, x.old_target));
    let o6 = o5.update(2, plus(o5[2], t6));
    updated_pairing(value, o5, p, 2, t6, n);
    let t7 = times(times(level_bar, x.reverts), minus(old.equity, literal(1)));
    let o7 = o6.update(3, plus(o6[3], t7));
    updated_pairing(value, o6, p, 3, t7, n);
    let bar = times(moved, path.volatility);
    replaced_pairing(value, w.bars, moves, i - 1, bar, l);
    let v = step_swept(m, y, path, start, loadings, z, states, i, w);
    assert(v.out == o7);
    assert(v.bars == w.bars.update(i - 1, bar));
    assert(v.equity == plus(
        times(next, x.equity_growth),
        times(times(level_bar, x.reverts), model.equity_linkage),
    ));
    assert(v.dividend == times(level_bar, x.stays));
    let (we, wd) = (value(w.equity), value(w.dividend));
    let (a, b, al) = (value(x.stays), value(x.reverts), value(model.equity_linkage));
    let (h, dt) = (value(half::<R>()), value(x.dt));
    let (ed, ef) = (value(x.dividend_growth), value(x.equity_growth));
    let (nb, nx, lb) = (value(noise_bar), value(next), value(level_bar));
    let after = step_moves(value, m, y, path, start, loadings, z, states, i, p, moves, before);
    let level = reversion_moves(
        value,
        model,
        x,
        value(old.dividend),
        value(x.old_target),
        value(old.equity),
        before.dividend,
        before.equity,
        p,
    );
    let c4 = (value(x.dividend_normal) - value(x.dividend_volatility)) * value(x.root) * p[4];
    let cs = match start {
        Some(at) => value(x.dividend_volatility) * correlation_slope(value, m, rho, x)
            * p[at as int],
        None => 0 as real,
    };
    let noised = ed * level + value(x.noised) * (c4 + cs);
    reversion_transposes(
        wd,
        a,
        b,
        al,
        h,
        dt,
        value(x.noised) - value(x.new_target),
        value(now.equity) - 1 as real,
        noised,
        after.equity,
        p[2],
        p[3],
    );
    reversion_transposes(
        lb,
        a,
        b,
        al,
        h,
        dt,
        value(old.dividend) - value(x.old_target),
        value(old.equity) - 1 as real,
        before.dividend,
        before.equity,
        p[2],
        p[3],
    );
    let g = value(x.noised);
    spreads(nb, ed * level, g * (c4 + cs));
    regroups(nb, ed, level);
    regroups(nb, g, c4 + cs);
    spreads(nb * g, c4, cs);
    let e = (value(x.equity_normal) - value(x.equity_volatility));
    let (r, f, ld, vol, dl) = (
        value(x.root),
        value(now.equity),
        value(loadings[i - 1]),
        value(path.volatility),
        moves[i - 1],
    );
    equity_transposes(nx, ef, before.equity, f, e, r, ld, p[1], vol, dl);
    noise_transposes(nb * g, value(x.dividend_normal) - value(x.dividend_volatility), r, p[4]);
    if let Some(at) = start {
        noise_transposes(
            nb * g,
            value(x.dividend_volatility),
            correlation_slope(value, m, rho, x),
            p[at as int],
        );
    }
    let c = b * al;
    spreads(after.equity, we, c * wd);
    spreads(before.equity, nx * ef, (lb * b) * al);
    regroups(lb, b, al);
    regroups(lb, c, before.equity);
    regroups(lb, a, before.dividend);
    negates(nb * g, 0 as real);
    assert(value(slope_stays) == -h * dt * a);
}

proof fn equity_transposes(
    nx: real,
    ef: real,
    de: real,
    f: real,
    e: real,
    r: real,
    ld: real,
    p1: real,
    vol: real,
    dl: real,
)
    ensures
        nx * (ef * de + f * e * r * (ld * p1 + vol * dl)) == (nx * ef) * de + ((((nx * f) * e) * r)
            * ld) * p1 + ((((nx * f) * e) * r) * vol) * dl,
{
    let c = f * e * r;
    let k = ((nx * f) * e) * r;
    let (x, y) = (ld * p1, vol * dl);
    regroups(nx, f, e);
    regroups(nx, f * e, r);
    spreads(nx, ef * de, c * (x + y));
    regroups(nx, ef, de);
    regroups(nx, c, x + y);
    spreads(nx * c, x, y);
    regroups(k, ld, p1);
    regroups(k, vol, dl);
}

pub(crate) proof fn noise_transposes(k: real, a: real, b: real, p: real)
    ensures
        k * (a * b * p) == ((k * a) * b) * p,
{
    regroups(k, a * b, p);
    regroups(k, a, b);
}

/// A sweep of a path is sized, and has left the bars of the steps that it has not come to.
proof fn sweeps_are_sized<R: Scalar, L, Y: DividendDynamics<R>>(
    value: spec_fn(R) -> real,
    m: Model<R>,
    y: Y,
    k: ContextView<R>,
    path: DividendPathView<R, L>,
    loadings: Seq<R>,
    z: Seq<R>,
    states: Seq<BuehlerDividendState<R>>,
    seeds: Seq<SpotSeed<R>>,
    payoff: R,
    i: int,
    parameters: Seq<real>,
    moves: Seq<real>,
)
    requires
        counts(m, value),
        sweepable(k, path, states),
        0 <= i <= states.len(),
    ensures
        ({
            let w = swept(m, y, k, path, loadings, z, states, seeds, payoff, i);
            &&& w.out.len() == k.payment_weights.len()
            &&& w.bars.len() == states.len() - 1
            &&& forall|q: int| 0 <= q < i - 1 && q < w.bars.len() ==> value(#[trigger] w.bars[q])
                == 0 as real
            &&& pairing(value, w.out, parameters, w.out.len()) + pairing(
                value,
                w.bars,
                moves,
                w.bars.len(),
            ) + (if i == 0 {
                0 as real
            } else {
                let at = state_moves(
                    value,
                    m,
                    y,
                    path,
                    k.correlation_start,
                    loadings,
                    z,
                    states,
                    (i - 1) as nat,
                    parameters,
                    moves,
                );
                value(w.equity) * at.equity + value(w.dividend) * at.dividend
            }) == value(payoff) * pairing(
                value,
                k.payment_weights,
                parameters,
                k.payment_weights.len(),
            ) + spots_moved(
                value,
                m,
                y,
                k,
                path,
                loadings,
                z,
                states,
                seeds,
                i,
                parameters,
                moves,
            )
        }),
    decreases states.len() - i,
{
    let n = k.payment_weights.len();
    if i >= states.len() {
        let w = swept(m, y, k, path, loadings, z, states, seeds, payoff, i);
        payment_pairs(value, k.payment_weights, payoff, parameters, n);
        nothing_pairs(value, w.bars, moves, w.bars.len());
        let at = state_moves(
            value,
            m,
            y,
            path,
            k.correlation_start,
            loadings,
            z,
            states,
            (i - 1) as nat,
            parameters,
            moves,
        );
        negates(at.equity, 0 as real);
        negates(at.dividend, 0 as real);
    } else {
        sweeps_are_sized(
            value,
            m,
            y,
            k,
            path,
            loadings,
            z,
            states,
            seeds,
            payoff,
            i + 1,
            parameters,
            moves,
        );
        let later = swept(m, y, k, path, loadings, z, states, seeds, payoff, i + 1);
        let at = state_moves(
            value,
            m,
            y,
            path,
            k.correlation_start,
            loadings,
            z,
            states,
            i as nat,
            parameters,
            moves,
        );
        let here = node_swept(path.nodes[i], k.nodes[i], states[i], seeds[i], later);
        node_sweeps_transpose(
            value,
            path,
            i,
            k.nodes[i],
            states[i],
            seeds[i],
            later,
            parameters,
            at,
        );
        if i > 0 {
            let before = state_moves(
                value,
                m,
                y,
                path,
                k.correlation_start,
                loadings,
                z,
                states,
                (i - 1) as nat,
                parameters,
                moves,
            );
            assert(value(later.bars[i - 1]) == 0 as real);
            step_sweeps_transpose(
                value,
                m,
                y,
                path,
                k.correlation_start,
                loadings,
                z,
                states,
                i,
                here,
                parameters,
                moves,
                before,
            );
        } else {
            negates(value(here.equity), 0 as real);
            negates(value(here.dividend), 0 as real);
        }
    }
}

/// The nodes and the parameters of a context are those of the path.
pub open spec fn sweepable<R, L>(
    k: ContextView<R>,
    path: DividendPathView<R, L>,
    states: Seq<BuehlerDividendState<R>>,
) -> bool {
    &&& states.len() >= 1
    &&& k.nodes.len() == states.len()
    &&& path.nodes.len() == states.len()
    &&& k.payment_weights.len() >= 5
    &&& k.correlation_start matches Some(at) ==> at < k.payment_weights.len()
    &&& forall|i: int|
        0 <= i < states.len() ==> (#[trigger] k.nodes[i]).of(k.nodes[i].equity.len())
            && k.nodes[i].equity.len() <= k.payment_weights.len()
}

pub(crate) proof fn payment_pairs<R: Scalar>(
    value: spec_fn(R) -> real,
    weights: Seq<R>,
    payoff: R,
    d: Seq<real>,
    n: nat,
)
    requires
        exact(value),
        n <= weights.len(),
    ensures
        pairing(value, Seq::new(weights.len(), |j: int| times(payoff, weights[j])), d, n) == value(
            payoff,
        ) * pairing(value, weights, d, n),
    decreases n,
{
    let p = value(payoff);
    if n > 0 {
        payment_pairs(value, weights, payoff, d, (n - 1) as nat);
        let (a, b, c) = (
            pairing(value, weights, d, (n - 1) as nat),
            value(weights[n - 1]),
            d[n - 1],
        );
        spreads(p, a, b * c);
        regroups(p, b, c);
    } else {
        negates(p, 0 as real);
    }
}

proof fn nothing_pairs<R: Scalar>(value: spec_fn(R) -> real, a: Seq<R>, d: Seq<real>, n: nat)
    requires
        n <= a.len(),
        forall|i: int| 0 <= i < n ==> value(#[trigger] a[i]) == 0 as real,
    ensures
        pairing(value, a, d, n) == 0 as real,
    decreases n,
{
    if n > 0 {
        nothing_pairs(value, a, d, (n - 1) as nat);
        assert(value(a[n - 1]) == 0 as real);
        negates(d[n - 1], 0 as real);
    }
}

/// The adjoints of a whole path are the transpose of its moves: against any move of the
/// parameters and of the loadings, they are the payoff against the move of the payment and the
/// seeds against the moves of the spots.
pub proof fn path_sweeps_transpose<R: Scalar, L, Y: DividendDynamics<R>>(
    value: spec_fn(R) -> real,
    m: Model<R>,
    y: Y,
    k: ContextView<R>,
    path: DividendPathView<R, L>,
    loadings: Seq<R>,
    z: Seq<R>,
    states: Seq<BuehlerDividendState<R>>,
    seeds: Seq<SpotSeed<R>>,
    payoff: R,
    parameters: Seq<real>,
    moves: Seq<real>,
)
    requires
        counts(m, value),
        sweepable(k, path, states),
    ensures
        ({
            let w = swept(m, y, k, path, loadings, z, states, seeds, payoff, 0);
            pairing(value, w.out, parameters, k.payment_weights.len()) + pairing(
                value,
                w.bars,
                moves,
                (states.len() - 1) as nat,
            ) == value(payoff) * pairing(
                value,
                k.payment_weights,
                parameters,
                k.payment_weights.len(),
            ) + spots_moved(
                value,
                m,
                y,
                k,
                path,
                loadings,
                z,
                states,
                seeds,
                0,
                parameters,
                moves,
            )
        }),
{
    sweeps_are_sized(
        value,
        m,
        y,
        k,
        path,
        loadings,
        z,
        states,
        seeds,
        payoff,
        0,
        parameters,
        moves,
    );
}

} // verus!
