//! What the adjoints of dividends that are paid out of the spot are: the transpose of how
//! the spots move with the equity and with the curves, and proportional to what they are
//! multiplied by. Both hold of numbers that are added and multiplied exactly.

use crate::affine::{
    affine_adjoints_of, affine_path_of, affine_swept, after_offset, before_offset, growth_of,
    pillars_after, spot_total, AffineAdjointsView, AffinePathView, AffineView, HybridState,
};
use crate::errors::MonteCarloError;
use crate::paid_market::PaidMarket;
use crate::reverse::SpotSeed;
use crate::sampling::zeros;
use crate::scalar::{exact, literal, minus, negated, over, plus, times, Model, Scalar};
use vstd::prelude::*;

verus! {

/// The first `n` numbers against a direction.
pub open spec fn pairing<R>(value: spec_fn(R) -> real, a: Seq<R>, d: Seq<real>, n: nat) -> real
    decreases n,
{
    if n == 0 {
        0 as real
    } else {
        pairing(value, a, d, (n - 1) as nat) + value(a[n - 1]) * d[n - 1]
    }
}

/// How the equity and the logarithm of the carry move at each node.
pub ghost struct Direction {
    pub equity: Seq<real>,
    pub carry: Seq<real>,
}

/// How the growth into the node `i` moves: by its own size, with the carry over the step.
pub open spec fn growth_moves<R: Scalar>(
    value: spec_fn(R) -> real,
    m: Model<R>,
    p: AffineView<R>,
    states: Seq<HybridState<R>>,
    d: Direction,
    i: int,
) -> real {
    if i <= 0 {
        0 as real
    } else {
        value(growth_of(m, p, states, i)) * (d.carry[i] - d.carry[i - 1])
    }
}

/// How the amounts paid before the node `i` move there.
pub open spec fn before_moves<R: Scalar>(
    value: spec_fn(R) -> real,
    m: Model<R>,
    p: AffineView<R>,
    states: Seq<HybridState<R>>,
    d: Direction,
    i: int,
) -> real
    decreases i, 0int,
{
    if i <= 0 {
        0 as real
    } else {
        after_moves(value, m, p, states, d, i - 1) * value(growth_of(m, p, states, i)) + value(
            after_offset(m, p, states, i - 1),
        ) * growth_moves(value, m, p, states, d, i)
    }
}

/// How the offset of the spot after the dividend of the node `i` moves.
pub open spec fn after_moves<R: Scalar>(
    value: spec_fn(R) -> real,
    m: Model<R>,
    p: AffineView<R>,
    states: Seq<HybridState<R>>,
    d: Direction,
    i: int,
) -> real
    decreases i, 1int,
{
    let before = before_moves(value, m, p, states, d, i);
    match p.events[i] {
        Some(e) => (1 as real - value(e.beta)) * before,
        None => before,
    }
}

/// How the spot after the dividend of the node `i` moves. Its scale moves by its own size,
/// with the carry.
pub open spec fn post_moves<R: Scalar>(
    value: spec_fn(R) -> real,
    m: Model<R>,
    p: AffineView<R>,
    states: Seq<HybridState<R>>,
    d: Direction,
    i: int,
) -> real {
    value(p.scales[i]) * d.carry[i] * value(states[i].normalized_equity) + value(p.scales[i])
        * d.equity[i] + after_moves(value, m, p, states, d, i)
}

/// How the spot before the dividend of the node `i` moves, where one is paid.
pub open spec fn pre_moves<R: Scalar>(
    value: spec_fn(R) -> real,
    m: Model<R>,
    p: AffineView<R>,
    states: Seq<HybridState<R>>,
    d: Direction,
    i: int,
) -> real {
    match p.events[i] {
        Some(e) => post_moves(value, m, p, states, d, i) / (1 as real - value(e.beta)),
        None => 0 as real,
    }
}

/// How what the seeds weigh moves, multiplied, at the nodes from `i` on.
pub open spec fn seeds_move<R: Scalar>(
    value: spec_fn(R) -> real,
    m: Model<R>,
    p: AffineView<R>,
    states: Seq<HybridState<R>>,
    seeds: Seq<SpotSeed<R>>,
    multiplier: R,
    d: Direction,
    i: int,
) -> real
    decreases p.grid.len() - i,
{
    if i >= p.grid.len() {
        0 as real
    } else {
        seeds_move(value, m, p, states, seeds, multiplier, d, i + 1) + value(multiplier) * (value(
            seeds[i].post,
        ) * post_moves(value, m, p, states, d, i) + value(seeds[i].pre) * pre_moves(
            value,
            m,
            p,
            states,
            d,
            i,
        ))
    }
}

/// No dividend takes all of the spot.
pub open spec fn shares_remain<R: Scalar>(value: spec_fn(R) -> real, p: AffineView<R>) -> bool {
    forall|i: int|
        0 <= i < p.events.len() ==> (#[trigger] p.events[i] matches Some(e) ==> value(e.beta)
            != 1 as real)
}

proof fn pairing_updated<R>(
    value: spec_fn(R) -> real,
    a: Seq<R>,
    d: Seq<real>,
    i: int,
    x: R,
    n: nat,
)
    requires
        0 <= i < a.len(),
        n <= a.len(),
    ensures
        pairing(value, a.update(i, x), d, n) == pairing(value, a, d, n) + (if i < n {
            (value(x) - value(a[i])) * d[i]
        } else {
            0 as real
        }),
    decreases n,
{
    if n > 0 {
        pairing_updated(value, a, d, i, x, (n - 1) as nat);
        if i == n - 1 {
            let (p, q, r) = (value(x), value(a[i]), d[i]);
            assert(p * r == q * r + (p - q) * r) by (nonlinear_arith);
        }
    }
}

proof fn pairing_of_zeros<R: Scalar>(value: spec_fn(R) -> real, d: Seq<real>, k: nat, n: nat)
    requires
        exact(value),
        n <= k,
    ensures
        pairing(value, zeros(k), d, n) == 0 as real,
    decreases n,
{
    if n > 0 {
        pairing_of_zeros(value, d, k, (n - 1) as nat);
        let r = d[n - 1];
        assert(zeros::<R>(k)[n - 1] == literal::<R>(0));
        assert((0 as real) * r == 0 as real) by (nonlinear_arith);
    }
}

proof fn share_of_a_sum(s: real, q: real, before: real)
    ensures
        (s * q) * before == s * (q * before),
{
    assert((s * q) * before == s * (q * before)) by (nonlinear_arith);
}

proof fn weighed_steps(k: real, after: real, g: real, da: real, c: real, b: real)
    ensures
        k * (after * g) * (c - b) + (k * g) * da == k * (da * g + after * (g * (c - b))),
{
    assert(k * (after * g) * (c - b) == k * (after * (g * (c - b)))) by (nonlinear_arith);
    assert((k * g) * da == k * (da * g)) by (nonlinear_arith);
    let (x, y) = (da * g, after * (g * (c - b)));
    assert(k * y + k * x == k * (x + y)) by (nonlinear_arith);
}

proof fn weighed_spots(post: real, pre: real, q: real, over: real, k: real, moved: real)
    requires
        q != 0 as real,
        over * q == pre,
    ensures
        k * (post * moved + pre * (moved / q)) == ((post + over) * k) * moved,
{
    let share = moved / q;
    assert(share * q == moved) by (nonlinear_arith)
        requires
            q != 0 as real,
            share == moved / q,
    ;
    assert(pre * share == over * moved) by (nonlinear_arith)
        requires
            over * q == pre,
            share * q == moved,
    ;
    assert(k * (post * moved + over * moved) == ((post + over) * k) * moved) by (nonlinear_arith);
}

proof fn weighed_parts(t: real, s: real, c: real, x: real, e: real, a: real)
    ensures
        t * (s * c * x + s * e + a) == (t * s) * x * c + (t * s) * e + t * a,
{
    assert(t * (s * c * x) == (t * s) * x * c) by (nonlinear_arith);
    assert(t * (s * e) == (t * s) * e) by (nonlinear_arith);
    let (u, v) = (s * c * x, s * e);
    assert(t * (u + v + a) == t * u + t * v + t * a) by (nonlinear_arith);
}

/// What the seeds of a node weigh is its total against the move of its spot.
proof fn total_weighs_the_spot<R: Scalar>(
    value: spec_fn(R) -> real,
    m: Model<R>,
    p: AffineView<R>,
    states: Seq<HybridState<R>>,
    seeds: Seq<SpotSeed<R>>,
    multiplier: R,
    d: Direction,
    i: int,
)
    requires
        exact(value),
        shares_remain(value, p),
        0 <= i < p.grid.len() == p.events.len(),
        spot_total(m, p.events[i], seeds[i], multiplier, i) is Ok,
    ensures
        seeds_move(value, m, p, states, seeds, multiplier, d, i) == seeds_move(
            value,
            m,
            p,
            states,
            seeds,
            multiplier,
            d,
            i + 1,
        ) + value(spot_total(m, p.events[i], seeds[i], multiplier, i)->Ok_0) * post_moves(
            value,
            m,
            p,
            states,
            d,
            i,
        ),
{
    let moved = post_moves(value, m, p, states, d, i);
    let (post, pre, k) = (value(seeds[i].post), value(seeds[i].pre), value(multiplier));
    match p.events[i] {
        Some(e) => {
            let left = minus(literal(1), e.beta);
            assert(value(left) == 1 as real - value(e.beta));
            let part = over(seeds[i].pre, left);
            assert(value(part) * value(left) == pre);
            weighed_spots(post, pre, value(left), value(part), k, moved);
            assert(value(plus(seeds[i].post, part)) == post + value(part));
            assert(value(times(plus(seeds[i].post, part), multiplier)) == (post + value(part))
                * k);
        },
        None => {
            assert(value(times(seeds[i].post, multiplier)) == post * k);
            assert(k * (post * moved + pre * (0 as real)) == (post * k) * moved)
                by (nonlinear_arith);
        },
    }
}

/// What the adjoint of the offset after a dividend weighs is what the adjoint before it
/// does, and that is spread over the step into the node.
proof fn offset_weighs_the_step<R: Scalar>(
    value: spec_fn(R) -> real,
    m: Model<R>,
    p: AffineView<R>,
    states: Seq<HybridState<R>>,
    d: Direction,
    seed: R,
    i: int,
)
    requires
        exact(value),
        0 <= i < p.events.len(),
    ensures
        ({
            let kept = match p.events[i] {
                Some(e) => times(seed, minus(literal(1), e.beta)),
                None => seed,
            };
            value(seed) * after_moves(value, m, p, states, d, i) == (if i > 0 {
                value(times(kept, before_offset(m, p, states, i))) * (d.carry[i] - d.carry[i - 1])
                    + value(times(kept, growth_of(m, p, states, i))) * after_moves(
                    value,
                    m,
                    p,
                    states,
                    d,
                    i - 1,
                )
            } else {
                0 as real
            })
        }),
{
    let before = before_moves(value, m, p, states, d, i);
    let s = value(seed);
    let kept = match p.events[i] {
        Some(e) => times(seed, minus(literal(1), e.beta)),
        None => seed,
    };
    match p.events[i] {
        Some(e) => {
            let q = 1 as real - value(e.beta);
            assert(value(minus(literal(1), e.beta)) == q);
            assert(value(kept) == s * q);
            share_of_a_sum(s, q, before);
        },
        None => {},
    }
    assert(s * after_moves(value, m, p, states, d, i) == value(kept) * before);
    let k = value(kept);
    if i > 0 {
        let g = growth_of(m, p, states, i);
        let after = after_offset(m, p, states, i - 1);
        let (c, b) = (d.carry[i], d.carry[i - 1]);
        let da = after_moves(value, m, p, states, d, i - 1);
        assert(value(before_offset(m, p, states, i)) == value(after) * value(g));
        assert(value(times(kept, before_offset(m, p, states, i))) == k * (value(after)
            * value(g)));
        assert(value(times(kept, g)) == k * value(g));
        weighed_steps(k, value(after), value(g), da, c, b);
    } else {
        assert(k * (0 as real) == 0 as real) by (nonlinear_arith);
    }
}

/// The adjoints out of the nodes from `i` on weigh a direction as the seeds there do, the
/// rest standing in the offset.
#[verifier::spinoff_prover]
#[verifier::rlimit(40)]
proof fn sweep_is_the_transpose<R: Scalar>(
    value: spec_fn(R) -> real,
    m: Model<R>,
    p: AffineView<R>,
    path: AffinePathView<R>,
    states: Seq<HybridState<R>>,
    seeds: Seq<SpotSeed<R>>,
    multiplier: R,
    d: Direction,
    i: int,
)
    requires
        exact(value),
        p.valid(),
        shares_remain(value, p),
        affine_path_of(m, p, states) == Ok::<AffinePathView<R>, MonteCarloError>(path),
        0 <= i <= p.grid.len(),
    ensures
        affine_swept(m, p, path, states, seeds, multiplier, i) matches Ok(w) ==> {
            &&& w.equity.len() == p.grid.len()
            &&& w.carry.len() == p.grid.len()
            &&& forall|j: int| 0 <= j < i ==> #[trigger] w.equity[j] == literal::<R>(0)
            &&& pairing(value, w.equity, d.equity, p.grid.len()) + pairing(
                value,
                w.carry,
                d.carry,
                p.grid.len(),
            ) + (if i > 0 {
                value(w.offset) * after_moves(value, m, p, states, d, i - 1)
            } else {
                0 as real
            }) == seeds_move(value, m, p, states, seeds, multiplier, d, i)
        },
    decreases p.grid.len() - i,
{
    let n = p.grid.len();
    if i == n {
        pairing_of_zeros(value, d.equity, n, n);
        pairing_of_zeros(value, d.carry, n, n);
        let x = after_moves(value, m, p, states, d, i - 1);
        assert((0 as real) * x == 0 as real) by (nonlinear_arith);
    } else {
        sweep_is_the_transpose(value, m, p, path, states, seeds, multiplier, d, i + 1);
        if affine_swept(m, p, path, states, seeds, multiplier, i) is Ok {
            let w = affine_swept(m, p, path, states, seeds, multiplier, i + 1)->Ok_0;
            let v = affine_swept(m, p, path, states, seeds, multiplier, i)->Ok_0;
            let total = spot_total(m, p.events[i], seeds[i], multiplier, i)->Ok_0;
            let t = value(total);
            let s = value(p.scales[i]);
            let x = value(states[i].normalized_equity);
            let equity = times(total, p.scales[i]);
            let part = times(equity, states[i].normalized_equity);
            let seed = plus(w.offset, total);
            let kept = match p.events[i] {
                Some(e) => times(seed, minus(literal(1), e.beta)),
                None => seed,
            };
            total_weighs_the_spot(value, m, p, states, seeds, multiplier, d, i);
            offset_weighs_the_step(value, m, p, states, d, seed, i);
            let after = after_moves(value, m, p, states, d, i);
            weighed_parts(t, s, d.carry[i], x, d.equity[i], after);
            assert(value(seed) == value(w.offset) + t);
            let o = value(w.offset);
            assert((o + t) * after == o * after + t * after) by (nonlinear_arith);
            // The equity of the node.
            assert(w.equity[i] == literal::<R>(0));
            assert(value(equity) == t * s);
            pairing_updated(value, w.equity, d.equity, i, equity, n);
            assert((t * s - 0 as real) * d.equity[i] == (t * s) * d.equity[i]);
            // The carry of the node.
            let c1 = plus(w.carry[i], part);
            assert(value(c1) - value(w.carry[i]) == (t * s) * x);
            let carried = w.carry.update(i, c1);
            pairing_updated(value, w.carry, d.carry, i, c1, n);
            if i > 0 {
                let weight = times(kept, path.before_offsets[i]);
                assert(path.before_offsets[i] == before_offset(m, p, states, i));
                assert(path.growth[i] == growth_of(m, p, states, i));
                let c2 = plus(carried[i], weight);
                let here = carried.update(i, c2);
                pairing_updated(value, carried, d.carry, i, c2, n);
                let c3 = minus(here[i - 1], weight);
                pairing_updated(value, here, d.carry, i - 1, c3, n);
                assert(value(c2) - value(carried[i]) == value(weight));
                assert(value(c3) - value(here[i - 1]) == -value(weight));
                let (k, c, b) = (value(weight), d.carry[i], d.carry[i - 1]);
                assert(k * c + (-k) * b == k * (c - b)) by (nonlinear_arith);
                assert(v.carry == here.update(i - 1, c3));
            } else {
                assert(v.carry == carried);
            }
            assert(v.equity == w.equity.update(i, equity));
        }
    }
}

/// How a curve moves at a time when its pillars do is what seeds at that time are
/// transposed by.
pub open spec fn transposes<R: Scalar>(
    value: spec_fn(R) -> real,
    transposed: spec_fn(R, R, Seq<R>) -> Result<Seq<R>, MonteCarloError>,
    pillars: Seq<real>,
    moves: spec_fn(R) -> real,
) -> bool {
    forall|time: R, seed: R, out: Seq<R>|
        #[trigger] transposed(time, seed, out) matches Ok(v) ==> pairing(
            value,
            v,
            pillars,
            pillars.len(),
        ) == pairing(value, out, pillars, pillars.len()) + value(seed) * moves(time)
}

/// How both curves move with their pillars.
#[verifier::reject_recursive_types(R)]
pub ghost struct CurveMoves<R> {
    pub discount_pillars: Seq<real>,
    pub discount: spec_fn(R) -> real,
    pub dividend_pillars: Seq<real>,
    pub dividend: spec_fn(R) -> real,
}

impl<R: Scalar> CurveMoves<R> {
    /// The pillars are those of a market, which transposes seeds by these moves.
    pub open spec fn of<C: PaidMarket<R>>(self, value: spec_fn(R) -> real, c: C) -> bool {
        &&& self.discount_pillars.len() == c.discount_pillars_of().len()
        &&& self.dividend_pillars.len() == c.dividend_pillars_of().len()
        &&& transposes(
            value,
            |time: R, seed: R, out: Seq<R>| c.discount_transposed(time, seed, out),
            self.discount_pillars,
            self.discount,
        )
        &&& transposes(
            value,
            |time: R, seed: R, out: Seq<R>| c.dividend_transposed(time, seed, out),
            self.dividend_pillars,
            self.dividend,
        )
    }

    /// How the logarithm of the carry moves on a grid: with the dividends, against the
    /// discounts.
    pub open spec fn carry(self, grid: Seq<R>) -> Seq<real> {
        Seq::new(grid.len(), |i: int| (self.dividend)(grid[i]) - (self.discount)(grid[i]))
    }
}

proof fn pillars_are_the_transpose<R: Scalar, C: PaidMarket<R>>(
    value: spec_fn(R) -> real,
    c: C,
    curves: CurveMoves<R>,
    grid: Seq<R>,
    carry: Seq<R>,
    n: nat,
)
    requires
        exact(value),
        curves.of(value, c),
        n <= grid.len(),
    ensures
        pillars_after(c, grid, carry, n) matches Ok((discount, dividend)) ==> pairing(
            value,
            discount,
            curves.discount_pillars,
            curves.discount_pillars.len(),
        ) + pairing(value, dividend, curves.dividend_pillars, curves.dividend_pillars.len())
            == pairing(value, carry, curves.carry(grid), n),
    decreases n,
{
    if n == 0 {
        let (a, b) = (curves.discount_pillars, curves.dividend_pillars);
        pairing_of_zeros(value, a, a.len(), a.len());
        pairing_of_zeros(value, b, b.len(), b.len());
    } else {
        pillars_are_the_transpose(value, c, curves, grid, carry, (n - 1) as nat);
        if pillars_after(c, grid, carry, n) is Ok {
            let t = grid[n - 1];
            let x = carry[n - 1];
            let (p, q) = pillars_after(c, grid, carry, (n - 1) as nat)->Ok_0;
            let f = |time: R, seed: R, out: Seq<R>| c.discount_transposed(time, seed, out);
            let g = |time: R, seed: R, out: Seq<R>| c.dividend_transposed(time, seed, out);
            assert(f(t, negated(x), p) is Ok);
            assert(g(t, x, q) is Ok);
            assert(value(negated(x)) == -value(x));
            let (k, a, b) = (value(x), (curves.discount)(t), (curves.dividend)(t));
            assert((-k) * a + k * b == k * (b - a)) by (nonlinear_arith);
            assert(curves.carry(grid)[n - 1] == b - a);
        }
    }
}

/// The adjoints are the transpose of how the spots move: whatever way the equity and the
/// pillars of both curves move, the adjoints weigh that move as the seeds, multiplied,
/// weigh the move of the spots.
pub proof fn adjoints_are_the_transpose<R: Scalar, C: PaidMarket<R>>(
    value: spec_fn(R) -> real,
    m: Model<R>,
    c: C,
    p: AffineView<R>,
    states: Seq<HybridState<R>>,
    seeds: Seq<SpotSeed<R>>,
    multiplier: R,
    equity: Seq<real>,
    curves: CurveMoves<R>,
)
    requires
        exact(value),
        p.valid(),
        shares_remain(value, p),
        curves.of(value, c),
    ensures
        affine_path_of(m, p, states) matches Ok(path) ==> (affine_adjoints_of(
            m,
            c,
            p,
            path,
            states,
            seeds,
            multiplier,
        ) matches Ok(a) ==> pairing(value, a.equity, equity, p.grid.len()) + pairing(
            value,
            a.discount_log_df,
            curves.discount_pillars,
            curves.discount_pillars.len(),
        ) + pairing(
            value,
            a.dividend_log_df,
            curves.dividend_pillars,
            curves.dividend_pillars.len(),
        ) == seeds_move(
            value,
            m,
            p,
            states,
            seeds,
            multiplier,
            (Direction { equity, carry: curves.carry(p.grid) }),
            0,
        )),
{
    if let Ok(path) = affine_path_of(m, p, states) {
        let d = Direction { equity, carry: curves.carry(p.grid) };
        if affine_adjoints_of(m, c, p, path, states, seeds, multiplier) is Ok {
            let w = affine_swept(m, p, path, states, seeds, multiplier, 0)->Ok_0;
            sweep_is_the_transpose(value, m, p, path, states, seeds, multiplier, d, 0);
            pillars_are_the_transpose(value, c, curves, p.grid, w.carry, p.grid.len());
        }
    }
}

proof fn equity_of_a_node<R: Scalar>(
    m: Model<R>,
    p: AffineView<R>,
    path: AffinePathView<R>,
    states: Seq<HybridState<R>>,
    seeds: Seq<SpotSeed<R>>,
    multiplier: R,
    i: int,
    j: int,
)
    requires
        0 <= i <= p.grid.len(),
        0 <= j < p.grid.len(),
        affine_swept(m, p, path, states, seeds, multiplier, i) is Ok,
    ensures
        ({
            let w = affine_swept(m, p, path, states, seeds, multiplier, i)->Ok_0;
            &&& w.equity.len() == p.grid.len()
            &&& i <= j ==> spot_total(m, p.events[j], seeds[j], multiplier, j) is Ok && w.equity[j]
                == times(
                spot_total(m, p.events[j], seeds[j], multiplier, j)->Ok_0,
                p.scales[j],
            )
        }),
    decreases p.grid.len() - i,
{
    if i < p.grid.len() {
        equity_of_a_node(m, p, path, states, seeds, multiplier, i + 1, j);
    }
}

/// The adjoint of the equity of a node is the adjoint of its spot, multiplied, times the
/// scale of the node.
pub proof fn equity_adjoints<R: Scalar, C: PaidMarket<R>>(
    m: Model<R>,
    c: C,
    p: AffineView<R>,
    path: AffinePathView<R>,
    states: Seq<HybridState<R>>,
    seeds: Seq<SpotSeed<R>>,
    multiplier: R,
    i: int,
)
    requires
        0 <= i < p.grid.len(),
    ensures
        affine_adjoints_of(m, c, p, path, states, seeds, multiplier) matches Ok(a) ==> {
            let seed = seeds[i];
            a.equity[i] == times(
                times(
                    match p.events[i] {
                        Some(d) => plus(seed.post, over(seed.pre, minus(literal(1), d.beta))),
                        None => seed.post,
                    },
                    multiplier,
                ),
                p.scales[i],
            )
        },
{
    if affine_adjoints_of(m, c, p, path, states, seeds, multiplier) is Ok {
        equity_of_a_node(m, p, path, states, seeds, multiplier, 0, i);
    }
}

proof fn fixed_pillars<R: Scalar, C: PaidMarket<R>>(
    c: C,
    grid: Seq<R>,
    carry: Seq<R>,
    j: int,
    n: nat,
)
    requires
        0 <= j < c.discount_pillars_of().len(),
        0 <= j < c.dividend_pillars_of().len(),
        leaves_pillar(c, j),
    ensures
        pillars_after(c, grid, carry, n) matches Ok((discount, dividend)) ==> discount[j]
            == literal::<R>(0) && dividend[j] == literal::<R>(0),
    decreases n,
{
    if n > 0 {
        fixed_pillars(c, grid, carry, j, (n - 1) as nat);
    }
}

/// No seed moves the pillar `j` of either curve.
pub open spec fn leaves_pillar<R: Scalar, C: PaidMarket<R>>(c: C, j: int) -> bool {
    &&& forall|time: R, seed: R, out: Seq<R>|
        #[trigger] c.discount_transposed(time, seed, out) matches Ok(v) ==> v[j] == out[j]
    &&& forall|time: R, seed: R, out: Seq<R>|
        #[trigger] c.dividend_transposed(time, seed, out) matches Ok(v) ==> v[j] == out[j]
}

/// A pillar that no seed moves, as that at the valuation, has no adjoint.
pub proof fn fixed_pillars_have_no_adjoint<R: Scalar, C: PaidMarket<R>>(
    m: Model<R>,
    c: C,
    p: AffineView<R>,
    path: AffinePathView<R>,
    states: Seq<HybridState<R>>,
    seeds: Seq<SpotSeed<R>>,
    multiplier: R,
    j: int,
)
    requires
        0 <= j < c.discount_pillars_of().len(),
        0 <= j < c.dividend_pillars_of().len(),
        leaves_pillar(c, j),
    ensures
        affine_adjoints_of(m, c, p, path, states, seeds, multiplier) matches Ok(a)
            ==> a.discount_log_df[j] == literal::<R>(0) && a.dividend_log_df[j] == literal::<R>(0),
{
    if affine_adjoints_of(m, c, p, path, states, seeds, multiplier) is Ok {
        let w = affine_swept(m, p, path, states, seeds, multiplier, 0)->Ok_0;
        fixed_pillars(c, p.grid, w.carry, j, p.grid.len());
    }
}

/// Multiplying by `k` passes through sums, differences and products.
pub open spec fn passes_through<R: Scalar>(k: R) -> bool {
    &&& times(literal(0), k) == literal::<R>(0)
    &&& forall|a: R| #[trigger] times(a, literal(1)) == a
    &&& forall|a: R, b: R| #[trigger] times(times(a, k), b) == times(times(a, b), k)
    &&& forall|a: R, b: R| #[trigger] plus(times(a, k), times(b, k)) == times(plus(a, b), k)
    &&& forall|a: R, b: R| #[trigger] minus(times(a, k), times(b, k)) == times(minus(a, b), k)
    &&& forall|a: R| #[trigger] negated(times(a, k)) == times(negated(a), k)
}

/// Numbers multiplied by `k`.
pub open spec fn multiplied<R: Scalar>(a: Seq<R>, k: R) -> Seq<R> {
    Seq::new(a.len(), |i: int| times(a[i], k))
}

/// A market transposes what is multiplied by `k` as what is not, multiplied.
pub open spec fn transposes_multiples<R: Scalar, C: PaidMarket<R>>(c: C, k: R) -> bool {
    &&& forall|time: R, seed: R, out: Seq<R>|
        #[trigger] c.discount_transposed(time, seed, out) matches Ok(v)
            ==> c.discount_transposed(time, times(seed, k), multiplied(out, k)) == Ok::<
            Seq<R>,
            MonteCarloError,
        >(multiplied(v, k))
    &&& forall|time: R, seed: R, out: Seq<R>|
        #[trigger] c.dividend_transposed(time, seed, out) matches Ok(v)
            ==> c.dividend_transposed(time, times(seed, k), multiplied(out, k)) == Ok::<
            Seq<R>,
            MonteCarloError,
        >(multiplied(v, k))
}

proof fn sweep_multiplies<R: Scalar>(
    m: Model<R>,
    p: AffineView<R>,
    path: AffinePathView<R>,
    states: Seq<HybridState<R>>,
    seeds: Seq<SpotSeed<R>>,
    k: R,
    i: int,
)
    requires
        passes_through(k),
        0 <= i <= p.grid.len(),
        affine_swept(m, p, path, states, seeds, literal(1), i) is Ok,
        affine_swept(m, p, path, states, seeds, k, i) is Ok,
    ensures
        ({
            let w = affine_swept(m, p, path, states, seeds, literal(1), i)->Ok_0;
            let v = affine_swept(m, p, path, states, seeds, k, i)->Ok_0;
            &&& w.equity.len() == p.grid.len()
            &&& w.carry.len() == p.grid.len()
            &&& v.equity == multiplied(w.equity, k)
            &&& v.carry == multiplied(w.carry, k)
            &&& v.offset == times(w.offset, k)
        }),
    decreases p.grid.len() - i,
{
    let n = p.grid.len();
    let w = affine_swept(m, p, path, states, seeds, literal(1), i)->Ok_0;
    let v = affine_swept(m, p, path, states, seeds, k, i)->Ok_0;
    if i == n {
        assert(v.equity =~= multiplied(w.equity, k));
        assert(v.carry =~= multiplied(w.carry, k));
    } else {
        sweep_multiplies(m, p, path, states, seeds, k, i + 1);
        let a = affine_swept(m, p, path, states, seeds, literal(1), i + 1)->Ok_0;
        let t = spot_total(m, p.events[i], seeds[i], literal(1), i)->Ok_0;
        let u = spot_total(m, p.events[i], seeds[i], k, i)->Ok_0;
        assert(u == times(t, k));
        let e = times(t, p.scales[i]);
        assert(times(u, p.scales[i]) == times(e, k));
        let x = states[i].normalized_equity;
        assert(times(times(e, k), x) == times(times(e, x), k));
        let c1 = plus(a.carry[i], times(e, x));
        assert(plus(times(a.carry[i], k), times(times(e, x), k)) == times(c1, k));
        let seed = plus(a.offset, t);
        assert(plus(times(a.offset, k), times(t, k)) == times(seed, k));
        let kept = match p.events[i] {
            Some(d) => times(seed, minus(literal(1), d.beta)),
            None => seed,
        };
        if i > 0 {
            let weight = times(kept, path.before_offsets[i]);
            assert(times(times(kept, k), path.before_offsets[i]) == times(weight, k));
            assert(plus(times(c1, k), times(weight, k)) == times(plus(c1, weight), k));
            assert(minus(times(a.carry[i - 1], k), times(weight, k)) == times(
                minus(a.carry[i - 1], weight),
                k,
            ));
        }
        assert(v.equity =~= multiplied(w.equity, k));
        assert(v.carry =~= multiplied(w.carry, k));
    }
}

proof fn pillars_multiply<R: Scalar, C: PaidMarket<R>>(
    c: C,
    grid: Seq<R>,
    carry: Seq<R>,
    k: R,
    n: nat,
)
    requires
        passes_through(k),
        transposes_multiples(c, k),
        n <= carry.len(),
        pillars_after(c, grid, carry, n) is Ok,
    ensures
        pillars_after(c, grid, multiplied(carry, k), n) == Ok::<(Seq<R>, Seq<R>), MonteCarloError>(
            (
                multiplied(pillars_after(c, grid, carry, n)->Ok_0.0, k),
                multiplied(pillars_after(c, grid, carry, n)->Ok_0.1, k),
            ),
        ),
    decreases n,
{
    if n == 0 {
        let (a, b) = (c.discount_pillars_of().len(), c.dividend_pillars_of().len());
        assert(multiplied(zeros::<R>(a), k) =~= zeros(a));
        assert(multiplied(zeros::<R>(b), k) =~= zeros(b));
    } else {
        pillars_multiply(c, grid, carry, k, (n - 1) as nat);
        assert(multiplied(carry, k)[n - 1] == times(carry[n - 1], k));
        let (p, q) = pillars_after(c, grid, carry, (n - 1) as nat)->Ok_0;
        assert(c.discount_transposed(grid[n - 1], negated(carry[n - 1]), p) is Ok);
        assert(c.dividend_transposed(grid[n - 1], carry[n - 1], q) is Ok);
    }
}

/// The adjoints are proportional to what they are multiplied by.
pub proof fn adjoints_are_proportional<R: Scalar, C: PaidMarket<R>>(
    m: Model<R>,
    c: C,
    p: AffineView<R>,
    path: AffinePathView<R>,
    states: Seq<HybridState<R>>,
    seeds: Seq<SpotSeed<R>>,
    k: R,
)
    requires
        passes_through(k),
        transposes_multiples(c, k),
        affine_adjoints_of(m, c, p, path, states, seeds, literal(1)) is Ok,
        affine_adjoints_of(m, c, p, path, states, seeds, k) is Ok,
    ensures
        ({
            let a = affine_adjoints_of(m, c, p, path, states, seeds, literal(1))->Ok_0;
            affine_adjoints_of(m, c, p, path, states, seeds, k) == Ok::<
                AffineAdjointsView<R>,
                MonteCarloError,
            >(
                AffineAdjointsView {
                    equity: multiplied(a.equity, k),
                    discount_log_df: multiplied(a.discount_log_df, k),
                    dividend_log_df: multiplied(a.dividend_log_df, k),
                },
            )
        }),
{
    sweep_multiplies(m, p, path, states, seeds, k, 0);
    let w = affine_swept(m, p, path, states, seeds, literal(1), 0)->Ok_0;
    pillars_multiply(c, p.grid, w.carry, k, p.grid.len());
}

} // verus!
