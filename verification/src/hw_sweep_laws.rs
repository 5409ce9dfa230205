//! What a reverse sweep beside rates is: the transpose of the moves that it sweeps, of the
//! spots with their claims, of the curves that they are funded on, and of the steps between.

use crate::affine_laws::pairing;
use crate::dynamics::DividendDynamics;
use crate::hw_path::{
    node_growth, projection, CashClaim, RatePathView, StochasticDividendHullWhiteState,
};
use crate::hw_reverse::{
    bumped, cash_bumps, rate_pullback, rate_swept, row_bumps, with_claim, with_claims, with_curves,
    with_node, with_step, Adjoints, ClaimJacobianView, RateContextView, RateSweep,
};
use crate::models::BuehlerDividendModel;
use crate::rate_market::RateMarket;
use crate::reverse::SpotSeed;
use crate::sampling::half;
use crate::scalar::{exact, literal, minus, negated, over, plus, same, times, Model, Scalar};
use crate::sweep_laws::{
    negates, noise_transposes, regroups, reversion_transposes, spreads, updated_pairing, StateMove,
};
use vstd::prelude::*;

verus! {

/// How the market moves: the spot, the model and the means of the dividends, the pillars of
/// both curves, the logarithms of the curves at a time, and the reserve at first.
#[verifier::reject_recursive_types(R)]
pub ghost struct MarketMove<R> {
    pub head: Seq<real>,
    pub discount_pillars: Seq<real>,
    pub repo_pillars: Seq<real>,
    pub discount: spec_fn(R) -> real,
    pub repo: spec_fn(R) -> real,
    pub reserve: real,
}

impl<R: Scalar> MarketMove<R> {
    /// What the curves of a market add to their pillars is the transpose of how they move.
    pub open spec fn of<C: RateMarket<R>>(self, value: spec_fn(R) -> real, c: C) -> bool {
        &&& forall|t: R, seed: R, out: Seq<R>|
            out.len() == self.discount_pillars.len() ==> (#[trigger] c.discount_transposed(
                t,
                seed,
                out,
            ) matches Ok(v) ==> v.len() == out.len() && pairing(
                value,
                v,
                self.discount_pillars,
                v.len(),
            ) == pairing(value, out, self.discount_pillars, out.len()) + value(seed)
                * (self.discount)(t))
        &&& forall|t: R, seed: R, out: Seq<R>|
            out.len() == self.repo_pillars.len() ==> (#[trigger] c.repo_spread_transposed(
                t,
                seed,
                out,
            ) matches Ok(v) ==> v.len() == out.len() && pairing(
                value,
                v,
                self.repo_pillars,
                v.len(),
            ) == pairing(value, out, self.repo_pillars, out.len()) + value(seed) * (self.repo)(t))
    }

    /// The adjoints of parameters and curves against the move.
    pub open spec fn against(self, value: spec_fn(R) -> real, w: Adjoints<R>) -> real {
        pairing(value, w.head, self.head, self.head.len()) + pairing(
            value,
            w.discount,
            self.discount_pillars,
            self.discount_pillars.len(),
        ) + pairing(value, w.repo, self.repo_pillars, self.repo_pillars.len())
    }

    /// There are as many adjoints as moves.
    pub open spec fn sizes(self, w: Adjoints<R>) -> bool {
        w.sized(self.head.len(), self.discount_pillars.len(), self.repo_pillars.len())
    }
}

/// A sweep against a move of the market and of the state.
pub open spec fn sweep_against<R: Scalar>(
    value: spec_fn(R) -> real,
    w: RateSweep<R>,
    d: MarketMove<R>,
    at: StateMove,
) -> real {
    d.against(value, w.out) + value(w.f_bar) * at.equity + value(w.y_bar) * at.dividend + value(
        w.funding_bar,
    ) * d.reserve
}

proof fn curves_transpose<R: Scalar, C: RateMarket<R>>(
    value: spec_fn(R) -> real,
    c: C,
    w: Adjoints<R>,
    t: R,
    seed: R,
    d: MarketMove<R>,
    opposite: bool,
)
    requires
        exact(value),
        d.of(value, c),
        d.sizes(w),
    ensures
        with_curves(
            c,
            w,
            t,
            if opposite {
                negated(seed)
            } else {
                seed
            },
            if opposite {
                seed
            } else {
                negated(seed)
            },
        ) matches Ok(v) ==> d.sizes(v) && v.head == w.head && d.against(value, v) == d.against(
            value,
            w,
        ) + (if opposite {
            value(seed) * ((d.repo)(t) - (d.discount)(t))
        } else {
            value(seed) * ((d.discount)(t) - (d.repo)(t))
        }),
{
    let (s, x, y) = (value(seed), (d.discount)(t), (d.repo)(t));
    negates(s, x);
    negates(s, y);
    spreads(s, y, x);
    spreads(s, x, y);
}

/// What the first `n` parameters of the dividend model make of the move of a claim.
pub open spec fn model_moves<R: Scalar>(
    value: spec_fn(R) -> real,
    rows: Seq<Seq<R>>,
    s: StochasticDividendHullWhiteState<R>,
    head: Seq<real>,
    n: nat,
) -> real
    decreases n,
{
    if n == 0 {
        0 as real
    } else {
        let row = rows[n - 1];
        model_moves(value, rows, s, head, (n - 1) as nat) + (value(row[0]) * value(s.factors.equity)
            + value(row[1]) * value(s.factors.dividend) + value(row[2])) * head[n as int]
    }
}

proof fn rows_transpose<R: Scalar>(
    value: spec_fn(R) -> real,
    head: Seq<R>,
    amount: R,
    rows: Seq<Seq<R>>,
    s: StochasticDividendHullWhiteState<R>,
    d: Seq<real>,
    n: nat,
)
    requires
        exact(value),
        head.len() == d.len(),
        n < head.len(),
    ensures
        row_bumps(head, amount, rows, s, n).len() == head.len(),
        pairing(value, row_bumps(head, amount, rows, s, n), d, d.len()) == pairing(
            value,
            head,
            d,
            d.len(),
        ) + value(amount) * model_moves(value, rows, s, d, n),
    decreases n,
{
    let a = value(amount);
    if n > 0 {
        rows_transpose(value, head, amount, rows, s, d, (n - 1) as nat);
        let before = row_bumps(head, amount, rows, s, (n - 1) as nat);
        let row = rows[n - 1];
        let x = times(
            amount,
            plus(
                plus(times(row[0], s.factors.equity), times(row[1], s.factors.dividend)),
                row[2],
            ),
        );
        updated_pairing(value, before, d, n as int, x, d.len());
        let g = value(row[0]) * value(s.factors.equity) + value(row[1]) * value(s.factors.dividend)
            + value(row[2]);
        regroups(a, g, d[n as int]);
        spreads(a, model_moves(value, rows, s, d, (n - 1) as nat), g * d[n as int]);
    } else {
        negates(a, 0 as real);
    }
}

/// What a unit of a claim is worth in a state.
pub open spec fn unit_value<R: Scalar>(
    value: spec_fn(R) -> real,
    m: Model<R>,
    claim: CashClaim<R>,
    j: ClaimJacobianView<R>,
    s: StochasticDividendHullWhiteState<R>,
) -> real {
    value(j.unit) * value(m.exp(times(negated(claim.duration), s.rate_factor)))
}

/// How the worth of a claim moves: with its mean, with the model, with the curves up to its
/// payment, and with the state.
pub open spec fn claim_moves<R: Scalar>(
    value: spec_fn(R) -> real,
    m: Model<R>,
    p: RatePathView<R>,
    claim: CashClaim<R>,
    j: ClaimJacobianView<R>,
    s: StochasticDividendHullWhiteState<R>,
    d: MarketMove<R>,
    at: StateMove,
) -> real {
    let unit = unit_value(value, m, claim, j, s);
    let amount = unit * value(p.cash_means[claim.index as int]);
    let worth = value(projection(claim, s.factors));
    let t = p.cash_times[claim.index as int];
    (unit * worth) * d.head[5 + claim.index] + amount * model_moves(value, j.rows, s, d.head, 4) + (
    amount * worth) * ((d.discount)(t) - (d.repo)(t)) + (amount * value(claim.equity)) * at.equity
        + (amount * value(claim.dividend)) * at.dividend
}

/// What a claim is worth in a state.
pub open spec fn claim_worth<R: Scalar>(
    value: spec_fn(R) -> real,
    m: Model<R>,
    p: RatePathView<R>,
    claim: CashClaim<R>,
    j: ClaimJacobianView<R>,
    s: StochasticDividendHullWhiteState<R>,
) -> real {
    unit_value(value, m, claim, j, s) * value(p.cash_means[claim.index as int]) * value(
        projection(claim, s.factors),
    )
}

/// The adjoints of the sweep of a claim are the transpose of how it moves.
pub proof fn claim_sweeps_transpose<R: Scalar, C: RateMarket<R>>(
    value: spec_fn(R) -> real,
    m: Model<R>,
    c: C,
    p: RatePathView<R>,
    w: RateSweep<R>,
    claim: CashClaim<R>,
    j: ClaimJacobianView<R>,
    s: StochasticDividendHullWhiteState<R>,
    seed: R,
    d: MarketMove<R>,
    at: StateMove,
)
    requires
        exact(value),
        d.of(value, c),
        d.sizes(w.out),
        5 + claim.index < d.head.len(),
    ensures
        with_claim(m, c, p, w, claim, j, s, seed) matches Ok(v) ==> {
            &&& d.sizes(v.out)
            &&& sweep_against(value, v, d, at) == sweep_against(value, w, d, at) + value(seed)
                * claim_moves(value, m, p, claim, j, s, d, at)
            &&& value(v.growth_seed) == value(w.growth_seed) + value(seed) * claim_worth(
                value,
                m,
                p,
                claim,
                j,
                s,
            )
        },
{
    if let Ok(v) = with_claim(m, c, p, w, claim, j, s, seed) {
        let unit = times(j.unit, m.exp(times(negated(claim.duration), s.rate_factor)));
        let amount = times(unit, p.cash_means[claim.index as int]);
        let worth = projection(claim, s.factors);
        let scaled = times(seed, amount);
        let value_seed = times(scaled, worth);
        let x = times(times(seed, unit), worth);
        let placed = bumped(w.out.head, 5 + claim.index, x);
        updated_pairing(value, w.out.head, d.head, 5 + claim.index, x, d.head.len());
        let head = row_bumps(placed, scaled, j.rows, s, 4);
        rows_transpose(value, placed, scaled, j.rows, s, d.head, 4);
        let t = p.cash_times[claim.index as int];
        let mid = Adjoints { head, ..w.out };
        curves_transpose(value, c, mid, t, value_seed, d, false);
        let (k, u, a, g) = (value(seed), value(unit), value(amount), value(worth));
        let (ce, cd) = (value(claim.equity), value(claim.dividend));
        let (de, dy, dh) = (at.equity, at.dividend, d.head[5 + claim.index]);
        let mm = model_moves(value, j.rows, s, d.head, 4);
        let gap = (d.discount)(t) - (d.repo)(t);
        regroups(k, u, g);
        regroups(k, u * g, dh);
        regroups(k, a, mm);
        regroups(k, a, g);
        regroups(k, a * g, gap);
        regroups(k, a, ce);
        regroups(k, a * ce, de);
        regroups(k, a, cd);
        regroups(k, a * cd, dy);
        spreads(de, value(w.f_bar), (k * a) * ce);
        spreads(dy, value(w.y_bar), (k * a) * cd);
        let (r1, r2, r3, r4, r5) = (
            (u * g) * dh,
            a * mm,
            (a * g) * gap,
            (a * ce) * de,
            (a * cd) * dy,
        );
        spreads(k, r1 + r2 + r3 + r4, r5);
        spreads(k, r1 + r2 + r3, r4);
        spreads(k, r1 + r2, r3);
        spreads(k, r1, r2);
        assert(claim_moves(value, m, p, claim, j, s, d, at) == r1 + r2 + r3 + r4 + r5);
    }
}

/// How the first `n` claims of a node move.
pub open spec fn claims_moved<R: Scalar>(
    value: spec_fn(R) -> real,
    m: Model<R>,
    p: RatePathView<R>,
    i: int,
    row: Seq<ClaimJacobianView<R>>,
    s: StochasticDividendHullWhiteState<R>,
    d: MarketMove<R>,
    at: StateMove,
    n: nat,
) -> real
    decreases n,
{
    if n == 0 {
        0 as real
    } else {
        claims_moved(value, m, p, i, row, s, d, at, (n - 1) as nat) + claim_moves(
            value,
            m,
            p,
            p.nodes[i].claims[n - 1],
            row[n - 1],
            s,
            d,
            at,
        )
    }
}

/// What the first `n` claims of a node are worth.
pub open spec fn claims_worth<R: Scalar>(
    value: spec_fn(R) -> real,
    m: Model<R>,
    p: RatePathView<R>,
    i: int,
    row: Seq<ClaimJacobianView<R>>,
    s: StochasticDividendHullWhiteState<R>,
    n: nat,
) -> real
    decreases n,
{
    if n == 0 {
        0 as real
    } else {
        claims_worth(value, m, p, i, row, s, (n - 1) as nat) + claim_worth(
            value,
            m,
            p,
            p.nodes[i].claims[n - 1],
            row[n - 1],
            s,
        )
    }
}

proof fn claims_transpose<R: Scalar, C: RateMarket<R>>(
    value: spec_fn(R) -> real,
    m: Model<R>,
    c: C,
    p: RatePathView<R>,
    w: RateSweep<R>,
    i: int,
    row: Seq<ClaimJacobianView<R>>,
    s: StochasticDividendHullWhiteState<R>,
    seed: R,
    d: MarketMove<R>,
    at: StateMove,
    n: nat,
)
    requires
        exact(value),
        d.of(value, c),
        d.sizes(w.out),
        n <= p.nodes[i].claims.len(),
        forall|k: int|
            0 <= k < p.nodes[i].claims.len() ==> 5 + (#[trigger] p.nodes[i].claims[k]).index
                < d.head.len(),
    ensures
        with_claims(m, c, p, w, i, row, s, seed, n) matches Ok(v) ==> {
            &&& d.sizes(v.out)
            &&& sweep_against(value, v, d, at) == sweep_against(value, w, d, at) + value(seed)
                * claims_moved(value, m, p, i, row, s, d, at, n)
            &&& value(v.growth_seed) == value(w.growth_seed) + value(seed) * claims_worth(
                value,
                m,
                p,
                i,
                row,
                s,
                n,
            )
        },
    decreases n,
{
    let k = value(seed);
    if n > 0 {
        claims_transpose(value, m, c, p, w, i, row, s, seed, d, at, (n - 1) as nat);
        if let Ok(v) = with_claims(m, c, p, w, i, row, s, seed, (n - 1) as nat) {
            let claim = p.nodes[i].claims[n - 1];
            claim_sweeps_transpose(value, m, c, p, v, claim, row[n - 1], s, seed, d, at);
            spreads(
                k,
                claims_moved(value, m, p, i, row, s, d, at, (n - 1) as nat),
                claim_moves(value, m, p, claim, row[n - 1], s, d, at),
            );
            spreads(
                k,
                claims_worth(value, m, p, i, row, s, (n - 1) as nat),
                claim_worth(value, m, p, claim, row[n - 1], s),
            );
        }
    } else {
        negates(k, 0 as real);
    }
}

/// What the means of the cash that is paid at a time add to each other, of the first `n`.
pub open spec fn cash_moves<R: Scalar>(cash: Seq<R>, t: R, head: Seq<real>, n: nat) -> real
    decreases n,
{
    if n == 0 {
        0 as real
    } else {
        cash_moves(cash, t, head, (n - 1) as nat) + (if same(cash[n - 1], t) {
            head[5 + (n - 1)]
        } else {
            0 as real
        })
    }
}

proof fn cash_transposes<R: Scalar>(
    value: spec_fn(R) -> real,
    head: Seq<R>,
    cash: Seq<R>,
    t: R,
    x: R,
    d: Seq<real>,
    n: nat,
)
    requires
        exact(value),
        head.len() == d.len(),
        5 + n <= head.len(),
    ensures
        cash_bumps(head, cash, t, x, n).len() == head.len(),
        pairing(value, cash_bumps(head, cash, t, x, n), d, d.len()) == pairing(
            value,
            head,
            d,
            d.len(),
        ) + value(x) * cash_moves(cash, t, d, n),
    decreases n,
{
    let a = value(x);
    if n > 0 {
        cash_transposes(value, head, cash, t, x, d, (n - 1) as nat);
        let before = cash_bumps(head, cash, t, x, (n - 1) as nat);
        updated_pairing(value, before, d, 5 + (n - 1), x, d.len());
        let y = cash_moves(cash, t, d, (n - 1) as nat);
        spreads(a, y, d[5 + (n - 1)]);
    } else {
        negates(a, 0 as real);
    }
}

/// What a node pays, or nothing.
pub open spec fn paid_at_node<R: Scalar>(p: RatePathView<R>, i: int) -> R {
    match p.nodes[i].event_cash {
        Some(x) => x,
        None => literal(0),
    }
}

/// How the spot after the dividend of a node moves: equity with the spot less the reserve and
/// with its state, the claims with theirs, and all of it with the growth up to the node.
pub open spec fn post_moved<R: Scalar>(
    value: spec_fn(R) -> real,
    m: Model<R>,
    p: RatePathView<R>,
    i: int,
    row: Seq<ClaimJacobianView<R>>,
    s: StochasticDividendHullWhiteState<R>,
    d: MarketMove<R>,
    at: StateMove,
) -> real {
    let g = value(node_growth(m, p.nodes[i], s));
    let (e, r) = (value(s.factors.equity), value(p.risky_spot));
    let n = p.nodes[i].claims.len();
    (g * e) * (d.head[0] - d.reserve) + (r * g) * at.equity + claims_moved(
        value,
        m,
        p,
        i,
        row,
        s,
        d,
        at,
        n,
    ) + (r * g * e + claims_worth(value, m, p, i, row, s, n)) * ((d.repo)(p.times[i])
        - (d.discount)(p.times[i]))
}

/// By how much more the spot before the dividend of a node moves.
pub open spec fn paid_moved<R: Scalar>(
    value: spec_fn(R) -> real,
    p: RatePathView<R>,
    i: int,
    s: StochasticDividendHullWhiteState<R>,
    d: MarketMove<R>,
    at: StateMove,
) -> real {
    value(s.factors.dividend) * cash_moves(p.cash_times, p.times[i], d.head, p.cash_times.len())
        + value(paid_at_node(p, i)) * at.dividend
}

/// The adjoints of the sweep of a node are the transpose of the moves of its spots.
#[verifier::rlimit(40)]
#[verifier::spinoff_prover]
pub proof fn rate_node_sweeps_transpose<R: Scalar, C: RateMarket<R>>(
    value: spec_fn(R) -> real,
    m: Model<R>,
    c: C,
    p: RatePathView<R>,
    w: RateSweep<R>,
    i: int,
    row: Seq<ClaimJacobianView<R>>,
    s: StochasticDividendHullWhiteState<R>,
    seed: SpotSeed<R>,
    d: MarketMove<R>,
    at: StateMove,
)
    requires
        exact(value),
        d.of(value, c),
        d.sizes(w.out),
        d.head.len() == 5 + p.cash_times.len(),
        forall|k: int|
            0 <= k < p.nodes[i].claims.len() ==> 5 + (#[trigger] p.nodes[i].claims[k]).index
                < d.head.len(),
    ensures
        with_node(m, c, p, w, i, row, s, seed) matches Ok(v) ==> {
            let post = post_moved(value, m, p, i, row, s, d, at);
            &&& d.sizes(v.out)
            &&& sweep_against(value, v, d, at) == sweep_against(value, w, d, at) + value(seed.post)
                * post + value(seed.pre) * (post + paid_moved(value, p, i, s, d, at))
        },
{
    if let Ok(v) = with_node(m, c, p, w, i, row, s, seed) {
        let both = plus(seed.post, seed.pre);
        let growth = node_growth(m, p.nodes[i], s);
        let equity = s.factors.equity;
        let x = times(times(both, growth), equity);
        let start = RateSweep {
            out: Adjoints { head: bumped(w.out.head, 0, x), ..w.out },
            f_bar: plus(w.f_bar, times(times(both, p.risky_spot), growth)),
            y_bar: w.y_bar,
            funding_bar: minus(w.funding_bar, x),
            growth_seed: times(both, times(times(p.risky_spot, growth), equity)),
        };
        updated_pairing(value, w.out.head, d.head, 0, x, d.head.len());
        let n = p.nodes[i].claims.len();
        claims_transpose(value, m, c, p, start, i, row, s, both, d, at, n);
        let mid = with_claims(m, c, p, start, i, row, s, both, n)->Ok_0;
        let t = p.times[i];
        curves_transpose(value, c, mid.out, t, mid.growth_seed, d, true);
        let out = with_curves(c, mid.out, t, negated(mid.growth_seed), mid.growth_seed)->Ok_0;
        let y = times(seed.pre, s.factors.dividend);
        cash_transposes(value, out.head, p.cash_times, t, y, d.head, p.cash_times.len());
        let (b, g, e, r) = (value(both), value(growth), value(equity), value(p.risky_spot));
        let (h0, f, de, dy) = (d.head[0], d.reserve, at.equity, at.dividend);
        let (a, q) = (value(seed.post), value(seed.pre));
        let cm = claims_moved(value, m, p, i, row, s, d, at, n);
        let cw = claims_worth(value, m, p, i, row, s, n);
        let gap = (d.repo)(t) - (d.discount)(t);
        regroups(b, g, e);
        regroups(b, g * e, h0);
        regroups(b, g * e, f);
        spreads(g * e, h0, f);
        spreads(b, (g * e) * h0, (g * e) * f);
        spreads(f, value(w.funding_bar), -value(x));
        negates(value(x), f);
        regroups(b, r, g);
        regroups(b, r * g, de);
        spreads(de, value(w.f_bar), (b * r) * g);
        let whole = r * g * e;
        spreads(b, whole, cw);
        regroups(b, whole + cw, gap);
        let (s1, s2, s4) = ((g * e) * (h0 - f), (r * g) * de, (whole + cw) * gap);
        let post = post_moved(value, m, p, i, row, s, d, at);
        assert(post == s1 + s2 + cm + s4);
        spreads(b, s1 + s2 + cm, s4);
        spreads(b, s1 + s2, cm);
        spreads(b, s1, s2);
        spreads(post, a, q);
        let (sd, cc, pc) = (
            value(s.factors.dividend),
            cash_moves(p.cash_times, t, d.head, p.cash_times.len()),
            value(paid_at_node(p, i)),
        );
        regroups(q, sd, cc);
        regroups(q, pc, dy);
        spreads(dy, value(mid.y_bar), q * pc);
        let more = paid_moved(value, p, i, s, d, at);
        assert(more == sd * cc + pc * dy);
        spreads(q, sd * cc, pc * dy);
        spreads(q, post, more);
        assert(value(mid.growth_seed) == b * (whole + cw));
    }
}

/// The numbers of a step: the weights of what stays and of what reverts over half of it, the
/// growth of dividends and of equity by their noise, and the noise of either.
pub ghost struct RateStepNumbers<R> {
    pub stays: R,
    pub reverts: R,
    pub dividend_growth: R,
    pub equity_growth: R,
    pub root: R,
    pub noised: R,
    pub dividend_volatility: R,
    pub dividend_normal: R,
    pub equity_volatility: R,
    pub old_target: R,
    pub new_target: R,
}

/// The numbers of a step of the length `dt`.
pub open spec fn rate_step_numbers<R: Scalar, Y: DividendDynamics<R>>(
    m: Model<R>,
    y: Y,
    p: RatePathView<R>,
    dt: R,
    z0: R,
    z1: R,
    now: StochasticDividendHullWhiteState<R>,
    old: StochasticDividendHullWhiteState<R>,
) -> RateStepNumbers<R> {
    let model = p.model;
    let rho = model.equity_dividend_correlation;
    let root = m.sqrt(dt);
    let decays = y.decay_of(model.mean_reversion, times(half(), dt));
    let v = times(model.dividend_volatility, root);
    let zd = plus(
        times(rho, z0),
        times(m.sqrt(times(minus(literal(1), rho), plus(literal(1), rho))), z1),
    );
    let u = times(p.volatility, root);
    let growth = m.exp(plus(times(times(negated(half()), v), v), times(v, zd)));
    let old_target = y.target_of(model, old.factors.equity);
    RateStepNumbers {
        stays: decays.first,
        reverts: decays.second,
        dividend_growth: growth,
        equity_growth: m.exp(plus(times(times(negated(half()), u), u), times(u, z0))),
        root,
        noised: times(y.blend_of(decays, old.factors.dividend, old_target), growth),
        dividend_volatility: v,
        dividend_normal: zd,
        equity_volatility: u,
        old_target,
        new_target: y.target_of(model, now.factors.equity),
    }
}

/// How a reversion over half a step moves: with what it reverts from and to, with the linkage
/// of the target to equity, and with the speed.
pub open spec fn half_step_moves<R: Scalar>(
    value: spec_fn(R) -> real,
    model: BuehlerDividendModel<R>,
    x: RateStepNumbers<R>,
    dt: R,
    from: real,
    target: real,
    equity: real,
    from_moves: real,
    equity_moves: real,
    head: Seq<real>,
) -> real {
    value(x.stays) * from_moves + value(x.reverts) * value(model.equity_linkage) * equity_moves
        + value(x.reverts) * (equity - 1 as real) * head[3] - value(half::<R>()) * value(dt)
        * value(x.stays) * (from - target) * head[2]
}

/// How the state at the end of a step moves.
pub open spec fn rate_step_moves<R: Scalar, Y: DividendDynamics<R>>(
    value: spec_fn(R) -> real,
    m: Model<R>,
    y: Y,
    p: RatePathView<R>,
    dt: R,
    z0: R,
    z1: R,
    now: StochasticDividendHullWhiteState<R>,
    old: StochasticDividendHullWhiteState<R>,
    head: Seq<real>,
    before: StateMove,
) -> StateMove {
    let x = rate_step_numbers(m, y, p, dt, z0, z1, now, old);
    let level = half_step_moves(
        value,
        p.model,
        x,
        dt,
        value(old.factors.dividend),
        value(x.old_target),
        value(old.factors.equity),
        before.dividend,
        before.equity,
        head,
    );
    let noised = value(x.dividend_growth) * level + value(x.noised) * ((value(x.dividend_normal)
        - value(x.dividend_volatility)) * value(x.root) * head[4]);
    let equity = value(x.equity_growth) * before.equity + value(now.factors.equity) * (value(z0)
        - value(x.equity_volatility)) * value(x.root) * head[1];
    StateMove {
        equity,
        dividend: half_step_moves(
            value,
            p.model,
            x,
            dt,
            value(x.noised),
            value(x.new_target),
            value(now.factors.equity),
            noised,
            equity,
            head,
        ),
    }
}

/// The adjoints of the sweep of a step are the transpose of its moves.
#[verifier::rlimit(60)]
#[verifier::spinoff_prover]
pub proof fn rate_step_sweeps_transpose<R: Scalar, Y: DividendDynamics<R>>(
    value: spec_fn(R) -> real,
    m: Model<R>,
    y: Y,
    p: RatePathView<R>,
    w: RateSweep<R>,
    dt: R,
    z0: R,
    z1: R,
    now: StochasticDividendHullWhiteState<R>,
    old: StochasticDividendHullWhiteState<R>,
    d: MarketMove<R>,
    before: StateMove,
)
    requires
        exact(value),
        d.sizes(w.out),
        d.head.len() >= 5,
    ensures
        ({
            let v = with_step(m, y, p, w, dt, z0, z1, now, old);
            &&& d.sizes(v.out)
            &&& sweep_against(value, v, d, before) == sweep_against(
                value,
                w,
                d,
                rate_step_moves(value, m, y, p, dt, z0, z1, now, old, d.head, before),
            )
        }),
{
    let x = rate_step_numbers(m, y, p, dt, z0, z1, now, old);
    let model = p.model;
    let h = d.head;
    let n = h.len();
    let noise_bar = times(x.stays, w.y_bar);
    let next = plus(w.f_bar, times(times(x.reverts, model.equity_linkage), w.y_bar));
    let level_bar = times(noise_bar, x.dividend_growth);
    let slope_stays = times(times(negated(half()), dt), x.stays);
    let t1 = times(times(w.y_bar, slope_stays), minus(x.noised, x.new_target));
    let o1 = bumped(w.out.head, 2, t1);
    updated_pairing(value, w.out.head, h, 2, t1, n);
    let t2 = times(times(w.y_bar, x.reverts), minus(now.factors.equity, literal(1)));
    let o2 = bumped(o1, 3, t2);
    updated_pairing(value, o1, h, 3, t2, n);
    let t3 = times(
        times(times(noise_bar, x.noised), minus(x.dividend_normal, x.dividend_volatility)),
        x.root,
    );
    let o3 = bumped(o2, 4, t3);
    updated_pairing(value, o2, h, 4, t3, n);
    let t4 = times(times(times(next, now.factors.equity), minus(z0, x.equity_volatility)), x.root);
    let o4 = bumped(o3, 1, t4);
    updated_pairing(value, o3, h, 1, t4, n);
    let t5 = times(times(level_bar, slope_stays), minus(old.factors.dividend, x.old_target));
    let o5 = bumped(o4, 2, t5);
    updated_pairing(value, o4, h, 2, t5, n);
    let t6 = times(times(level_bar, x.reverts), minus(old.factors.equity, literal(1)));
    let o6 = bumped(o5, 3, t6);
    updated_pairing(value, o5, h, 3, t6, n);
    let v = with_step(m, y, p, w, dt, z0, z1, now, old);
    assert(v.out.head == o6);
    let after = rate_step_moves(value, m, y, p, dt, z0, z1, now, old, h, before);
    let level = half_step_moves(
        value,
        model,
        x,
        dt,
        value(old.factors.dividend),
        value(x.old_target),
        value(old.factors.equity),
        before.dividend,
        before.equity,
        h,
    );
    let (a, b, al) = (value(x.stays), value(x.reverts), value(model.equity_linkage));
    let (hf, t) = (value(half::<R>()), value(dt));
    let (ed, ef, g, r) = (
        value(x.dividend_growth),
        value(x.equity_growth),
        value(x.noised),
        value(x.root),
    );
    let (we, wd) = (value(w.f_bar), value(w.y_bar));
    let (nb, nx, lb) = (value(noise_bar), value(next), value(level_bar));
    let k4 = (value(x.dividend_normal) - value(x.dividend_volatility)) * r * h[4];
    let noised = ed * level + g * k4;
    reversion_transposes(
        wd,
        a,
        b,
        al,
        hf,
        t,
        g - value(x.new_target),
        value(now.factors.equity) - 1 as real,
        noised,
        after.equity,
        h[2],
        h[3],
    );
    reversion_transposes(
        lb,
        a,
        b,
        al,
        hf,
        t,
        value(old.factors.dividend) - value(x.old_target),
        value(old.factors.equity) - 1 as real,
        before.dividend,
        before.equity,
        h[2],
        h[3],
    );
    spreads(nb, ed * level, g * k4);
    regroups(nb, ed, level);
    regroups(nb, g, k4);
    noise_transposes(nb * g, value(x.dividend_normal) - value(x.dividend_volatility), r, h[4]);
    let (f, e) = (value(now.factors.equity), value(z0) - value(x.equity_volatility));
    let q = f * e * r;
    regroups(nx, f, e);
    regroups(nx, f * e, r);
    regroups(nx, q, h[1]);
    regroups(nx, ef, before.equity);
    spreads(nx, ef * before.equity, q * h[1]);
    let c = b * al;
    spreads(after.equity, we, c * wd);
    spreads(before.equity, nx * ef, (lb * b) * al);
    regroups(lb, b, al);
    regroups(lb, c, before.equity);
    regroups(lb, a, before.dividend);
    assert(value(slope_stays) == -hf * t * a);
}

/// How the state at the node `i` moves; the first does not.
pub open spec fn rate_state_moves<R: Scalar, Y: DividendDynamics<R>>(
    value: spec_fn(R) -> real,
    m: Model<R>,
    y: Y,
    p: RatePathView<R>,
    z: Seq<R>,
    states: Seq<StochasticDividendHullWhiteState<R>>,
    head: Seq<real>,
    i: nat,
) -> StateMove
    decreases i,
{
    if i == 0 {
        StateMove { equity: 0 as real, dividend: 0 as real }
    } else {
        rate_step_moves(
            value,
            m,
            y,
            p,
            p.steps[i - 1].dt,
            z[4 * (i - 1)],
            z[4 * (i - 1) + 1],
            states[i as int],
            states[i - 1],
            head,
            rate_state_moves(value, m, y, p, z, states, head, (i - 1) as nat),
        )
    }
}

/// The seeds of the nodes from `i` on against the moves of their spots.
pub open spec fn rate_spots_moved<R: Scalar, Y: DividendDynamics<R>>(
    value: spec_fn(R) -> real,
    m: Model<R>,
    y: Y,
    k: RateContextView<R>,
    p: RatePathView<R>,
    z: Seq<R>,
    states: Seq<StochasticDividendHullWhiteState<R>>,
    seeds: Seq<SpotSeed<R>>,
    d: MarketMove<R>,
    i: int,
) -> real
    decreases states.len() - i,
{
    if i >= states.len() {
        0 as real
    } else {
        let at = rate_state_moves(value, m, y, p, z, states, d.head, i as nat);
        let post = post_moved(value, m, p, i, k.claims[i], states[i], d, at);
        rate_spots_moved(value, m, y, k, p, z, states, seeds, d, i + 1) + value(seeds[i].post)
            * post + value(seeds[i].pre) * (post + paid_moved(value, p, i, states[i], d, at))
    }
}

/// The parameters of a context are those that move.
pub open spec fn rate_sweepable<R: Scalar>(
    k: RateContextView<R>,
    p: RatePathView<R>,
    d: MarketMove<R>,
) -> bool {
    &&& k.cash_times == p.cash_times
    &&& k.payment_weights.len() == k.count()
    &&& k.funding.len() == k.count()
    &&& d.head.len() == 5 + p.cash_times.len()
    &&& d.discount_pillars.len() == k.discount_times.len()
    &&& d.repo_pillars.len() == k.repo_spread_times.len()
    &&& forall|i: int, n: int|
        0 <= n < p.nodes[i].claims.len() ==> 5 + (#[trigger] p.nodes[i].claims[n]).index
            < d.head.len()
}

/// All moves of parameters and pillars, one after the other.
pub open spec fn all_moves<R>(d: MarketMove<R>) -> Seq<real> {
    d.head + d.discount_pillars + d.repo_pillars
}

proof fn joined_pairing<R: Scalar>(
    value: spec_fn(R) -> real,
    a: Seq<R>,
    b: Seq<R>,
    x: Seq<real>,
    y: Seq<real>,
    n: nat,
)
    requires
        a.len() == x.len(),
        n <= b.len(),
        b.len() == y.len(),
    ensures
        pairing(value, a + b, x + y, a.len() + n) == pairing(value, a, x, a.len()) + pairing(
            value,
            b,
            y,
            n,
        ),
    decreases n,
{
    if n > 0 {
        joined_pairing(value, a, b, x, y, (n - 1) as nat);
    } else {
        equal_pairing(value, a + b, a, x + y, x, a.len());
    }
}

proof fn equal_pairing<R>(
    value: spec_fn(R) -> real,
    a: Seq<R>,
    b: Seq<R>,
    x: Seq<real>,
    y: Seq<real>,
    n: nat,
)
    requires
        forall|i: int| 0 <= i < n ==> #[trigger] a[i] == b[i],
        forall|i: int| 0 <= i < n ==> #[trigger] x[i] == y[i],
    ensures
        pairing(value, a, x, n) == pairing(value, b, y, n),
    decreases n,
{
    if n > 0 {
        equal_pairing(value, a, b, x, y, (n - 1) as nat);
        assert(a[n - 1] == b[n - 1] && x[n - 1] == y[n - 1]);
    }
}

proof fn adjoints_pair<R: Scalar>(value: spec_fn(R) -> real, w: Adjoints<R>, d: MarketMove<R>)
    requires
        d.sizes(w),
    ensures
        pairing(value, w.all(), all_moves(d), all_moves(d).len()) == d.against(value, w),
{
    let (a, x) = (w.head + w.discount, d.head + d.discount_pillars);
    joined_pairing(value, w.head, w.discount, d.head, d.discount_pillars, w.discount.len());
    joined_pairing(value, a, w.repo, x, d.repo_pillars, w.repo.len());
}

proof fn rate_sweeps_pair<R: Scalar, Y: DividendDynamics<R>, C: RateMarket<R>>(
    value: spec_fn(R) -> real,
    m: Model<R>,
    y: Y,
    c: C,
    k: RateContextView<R>,
    p: RatePathView<R>,
    z: Seq<R>,
    states: Seq<StochasticDividendHullWhiteState<R>>,
    seeds: Seq<SpotSeed<R>>,
    payoff: R,
    d: MarketMove<R>,
    i: int,
)
    requires
        exact(value),
        d.of(value, c),
        rate_sweepable(k, p, d),
        states.len() >= 1,
        0 <= i <= states.len(),
    ensures
        rate_swept(m, y, c, k, p, z, states, seeds, payoff, i) matches Ok(w) ==> {
            &&& d.sizes(w.out)
            &&& sweep_against(
                value,
                w,
                d,
                if i == 0 {
                    StateMove { equity: 0 as real, dividend: 0 as real }
                } else {
                    rate_state_moves(value, m, y, p, z, states, d.head, (i - 1) as nat)
                },
            ) == value(payoff) * pairing(
                value,
                k.payment_weights,
                all_moves(d),
                all_moves(d).len(),
            ) + rate_spots_moved(value, m, y, k, p, z, states, seeds, d, i)
        },
    decreases states.len() - i,
{
    if i >= states.len() {
        let w = rate_swept(m, y, c, k, p, z, states, seeds, payoff, i)->Ok_0;
        let out = Seq::new(k.count(), |j: int| times(k.payment_weights[j], payoff));
        assert(w.out.all() =~= out);
        adjoints_pair(value, w.out, d);
        paid_pairs(value, k.payment_weights, payoff, all_moves(d), k.count());
        let at = rate_state_moves(value, m, y, p, z, states, d.head, (i - 1) as nat);
        negates(at.equity, 0 as real);
        negates(at.dividend, 0 as real);
        negates(d.reserve, 0 as real);
    } else {
        rate_sweeps_pair(value, m, y, c, k, p, z, states, seeds, payoff, d, i + 1);
        if let Ok(w) = rate_swept(m, y, c, k, p, z, states, seeds, payoff, i + 1) {
            let at = rate_state_moves(value, m, y, p, z, states, d.head, i as nat);
            rate_node_sweeps_transpose(
                value,
                m,
                c,
                p,
                w,
                i,
                k.claims[i],
                states[i],
                seeds[i],
                d,
                at,
            );
            if let Ok(v) = with_node(m, c, p, w, i, k.claims[i], states[i], seeds[i]) {
                if i > 0 {
                    rate_step_sweeps_transpose(
                        value,
                        m,
                        y,
                        p,
                        v,
                        p.steps[i - 1].dt,
                        z[4 * (i - 1)],
                        z[4 * (i - 1) + 1],
                        states[i],
                        states[i - 1],
                        d,
                        rate_state_moves(value, m, y, p, z, states, d.head, (i - 1) as nat),
                    );
                }
            }
        }
    }
}

proof fn paid_pairs<R: Scalar>(
    value: spec_fn(R) -> real,
    weights: Seq<R>,
    payoff: R,
    d: Seq<real>,
    n: nat,
)
    requires
        exact(value),
        n <= weights.len(),
    ensures
        pairing(value, Seq::new(weights.len(), |j: int| times(weights[j], payoff)), d, n) == value(
            payoff,
        ) * pairing(value, weights, d, n),
    decreases n,
{
    let p = value(payoff);
    if n > 0 {
        paid_pairs(value, weights, payoff, d, (n - 1) as nat);
        let (a, b, c) = (
            pairing(value, weights, d, (n - 1) as nat),
            value(weights[n - 1]),
            d[n - 1],
        );
        spreads(p, a, b * c);
        regroups(p, b, c);
    } else {
        negates(p, 0 as real);
    }
}

proof fn funded_pairing<R: Scalar>(
    value: spec_fn(R) -> real,
    all: Seq<R>,
    funding: Seq<R>,
    bar: R,
    d: Seq<real>,
    n: nat,
)
    requires
        exact(value),
        n <= all.len(),
    ensures
        pairing(
            value,
            Seq::new(all.len(), |j: int| plus(all[j], times(bar, funding[j]))),
            d,
            n,
        ) == pairing(value, all, d, n) + value(bar) * pairing(value, funding, d, n),
    decreases n,
{
    let b = value(bar);
    if n > 0 {
        funded_pairing(value, all, funding, bar, d, (n - 1) as nat);
        let j = n - 1;
        let (x, f, y) = (value(all[j]), value(funding[j]), d[j]);
        spreads(y, x, b * f);
        regroups(b, f, y);
        spreads(b, pairing(value, funding, d, (n - 1) as nat), f * y);
    } else {
        negates(b, 0 as real);
    }
}

/// The derivatives of a path beside rates are the transpose of its moves: against any move of
/// the parameters and the pillars, they are the payoff against the move of the payment and the
/// seeds against the moves of the spots, where the reserve moves as it is funded.
pub proof fn rate_pullbacks_transpose<R: Scalar, Y: DividendDynamics<R>, C: RateMarket<R>>(
    value: spec_fn(R) -> real,
    m: Model<R>,
    y: Y,
    c: C,
    k: RateContextView<R>,
    p: RatePathView<R>,
    z: Seq<R>,
    states: Seq<StochasticDividendHullWhiteState<R>>,
    seeds: Seq<SpotSeed<R>>,
    payoff: R,
    d: MarketMove<R>,
)
    requires
        exact(value),
        d.of(value, c),
        rate_sweepable(k, p, d),
        states.len() >= 1,
        d.reserve == pairing(value, k.funding, all_moves(d), all_moves(d).len()),
    ensures
        rate_pullback(m, y, c, k, p, z, states, seeds, payoff) matches Ok(out) ==> pairing(
            value,
            out,
            all_moves(d),
            all_moves(d).len(),
        ) == value(payoff) * pairing(value, k.payment_weights, all_moves(d), all_moves(d).len())
            + rate_spots_moved(value, m, y, k, p, z, states, seeds, d, 0),
{
    rate_sweeps_pair(value, m, y, c, k, p, z, states, seeds, payoff, d, 0);
    if let Ok(out) = rate_pullback(m, y, c, k, p, z, states, seeds, payoff) {
        let w = rate_swept(m, y, c, k, p, z, states, seeds, payoff, 0)->Ok_0;
        adjoints_pair(value, w.out, d);
        funded_pairing(
            value,
            w.out.all(),
            k.funding,
            w.funding_bar,
            all_moves(d),
            all_moves(d).len(),
        );
        negates(value(w.f_bar), 0 as real);
        negates(value(w.y_bar), 0 as real);
    }
}

} // verus!
