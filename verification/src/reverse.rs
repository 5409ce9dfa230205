//! The derivatives of a dividend path: the split of the spot into equity and a
//! reserve funded by carry, reversed step by step.

use crate::bergomi::{volatility_loadings_of, Kernel, KernelView};
use crate::bergomi_reverse::{
    identified, parameter_count, parameter_labels, parameter_pullback, parameter_reverse_of,
    BergomiParameterReverse, ParameterReverseView,
};
use crate::correlation_reverse::{
    correlation_labels, correlation_pullback, correlation_reverse_of, correlations_unsupported,
    edge_count, unsupported, BergomiCorrelationReverse, CorrelationReverseView,
};
use crate::dynamics::{DividendDynamics, KernelNumerics};
use crate::errors::{
    invalid, invalid_field, unsupported_feature, MonteCarloError, StochasticDividendError,
};
use crate::linear::{build, collect_views, make_smallest_pivot, smallest_pivot, viewed, views};
use crate::market::{CarryMarket, CashEvent};
use crate::models::{BuehlerDividendModel, BuehlerDividendState, RoughBergomi};
use crate::pathwise::make_zeros;
use crate::results::{gather, gather_values, seen};
use crate::rough::{
    rough_kernel_of, rough_loadings, RoughDividendKernel, RoughKernelView, MAX_STEPS,
};
use crate::rough_reverse::{
    rough_parameter_reverse_of, rough_pullback, RoughParameterReverse, RoughParameterView,
};
use crate::sampling::{half, zeros};
use crate::scalar::{
    all_finite, gt, is_zero, lawful, le, literal, minus, negated, over, plus, same, times, Math,
    Model, Scalar,
};
use core::ops::Neg;
use vstd::prelude::*;

verus! {

/// The name of a parameter.
#[derive(Clone, Copy, Debug, PartialEq)]
pub enum Label {
    Named(&'static str),
    Indexed { name: &'static str, index: u64 },
}

/// A node of a path: how its spot depends on equity and dividends, and the mean
/// of the dividend that is paid there.
#[derive(Clone, Copy, Debug, PartialEq)]
pub struct PathNode<R> {
    pub time: R,
    pub equity_coefficient: R,
    pub dividend_coefficient: R,
    pub constant: R,
    pub event_mean_cash: Option<R>,
}

/// The adjoints of the spots of a node, after and before its dividend.
#[derive(Clone, Copy, Debug, PartialEq)]
pub struct SpotSeed<R> {
    pub post: R,
    pub pre: R,
}

/// How the three coefficients of a node depend on the parameters.
pub struct NodeJacobian<R> {
    pub equity: Vec<R>,
    pub dividend: Vec<R>,
    pub constant: Vec<R>,
    /// The parameters that are means of dividends paid at the node.
    pub event_indices: Vec<usize>,
}

/// A [`NodeJacobian`] as a mathematical value.
pub ghost struct NodeJacobianView<R> {
    pub equity: Seq<R>,
    pub dividend: Seq<R>,
    pub constant: Seq<R>,
    pub event_indices: Seq<usize>,
}

impl<R> View for NodeJacobian<R> {
    type V = NodeJacobianView<R>;

    open spec fn view(&self) -> NodeJacobianView<R> {
        NodeJacobianView {
            equity: self.equity@,
            dividend: self.dividend@,
            constant: self.constant@,
            event_indices: self.event_indices@,
        }
    }
}

impl<R> NodeJacobianView<R> {
    /// A node with `width` parameters.
    pub open spec fn of(self, width: nat) -> bool {
        &&& self.equity.len() == width
        &&& self.dividend.len() == width
        &&& self.constant.len() == width
        &&& forall|i: int|
            0 <= i < self.event_indices.len() ==> 5 <= #[trigger] self.event_indices[i] < width
    }
}

/// `out` with what a seed of the logarithm of the growth at a time adds to the
/// pillars, which stand from `po` and from `qo` on.
pub open spec fn grown<R: Scalar, C: CarryMarket<R>>(
    c: C,
    out: Seq<R>,
    po: int,
    qo: int,
    time: R,
    seed: R,
) -> Result<Seq<R>, MonteCarloError> {
    match c.discount_transposed(time, negated(seed), out.subrange(po, qo)) {
        Err(e) => Err(e),
        Ok(middle) => match c.repo_spread_transposed(
            time,
            seed,
            out.subrange(qo, out.len() as int),
        ) {
            Err(e) => Err(e),
            Ok(tail) => Ok(out.take(po) + middle + tail),
        },
    }
}

/// The entries of `v` from `from` up to `to`.
fn part<R: Scalar>(v: &Vec<R>, from: usize, to: usize) -> (p: Vec<R>)
    requires
        from <= to <= v@.len(),
    ensures
        p@ == v@.subrange(from as int, to as int),
{
    let ghost entry = |i: int| v@[from + i];
    let count: usize = to - from;
    let p_at = |i: usize| -> (x: R)
        requires
            i < count,
        ensures
            x == entry(i as int),
        { v[from + i] };
    let p = build(
        count,
        p_at,
        Ghost(entry),
    );
    assert(p@ =~= v@.subrange(from as int, to as int));
    p
}

/// Replaces the entries of `out` from `from` on.
fn replace_from<R: Scalar>(out: &mut Vec<R>, from: usize, p: &Vec<R>)
    requires
        from + p@.len() <= old(out)@.len(),
    ensures
        final(out)@ == old(out)@.take(from as int) + p@ + old(out)@.subrange(
            from + p@.len(),
            old(out)@.len() as int,
        ),
        final(out)@.len() == old(out)@.len(),
{
    let ghost start = out@;
    assert(out@.len() == out.len());
    let mut i: usize = 0;
    while i < p.len()
        invariant
            i <= p@.len(),
            from + p@.len() <= start.len(),
            out@.len() == start.len(),
            out@.len() <= usize::MAX,
            forall|k: int| 0 <= k < i ==> #[trigger] out@[from + k] == p@[k],
            forall|k: int|
                0 <= k < out@.len() && !(from <= k < from + i) ==> #[trigger] out@[k] == start[k],
        decreases p@.len() - i,
    {
        out.set(from + i, p[i]);
        i = i + 1;
    }
    proof {
        let want = start.take(from as int) + p@ + start.subrange(
            from + p@.len(),
            start.len() as int,
        );
        assert forall|k: int| 0 <= k < start.len() implies out@[k] == want[k] by {
            if from <= k < from + p@.len() {
                assert(out@[from + (k - from)] == p@[k - from]);
            }
        }
        assert(out@ =~= want);
    }
}

/// Computes [`grown`].
fn grow<R: Scalar, C: CarryMarket<R>, M: Math<R>>(
    m: &M,
    c: &C,
    out: &mut Vec<R>,
    po: usize,
    qo: usize,
    time: R,
    seed: R,
) -> (r: Result<(), MonteCarloError>)
    requires
        po <= qo <= old(out)@.len(),
    ensures
        (match r {
            Ok(_) => Ok(final(out)@),
            Err(e) => Err(e),
        }) == grown(*c, old(out)@, po as int, qo as int, time, seed),
        final(out)@.len() == old(out)@.len(),
{
    m.laws();
    let ghost start = out@;
    let middle_in = part(out, po, qo);
    let middle = match c.transpose_discount(time, seed.neg(), &middle_in) {
        Err(e) => return Err(e),
        Ok(v) => v,
    };
    let width = out.len();
    let tail_in = part(out, qo, width);
    let tail = match c.transpose_repo_spread(time, seed, &tail_in) {
        Err(e) => return Err(e),
        Ok(v) => v,
    };
    replace_from(out, po, &middle);
    replace_from(out, qo, &tail);
    assert(out@ =~= start.take(po as int) + middle@ + tail@);
    Ok(())
}

/// The dependence of the coefficients of a node on the parameters, event by
/// event.
pub ghost struct Coefficients<R> {
    pub equity: Seq<R>,
    pub dividend: Seq<R>,
    pub constant: Seq<R>,
}

/// The dependence before the growth of the event `i` is taken: its mean, and
/// the parameters of the reserve that it leaves after the node.
pub open spec fn event_coefficients<R: Scalar, Y: DividendDynamics<R>>(
    y: Y,
    model: BuehlerDividendModel<R>,
    before: Coefficients<R>,
    e: CashEvent<R>,
    t: R,
    ratio: R,
    i: int,
) -> Coefficients<R> {
    let at = 5 + i;
    let alpha = model.equity_linkage;
    let funded = before.equity.update(at, negated(ratio));
    if gt(e.ex_time, t) {
        let h = minus(e.ex_time, t);
        let d = y.decay_of(model.mean_reversion, h);
        let w = d.first;
        let complement = d.second;
        let reserve = times(ratio, e.fixed_cash);
        let a1 = funded.update(at, plus(funded[at], times(times(ratio, complement), alpha)));
        let a2 = a1.update(2, plus(a1[2], times(times(times(reserve, h), w), alpha)));
        let a3 = a2.update(3, plus(a2[3], times(reserve, complement)));
        let b1 = before.dividend.update(at, times(ratio, w));
        let b2 = b1.update(2, minus(b1[2], times(times(reserve, h), w)));
        let c1 = before.constant.update(
            at,
            times(times(ratio, complement), minus(literal(1), alpha)),
        );
        let c2 = c1.update(
            2,
            plus(c1[2], times(times(times(reserve, h), w), minus(literal(1), alpha))),
        );
        let c3 = c2.update(3, minus(c2[3], times(reserve, complement)));
        Coefficients { equity: a3, dividend: b2, constant: c3 }
    } else {
        Coefficients { equity: funded, ..before }
    }
}

/// All three coefficients with their growth at a time.
pub open spec fn coefficients_grown<R: Scalar, C: CarryMarket<R>>(
    c: C,
    k: Coefficients<R>,
    po: int,
    qo: int,
    time: R,
    equity_seed: R,
    dividend_seed: R,
    constant_seed: R,
) -> Result<Coefficients<R>, MonteCarloError> {
    match grown(c, k.equity, po, qo, time, equity_seed) {
        Err(e) => Err(e),
        Ok(equity) => match grown(c, k.dividend, po, qo, time, dividend_seed) {
            Err(e) => Err(e),
            Ok(dividend) => match grown(c, k.constant, po, qo, time, constant_seed) {
                Err(e) => Err(e),
                Ok(constant) => Ok(Coefficients { equity, dividend, constant }),
            },
        },
    }
}

/// The dependence of the coefficients of a node on the first `n` events. All
/// cash is funded, also that beyond the last node.
pub open spec fn coefficients_after<R: Scalar, Y: DividendDynamics<R>, C: CarryMarket<R>>(
    y: Y,
    c: C,
    model: BuehlerDividendModel<R>,
    t: R,
    g: R,
    width: nat,
    po: int,
    qo: int,
    n: nat,
) -> Result<Coefficients<R>, MonteCarloError>
    decreases n,
{
    if n == 0 {
        Ok(
            Coefficients {
                equity: zeros(width).update(0, g),
                dividend: zeros(width),
                constant: zeros(width),
            },
        )
    } else {
        match coefficients_after(y, c, model, t, g, width, po, qo, (n - 1) as nat) {
            Err(e) => Err(e),
            Ok(before) => {
                let event = c.events_of()[n - 1];
                match c.forward_of(event.ex_time) {
                    Err(e) => Err(e),
                    Ok(forward) => {
                        let ratio = over(g, over(forward, c.spot_of()));
                        let k = event_coefficients(y, model, before, event, t, ratio, n - 1);
                        let cash = event.fixed_cash;
                        coefficients_grown(
                            c,
                            k,
                            po,
                            qo,
                            event.ex_time,
                            times(negated(cash), k.equity[5 + (n - 1)]),
                            times(negated(cash), k.dividend[5 + (n - 1)]),
                            times(negated(cash), k.constant[5 + (n - 1)]),
                        )
                    },
                }
            },
        }
    }
}

/// The parameters that are means of dividends paid at a time, among the first
/// `n` events.
pub open spec fn paid_at<R: Scalar>(events: Seq<CashEvent<R>>, t: R, n: nat) -> Seq<usize>
    decreases n,
{
    if n == 0 {
        Seq::empty()
    } else {
        let before = paid_at(events, t, (n - 1) as nat);
        if same(events[n - 1].ex_time, t) {
            before.push((5 + (n - 1)) as usize)
        } else {
            before
        }
    }
}

/// How the coefficients of a node depend on the parameters.
pub open spec fn node_jacobian<R: Scalar, Y: DividendDynamics<R>, C: CarryMarket<R>>(
    y: Y,
    c: C,
    model: BuehlerDividendModel<R>,
    node: PathNode<R>,
) -> Result<NodeJacobianView<R>, MonteCarloError> {
    let count = c.events_of().len();
    let po = 5 + count as int;
    let qo = po + c.discount_times_of().len();
    let width = (qo + c.repo_spread_times_of().len()) as nat;
    match c.forward_of(node.time) {
        Err(e) => Err(e),
        Ok(forward) => match coefficients_after(
            y,
            c,
            model,
            node.time,
            over(forward, c.spot_of()),
            width,
            po,
            qo,
            count,
        ) {
            Err(e) => Err(e),
            Ok(k) => match coefficients_grown(
                c,
                k,
                po,
                qo,
                node.time,
                node.equity_coefficient,
                node.dividend_coefficient,
                node.constant,
            ) {
                Err(e) => Err(e),
                Ok(k) => Ok(
                    NodeJacobianView {
                        equity: k.equity,
                        dividend: k.dividend,
                        constant: k.constant,
                        event_indices: paid_at(c.events_of(), node.time, count),
                    },
                ),
            },
        },
    }
}

proof fn coefficients_stop<R: Scalar, Y: DividendDynamics<R>, C: CarryMarket<R>>(
    y: Y,
    c: C,
    model: BuehlerDividendModel<R>,
    t: R,
    g: R,
    width: nat,
    po: int,
    qo: int,
    a: nat,
    n: nat,
)
    requires
        a <= n,
        coefficients_after(y, c, model, t, g, width, po, qo, a) is Err,
    ensures
        coefficients_after(y, c, model, t, g, width, po, qo, n) == coefficients_after(
            y,
            c,
            model,
            t,
            g,
            width,
            po,
            qo,
            a,
        ),
    decreases n,
{
    if a < n {
        coefficients_stop(y, c, model, t, g, width, po, qo, a, (n - 1) as nat);
    }
}

/// Takes the dependence of the coefficients of a node on the parameters.
fn take_jacobian<R: Scalar, M: Math<R>, Y: DividendDynamics<R>, C: CarryMarket<R>>(
    m: &M,
    y: &Y,
    c: &C,
    model: BuehlerDividendModel<R>,
    node: PathNode<R>,
    events: &Vec<CashEvent<R>>,
    po: usize,
    qo: usize,
    width: usize,
) -> (r: Result<NodeJacobian<R>, MonteCarloError>)
    requires
        events@ == c.events_of(),
        po == 5 + events@.len(),
        qo == po + c.discount_times_of().len(),
        width == qo + c.repo_spread_times_of().len(),
    ensures
        (match r {
            Ok(j) => Ok(j@),
            Err(e) => Err(e),
        }) == node_jacobian(*y, *c, model, node),
        r matches Ok(j) ==> j@.of(width as nat),
{
    m.laws();
    let t = node.time;
    let spot = c.spot();
    let g = match c.forward(t) {
        Err(e) => return Err(e),
        Ok(f) => f / spot,
    };
    let mut a = make_zeros(m, width);
    a.set(0, g);
    let mut b = make_zeros(m, width);
    let mut k = make_zeros(m, width);
    let mut event_indices: Vec<usize> = Vec::new();
    assert(event_indices@ =~= Seq::empty());
    let alpha = model.equity_linkage;
    let count = events.len();
    let mut i: usize = 0;
    while i < count
        invariant
            lawful::<R>(),
            i <= count,
            count == events@.len(),
            events@ == c.events_of(),
            po == 5 + count,
            po <= qo <= width,
            spot == c.spot_of(),
            alpha == model.equity_linkage,
            t == node.time,
            a@.len() == width,
            b@.len() == width,
            k@.len() == width,
            qo == po + c.discount_times_of().len(),
            width == qo + c.repo_spread_times_of().len(),
            c.forward_of(t) matches Ok(f) && g == over(f, spot),
            event_indices@ == paid_at(events@, t, i as nat),
            forall|h: int|
                0 <= h < event_indices@.len() ==> 5 <= #[trigger] event_indices@[h] < width,
            coefficients_after(
                *y,
                *c,
                model,
                t,
                g,
                width as nat,
                po as int,
                qo as int,
                i as nat,
            ) == Ok::<Coefficients<R>, MonteCarloError>(
                Coefficients { equity: a@, dividend: b@, constant: k@ },
            ),
        decreases count - i,
    {
        proof {
            if coefficients_after(
                *y,
                *c,
                model,
                t,
                g,
                width as nat,
                po as int,
                qo as int,
                (i + 1) as nat,
            ) is Err {
                coefficients_stop(
                    *y,
                    *c,
                    model,
                    t,
                    g,
                    width as nat,
                    po as int,
                    qo as int,
                    (i + 1) as nat,
                    count as nat,
                );
            }
        }
        let e = events[i];
        let ghost before = Coefficients { equity: a@, dividend: b@, constant: k@ };
        let gi = match c.forward(e.ex_time) {
            Err(error) => return Err(error),
            Ok(f) => f / spot,
        };
        let ratio = g / gi;
        let cash = e.fixed_cash;
        let at: usize = 5 + i;
        a.set(at, ratio.neg());
        if e.ex_time == t {
            event_indices.push(at);
        }
        if e.ex_time > t {
            let h = e.ex_time - t;
            let d = y.decay(model.mean_reversion, h);
            let w = d.first;
            let complement = d.second;
            let reserve = ratio * cash;
            let v = a[at] + ratio * complement * alpha;
            a.set(at, v);
            let v = a[2] + reserve * h * w * alpha;
            a.set(2, v);
            let v = a[3] + reserve * complement;
            a.set(3, v);
            b.set(at, ratio * w);
            let v = b[2] - reserve * h * w;
            b.set(2, v);
            let v = ratio * complement * (R::from(1u32) - alpha);
            k.set(at, v);
            let v = k[2] + reserve * h * w * (R::from(1u32) - alpha);
            k.set(2, v);
            let v = k[3] - reserve * complement;
            k.set(3, v);
        }
        let ghost middle = event_coefficients(*y, model, before, e, t, ratio, i as int);
        assert(middle.equity == a@ && middle.dividend == b@ && middle.constant == k@);
        let equity_seed = cash.neg() * a[at];
        let dividend_seed = cash.neg() * b[at];
        let constant_seed = cash.neg() * k[at];
        if let Err(error) = grow(m, c, &mut a, po, qo, e.ex_time, equity_seed) {
            return Err(error);
        }
        if let Err(error) = grow(m, c, &mut b, po, qo, e.ex_time, dividend_seed) {
            return Err(error);
        }
        if let Err(error) = grow(m, c, &mut k, po, qo, e.ex_time, constant_seed) {
            return Err(error);
        }
        i = i + 1;
    }
    if let Err(error) = grow(m, c, &mut a, po, qo, t, node.equity_coefficient) {
        return Err(error);
    }
    if let Err(error) = grow(m, c, &mut b, po, qo, t, node.dividend_coefficient) {
        return Err(error);
    }
    if let Err(error) = grow(m, c, &mut k, po, qo, t, node.constant) {
        return Err(error);
    }
    Ok(NodeJacobian { equity: a, dividend: b, constant: k, event_indices })
}

/// A compiled dividend path.
pub struct DividendPath<R, L> {
    pub nodes: Vec<PathNode<R>>,
    pub times: Vec<R>,
    pub model: BuehlerDividendModel<R>,
    /// The initial volatility.
    pub volatility: R,
    /// The number of normals of a path.
    pub dimension: usize,
    /// The volatility factors, where there are some.
    pub bergomi: Option<Kernel<R, L>>,
    /// The fractional driver, where there is one.
    pub rough: Option<RoughDividendKernel<R>>,
    /// The squared leverage that a fractional driver moves, where there is one.
    pub rough_leverage: Option<L>,
}

/// A [`DividendPath`] as a mathematical value.
pub ghost struct DividendPathView<R, L> {
    pub nodes: Seq<PathNode<R>>,
    pub times: Seq<R>,
    pub model: BuehlerDividendModel<R>,
    pub volatility: R,
    pub dimension: usize,
    pub bergomi: Option<KernelView<R, L>>,
    pub rough: Option<RoughKernelView<R>>,
    pub rough_leverage: Option<L>,
}

impl<R, L> View for DividendPath<R, L> {
    type V = DividendPathView<R, L>;

    open spec fn view(&self) -> DividendPathView<R, L> {
        DividendPathView {
            nodes: self.nodes@,
            times: self.times@,
            model: self.model,
            volatility: self.volatility,
            dimension: self.dimension,
            bergomi: match self.bergomi {
                Some(k) => Some(k@),
                None => None,
            },
            rough: match self.rough {
                Some(k) => Some(k@),
                None => None,
            },
            rough_leverage: self.rough_leverage,
        }
    }
}

impl<R, L> DividendPathView<R, L> {
    /// The number of normals of a step.
    pub open spec fn factors(self) -> nat {
        if self.rough is Some {
            4
        } else {
            match self.bergomi {
                Some(k) => k.d(),
                None => 2,
            }
        }
    }

    /// There is a node, each step has its normals, and the volatility factors or
    /// the fractional driver have the same steps.
    pub open spec fn valid(self) -> bool {
        &&& self.times.len() >= 1
        &&& self.nodes.len() == self.times.len()
        &&& self.dimension == self.factors() * (self.times.len() - 1)
        &&& self.bergomi matches Some(k) ==> k.valid() && identified(k) && k.steps.len()
            == self.times.len() - 1
        &&& self.rough matches Some(k) ==> k.valid() && self.bergomi is None && k.steps.len()
            == self.times.len() - 1
        &&& self.rough_leverage is Some ==> self.rough is Some
    }
}

/// What the derivatives of a plan need beside its path, prepared once.
pub struct ReverseContext<R> {
    pub labels: Vec<Label>,
    pub cash_times: Vec<R>,
    pub discount_times: Vec<R>,
    pub repo_spread_times: Vec<R>,
    pub nodes: Vec<NodeJacobian<R>>,
    pub payment_weights: Vec<R>,
    pub bergomi: Option<BergomiParameterReverse<R>>,
    pub rough: Option<RoughParameterReverse<R>>,
    pub correlation: Option<BergomiCorrelationReverse<R>>,
    pub correlation_start: Option<usize>,
}

/// A [`ReverseContext`] as a mathematical value.
pub ghost struct ContextView<R> {
    pub labels: Seq<Label>,
    pub cash_times: Seq<R>,
    pub discount_times: Seq<R>,
    pub repo_spread_times: Seq<R>,
    pub nodes: Seq<NodeJacobianView<R>>,
    pub payment_weights: Seq<R>,
    pub bergomi: Option<ParameterReverseView<R>>,
    pub rough: Option<RoughParameterView<R>>,
    pub correlation: Option<CorrelationReverseView<R>>,
    pub correlation_start: Option<usize>,
}

impl<R> View for ReverseContext<R> {
    type V = ContextView<R>;

    open spec fn view(&self) -> ContextView<R> {
        ContextView {
            labels: self.labels@,
            cash_times: self.cash_times@,
            discount_times: self.discount_times@,
            repo_spread_times: self.repo_spread_times@,
            nodes: views(self.nodes@),
            payment_weights: self.payment_weights@,
            bergomi: match self.bergomi {
                Some(p) => Some(p@),
                None => None,
            },
            rough: match self.rough {
                Some(p) => Some(p@),
                None => None,
            },
            correlation: match self.correlation {
                Some(p) => Some(p@),
                None => None,
            },
            correlation_start: self.correlation_start,
        }
    }
}

impl<R> ContextView<R> {
    /// The number of parameters of the nodes.
    pub open spec fn base(self) -> nat {
        self.nodes[0].equity.len()
    }

    /// Prepared for `count` nodes of a path of `n` volatility factors, or of
    /// none.
    pub open spec fn of(self, count: nat, n: Option<nat>) -> bool {
        &&& 1 <= count
        &&& self.nodes.len() == count
        &&& 5 <= self.base()
        &&& self.labels.len() == self.payment_weights.len()
        &&& self.labels.len() <= usize::MAX
        &&& forall|i: int| 0 <= i < count ==> (#[trigger] self.nodes[i]).of(self.base())
        &&& (match (self.bergomi, n) {
            (Some(p), Some(f)) => p.of(f, (count - 1) as nat) && self.base() + parameter_count(f)
                <= self.labels.len(),
            (Some(p), None) => false,
            (None, _) => self.base() <= self.labels.len(),
        })
        &&& (match (self.correlation, n) {
            (Some(p), Some(f)) => p.of(f, (count - 1) as nat) && self.bergomi is Some
                && self.correlation_start == Some((self.base() + parameter_count(f)) as usize)
                && self.labels.len() == self.base() + parameter_count(f) + edge_count(f),
            (Some(p), None) => false,
            (None, _) => true,
        })
        &&& self.correlation_start matches Some(start) ==> self.base() <= start
            < self.labels.len()
        &&& self.rough matches Some(p) ==> p.of((count - 1) as nat) && n is None
            && self.correlation_start is None && self.base() + 2 <= self.labels.len()
    }
}

/// The names of the parameters of the nodes: the spot, the volatilities and the
/// reversion of the dividends, then the means of the dividends and the pillars
/// of the curves.
pub open spec fn base_labels<R>(events: Seq<CashEvent<R>>, discount: nat, repo: nat) -> Seq<Label> {
    seq![
        Label::Named("spot"),
        Label::Named("initial_volatility"),
        Label::Named("dividend_mean_reversion"),
        Label::Named("equity_linkage"),
        Label::Named("dividend_volatility"),
    ] + Seq::new(
        events.len(),
        |i: int| Label::Indexed { name: "cash_mean", index: events[i].event },
    ) + Seq::new(
        discount,
        |i: int| Label::Indexed { name: "discount_log_df", index: i as u64 },
    ) + Seq::new(repo, |i: int| Label::Indexed { name: "repo_spread_log_df", index: i as u64 })
}

/// The dependence of the node `i` of a path on the parameters.
pub open spec fn path_jacobian<R: Scalar, Y: DividendDynamics<R>, C: CarryMarket<R>>(
    y: Y,
    c: C,
    model: BuehlerDividendModel<R>,
    nodes: Seq<PathNode<R>>,
) -> spec_fn(int) -> Result<NodeJacobianView<R>, MonteCarloError> {
    |i: int| node_jacobian(y, c, model, nodes[i])
}

/// What the derivatives of a plan need.
pub open spec fn context_of<R: Scalar, L, Y: DividendDynamics<R>, C: CarryMarket<R>>(
    y: Y,
    c: C,
    path: DividendPathView<R, L>,
    payment: R,
) -> Result<ContextView<R>, MonteCarloError> {
    let events = c.events_of();
    let po = 5 + events.len() as int;
    let qo = po + c.discount_times_of().len();
    let width = (qo + c.repo_spread_times_of().len()) as nat;
    match gather(path.nodes.len(), path_jacobian(y, c, path.model, path.nodes)) {
        Err(e) => Err(e),
        Ok(nodes) => match c.discount_transposed(payment, literal(1), zeros((qo - po) as nat)) {
            Err(e) => Err(e),
            Ok(weights) => Ok(
                ContextView {
                    labels: base_labels(
                        events,
                        c.discount_times_of().len(),
                        c.repo_spread_times_of().len(),
                    ),
                    cash_times: Seq::new(events.len(), |i: int| events[i].ex_time),
                    discount_times: c.discount_times_of(),
                    repo_spread_times: c.repo_spread_times_of(),
                    nodes,
                    payment_weights: zeros(po as nat) + weights + zeros((width - qo) as nat),
                    bergomi: None,
                    rough: None,
                    correlation: None,
                    correlation_start: None,
                },
            ),
        },
    }
}

/// Makes the names of the parameters of the nodes.
fn make_labels<R: Scalar>(events: &Vec<CashEvent<R>>, discount: usize, repo: usize) -> (v: Vec<
    Label,
>)
    requires
        5 + events@.len() + discount + repo <= usize::MAX,
    ensures
        v@ == base_labels(events@, discount as nat, repo as nat),
        v@.len() == 5 + events@.len() + discount + repo,
{
    let count = events.len();
    let ghost all = base_labels(events@, discount as nat, repo as nat);
    let ghost entry = |i: int| all[i];
    let v_at = |i: usize| -> (x: Label)
        requires
            i < 5 + count + discount + repo,
        ensures
            x == entry(i as int),
        {
            if i == 0 {
                Label::Named("spot")
            } else if i == 1 {
                Label::Named("initial_volatility")
            } else if i == 2 {
                Label::Named("dividend_mean_reversion")
            } else if i == 3 {
                Label::Named("equity_linkage")
            } else if i == 4 {
                Label::Named("dividend_volatility")
            } else if i < 5 + count {
                Label::Indexed { name: "cash_mean", index: events[i - 5].event }
            } else if i < 5 + count + discount {
                Label::Indexed { name: "discount_log_df", index: (i - 5 - count) as u64 }
            } else {
                Label::Indexed {
                    name: "repo_spread_log_df",
                    index: (i - 5 - count - discount) as u64,
                }
            }
        };
    let v = build(
        5 + count + discount + repo,
        v_at,
        Ghost(entry),
    );
    assert(v@ =~= all);
    v
}

impl<R: Scalar> ReverseContext<R> {
    /// Prepares the derivatives of a plan.
    pub fn new<L, M: Math<R>, Y: DividendDynamics<R>, C: CarryMarket<R>>(
        m: &M,
        y: &Y,
        c: &C,
        path: &DividendPath<R, L>,
        payment: R,
    ) -> (r: Result<ReverseContext<R>, MonteCarloError>)
        requires
            path@.valid(),
            5 + c.events_of().len() + c.discount_times_of().len() + c.repo_spread_times_of().len()
                <= usize::MAX,
        ensures
            viewed(r) == context_of(*y, *c, path@, payment),
            r matches Ok(k) ==> k@.of(path@.nodes.len(), None) && k@.bergomi is None
                && k@.rough is None && k@.correlation is None && k@.correlation_start is None
                && k@.labels.len()
                == k@.base() && k@.base() == 5 + c.events_of().len() + c.discount_times_of().len()
                + c.repo_spread_times_of().len(),
    {
        m.laws();
        let events = c.events();
        let discount_times = c.discount_times();
        let repo_spread_times = c.repo_spread_times();
        let count = events.len();
        let ghost when = |i: int| events@[i].ex_time;
        let cash_times_at = |i: usize| -> (x: R)
            requires
                i < count,
            ensures
                x == when(i as int),
            { events[i].ex_time };
        let cash_times = build(
            count,
            cash_times_at,
            Ghost(when),
        );
        assert(cash_times@ =~= Seq::new(events@.len(), |i: int| events@[i].ex_time));
        let labels = make_labels(&events, discount_times.len(), repo_spread_times.len());
        let po: usize = 5 + count;
        let qo: usize = po + discount_times.len();
        let width: usize = qo + repo_spread_times.len();
        let total = path.nodes.len();
        let ghost law = path_jacobian(*y, *c, path@.model, path@.nodes);
        let ghost sized = |j: NodeJacobian<R>| j@.of(width as nat);
        let nodes_at = |i: usize| -> (x: Result<NodeJacobian<R>, MonteCarloError>)
            requires
                i < total,
            ensures
                viewed(x) == law(i as int),
                x matches Ok(j) ==> sized(j),
            { take_jacobian(m, y, c, path.model, path.nodes[i], &events, po, qo, width) };
        let nodes = match collect_views(
            total,
            nodes_at,
            Ghost(law),
            Ghost(sized),
        ) {
            Err(e) => return Err(e),
            Ok(v) => v,
        };
        let none = make_zeros(m, qo - po);
        let weights = match c.transpose_discount(payment, R::from(1u32), &none) {
            Err(e) => return Err(e),
            Ok(v) => v,
        };
        let mut payment_weights = make_zeros(m, width);
        replace_from(&mut payment_weights, po, &weights);
        proof {
            assert(payment_weights@ =~= zeros(po as nat) + weights@ + zeros((width - qo) as nat));
            assert(views(nodes@)[0] == nodes@[0]@);
            assert(sized(nodes@[0]));
        }
        Ok(
            ReverseContext {
                labels,
                cash_times,
                discount_times,
                repo_spread_times,
                nodes,
                payment_weights,
                bergomi: None,
                rough: None,
                correlation: None,
                correlation_start: None,
            },
        )
    }
}

/// Names of fixed parameters.
pub open spec fn named(names: Seq<&'static str>) -> Seq<Label> {
    Seq::new(names.len(), |i: int| Label::Named(names[i]))
}

/// A context with more parameters, whose payment weights are zero.
pub open spec fn extended<R: Scalar>(k: ContextView<R>, labels: Seq<Label>) -> ContextView<R> {
    ContextView {
        labels: k.labels + labels,
        payment_weights: k.payment_weights + zeros(labels.len()),
        ..k
    }
}

/// The names of the parameters of a fractional driver.
pub open spec fn rough_labels() -> Seq<&'static str> {
    seq!["rough_hurst", "rough_vol_of_vol"]
}

/// The correlations of a fractional driver have no derivatives.
pub open spec fn rough_correlations_unsupported() -> MonteCarloError {
    unsupported_feature("rough correlation AAD")
}

/// A context with the parameters of the volatility factors, or of the fractional
/// driver.
pub open spec fn with_parameters<R: Scalar, L, N: KernelNumerics<R>>(
    m: Model<R>,
    o: N,
    k: ContextView<R>,
    path: DividendPathView<R, L>,
) -> Result<ContextView<R>, MonteCarloError> {
    match (path.rough, path.bergomi) {
        (Some(kernel), _) => match rough_parameter_reverse_of(m, kernel, path.times) {
            Err(e) => Err(e),
            Ok(p) => Ok(ContextView { rough: Some(p), ..extended(k, named(rough_labels())) }),
        },
        (None, None) => Err(
            unsupported_feature("evaluate_bergomi_aad requires a 1F or 2F Bergomi plan"),
        ),
        (None, Some(kernel)) => match parameter_reverse_of(
            m,
            o,
            kernel,
            path.model.equity_dividend_correlation,
            path.times,
        ) {
            Err(e) => Err(e),
            Ok(p) => Ok(
                ContextView {
                    bergomi: Some(p),
                    ..extended(k, named(parameter_labels(p.weight.len())))
                },
            ),
        },
    }
}

/// The correlation of equity and dividends leaves room.
pub open spec fn correlation_open<R: Scalar>(rho: R) -> bool {
    !le(times(minus(literal(1), rho), plus(literal(1), rho)), smallest_pivot())
}

/// A context with the correlations of the drivers, behind the parameters of the
/// volatility factors where there are some. A fractional driver is refused.
pub open spec fn with_correlations<R: Scalar, L, N: KernelNumerics<R>>(
    m: Model<R>,
    o: N,
    k: ContextView<R>,
    path: DividendPathView<R, L>,
) -> Result<ContextView<R>, MonteCarloError> {
    let rho = path.model.equity_dividend_correlation;
    if path.rough is Some {
        Err(rough_correlations_unsupported())
    } else if !correlation_open(rho) {
        Err(correlations_unsupported())
    } else {
        match path.bergomi {
            Some(kernel) => match correlation_reverse_of(m, o, kernel, rho, path.times) {
                Err(e) => Err(e),
                Ok(p) => match with_parameters(m, o, k, path) {
                    Err(e) => Err(e),
                    Ok(next) => Ok(
                        ContextView {
                            correlation: Some(p),
                            correlation_start: Some(next.labels.len() as usize),
                            ..extended(next, named(correlation_labels(p.n())))
                        },
                    ),
                },
            },
            None => Ok(
                ContextView {
                    correlation_start: Some(k.labels.len() as usize),
                    ..extended(k, seq![Label::Named("equity_dividend_correlation")])
                },
            ),
        }
    }
}

impl<R: Scalar> ReverseContext<R> {
    /// Appends named parameters whose payment weights are zero.
    fn extend<M: Math<R>>(&mut self, m: &M, names: &Vec<&'static str>)
        ensures
            final(self)@ == extended(old(self)@, named(names@)),
    {
        m.laws();
        let ghost start = self@;
        let mut i: usize = 0;
        while i < names.len()
            invariant
                lawful::<R>(),
                i <= names@.len(),
                self@ == extended(start, named(names@.take(i as int))),
            decreases names@.len() - i,
        {
            let mut labels: Vec<Label> = Vec::new();
            let mut weights: Vec<R> = Vec::new();
            std::mem::swap(&mut labels, &mut self.labels);
            std::mem::swap(&mut weights, &mut self.payment_weights);
            let ghost more = named(names@.take(i as int));
            labels.push(Label::Named(names[i]));
            weights.push(R::from(0u32));
            proof {
                let next = named(names@.take(i + 1));
                assert(labels@ =~= start.labels + next);
                assert(weights@ =~= start.payment_weights + zeros(next.len()));
            }
            self.labels = labels;
            self.payment_weights = weights;
            i = i + 1;
        }
        assert(names@.take(i as int) =~= names@);
    }

    /// Adds the parameters of the volatility factors.
    pub fn enable_bergomi_parameters<L, M: Math<R>, N: KernelNumerics<R>>(
        &mut self,
        m: &M,
        o: &N,
        path: &DividendPath<R, L>,
    ) -> (r: Result<(), MonteCarloError>)
        requires
            path@.valid(),
            old(self)@.of(path@.nodes.len(), None),
            old(self)@.labels.len() == old(self)@.base(),
            old(self)@.rough is None,
            old(self)@.correlation is None,
            old(self)@.correlation_start is None,
            old(self)@.base() + 4 <= usize::MAX,
        ensures
            (match r {
                Ok(_) => Ok(final(self)@),
                Err(e) => Err(e),
            }) == with_parameters(m.model(), *o, old(self)@, path@),
            r is Ok && path@.rough is None ==> (path@.bergomi matches Some(k) && final(self)@.of(
                path@.nodes.len(),
                Some(k.n()),
            ) && final(self)@.labels.len() == old(self)@.base() + parameter_count(k.n())
                && final(self)@.base() == old(self)@.base() && final(self)@.bergomi is Some),
            r is Ok && path@.rough is Some ==> final(self)@.of(path@.nodes.len(), None)
                && final(self)@.labels.len() == old(self)@.base() + 2,
            r is Err ==> final(self)@ == old(self)@,
    {
        if let Some(kernel) = &path.rough {
            let p = match RoughParameterReverse::new(m, kernel, &path.times) {
                Err(e) => return Err(e),
                Ok(p) => p,
            };
            let names: Vec<&'static str> = vec!["rough_hurst", "rough_vol_of_vol"];
            assert(names@ =~= rough_labels());
            self.extend(m, &names);
            self.rough = Some(p);
            return Ok(());
        }
        let kernel = match &path.bergomi {
            None => return Err(
                MonteCarloError::StochasticDividend(
                    StochasticDividendError::Unsupported {
                        feature: "evaluate_bergomi_aad requires a 1F or 2F Bergomi plan",
                    },
                ),
            ),
            Some(k) => k,
        };
        let p = match BergomiParameterReverse::new(
            m,
            o,
            kernel,
            path.model.equity_dividend_correlation,
            &path.times,
        ) {
            Err(e) => return Err(e),
            Ok(p) => p,
        };
        let names = p.labels();
        self.extend(m, &names);
        self.bergomi = Some(p);
        Ok(())
    }

    /// Adds the correlations of the drivers.
    pub fn enable_correlations<L, M: Math<R>, N: KernelNumerics<R>>(
        &mut self,
        m: &M,
        o: &N,
        path: &DividendPath<R, L>,
    ) -> (r: Result<(), MonteCarloError>)
        requires
            path@.valid(),
            old(self)@.of(path@.nodes.len(), None),
            old(self)@.labels.len() == old(self)@.base(),
            old(self)@.rough is None,
            old(self)@.correlation is None,
            old(self)@.correlation_start is None,
            old(self)@.base() + 10 <= usize::MAX,
        ensures
            (match r {
                Ok(_) => Ok(final(self)@),
                Err(e) => Err(e),
            }) == with_correlations(m.model(), *o, old(self)@, path@),
            r is Ok ==> final(self)@.of(
                path@.nodes.len(),
                match path@.bergomi {
                    Some(k) => Some(k.n()),
                    None => None,
                },
            ) && final(self)@.labels.len() <= old(self)@.base() + 10,
            r is Err ==> final(self)@ == old(self)@,
            path@.rough is Some ==> r == Err::<(), MonteCarloError>(
                rough_correlations_unsupported(),
            ),
    {
        if path.rough.is_some() {
            return Err(
                MonteCarloError::StochasticDividend(
                    StochasticDividendError::Unsupported { feature: "rough correlation AAD" },
                ),
            );
        }
        m.laws();
        let rho = path.model.equity_dividend_correlation;
        let room = (R::from(1u32) - rho) * (R::from(1u32) + rho);
        let bound = make_smallest_pivot(m);
        if room <= bound {
            return Err(unsupported());
        }
        match &path.bergomi {
            Some(kernel) => {
                let p = match BergomiCorrelationReverse::new(m, o, kernel, rho, &path.times) {
                    Err(e) => return Err(e),
                    Ok(p) => p,
                };
                if let Err(e) = self.enable_bergomi_parameters(m, o, path) {
                    return Err(e);
                }
                let names = p.labels();
                let start = self.labels.len();
                self.extend(m, &names);
                self.correlation_start = Some(start);
                self.correlation = Some(p);
            },
            None => {
                let names: Vec<&'static str> = vec!["equity_dividend_correlation"];
                let start = self.labels.len();
                self.extend(m, &names);
                proof {
                    assert(named(names@) =~= seq![Label::Named("equity_dividend_correlation")]);
                }
                self.correlation_start = Some(start);
            },
        }
        Ok(())
    }
}

/// What the spot of a node contributes to the derivative with respect to the
/// parameter `j`.
pub open spec fn node_term<R: Scalar>(
    jac: NodeJacobianView<R>,
    s: BuehlerDividendState<R>,
    seed: SpotSeed<R>,
    j: int,
) -> R {
    times(
        plus(seed.post, seed.pre),
        plus(
            plus(times(s.equity, jac.equity[j]), times(s.dividend, jac.dividend[j])),
            jac.constant[j],
        ),
    )
}

/// The derivative with respect to the parameter `j` out of the spots of the
/// nodes from `i` on, added to `base`, the last node first.
pub open spec fn node_sum<R: Scalar>(
    nodes: Seq<NodeJacobianView<R>>,
    states: Seq<BuehlerDividendState<R>>,
    seeds: Seq<SpotSeed<R>>,
    base: R,
    j: int,
    i: int,
) -> R
    decreases states.len() - i,
{
    if i >= states.len() {
        base
    } else {
        plus(
            node_sum(nodes, states, seeds, base, j, i + 1),
            node_term(nodes[i], states[i], seeds[i], j),
        )
    }
}

/// The derivative of a path with respect to the spot alone: the normalised
/// states do not depend on it.
pub open spec fn spot_pullback_of<R: Scalar>(
    m: Model<R>,
    k: ContextView<R>,
    states: Seq<BuehlerDividendState<R>>,
    seeds: Seq<SpotSeed<R>>,
) -> Result<R, MonteCarloError> {
    if states.len() != k.nodes.len() || seeds.len() != states.len() {
        Err(invalid_field("spot_reverse_shape"))
    } else {
        let out = node_sum(k.nodes, states, seeds, literal(0), 0, 0);
        if m.is_finite(out) {
            Ok(out)
        } else {
            Err(invalid_field("spot_reverse_result"))
        }
    }
}

impl<R: Scalar> ReverseContext<R> {
    /// Takes the derivative of a path with respect to the spot.
    pub fn spot_pullback<M: Math<R>>(
        &self,
        m: &M,
        states: &Vec<BuehlerDividendState<R>>,
        seeds: &Vec<SpotSeed<R>>,
    ) -> (r: Result<R, MonteCarloError>)
        requires
            1 <= self@.nodes.len(),
            5 <= self@.base(),
            forall|i: int| 0 <= i < self@.nodes.len()
                ==> (#[trigger] self@.nodes[i]).of(self@.base()),
        ensures
            r == spot_pullback_of(m.model(), self@, states@, seeds@),
    {
        m.laws();
        if states.len() != self.nodes.len() || seeds.len() != states.len() {
            return Err(invalid("spot_reverse_shape"));
        }
        let mut out = R::from(0u32);
        let mut left: usize = states.len();
        while left > 0
            invariant
                lawful::<R>(),
                left <= states@.len(),
                states@.len() == self@.nodes.len(),
                seeds@.len() == states@.len(),
                5 <= self@.base(),
                forall|i: int|
                    0 <= i < self@.nodes.len() ==> (#[trigger] self@.nodes[i]).of(self@.base()),
                out == node_sum(self@.nodes, states@, seeds@, literal(0), 0, left as int),
            decreases left,
        {
            let i: usize = left - 1;
            let s = states[i];
            let jac = &self.nodes[i];
            let seed = seeds[i];
            assert(self@.nodes[i as int].of(self@.base()));
            assert(jac@ == self@.nodes[i as int]);
            out = out + (seed.post + seed.pre) * (
                s.equity * jac.equity[0] + s.dividend * jac.dividend[0] + jac.constant[0]
            );
            left = i;
        }
        if !m.is_finite(out) {
            return Err(invalid("spot_reverse_result"));
        }
        Ok(out)
    }
}

/// The adjoints at a node: of the parameters, of equity and dividends there, and
/// of the loadings of the steps.
pub ghost struct Sweep<R> {
    pub out: Seq<R>,
    pub equity: R,
    pub dividend: R,
    pub bars: Seq<R>,
}

/// `out` with `x` added at each of the indices.
pub open spec fn added_at<R: Scalar>(out: Seq<R>, indices: Seq<usize>, x: R) -> Seq<R>
    decreases indices.len(),
{
    if indices.len() == 0 {
        out
    } else {
        let before = added_at(out, indices.drop_last(), x);
        let j = indices.last() as int;
        before.update(j, plus(before[j], x))
    }
}

/// The mean of the dividend that is paid at a node.
pub open spec fn cash_at<R: Scalar>(node: PathNode<R>) -> R {
    match node.event_mean_cash {
        Some(x) => x,
        None => literal(0),
    }
}

/// The adjoints of the parameters with the spots of a node.
pub open spec fn node_added<R: Scalar>(
    jac: NodeJacobianView<R>,
    s: BuehlerDividendState<R>,
    seed: SpotSeed<R>,
    out: Seq<R>,
) -> Seq<R> {
    added_at(
        Seq::new(
            out.len(),
            |j: int|
                if j < jac.equity.len() {
                    plus(out[j], node_term(jac, s, seed, j))
                } else {
                    out[j]
                },
        ),
        jac.event_indices,
        times(seed.pre, s.dividend),
    )
}

/// The adjoints with the spots of a node.
pub open spec fn node_swept<R: Scalar>(
    node: PathNode<R>,
    jac: NodeJacobianView<R>,
    s: BuehlerDividendState<R>,
    seed: SpotSeed<R>,
    w: Sweep<R>,
) -> Sweep<R> {
    let total = plus(seed.post, seed.pre);
    Sweep {
        out: node_added(jac, s, seed, w.out),
        equity: plus(w.equity, times(total, node.equity_coefficient)),
        dividend: plus(
            w.dividend,
            plus(times(total, node.dividend_coefficient), times(seed.pre, cash_at(node))),
        ),
        bars: w.bars,
    }
}

/// The adjoints at the start of the step that ends in the node `i`. The
/// dividends revert, are moved by noise, and revert again; equity moves between.
pub open spec fn step_swept<R: Scalar, L, Y: DividendDynamics<R>>(
    m: Model<R>,
    y: Y,
    path: DividendPathView<R, L>,
    start: Option<usize>,
    loadings: Seq<R>,
    z: Seq<R>,
    states: Seq<BuehlerDividendState<R>>,
    i: int,
    w: Sweep<R>,
) -> Sweep<R> {
    let model = path.model;
    let alpha = model.equity_linkage;
    let rho = model.equity_dividend_correlation;
    let now = states[i];
    let old = states[i - 1];
    let z0 = z[path.factors() * (i - 1)];
    let z1 = z[path.factors() * (i - 1) + 1];
    let dt = minus(path.times[i], path.times[i - 1]);
    let root = m.sqrt(dt);
    let decays = y.decay_of(model.mean_reversion, times(half(), dt));
    let a = decays.first;
    let b = decays.second;
    let old_target = y.target_of(model, old.equity);
    let now_target = y.target_of(model, now.equity);
    let level = y.blend_of(decays, old.dividend, old_target);
    let v = times(model.dividend_volatility, root);
    let zd = plus(
        times(rho, z0),
        times(m.sqrt(times(minus(literal(1), rho), plus(literal(1), rho))), z1),
    );
    let ed = m.exp(plus(times(times(negated(half()), v), v), times(v, zd)));
    let noise = times(level, ed);
    let sigma = if same(path.volatility, literal(0)) {
        literal(0)
    } else {
        times(path.volatility, loadings[i - 1])
    };
    let u = times(sigma, root);
    let ef = m.exp(plus(times(times(negated(half()), u), u), times(u, z0)));
    let noise_bar = times(a, w.dividend);
    let next = plus(w.equity, times(times(b, alpha), w.dividend));
    let level_bar = times(noise_bar, ed);
    let o1 = w.out.update(
        2,
        plus(
            w.out[2],
            times(
                times(w.dividend, times(times(negated(half()), dt), a)),
                minus(noise, now_target),
            ),
        ),
    );
    let o2 = o1.update(3, plus(o1[3], times(times(w.dividend, b), minus(now.equity, literal(1)))));
    let o3 = o2.update(4, plus(o2[4], times(times(times(noise_bar, noise), minus(zd, v)), root)));
    let o4 = match start {
        Some(at) => {
            let here = at as int;
            let slope = minus(
                z0,
                times(over(rho, m.sqrt(times(minus(literal(1), rho), plus(literal(1), rho)))), z1),
            );
            o3.update(here, plus(o3[here], times(times(times(noise_bar, noise), v), slope)))
        },
        None => o3,
    };
    let o5 = o4.update(
        1,
        plus(
            o4[1],
            times(times(times(times(next, now.equity), minus(z0, u)), root), loadings[i - 1]),
        ),
    );
    let o6 = o5.update(
        2,
        plus(
            o5[2],
            times(
                times(level_bar, times(times(negated(half()), dt), a)),
                minus(old.dividend, old_target),
            ),
        ),
    );
    let o7 = o6.update(3, plus(o6[3], times(times(level_bar, b), minus(old.equity, literal(1)))));
    Sweep {
        out: o7,
        equity: plus(times(next, ef), times(times(level_bar, b), alpha)),
        dividend: times(level_bar, a),
        bars: w.bars.update(
            i - 1,
            times(times(times(times(next, now.equity), minus(z0, u)), root), path.volatility),
        ),
    }
}

/// The adjoints out of the nodes from `i` on, at the start of the step that ends
/// in the node `i`.
pub open spec fn swept<R: Scalar, L, Y: DividendDynamics<R>>(
    m: Model<R>,
    y: Y,
    k: ContextView<R>,
    path: DividendPathView<R, L>,
    loadings: Seq<R>,
    z: Seq<R>,
    states: Seq<BuehlerDividendState<R>>,
    seeds: Seq<SpotSeed<R>>,
    payoff: R,
    i: int,
) -> Sweep<R>
    decreases states.len() - i,
{
    if i >= states.len() {
        Sweep {
            out: Seq::new(
                k.payment_weights.len(),
                |j: int| times(payoff, k.payment_weights[j]),
            ),
            equity: literal(0),
            dividend: literal(0),
            bars: zeros((states.len() - 1) as nat),
        }
    } else {
        let later = swept(m, y, k, path, loadings, z, states, seeds, payoff, i + 1);
        let at = node_swept(path.nodes[i], k.nodes[i], states[i], seeds[i], later);
        if i == 0 {
            at
        } else {
            step_swept(m, y, path, k.correlation_start, loadings, z, states, i, at)
        }
    }
}

/// The loadings of the steps of a path: one without volatility factors. Those of a
/// leverage surface are not loadings of the initial volatility.
pub open spec fn path_loadings<R: Scalar, L>(
    m: Model<R>,
    path: DividendPathView<R, L>,
    z: Seq<R>,
) -> Result<Seq<R>, MonteCarloError> {
    match (path.rough, path.bergomi) {
        (Some(k), _) => if path.rough_leverage is Some {
            Err(unsupported_feature("residual-equity LSV reverse; use price-only evaluation"))
        } else {
            rough_loadings(m, k, z)
        },
        (None, Some(k)) => volatility_loadings_of(m, k, z),
        (None, None) => Ok(Seq::new((path.times.len() - 1) as nat, |i: int| literal(1))),
    }
}

/// All seeds are finite.
pub open spec fn seeds_finite<R: Scalar>(m: Model<R>, seeds: Seq<SpotSeed<R>>) -> bool {
    forall|i: int|
        0 <= i < seeds.len() ==> m.is_finite((#[trigger] seeds[i]).post) && m.is_finite(
            seeds[i].pre,
        )
}

/// `out` with the derivatives of the volatility factors in their place.
pub open spec fn with_factor_part<R: Scalar, L>(
    m: Model<R>,
    k: ContextView<R>,
    path: DividendPathView<R, L>,
    z: Seq<R>,
    w: Sweep<R>,
) -> Result<Seq<R>, MonteCarloError> {
    match (k.rough, path.rough, k.bergomi, path.bergomi) {
        (Some(p), Some(kernel), _, _) => match rough_pullback(m, kernel, p, z, w.bars) {
            Err(e) => Err(e),
            Ok(extra) => Ok(
                w.out.take(k.base() as int) + seq![extra.first, extra.second] + w.out.subrange(
                    (k.base() + 2) as int,
                    w.out.len() as int,
                ),
            ),
        },
        (_, _, Some(p), Some(kernel)) => match parameter_pullback(m, kernel, p, z, w.bars) {
            Err(e) => Err(e),
            Ok(extra) => Ok(
                w.out.take(k.base() as int) + extra + w.out.subrange(
                    (k.base() + extra.len()) as int,
                    w.out.len() as int,
                ),
            ),
        },
        _ => Ok(w.out),
    }
}

/// `out` with the derivatives of the loadings with respect to the correlations
/// added in their place.
pub open spec fn with_correlation_part<R: Scalar, L>(
    m: Model<R>,
    k: ContextView<R>,
    path: DividendPathView<R, L>,
    z: Seq<R>,
    bars: Seq<R>,
    out: Seq<R>,
) -> Result<Seq<R>, MonteCarloError> {
    match (k.correlation, path.bergomi, k.correlation_start) {
        (Some(p), Some(kernel), Some(start)) => match correlation_pullback(m, kernel, p, z, bars) {
            Err(e) => Err(e),
            Ok(extra) => Ok(
                Seq::new(
                    out.len(),
                    |j: int|
                        if start <= j < start + extra.len() {
                            plus(out[j], extra[j - start])
                        } else {
                            out[j]
                        },
                ),
            ),
        },
        _ => Ok(out),
    }
}

/// The derivatives of a path with respect to all parameters, out of the adjoints
/// of its spots.
pub open spec fn pullback_of<R: Scalar, L, Y: DividendDynamics<R>>(
    m: Model<R>,
    y: Y,
    k: ContextView<R>,
    path: DividendPathView<R, L>,
    z: Seq<R>,
    states: Seq<BuehlerDividendState<R>>,
    seeds: Seq<SpotSeed<R>>,
    payoff: R,
) -> Result<Seq<R>, MonteCarloError> {
    if z.len() != path.dimension || states.len() != path.times.len() || seeds.len()
        != states.len() {
        Err(invalid_field("reverse_shape"))
    } else if !m.is_finite(payoff) || !seeds_finite(m, seeds) {
        Err(invalid_field("reverse_seed"))
    } else {
        match path_loadings(m, path, z) {
            Err(e) => Err(e),
            Ok(loadings) => {
                let w = swept(m, y, k, path, loadings, z, states, seeds, payoff, 0);
                match with_factor_part(m, k, path, z, w) {
                    Err(e) => Err(e),
                    Ok(first) => match with_correlation_part(m, k, path, z, w.bars, first) {
                        Err(e) => Err(e),
                        Ok(out) => if m.all_finite(out) {
                            Ok(out)
                        } else {
                            Err(invalid_field("reverse_result"))
                        },
                    },
                }
            },
        }
    }
}

/// Tests [`seeds_finite`].
pub(crate) fn are_seeds_finite<R: Scalar, M: Math<R>>(m: &M, seeds: &Vec<SpotSeed<R>>) -> (b: bool)
    ensures
        b == seeds_finite(m.model(), seeds@),
{
    let mut i: usize = 0;
    while i < seeds.len()
        invariant
            i <= seeds@.len(),
            forall|k: int|
                0 <= k < i ==> m.model().is_finite((#[trigger] seeds@[k]).post)
                    && m.model().is_finite(seeds@[k].pre),
        decreases seeds@.len() - i,
    {
        if !m.is_finite(seeds[i].post) || !m.is_finite(seeds[i].pre) {
            assert(!(m.model().is_finite(seeds@[i as int].post) && m.model().is_finite(
                seeds@[i as int].pre,
            )));
            return false;
        }
        i = i + 1;
    }
    true
}

/// Adds `x` at each of the indices.
fn add_at<R: Scalar, M: Math<R>>(m: &M, out: &mut Vec<R>, indices: &Vec<usize>, x: R)
    requires
        forall|i: int|
            0 <= i < indices@.len() ==> #[trigger] indices@[i] < old(out)@.len(),
    ensures
        final(out)@ == added_at(old(out)@, indices@, x),
        final(out)@.len() == old(out)@.len(),
{
    m.laws();
    let ghost start = out@;
    let mut i: usize = 0;
    while i < indices.len()
        invariant
            lawful::<R>(),
            i <= indices@.len(),
            out@.len() == start.len(),
            forall|i: int| 0 <= i < indices@.len() ==> #[trigger] indices@[i] < start.len(),
            out@ == added_at(start, indices@.take(i as int), x),
        decreases indices@.len() - i,
    {
        let j = indices[i];
        let v = out[j] + x;
        out.set(j, v);
        assert(indices@.take(i + 1).drop_last() =~= indices@.take(i as int));
        i = i + 1;
    }
    assert(indices@.take(i as int) =~= indices@);
}

proof fn lemma_steps(d: int, steps: int)
    requires
        0 < d,
        0 <= steps,
    ensures
        (d * steps) / d == steps,
{
    assert((d * steps) / d == steps) by (nonlinear_arith)
        requires
            0 < d,
            0 <= steps,
    ;
}

proof fn lemma_normals(d: int, i: int, count: int)
    requires
        2 <= d,
        0 < i < count,
    ensures
        0 <= d * (i - 1),
        d * (i - 1) + 1 < d * (count - 1),
{
    assert(0 <= d * (i - 1) && d * (i - 1) + 1 < d * (count - 1)) by (nonlinear_arith)
        requires
            2 <= d,
            0 < i < count,
    ;
}

impl<R, L> DividendPath<R, L> {
    /// The number of normals of a step.
    pub fn random_factor_count(&self) -> (n: usize)
        requires
            self@.valid(),
        ensures
            n == self@.factors(),
    {
        if self.rough.is_some() {
            return 4;
        }
        match &self.bergomi {
            Some(k) => {
                proof {
                    let v = k@;
                    assert(v.d() <= usize::MAX) by (nonlinear_arith)
                        requires
                            v.d() * (v.steps.len() + 1) <= usize::MAX,
                            v.steps.len() >= 0,
                    ;
                }
                k.weights.len() + 2
            },
            None => 2,
        }
    }
}

/// A path whose volatility is moved by a fractional driver.
pub open spec fn roughened<R, L>(
    path: DividendPathView<R, L>,
    k: RoughKernelView<R>,
) -> DividendPathView<R, L> {
    DividendPathView {
        dimension: (4 * (path.times.len() - 1)) as usize,
        bergomi: None,
        rough: Some(k),
        rough_leverage: None,
        ..path
    }
}

/// A path with the fractional driver of a rough model.
pub open spec fn rough_path_of<R: Scalar, L, N: KernelNumerics<R>>(
    m: Model<R>,
    o: N,
    path: DividendPathView<R, L>,
    factor: RoughBergomi<R>,
    correlation: R,
) -> Result<DividendPathView<R, L>, MonteCarloError> {
    match rough_kernel_of(m, o, path.model, factor, correlation, path.times) {
        Err(e) => Err(e),
        Ok(k) => Ok(roughened(path, k)),
    }
}

impl<R: Scalar, L> DividendPath<R, L> {
    /// Moves the volatility of the path by the fractional driver of a rough model.
    pub fn with_rough_bergomi<M: Math<R>, N: KernelNumerics<R>>(
        self,
        m: &M,
        o: &N,
        factor: RoughBergomi<R>,
        correlation: R,
    ) -> (r: Result<DividendPath<R, L>, MonteCarloError>)
        requires
            self@.valid(),
        ensures
            viewed(r) == rough_path_of(m.model(), *o, self@, factor, correlation),
            r matches Ok(p) ==> p@.valid() && p@.rough is Some && p.dimension <= 4 * MAX_STEPS,
    {
        let kernel = match RoughDividendKernel::compile(
            m,
            o,
            self.model,
            factor,
            correlation,
            &self.times,
        ) {
            Err(e) => return Err(e),
            Ok(k) => k,
        };
        let dimension: usize = 4 * (self.times.len() - 1);
        Ok(
            DividendPath {
                nodes: self.nodes,
                times: self.times,
                model: self.model,
                volatility: self.volatility,
                dimension,
                bergomi: None,
                rough: Some(kernel),
                rough_leverage: None,
            },
        )
    }
}

impl<R: Scalar> ReverseContext<R> {
    /// Adds the spots of the node `i` to the adjoints of the parameters.
    fn sweep_node<M: Math<R>>(
        &self,
        m: &M,
        i: usize,
        s: BuehlerDividendState<R>,
        seed: SpotSeed<R>,
        out: Vec<R>,
        Ghost(width): Ghost<nat>,
    ) -> (next: Vec<R>)
        requires
            i < self@.nodes.len(),
            self@.nodes[i as int].of(width),
            width <= out@.len(),
        ensures
            next@ == node_added(self@.nodes[i as int], s, seed, out@),
            next@.len() == out@.len(),
    {
        m.laws();
        let jac = &self.nodes[i];
        assert(jac@ == self@.nodes[i as int]);
        let base = jac.equity.len();
        let len = out.len();
        let ghost entry = |j: int|
            if j < jac@.equity.len() {
                plus(out@[j], node_term(jac@, s, seed, j))
            } else {
                out@[j]
            };
        let next_at = |j: usize| -> (x: R)
            requires
                j < len,
            ensures
                x == entry(j as int),
            {
                m.laws();
                if j < base {
                    out[j] + (seed.post + seed.pre) * (
                        s.equity * jac.equity[j] + s.dividend * jac.dividend[j] + jac.constant[j]
                    )
                } else {
                    out[j]
                }
            };
        let mut next = build(
            len,
            next_at,
            Ghost(entry),
        );
        proof {
            assert(next@ =~= Seq::new(
                out@.len(),
                |j: int|
                    if j < self@.nodes[i as int].equity.len() {
                        plus(out@[j], node_term(self@.nodes[i as int], s, seed, j))
                    } else {
                        out@[j]
                    },
            ));
            assert forall|a: int| 0 <= a < jac.event_indices@.len() implies #[trigger] jac.event_indices@[a]
                < next@.len() by {
                assert(self@.nodes[i as int].event_indices[a] < width);
            }
        }
        add_at(m, &mut next, &jac.event_indices, seed.pre * s.dividend);
        next
    }

    /// Takes the derivatives of a path with respect to all parameters.
    pub fn pullback<L, M: Math<R>, Y: DividendDynamics<R>>(
        &self,
        m: &M,
        y: &Y,
        path: &DividendPath<R, L>,
        z: &Vec<R>,
        states: &Vec<BuehlerDividendState<R>>,
        seeds: &Vec<SpotSeed<R>>,
        payoff: R,
    ) -> (r: Result<Vec<R>, MonteCarloError>)
        requires
            path@.valid(),
            self@.of(
                path@.nodes.len(),
                match path@.bergomi {
                    Some(k) => Some(k.n()),
                    None => None,
                },
            ),
        ensures
            seen(r) == pullback_of(m.model(), *y, self@, path@, z@, states@, seeds@, payoff),
            r matches Ok(v) ==> v@.len() == self@.labels.len(),
    {
        m.laws();
        if z.len() != path.dimension || states.len() != path.times.len() || seeds.len()
            != states.len() {
            return Err(invalid("reverse_shape"));
        }
        if !m.is_finite(payoff) || !are_seeds_finite(m, seeds) {
            return Err(invalid("reverse_seed"));
        }
        let n = states.len();
        let loadings = match (&path.rough, &path.bergomi) {
            (Some(k), _) => {
                if path.rough_leverage.is_some() {
                    return Err(
                        MonteCarloError::StochasticDividend(
                            StochasticDividendError::Unsupported { feature: "residual-equity LSV reverse; use price-only evaluation" },
                        ),
                    );
                }
                match k.volatility_loadings(m, z) {
                    Err(e) => return Err(e),
                    Ok(v) => v,
                }
            },
            (None, Some(k)) => {
                proof {
                    lemma_steps(k@.d() as int, k@.steps.len() as int);
                }
                match k.volatility_loadings(m, z) {
                    Err(e) => return Err(e),
                    Ok(v) => v,
                }
            },
            (None, None) => {
                let ghost one = |i: int| literal::<R>(1);
                let count: usize = n - 1;
                let v_at = |i: usize| -> (x: R)
                    requires
                        i < count,
                    ensures
                        x == one(i as int),
                    {
                        m.laws();
                        R::from(1u32)
                    };
                let v = build(
                    count,
                    v_at,
                    Ghost(one),
                );
                assert(v@ =~= Seq::new((path@.times.len() - 1) as nat, |i: int| literal(1)));
                v
            },
        };
        let width = self.payment_weights.len();
        let ghost weight = |j: int| times(payoff, self@.payment_weights[j]);
        let out_at = |j: usize| -> (x: R)
            requires
                j < width,
            ensures
                x == weight(j as int),
            {
                m.laws();
                payoff * self.payment_weights[j]
            };
        let mut out = build(
            width,
            out_at,
            Ghost(weight),
        );
        assert(out@ =~= Seq::new(
            self@.payment_weights.len(),
            |j: int| times(payoff, self@.payment_weights[j]),
        ));
        let mut bars = make_zeros(m, n - 1);
        let mut f_bar = R::from(0u32);
        let mut y_bar = R::from(0u32);
        let model = path.model;
        let alpha = model.equity_linkage;
        let rho = model.equity_dividend_correlation;
        let count = path.random_factor_count();
        let ghost base = self@.base();
        let ghost all = |i: int|
            swept(m.model(), *y, self@, path@, loadings@, z@, states@, seeds@, payoff, i);
        let mut left: usize = n;
        while left > 0
            invariant
                lawful::<R>(),
                path@.valid(),
                n == states@.len(),
                n == path@.times.len(),
                seeds@.len() == n,
                z@.len() == path@.dimension,
                loadings@.len() == n - 1,
                self@.of(
                    path@.nodes.len(),
                    match path@.bergomi {
                        Some(k) => Some(k.n()),
                        None => None,
                    },
                ),
                base == self@.base(),
                width == self@.labels.len(),
                model == path@.model,
                alpha == model.equity_linkage,
                rho == model.equity_dividend_correlation,
                count == path@.factors(),
                2 <= count,
                all == (|i: int|
                    swept(m.model(), *y, self@, path@, loadings@, z@, states@, seeds@, payoff, i)),
                left <= n,
                out@.len() == width,
                bars@.len() == n - 1,
                out@ == all(left as int).out,
                f_bar == all(left as int).equity,
                y_bar == all(left as int).dividend,
                bars@ == all(left as int).bars,
            decreases left,
        {
            let i: usize = left - 1;
            let ghost later = Sweep { out: out@, equity: f_bar, dividend: y_bar, bars: bars@ };
            assert(later == all(left as int));
            let s = states[i];
            let node = path.nodes[i];
            let seed = seeds[i];
            proof {
                assert(self@.nodes[i as int].of(base));
            }
            let sum = seed.post + seed.pre;
            f_bar = f_bar + sum * node.equity_coefficient;
            let cash = match node.event_mean_cash {
                Some(x) => x,
                None => R::from(0u32),
            };
            y_bar = y_bar + (sum * node.dividend_coefficient + seed.pre * cash);
            out = self.sweep_node(m, i, s, seed, out, Ghost(base));
            let ghost at = node_swept(node, self@.nodes[i as int], s, seed, later);
            assert(at == Sweep { out: out@, equity: f_bar, dividend: y_bar, bars: bars@ });
            if i > 0 {
                let old_state = states[i - 1];
                proof {
                    lemma_normals(count as int, i as int, n as int);
                    assert(z@.len() == z.len());
                }
                let first: usize = count * (i - 1);
                let z0 = z[first];
                let z1 = z[first + 1];
                let dt = path.times[i] - path.times[i - 1];
                let root = m.sqrt(dt);
                let decays = y.decay(model.mean_reversion, (R::from(1u32) / R::from(2u32)) * dt);
                let a = decays.first;
                let b = decays.second;
                let old_target = y.target(model, old_state.equity);
                let now_target = y.target(model, s.equity);
                let level = y.blend(decays, old_state.dividend, old_target);
                let v = model.dividend_volatility * root;
                let zd = rho * z0 + m.sqrt((R::from(1u32) - rho) * (R::from(1u32) + rho)) * z1;
                let minus_half = (R::from(1u32) / R::from(2u32)).neg();
                let ed = m.exp(minus_half * v * v + v * zd);
                let noise = level * ed;
                let sigma = if path.volatility == R::from(0u32) {
                    R::from(0u32)
                } else {
                    path.volatility * loadings[i - 1]
                };
                let u = sigma * root;
                let ef = m.exp(minus_half * u * u + u * z0);
                let noise_bar = a * y_bar;
                let next = f_bar + b * alpha * y_bar;
                let x = out[2] + y_bar * (minus_half * dt * a) * (noise - now_target);
                out.set(2, x);
                let x = out[3] + y_bar * b * (s.equity - R::from(1u32));
                out.set(3, x);
                let level_bar = noise_bar * ed;
                let x = out[4] + noise_bar * noise * (zd - v) * root;
                out.set(4, x);
                if let Some(start) = self.correlation_start {
                    let slope = z0 - rho / m.sqrt(
                        (R::from(1u32) - rho) * (R::from(1u32) + rho),
                    ) * z1;
                    let x = out[start] + noise_bar * noise * v * slope;
                    out.set(start, x);
                }
                let x = out[1] + next * s.equity * (z0 - u) * root * loadings[i - 1];
                out.set(1, x);
                bars.set(i - 1, next * s.equity * (z0 - u) * root * path.volatility);
                let x = out[2] + level_bar * (minus_half * dt * a) * (
                    old_state.dividend - old_target
                );
                out.set(2, x);
                let x = out[3] + level_bar * b * (old_state.equity - R::from(1u32));
                out.set(3, x);
                f_bar = next * ef + level_bar * b * alpha;
                y_bar = level_bar * a;
                proof {
                    let want = step_swept(
                        m.model(),
                        *y,
                        path@,
                        self@.correlation_start,
                        loadings@,
                        z@,
                        states@,
                        i as int,
                        at,
                    );
                    assert(out@ == want.out);
                    assert(bars@ == want.bars);
                    assert(f_bar == want.equity);
                    assert(y_bar == want.dividend);
                }
            }
            left = i;
        }
        let ghost w = all(0);
        if let Some(p) = &self.rough {
            if let Some(kernel) = &path.rough {
                let pair = match p.pullback(m, kernel, z, &bars) {
                    Err(e) => return Err(e),
                    Ok(v) => v,
                };
                let from = self.nodes[0].equity.len();
                assert(self@.nodes[0] == self.nodes@[0]@);
                let extra: Vec<R> = vec![pair.first, pair.second];
                assert(extra@ =~= seq![pair.first, pair.second]);
                replace_from(&mut out, from, &extra);
            }
        }
        if let Some(p) = &self.bergomi {
            if let Some(kernel) = &path.bergomi {
                let extra = match p.pullback(m, kernel, z, &bars) {
                    Err(e) => return Err(e),
                    Ok(v) => v,
                };
                let from = self.nodes[0].equity.len();
                assert(self@.nodes[0] == self.nodes@[0]@);
                replace_from(&mut out, from, &extra);
            }
        }
        let ghost first = out@;
        assert(with_factor_part(m.model(), self@, path@, z@, w) == Ok::<Seq<R>, MonteCarloError>(
            first,
        ));
        if let Some(p) = &self.correlation {
            if let Some(kernel) = &path.bergomi {
                if let Some(start) = self.correlation_start {
                    let extra = match p.pullback(m, kernel, z, &bars) {
                        Err(e) => return Err(e),
                        Ok(v) => v,
                    };
                    let ghost entry = |j: int|
                        if start <= j < start + extra@.len() {
                            plus(out@[j], extra@[j - start])
                        } else {
                            out@[j]
                        };
                    let more = extra.len();
                    let next_at = |j: usize| -> (x: R)
                        requires
                            j < width,
                        ensures
                            x == entry(j as int),
                        {
                            m.laws();
                            if start <= j && j - start < more {
                                out[j] + extra[j - start]
                            } else {
                                out[j]
                            }
                        };
                    let next = build(
                        width,
                        next_at,
                        Ghost(entry),
                    );
                    assert(next@ =~= Seq::new(
                        first.len(),
                        |j: int|
                            if start <= j < start + extra@.len() {
                                plus(first[j], extra@[j - start])
                            } else {
                                first[j]
                            },
                    ));
                    out = next;
                }
            }
        }
        if !all_finite(m, out.as_slice()) {
            return Err(invalid("reverse_result"));
        }
        Ok(out)
    }
}

/// The derivatives out of the spots of the nodes from `i` on, the last node first, and
/// out of the payment, at normalised states that do not move.
pub open spec fn market_swept<R: Scalar>(
    k: ContextView<R>,
    states: Seq<BuehlerDividendState<R>>,
    seeds: Seq<SpotSeed<R>>,
    payoff: R,
    i: int,
) -> Seq<R>
    decreases states.len() - i,
{
    if i >= states.len() {
        Seq::new(k.payment_weights.len(), |j: int| times(payoff, k.payment_weights[j]))
    } else {
        node_added(
            k.nodes[i],
            states[i],
            seeds[i],
            market_swept(k, states, seeds, payoff, i + 1),
        )
    }
}

/// The derivatives of a path with respect to the parameters of the nodes, at
/// normalised states that do not move: of the way that the spots are rebuilt from
/// them, and of the payment.
pub open spec fn market_pullback_of<R: Scalar>(
    m: Model<R>,
    k: ContextView<R>,
    states: Seq<BuehlerDividendState<R>>,
    seeds: Seq<SpotSeed<R>>,
    payoff: R,
) -> Result<Seq<R>, MonteCarloError> {
    if states.len() != k.nodes.len() || seeds.len() != states.len() {
        Err(invalid_field("market_reverse_shape"))
    } else {
        let out = market_swept(k, states, seeds, payoff, 0);
        if m.all_finite(out) {
            Ok(out)
        } else {
            Err(invalid_field("market_reverse_result"))
        }
    }
}

impl<R: Scalar> ReverseContext<R> {
    /// Takes the derivatives of a path at normalised states that do not move.
    pub fn market_reconstruction_pullback<M: Math<R>>(
        &self,
        m: &M,
        states: &Vec<BuehlerDividendState<R>>,
        seeds: &Vec<SpotSeed<R>>,
        payoff: R,
    ) -> (r: Result<Vec<R>, MonteCarloError>)
        requires
            1 <= self@.nodes.len(),
            self@.base() <= self@.payment_weights.len(),
            forall|i: int| 0 <= i < self@.nodes.len()
                ==> (#[trigger] self@.nodes[i]).of(self@.base()),
        ensures
            seen(r) == market_pullback_of(m.model(), self@, states@, seeds@, payoff),
            r matches Ok(v) ==> v@.len() == self@.payment_weights.len(),
    {
        m.laws();
        if states.len() != self.nodes.len() || seeds.len() != states.len() {
            return Err(invalid("market_reverse_shape"));
        }
        let width = self.payment_weights.len();
        let ghost weight = |j: int| times(payoff, self@.payment_weights[j]);
        let out_at = |j: usize| -> (x: R)
            requires
                j < width,
            ensures
                x == weight(j as int),
            {
                m.laws();
                payoff * self.payment_weights[j]
            };
        let mut out = build(
            width,
            out_at,
            Ghost(weight),
        );
        assert(out@ =~= Seq::new(
            self@.payment_weights.len(),
            |j: int| times(payoff, self@.payment_weights[j]),
        ));
        let mut left: usize = states.len();
        while left > 0
            invariant
                left <= states@.len(),
                states@.len() == self@.nodes.len(),
                seeds@.len() == states@.len(),
                self@.base() <= self@.payment_weights.len(),
                forall|i: int|
                    0 <= i < self@.nodes.len() ==> (#[trigger] self@.nodes[i]).of(self@.base()),
                out@.len() == self@.payment_weights.len(),
                out@ == market_swept(self@, states@, seeds@, payoff, left as int),
            decreases left,
        {
            let i: usize = left - 1;
            assert(self@.nodes[i as int].of(self@.base()));
            out = self.sweep_node(m, i, states[i], seeds[i], out, Ghost(self@.base()));
            left = i;
        }
        if !all_finite(m, out.as_slice()) {
            return Err(invalid("market_reverse_result"));
        }
        Ok(out)
    }
}

proof fn added_at_keeps<R: Scalar>(out: Seq<R>, indices: Seq<usize>, x: R, j: int)
    requires
        0 <= j < out.len(),
        forall|i: int|
            0 <= i < indices.len() ==> #[trigger] indices[i] != j && indices[i] < out.len(),
    ensures
        added_at(out, indices, x)[j] == out[j],
        added_at(out, indices, x).len() == out.len(),
    decreases indices.len(),
{
    if indices.len() > 0 {
        added_at_keeps(out, indices.drop_last(), x, j);
        assert(indices.last() == indices[indices.len() - 1]);
    }
}

proof fn spot_swept<R: Scalar, L, Y: DividendDynamics<R>>(
    m: Model<R>,
    y: Y,
    k: ContextView<R>,
    path: DividendPathView<R, L>,
    loadings: Seq<R>,
    z: Seq<R>,
    states: Seq<BuehlerDividendState<R>>,
    seeds: Seq<SpotSeed<R>>,
    payoff: R,
    i: int,
)
    requires
        0 <= i <= states.len(),
        states.len() == k.nodes.len(),
        5 <= k.base() <= k.payment_weights.len(),
        forall|i: int| 0 <= i < k.nodes.len() ==> (#[trigger] k.nodes[i]).of(k.base()),
        k.correlation_start matches Some(start) ==> k.base() <= start < k.payment_weights.len(),
    ensures
        swept(m, y, k, path, loadings, z, states, seeds, payoff, i).out[0] == node_sum(
            k.nodes,
            states,
            seeds,
            times(payoff, k.payment_weights[0]),
            0,
            i,
        ),
        swept(m, y, k, path, loadings, z, states, seeds, payoff, i).out.len()
            == k.payment_weights.len(),
    decreases states.len() - i,
{
    if i < states.len() {
        spot_swept(m, y, k, path, loadings, z, states, seeds, payoff, i + 1);
        let later = swept(m, y, k, path, loadings, z, states, seeds, payoff, i + 1);
        let jac = k.nodes[i];
        assert(jac.of(k.base()));
        let moved = Seq::new(
            later.out.len(),
            |j: int|
                if j < jac.equity.len() {
                    plus(later.out[j], node_term(jac, states[i], seeds[i], j))
                } else {
                    later.out[j]
                },
        );
        added_at_keeps(moved, jac.event_indices, times(seeds[i].pre, states[i].dividend), 0);
        let at = node_swept(path.nodes[i], jac, states[i], seeds[i], later);
        assert(at.out[0] == moved[0]);
    }
}

/// Two numbers that are one, or zeros of either sign.
pub open spec fn same_or_zeros<R: Scalar>(x: R, y: R) -> bool {
    x == y || (is_zero(x) && is_zero(y))
}

proof fn sums_from_zeros<R: Scalar>(
    m: Model<R>,
    nodes: Seq<NodeJacobianView<R>>,
    states: Seq<BuehlerDividendState<R>>,
    seeds: Seq<SpotSeed<R>>,
    base: R,
    i: int,
)
    requires
        m.zeros_behave(),
        is_zero(base),
        m.is_finite(node_sum(nodes, states, seeds, base, 0, i)),
    ensures
        same_or_zeros(
            node_sum(nodes, states, seeds, base, 0, i),
            node_sum(nodes, states, seeds, literal(0), 0, i),
        ),
    decreases states.len() - i,
{
    if i < states.len() {
        let term = node_term(nodes[i], states[i], seeds[i], 0);
        let a = node_sum(nodes, states, seeds, base, 0, i + 1);
        let b = node_sum(nodes, states, seeds, literal(0), 0, i + 1);
        assert(m.is_finite(plus(a, term)));
        sums_from_zeros(m, nodes, states, seeds, base, i + 1);
        if a != b {
            assert(plus(a, term) == plus(b, term) || (is_zero(plus(a, term)) && is_zero(
                plus(b, term),
            )));
        }
    }
}

/// The derivative with respect to the spot alone is the first of those with respect
/// to all parameters, wherever these can be taken: the same number, or both are zero.
pub proof fn spot_is_the_first_parameter<R: Scalar, L, Y: DividendDynamics<R>>(
    m: Model<R>,
    y: Y,
    k: ContextView<R>,
    path: DividendPathView<R, L>,
    z: Seq<R>,
    states: Seq<BuehlerDividendState<R>>,
    seeds: Seq<SpotSeed<R>>,
    payoff: R,
)
    requires
        m.zeros_behave(),
        path.valid(),
        k.of(
            path.nodes.len(),
            match path.bergomi {
                Some(kernel) => Some(kernel.n()),
                None => None,
            },
        ),
        k.payment_weights[0] == literal::<R>(0),
    ensures
        pullback_of(m, y, k, path, z, states, seeds, payoff) matches Ok(out) ==> (
        spot_pullback_of(m, k, states, seeds) matches Ok(delta) && same_or_zeros(out[0], delta)),
{
    if let Ok(out) = pullback_of(m, y, k, path, z, states, seeds, payoff) {
        let loadings = path_loadings(m, path, z)->Ok_0;
        spot_swept(m, y, k, path, loadings, z, states, seeds, payoff, 0);
        let w = swept(m, y, k, path, loadings, z, states, seeds, payoff, 0);
        let first = with_factor_part(m, k, path, z, w)->Ok_0;
        assert(first[0] == w.out[0]);
        assert(first.len() >= 1);
        assert(m.is_finite(out[0]));
        let base = times(payoff, k.payment_weights[0]);
        assert(is_zero(base));
        sums_from_zeros(m, k.nodes, states, seeds, base, 0);
    }
}

/// The payment has no weight in the derivative with respect to the spot.
pub proof fn payment_does_not_move_the_spot<
    R: Scalar,
    L,
    Y: DividendDynamics<R>,
    C: CarryMarket<R>,
>(y: Y, c: C, path: DividendPathView<R, L>, payment: R)
    ensures
        context_of(y, c, path, payment) matches Ok(k) ==> k.payment_weights[0] == literal::<R>(
            0,
        ),
{
}

proof fn grown_keeps_size<R: Scalar, C: CarryMarket<R>>(
    c: C,
    out: Seq<R>,
    po: int,
    qo: int,
    time: R,
    seed: R,
)
    requires
        0 <= po <= qo <= out.len(),
    ensures
        grown(c, out, po, qo, time, seed) matches Ok(v) ==> v.len() == out.len(),
{
    c.transposes_keep_sizes(time, negated(seed), out.subrange(po, qo));
    c.transposes_keep_sizes(time, seed, out.subrange(qo, out.len() as int));
}

spec fn coefficients_sized<R>(k: Coefficients<R>, width: nat) -> bool {
    k.equity.len() == width && k.dividend.len() == width && k.constant.len() == width
}

proof fn growth_keeps_sizes<R: Scalar, C: CarryMarket<R>>(
    c: C,
    k: Coefficients<R>,
    po: int,
    qo: int,
    time: R,
    a: R,
    b: R,
    d: R,
    width: nat,
)
    requires
        coefficients_sized(k, width),
        0 <= po <= qo <= width,
    ensures
        coefficients_grown(c, k, po, qo, time, a, b, d) matches Ok(v) ==> coefficients_sized(
            v,
            width,
        ),
{
    grown_keeps_size(c, k.equity, po, qo, time, a);
    grown_keeps_size(c, k.dividend, po, qo, time, b);
    grown_keeps_size(c, k.constant, po, qo, time, d);
}

proof fn coefficients_are_sized<R: Scalar, Y: DividendDynamics<R>, C: CarryMarket<R>>(
    y: Y,
    c: C,
    model: BuehlerDividendModel<R>,
    t: R,
    g: R,
    width: nat,
    po: int,
    qo: int,
    n: nat,
)
    requires
        5 + n <= po <= qo <= width,
    ensures
        coefficients_after(y, c, model, t, g, width, po, qo, n) matches Ok(k)
            ==> coefficients_sized(k, width),
    decreases n,
{
    if n > 0 {
        coefficients_are_sized(y, c, model, t, g, width, po, qo, (n - 1) as nat);
        if let Ok(before) = coefficients_after(y, c, model, t, g, width, po, qo, (n - 1) as nat) {
            let event = c.events_of()[n - 1];
            if let Ok(forward) = c.forward_of(event.ex_time) {
                let ratio = over(g, over(forward, c.spot_of()));
                let k = event_coefficients(y, model, before, event, t, ratio, n - 1);
                let cash = event.fixed_cash;
                growth_keeps_sizes(
                    c,
                    k,
                    po,
                    qo,
                    event.ex_time,
                    times(negated(cash), k.equity[5 + (n - 1)]),
                    times(negated(cash), k.dividend[5 + (n - 1)]),
                    times(negated(cash), k.constant[5 + (n - 1)]),
                    width,
                );
            }
        }
    }
}

proof fn paid_are_cash_means<R: Scalar>(events: Seq<CashEvent<R>>, t: R, n: nat)
    requires
        5 + n <= usize::MAX,
    ensures
        forall|i: int|
            0 <= i < paid_at(events, t, n).len() ==> 5 <= #[trigger] paid_at(events, t, n)[i] < 5
                + n,
    decreases n,
{
    if n > 0 {
        paid_are_cash_means(events, t, (n - 1) as nat);
        let before = paid_at(events, t, (n - 1) as nat);
        let all = paid_at(events, t, n);
        assert forall|i: int| 0 <= i < all.len() implies 5 <= #[trigger] all[i] < 5 + n by {
            if i < before.len() {
                assert(all[i] == before[i]);
            }
        }
    }
}

/// The number of parameters of the nodes of a path under a market.
pub open spec fn market_width<R: Scalar, C: CarryMarket<R>>(c: C) -> nat {
    5 + c.events_of().len() + c.discount_times_of().len() + c.repo_spread_times_of().len()
}

proof fn node_is_sized<R: Scalar, Y: DividendDynamics<R>, C: CarryMarket<R>>(
    y: Y,
    c: C,
    model: BuehlerDividendModel<R>,
    node: PathNode<R>,
)
    requires
        market_width::<R, C>(c) <= usize::MAX,
    ensures
        node_jacobian(y, c, model, node) matches Ok(j) ==> j.of(market_width::<R, C>(c)),
{
    let count = c.events_of().len();
    let po = 5 + count as int;
    let qo = po + c.discount_times_of().len();
    let width = market_width::<R, C>(c);
    paid_are_cash_means(c.events_of(), node.time, count);
    if let Ok(forward) = c.forward_of(node.time) {
        let g = over(forward, c.spot_of());
        coefficients_are_sized(y, c, model, node.time, g, width, po, qo, count);
        if let Ok(k) = coefficients_after(y, c, model, node.time, g, width, po, qo, count) {
            growth_keeps_sizes(
                c,
                k,
                po,
                qo,
                node.time,
                node.equity_coefficient,
                node.dividend_coefficient,
                node.constant,
                width,
            );
        }
    }
}

impl<R> ContextView<R> {
    /// Its parameters can be counted: each has a weight, those of the nodes come first
    /// and the others have their room behind them.
    pub open spec fn counted(self, count: nat) -> bool {
        &&& 1 <= count
        &&& self.nodes.len() == count
        &&& 5 <= self.base() <= self.labels.len()
        &&& self.labels.len() == self.payment_weights.len()
        &&& forall|i: int| 0 <= i < count ==> (#[trigger] self.nodes[i]).of(self.base())
        &&& self.bergomi matches Some(p) ==> self.base() + parameter_count(p.weight.len())
            <= self.labels.len()
        &&& self.rough is Some ==> self.base() + 2 <= self.labels.len()
        &&& self.correlation_start matches Some(start) ==> start < self.labels.len()
    }
}

/// The parameters of a prepared context can be counted.
pub proof fn context_is_counted<R: Scalar, L, Y: DividendDynamics<R>, C: CarryMarket<R>>(
    y: Y,
    c: C,
    path: DividendPathView<R, L>,
    payment: R,
)
    requires
        path.valid(),
        market_width::<R, C>(c) <= usize::MAX,
    ensures
        context_of(y, c, path, payment) matches Ok(k) ==> {
            &&& k.counted(path.nodes.len())
            &&& k.labels.len() == k.base() == market_width::<R, C>(c)
            &&& k.bergomi is None && k.rough is None && k.correlation_start is None
        },
{
    let f = path_jacobian(y, c, path.model, path.nodes);
    gather_values(path.nodes.len(), f);
    c.transposes_keep_sizes(payment, literal(1), zeros(c.discount_times_of().len()));
    if let Ok(k) = context_of(y, c, path, payment) {
        assert forall|i: int| 0 <= i < path.nodes.len() implies (#[trigger] k.nodes[i]).of(
            market_width::<R, C>(c),
        ) by {
            node_is_sized(y, c, path.model, path.nodes[i]);
            assert(f(i) == Ok::<NodeJacobianView<R>, MonteCarloError>(k.nodes[i]));
        }
        assert(k.nodes[0].of(market_width::<R, C>(c)));
    }
}

/// Whatever path and market a context is prepared for, the derivative with respect to the
/// spot alone is the first of those with respect to all parameters, or both are zero.
pub proof fn prepared_contexts_put_the_spot_first<
    R: Scalar,
    L,
    Y: DividendDynamics<R>,
    C: CarryMarket<R>,
>(
    m: Model<R>,
    y: Y,
    c: C,
    path: DividendPathView<R, L>,
    payment: R,
    z: Seq<R>,
    states: Seq<BuehlerDividendState<R>>,
    seeds: Seq<SpotSeed<R>>,
    payoff: R,
)
    requires
        m.zeros_behave(),
        path.valid(),
        market_width::<R, C>(c) <= usize::MAX,
    ensures
        context_of(y, c, path, payment) matches Ok(k) ==> (pullback_of(
            m,
            y,
            k,
            path,
            z,
            states,
            seeds,
            payoff,
        ) matches Ok(out) ==> (spot_pullback_of(m, k, states, seeds) matches Ok(delta)
            && same_or_zeros(out[0], delta))),
{
    if let Ok(k) = context_of(y, c, path, payment) {
        context_is_counted(y, c, path, payment);
        payment_does_not_move_the_spot(y, c, path, payment);
        spot_is_the_first_parameter(m, y, k, path, z, states, seeds, payoff);
    }
}

proof fn added_keeps_size<R: Scalar>(out: Seq<R>, indices: Seq<usize>, x: R)
    requires
        forall|i: int| 0 <= i < indices.len() ==> #[trigger] indices[i] < out.len(),
    ensures
        added_at(out, indices, x).len() == out.len(),
    decreases indices.len(),
{
    if indices.len() > 0 {
        added_keeps_size(out, indices.drop_last(), x);
        assert(indices.last() == indices[indices.len() - 1]);
    }
}

proof fn sweep_is_sized<R: Scalar, L, Y: DividendDynamics<R>>(
    m: Model<R>,
    y: Y,
    k: ContextView<R>,
    path: DividendPathView<R, L>,
    loadings: Seq<R>,
    z: Seq<R>,
    states: Seq<BuehlerDividendState<R>>,
    seeds: Seq<SpotSeed<R>>,
    payoff: R,
    i: int,
)
    requires
        k.counted(states.len()),
        0 <= i,
    ensures
        swept(m, y, k, path, loadings, z, states, seeds, payoff, i).out.len() == k.labels.len(),
    decreases states.len() - i,
{
    if i < states.len() {
        sweep_is_sized(m, y, k, path, loadings, z, states, seeds, payoff, i + 1);
        let later = swept(m, y, k, path, loadings, z, states, seeds, payoff, i + 1);
        let jac = k.nodes[i];
        assert(jac.of(k.base()));
        let placed = Seq::new(
            later.out.len(),
            |j: int|
                if j < jac.equity.len() {
                    plus(later.out[j], node_term(jac, states[i], seeds[i], j))
                } else {
                    later.out[j]
                },
        );
        added_keeps_size(placed, jac.event_indices, times(seeds[i].pre, states[i].dividend));
    }
}

/// A pullback has one derivative for each parameter.
pub proof fn pullback_is_sized<R: Scalar, L, Y: DividendDynamics<R>>(
    m: Model<R>,
    y: Y,
    k: ContextView<R>,
    path: DividendPathView<R, L>,
    z: Seq<R>,
    states: Seq<BuehlerDividendState<R>>,
    seeds: Seq<SpotSeed<R>>,
    payoff: R,
)
    requires
        path.valid(),
        k.counted(path.nodes.len()),
    ensures
        pullback_of(m, y, k, path, z, states, seeds, payoff) matches Ok(v) ==> v.len()
            == k.labels.len(),
{
    if let Ok(v) = pullback_of(m, y, k, path, z, states, seeds, payoff) {
        let loadings = path_loadings(m, path, z)->Ok_0;
        sweep_is_sized(m, y, k, path, loadings, z, states, seeds, payoff, 0);
    }
}

} // verus!
