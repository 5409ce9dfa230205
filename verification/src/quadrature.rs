//! Adaptive quadrature by Simpson's rule, component by component.

use crate::errors::{invalid, invalid_field, MonteCarloError};
use crate::linear::{build, in_order, sort};
use crate::pathwise::make_zeros;
use crate::results::seen;
use crate::sampling::{added, half, zeros};
use crate::scalar::{
    gt, lawful, le, literal, lt, minus, over, plus, same, times, Math, Model, Scalar,
};
use vstd::prelude::*;

verus! {

/// How far the error of a quadrature may go: an absolute part and a part
/// relative to the integral, and the failure if it goes further.
#[derive(Clone, Copy, Debug)]
pub struct Tolerance<R> {
    pub absolute: R,
    pub relative: R,
    pub field: &'static str,
}

/// Simpson's rule between `lo` and `hi`.
pub open spec fn simpson_of<R: Scalar>(lo: R, hi: R, a: Seq<R>, b: Seq<R>, c: Seq<R>) -> Seq<R> {
    Seq::new(
        a.len(),
        |j: int| times(
            over(minus(hi, lo), literal(6)),
            plus(plus(a[j], times(literal(4), b[j])), c[j]),
        ),
    )
}

/// Computes [`simpson_of`].
pub fn simpson<R: Scalar, M: Math<R>>(
    m: &M,
    lo: R,
    hi: R,
    a: &Vec<R>,
    b: &Vec<R>,
    c: &Vec<R>,
) -> (v: Vec<R>)
    requires
        a@.len() == b@.len(),
        a@.len() == c@.len(),
    ensures
        v@ == simpson_of(lo, hi, a@, b@, c@),
        v@.len() == a@.len(),
{
    let n = a.len();
    let ghost entry = |j: int| simpson_of(lo, hi, a@, b@, c@)[j];
    let v_at = |j: usize| -> (x: R)
        requires
            j < n,
        ensures
            x == entry(j as int),
        {
            m.laws();
            (hi - lo) / R::from(6u32) * (a[j] + R::from(4u32) * b[j] + c[j])
        };
    let v = build(
        n,
        v_at,
        Ghost(entry),
    );
    assert(v@ =~= simpson_of(lo, hi, a@, b@, c@));
    v
}

/// Two panels agree with one, within a tolerance.
pub open spec fn agreed<R: Scalar>(
    m: Model<R>,
    fine: Seq<R>,
    whole: Seq<R>,
    absolute: R,
    relative: R,
) -> bool {
    forall|j: int|
        0 <= j < fine.len() ==> le(
            m.abs(minus(#[trigger] fine[j], whole[j])),
            times(literal(15), plus(absolute, times(relative, m.abs(fine[j])))),
        )
}

/// Two panels with the error that they show taken off.
pub open spec fn extrapolated<R: Scalar>(fine: Seq<R>, whole: Seq<R>) -> Seq<R> {
    Seq::new(fine.len(), |j: int| plus(fine[j], over(minus(fine[j], whole[j]), literal(15))))
}

/// The integral between `lo` and `hi`: of the whole panel if its halves agree
/// with it, and else of each half, down to a depth.
pub open spec fn integral<R: Scalar>(
    m: Model<R>,
    f: spec_fn(R) -> Result<Seq<R>, MonteCarloError>,
    lo: R,
    hi: R,
    a: Seq<R>,
    b: Seq<R>,
    c: Seq<R>,
    whole: Seq<R>,
    absolute: R,
    t: Tolerance<R>,
    depth: nat,
) -> Result<Seq<R>, MonteCarloError>
    decreases depth,
{
    let mid = times(plus(lo, hi), half());
    match f(times(plus(lo, mid), half())) {
        Err(e) => Err(e),
        Ok(l) => match f(times(plus(mid, hi), half())) {
            Err(e) => Err(e),
            Ok(r) => {
                let left = simpson_of(lo, mid, a, l, b);
                let right = simpson_of(mid, hi, b, r, c);
                let fine = added(left, right);
                if agreed(m, fine, whole, absolute, t.relative) {
                    Ok(extrapolated(fine, whole))
                } else if depth == 0 || same(mid, lo) || same(mid, hi) {
                    Err(invalid_field(t.field))
                } else {
                    let less = times(absolute, half());
                    let d = (depth - 1) as nat;
                    match integral(m, f, lo, mid, a, l, b, left, less, t, d) {
                        Err(e) => Err(e),
                        Ok(x) => match integral(m, f, mid, hi, b, r, c, right, less, t, d) {
                            Err(e) => Err(e),
                            Ok(y) => Ok(added(x, y)),
                        },
                    }
                }
            },
        },
    }
}

pub(crate) fn add_all<R: Scalar, M: Math<R>>(m: &M, a: &Vec<R>, b: &Vec<R>) -> (v: Vec<R>)
    requires
        a@.len() == b@.len(),
    ensures
        v@ == added(a@, b@),
        v@.len() == a@.len(),
{
    let n = a.len();
    let ghost entry = |j: int| added(a@, b@)[j];
    let v_at = |j: usize| -> (x: R)
        requires
            j < n,
        ensures
            x == entry(j as int),
        {
            m.laws();
            a[j] + b[j]
        };
    let v = build(
        n,
        v_at,
        Ghost(entry),
    );
    assert(v@ =~= added(a@, b@));
    v
}

fn agree<R: Scalar, M: Math<R>>(
    m: &M,
    fine: &Vec<R>,
    whole: &Vec<R>,
    absolute: R,
    relative: R,
) -> (b: bool)
    requires
        fine@.len() == whole@.len(),
    ensures
        b == agreed(m.model(), fine@, whole@, absolute, relative),
{
    m.laws();
    let mut j: usize = 0;
    while j < fine.len()
        invariant
            lawful::<R>(),
            j <= fine@.len(),
            fine@.len() == whole@.len(),
            forall|k: int|
                0 <= k < j ==> le(
                    m.model().abs(minus(#[trigger] fine@[k], whole@[k])),
                    times(
                        literal(15),
                        plus(absolute, times(relative, m.model().abs(fine@[k]))),
                    ),
                ),
        decreases fine@.len() - j,
    {
        let x = fine[j];
        let gap = m.abs(x - whole[j]);
        if !(gap <= R::from(15u32) * (absolute + relative * m.abs(x))) {
            assert(!agreed(m.model(), fine@, whole@, absolute, relative)) by {
                assert(fine@[j as int] == x);
            }
            return false;
        }
        j = j + 1;
    }
    true
}

fn extrapolate<R: Scalar, M: Math<R>>(m: &M, fine: &Vec<R>, whole: &Vec<R>) -> (v: Vec<R>)
    requires
        fine@.len() == whole@.len(),
    ensures
        v@ == extrapolated(fine@, whole@),
        v@.len() == fine@.len(),
{
    let n = fine.len();
    let ghost entry = |j: int| extrapolated(fine@, whole@)[j];
    let v_at = |j: usize| -> (x: R)
        requires
            j < n,
        ensures
            x == entry(j as int),
        {
            m.laws();
            fine[j] + (fine[j] - whole[j]) / R::from(15u32)
        };
    let v = build(
        n,
        v_at,
        Ghost(entry),
    );
    assert(v@ =~= extrapolated(fine@, whole@));
    v
}

/// The function computes `g`, with `n` components.
pub open spec fn computes_integrand<R: Scalar, F: Fn(R) -> Result<Vec<R>, MonteCarloError>>(
    f: F,
    g: spec_fn(R) -> Result<Seq<R>, MonteCarloError>,
    n: nat,
) -> bool {
    &&& forall|x: R| #[trigger] call_requires(f, (x,))
    &&& forall|x: R, r: Result<Vec<R>, MonteCarloError>| #[trigger]
        call_ensures(f, (x,), r) ==> seen(r) == g(x) && (r matches Ok(v) ==> v@.len() == n)
}

/// Computes [`integral`].
pub(crate) fn integrate<R: Scalar, M: Math<R>, F: Fn(R) -> Result<Vec<R>, MonteCarloError>>(
    m: &M,
    f: &F,
    Ghost(g): Ghost<spec_fn(R) -> Result<Seq<R>, MonteCarloError>>,
    lo: R,
    hi: R,
    a: &Vec<R>,
    b: &Vec<R>,
    c: &Vec<R>,
    whole: &Vec<R>,
    absolute: R,
    t: Tolerance<R>,
    depth: u32,
) -> (r: Result<Vec<R>, MonteCarloError>)
    requires
        computes_integrand(*f, g, whole@.len()),
        a@.len() == whole@.len(),
        b@.len() == whole@.len(),
        c@.len() == whole@.len(),
    ensures
        seen(r) == integral(
            m.model(),
            g,
            lo,
            hi,
            a@,
            b@,
            c@,
            whole@,
            absolute,
            t,
            depth as nat,
        ),
        r matches Ok(v) ==> v@.len() == whole@.len(),
    decreases depth,
{
    m.laws();
    let mid = (lo + hi) * (R::from(1u32) / R::from(2u32));
    let l = match f((lo + mid) * (R::from(1u32) / R::from(2u32))) {
        Err(e) => return Err(e),
        Ok(v) => v,
    };
    let r = match f((mid + hi) * (R::from(1u32) / R::from(2u32))) {
        Err(e) => return Err(e),
        Ok(v) => v,
    };
    let left = simpson(m, lo, mid, a, &l, b);
    let right = simpson(m, mid, hi, b, &r, c);
    let fine = add_all(m, &left, &right);
    if agree(m, &fine, whole, absolute, t.relative) {
        return Ok(extrapolate(m, &fine, whole));
    }
    if depth == 0 || mid == lo || mid == hi {
        return Err(invalid(t.field));
    }
    let less = absolute * (R::from(1u32) / R::from(2u32));
    let x = match integrate(m, f, Ghost(g), lo, mid, a, &l, b, &left, less, t, depth - 1) {
        Err(e) => return Err(e),
        Ok(v) => v,
    };
    let y = match integrate(m, f, Ghost(g), mid, hi, b, &r, c, &right, less, t, depth - 1) {
        Err(e) => return Err(e),
        Ok(v) => v,
    };
    Ok(add_all(m, &x, &y))
}

/// The integral over one panel, whose share of the absolute tolerance is that of
/// its length in `span`.
pub open spec fn panel<R: Scalar>(
    m: Model<R>,
    f: spec_fn(R) -> Result<Seq<R>, MonteCarloError>,
    lo: R,
    hi: R,
    span: R,
    t: Tolerance<R>,
    depth: nat,
) -> Result<Seq<R>, MonteCarloError> {
    match f(lo) {
        Err(e) => Err(e),
        Ok(a) => match f(times(plus(lo, hi), half())) {
            Err(e) => Err(e),
            Ok(b) => match f(hi) {
                Err(e) => Err(e),
                Ok(c) => integral(
                    m,
                    f,
                    lo,
                    hi,
                    a,
                    b,
                    c,
                    simpson_of(lo, hi, a, b, c),
                    over(times(t.absolute, minus(hi, lo)), span),
                    t,
                    depth,
                ),
            },
        },
    }
}

/// Computes [`panel`].
pub(crate) fn integrate_panel<R: Scalar, M: Math<R>, F: Fn(R) -> Result<Vec<R>, MonteCarloError>>(
    m: &M,
    f: &F,
    Ghost(g): Ghost<spec_fn(R) -> Result<Seq<R>, MonteCarloError>>,
    Ghost(n): Ghost<nat>,
    lo: R,
    hi: R,
    span: R,
    t: Tolerance<R>,
    depth: u32,
) -> (r: Result<Vec<R>, MonteCarloError>)
    requires
        computes_integrand(*f, g, n),
    ensures
        seen(r) == panel(m.model(), g, lo, hi, span, t, depth as nat),
        r matches Ok(v) ==> v@.len() == n,
{
    m.laws();
    let a = match f(lo) {
        Err(e) => return Err(e),
        Ok(v) => v,
    };
    let b = match f((lo + hi) * (R::from(1u32) / R::from(2u32))) {
        Err(e) => return Err(e),
        Ok(v) => v,
    };
    let c = match f(hi) {
        Err(e) => return Err(e),
        Ok(v) => v,
    };
    let whole = simpson(m, lo, hi, &a, &b, &c);
    let absolute = t.absolute * (hi - lo) / span;
    integrate(m, f, Ghost(g), lo, hi, &a, &b, &c, &whole, absolute, t, depth)
}

/// The integral over the first `k` panels between cuts, added to zero from the
/// first on.
pub open spec fn panels<R: Scalar>(
    m: Model<R>,
    f: spec_fn(R) -> Result<Seq<R>, MonteCarloError>,
    n: nat,
    cuts: Seq<R>,
    span: R,
    t: Tolerance<R>,
    depth: nat,
    k: nat,
) -> Result<Seq<R>, MonteCarloError>
    decreases k,
{
    if k == 0 {
        Ok(zeros(n))
    } else {
        match panels(m, f, n, cuts, span, t, depth, (k - 1) as nat) {
            Err(e) => Err(e),
            Ok(before) => match panel(m, f, cuts[k - 1], cuts[k as int], span, t, depth) {
                Err(e) => Err(e),
                Ok(part) => Ok(added(before, part)),
            },
        }
    }
}

proof fn panels_stop<R: Scalar>(
    m: Model<R>,
    f: spec_fn(R) -> Result<Seq<R>, MonteCarloError>,
    n: nat,
    cuts: Seq<R>,
    span: R,
    t: Tolerance<R>,
    depth: nat,
    a: nat,
    k: nat,
)
    requires
        a <= k,
        panels(m, f, n, cuts, span, t, depth, a) is Err,
    ensures
        panels(m, f, n, cuts, span, t, depth, k) == panels(m, f, n, cuts, span, t, depth, a),
    decreases k,
{
    if a < k {
        panels_stop(m, f, n, cuts, span, t, depth, a, (k - 1) as nat);
    }
}

/// Computes [`panels`] over all cuts.
pub(crate) fn integrate_panels<R: Scalar, M: Math<R>, F: Fn(R) -> Result<Vec<R>, MonteCarloError>>(
    m: &M,
    f: &F,
    Ghost(g): Ghost<spec_fn(R) -> Result<Seq<R>, MonteCarloError>>,
    n: usize,
    cuts: &Vec<R>,
    span: R,
    t: Tolerance<R>,
    depth: u32,
) -> (r: Result<Vec<R>, MonteCarloError>)
    requires
        computes_integrand(*f, g, n as nat),
        cuts@.len() > 0,
    ensures
        seen(r) == panels(
            m.model(),
            g,
            n as nat,
            cuts@,
            span,
            t,
            depth as nat,
            (cuts@.len() - 1) as nat,
        ),
        r matches Ok(v) ==> v@.len() == n,
{
    let mut all = make_zeros(m, n);
    let last: usize = cuts.len() - 1;
    let mut k: usize = 0;
    while k < last
        invariant
            k <= last,
            last == cuts@.len() - 1,
            computes_integrand(*f, g, n as nat),
            all@.len() == n,
            panels(m.model(), g, n as nat, cuts@, span, t, depth as nat, k as nat) == Ok::<
                Seq<R>,
                MonteCarloError,
            >(all@),
        decreases last - k,
    {
        proof {
            if panels(m.model(), g, n as nat, cuts@, span, t, depth as nat, (k + 1) as nat) is Err {
                panels_stop(
                    m.model(),
                    g,
                    n as nat,
                    cuts@,
                    span,
                    t,
                    depth as nat,
                    (k + 1) as nat,
                    last as nat,
                );
            }
        }
        let part = match integrate_panel(
            m,
            f,
            Ghost(g),
            Ghost(n as nat),
            cuts[k],
            cuts[k + 1],
            span,
            t,
            depth,
        ) {
            Err(e) => return Err(e),
            Ok(v) => v,
        };
        all = add_all(m, &all, &part);
        k = k + 1;
    }
    Ok(all)
}

/// The distances from `end` to the knots strictly between `start` and `end`.
pub open spec fn inner_cuts<R: Scalar>(knots: Seq<R>, start: R, end: R) -> Seq<R>
    decreases knots.len(),
{
    if knots.len() == 0 {
        Seq::empty()
    } else {
        let before = inner_cuts(knots.drop_last(), start, end);
        let u = knots.last();
        if gt(u, start) && lt(u, end) {
            before.push(minus(end, u))
        } else {
            before
        }
    }
}

/// The panels of an integral back from `end`: nothing, all of it, and the
/// distances to the knots in between, in order.
pub open spec fn cuts_of<R: Scalar>(m: Model<R>, knots: Seq<R>, start: R, end: R) -> Seq<R> {
    in_order(
        m,
        seq![literal::<R>(0), minus(end, start)] + inner_cuts(knots, start, end),
    )
}

/// Sorting keeps the number of numbers.
pub proof fn in_order_len<R: Scalar>(m: Model<R>, v: Seq<R>)
    ensures
        in_order(m, v).len() == v.len(),
    decreases v.len(),
{
    if v.len() > 0 {
        in_order_len(m, v.drop_last());
        inserted_len(m, in_order(m, v.drop_last()), v.last());
    }
}

proof fn inserted_len<R: Scalar>(m: Model<R>, sorted: Seq<R>, x: R)
    ensures
        crate::linear::inserted(m, sorted, x).len() == sorted.len() + 1,
    decreases sorted.len(),
{
    if sorted.len() > 0 && m.precedes(x, sorted.last()) {
        inserted_len(m, sorted.drop_last(), x);
    }
}

/// Makes the panels of an integral back from `end`.
pub fn make_cuts<R: Scalar, M: Math<R>>(m: &M, knots: &Vec<R>, start: R, end: R) -> (v: Vec<R>)
    ensures
        v@ == cuts_of(m.model(), knots@, start, end),
        v@.len() >= 2,
{
    m.laws();
    let zero = R::from(0u32);
    let whole = end - start;
    let mut all: Vec<R> = vec![zero, whole];
    let ghost ends = seq![literal::<R>(0), minus(end, start)];
    assert(all@ =~= ends + inner_cuts(knots@.take(0), start, end));
    let mut i: usize = 0;
    while i < knots.len()
        invariant
            lawful::<R>(),
            i <= knots@.len(),
            all@ == ends + inner_cuts(knots@.take(i as int), start, end),
        decreases knots@.len() - i,
    {
        assert(knots@.take(i + 1).drop_last() =~= knots@.take(i as int));
        let u = knots[i];
        if u > start && u < end {
            all.push(end - u);
        }
        assert(all@ =~= ends + inner_cuts(knots@.take(i + 1), start, end));
        i = i + 1;
    }
    assert(knots@.take(i as int) =~= knots@);
    proof {
        in_order_len(m.model(), all@);
    }
    sort(m, &all)
}

} // verus!
