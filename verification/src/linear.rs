//! Sequences that are built entry by entry, and the sums over them.

use crate::results::{gather, gather_stops, seen};
use crate::scalar::{all_finite, lawful, literal, over, plus, times, Math, Model, Scalar};
use vstd::prelude::*;

verus! {

/// One quarter.
pub open spec fn quarter<R: Scalar>() -> R {
    over(literal(1), literal(4))
}

/// One hundredth.
pub open spec fn hundredth<R: Scalar>() -> R {
    over(literal(1), literal(100))
}

/// One ten-thousandth.
pub open spec fn basis_point<R: Scalar>() -> R {
    over(literal(1), literal(10000))
}

/// One part in ten thousand million.
pub open spec fn smallest_pivot<R: Scalar>() -> R {
    over(literal(1), times(literal(100000), literal(100000)))
}

/// Computes [`smallest_pivot`].
pub fn make_smallest_pivot<R: Scalar, M: Math<R>>(m: &M) -> (x: R)
    ensures
        x == smallest_pivot::<R>(),
{
    m.laws();
    R::from(1u32) / (R::from(100000u32) * R::from(100000u32))
}

/// The sum of the products of the entries of `a` with those of `b`, from the
/// first on.
pub open spec fn dot<R: Scalar>(a: Seq<R>, b: Seq<R>) -> R
    decreases a.len(),
{
    if a.len() == 0 {
        literal(0)
    } else {
        plus(dot(a.drop_last(), b), times(a.last(), b[a.len() - 1]))
    }
}

/// The sum of the entries, from the first on.
pub open spec fn total<R: Scalar>(a: Seq<R>) -> R
    decreases a.len(),
{
    if a.len() == 0 {
        literal(0)
    } else {
        plus(total(a.drop_last()), a.last())
    }
}

/// The entries of `z` that the step `i` uses, `d` at a time.
pub open spec fn chunk<R>(z: Seq<R>, d: int, i: int) -> Seq<R> {
    z.subrange(d * i, d * i + d)
}

/// [`dot`] looks at the entries of `b` only where `a` has some.
pub proof fn dot_is_local<R: Scalar>(a: Seq<R>, b: Seq<R>, c: Seq<R>)
    requires
        forall|i: int| 0 <= i < a.len() ==> #[trigger] b[i] == c[i],
    ensures
        dot(a, b) == dot(a, c),
    decreases a.len(),
{
    if a.len() > 0 {
        dot_is_local(a.drop_last(), b, c);
    }
}

/// Computes [`dot`] of `a` and the entries of `b` from `start` on.
pub fn dot_at<R: Scalar, M: Math<R>>(m: &M, a: &Vec<R>, b: &Vec<R>, start: usize) -> (x: R)
    requires
        start + a@.len() <= b@.len(),
    ensures
        x == dot(a@, b@.subrange(start as int, start + a@.len())),
{
    m.laws();
    let ghost tail = b@.subrange(start as int, start + a@.len());
    let mut x = R::from(0u32);
    let mut i: usize = 0;
    while i < a.len()
        invariant
            lawful::<R>(),
            i <= a@.len(),
            start + a@.len() <= b@.len(),
            tail == b@.subrange(start as int, start + a@.len()),
            x == dot(a@.take(i as int), tail),
        decreases a@.len() - i,
    {
        assert(a@.take(i + 1).drop_last() =~= a@.take(i as int));
        assert(b@.len() == b.len());
        x = x + a[i] * b[start + i];
        i = i + 1;
    }
    assert(a@.take(i as int) =~= a@);
    x
}

/// Computes [`dot`].
pub fn take_dot<R: Scalar, M: Math<R>>(m: &M, a: &Vec<R>, b: &Vec<R>) -> (x: R)
    requires
        a@.len() <= b@.len(),
    ensures
        x == dot(a@, b@),
{
    let x = dot_at(m, a, b, 0);
    proof {
        dot_is_local(a@, b@, b@.subrange(0, a@.len() as int));
    }
    x
}

/// Computes [`total`].
pub fn take_total<R: Scalar, M: Math<R>>(m: &M, a: &Vec<R>) -> (x: R)
    ensures
        x == total(a@),
{
    m.laws();
    let mut x = R::from(0u32);
    let mut i: usize = 0;
    while i < a.len()
        invariant
            lawful::<R>(),
            i <= a@.len(),
            x == total(a@.take(i as int)),
        decreases a@.len() - i,
    {
        assert(a@.take(i + 1).drop_last() =~= a@.take(i as int));
        x = x + a[i];
        i = i + 1;
    }
    assert(a@.take(i as int) =~= a@);
    x
}

/// Builds the sequence of the values of `f`.
pub(crate) fn build<T, F: Fn(usize) -> T>(
    n: usize,
    f: F,
    Ghost(g): Ghost<spec_fn(int) -> T>,
) -> (v: Vec<T>)
    requires
        forall|i: usize| i < n ==> #[trigger] call_requires(f, (i,)),
        forall|i: usize, t: T| #[trigger] call_ensures(f, (i,), t) && i < n ==> t == g(i as int),
    ensures
        v@ == Seq::new(n as nat, g),
        v@.len() == n,
{
    let mut v: Vec<T> = Vec::new();
    let mut i: usize = 0;
    while i < n
        invariant
            i <= n,
            forall|i: usize| i < n ==> #[trigger] call_requires(f, (i,)),
            forall|i: usize, t: T| #[trigger]
                call_ensures(f, (i,), t) && i < n ==> t == g(i as int),
            v@.len() == i,
            forall|k: int| 0 <= k < i ==> #[trigger] v@[k] == g(k),
        decreases n - i,
    {
        let t = f(i);
        v.push(t);
        i = i + 1;
    }
    assert(v@ =~= Seq::new(n as nat, g));
    v
}

/// Builds the sequence of the values of `f`, or gives its first failure.
pub(crate) fn collect<T, E, F: Fn(usize) -> Result<T, E>>(
    n: usize,
    f: F,
    Ghost(g): Ghost<spec_fn(int) -> Result<T, E>>,
) -> (r: Result<Vec<T>, E>)
    requires
        forall|i: usize| i < n ==> #[trigger] call_requires(f, (i,)),
        forall|i: usize, t: Result<T, E>| #[trigger]
            call_ensures(f, (i,), t) && i < n ==> t == g(i as int),
    ensures
        seen(r) == gather(n as nat, g),
        r matches Ok(v) ==> v@.len() == n,
{
    let mut v: Vec<T> = Vec::new();
    let mut i: usize = 0;
    while i < n
        invariant
            i <= n,
            forall|i: usize| i < n ==> #[trigger] call_requires(f, (i,)),
            forall|i: usize, t: Result<T, E>| #[trigger]
                call_ensures(f, (i,), t) && i < n ==> t == g(i as int),
            v@.len() == i,
            gather(i as nat, g) == Ok::<Seq<T>, E>(v@),
        decreases n - i,
    {
        match f(i) {
            Err(e) => {
                proof {
                    assert(gather((i + 1) as nat, g) == Err::<Seq<T>, E>(e));
                    gather_stops((i + 1) as nat, n as nat, g);
                }
                return Err(e);
            },
            Ok(t) => {
                v.push(t);
            },
        }
        i = i + 1;
    }
    Ok(v)
}

/// Rows as sequences.
pub open spec fn rows_seen<T>(rows: Seq<Vec<T>>) -> Seq<Seq<T>> {
    Seq::new(rows.len(), |i: int| rows[i]@)
}

/// Builds the sequence of the rows of `f`.
pub(crate) fn build_rows<T, F: Fn(usize) -> Vec<T>>(
    n: usize,
    f: F,
    Ghost(g): Ghost<spec_fn(int) -> Seq<T>>,
) -> (v: Vec<Vec<T>>)
    requires
        forall|i: usize| i < n ==> #[trigger] call_requires(f, (i,)),
        forall|i: usize, t: Vec<T>| #[trigger]
            call_ensures(f, (i,), t) && i < n ==> t@ == g(i as int),
    ensures
        rows_seen(v@) == Seq::new(n as nat, g),
        v@.len() == n,
        forall|i: int| 0 <= i < n ==> (#[trigger] v@[i])@ == g(i),
{
    let mut v: Vec<Vec<T>> = Vec::new();
    let mut i: usize = 0;
    while i < n
        invariant
            i <= n,
            forall|i: usize| i < n ==> #[trigger] call_requires(f, (i,)),
            forall|i: usize, t: Vec<T>| #[trigger]
                call_ensures(f, (i,), t) && i < n ==> t@ == g(i as int),
            v@.len() == i,
            forall|k: int| 0 <= k < i ==> (#[trigger] v@[k])@ == g(k),
        decreases n - i,
    {
        let t = f(i);
        v.push(t);
        i = i + 1;
    }
    assert(rows_seen(v@) =~= Seq::new(n as nat, g));
    v
}

/// Values as mathematical values.
pub open spec fn views<T: View>(v: Seq<T>) -> Seq<T::V> {
    Seq::new(v.len(), |i: int| v[i]@)
}

/// A result with its value as a mathematical value.
pub open spec fn viewed<T: View, E>(r: Result<T, E>) -> Result<T::V, E> {
    match r {
        Ok(t) => Ok(t@),
        Err(e) => Err(e),
    }
}

/// Builds the sequence of the values of `f`, of which each has the property
/// `p`, or gives its first failure.
pub(crate) fn collect_views<T: View, E, F: Fn(usize) -> Result<T, E>>(
    n: usize,
    f: F,
    Ghost(g): Ghost<spec_fn(int) -> Result<T::V, E>>,
    Ghost(p): Ghost<spec_fn(T) -> bool>,
) -> (r: Result<Vec<T>, E>)
    requires
        forall|i: usize| i < n ==> #[trigger] call_requires(f, (i,)),
        forall|i: usize, t: Result<T, E>| #[trigger]
            call_ensures(f, (i,), t) && i < n ==> viewed(t) == g(i as int) && (t matches Ok(
                x,
            ) ==> p(x)),
    ensures
        (match r {
            Ok(v) => Ok(views(v@)),
            Err(e) => Err(e),
        }) == gather(n as nat, g),
        r matches Ok(v) ==> v@.len() == n && forall|i: int| 0 <= i < n ==> p(#[trigger] v@[i]),
{
    let mut v: Vec<T> = Vec::new();
    assert(views(v@) =~= Seq::empty());
    let mut i: usize = 0;
    while i < n
        invariant
            i <= n,
            forall|i: usize| i < n ==> #[trigger] call_requires(f, (i,)),
            forall|i: usize, t: Result<T, E>| #[trigger]
                call_ensures(f, (i,), t) && i < n ==> viewed(t) == g(i as int) && (t matches Ok(
                    x,
                ) ==> p(x)),
            v@.len() == i,
            forall|k: int| 0 <= k < i ==> p(#[trigger] v@[k]),
            gather(i as nat, g) == Ok::<Seq<T::V>, E>(views(v@)),
        decreases n - i,
    {
        let ghost before = v@;
        match f(i) {
            Err(e) => {
                proof {
                    assert(gather((i + 1) as nat, g) == Err::<Seq<T::V>, E>(e));
                    gather_stops((i + 1) as nat, n as nat, g);
                }
                return Err(e);
            },
            Ok(t) => {
                v.push(t);
                assert(views(v@) =~= views(before).push(t@));
            },
        }
        i = i + 1;
    }
    Ok(v)
}

/// `base` with the entries added to it one by one.
pub open spec fn onto<R: Scalar>(base: R, terms: Seq<R>) -> R
    decreases terms.len(),
{
    if terms.len() == 0 {
        base
    } else {
        plus(onto(base, terms.drop_last()), terms.last())
    }
}

/// Computes [`onto`].
pub fn add_onto<R: Scalar, M: Math<R>>(m: &M, base: R, terms: &Vec<R>) -> (x: R)
    ensures
        x == onto(base, terms@),
{
    m.laws();
    let mut x = base;
    let mut i: usize = 0;
    while i < terms.len()
        invariant
            lawful::<R>(),
            i <= terms@.len(),
            x == onto(base, terms@.take(i as int)),
        decreases terms@.len() - i,
    {
        assert(terms@.take(i + 1).drop_last() =~= terms@.take(i as int));
        x = x + terms[i];
        i = i + 1;
    }
    assert(terms@.take(i as int) =~= terms@);
    x
}

/// All entries of all rows are finite.
pub open spec fn rows_finite<R: Scalar>(m: Model<R>, rows: Seq<Seq<R>>) -> bool {
    forall|i: int| 0 <= i < rows.len() ==> m.all_finite(#[trigger] rows[i])
}

/// Tests [`rows_finite`].
pub fn are_rows_finite<R: Scalar, M: Math<R>>(m: &M, rows: &Vec<Vec<R>>) -> (b: bool)
    ensures
        b == rows_finite(m.model(), rows_seen(rows@)),
{
    let mut i: usize = 0;
    while i < rows.len()
        invariant
            i <= rows@.len(),
            forall|k: int| 0 <= k < i ==> m.model().all_finite(#[trigger] rows_seen(rows@)[k]),
        decreases rows@.len() - i,
    {
        if !all_finite(m, rows[i].as_slice()) {
            assert(!m.model().all_finite(rows_seen(rows@)[i as int]));
            return false;
        }
        i = i + 1;
    }
    true
}

/// Builds the sequence of the rows of `f`, each of the length `width`, or gives
/// its first failure.
pub(crate) fn collect_rows<T, E, F: Fn(usize) -> Result<Vec<T>, E>>(
    n: usize,
    f: F,
    Ghost(g): Ghost<spec_fn(int) -> Result<Seq<T>, E>>,
    Ghost(width): Ghost<nat>,
) -> (r: Result<Vec<Vec<T>>, E>)
    requires
        forall|i: usize| i < n ==> #[trigger] call_requires(f, (i,)),
        forall|i: usize, t: Result<Vec<T>, E>| #[trigger]
            call_ensures(f, (i,), t) && i < n ==> seen(t) == g(i as int) && (t matches Ok(
                x,
            ) ==> x@.len() == width),
    ensures
        (match r {
            Ok(v) => Ok(rows_seen(v@)),
            Err(e) => Err(e),
        }) == gather(n as nat, g),
        r matches Ok(v) ==> v@.len() == n && forall|i: int|
            0 <= i < n ==> (#[trigger] v@[i])@.len() == width,
{
    let mut v: Vec<Vec<T>> = Vec::new();
    assert(rows_seen(v@) =~= Seq::empty());
    let mut i: usize = 0;
    while i < n
        invariant
            i <= n,
            forall|i: usize| i < n ==> #[trigger] call_requires(f, (i,)),
            forall|i: usize, t: Result<Vec<T>, E>| #[trigger]
                call_ensures(f, (i,), t) && i < n ==> seen(t) == g(i as int) && (t matches Ok(
                    x,
                ) ==> x@.len() == width),
            v@.len() == i,
            forall|k: int| 0 <= k < i ==> (#[trigger] v@[k])@.len() == width,
            gather(i as nat, g) == Ok::<Seq<Seq<T>>, E>(rows_seen(v@)),
        decreases n - i,
    {
        let ghost before = v@;
        match f(i) {
            Err(e) => {
                proof {
                    assert(gather((i + 1) as nat, g) == Err::<Seq<Seq<T>>, E>(e));
                    gather_stops((i + 1) as nat, n as nat, g);
                }
                return Err(e);
            },
            Ok(t) => {
                v.push(t);
                assert(rows_seen(v@) =~= rows_seen(before).push(t@));
            },
        }
        i = i + 1;
    }
    Ok(v)
}

/// Numbers with one more, after those that do not come after it.
pub open spec fn inserted<R: Scalar>(m: Model<R>, sorted: Seq<R>, x: R) -> Seq<R>
    decreases sorted.len(),
{
    if sorted.len() == 0 || !m.precedes(x, sorted.last()) {
        sorted.push(x)
    } else {
        inserted(m, sorted.drop_last(), x).push(sorted.last())
    }
}

/// Numbers in their total order, equal ones as they came.
pub open spec fn in_order<R: Scalar>(m: Model<R>, v: Seq<R>) -> Seq<R>
    decreases v.len(),
{
    if v.len() == 0 {
        v
    } else {
        inserted(m, in_order(m, v.drop_last()), v.last())
    }
}

/// Puts a number into its place.
fn insert<R: Scalar, M: Math<R>>(m: &M, sorted: &mut Vec<R>, x: R)
    ensures
        final(sorted)@ == inserted(m.model(), old(sorted)@, x),
    decreases old(sorted)@.len(),
{
    let n = sorted.len();
    if n == 0 || !m.precedes(x, sorted[n - 1]) {
        sorted.push(x);
    } else {
        let last = sorted[n - 1];
        let ghost before = sorted@;
        let popped = sorted.pop();
        assert(sorted@ =~= before.drop_last());
        insert(m, sorted, x);
        sorted.push(last);
    }
}

/// Puts numbers into their total order.
pub(crate) fn sort<R: Scalar, M: Math<R>>(m: &M, v: &Vec<R>) -> (s: Vec<R>)
    ensures
        s@ == in_order(m.model(), v@),
{
    let mut s: Vec<R> = Vec::new();
    let mut i: usize = 0;
    assert(v@.take(0) =~= Seq::empty());
    while i < v.len()
        invariant
            i <= v@.len(),
            s@ == in_order(m.model(), v@.take(i as int)),
        decreases v@.len() - i,
    {
        assert(v@.take(i + 1).drop_last() =~= v@.take(i as int));
        insert(m, &mut s, v[i]);
        i = i + 1;
    }
    assert(v@.take(i as int) =~= v@);
    s
}

} // verus!
