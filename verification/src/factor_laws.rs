//! What factors and kernels are: the lower factor of a matrix times its transpose is that
//! matrix, the derivative of a factor is the one that the moves of its matrix ask for, and
//! the noise that a rate still carries and the noise that it has reverted are together the
//! noise that drove it.

use crate::cholesky::{pivot_tangent, pivot_terms, row_terms, tangent_column, tangent_columns};
use crate::errors::MonteCarloError;
use crate::hw_cash::{cash_coefficients_of, CashInputs};
use crate::hw_laws::exponentials;
use crate::linear::total;
use crate::local_vol_laws::cancelled;
use crate::rates::{
    column_products, decayed, loading_column, loading_columns, loading_of, part_covariances,
    remainder, variance_floor, window, HybridCorrelation, RatesView,
};
use crate::scalar::{exact, gt, literal, minus, negated, over, plus, same, times, Model, Scalar};
use crate::simulation_laws::{counts, roots, sum_of};
use vstd::prelude::*;

verus! {

pub(crate) proof fn totals<R: Scalar>(value: spec_fn(R) -> real, s: Seq<R>)
    requires
        exact(value),
    ensures
        value(total(s)) == sum_of(value, s),
    decreases s.len(),
{
    if s.len() > 0 {
        totals(value, s.drop_last());
    }
}

/// A number that compares greater is greater.
pub open spec fn orders<R: Scalar>(value: spec_fn(R) -> real) -> bool {
    forall|x: R, y: R| #[trigger] gt(x, y) ==> value(x) > value(y)
}

/// The product of the first `n` entries of two rows.
pub open spec fn row_product<R>(
    value: spec_fn(R) -> real,
    rows: Seq<Seq<R>>,
    i: int,
    j: int,
    n: nat,
) -> real
    decreases n,
{
    if n == 0 {
        0 as real
    } else {
        row_product(value, rows, i, j, (n - 1) as nat) + value(rows[i][n - 1]) * value(
            rows[j][n - 1],
        )
    }
}

proof fn columns_begin<R: Scalar>(m: Model<R>, c: Seq<Seq<R>>, j: nat, n: nat)
    requires
        j < n,
        loading_columns(m, c, n) is Ok,
    ensures
        loading_columns(m, c, j) is Ok,
        loading_columns(m, c, n)->Ok_0.len() == n,
        loading_columns(m, c, n)->Ok_0.take(j as int) == loading_columns(m, c, j)->Ok_0,
        loading_column(m, c, loading_columns(m, c, j)->Ok_0, j as int) == Ok::<
            Seq<R>,
            MonteCarloError,
        >(loading_columns(m, c, n)->Ok_0[j as int]),
    decreases n,
{
    let k = (n - 1) as nat;
    let all = loading_columns(m, c, n)->Ok_0;
    let before = loading_columns(m, c, k)->Ok_0;
    if j < k {
        columns_begin(m, c, j, k);
        assert(all.take(j as int) =~= before.take(j as int));
    } else {
        columns_count(m, c, k);
        assert(all.take(j as int) =~= before);
    }
}

proof fn columns_count<R: Scalar>(m: Model<R>, c: Seq<Seq<R>>, n: nat)
    requires
        loading_columns(m, c, n) is Ok,
    ensures
        loading_columns(m, c, n)->Ok_0.len() == n,
    decreases n,
{
    if n > 0 {
        columns_count(m, c, (n - 1) as nat);
    }
}

proof fn products_add_up<R: Scalar>(
    value: spec_fn(R) -> real,
    columns: Seq<Seq<R>>,
    rows: Seq<Seq<R>>,
    i: int,
    j: int,
    n: nat,
)
    requires
        exact(value),
        n <= columns.len(),
        forall|h: int|
            0 <= h < n ==> rows[i][h] == #[trigger] columns[h][i] && rows[j][h] == columns[h][j],
    ensures
        sum_of(value, column_products(columns.take(n as int), i, j)) == row_product(
            value,
            rows,
            i,
            j,
            n,
        ),
    decreases n,
{
    if n > 0 {
        products_add_up(value, columns, rows, i, j, (n - 1) as nat);
        let s = column_products(columns.take(n as int), i, j);
        assert(s.drop_last() =~= column_products(columns.take(n - 1), i, j));
        assert(s.last() == times(columns[n - 1][i], columns[n - 1][j]));
    } else {
        assert(column_products(columns.take(0), i, j).len() == 0);
    }
}

/// The lower factor of a matrix of covariances, times its transpose, is that matrix: in every
/// row and column of a driver with noise of its own.
pub proof fn factors_multiply_to_their_matrix<R: Scalar>(
    value: spec_fn(R) -> real,
    m: Model<R>,
    c: Seq<Seq<R>>,
    i: int,
    j: int,
)
    requires
        counts(m, value),
        roots(m, value),
        orders(value),
        0 <= j <= i < 4,
        value(c[j][j]) >= 0 as real,
        loading_of(m, c) matches Ok(rows) ==> value(rows[j][j]) != 0 as real,
    ensures
        loading_of(m, c) matches Ok(rows) ==> row_product(value, rows, i, j, 4) == value(c[i][j]),
{
    if let Ok(rows) = loading_of(m, c) {
        let columns = loading_columns(m, c, 4)->Ok_0;
        columns_begin(m, c, j as nat, 4);
        let before = columns.take(j);
        let pivot = remainder(c, before, j, j);
        let floor = variance_floor(c[j][j]);
        assert(rows[j][j] == columns[j][j]);
        assert(gt(pivot, floor));
        floor_is_not_negative(value, m, c[j][j]);
        let root = m.sqrt(pivot);
        assert(value(root) * value(root) == value(pivot));
        products_add_up(value, columns, rows, i, j, j as nat);
        products_add_up(value, columns, rows, j, j, j as nat);
        totals(value, column_products(before, i, j));
        totals(value, column_products(before, j, j));
        let at = row_product(value, rows, i, j, j as nat);
        assert(row_product(value, rows, i, j, (j + 1) as nat) == at + value(rows[i][j]) * value(
            rows[j][j],
        ));
        later_entries_are_nothing(value, m, c, rows, i, j, 4);
    }
}

proof fn floor_is_not_negative<R: Scalar>(value: spec_fn(R) -> real, m: Model<R>, variance: R)
    requires
        counts(m, value),
        value(variance) >= 0 as real,
    ensures
        value(variance_floor(variance)) >= 0 as real,
{
    let many = literal::<R>(10000000);
    assert(value(many) == 10000000 as real);
    let (f, k, v) = (value(variance_floor(variance)), value(times(many, many)), value(variance));
    assert(k == 10000000 as real * 10000000 as real);
    assert(f >= 0 as real) by (nonlinear_arith)
        requires
            f * k == v,
            v >= 0 as real,
            k > 0 as real,
    ;
}

proof fn later_entries_are_nothing<R: Scalar>(
    value: spec_fn(R) -> real,
    m: Model<R>,
    c: Seq<Seq<R>>,
    rows: Seq<Seq<R>>,
    i: int,
    j: int,
    n: nat,
)
    requires
        exact(value),
        loading_of(m, c) == Ok::<Seq<Seq<R>>, MonteCarloError>(rows),
        0 <= j <= i < 4,
        j + 1 <= n <= 4,
    ensures
        row_product(value, rows, i, j, n) == row_product(value, rows, i, j, (j + 1) as nat),
    decreases n,
{
    if n > j + 1 {
        later_entries_are_nothing(value, m, c, rows, i, j, (n - 1) as nat);
        columns_begin(m, c, (n - 1) as nat, 4);
        assert(rows[j][n - 1] == loading_columns(m, c, 4)->Ok_0[n - 1][j]);
        assert(value(rows[j][n - 1]) == 0 as real);
        let x = value(rows[i][n - 1]);
        assert(x * 0 as real == 0 as real) by (nonlinear_arith);
    }
}

/// What the first `n` columns of the derivative of a factor make of the entry in the row `i`
/// and the column `j` of its matrix.
pub open spec fn moved_product<R>(
    value: spec_fn(R) -> real,
    l: Seq<R>,
    d: int,
    columns: Seq<Seq<R>>,
    i: int,
    j: int,
    n: nat,
) -> real
    decreases n,
{
    if n == 0 {
        0 as real
    } else {
        moved_product(value, l, d, columns, i, j, (n - 1) as nat) + value(columns[n - 1][i])
            * value(l[j * d + (n - 1)]) + value(l[i * d + (n - 1)]) * value(columns[n - 1][j])
    }
}

proof fn tangents_begin<R: Scalar>(
    l: Seq<R>,
    d: int,
    dc: spec_fn(int, int) -> R,
    j: nat,
    n: nat,
)
    requires
        j < n,
    ensures
        tangent_columns(l, d, dc, n).len() == n,
        tangent_columns(l, d, dc, n).take(j as int) == tangent_columns(l, d, dc, j),
        tangent_columns(l, d, dc, n)[j as int] == tangent_column(
            l,
            d,
            dc,
            tangent_columns(l, d, dc, j),
            j as int,
        ),
    decreases n,
{
    let k = (n - 1) as nat;
    tangents_count(l, d, dc, k);
    if j < k {
        tangents_begin(l, d, dc, j, k);
    }
    assert(tangent_columns(l, d, dc, n).take(j as int) =~= tangent_columns(l, d, dc, j));
}

proof fn tangents_count<R: Scalar>(l: Seq<R>, d: int, dc: spec_fn(int, int) -> R, n: nat)
    ensures
        tangent_columns(l, d, dc, n).len() == n,
    decreases n,
{
    if n > 0 {
        tangents_count(l, d, dc, (n - 1) as nat);
    }
}

proof fn row_terms_add_up<R: Scalar>(
    value: spec_fn(R) -> real,
    l: Seq<R>,
    d: int,
    columns: Seq<Seq<R>>,
    i: int,
    j: int,
    n: nat,
)
    requires
        exact(value),
        n <= columns.len(),
    ensures
        sum_of(
            value,
            Seq::new(
                n,
                |h: int| plus(
                    times(columns[h][i], l[j * d + h]),
                    times(l[i * d + h], columns[h][j]),
                ),
            ),
        ) == moved_product(value, l, d, columns, i, j, n),
    decreases n,
{
    let f = |h: int|
        plus(times(columns[h][i], l[j * d + h]), times(l[i * d + h], columns[h][j]));
    if n > 0 {
        row_terms_add_up(value, l, d, columns, i, j, (n - 1) as nat);
        assert(Seq::new(n, f).drop_last() =~= Seq::new((n - 1) as nat, f));
        assert(Seq::new(n, f).last() == f(n - 1));
    }
}

proof fn pivot_terms_add_up<R: Scalar>(
    value: spec_fn(R) -> real,
    m: Model<R>,
    l: Seq<R>,
    d: int,
    columns: Seq<Seq<R>>,
    j: int,
    n: nat,
)
    requires
        counts(m, value),
    ensures
        sum_of(
            value,
            Seq::new(n, |h: int| times(times(literal(2), l[j * d + h]), columns[h][j])),
        ) == moved_product(value, l, d, columns, j, j, n),
    decreases n,
{
    let f = |h: int| times(times(literal(2), l[j * d + h]), columns[h][j]);
    if n > 0 {
        pivot_terms_add_up(value, m, l, d, columns, j, (n - 1) as nat);
        assert(Seq::new(n, f).drop_last() =~= Seq::new((n - 1) as nat, f));
        assert(Seq::new(n, f).last() == f(n - 1));
        let two = literal::<R>(2);
        assert(value(two) == 2 as real);
        let (a, b) = (value(l[j * d + (n - 1)]), value(columns[n - 1][j]));
        assert(2 as real * a * b == b * a + a * b) by (nonlinear_arith);
    }
}

/// The derivative of a lower factor is the one that moves its matrix as asked: the factor
/// times the transpose of its derivative, and the other way round, make the moves of the
/// entries below the diagonal and leave the diagonal.
pub proof fn factor_tangents_move_their_matrix<R: Scalar>(
    value: spec_fn(R) -> real,
    m: Model<R>,
    l: Seq<R>,
    d: nat,
    dc: spec_fn(int, int) -> R,
    i: int,
    j: int,
)
    requires
        counts(m, value),
        0 <= j <= i < d,
        value(l[j * d + j]) != 0 as real,
    ensures
        moved_product(
            value,
            l,
            d as int,
            tangent_columns(l, d as int, dc, d),
            i,
            j,
            (j + 1) as nat,
        ) == (if i == j {
            0 as real
        } else {
            value(dc(i, j))
        }),
{
    let all = tangent_columns(l, d as int, dc, d);
    tangents_begin(l, d as int, dc, j as nat, d);
    let before = tangent_columns(l, d as int, dc, j as nat);
    let p = l[j * d + j];
    let two = literal::<R>(2);
    assert(value(two) == 2 as real);
    pivot_terms_add_up(value, m, l, d as int, before, j, j as nat);
    totals(value, pivot_terms(l, d as int, before, j));
    assert(pivot_terms(l, d as int, before, j) =~= Seq::new(
        j as nat,
        |h: int| times(times(literal(2), l[j * d + h]), before[h][j]),
    ));
    let t = value(pivot_tangent(l, d as int, before, j));
    let q = value(p);
    assert(t * (2 as real * q) == -sum_of(value, pivot_terms(l, d as int, before, j)));
    assert(t * (2 as real * q) == t * q + q * t) by (nonlinear_arith);
    same_products(value, l, d as int, all, before, i, j, j as nat);
    same_products(value, l, d as int, all, before, j, j, j as nat);
    assert(all[j][j] == pivot_tangent(l, d as int, before, j));
    if i > j {
        row_terms_add_up(value, l, d as int, before, i, j, j as nat);
        assert(row_terms(l, d as int, before, i, j) =~= Seq::new(
            j as nat,
            |h: int| plus(times(before[h][i], l[j * d + h]), times(l[i * d + h], before[h][j])),
        ));
        totals(value, row_terms(l, d as int, before, i, j));
        let x = value(all[j][i]);
        let a = value(l[i * d + j]);
        assert(x * q == value(dc(i, j)) - sum_of(value, row_terms(l, d as int, before, i, j)) - a
            * t);
    }
}

proof fn same_products<R>(
    value: spec_fn(R) -> real,
    l: Seq<R>,
    d: int,
    all: Seq<Seq<R>>,
    before: Seq<Seq<R>>,
    i: int,
    j: int,
    n: nat,
)
    requires
        n <= before.len() <= all.len(),
        all.take(before.len() as int) == before,
    ensures
        moved_product(value, l, d, all, i, j, n) == moved_product(value, l, d, before, i, j, n),
    decreases n,
{
    if n > 0 {
        same_products(value, l, d, all, before, i, j, (n - 1) as nat);
        assert(all.take(before.len() as int)[n - 1] == all[n - 1]);
    }
}

/// Differences from nothing are seen: what compares equal to nothing is nothing, and nothing
/// else is.
pub open spec fn sees_nothing<R: Scalar>(value: spec_fn(R) -> real) -> bool {
    forall|x: R| #[trigger] same(x, literal(0)) <==> value(x) == 0 as real
}

/// Exponentials less one are exact.
pub open spec fn exponentials_less_one<R: Scalar>(m: Model<R>, value: spec_fn(R) -> real) -> bool {
    forall|x: R| #[trigger] value(m.exp_m1(x)) == value(m.exp(x)) - 1 as real
}

/// What has decayed over a time, times the speed, is what an exponential has lost over it; at
/// no speed it is the time itself.
pub proof fn decays_integrate_exponentials<R: Scalar>(
    value: spec_fn(R) -> real,
    m: Model<R>,
    c: R,
    h: R,
)
    requires
        exact(value),
        sees_nothing(value),
        exponentials(m, value),
        exponentials_less_one(m, value),
    ensures
        value(c) * value(decayed(m, c, h)) == 1 as real - value(m.exp(times(negated(c), h))),
        value(c) == 0 as real ==> value(decayed(m, c, h)) == value(h),
{
    let x = times(negated(c), h);
    let (a, b) = (value(c), value(h));
    assert(value(x) == (-a) * b);
    let y = value(decayed(m, c, h));
    if a == 0 as real {
        assert((-a) * b == 0 as real && a * y == 0 as real) by (nonlinear_arith)
            requires
                a == 0 as real,
        ;
    } else {
        assert(y * a == -value(m.exp_m1(x)));
        assert(a * y == y * a) by (nonlinear_arith);
    }
}

/// A window and the window that follows it are the window over both.
pub proof fn windows_join<R: Scalar>(
    value: spec_fn(R) -> real,
    m: Model<R>,
    c: R,
    near: R,
    first: R,
    second: R,
)
    requires
        exact(value),
        sees_nothing(value),
        exponentials(m, value),
        exponentials_less_one(m, value),
    ensures
        value(window(m, c, near, first)) + value(window(m, c, plus(near, first), second)) == value(
            window(m, c, near, plus(first, second)),
        ),
{
    let both = plus(first, second);
    decays_integrate_exponentials(value, m, c, first);
    decays_integrate_exponentials(value, m, c, second);
    decays_integrate_exponentials(value, m, c, both);
    let k = negated(c);
    let (a, n, u, v) = (value(c), value(near), value(first), value(second));
    let (en, eu, ev) = (
        value(m.exp(times(k, near))),
        value(m.exp(times(k, first))),
        value(m.exp(times(k, second))),
    );
    distributes(-a, n, u);
    distributes(-a, u, v);
    exponentials_split(value, m, times(k, plus(near, first)), times(k, near), times(k, first));
    exponentials_split(value, m, times(k, both), times(k, first), times(k, second));
    let (x, y, z) = (
        value(decayed(m, c, first)),
        value(decayed(m, c, second)),
        value(decayed(m, c, both)),
    );
    let f = en * eu;
    assert(value(m.exp(times(k, plus(near, first)))) == f);
    if a == 0 as real {
        assert((-a) * u == 0 as real) by (nonlinear_arith)
            requires
                a == 0 as real,
        ;
        assert(eu == 1 as real);
        assert(en * x + f * y == en * z) by (nonlinear_arith)
            requires
                f == en * eu,
                eu == 1 as real,
                z == x + y,
        ;
    } else {
        let w = x + eu * y;
        assert(a * w == a * x + eu * (a * y)) by (nonlinear_arith)
            requires
                w == x + eu * y,
        ;
        let (p, r) = (a * x, a * y);
        assert(eu * r == eu - eu * ev) by (nonlinear_arith)
            requires
                r == 1 as real - ev,
        ;
        assert(w * a == a * w && z * a == a * z) by (nonlinear_arith);
        cancelled(w, z, a);
        assert(en * x + f * y == en * z) by (nonlinear_arith)
            requires
                f == en * eu,
                z == x + eu * y,
        ;
    }
}

proof fn distributes(k: real, a: real, b: real)
    ensures
        k * (a + b) == k * a + k * b,
{
    assert(k * (a + b) == k * a + k * b) by (nonlinear_arith);
}

proof fn exponentials_split<R: Scalar>(value: spec_fn(R) -> real, m: Model<R>, x: R, a: R, b: R)
    requires
        exact(value),
        exponentials(m, value),
        value(x) == value(a) + value(b),
    ensures
        value(m.exp(x)) == value(m.exp(a)) * value(m.exp(b)),
{
    assert(value(m.exp(plus(a, b))) == value(m.exp(a)) * value(m.exp(b)));
    assert(value(plus(a, b)) == value(x));
    assert(value(m.exp(x)) == value(m.exp(plus(a, b))));
}

/// Over a part of a step, the noise of the rate together with its reversion times that of its
/// integral is the noise that drove it: so are their covariances with equity, with the second
/// driver, and with the rate itself.
pub proof fn rates_and_their_integrals_make_their_noise<R: Scalar>(
    value: spec_fn(R) -> real,
    m: Model<R>,
    a: R,
    k: R,
    corr: HybridCorrelation<R>,
    s: R,
    near: R,
    h: R,
)
    requires
        counts(m, value),
        sees_nothing(value),
        exponentials(m, value),
        exponentials_less_one(m, value),
    ensures
        ({
            let p = part_covariances(m, a, k, corr, s, near, h);
            let v = |i: int| value(p[i]);
            let (r, sigma) = (value(a), value(s));
            &&& v(0) == value(h)
            &&& v(3) + r * v(6) == value(corr.equity_rate) * sigma * value(h)
            &&& v(4) + r * v(7) == value(corr.second_rate) * sigma * value(window(m, k, near, h))
            &&& v(5) + r * v(8) == sigma * sigma * value(window(m, a, near, h))
            &&& v(1) == value(corr.equity_second) * value(window(m, k, near, h))
        }),
{
    let flat = same(a, literal(0));
    let (r, sigma, t) = (value(a), value(s), value(h));
    let two = literal::<R>(2);
    let ea = value(window(m, a, near, h));
    let e2a = value(window(m, times(two, a), near, h));
    let ek = value(window(m, k, near, h));
    let eka = value(window(m, plus(k, a), near, h));
    let p = part_covariances(m, a, k, corr, s, near, h);
    let (x, y) = (value(corr.equity_rate) * sigma, value(corr.second_rate) * sigma);
    let z = sigma * sigma;
    if flat {
        assert(r == 0 as real);
        still_windows(value, m, a, near, h);
        still_windows(value, m, times(two, a), near, h);
        assert(value(times(two, a)) == 0 as real) by {
            assert(value(two) * r == 0 as real) by (nonlinear_arith)
                requires
                    r == 0 as real,
            ;
        }
        equal_windows(value, m, k, plus(k, a), near, h);
        let (u, v, w) = (value(p[6]), value(p[7]), value(p[8]));
        assert(r * u == 0 as real && r * v == 0 as real && r * w == 0 as real) by (nonlinear_arith)
            requires
                r == 0 as real,
        ;
    } else {
        let far = plus(near, h);
        let (i, j, l) = (
            value(over(minus(h, window(m, a, near, h)), a)),
            value(over(minus(window(m, k, near, h), window(m, plus(k, a), near, h)), a)),
            value(over(minus(window(m, a, near, h), window(m, times(two, a), near, h)), a)),
        );
        assert(i * r == t - ea && j * r == ek - eka && l * r == ea - e2a);
        scaled_remainder(x, i, r, t, ea);
        scaled_remainder(y, j, r, ek, eka);
        scaled_remainder(z, l, r, ea, e2a);
    }
}

proof fn scaled_remainder(x: real, i: real, r: real, whole: real, part: real)
    requires
        i * r == whole - part,
    ensures
        x * part + r * (x * i) == x * whole,
{
    assert(r * (x * i) == x * (i * r)) by (nonlinear_arith);
    assert(x * part + x * (whole - part) == x * whole) by (nonlinear_arith);
}

proof fn still_windows<R: Scalar>(value: spec_fn(R) -> real, m: Model<R>, c: R, near: R, h: R)
    requires
        exact(value),
        sees_nothing(value),
        exponentials(m, value),
    ensures
        value(c) == 0 as real ==> value(window(m, c, near, h)) == value(h),
{
    if value(c) == 0 as real {
        let (x, n) = (value(c), value(near));
        assert((-x) * n == 0 as real) by (nonlinear_arith)
            requires
                x == 0 as real,
        ;
        let y = value(h);
        assert(1 as real * y == y) by (nonlinear_arith);
    }
}

proof fn equal_windows<R: Scalar>(value: spec_fn(R) -> real, m: Model<R>, c: R, d: R, near: R, h: R)
    requires
        exact(value),
        sees_nothing(value),
        exponentials(m, value),
        exponentials_less_one(m, value),
        value(c) == value(d),
    ensures
        value(window(m, c, near, h)) == value(window(m, d, near, h)),
{
    let (x, y) = (times(negated(c), h), times(negated(d), h));
    assert(value(m.exp(x)) == value(m.exp(y)));
    assert(value(m.exp(times(negated(c), near))) == value(m.exp(times(negated(d), near))));
    decays_integrate_exponentials(value, m, c, h);
    decays_integrate_exponentials(value, m, d, h);
    let (a, p, q) = (value(c), value(decayed(m, c, h)), value(decayed(m, d, h)));
    if a != 0 as real {
        assert(p * a == a * p && q * a == a * q) by (nonlinear_arith);
        cancelled(p, q, a);
    }
}

/// The claims of equity, of dividends and of cash on a dividend that no rate disturbs make one
/// claim, and those of equity and cash share as the linkage has it.
pub proof fn certain_claims_make_one<R: Scalar>(
    value: spec_fn(R) -> real,
    m: Model<R>,
    rates: RatesView<R>,
    x: CashInputs<R>,
    t: R,
    maturity: R,
)
    requires
        exact(value),
        exponentials(m, value),
        exponentials_less_one(m, value),
        rates.deterministic(),
    ensures
        cash_coefficients_of(m, rates, x, t, maturity) matches Ok(c) ==> {
            let alpha = value(x.dividends.equity_linkage);
            &&& c.len() == 3
            &&& value(c[0]) + value(c[1]) + value(c[2]) == 1 as real
            &&& value(c[0]) * (1 as real - alpha) == alpha * value(c[2])
            &&& value(c[1]) == value(
                m.exp(times(negated(x.dividends.mean_reversion), minus(maturity, t))),
            )
        },
{
    let e = value(m.exp(times(negated(x.dividends.mean_reversion), minus(maturity, t))));
    let a = value(x.dividends.equity_linkage);
    let c = 1 as real - e;
    assert(a * c + (1 as real - a) * c == c) by (nonlinear_arith);
    assert((a * c) * (1 as real - a) == a * ((1 as real - a) * c)) by (nonlinear_arith);
}

} // verus!
