//! The derivative of the lower factor of a matrix.

use crate::linear::{build, rows_seen, take_total, total};
use crate::scalar::{lawful, literal, minus, negated, over, plus, times, Math, Scalar};
use core::ops::Neg;
use vstd::prelude::*;

verus! {

/// The products of the earlier entries of the row `j` of the factor `l` with
/// their derivatives, twice each.
pub open spec fn pivot_terms<R: Scalar>(l: Seq<R>, d: int, columns: Seq<Seq<R>>, j: int) -> Seq<R> {
    Seq::new(j as nat, |h: int| times(times(literal(2), l[j * d + h]), columns[h][j]))
}

/// The derivative of the pivot `j`.
pub open spec fn pivot_tangent<R: Scalar>(l: Seq<R>, d: int, columns: Seq<Seq<R>>, j: int) -> R {
    over(negated(total(pivot_terms(l, d, columns, j))), times(literal(2), l[j * d + j]))
}

/// The products of the earlier entries of the rows `i` and `j`, differentiated.
pub open spec fn row_terms<R: Scalar>(
    l: Seq<R>,
    d: int,
    columns: Seq<Seq<R>>,
    i: int,
    j: int,
) -> Seq<R> {
    Seq::new(
        j as nat,
        |h: int| plus(times(columns[h][i], l[j * d + h]), times(l[i * d + h], columns[h][j])),
    )
}

/// The derivative of the column `j` of the factor, out of those of the columns
/// before it. Nothing stands above the pivot.
pub open spec fn tangent_column<R: Scalar>(
    l: Seq<R>,
    d: int,
    dc: spec_fn(int, int) -> R,
    columns: Seq<Seq<R>>,
    j: int,
) -> Seq<R> {
    Seq::new(
        d as nat,
        |i: int|
            if i < j {
                literal(0)
            } else if i == j {
                pivot_tangent(l, d, columns, j)
            } else {
                over(
                    minus(
                        minus(dc(i, j), total(row_terms(l, d, columns, i, j))),
                        times(l[i * d + j], pivot_tangent(l, d, columns, j)),
                    ),
                    l[j * d + j],
                )
            },
    )
}

/// The first `n` columns of the derivative of the lower factor `l` of a matrix
/// of size `d`, where the entry in row `i` and column `j` of the matrix moves by
/// `dc(i, j)` and its diagonal stays.
pub open spec fn tangent_columns<R: Scalar>(
    l: Seq<R>,
    d: int,
    dc: spec_fn(int, int) -> R,
    n: nat,
) -> Seq<Seq<R>>
    decreases n,
{
    if n == 0 {
        Seq::empty()
    } else {
        let columns = tangent_columns(l, d, dc, (n - 1) as nat);
        columns.push(tangent_column(l, d, dc, columns, n - 1))
    }
}

/// There are as many columns as were asked for, each of the size of the matrix.
pub proof fn tangent_shape<R: Scalar>(l: Seq<R>, d: int, dc: spec_fn(int, int) -> R, n: nat)
    requires
        0 <= d,
    ensures
        tangent_columns(l, d, dc, n).len() == n,
        forall|j: int| 0 <= j < n ==> (#[trigger] tangent_columns(l, d, dc, n)[j]).len() == d,
    decreases n,
{
    if n > 0 {
        tangent_shape(l, d, dc, (n - 1) as nat);
    }
}

/// The derivative of a lower factor is lower triangular.
pub proof fn tangent_is_lower<R: Scalar>(
    l: Seq<R>,
    d: int,
    dc: spec_fn(int, int) -> R,
    n: nat,
    i: int,
    j: int,
)
    requires
        0 <= i < j < n <= d,
    ensures
        tangent_columns(l, d, dc, n)[j][i] == literal::<R>(0),
    decreases n,
{
    tangent_shape(l, d, dc, (n - 1) as nat);
    if j < n - 1 {
        tangent_is_lower(l, d, dc, (n - 1) as nat, i, j);
    }
}

proof fn lemma_at(i: int, j: int, d: int)
    requires
        0 <= i < d,
        0 <= j < d,
    ensures
        0 <= i * d,
        0 <= i * d + j < d * d,
{
    assert(0 <= i * d && i * d + j < d * d) by (nonlinear_arith)
        requires
            0 <= i < d,
            0 <= j < d,
    ;
}

/// Differentiates the lower factor of a matrix.
pub(crate) fn tangent<R: Scalar, M: Math<R>, F: Fn(usize, usize) -> R>(
    m: &M,
    l: &Vec<R>,
    d: usize,
    f: F,
    Ghost(dc): Ghost<spec_fn(int, int) -> R>,
) -> (columns: Vec<Vec<R>>)
    requires
        l@.len() == d * d,
        forall|i: usize, j: usize| j < i < d ==> #[trigger] call_requires(f, (i, j)),
        forall|i: usize, j: usize, x: R| #[trigger]
            call_ensures(f, (i, j), x) && j < i < d ==> x == dc(i as int, j as int),
    ensures
        rows_seen(columns@) == tangent_columns(l@, d as int, dc, d as nat),
        columns@.len() == d,
        forall|j: int| 0 <= j < d ==> (#[trigger] columns@[j])@.len() == d,
{
    m.laws();
    assert(l@.len() == l.len());
    let mut columns: Vec<Vec<R>> = Vec::new();
    assert(rows_seen(columns@) =~= Seq::empty());
    let mut j: usize = 0;
    while j < d
        invariant
            j <= d,
            lawful::<R>(),
            l@.len() == d * d,
            l@.len() <= usize::MAX,
            forall|i: usize, j: usize| j < i < d ==> #[trigger] call_requires(f, (i, j)),
            forall|i: usize, j: usize, x: R| #[trigger]
                call_ensures(f, (i, j), x) && j < i < d ==> x == dc(i as int, j as int),
            columns@.len() == j,
            forall|h: int| 0 <= h < j ==> (#[trigger] columns@[h])@.len() == d,
            rows_seen(columns@) == tangent_columns(l@, d as int, dc, j as nat),
        decreases d - j,
    {
        let ghost seen_columns = rows_seen(columns@);
        proof {
            lemma_at(j as int, j as int, d as int);
        }
        let ghost squares = |h: int| pivot_terms(l@, d as int, rows_seen(columns@), j as int)[h];
        let terms_at = |h: usize| -> (x: R)
            requires
                h < j,
            ensures
                x == squares(h as int),
            {
                m.laws();
                proof {
                    lemma_at(j as int, h as int, d as int);
                }
                R::from(2u32) * l[j * d + h] * columns[h][j]
            };
        let terms = build(
            j,
            terms_at,
            Ghost(squares),
        );
        assert(terms@ =~= pivot_terms(l@, d as int, seen_columns, j as int));
        let sum = take_total(m, &terms);
        let pivot = l[j * d + j];
        let diagonal = sum.neg() / (R::from(2u32) * pivot);
        let ghost entry = |i: int|
            tangent_column(l@, d as int, dc, rows_seen(columns@), j as int)[i];
        let column_at = |i: usize| -> (x: R)
            requires
                i < d,
            ensures
                x == entry(i as int),
            {
                m.laws();
                if i < j {
                    R::from(0u32)
                } else if i == j {
                    diagonal
                } else {
                    let ghost products = |h: int|
                        row_terms(l@, d as int, rows_seen(columns@), i as int, j as int)[h];
                    let cross_at = |h: usize| -> (x: R)
                        requires
                            h < j,
                        ensures
                            x == products(h as int),
                        {
                            m.laws();
                            proof {
                                lemma_at(j as int, h as int, d as int);
                                lemma_at(i as int, h as int, d as int);
                            }
                            columns[h][i] * l[j * d + h] + l[i * d + h] * columns[h][j]
                        };
                    let cross = build(
                        j,
                        cross_at,
                        Ghost(products),
                    );
                    assert(cross@ =~= row_terms(
                        l@,
                        d as int,
                        rows_seen(columns@),
                        i as int,
                        j as int,
                    ));
                    proof {
                        lemma_at(i as int, j as int, d as int);
                    }
                    let moved = f(i, j);
                    let mixed = take_total(m, &cross);
                    (moved - mixed - l[i * d + j] * diagonal) / pivot
                }
            };
        let column = build(
            d,
            column_at,
            Ghost(entry),
        );
        let ghost before = columns@;
        assert(column@ =~= tangent_column(l@, d as int, dc, seen_columns, j as int));
        columns.push(column);
        assert(rows_seen(columns@) =~= seen_columns.push(column@));
        j = j + 1;
    }
    columns
}

} // verus!
