//! What a simulation is for: its estimate is the average over its draws, a draw weighs as
//! much as any other, and the weights that a draw gives its path and the mirror image of
//! that path add up to one. A quantity that no draw moves is its own estimate.

use crate::dividend_price::{draw_price, price_estimate, price_row, price_rows, priced_job};
use crate::engine::EngineConfig;
use crate::errors::MonteCarloError;
use crate::estimation::{
    error_of, estimated, estimated_together, job_rows, mean_of, pseudo_row, quasi_row, raw_errors,
    simulated, Job,
};
use crate::hybrid_aad::blocks_bridged;
use crate::linear::chunk;
use crate::local_vol::{paired_row, reflected};
use crate::neumaier::{compensated_sum, running_sum};
use crate::results::{gather, gather_failure, gather_values};
use crate::sampling::{
    as_they_are, averaged, bridged, factor_bridge, half, path_normals, quasi_normal, quasi_normals,
    sampled, signed, Backend, Quantities, Statistics,
};
use crate::scalar::{exact, literal, minus, negated, over, plus, times, Model, Scalar};
use crate::target_risk::error_or;
use crate::units::{column, column_mean, scramble_row, statistics_of, table_of, Rows};
use vstd::prelude::*;

verus! {

/// No operation rounds, and counts and literals are the numbers they stand for.
pub open spec fn counts<R: Scalar>(m: Model<R>, value: spec_fn(R) -> real) -> bool {
    &&& exact(value)
    &&& forall|n: u32| #[trigger] value(literal(n)) == n as int as real
    &&& forall|n: u64| #[trigger] value(m.of(n)) == n as int as real
}

/// Square roots are exact too.
pub open spec fn roots<R: Scalar>(m: Model<R>, value: spec_fn(R) -> real) -> bool {
    forall|x: R|
        value(x) >= 0 as real ==> #[trigger] value(m.sqrt(x)) >= 0 as real && value(m.sqrt(x))
            * value(m.sqrt(x)) == value(x)
}

/// What numbers add up to.
pub open spec fn sum_of<R>(value: spec_fn(R) -> real, s: Seq<R>) -> real
    decreases s.len(),
{
    if s.len() == 0 {
        0 as real
    } else {
        sum_of(value, s.drop_last()) + value(s.last())
    }
}

/// The totals of a backend are what the values add up to.
pub open spec fn adds_up<R: Scalar, B: Backend<R>>(value: spec_fn(R) -> real, b: B) -> bool {
    &&& forall|s: Seq<R>| value(#[trigger] b.reduction_of(s).total) == sum_of(value, s)
    &&& forall|s: Seq<R>| value(#[trigger] b.two_pass_of(s).total) == sum_of(value, s)
}

/// A backend sees no variance in values that are all alike.
pub open spec fn sees_no_variance<R: Scalar, B: Backend<R>>(
    value: spec_fn(R) -> real,
    b: B,
) -> bool {
    forall|s: Seq<R>, x: real|
        (forall|i: int| 0 <= i < s.len() ==> value(#[trigger] s[i]) == x) && #[trigger] alike(x)
            ==> (#[trigger] b.reduction_of(s).sample_variance matches Some(v) ==> value(v)
            == 0 as real) && (b.two_pass_of(s).sample_variance matches Some(v) ==> value(v)
            == 0 as real)
}

/// A number that values may be alike in.
pub open spec fn alike(x: real) -> bool {
    true
}

/// What the quantity `j` of the first `n` rows adds up to.
pub open spec fn rows_total<R>(
    value: spec_fn(R) -> real,
    f: spec_fn(int) -> Result<Seq<R>, MonteCarloError>,
    j: int,
    n: nat,
) -> real
    decreases n,
{
    if n == 0 {
        0 as real
    } else {
        rows_total(value, f, j, (n - 1) as nat) + value(f(n - 1)->Ok_0[j])
    }
}

/// What the quantity `j` of the points of the first `n` scrambles adds up to.
pub open spec fn scrambles_total<R>(
    value: spec_fn(R) -> real,
    rows: Rows<R>,
    points: u64,
    j: int,
    n: nat,
) -> real
    decreases n,
{
    if n == 0 {
        0 as real
    } else {
        scrambles_total(value, rows, points, j, (n - 1) as nat) + rows_total(
            value,
            rows.points((n - 1) as u32),
            j,
            points as nat,
        )
    }
}

/// What the quantity `j` of all draws of an engine adds up to.
pub open spec fn draws_total<R>(
    value: spec_fn(R) -> real,
    rows: Rows<R>,
    engine: EngineConfig,
    j: int,
) -> real {
    match engine {
        EngineConfig::PseudoMonteCarlo(c) => rows_total(
            value,
            rows.unit,
            j,
            c.independent_sampling_units as nat,
        ),
        EngineConfig::RandomizedQuasiMonteCarlo(c) => scrambles_total(
            value,
            rows,
            c.points_per_scramble,
            j,
            c.scramble_count as nat,
        ),
    }
}

/// The number of draws of an engine.
pub open spec fn draw_count(engine: EngineConfig) -> int {
    match engine {
        EngineConfig::PseudoMonteCarlo(c) => c.independent_sampling_units as int,
        EngineConfig::RandomizedQuasiMonteCarlo(c) => c.scramble_count * c.points_per_scramble,
    }
}

proof fn running_value<R: Scalar>(value: spec_fn(R) -> real, m: Model<R>, s: Seq<R>)
    requires
        exact(value),
    ensures
        value(running_sum(m, s).sum) == sum_of(value, s),
        value(running_sum(m, s).compensation) == 0 as real,
    decreases s.len(),
{
    if s.len() > 0 {
        running_value(value, m, s.drop_last());
        let r = running_sum(m, s.drop_last());
        let t = plus(r.sum, s.last());
        assert(value(plus(minus(r.sum, t), s.last())) == 0 as real);
        assert(value(plus(minus(s.last(), t), r.sum)) == 0 as real);
    }
}

/// A compensated sum is what its terms add up to.
pub proof fn compensated_sums_add_up<R: Scalar>(
    value: spec_fn(R) -> real,
    m: Model<R>,
    s: Seq<R>,
)
    requires
        exact(value),
    ensures
        value(compensated_sum(m, s)) == sum_of(value, s),
{
    running_value(value, m, s);
}

proof fn column_adds_up<R>(
    value: spec_fn(R) -> real,
    f: spec_fn(int) -> Result<Seq<R>, MonteCarloError>,
    j: int,
    n: nat,
)
    ensures
        gather(n, f) matches Ok(t) ==> sum_of(value, column(t, j)) == rows_total(value, f, j, n),
    decreases n,
{
    if n > 0 {
        if let Ok(t) = gather(n, f) {
            column_adds_up(value, f, j, (n - 1) as nat);
            let s = gather((n - 1) as nat, f)->Ok_0;
            gather_values(n, f);
            gather_values((n - 1) as nat, f);
            assert(t == s.push(f(n - 1)->Ok_0));
            assert(column(t, j).drop_last() =~= column(s, j));
        }
    }
}

proof fn product_of_counts(n: nat, p: int)
    ensures
        (n * p) as real == n as real * p as real,
    decreases n,
{
    let k = p as real;
    if n > 0 {
        product_of_counts((n - 1) as nat, p);
        let a = (n - 1) as int;
        assert(n * p == a * p + p) by (nonlinear_arith)
            requires
                a == n - 1,
        ;
        let x = a as real;
        assert((x + 1 as real) * k == x * k + k) by (nonlinear_arith);
    } else {
        assert(n * p == 0) by (nonlinear_arith)
            requires
                n == 0,
        ;
        assert((0 as real) * k == 0 as real) by (nonlinear_arith);
    }
}

proof fn scrambles_add_up<R: Scalar, B: Backend<R>>(
    value: spec_fn(R) -> real,
    m: Model<R>,
    b: B,
    rows: Rows<R>,
    ordered: bool,
    points: u64,
    j: int,
    n: nat,
)
    requires
        counts(m, value),
        adds_up(value, b),
        points > 0,
        0 <= j < rows.width,
    ensures
        gather(n, scramble_row(m, b, rows, ordered, points)) is Ok ==> rows_total(
            value,
            scramble_row(m, b, rows, ordered, points),
            j,
            n,
        ) * points as int as real == scrambles_total(value, rows, points, j, n),
    decreases n,
{
    let f = scramble_row(m, b, rows, ordered, points);
    let k = points as int as real;
    if n > 0 {
        if gather(n, f) is Ok {
            scrambles_add_up(value, m, b, rows, ordered, points, j, (n - 1) as nat);
            let g = rows.points((n - 1) as u32);
            assert(f(n - 1) is Ok);
            let t = gather(points as nat, g)->Ok_0;
            column_adds_up(value, g, j, points as nat);
            compensated_sums_add_up(value, m, column(t, j));
            let mean = column_mean(m, b, ordered, t, j, points);
            assert(f(n - 1)->Ok_0[j] == mean);
            assert(value(m.of(points)) == k);
            assert(value(mean) * k == rows_total(value, g, j, points as nat));
            let (x, y) = (rows_total(value, f, j, (n - 1) as nat), value(mean));
            assert((x + y) * k == x * k + y * k) by (nonlinear_arith);
        }
    } else {
        assert((0 as real) * k == 0 as real) by (nonlinear_arith);
    }
}

/// An estimate is the average over all draws: multiplied by their number it is what they
/// add up to.
pub proof fn estimates_are_averages<R: Scalar, B: Backend<R>>(
    value: spec_fn(R) -> real,
    m: Model<R>,
    b: B,
    rows: Rows<R>,
    engine: EngineConfig,
    ordered: bool,
    width: nat,
    j: int,
)
    requires
        counts(m, value),
        adds_up(value, b),
        draw_count(engine) > 0,
        0 <= j < rows.width,
        j < width,
    ensures
        table_of(m, b, rows, engine, ordered) matches Ok(table) ==> value(
            mean_of(m, statistics_of(b, engine, ordered, table, width)[j], engine.units()),
        ) * draw_count(engine) as real == draws_total(value, rows, engine, j),
{
    if let Ok(table) = table_of(m, b, rows, engine, ordered) {
        let s = statistics_of(b, engine, ordered, table, width)[j];
        let mean = mean_of(m, s, engine.units());
        match engine {
            EngineConfig::PseudoMonteCarlo(c) => {
                column_adds_up(value, rows.unit, j, c.independent_sampling_units as nat);
                assert(value(m.of(engine.units())) == draw_count(engine) as real);
            },
            EngineConfig::RandomizedQuasiMonteCarlo(c) => {
                let (n, p) = (c.scramble_count as int, c.points_per_scramble as int);
                assert(n > 0 && p > 0) by (nonlinear_arith)
                    requires
                        n * p > 0,
                        n >= 0,
                        p >= 0,
                ;
                let f = scramble_row(m, b, rows, ordered, c.points_per_scramble);
                column_adds_up(value, f, j, c.scramble_count as nat);
                scrambles_add_up(
                    value,
                    m,
                    b,
                    rows,
                    ordered,
                    c.points_per_scramble,
                    j,
                    c.scramble_count as nat,
                );
                assert(value(m.of(engine.units())) == n as real);
                let (x, a, k, t) = (value(mean), n as real, p as real, value(s.total));
                assert(x * a == t);
                product_of_counts(n as nat, p);
                assert(x * (a * k) == t * k) by (nonlinear_arith)
                    requires
                        x * a == t,
                ;
            },
        }
    }
}

proof fn alike_rows_add_up<R>(
    value: spec_fn(R) -> real,
    f: spec_fn(int) -> Result<Seq<R>, MonteCarloError>,
    j: int,
    x: real,
    n: nat,
)
    requires
        forall|i: int|
            0 <= i < n ==> (#[trigger] f(i) matches Ok(row) ==> value(row[j]) == x),
        forall|i: int| 0 <= i < n ==> (#[trigger] f(i)) is Ok,
    ensures
        rows_total(value, f, j, n) == x * n as real,
    decreases n,
{
    if n > 0 {
        alike_rows_add_up(value, f, j, x, (n - 1) as nat);
        assert(f(n - 1) is Ok);
        let k = (n - 1) as real;
        assert(x * k + x == x * (k + 1 as real)) by (nonlinear_arith);
    } else {
        assert(x * (0 as real) == 0 as real) by (nonlinear_arith);
    }
}

proof fn alike_scrambles_add_up<R>(
    value: spec_fn(R) -> real,
    rows: Rows<R>,
    points: u64,
    j: int,
    x: real,
    n: nat,
)
    requires
        n <= u32::MAX,
        forall|s: u32, p: int|
            s < n && 0 <= p < points ==> (#[trigger] (rows.point)(s, p) matches Ok(row)
                && value(row[j]) == x),
    ensures
        scrambles_total(value, rows, points, j, n) == x * (n * points) as real,
    decreases n,
{
    let k = points as int as real;
    if n > 0 {
        alike_scrambles_add_up(value, rows, points, j, x, (n - 1) as nat);
        let s = (n - 1) as u32;
        let f = rows.points(s);
        assert forall|i: int| 0 <= i < points implies (#[trigger] f(i) matches Ok(row) && value(
            row[j],
        ) == x) by {
            assert((rows.point)(s, i) is Ok);
        }
        alike_rows_add_up(value, f, j, x, points as nat);
        let a = (n - 1) as int;
        assert(n * points == a * points + points) by (nonlinear_arith)
            requires
                a == n - 1,
        ;
        let (u, v) = ((a * points) as real, k);
        assert((n * points) as real == u + v);
        assert(x * u + x * v == x * (u + v)) by (nonlinear_arith);
    } else {
        assert(n * points == 0) by (nonlinear_arith)
            requires
                n == 0,
        ;
        assert(x * (0 as real) == 0 as real) by (nonlinear_arith);
    }
}

/// Every draw of an engine gives the quantity `j` the same number.
pub open spec fn draws_alike<R>(
    value: spec_fn(R) -> real,
    rows: Rows<R>,
    engine: EngineConfig,
    j: int,
    x: real,
) -> bool {
    match engine {
        EngineConfig::PseudoMonteCarlo(c) => forall|i: int|
            0 <= i < c.independent_sampling_units ==> (#[trigger] (rows.unit)(i) matches Ok(row)
                ==> value(row[j]) == x),
        EngineConfig::RandomizedQuasiMonteCarlo(c) => forall|s: u32, p: int|
            s < c.scramble_count && 0 <= p < c.points_per_scramble ==> (#[trigger] (rows.point)(
                s,
                p,
            ) matches Ok(row) ==> value(row[j]) == x),
    }
}

pub(crate) proof fn equal_products(a: real, b: real, k: real)
    requires
        k > 0 as real,
        a * k == b * k,
    ensures
        a == b,
{
    assert(a == b) by (nonlinear_arith)
        requires
            k > 0 as real,
            a * k == b * k,
    ;
}

/// A quantity that is the same number in every draw is its own estimate.
pub proof fn what_no_draw_moves_is_its_estimate<R: Scalar, B: Backend<R>>(
    value: spec_fn(R) -> real,
    m: Model<R>,
    b: B,
    rows: Rows<R>,
    engine: EngineConfig,
    ordered: bool,
    width: nat,
    j: int,
    x: real,
)
    requires
        counts(m, value),
        adds_up(value, b),
        draw_count(engine) > 0,
        0 <= j < rows.width,
        j < width,
        draws_alike(value, rows, engine, j, x),
    ensures
        table_of(m, b, rows, engine, ordered) matches Ok(table) ==> value(
            mean_of(m, statistics_of(b, engine, ordered, table, width)[j], engine.units()),
        ) == x,
{
    if let Ok(table) = table_of(m, b, rows, engine, ordered) {
        let mean = mean_of(m, statistics_of(b, engine, ordered, table, width)[j], engine.units());
        estimates_are_averages(value, m, b, rows, engine, ordered, width, j);
        match engine {
            EngineConfig::PseudoMonteCarlo(c) => {
                let n = c.independent_sampling_units as nat;
                gather_values(n, rows.unit);
                assert forall|i: int| 0 <= i < n implies (#[trigger] (rows.unit)(i)) is Ok by {
                    assert((rows.unit)(i) == Ok::<Seq<R>, MonteCarloError>(table[i]));
                }
                alike_rows_add_up(value, rows.unit, j, x, n);
            },
            EngineConfig::RandomizedQuasiMonteCarlo(c) => {
                let n = c.scramble_count as nat;
                let f = scramble_row(m, b, rows, ordered, c.points_per_scramble);
                gather_values(n, f);
                assert forall|s: u32, p: int|
                    s < n && 0 <= p < c.points_per_scramble implies (#[trigger] (rows.point)(s, p)
                    matches Ok(row) && value(row[j]) == x) by {
                    let scramble = s as int;
                    assert(f(scramble) == Ok::<Seq<R>, MonteCarloError>(table[scramble]));
                    let g = rows.points(s);
                    gather_values(c.points_per_scramble as nat, g);
                    let t = gather(c.points_per_scramble as nat, g)->Ok_0;
                    assert(g(p) == Ok::<Seq<R>, MonteCarloError>(t[p]));
                }
                alike_scrambles_add_up(value, rows, c.points_per_scramble, j, x, n);
            },
        }
        equal_products(value(mean), x, draw_count(engine) as real);
    }
}

/// A draw with the sign one is itself, and with the sign minus one its mirror image.
pub proof fn signs_reflect<R: Scalar>(value: spec_fn(R) -> real, z: Seq<R>, i: int)
    requires
        exact(value),
        0 <= i < z.len(),
    ensures
        signed(z, literal(1)).len() == z.len(),
        signed(z, negated(literal(1))).len() == z.len(),
        value(signed(z, literal(1))[i]) == value(z[i]),
        value(signed(z, negated(literal(1)))[i]) == -value(z[i]),
        reflected(z).len() == z.len(),
        value(reflected(z)[i]) == -value(z[i]),
{
    let x = value(z[i]);
    assert((1 as real) * x == x && (-(1 as real)) * x == -x) by (nonlinear_arith);
    assert(value(negated(literal::<R>(1))) == -(1 as real));
}

proof fn value_of_half<R: Scalar>(m: Model<R>, value: spec_fn(R) -> real)
    requires
        counts(m, value),
    ensures
        value(half()) * 2 as real == 1 as real,
{
    let (a, b) = (literal::<R>(1), literal::<R>(2));
    assert(value(b) == 2 as real);
    assert(value(over(a, b)) * value(b) == value(a));
}

proof fn halves(a: real, h: real)
    requires
        h * 2 as real == 1 as real,
    ensures
        2 as real * (a * h) == a,
        2 as real * (h * a) == a,
{
    assert(2 as real * (a * h) == a) by (nonlinear_arith)
        requires
            h * 2 as real == 1 as real,
    ;
    assert(2 as real * (h * a) == a) by (nonlinear_arith)
        requires
            h * 2 as real == 1 as real,
    ;
}

/// The price of a draw is the value of its path, or with its mirror image the mean of the
/// two values: twice the price is what they add up to.
pub proof fn draws_are_averaged<R: Scalar>(
    value: spec_fn(R) -> real,
    m: Model<R>,
    f: spec_fn(Seq<R>) -> Result<R, MonteCarloError>,
    z: Seq<R>,
)
    requires
        counts(m, value),
    ensures
        draw_price(f, false, z) matches Ok(x) ==> (f(signed(z, literal(1))) matches Ok(v)
            && value(x) == value(v)),
        draw_price(f, true, z) matches Ok(x) ==> (f(signed(z, literal(1))) matches Ok(v)
            && f(signed(z, negated(literal(1)))) matches Ok(w) && 2 as real * value(x) == value(v)
            + value(w)),
{
    if let Ok(x) = draw_price(f, false, z) {
        let v = f(signed(z, literal(1)))->Ok_0;
        let s = plus(literal(0), v);
        assert(value(literal::<R>(1)) == 1 as real);
        assert(value(s) == value(v));
        let y = value(x);
        assert(y * (1 as real) == y) by (nonlinear_arith);
    }
    if let Ok(x) = draw_price(f, true, z) {
        let v = f(signed(z, literal(1)))->Ok_0;
        let w = f(signed(z, negated(literal(1))))->Ok_0;
        let s = plus(plus(literal(0), v), w);
        assert(value(literal::<R>(2)) == 2 as real);
        assert(value(s) == value(v) + value(w));
        let y = value(x);
        assert(y * (2 as real) == 2 as real * y) by (nonlinear_arith);
    }
}

/// The contributions of a draw are those of its path, or with its mirror image the mean of
/// both, entry by entry.
pub proof fn contributions_are_averaged<R: Scalar>(
    value: spec_fn(R) -> real,
    m: Model<R>,
    f: spec_fn(Seq<R>) -> Result<Seq<R>, MonteCarloError>,
    z: Seq<R>,
    i: int,
)
    requires
        counts(m, value),
        0 <= i,
    ensures
        averaged(f, false, z) matches Ok(x) ==> (f(signed(z, literal(1))) matches Ok(v) && x.len()
            == v.len() && (i < v.len() ==> value(x[i]) == value(v[i]))),
        averaged(f, true, z) matches Ok(x) ==> (f(signed(z, literal(1))) matches Ok(v) && f(
            signed(z, negated(literal(1))),
        ) matches Ok(w) && x.len() == v.len() && (i < v.len() ==> 2 as real * value(x[i])
            == value(v[i]) + value(w[i]))),
{
    value_of_half(m, value);
    if let Ok(x) = averaged(f, true, z) {
        let v = f(signed(z, literal(1)))->Ok_0;
        let w = f(signed(z, negated(literal(1))))->Ok_0;
        if i < v.len() {
            let s = plus(plus(literal(0), v[i]), w[i]);
            assert(x[i] == times(s, half()));
            assert(value(plus(literal(0), v[i])) == value(v[i]));
            assert(value(s) == value(v[i]) + value(w[i]));
            halves(value(s), value(half::<R>()));
        }
    }
    if let Ok(x) = averaged(f, false, z) {
        let v = f(signed(z, literal(1)))->Ok_0;
        if i < v.len() {
            assert(x[i] == plus(literal(0), v[i]));
        }
    }
}

/// A row is that of its path, or with a mate the mean of both, entry by entry.
pub proof fn pairs_are_averaged<R: Scalar>(
    value: spec_fn(R) -> real,
    m: Model<R>,
    primary: Result<Seq<R>, MonteCarloError>,
    mate: Result<Seq<R>, MonteCarloError>,
    i: int,
)
    requires
        counts(m, value),
        0 <= i,
    ensures
        paired_row(false, primary, mate) == primary,
        paired_row(true, primary, mate) matches Ok(x) ==> (primary matches Ok(v) && mate matches Ok(
            w,
        ) && x.len() == v.len() && (i < v.len() ==> 2 as real * value(x[i]) == value(v[i])
            + value(w[i]))),
{
    value_of_half(m, value);
    if let Ok(x) = paired_row(true, primary, mate) {
        let (v, w) = (primary->Ok_0, mate->Ok_0);
        if i < v.len() {
            let s = plus(v[i], w[i]);
            assert(x[i] == times(s, half()));
            assert(value(s) == value(v[i]) + value(w[i]));
            halves(value(s), value(half::<R>()));
        }
    }
}

/// The standard error of a mean, squared and multiplied by the number of units, is the
/// sample variance, whichever way the error is taken.
pub proof fn standard_errors_shrink_with_the_units<R: Scalar>(
    value: spec_fn(R) -> real,
    m: Model<R>,
    s: Statistics<R>,
    units: u64,
    field: &'static str,
    failure: MonteCarloError,
    others: Seq<Statistics<R>>,
    j: int,
)
    requires
        counts(m, value),
        roots(m, value),
        units > 0,
        s.sample_variance matches Some(v) ==> value(v) >= 0 as real,
        others[j] == s,
    ensures
        error_of(m, s, units, field) matches Ok(e) ==> (s.sample_variance matches Some(v)
            && value(e) >= 0 as real && value(e) * value(e) * units as int as real == value(v)),
        error_or(m, s, units, failure) matches Ok(e) ==> (s.sample_variance matches Some(v)
            && value(e) >= 0 as real && value(e) * value(e) * units as int as real == value(v)),
        raw_errors(m, others, units)(j) matches Ok(e) ==> (s.sample_variance matches Some(v)
            && value(e) >= 0 as real && value(e) * value(e) * units as int as real == value(v)),
        price_estimate(m, s, units, field) matches Ok((x, e)) ==> (s.sample_variance matches Some(v)
            && value(e) >= 0 as real && value(e) * value(e) * units as int as real == value(v)
            && value(x) * units as int as real == value(s.total)),
{
    if let Some(v) = s.sample_variance {
        let n = m.of(units);
        let k = units as int as real;
        assert(value(n) == k);
        let q = over(v, n);
        assert(value(q) * k == value(v));
        let (a, b) = (value(q), value(v));
        assert(a >= 0 as real) by (nonlinear_arith)
            requires
                a * k == b,
                b >= 0 as real,
                k > 0 as real,
        ;
        let e = m.sqrt(q);
        assert(value(e) * value(e) == value(q));
        assert(value(over(s.total, n)) * value(n) == value(s.total));
    }
}

proof fn priced_rows_are_alike<R: Scalar, B: Backend<R>>(
    value: spec_fn(R) -> real,
    m: Model<R>,
    b: B,
    f: spec_fn(Seq<R>) -> Result<R, MonteCarloError>,
    job: Job,
    x: real,
    normals: Result<Seq<R>, MonteCarloError>,
)
    requires
        counts(m, value),
        forall|z: Seq<R>| #[trigger] f(z) matches Ok(v) ==> value(v) == x,
    ensures
        price_row(b, f, job, normals) matches Ok(row) ==> row.len() == 1 && value(row[0]) == x,
{
    if let Ok(z) = normals {
        draws_are_averaged(value, m, f, z);
        if let Ok(y) = bridged(b, z, job.factors as int) {
            draws_are_averaged(value, m, f, y);
        }
    }
}

/// A payoff that is the same number under all shocks is its own price, with and without
/// mirror images, for either engine.
pub proof fn a_fixed_payoff_is_its_price<R: Scalar, B: Backend<R>>(
    value: spec_fn(R) -> real,
    m: Model<R>,
    b: B,
    f: spec_fn(Seq<R>) -> Result<R, MonteCarloError>,
    job: Job,
    x: real,
)
    requires
        counts(m, value),
        adds_up(value, b),
        draw_count(job.engine) > 0,
        forall|z: Seq<R>| #[trigger] f(z) matches Ok(v) ==> value(v) == x,
    ensures
        priced_job(m, b, f, job) matches Ok((price, error)) ==> value(price) == x,
{
    let rows = price_rows(b, f, job);
    assert forall|p: int| #[trigger] (rows.unit)(p) matches Ok(row) ==> value(row[0]) == x by {
        let z = Ok(path_normals(b, p as u64, job.dimension));
        priced_rows_are_alike(value, m, b, f, job, x, z);
    }
    assert forall|s: u32, p: int| #[trigger] (rows.point)(s, p) matches Ok(row) ==> value(row[0])
        == x by {
        let z = quasi_normals(b, s, p as u64, job.dimension);
        priced_rows_are_alike(value, m, b, f, job, x, z);
    }
    what_no_draw_moves_is_its_estimate(value, m, b, rows, job.engine, false, 1, 0, x);
}

proof fn tables_are_alike<R: Scalar, B: Backend<R>>(
    value: spec_fn(R) -> real,
    m: Model<R>,
    b: B,
    rows: Rows<R>,
    engine: EngineConfig,
    ordered: bool,
    j: int,
    x: real,
)
    requires
        counts(m, value),
        adds_up(value, b),
        draw_count(engine) > 0,
        0 <= j < rows.width,
        draws_alike(value, rows, engine, j, x),
    ensures
        table_of(m, b, rows, engine, ordered) matches Ok(table) ==> forall|i: int|
            0 <= i < column(table, j).len() ==> value(#[trigger] column(table, j)[i]) == x,
{
    if let Ok(table) = table_of(m, b, rows, engine, ordered) {
        match engine {
            EngineConfig::PseudoMonteCarlo(c) => {
                let n = c.independent_sampling_units as nat;
                gather_values(n, rows.unit);
                assert forall|i: int| 0 <= i < column(table, j).len() implies value(
                    #[trigger] column(table, j)[i],
                ) == x by {
                    assert((rows.unit)(i) == Ok::<Seq<R>, MonteCarloError>(table[i]));
                }
            },
            EngineConfig::RandomizedQuasiMonteCarlo(c) => {
                let (n, p) = (c.scramble_count as int, c.points_per_scramble as int);
                assert(p > 0) by (nonlinear_arith)
                    requires
                        n * p > 0,
                        n >= 0,
                        p >= 0,
                ;
                let f = scramble_row(m, b, rows, ordered, c.points_per_scramble);
                gather_values(c.scramble_count as nat, f);
                assert forall|i: int| 0 <= i < column(table, j).len() implies value(
                    #[trigger] column(table, j)[i],
                ) == x by {
                    assert(f(i) == Ok::<Seq<R>, MonteCarloError>(table[i]));
                    let scramble = i as u32;
                    let g = rows.points(scramble);
                    gather_values(p as nat, g);
                    let t = gather(p as nat, g)->Ok_0;
                    assert forall|q: int| 0 <= q < p implies (#[trigger] g(q) matches Ok(row)
                        && value(row[j]) == x) by {
                        assert(g(q) == Ok::<Seq<R>, MonteCarloError>(t[q]));
                        assert((rows.point)(scramble, q) is Ok);
                    }
                    alike_rows_add_up(value, g, j, x, p as nat);
                    column_adds_up(value, g, j, p as nat);
                    compensated_sums_add_up(value, m, column(t, j));
                    let mean = column_mean(m, b, ordered, t, j, c.points_per_scramble);
                    assert(table[i][j] == mean);
                    assert(value(m.of(c.points_per_scramble)) == p as real);
                    equal_products(value(mean), x, p as real);
                }
            },
        }
    }
}

/// A payoff that is the same number under all shocks has no standard error, where the
/// backend sees no variance in values that are all alike.
pub proof fn a_fixed_payoff_has_no_error<R: Scalar, B: Backend<R>>(
    value: spec_fn(R) -> real,
    m: Model<R>,
    b: B,
    f: spec_fn(Seq<R>) -> Result<R, MonteCarloError>,
    job: Job,
    x: real,
)
    requires
        counts(m, value),
        roots(m, value),
        adds_up(value, b),
        sees_no_variance(value, b),
        draw_count(job.engine) > 0,
        job.engine.units() > 0,
        forall|z: Seq<R>| #[trigger] f(z) matches Ok(v) ==> value(v) == x,
    ensures
        priced_job(m, b, f, job) matches Ok((price, error)) ==> value(error) == 0 as real,
{
    let rows = price_rows(b, f, job);
    assert forall|p: int| #[trigger] (rows.unit)(p) matches Ok(row) ==> value(row[0]) == x by {
        let z = Ok(path_normals(b, p as u64, job.dimension));
        priced_rows_are_alike(value, m, b, f, job, x, z);
    }
    assert forall|s: u32, p: int| #[trigger] (rows.point)(s, p) matches Ok(row) ==> value(row[0])
        == x by {
        let z = quasi_normals(b, s, p as u64, job.dimension);
        priced_rows_are_alike(value, m, b, f, job, x, z);
    }
    tables_are_alike(value, m, b, rows, job.engine, false, 0, x);
    if let Ok((price, error)) = priced_job(m, b, f, job) {
        let table = table_of(m, b, rows, job.engine, false)->Ok_0;
        let s = statistics_of(b, job.engine, false, table, 1)[0];
        assert(alike(x));
        let c = column(table, 0);
        assert(b.reduction_of(c).sample_variance matches Some(v) ==> value(v) == 0 as real);
        let (units, field) = (job.engine.units(), "price_estimator");
        let failure = MonteCarloError::InsufficientSamplingUnits { count: units };
        standard_errors_shrink_with_the_units(value, m, s, units, field, failure, seq![s], 0);
        let (e, k) = (value(error), units as int as real);
        assert(e == 0 as real) by (nonlinear_arith)
            requires
                e * e * k == 0 as real,
                k > 0 as real,
        ;
    }
}

/// A bridge that moves no draw leaves all of them as they are, each in its place, however
/// many factors they are of.
pub proof fn a_bridge_that_moves_nothing<R: Scalar, B: Backend<R>>(
    b: B,
    z: Seq<R>,
    count: int,
    steps: int,
    blocks: nat,
)
    requires
        forall|draws: Seq<R>| #[trigger] b.bridge_of(draws) == Ok::<Seq<R>, MonteCarloError>(draws),
        0 < count,
        0 < steps,
        steps * blocks <= z.len(),
    ensures
        bridged(b, z, count) == Ok::<Seq<R>, MonteCarloError>(z),
        blocks_bridged(b, z, steps, blocks) == Ok::<Seq<R>, MonteCarloError>(
            z.take(steps * blocks as int),
        ),
    decreases blocks,
{
    let f = factor_bridge(b, z, count);
    gather_failure(count as nat, f);
    gather_values(count as nat, f);
    let outputs = gather(count as nat, f)->Ok_0;
    let y = bridged(b, z, count)->Ok_0;
    assert forall|i: int| 0 <= i < z.len() implies y[i] == z[i] by {
        let (k, q) = (i % count, i / count);
        assert(0 <= k < count && count * q + k == i && 0 <= q) by (nonlinear_arith)
            requires
                0 < count,
                0 <= i,
                k == i % count,
                q == i / count,
        ;
        assert(f(k) == Ok::<Seq<R>, MonteCarloError>(outputs[k]));
        let n = (z.len() - k + count - 1) / count;
        assert(q < n) by (nonlinear_arith)
            requires
                0 < count,
                count * q + k == i,
                i < z.len(),
                n == (z.len() - k + count - 1) / count,
        ;
    }
    assert(y =~= z);
    if blocks == 0 {
        assert(steps * blocks as int == 0) by (nonlinear_arith)
            requires
                blocks == 0,
        ;
        assert(z.take(0) =~= Seq::empty());
    } else {
        let a = (blocks - 1) as int;
        assert(steps * blocks == steps * a + steps && 0 <= steps * a) by (nonlinear_arith)
            requires
                a == blocks - 1,
                a >= 0,
                steps > 0,
        ;
        a_bridge_that_moves_nothing(b, z, count, steps, (blocks - 1) as nat);
        assert(z.take(steps * a) + chunk(z, steps, a) =~= z.take(steps * blocks as int));
    }
}

proof fn sampled_alike<R: Scalar, B: Backend<R>>(
    value: spec_fn(R) -> real,
    m: Model<R>,
    b: B,
    q: Quantities<R>,
    job: Job,
    z: Seq<R>,
    j: int,
    x: real,
)
    requires
        counts(m, value),
        q.finish == as_they_are::<R>(),
        0 <= j < q.width,
        forall|z: Seq<R>| #[trigger]
            (q.terms)(z) matches Ok(row) ==> row.len() == q.width && value(row[j]) == x,
    ensures
        sampled(b, q, job.engine.reduction(), job.factors as int, z) matches Ok(row) ==> value(
            row[j],
        ) == x,
{
    contributions_are_averaged(value, m, q.terms, z, j);
    if let Ok(y) = bridged(b, z, job.factors as int) {
        contributions_are_averaged(value, m, q.terms, y, j);
    }
}

/// A quantity that is the same number under all shocks is its own estimate, with and
/// without mirror images, for either engine.
pub proof fn a_fixed_quantity_is_its_estimate<R: Scalar, B: Backend<R>>(
    value: spec_fn(R) -> real,
    m: Model<R>,
    b: B,
    q: Quantities<R>,
    job: Job,
    j: int,
    x: real,
)
    requires
        counts(m, value),
        adds_up(value, b),
        draw_count(job.engine) > 0,
        q.finish == as_they_are::<R>(),
        0 <= j < q.width,
        forall|z: Seq<R>| #[trigger]
            (q.terms)(z) matches Ok(row) ==> row.len() == q.width && value(row[j]) == x,
    ensures
        simulated(m, b, q, job) matches Ok(s) ==> s.len() == q.width && value(
            mean_of(m, s[j], job.engine.units()),
        ) == x,
{
    let rows = job_rows(b, q, job);
    assert forall|p: int| #[trigger] (rows.unit)(p) matches Ok(row) ==> value(row[j]) == x by {
        sampled_alike(value, m, b, q, job, path_normals(b, p as u64, job.dimension), j, x);
    }
    assert forall|s: u32, p: int| #[trigger] (rows.point)(s, p) matches Ok(row) ==> value(row[j])
        == x by {
        if let Ok(z) = quasi_normals(b, s, p as u64, job.dimension) {
            sampled_alike(value, m, b, q, job, z, j, x);
        }
    }
    what_no_draw_moves_is_its_estimate(value, m, b, rows, job.engine, false, q.width, j, x);
}

/// Each estimate is the average over the draws of its own quantity.
pub proof fn quantities_are_averages<R: Scalar, B: Backend<R>>(
    value: spec_fn(R) -> real,
    m: Model<R>,
    b: B,
    q: Quantities<R>,
    job: Job,
    j: int,
    error_field: &'static str,
    field: &'static str,
)
    requires
        counts(m, value),
        adds_up(value, b),
        draw_count(job.engine) > 0,
        0 <= j < q.width,
    ensures
        simulated(m, b, q, job) matches Ok(s) ==> {
            let total = draws_total(value, job_rows(b, q, job), job.engine, j);
            let count = draw_count(job.engine) as real;
            &&& estimated(m, s, job.engine.units(), error_field, field) matches Ok((values, _))
                ==> value(values[j]) * count == total
            &&& estimated_together(m, s, job.engine.units(), field) matches Ok((values, _))
                ==> value(values[j]) * count == total
        },
{
    estimates_are_averages(value, m, b, job_rows(b, q, job), job.engine, false, q.width, j);
}

/// A price is the average over its draws: multiplied by their number it is what the prices
/// of the draws add up to, each draw with normals of its own.
pub proof fn prices_are_averages<R: Scalar, B: Backend<R>>(
    value: spec_fn(R) -> real,
    m: Model<R>,
    b: B,
    f: spec_fn(Seq<R>) -> Result<R, MonteCarloError>,
    job: Job,
)
    requires
        counts(m, value),
        adds_up(value, b),
        draw_count(job.engine) > 0,
    ensures
        priced_job(m, b, f, job) matches Ok((price, error)) ==> value(price) * draw_count(
            job.engine,
        ) as real == draws_total(value, price_rows(b, f, job), job.engine, 0),
{
    estimates_are_averages(value, m, b, price_rows(b, f, job), job.engine, false, 1, 0);
}

/// The normals of a draw are its own: two backends that agree on those of a draw give it
/// the same price, whatever they draw elsewhere.
pub proof fn draws_have_normals_of_their_own<R: Scalar, B: Backend<R>, C: Backend<R>>(
    b: B,
    c: C,
    f: spec_fn(Seq<R>) -> Result<R, MonteCarloError>,
    q: Quantities<R>,
    job: Job,
    p: u64,
    s: u32,
)
    requires
        forall|z: Seq<R>| #[trigger] b.bridge_of(z) == c.bridge_of(z),
        forall|u: R| #[trigger] b.inverse_at(u) == c.inverse_at(u),
    ensures
        (forall|d: u32| d < job.dimension ==> #[trigger] b.normal_at(p, d) == c.normal_at(p, d))
            ==> (price_rows(b, f, job).unit)(p as int) == (price_rows(c, f, job).unit)(p as int)
            && pseudo_row(b, q, job)(p as int) == pseudo_row(c, q, job)(p as int),
        (forall|d: u32|
            d < job.dimension ==> #[trigger] b.uniform_at(s, p, d) == c.uniform_at(s, p, d)) ==> (
        price_rows(b, f, job).point)(s, p as int) == (price_rows(c, f, job).point)(s, p as int)
            && quasi_row(b, q, job, s)(p as int) == quasi_row(c, q, job, s)(p as int),
{
    assert forall|z: Seq<R>| #[trigger] bridged(b, z, job.factors as int) == bridged(
        c,
        z,
        job.factors as int,
    ) by {
        assert(factor_bridge(b, z, job.factors as int)
            =~= factor_bridge(c, z, job.factors as int));
    }
    if forall|d: u32| d < job.dimension ==> #[trigger] b.normal_at(p, d) == c.normal_at(p, d) {
        assert(path_normals(b, p, job.dimension) =~= path_normals(c, p, job.dimension));
    }
    if forall|d: u32|
        d < job.dimension ==> #[trigger] b.uniform_at(s, p, d) == c.uniform_at(s, p, d) {
        same_quasi_normals(b, c, s, p, job.dimension, job.dimension as nat);
    }
}

pub(crate) proof fn same_quasi_normals<R: Scalar, B: Backend<R>, C: Backend<R>>(
    b: B,
    c: C,
    s: u32,
    p: u64,
    dimension: u32,
    n: nat,
)
    requires
        n <= dimension,
        forall|u: R| #[trigger] b.inverse_at(u) == c.inverse_at(u),
        forall|d: u32|
            d < dimension ==> #[trigger] b.uniform_at(s, p, d) == c.uniform_at(s, p, d),
    ensures
        gather(n, quasi_normal(b, s, p)) == gather(
            n,
            quasi_normal(c, s, p),
        ),
    decreases n,
{
    if n > 0 {
        same_quasi_normals(b, c, s, p, dimension, (n - 1) as nat);
        assert(b.uniform_at(s, p, (n - 1) as u32) == c.uniform_at(s, p, (n - 1) as u32));
    }
}

} // verus!
