//! Estimating more quantities beside others moves none of their estimates.

use crate::engine::EngineConfig;
use crate::errors::MonteCarloError;
use crate::estimation::{
    error_of, errors_of, estimated, estimated_together, job_rows, mean_of, raw_errors, simulated,
    Job,
};
use crate::results::{gather, gather_values};
use crate::sampling::{
    added, as_they_are, bridged, finished, halved, path_normals, quasi_normals, signed, zeros,
    Backend, Quantities, Statistics,
};
use crate::scalar::{literal, negated, Model, Scalar};
use crate::units::{column, column_mean, scramble_row, statistics_of, table_of, Rows};
use vstd::prelude::*;

verus! {

/// A row is there wherever a wider one is, and is its beginning.
pub open spec fn begins<R>(
    narrow: Result<Seq<R>, MonteCarloError>,
    wide: Result<Seq<R>, MonteCarloError>,
    short: nat,
    long: nat,
) -> bool {
    wide matches Ok(row) ==> row.len() == long && narrow == Ok::<Seq<R>, MonteCarloError>(
        row.take(short as int),
    )
}

/// The terms of some quantities are the beginning of those of others.
pub open spec fn quantities_extend<R>(narrow: Quantities<R>, wide: Quantities<R>) -> bool {
    &&& narrow.width <= wide.width
    &&& narrow.finish == as_they_are::<R>()
    &&& wide.finish == as_they_are::<R>()
    &&& forall|z: Seq<R>|
        begins((narrow.terms)(z), #[trigger] (wide.terms)(z), narrow.width, wide.width)
}

/// The rows of a simulation are the beginning of those of another.
pub open spec fn rows_extend<R>(narrow: Rows<R>, wide: Rows<R>) -> bool {
    &&& narrow.width <= wide.width
    &&& forall|p: int|
        begins((narrow.unit)(p), #[trigger] (wide.unit)(p), narrow.width, wide.width)
    &&& forall|scramble: u32, p: int|
        begins(
            (narrow.point)(scramble, p),
            #[trigger] (wide.point)(scramble, p),
            narrow.width,
            wide.width,
        )
}

/// The terms of some quantities are the beginning of those of others, which have
/// `inner` terms and keep them at the front.
pub open spec fn quantities_start<R>(
    narrow: Quantities<R>,
    wide: Quantities<R>,
    inner: nat,
) -> bool {
    &&& narrow.width <= inner
    &&& narrow.width <= wide.width
    &&& narrow.finish == as_they_are::<R>()
    &&& forall|z: Seq<R>|
        begins((narrow.terms)(z), #[trigger] (wide.terms)(z), narrow.width, inner)
    &&& forall|row: Seq<R>|
        row.len() == inner ==> (#[trigger] (wide.finish)(row) matches Ok(t) ==> t.len()
            == wide.width && t.take(narrow.width as int) == row.take(narrow.width as int))
}

proof fn finished_starts<R: Scalar>(
    narrow: Quantities<R>,
    wide: Quantities<R>,
    inner: nat,
    antithetic: bool,
    z: Seq<R>,
)
    requires
        quantities_start(narrow, wide, inner),
    ensures
        begins(
            finished(narrow, antithetic, z),
            finished(wide, antithetic, z),
            narrow.width,
            wide.width,
        ),
{
    let up = signed(z, literal(1));
    let down = signed(z, negated(literal(1)));
    let w = narrow.width as int;
    assert(begins((narrow.terms)(up), (wide.terms)(up), narrow.width, inner));
    assert(begins((narrow.terms)(down), (wide.terms)(down), narrow.width, inner));
    if let Ok(first) = (wide.terms)(up) {
        let total = added(zeros(first.len()), first);
        let part = added(zeros(first.take(w).len()), first.take(w));
        assert(part =~= total.take(w));
        if antithetic {
            if let Ok(second) = (wide.terms)(down) {
                assert(halved(added(part, second.take(w))) =~= halved(added(total, second)).take(
                    w,
                ));
            }
        }
    }
}

/// The rows of a simulation are the beginning of those of one that keeps them at the
/// front.
pub proof fn job_rows_start<R: Scalar, B: Backend<R>>(
    b: B,
    narrow: Quantities<R>,
    wide: Quantities<R>,
    inner: nat,
    job: Job,
)
    requires
        quantities_start(narrow, wide, inner),
    ensures
        rows_extend(job_rows(b, narrow, job), job_rows(b, wide, job)),
{
    let (n, w) = (job_rows(b, narrow, job), job_rows(b, wide, job));
    let antithetic = job.engine.reduction().antithetic;
    assert forall|p: int| begins((n.unit)(p), #[trigger] (w.unit)(p), n.width, w.width) by {
        let z = path_normals(b, p as u64, job.dimension);
        finished_starts(narrow, wide, inner, antithetic, z);
        if let Ok(y) = bridged(b, z, job.factors as int) {
            finished_starts(narrow, wide, inner, antithetic, y);
        }
    }
    assert forall|scramble: u32, p: int|
        begins((n.point)(scramble, p), #[trigger] (w.point)(scramble, p), n.width, w.width) by {
        if let Ok(z) = quasi_normals(b, scramble, p as u64, job.dimension) {
            finished_starts(narrow, wide, inner, antithetic, z);
            if let Ok(y) = bridged(b, z, job.factors as int) {
                finished_starts(narrow, wide, inner, antithetic, y);
            }
        }
    }
}

/// The rows of a simulation are the beginning of those of one that estimates more.
pub proof fn job_rows_extend<R: Scalar, B: Backend<R>>(
    b: B,
    narrow: Quantities<R>,
    wide: Quantities<R>,
    job: Job,
)
    requires
        quantities_extend(narrow, wide),
    ensures
        rows_extend(job_rows(b, narrow, job), job_rows(b, wide, job)),
{
    job_rows_start(b, narrow, wide, wide.width, job);
}

/// Rows one by one begin wherever wider ones are there one by one.
proof fn gathered_extends<R>(
    n: nat,
    f: spec_fn(int) -> Result<Seq<R>, MonteCarloError>,
    g: spec_fn(int) -> Result<Seq<R>, MonteCarloError>,
    short: nat,
    long: nat,
)
    requires
        forall|i: int| begins(f(i), #[trigger] g(i), short, long),
    ensures
        gather(n, g) matches Ok(t) ==> {
            &&& gather(n, f) is Ok
            &&& t.len() == n
            &&& gather(n, f)->Ok_0.len() == n
            &&& forall|i: int| 0 <= i < n ==> (#[trigger] t[i]).len() == long
            &&& forall|i: int|
                0 <= i < n ==> #[trigger] gather(n, f)->Ok_0[i] == t[i].take(short as int)
        },
    decreases n,
{
    if n > 0 {
        gathered_extends((n - 1) as nat, f, g, short, long);
        assert(begins(f(n - 1), g(n - 1), short, long));
    }
}

/// Two tables of equally many rows, of which one holds the beginnings of the other's.
pub open spec fn table_extends<R>(narrow: Seq<Seq<R>>, wide: Seq<Seq<R>>, short: nat) -> bool {
    &&& narrow.len() == wide.len()
    &&& forall|i: int| 0 <= i < wide.len() ==> short <= (#[trigger] wide[i]).len()
    &&& forall|i: int| 0 <= i < wide.len() ==> #[trigger] narrow[i] == wide[i].take(short as int)
}

proof fn columns_agree<R>(narrow: Seq<Seq<R>>, wide: Seq<Seq<R>>, short: nat, j: int)
    requires
        table_extends(narrow, wide, short),
        0 <= j < short,
    ensures
        column(narrow, j) == column(wide, j),
{
    assert forall|i: int| 0 <= i < wide.len() implies narrow[i][j] == wide[i][j] by {
        assert(narrow[i] == wide[i].take(short as int));
    }
    assert(column(narrow, j) =~= column(wide, j));
}

proof fn scramble_rows_extend<R: Scalar, B: Backend<R>>(
    m: Model<R>,
    b: B,
    narrow: Rows<R>,
    wide: Rows<R>,
    points: u64,
    scramble: int,
)
    requires
        rows_extend(narrow, wide),
    ensures
        begins(
            scramble_row(m, b, narrow, false, points)(scramble),
            scramble_row(m, b, wide, false, points)(scramble),
            narrow.width,
            wide.width,
        ),
{
    let s = scramble as u32;
    let (f, g) = (narrow.points(s), wide.points(s));
    assert forall|i: int| begins(f(i), #[trigger] g(i), narrow.width, wide.width) by {
        assert(g(i) == (wide.point)(s, i));
    }
    gathered_extends(points as nat, f, g, narrow.width, wide.width);
    if let Ok(t) = gather(points as nat, g) {
        let u = gather(points as nat, f)->Ok_0;
        let long = Seq::new(wide.width, |j: int| column_mean(m, b, false, t, j, points));
        let short = Seq::new(narrow.width, |j: int| column_mean(m, b, false, u, j, points));
        assert(table_extends(u, t, narrow.width));
        assert forall|j: int| 0 <= j < narrow.width implies short[j] == long[j] by {
            columns_agree(u, t, narrow.width, j);
        }
        assert(short =~= long.take(narrow.width as int));
    }
}

/// The table of a simulation holds the beginnings of the rows of one that estimates
/// more.
pub proof fn tables_extend<R: Scalar, B: Backend<R>>(
    m: Model<R>,
    b: B,
    narrow: Rows<R>,
    wide: Rows<R>,
    engine: EngineConfig,
)
    requires
        rows_extend(narrow, wide),
    ensures
        table_of(m, b, wide, engine, false) matches Ok(t) ==> {
            &&& table_of(m, b, narrow, engine, false) is Ok
            &&& table_extends(
                table_of(m, b, narrow, engine, false)->Ok_0,
                t,
                narrow.width,
            )
            &&& forall|i: int| 0 <= i < t.len() ==> (#[trigger] t[i]).len() == wide.width
        },
{
    match engine {
        EngineConfig::PseudoMonteCarlo(c) => {
            gathered_extends(
                c.independent_sampling_units as nat,
                narrow.unit,
                wide.unit,
                narrow.width,
                wide.width,
            );
        },
        EngineConfig::RandomizedQuasiMonteCarlo(c) => {
            let f = scramble_row(m, b, narrow, false, c.points_per_scramble);
            let g = scramble_row(m, b, wide, false, c.points_per_scramble);
            assert forall|i: int| begins(f(i), #[trigger] g(i), narrow.width, wide.width) by {
                scramble_rows_extend(m, b, narrow, wide, c.points_per_scramble, i);
            }
            gathered_extends(c.scramble_count as nat, f, g, narrow.width, wide.width);
        },
    }
}

/// The statistics of a table are the beginning of those of a wider one.
pub proof fn statistics_extend<R: Scalar, B: Backend<R>>(
    b: B,
    engine: EngineConfig,
    narrow: Seq<Seq<R>>,
    wide: Seq<Seq<R>>,
    short: nat,
    long: nat,
)
    requires
        table_extends(narrow, wide, short),
        short <= long,
    ensures
        statistics_of(b, engine, false, narrow, short) == statistics_of(
            b,
            engine,
            false,
            wide,
            long,
        ).take(short as int),
{
    let s = statistics_of(b, engine, false, narrow, short);
    let t = statistics_of(b, engine, false, wide, long);
    assert forall|j: int| 0 <= j < short implies s[j] == t[j] by {
        columns_agree(narrow, wide, short, j);
    }
    assert(s =~= t.take(short as int));
}

/// A simulation that keeps the terms of another at the front gives the same statistics
/// of them.
pub proof fn longer_simulation_keeps_statistics<R: Scalar, B: Backend<R>>(
    m: Model<R>,
    b: B,
    narrow: Quantities<R>,
    wide: Quantities<R>,
    inner: nat,
    job: Job,
)
    requires
        quantities_start(narrow, wide, inner),
    ensures
        simulated(m, b, wide, job) matches Ok(s) ==> s.len() == wide.width && simulated(
            m,
            b,
            narrow,
            job,
        ) == Ok::<Seq<Statistics<R>>, MonteCarloError>(s.take(narrow.width as int)),
{
    job_rows_start(b, narrow, wide, inner, job);
    let (n, w) = (job_rows(b, narrow, job), job_rows(b, wide, job));
    tables_extend(m, b, n, w, job.engine);
    if let Ok(t) = table_of(m, b, w, job.engine, false) {
        let u = table_of(m, b, n, job.engine, false)->Ok_0;
        statistics_extend(b, job.engine, u, t, narrow.width, wide.width);
    }
}

/// A simulation that estimates more gives the same statistics of what both estimate.
pub proof fn wider_simulation_keeps_statistics<R: Scalar, B: Backend<R>>(
    m: Model<R>,
    b: B,
    narrow: Quantities<R>,
    wide: Quantities<R>,
    job: Job,
)
    requires
        quantities_extend(narrow, wide),
    ensures
        simulated(m, b, wide, job) matches Ok(s) ==> s.len() == wide.width && simulated(
            m,
            b,
            narrow,
            job,
        ) == Ok::<Seq<Statistics<R>>, MonteCarloError>(s.take(narrow.width as int)),
{
    longer_simulation_keeps_statistics(m, b, narrow, wide, wide.width, job);
}

/// Each mean and each standard error is that of its own quantity.
pub proof fn estimates_are_their_own<R: Scalar>(
    m: Model<R>,
    s: Seq<Statistics<R>>,
    units: u64,
    error_field: &'static str,
    field: &'static str,
    j: int,
)
    requires
        0 <= j < s.len(),
    ensures
        estimated(m, s, units, error_field, field) matches Ok((values, errors)) ==> {
            &&& values.len() == s.len()
            &&& errors.len() == s.len()
            &&& values[j] == mean_of(m, s[j], units)
            &&& error_of(m, s[j], units, error_field) == Ok::<R, MonteCarloError>(errors[j])
        },
{
    gather_values(s.len(), errors_of(m, s, units, error_field));
}

/// The estimates of the first quantities are the beginning of those of all.
pub proof fn fewer_estimates_are_a_beginning<R: Scalar>(
    m: Model<R>,
    s: Seq<Statistics<R>>,
    units: u64,
    field: &'static str,
    n: nat,
)
    requires
        n <= s.len(),
    ensures
        estimated_together(m, s, units, field) matches Ok((values, errors)) ==> {
            &&& values.len() == s.len()
            &&& errors.len() == s.len()
            &&& estimated_together(m, s.take(n as int), units, field) == Ok::<
                (Seq<R>, Seq<R>),
                MonteCarloError,
            >((values.take(n as int), errors.take(n as int)))
        },
{
    if let Ok((values, errors)) = estimated_together(m, s, units, field) {
        let t = s.take(n as int);
        let f = raw_errors(m, s, units);
        let g = raw_errors(m, t, units);
        gather_values(s.len(), f);
        errors_begin(m, s, units, n, n);
        gather_values(n, g);
        let short = Seq::new(t.len(), |j: int| mean_of(m, t[j], units));
        assert(short =~= values.take(n as int));
        assert forall|i: int| 0 <= i < n implies gather(n, g)->Ok_0[i] == errors[i] by {
            assert(f(i) == Ok::<R, MonteCarloError>(errors[i]));
            assert(g(i) == Ok::<R, MonteCarloError>(gather(n, g)->Ok_0[i]));
        }
        assert(gather(n, g)->Ok_0 =~= errors.take(n as int));
        assert forall|i: int| 0 <= i < n implies m.is_finite(#[trigger] short[i]) by {
            assert(m.is_finite(values[i]));
        }
        assert forall|i: int| 0 <= i < n implies m.is_finite(
            #[trigger] errors.take(n as int)[i],
        ) by {
            assert(m.is_finite(errors[i]));
        }
    }
}

proof fn errors_begin<R: Scalar>(m: Model<R>, s: Seq<Statistics<R>>, units: u64, n: nat, k: nat)
    requires
        k <= n <= s.len(),
        gather(s.len(), raw_errors(m, s, units)) is Ok,
    ensures
        gather(k, raw_errors(m, s.take(n as int), units)) is Ok,
    decreases k,
{
    if k > 0 {
        errors_begin(m, s, units, n, (k - 1) as nat);
        let f = raw_errors(m, s, units);
        gather_values(s.len(), f);
        assert(f(k - 1) == Ok::<R, MonteCarloError>(gather(s.len(), f)->Ok_0[k - 1]));
    }
}

} // verus!
