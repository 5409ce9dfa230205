//! The sampling units of a simulation: one row of quantities for each draw, or
//! one row of means for each scramble, and the statistics of their columns.

use crate::engine::EngineConfig;
use crate::errors::MonteCarloError;
use crate::neumaier::{compensated_sum, sum_compensated};
use crate::results::{gather, gather_stops, seen};
use crate::sampling::{Backend, Statistics};
use crate::scalar::{lawful, over, Math, Model, Scalar};
use vstd::prelude::*;

verus! {

/// The rows of a simulation.
#[verifier::reject_recursive_types(R)]
pub ghost struct Rows<R> {
    /// The number of quantities of a row.
    pub width: nat,
    /// The quantities of a pseudo-random draw, or its failure.
    pub unit: spec_fn(int) -> Result<Seq<R>, MonteCarloError>,
    /// The quantities of a point of a scramble, or its failure.
    pub point: spec_fn(u32, int) -> Result<Seq<R>, MonteCarloError>,
}

impl<R> Rows<R> {
    /// The quantities of the points of one scramble.
    pub open spec fn points(self, scramble: u32) -> spec_fn(int) -> Result<
        Seq<R>,
        MonteCarloError,
    > {
        |point: int| (self.point)(scramble, point)
    }
}

/// What samples the rows of a simulation.
pub trait UnitSampler<R: Scalar> {
    /// The rows.
    spec fn rows(&self) -> Rows<R>;

    /// The draws that can be sampled.
    spec fn unit_exists(&self, unit: u64) -> bool;

    /// The points that can be sampled.
    spec fn point_exists(&self, scramble: u32, point: u64) -> bool;

    /// Samples a pseudo-random draw.
    fn sample_unit(&self, unit: u64) -> (r: Result<Vec<R>, MonteCarloError>)
        requires
            self.unit_exists(unit),
        ensures
            seen(r) == (self.rows().unit)(unit as int),
            r matches Ok(v) ==> v@.len() == self.rows().width,
    ;

    /// Samples a point of a scramble.
    fn sample_point(&self, scramble: u32, point: u64) -> (r: Result<Vec<R>, MonteCarloError>)
        requires
            self.point_exists(scramble, point),
        ensures
            seen(r) == (self.rows().point)(scramble, point as int),
            r matches Ok(v) ==> v@.len() == self.rows().width,
    ;
}

/// Every draw that the engine asks for can be sampled.
pub open spec fn covers<R: Scalar, S: UnitSampler<R>>(s: S, engine: EngineConfig) -> bool {
    match engine {
        EngineConfig::PseudoMonteCarlo(c) => forall|unit: u64|
            unit < c.independent_sampling_units ==> #[trigger] s.unit_exists(unit),
        EngineConfig::RandomizedQuasiMonteCarlo(c) => forall|scramble: u32, point: u64|
            scramble < c.scramble_count && point < c.points_per_scramble
                ==> #[trigger] s.point_exists(scramble, point),
    }
}

/// The values of the quantity `j`, row by row.
pub open spec fn column<R>(rows: Seq<Seq<R>>, j: int) -> Seq<R> {
    Seq::new(rows.len(), |i: int| rows[i][j])
}

/// The mean of the quantity `j` over the points of a scramble. An ordered sum
/// is compensated, any other is the reduction of the backend.
pub open spec fn column_mean<R: Scalar, B: Backend<R>>(
    m: Model<R>,
    b: B,
    ordered: bool,
    rows: Seq<Seq<R>>,
    j: int,
    points: u64,
) -> R {
    over(
        if ordered {
            compensated_sum(m, column(rows, j))
        } else {
            b.reduction_of(column(rows, j)).total
        },
        m.of(points),
    )
}

/// The means of a scramble, or the failure of its first point that fails.
pub open spec fn scramble_row<R: Scalar, B: Backend<R>>(
    m: Model<R>,
    b: B,
    rows: Rows<R>,
    ordered: bool,
    points: u64,
) -> spec_fn(int) -> Result<Seq<R>, MonteCarloError> {
    |scramble: int|
        match gather(points as nat, rows.points(scramble as u32)) {
            Err(e) => Err(e),
            Ok(sampled) => Ok(
                Seq::new(rows.width, |j: int| column_mean(m, b, ordered, sampled, j, points)),
            ),
        }
}

/// One row for each independent sampling unit, or the first failure.
pub open spec fn table_of<R: Scalar, B: Backend<R>>(
    m: Model<R>,
    b: B,
    rows: Rows<R>,
    engine: EngineConfig,
    ordered: bool,
) -> Result<Seq<Seq<R>>, MonteCarloError> {
    match engine {
        EngineConfig::PseudoMonteCarlo(c) => gather(
            c.independent_sampling_units as nat,
            rows.unit,
        ),
        EngineConfig::RandomizedQuasiMonteCarlo(c) => gather(
            c.scramble_count as nat,
            scramble_row(m, b, rows, ordered, c.points_per_scramble),
        ),
    }
}

/// The statistics of one column: of draws, the reduction of the backend unless
/// the sum is ordered; of scrambles, always the two-pass statistics.
pub open spec fn column_statistics<R: Scalar, B: Backend<R>>(
    b: B,
    engine: EngineConfig,
    ordered: bool,
    table: Seq<Seq<R>>,
    j: int,
) -> Statistics<R> {
    if engine is PseudoMonteCarlo && !ordered {
        b.reduction_of(column(table, j))
    } else {
        b.two_pass_of(column(table, j))
    }
}

/// The statistics of the first `width` columns.
pub open spec fn statistics_of<R: Scalar, B: Backend<R>>(
    b: B,
    engine: EngineConfig,
    ordered: bool,
    table: Seq<Seq<R>>,
    width: nat,
) -> Seq<Statistics<R>> {
    Seq::new(width, |j: int| column_statistics(b, engine, ordered, table, j))
}

/// The rows of a table, as sequences.
pub open spec fn rows_of<R>(table: Seq<Vec<R>>) -> Seq<Seq<R>> {
    Seq::new(table.len(), |i: int| table[i]@)
}

/// Every row of the table has the given length.
pub open spec fn rectangular<R>(table: Seq<Vec<R>>, width: nat) -> bool {
    forall|i: int| 0 <= i < table.len() ==> (#[trigger] table[i])@.len() == width
}

/// A result with its table taken as sequences.
pub open spec fn table_seen<R>(r: Result<Vec<Vec<R>>, MonteCarloError>) -> Result<
    Seq<Seq<R>>,
    MonteCarloError,
> {
    match r {
        Ok(t) => Ok(rows_of(t@)),
        Err(e) => Err(e),
    }
}

/// Takes one quantity out of every row.
pub fn take_column<R: Scalar>(rows: &Vec<Vec<R>>, j: usize) -> (values: Vec<R>)
    requires
        forall|i: int| 0 <= i < rows@.len() ==> j < (#[trigger] rows@[i])@.len(),
    ensures
        values@ == column(rows_of(rows@), j as int),
{
    let mut values: Vec<R> = Vec::new();
    let mut i: usize = 0;
    while i < rows.len()
        invariant
            i <= rows@.len(),
            values@.len() == i,
            forall|k: int| 0 <= k < rows@.len() ==> j < (#[trigger] rows@[k])@.len(),
            forall|k: int| 0 <= k < i ==> #[trigger] values@[k] == rows@[k]@[j as int],
        decreases rows@.len() - i,
    {
        let row = &rows[i];
        values.push(row[j]);
        i = i + 1;
    }
    assert(values@ =~= column(rows_of(rows@), j as int));
    values
}

/// Samples the draws `0`, ..., `units - 1`.
fn sample_units<R: Scalar, S: UnitSampler<R>>(s: &S, units: u64) -> (r: Result<
    Vec<Vec<R>>,
    MonteCarloError,
>)
    requires
        forall|unit: u64| unit < units ==> #[trigger] s.unit_exists(unit),
    ensures
        table_seen(r) == gather(units as nat, s.rows().unit),
        r matches Ok(t) ==> rectangular(t@, s.rows().width),
{
    let ghost f = s.rows().unit;
    let mut rows: Vec<Vec<R>> = Vec::new();
    assert(rows_of(rows@) =~= Seq::empty());
    let mut unit: u64 = 0;
    while unit < units
        invariant
            unit <= units,
            f == s.rows().unit,
            forall|unit: u64| unit < units ==> #[trigger] s.unit_exists(unit),
            rectangular(rows@, s.rows().width),
            gather(unit as nat, f) == Ok::<Seq<Seq<R>>, MonteCarloError>(rows_of(rows@)),
        decreases units - unit,
    {
        let row = s.sample_unit(unit);
        assert(seen(row) == f(unit as int));
        match row {
            Err(e) => {
                proof {
                    assert(gather((unit + 1) as nat, f) == Err::<Seq<Seq<R>>, MonteCarloError>(e));
                    gather_stops((unit + 1) as nat, units as nat, f);
                }
                return Err(e);
            },
            Ok(v) => {
                let ghost before = rows_of(rows@);
                rows.push(v);
                assert(rows_of(rows@) =~= before.push(v@));
            },
        }
        unit = unit + 1;
    }
    Ok(rows)
}

/// Samples the points of a scramble.
fn sample_points<R: Scalar, S: UnitSampler<R>>(s: &S, scramble: u32, points: u64) -> (r: Result<
    Vec<Vec<R>>,
    MonteCarloError,
>)
    requires
        forall|point: u64| point < points ==> #[trigger] s.point_exists(scramble, point),
    ensures
        table_seen(r) == gather(points as nat, s.rows().points(scramble)),
        r matches Ok(t) ==> rectangular(t@, s.rows().width),
{
    let ghost f = s.rows().points(scramble);
    let mut rows: Vec<Vec<R>> = Vec::new();
    assert(rows_of(rows@) =~= Seq::empty());
    let mut point: u64 = 0;
    while point < points
        invariant
            point <= points,
            f == s.rows().points(scramble),
            forall|point: u64| point < points ==> #[trigger] s.point_exists(scramble, point),
            rectangular(rows@, s.rows().width),
            gather(point as nat, f) == Ok::<Seq<Seq<R>>, MonteCarloError>(rows_of(rows@)),
        decreases points - point,
    {
        let row = s.sample_point(scramble, point);
        assert(seen(row) == f(point as int));
        match row {
            Err(e) => {
                proof {
                    assert(gather((point + 1) as nat, f) == Err::<Seq<Seq<R>>, MonteCarloError>(e));
                    gather_stops((point + 1) as nat, points as nat, f);
                }
                return Err(e);
            },
            Ok(v) => {
                let ghost before = rows_of(rows@);
                rows.push(v);
                assert(rows_of(rows@) =~= before.push(v@));
            },
        }
        point = point + 1;
    }
    Ok(rows)
}

/// Takes the means of the points of a scramble.
fn take_means<R: Scalar, M: Math<R>, B: Backend<R>>(
    m: &M,
    b: &B,
    ordered: bool,
    rows: &Vec<Vec<R>>,
    width: usize,
    points: u64,
) -> (means: Vec<R>)
    requires
        rectangular(rows@, width as nat),
    ensures
        means@ == Seq::new(
            width as nat,
            |j: int| column_mean(m.model(), *b, ordered, rows_of(rows@), j, points),
        ),
        means@.len() == width,
{
    m.laws();
    let count = m.of(points);
    let mut means: Vec<R> = Vec::new();
    let mut j: usize = 0;
    while j < width
        invariant
            lawful::<R>(),
            j <= width,
            count == m.model().of(points),
            rectangular(rows@, width as nat),
            means@.len() == j,
            forall|k: int|
                0 <= k < j ==> #[trigger] means@[k] == column_mean(
                    m.model(),
                    *b,
                    ordered,
                    rows_of(rows@),
                    k,
                    points,
                ),
        decreases width - j,
    {
        let values = take_column(rows, j);
        let total = if ordered {
            sum_compensated(m, values.as_slice())
        } else {
            b.reduce(&values).total
        };
        means.push(total / count);
        j = j + 1;
    }
    assert(means@ =~= Seq::new(
        width as nat,
        |j: int| column_mean(m.model(), *b, ordered, rows_of(rows@), j, points),
    ));
    means
}

/// Takes the means of a scramble.
pub fn scramble_means<R: Scalar, M: Math<R>, B: Backend<R>, S: UnitSampler<R>>(
    m: &M,
    b: &B,
    s: &S,
    ordered: bool,
    scramble: u32,
    points: u64,
    width: usize,
) -> (r: Result<Vec<R>, MonteCarloError>)
    requires
        width == s.rows().width,
        forall|point: u64| point < points ==> #[trigger] s.point_exists(scramble, point),
    ensures
        seen(r) == scramble_row(m.model(), *b, s.rows(), ordered, points)(scramble as int),
        r matches Ok(v) ==> v@.len() == width,
{
    match sample_points(s, scramble, points) {
        Err(e) => Err(e),
        Ok(rows) => Ok(take_means(m, b, ordered, &rows, width, points)),
    }
}

/// Makes one row for each independent sampling unit.
pub fn tabulate<R: Scalar, M: Math<R>, B: Backend<R>, S: UnitSampler<R>>(
    m: &M,
    b: &B,
    s: &S,
    engine: &EngineConfig,
    ordered: bool,
    width: usize,
) -> (r: Result<Vec<Vec<R>>, MonteCarloError>)
    requires
        width == s.rows().width,
        covers(*s, *engine),
    ensures
        table_seen(r) == table_of(m.model(), *b, s.rows(), *engine, ordered),
        r matches Ok(t) ==> rectangular(t@, width as nat),
{
    match engine {
        EngineConfig::PseudoMonteCarlo(c) => sample_units(s, c.independent_sampling_units),
        EngineConfig::RandomizedQuasiMonteCarlo(c) => {
            let points = c.points_per_scramble;
            let ghost f = scramble_row(m.model(), *b, s.rows(), ordered, points);
            let mut table: Vec<Vec<R>> = Vec::new();
            assert(rows_of(table@) =~= Seq::empty());
            let mut scramble: u32 = 0;
            while scramble < c.scramble_count
                invariant
                    scramble <= c.scramble_count,
                    width == s.rows().width,
                    *engine == EngineConfig::RandomizedQuasiMonteCarlo(*c),
                    points == c.points_per_scramble,
                    covers(*s, *engine),
                    f == scramble_row(m.model(), *b, s.rows(), ordered, points),
                    rectangular(table@, width as nat),
                    gather(scramble as nat, f) == Ok::<Seq<Seq<R>>, MonteCarloError>(
                        rows_of(table@),
                    ),
                decreases c.scramble_count - scramble,
            {
                match scramble_means(m, b, s, ordered, scramble, points, width) {
                    Err(e) => {
                        proof {
                            assert(f(scramble as int) == Err::<Seq<R>, MonteCarloError>(e));
                            assert(gather((scramble + 1) as nat, f) == Err::<
                                Seq<Seq<R>>,
                                MonteCarloError,
                            >(e));
                            gather_stops((scramble + 1) as nat, c.scramble_count as nat, f);
                        }
                        return Err(e);
                    },
                    Ok(means) => {
                        assert(f(scramble as int) == Ok::<Seq<R>, MonteCarloError>(means@));
                        let ghost before = rows_of(table@);
                        table.push(means);
                        assert(rows_of(table@) =~= before.push(means@));
                    },
                }
                scramble = scramble + 1;
            }
            Ok(table)
        },
    }
}

/// Takes the statistics of the first `width` columns.
pub fn summarise<R: Scalar, B: Backend<R>>(
    b: &B,
    engine: &EngineConfig,
    ordered: bool,
    table: &Vec<Vec<R>>,
    columns: usize,
    width: usize,
) -> (s: Vec<Statistics<R>>)
    requires
        rectangular(table@, columns as nat),
        width <= columns,
    ensures
        s@ == statistics_of(*b, *engine, ordered, rows_of(table@), width as nat),
        s@.len() == width,
{
    let reduced = match engine {
        EngineConfig::PseudoMonteCarlo(_) => !ordered,
        EngineConfig::RandomizedQuasiMonteCarlo(_) => false,
    };
    let mut s: Vec<Statistics<R>> = Vec::new();
    let mut j: usize = 0;
    while j < width
        invariant
            j <= width <= columns,
            rectangular(table@, columns as nat),
            reduced == (engine is PseudoMonteCarlo && !ordered),
            s@.len() == j,
            forall|k: int|
                0 <= k < j ==> #[trigger] s@[k] == column_statistics(
                    *b,
                    *engine,
                    ordered,
                    rows_of(table@),
                    k,
                ),
        decreases width - j,
    {
        let values = take_column(table, j);
        s.push(
            if reduced {
                b.reduce(&values)
            } else {
                b.two_pass(&values)
            },
        );
        j = j + 1;
    }
    assert(s@ =~= statistics_of(*b, *engine, ordered, rows_of(table@), width as nat));
    s
}

/// Two tables that agree in one column have the same statistics of it: an
/// estimate does not move when other quantities are estimated beside it.
pub proof fn columns_are_independent<R: Scalar, B: Backend<R>>(
    b: B,
    engine: EngineConfig,
    ordered: bool,
    first: Seq<Seq<R>>,
    second: Seq<Seq<R>>,
    j: int,
)
    requires
        first.len() == second.len(),
        forall|i: int| 0 <= i < first.len() ==> #[trigger] first[i][j] == second[i][j],
    ensures
        column_statistics(b, engine, ordered, first, j) == column_statistics(
            b,
            engine,
            ordered,
            second,
            j,
        ),
{
    assert(column(first, j) =~= column(second, j));
}

} // verus!
