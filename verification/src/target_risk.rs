//! The risk of a calibration target: the mean of a simulation is reversed through
//! the calibration, as a whole or scramble by scramble.

use crate::dividend_aad::all_but_first;
use crate::engine::EngineConfig;
use crate::errors::MonteCarloError;
use crate::estimation::mean_of;
use crate::hybrid_aad::append;
use crate::linear::{build, collect, collect_rows, rows_seen, viewed};
use crate::results::{gather, opt_seen, seen};
use crate::sampling::{Backend, Statistics};
use crate::scalar::{over, Math, Model, Scalar};
use crate::units::{
    column, covers, rows_of, scramble_means, scramble_row, statistics_of, summarise, table_of,
    tabulate, take_column, Rows, UnitSampler,
};
use vstd::prelude::*;

verus! {

/// What takes the derivatives of a mean to those of a calibration target.
pub trait MeanReverse<R: Scalar> {
    /// The derivatives of the target.
    spec fn reverse_of(&self) -> spec_fn(Seq<R>) -> Result<Seq<R>, MonteCarloError>;

    /// Their number.
    spec fn size(&self) -> nat;

    /// Computes [`Self::reverse_of`].
    fn reverse(&self, mean: &Vec<R>) -> (r: Result<Vec<R>, MonteCarloError>)
        ensures
            seen(r) == (self.reverse_of())(mean@),
            r matches Ok(v) ==> v@.len() == self.size(),
    ;
}

/// What a simulation gives: the statistics of its price, the derivatives of the
/// target, and the units behind both.
pub struct TargetOutcome<R> {
    pub price: Statistics<R>,
    /// The price of each unit.
    pub prices: Vec<R>,
    /// The derivatives of each unit.
    pub samples: Vec<Vec<R>>,
    pub derivatives: Vec<R>,
    /// The standard errors, where scrambles give some.
    pub standard_errors: Option<Vec<R>>,
}

/// A [`TargetOutcome`] as a mathematical value.
pub ghost struct TargetOutcomeView<R> {
    pub price: Statistics<R>,
    pub prices: Seq<R>,
    pub samples: Seq<Seq<R>>,
    pub derivatives: Seq<R>,
    pub standard_errors: Option<Seq<R>>,
}

impl<R> View for TargetOutcome<R> {
    type V = TargetOutcomeView<R>;

    open spec fn view(&self) -> TargetOutcomeView<R> {
        TargetOutcomeView {
            price: self.price,
            prices: self.prices@,
            samples: rows_seen(self.samples@),
            derivatives: self.derivatives@,
            standard_errors: opt_seen(self.standard_errors),
        }
    }
}

impl<R> TargetOutcomeView<R> {
    /// There is a derivative for each entry of the target.
    pub open spec fn sized(self, n: nat) -> bool {
        &&& self.derivatives.len() == n
        &&& self.standard_errors matches Some(e) ==> e.len() == n
        &&& forall|i: int| 0 <= i < self.samples.len() ==> (#[trigger] self.samples[i]).len() == n
    }
}

/// The standard error of a mean. It needs a sample variance, and where it is not
/// finite `failure` is given.
pub open spec fn error_or<R: Scalar>(
    m: Model<R>,
    s: Statistics<R>,
    units: u64,
    failure: MonteCarloError,
) -> Result<R, MonteCarloError> {
    match s.sample_variance {
        None => Err(MonteCarloError::InsufficientSamplingUnits { count: units }),
        Some(variance) => {
            let error = m.sqrt(over(variance, m.of(units)));
            if m.is_finite(error) {
                Ok(error)
            } else {
                Err(failure)
            }
        },
    }
}

/// Computes [`error_or`].
pub fn take_error_or<R: Scalar, M: Math<R>>(
    m: &M,
    s: Statistics<R>,
    units: u64,
    failure: MonteCarloError,
) -> (r: Result<R, MonteCarloError>)
    ensures
        r == error_or(m.model(), s, units, failure),
{
    m.laws();
    match s.sample_variance {
        None => Err(MonteCarloError::InsufficientSamplingUnits { count: units }),
        Some(variance) => {
            let error = m.sqrt(variance / m.of(units));
            if !m.is_finite(error) {
                return Err(failure);
            }
            Ok(error)
        },
    }
}

/// The means of all quantities over pseudo-random draws.
pub open spec fn draw_means<R: Scalar>(
    m: Model<R>,
    s: Seq<Statistics<R>>,
    units: u64,
) -> Seq<R> {
    Seq::new(s.len(), |j: int| mean_of(m, s[j], units))
}

/// What a pseudo-random simulation gives: the mean over all draws is reversed.
pub open spec fn pseudo_target<R: Scalar, B: Backend<R>>(
    m: Model<R>,
    b: B,
    rows: Rows<R>,
    engine: EngineConfig,
    reverse: spec_fn(Seq<R>) -> Result<Seq<R>, MonteCarloError>,
) -> Result<TargetOutcomeView<R>, MonteCarloError> {
    match table_of(m, b, rows, engine, false) {
        Err(e) => Err(e),
        Ok(table) => {
            let s = statistics_of(b, engine, false, table, rows.width);
            let means = draw_means(m, s, engine.units());
            match reverse(means.skip(1)) {
                Err(e) => Err(e),
                Ok(derivatives) => Ok(
                    TargetOutcomeView {
                        price: s[0],
                        prices: seq![means[0]],
                        samples: seq![derivatives],
                        derivatives,
                        standard_errors: None,
                    },
                ),
            }
        },
    }
}

/// The price and the derivatives of a scramble, whose own mean is reversed.
pub open spec fn scramble_target<R: Scalar, B: Backend<R>>(
    m: Model<R>,
    b: B,
    rows: Rows<R>,
    points: u64,
    reverse: spec_fn(Seq<R>) -> Result<Seq<R>, MonteCarloError>,
) -> spec_fn(int) -> Result<Seq<R>, MonteCarloError> {
    |scramble: int|
        match scramble_row(m, b, rows, false, points)(scramble) {
            Err(e) => Err(e),
            Ok(means) => match reverse(means.skip(1)) {
                Err(e) => Err(e),
                Ok(derivatives) => Ok(seq![means[0]] + derivatives),
            },
        }
}

/// The standard errors of derivatives.
pub open spec fn target_errors<R: Scalar, B: Backend<R>>(
    m: Model<R>,
    b: B,
    table: Seq<Seq<R>>,
    units: u64,
    failure: MonteCarloError,
) -> spec_fn(int) -> Result<R, MonteCarloError> {
    |j: int| error_or(m, b.two_pass_of(column(table, j + 1)), units, failure)
}

/// What a quasi-random simulation gives: the derivatives are the means over the
/// scrambles, and the scrambles give their standard errors.
pub open spec fn quasi_target<R: Scalar, B: Backend<R>>(
    m: Model<R>,
    b: B,
    rows: Rows<R>,
    scrambles: u32,
    points: u64,
    reverse: spec_fn(Seq<R>) -> Result<Seq<R>, MonteCarloError>,
    size: nat,
    failure: MonteCarloError,
) -> Result<TargetOutcomeView<R>, MonteCarloError> {
    let units = scrambles as u64;
    match gather(scrambles as nat, scramble_target(m, b, rows, points, reverse)) {
        Err(e) => Err(e),
        Ok(table) => match gather(size, target_errors(m, b, table, units, failure)) {
            Err(e) => Err(e),
            Ok(errors) => Ok(
                TargetOutcomeView {
                    price: b.two_pass_of(column(table, 0)),
                    prices: column(table, 0),
                    samples: Seq::new(table.len(), |i: int| table[i].skip(1)),
                    derivatives: Seq::new(
                        size,
                        |j: int| mean_of(m, b.two_pass_of(column(table, j + 1)), units),
                    ),
                    standard_errors: Some(errors),
                },
            ),
        },
    }
}

/// What a simulation gives.
pub open spec fn target_outcome<R: Scalar, B: Backend<R>>(
    m: Model<R>,
    b: B,
    rows: Rows<R>,
    engine: EngineConfig,
    reverse: spec_fn(Seq<R>) -> Result<Seq<R>, MonteCarloError>,
    size: nat,
    failure: MonteCarloError,
) -> Result<TargetOutcomeView<R>, MonteCarloError> {
    match engine {
        EngineConfig::PseudoMonteCarlo(_) => pseudo_target(m, b, rows, engine, reverse),
        EngineConfig::RandomizedQuasiMonteCarlo(c) => quasi_target(
            m,
            b,
            rows,
            c.scramble_count,
            c.points_per_scramble,
            reverse,
            size,
            failure,
        ),
    }
}

fn run_draws<R: Scalar, M: Math<R>, B: Backend<R>, S: UnitSampler<R>, V: MeanReverse<R>>(
    m: &M,
    b: &B,
    s: &S,
    engine: &EngineConfig,
    width: usize,
    v: &V,
    units: u64,
) -> (r: Result<TargetOutcome<R>, MonteCarloError>)
    requires
        engine is PseudoMonteCarlo,
        units == engine.units(),
        width >= 1,
        width == s.rows().width,
        covers(*s, *engine),
    ensures
        viewed(r) == pseudo_target(m.model(), *b, s.rows(), *engine, v.reverse_of()),
        r matches Ok(o) ==> o@.sized(v.size()),
{
    let table = match tabulate(m, b, s, engine, false, width) {
        Err(e) => return Err(e),
        Ok(t) => t,
    };
    let statistics = summarise(b, engine, false, &table, width, width);
    let ghost entry = |j: int| mean_of(m.model(), statistics@[j], units);
    let means_at = |j: usize| -> (x: R)
        requires
            j < width,
        ensures
            x == entry(j as int),
        {
            m.laws();
            statistics[j].total / m.of(units)
        };
    let means = build(
        width,
        means_at,
        Ghost(entry),
    );
    assert(means@ =~= draw_means(m.model(), statistics@, units));
    let tail = all_but_first(&means);
    let derivatives = match v.reverse(&tail) {
        Err(e) => return Err(e),
        Ok(d) => d,
    };
    let mut copy: Vec<R> = Vec::new();
    append(&mut copy, &derivatives);
    assert(copy@ =~= derivatives@);
    let prices: Vec<R> = vec![means[0]];
    assert(prices@ =~= seq![means@[0]]);
    let samples: Vec<Vec<R>> = vec![copy];
    assert(rows_seen(samples@) =~= seq![derivatives@]);
    Ok(
        TargetOutcome {
            price: statistics[0],
            prices,
            samples,
            derivatives,
            standard_errors: None,
        },
    )
}

fn tails_of<R: Scalar>(table: &Vec<Vec<R>>, Ghost(width): Ghost<nat>) -> (t: Vec<Vec<R>>)
    requires
        width >= 1,
        forall|i: int| 0 <= i < table@.len() ==> (#[trigger] table@[i])@.len() == width,
    ensures
        rows_seen(t@) == Seq::new(table@.len(), |i: int| rows_seen(table@)[i].skip(1)),
{
    let ghost want = Seq::new(table@.len(), |i: int| rows_seen(table@)[i].skip(1));
    let mut t: Vec<Vec<R>> = Vec::new();
    let mut i: usize = 0;
    assert(rows_seen(t@) =~= want.take(0));
    while i < table.len()
        invariant
            width >= 1,
            i <= table@.len(),
            forall|k: int| 0 <= k < table@.len() ==> (#[trigger] table@[k])@.len() == width,
            want == Seq::new(table@.len(), |i: int| rows_seen(table@)[i].skip(1)),
            t@.len() == i,
            rows_seen(t@) == want.take(i as int),
        decreases table@.len() - i,
    {
        let ghost before = t@;
        let row = all_but_first(&table[i]);
        t.push(row);
        assert(rows_seen(t@) =~= rows_seen(before).push(row@));
        assert(rows_seen(t@) =~= want.take(i + 1));
        i = i + 1;
    }
    assert(want.take(i as int) =~= want);
    t
}

fn run_scrambles<R: Scalar, M: Math<R>, B: Backend<R>, S: UnitSampler<R>, V: MeanReverse<R>>(
    m: &M,
    b: &B,
    s: &S,
    scrambles: u32,
    points: u64,
    width: usize,
    v: &V,
    failure: MonteCarloError,
) -> (r: Result<TargetOutcome<R>, MonteCarloError>)
    requires
        scrambles > 0,
        width >= 1,
        width == s.rows().width,
        v.size() < usize::MAX,
        forall|scramble: u32, point: u64|
            scramble < scrambles && point < points ==> #[trigger] s.point_exists(scramble, point),
    ensures
        viewed(r) == quasi_target(
            m.model(),
            *b,
            s.rows(),
            scrambles,
            points,
            v.reverse_of(),
            v.size(),
            failure,
        ),
        r matches Ok(o) ==> o@.sized(v.size()),
{
    let ghost n = v.size();
    let ghost row = scramble_target(m.model(), *b, s.rows(), points, v.reverse_of());
    let count: usize = scrambles as usize;
    let table_at = |i: usize| -> (x: Result<Vec<R>, MonteCarloError>)
        requires
            i < count,
        ensures
            seen(x) == row(i as int),
            x matches Ok(line) ==> line@.len() == 1 + v.size(),
        {
            let means = match scramble_means(m, b, s, false, i as u32, points, width) {
                Err(e) => return Err(e),
                Ok(w) => w,
            };
            let tail = all_but_first(&means);
            let derivatives = match v.reverse(&tail) {
                Err(e) => return Err(e),
                Ok(d) => d,
            };
            let mut line: Vec<R> = vec![means[0]];
            append(&mut line, &derivatives);
            assert(line@ =~= seq![means@[0]] + derivatives@);
            Ok(line)
        };
    let table = match collect_rows(
        count,
        table_at,
        Ghost(row),
        Ghost(1 + n),
    ) {
        Err(e) => return Err(e),
        Ok(t) => t,
    };
    let ghost rows = rows_seen(table@);
    assert(rows =~= rows_of(table@));
    let units: u64 = scrambles as u64;
    let columns: usize = table[0].len();
    let size: usize = columns - 1;
    let ghost derivative = |j: int| mean_of(m.model(), b.two_pass_of(column(rows, j + 1)), units);
    let derivatives_at = |j: usize| -> (x: R)
        requires
            j < size,
        ensures
            x == derivative(j as int),
        {
            m.laws();
            let values = take_column(&table, j + 1);
            b.two_pass(&values).total / m.of(units)
        };
    let derivatives = build(
        size,
        derivatives_at,
        Ghost(derivative),
    );
    let ghost error = target_errors(m.model(), *b, rows, units, failure);
    let errors_at = |j: usize| -> (x: Result<R, MonteCarloError>)
        requires
            j < size,
        ensures
            x == error(j as int),
        {
            let values = take_column(&table, j + 1);
            take_error_or(m, b.two_pass(&values), units, failure)
        };
    let errors = match collect(
        size,
        errors_at,
        Ghost(error),
    ) {
        Err(e) => return Err(e),
        Ok(w) => w,
    };
    let prices = take_column(&table, 0);
    assert(derivatives@ =~= Seq::new(
        n,
        |j: int| mean_of(m.model(), b.two_pass_of(column(rows, j + 1)), units),
    ));
    let samples = tails_of(&table, Ghost(1 + n));
    assert forall|i: int| 0 <= i < table@.len() implies (#[trigger] rows[i]).skip(1).len() == n by {
        assert(table@[i]@.len() == 1 + n);
    }
    Ok(
        TargetOutcome {
            price: b.two_pass(&prices),
            prices,
            samples,
            derivatives,
            standard_errors: Some(errors),
        },
    )
}

/// Runs a simulation of `width` quantities: the price, then what is reversed.
pub fn run_target<R: Scalar, M: Math<R>, B: Backend<R>, S: UnitSampler<R>, V: MeanReverse<R>>(
    m: &M,
    b: &B,
    s: &S,
    engine: &EngineConfig,
    width: usize,
    v: &V,
    failure: MonteCarloError,
) -> (r: Result<TargetOutcome<R>, MonteCarloError>)
    requires
        width >= 1,
        width == s.rows().width,
        v.size() < usize::MAX,
        engine.units() > 0,
        covers(*s, *engine),
    ensures
        viewed(r) == target_outcome(
            m.model(),
            *b,
            s.rows(),
            *engine,
            v.reverse_of(),
            v.size(),
            failure,
        ),
        r matches Ok(o) ==> o@.sized(v.size()),
{
    match engine {
        EngineConfig::PseudoMonteCarlo(c) => run_draws(
            m,
            b,
            s,
            engine,
            width,
            v,
            c.independent_sampling_units,
        ),
        EngineConfig::RandomizedQuasiMonteCarlo(c) => run_scrambles(
            m,
            b,
            s,
            c.scramble_count,
            c.points_per_scramble,
            width,
            v,
            failure,
        ),
    }
}

} // verus!
