//! What one local-volatility path yields: its price, and where they were asked
//! for its vega, the buckets of the vega, and the bumped delta and gamma.

use crate::errors::MonteCarloError;
use crate::local_vol_paths::{
    BarrierPayoff, BridgeShape, DatedAdjoint, Deposit, ExerciseCashflowSelection, Fixing,
    FixingDate, GraphPayoff, Interval, IntervalAdjoint, LocalVolPaths, Observation,
};
use crate::neumaier::{compensated_sum, sum_compensated};
use crate::results::seen;
use crate::scalar::{lawful, literal, minus, over, plus, same, times, Math, Model, Scalar};
use crate::sampling::{added, zeros};
use crate::simulation::{
    SimulationPlan, BARRIER_BRIDGE_HIT_WEIGHT, BARRIER_CERTAIN_SURVIVAL_COUNT,
    BARRIER_DIVIDEND_JUMP_HIT, BARRIER_ENDPOINT_HIT, BARRIER_FINITE_CORRECTION_COUNT,
    BARRIER_INTERVAL_COUNT, BARRIER_SURVIVAL_UNDERFLOW_COUNT, BARRIER_ZERO_VARIANCE_COUNT,
    BUMP_DELTA, BUMP_GAMMA, DELTA, GAMMA, PATHWISE_COMPONENTS, PRICE, VEGA,
};
use vstd::prelude::*;

verus! {

/// The seeds with an amount added at a node. An amount for a node that is not
/// there goes nowhere.
pub open spec fn deposited<R: Scalar>(seeds: Seq<R>, d: Deposit<R>) -> Seq<R> {
    if d.node < seeds.len() {
        seeds.update(d.node as int, plus(seeds[d.node as int], d.amount))
    } else {
        seeds
    }
}

/// The seeds with a list of amounts added, one after the other.
pub open spec fn all_deposited<R: Scalar>(seeds: Seq<R>, list: Seq<Deposit<R>>) -> Seq<R>
    decreases list.len(),
{
    if list.len() == 0 {
        seeds
    } else {
        deposited(all_deposited(seeds, list.drop_last()), list.last())
    }
}

/// Amounts change no length.
pub proof fn deposits_keep_length<R: Scalar>(seeds: Seq<R>, list: Seq<Deposit<R>>)
    ensures
        all_deposited(seeds, list).len() == seeds.len(),
    decreases list.len(),
{
    if list.len() > 0 {
        deposits_keep_length(seeds, list.drop_last());
    }
}

/// A node that no amount is for keeps its seed.
pub proof fn deposits_keep_others<R: Scalar>(seeds: Seq<R>, list: Seq<Deposit<R>>, node: int)
    requires
        0 <= node < seeds.len(),
        forall|i: int| 0 <= i < list.len() ==> (#[trigger] list[i]).node != node,
    ensures
        all_deposited(seeds, list)[node] == seeds[node],
    decreases list.len(),
{
    if list.len() > 0 {
        let rest = list.drop_last();
        assert forall|i: int| 0 <= i < rest.len() implies (#[trigger] rest[i]).node != node by {
            assert(rest[i] == list[i]);
        }
        deposits_keep_others(seeds, rest, node);
        deposits_keep_length(seeds, rest);
        assert(list.last() == list[list.len() - 1]);
    }
}

/// Adds a list of amounts to the seeds.
pub fn deposit_all<R: Scalar, M: Math<R>>(m: &M, seeds: &mut Vec<R>, list: &Vec<Deposit<R>>)
    ensures
        final(seeds)@ == all_deposited(old(seeds)@, list@),
        final(seeds)@.len() == old(seeds)@.len(),
{
    m.laws();
    let ghost start = seeds@;
    let mut i: usize = 0;
    assert(list@.take(0) =~= Seq::empty());
    while i < list.len()
        invariant
            lawful::<R>(),
            i <= list@.len(),
            seeds@ == all_deposited(start, list@.take(i as int)),
            seeds@.len() == start.len(),
        decreases list@.len() - i,
    {
        proof {
            let next = list@.take(i + 1);
            assert(next.drop_last() =~= list@.take(i as int));
            assert(next.last() == list@[i as int]);
        }
        let d = &list[i];
        if d.node < seeds.len() {
            let value = seeds[d.node] + d.amount;
            seeds.set(d.node, value);
        }
        i = i + 1;
    }
    assert(list@.take(i as int) =~= list@);
}

/// The number of intervals that have adjoints.
pub open spec fn paired(intervals: nat, adjoints: nat) -> nat {
    if intervals <= adjoints {
        intervals
    } else {
        adjoints
    }
}

/// The state adjoints of the bridges, left end before right end, interval by
/// interval.
pub open spec fn state_deposits<R: Scalar>(
    intervals: Seq<Interval>,
    adjoints: Seq<IntervalAdjoint<R>>,
) -> Seq<Deposit<R>> {
    Seq::new(
        2 * paired(intervals.len(), adjoints.len()),
        |k: int|
            if k % 2 == 0 {
                Deposit { node: intervals[k / 2].left, amount: adjoints[k / 2].left_state }
            } else {
                Deposit { node: intervals[k / 2].right, amount: adjoints[k / 2].right_state }
            },
    )
}

/// The local-variance adjoints of the bridges, in the same order.
pub open spec fn variance_deposits<R: Scalar>(
    intervals: Seq<Interval>,
    adjoints: Seq<IntervalAdjoint<R>>,
) -> Seq<Deposit<R>> {
    Seq::new(
        2 * paired(intervals.len(), adjoints.len()),
        |k: int|
            if k % 2 == 0 {
                Deposit { node: intervals[k / 2].left, amount: adjoints[k / 2].left_local_variance }
            } else {
                Deposit {
                    node: intervals[k / 2].right,
                    amount: adjoints[k / 2].right_local_variance,
                }
            },
    )
}

/// Lists the adjoints of the bridges: of the states, or of the local variances.
pub fn interval_deposits<R: Scalar>(
    intervals: &Vec<Interval>,
    adjoints: &Vec<IntervalAdjoint<R>>,
    variances: bool,
) -> (list: Vec<Deposit<R>>)
    ensures
        list@ == (if variances {
            variance_deposits(intervals@, adjoints@)
        } else {
            state_deposits(intervals@, adjoints@)
        }),
{
    let count: usize = if intervals.len() <= adjoints.len() {
        intervals.len()
    } else {
        adjoints.len()
    };
    let ghost want = if variances {
        variance_deposits(intervals@, adjoints@)
    } else {
        state_deposits(intervals@, adjoints@)
    };
    let mut list: Vec<Deposit<R>> = Vec::new();
    let mut i: usize = 0;
    while i < count
        invariant
            i <= count,
            count == paired(intervals@.len(), adjoints@.len()),
            want == (if variances {
                variance_deposits(intervals@, adjoints@)
            } else {
                state_deposits(intervals@, adjoints@)
            }),
            list@.len() == 2 * i,
            forall|k: int| 0 <= k < list@.len() ==> #[trigger] list@[k] == want[k],
        decreases count - i,
    {
        let nodes = &intervals[i];
        let a = &adjoints[i];
        let left = if variances {
            a.left_local_variance
        } else {
            a.left_state
        };
        let right = if variances {
            a.right_local_variance
        } else {
            a.right_state
        };
        list.push(Deposit { node: nodes.left, amount: left });
        list.push(Deposit { node: nodes.right, amount: right });
        i = i + 1;
    }
    assert(list@ =~= want);
    list
}

/// The local-volatility side of a plan.
pub struct LocalVolPlan<R> {
    /// Whether paths are checked against a dividend schedule.
    pub has_dividends: bool,
    pub underlying: u64,
    /// The observation dates, where an observation has one.
    pub dates: Vec<Option<i64>>,
    /// The slope of the spot in the state, observation by observation.
    pub slopes: Vec<Option<R>>,
    /// The slope of the spot before its dividend, where there is one.
    pub pre_dividend_slopes: Vec<Option<R>>,
    /// The observation at expiry.
    pub expiry_observation: usize,
    /// The local variances, maturity by maturity.
    pub grid_values: Vec<R>,
    pub time_nodes: Vec<R>,
    /// The number of log-moneyness nodes.
    pub row_length: usize,
    /// The number of reporting buckets, where a bucketed vega was asked for.
    pub buckets: Option<usize>,
    /// The number of steps of a path.
    pub step_count: usize,
    /// The dates that the payoff reads.
    pub fixing_dates: Vec<FixingDate>,
    /// The maturities of the reporting rows, by their bits.
    pub density_maturities: Vec<u64>,
}

impl<R: Scalar> LocalVolPlan<R> {
    /// The rows of the grid can be indexed.
    pub open spec fn valid(self) -> bool {
        self.time_nodes@.len() * self.row_length <= usize::MAX
    }
}

/// The first place from `from` on that holds `date`.
pub open spec fn place_of(dates: Seq<Option<i64>>, date: i64, from: int) -> Option<int>
    decreases dates.len() - from,
{
    if from < 0 || from >= dates.len() {
        None
    } else if dates[from] == Some(date) {
        Some(from)
    } else {
        place_of(dates, date, from + 1)
    }
}

/// Finds the first place that holds `date`.
fn find_date(dates: &Vec<Option<i64>>, date: i64) -> (place: Option<usize>)
    ensures
        place_of(dates@, date, 0) == (match place {
            Some(i) => Some(i as int),
            None => None,
        }),
        place matches Some(i) ==> i < dates@.len(),
{
    let mut i: usize = 0;
    while i < dates.len()
        invariant
            i <= dates@.len(),
            place_of(dates@, date, 0) == place_of(dates@, date, i as int),
        decreases dates@.len() - i,
    {
        if let Some(d) = dates[i] {
            if d == date {
                return Some(i);
            }
        }
        i = i + 1;
    }
    None
}

/// What a payoff reads at a date: the first observation of that date, if it is of the
/// underlying of the plan.
pub open spec fn fixing_of<R: Scalar>(
    lv: LocalVolPlan<R>,
    observations: Seq<Observation<R>>,
    d: FixingDate,
) -> Fixing<R> {
    let nothing = Fixing { spot: None, pre_dividend_spot: None };
    if d.underlying != lv.underlying {
        nothing
    } else {
        match place_of(lv.dates@, d.date, 0) {
            Some(i) => if i < observations.len() {
                Fixing {
                    spot: Some(observations[i].post_spot),
                    pre_dividend_spot: observations[i].pre_dividend_spot,
                }
            } else {
                nothing
            },
            None => nothing,
        }
    }
}

/// What a payoff reads, date by date.
pub open spec fn fixings_of<R: Scalar>(
    lv: LocalVolPlan<R>,
    observations: Seq<Observation<R>>,
) -> Seq<Fixing<R>> {
    Seq::new(
        lv.fixing_dates@.len(),
        |k: int| fixing_of(lv, observations, lv.fixing_dates@[k]),
    )
}

/// Looks up what a payoff reads.
pub fn take_fixings<R: Scalar>(lv: &LocalVolPlan<R>, observations: &Vec<Observation<R>>) -> (v:
    Vec<Fixing<R>>)
    ensures
        v@ == fixings_of(*lv, observations@),
{
    let mut v: Vec<Fixing<R>> = Vec::new();
    let mut k: usize = 0;
    while k < lv.fixing_dates.len()
        invariant
            k <= lv.fixing_dates@.len(),
            v@ == fixings_of(*lv, observations@).take(k as int),
        decreases lv.fixing_dates@.len() - k,
    {
        let d = lv.fixing_dates[k];
        let mut f: Fixing<R> = Fixing { spot: None, pre_dividend_spot: None };
        if d.underlying == lv.underlying {
            if let Some(i) = find_date(&lv.dates, d.date) {
                if i < observations.len() {
                    let o = &observations[i];
                    f = Fixing {
                        spot: Some(o.post_spot),
                        pre_dividend_spot: o.pre_dividend_spot,
                    };
                }
            }
        }
        v.push(f);
        proof {
            let all = fixings_of(*lv, observations@);
            assert(all.take(k + 1) =~= all.take(k as int).push(all[k as int]));
        }
        k = k + 1;
    }
    assert(fixings_of(*lv, observations@).take(k as int) =~= fixings_of(*lv, observations@));
    v
}

/// The first row from `from` on whose maturity has some bits.
pub open spec fn row_of(maturities: Seq<u64>, bits: u64, from: int) -> Option<int>
    decreases maturities.len() - from,
{
    if from < 0 || from >= maturities.len() {
        None
    } else if maturities[from] == bits {
        Some(from)
    } else {
        row_of(maturities, bits, from + 1)
    }
}

/// Finds the first row whose maturity has some bits.
pub fn find_row(maturities: &Vec<u64>, bits: u64) -> (row: Option<usize>)
    ensures
        row_of(maturities@, bits, 0) == (match row {
            Some(i) => Some(i as int),
            None => None,
        }),
        row matches Some(i) ==> i < maturities@.len(),
{
    let mut i: usize = 0;
    while i < maturities.len()
        invariant
            i <= maturities@.len(),
            row_of(maturities@, bits, 0) == row_of(maturities@, bits, i as int),
        decreases maturities@.len() - i,
    {
        if maturities[i] == bits {
            return Some(i);
        }
        i = i + 1;
    }
    None
}

/// The amount that the derivative in one observation seeds, and for which node:
/// the discounted derivative times the slope. A derivative in another
/// underlying, on another date or without a slope seeds nothing.
pub open spec fn graph_deposit<R: Scalar>(
    lv: LocalVolPlan<R>,
    slopes: Seq<Option<R>>,
    observations: Seq<Observation<R>>,
    discount: R,
    a: DatedAdjoint<R>,
) -> Option<Deposit<R>> {
    if a.underlying != lv.underlying {
        None
    } else {
        match place_of(lv.dates@, a.date, 0) {
            None => None,
            Some(i) => if i < observations.len() && i < slopes.len() {
                match slopes[i] {
                    None => None,
                    Some(b) => Some(
                        Deposit {
                            node: observations[i].node,
                            amount: times(times(discount, a.value), b),
                        },
                    ),
                }
            } else {
                None
            },
        }
    }
}

/// The amounts of a list of derivatives, in their order.
pub open spec fn graph_deposits<R: Scalar>(
    lv: LocalVolPlan<R>,
    slopes: Seq<Option<R>>,
    observations: Seq<Observation<R>>,
    discount: R,
    adjoints: Seq<DatedAdjoint<R>>,
) -> Seq<Deposit<R>>
    decreases adjoints.len(),
{
    if adjoints.len() == 0 {
        Seq::empty()
    } else {
        let rest = graph_deposits(lv, slopes, observations, discount, adjoints.drop_last());
        match graph_deposit(lv, slopes, observations, discount, adjoints.last()) {
            None => rest,
            Some(d) => rest.push(d),
        }
    }
}

/// Lists the amounts that the derivatives of a payoff seed.
pub fn list_graph_deposits<R: Scalar, M: Math<R>>(
    m: &M,
    lv: &LocalVolPlan<R>,
    slopes: &Vec<Option<R>>,
    observations: &Vec<Observation<R>>,
    discount: R,
    adjoints: &Vec<DatedAdjoint<R>>,
) -> (list: Vec<Deposit<R>>)
    ensures
        list@ == graph_deposits(*lv, slopes@, observations@, discount, adjoints@),
{
    m.laws();
    let mut list: Vec<Deposit<R>> = Vec::new();
    let mut k: usize = 0;
    assert(adjoints@.take(0) =~= Seq::empty());
    while k < adjoints.len()
        invariant
            lawful::<R>(),
            k <= adjoints@.len(),
            list@ == graph_deposits(
                *lv,
                slopes@,
                observations@,
                discount,
                adjoints@.take(k as int),
            ),
        decreases adjoints@.len() - k,
    {
        proof {
            let next = adjoints@.take(k + 1);
            assert(next.drop_last() =~= adjoints@.take(k as int));
            assert(next.last() == adjoints@[k as int]);
        }
        let a = &adjoints[k];
        if a.underlying == lv.underlying {
            if let Some(i) = find_date(&lv.dates, a.date) {
                if i < observations.len() && i < slopes.len() {
                    if let Some(b) = slopes[i] {
                        list.push(
                            Deposit { node: observations[i].node, amount: discount * a.value * b },
                        );
                    }
                }
            }
        }
        k = k + 1;
    }
    assert(adjoints@.take(k as int) =~= adjoints@);
    list
}

/// The lesser of two lengths.
pub open spec fn lesser(a: nat, b: nat) -> nat {
    if a <= b {
        a
    } else {
        b
    }
}

/// The adjoints of the local volatilities: those of the local variances along
/// the path and at the bridges, times twice the local volatility.
pub open spec fn volatility_adjoints<R: Scalar>(
    m: Model<R>,
    path: Seq<R>,
    bridge: Seq<R>,
    variances: Seq<R>,
) -> Seq<R> {
    Seq::new(
        lesser(lesser(path.len(), bridge.len()), variances.len()),
        |i: int| times(times(plus(path[i], bridge[i]), literal(2)), m.sqrt(variances[i])),
    )
}

/// Takes the adjoints of the local volatilities.
pub fn take_volatility_adjoints<R: Scalar, M: Math<R>>(
    m: &M,
    path: &Vec<R>,
    bridge: &Vec<R>,
    variances: &Vec<R>,
) -> (nodes: Vec<R>)
    ensures
        nodes@ == volatility_adjoints(m.model(), path@, bridge@, variances@),
{
    m.laws();
    let mut nodes: Vec<R> = Vec::new();
    let two = R::from(2u32);
    let mut i: usize = 0;
    while i < path.len() && i < bridge.len() && i < variances.len()
        invariant
            lawful::<R>(),
            two == literal::<R>(2),
            i <= lesser(lesser(path@.len(), bridge@.len()), variances@.len()),
            nodes@.len() == i,
            forall|k: int|
                0 <= k < i ==> #[trigger] nodes@[k] == volatility_adjoints(
                    m.model(),
                    path@,
                    bridge@,
                    variances@,
                )[k],
        decreases path@.len() - i,
    {
        nodes.push((path[i] + bridge[i]) * two * m.sqrt(variances[i]));
        i = i + 1;
    }
    assert(nodes@ =~= volatility_adjoints(m.model(), path@, bridge@, variances@));
    nodes
}

/// The entries of a row, as far as there are any.
pub open spec fn clipped<R>(nodes: Seq<R>, start: int, length: int) -> Seq<R> {
    if start >= nodes.len() {
        Seq::empty()
    } else if start + length <= nodes.len() {
        nodes.subrange(start, start + length)
    } else {
        nodes.subrange(start, nodes.len() as int)
    }
}

/// Copies the entries of a row.
fn clip<R: Scalar>(nodes: &Vec<R>, start: usize, length: usize) -> (row: Vec<R>)
    ensures
        row@ == clipped(nodes@, start as int, length as int),
{
    let mut row: Vec<R> = Vec::new();
    let mut i: usize = 0;
    while i < length && start < nodes.len() && i < nodes.len() - start
        invariant
            i <= length,
            start < nodes@.len() ==> i <= nodes@.len() - start,
            i > 0 ==> start < nodes@.len(),
            row@.len() == i,
            forall|k: int| 0 <= k < i ==> #[trigger] row@[k] == nodes@[start + k],
        decreases length - i,
    {
        row.push(nodes[start + i]);
        i = i + 1;
    }
    assert(row@ =~= clipped(nodes@, start as int, length as int));
    row
}

/// Entry by entry `a + b`, as far as `b` goes.
pub open spec fn added_prefix<R: Scalar>(a: Seq<R>, b: Seq<R>) -> Seq<R> {
    Seq::new(
        a.len(),
        |i: int|
            if i < b.len() {
                plus(a[i], b[i])
            } else {
                a[i]
            },
    )
}

/// Adds the entries of `b` to those of `a`, as far as both go.
pub fn add_prefix<R: Scalar, M: Math<R>>(m: &M, a: &mut Vec<R>, b: &Vec<R>)
    ensures
        final(a)@ == added_prefix(old(a)@, b@),
{
    m.laws();
    let ghost start = a@;
    let mut i: usize = 0;
    while i < a.len() && i < b.len()
        invariant
            lawful::<R>(),
            a@.len() == start.len(),
            i <= a@.len(),
            i <= b@.len(),
            forall|k: int| 0 <= k < i ==> #[trigger] a@[k] == plus(start[k], b@[k]),
            forall|k: int| i <= k < start.len() ==> #[trigger] a@[k] == start[k],
        decreases a@.len() - i,
    {
        let value = a[i] + b[i];
        a.set(i, value);
        i = i + 1;
    }
    assert(a@ =~= added_prefix(start, b@));
}

/// Makes `n` zeros.
pub fn make_zeros<R: Scalar, M: Math<R>>(m: &M, n: usize) -> (z: Vec<R>)
    ensures
        z@ == zeros::<R>(n as nat),
        z@.len() == n,
{
    m.laws();
    let zero = R::from(0u32);
    let mut z: Vec<R> = Vec::new();
    let mut i: usize = 0;
    while i < n
        invariant
            i <= n,
            zero == literal::<R>(0),
            z@.len() == i,
            forall|k: int| 0 <= k < i ==> #[trigger] z@[k] == literal::<R>(0),
        decreases n - i,
    {
        z.push(zero);
        i = i + 1;
    }
    assert(z@ =~= zeros::<R>(n as nat));
    z
}

/// The buckets of the first `k` maturities. A maturity of zero has none; each
/// other needs a density, a reporting row and a projection, in this order.
pub open spec fn buckets_after<R: Scalar, W: LocalVolPaths<R>>(
    w: W,
    lv: LocalVolPlan<R>,
    count: nat,
    nodes: Seq<R>,
    k: nat,
) -> Result<Seq<R>, MonteCarloError>
    decreases k,
{
    if k == 0 {
        Ok(zeros(count))
    } else {
        match buckets_after(w, lv, count, nodes, (k - 1) as nat) {
            Err(e) => Err(e),
            Ok(buckets) => {
                let maturity = lv.time_nodes@[k - 1];
                let row = clipped(nodes, (k - 1) * lv.row_length, lv.row_length as int);
                if same(maturity, literal(0)) {
                    Ok(buckets)
                } else {
                    match w.density_of(row) {
                        Err(e) => Err(e),
                        Ok(density) => match row_of(
                            lv.density_maturities@,
                            w.bits_of(maturity),
                            0,
                        ) {
                            None => Err(MonteCarloError::MismatchedLocalVolatilityReportingBasis),
                            Some(at) => match w.projection_of(at as usize, maturity, density) {
                                Err(e) => Err(e),
                                Ok(projected) => Ok(added_prefix(buckets, projected)),
                            },
                        },
                    }
                }
            },
        }
    }
}

/// A failure at one maturity is the failure of all.
proof fn buckets_stop<R: Scalar, W: LocalVolPaths<R>>(
    w: W,
    lv: LocalVolPlan<R>,
    count: nat,
    nodes: Seq<R>,
    k: nat,
    n: nat,
)
    requires
        k <= n,
        buckets_after(w, lv, count, nodes, k) is Err,
    ensures
        buckets_after(w, lv, count, nodes, n) == buckets_after(w, lv, count, nodes, k),
    decreases n,
{
    if k < n {
        buckets_stop(w, lv, count, nodes, k, (n - 1) as nat);
    }
}

/// Projects the adjoints of the local volatilities to the reporting buckets.
pub fn project_buckets<R: Scalar, M: Math<R>, W: LocalVolPaths<R>>(
    m: &M,
    w: &W,
    lv: &LocalVolPlan<R>,
    count: usize,
    nodes: &Vec<R>,
) -> (r: Result<Vec<R>, MonteCarloError>)
    requires
        lv.valid(),
    ensures
        seen(r) == buckets_after(*w, *lv, count as nat, nodes@, lv.time_nodes@.len()),
{
    m.laws();
    let zero = R::from(0u32);
    let mut buckets = make_zeros(m, count);
    let mut k: usize = 0;
    while k < lv.time_nodes.len()
        invariant
            lawful::<R>(),
            zero == literal::<R>(0),
            lv.valid(),
            k <= lv.time_nodes@.len(),
            buckets_after(*w, *lv, count as nat, nodes@, k as nat) == Ok::<
                Seq<R>,
                MonteCarloError,
            >(buckets@),
        decreases lv.time_nodes@.len() - k,
    {
        let ghost n = lv.time_nodes@.len();
        let maturity = lv.time_nodes[k];
        if !(maturity == zero) {
            assert(k * lv.row_length <= lv.time_nodes@.len() * lv.row_length) by (nonlinear_arith)
                requires
                    k <= lv.time_nodes@.len(),
                    0 <= lv.row_length,
            ;
            let row = clip(nodes, k * lv.row_length, lv.row_length);
            let density = match w.density(&row) {
                Err(e) => {
                    proof {
                        buckets_stop(*w, *lv, count as nat, nodes@, (k + 1) as nat, n);
                    }
                    return Err(e);
                },
                Ok(density) => density,
            };
            let at = match find_row(&lv.density_maturities, w.bits(maturity)) {
                None => {
                    proof {
                        buckets_stop(*w, *lv, count as nat, nodes@, (k + 1) as nat, n);
                    }
                    return Err(MonteCarloError::MismatchedLocalVolatilityReportingBasis);
                },
                Some(at) => at,
            };
            match w.projection(at, maturity, &density) {
                Err(e) => {
                    proof {
                        buckets_stop(*w, *lv, count as nat, nodes@, (k + 1) as nat, n);
                    }
                    return Err(e);
                },
                Ok(projected) => {
                    add_prefix(m, &mut buckets, &projected);
                },
            }
        }
        k = k + 1;
    }
    Ok(buckets)
}

/// The seeds of the states and of the grid.
pub ghost struct Seeds<R> {
    pub states: Seq<R>,
    pub grid: Seq<R>,
}

/// The seeds of a graph payoff: its terminal derivatives, then those before the
/// dividends. It has no bridges.
pub open spec fn graph_seeds<R: Scalar>(
    lv: LocalVolPlan<R>,
    observations: Seq<Observation<R>>,
    discount: R,
    payoff: GraphPayoff<R>,
    states: nat,
) -> Seeds<R> {
    Seeds {
        states: all_deposited(
            all_deposited(
                zeros(states),
                graph_deposits(lv, lv.slopes@, observations, discount, payoff.terminal_adjoints@),
            ),
            graph_deposits(
                lv,
                lv.pre_dividend_slopes@,
                observations,
                discount,
                payoff.pre_dividend_adjoints@,
            ),
        ),
        grid: zeros(lv.grid_values@.len()),
    }
}

/// The seed of the terminal state of a barrier.
pub open spec fn terminal_seed<R: Scalar>(
    lv: LocalVolPlan<R>,
    observations: Seq<Observation<R>>,
    discount: R,
    payoff: BarrierPayoff<R>,
    states: nat,
) -> Seq<R> {
    let at = lv.expiry_observation as int;
    if at < lv.slopes@.len() && lv.slopes@[at] is Some {
        deposited(
            zeros(states),
            Deposit {
                node: observations[at].node,
                amount: times(times(discount, payoff.terminal_derivative), lv.slopes@[at]->0),
            },
        )
    } else {
        zeros(states)
    }
}

/// The seeds of bridges under a seed of the survival: the states at their ends,
/// the smoothed hits, and the local variances at their nodes.
pub open spec fn bridge_seeds<R: Scalar, W: LocalVolPaths<R>>(
    w: W,
    lv: LocalVolPlan<R>,
    state: W::State,
    bridge: W::Bridge,
    start: Seq<R>,
    seed: R,
    hits: bool,
) -> Seeds<R> {
    let adjoints = w.bridge_adjoints(bridge, seed);
    let intervals = w.intervals_of(bridge);
    let ends = all_deposited(start, state_deposits(intervals, adjoints));
    let states = if hits {
        all_deposited(ends, w.hit_adjoints(bridge, seed))
    } else {
        ends
    };
    let variances = all_deposited(
        zeros(w.bridge_nodes_of(bridge) as nat),
        variance_deposits(intervals, adjoints),
    );
    Seeds {
        states: w.variance_states_of(state, bridge, variances, states),
        grid: w.variance_grid_of(state, bridge, variances, zeros(lv.grid_values@.len())),
    }
}

/// The seeds of a barrier. An exact barrier that an endpoint or a dividend jump
/// has touched has no bridge derivative.
pub open spec fn barrier_seeds<R: Scalar, W: LocalVolPaths<R>>(
    w: W,
    lv: LocalVolPlan<R>,
    observations: Seq<Observation<R>>,
    discount: R,
    state: W::State,
    bridge: W::Bridge,
    payoff: BarrierPayoff<R>,
) -> Seeds<R> {
    let start = terminal_seed(lv, observations, discount, payoff, w.states_of(state) as nat);
    let survival_seed = times(discount, payoff.survival_derivative);
    match w.shape_of(bridge) {
        BridgeShape::Exact { endpoint_touched, dividend_jump_touched } => if !endpoint_touched
            && !dividend_jump_touched {
            bridge_seeds(
                w,
                lv,
                state,
                bridge,
                start,
                times(survival_seed, w.survival_of(bridge)),
                false,
            )
        } else {
            Seeds { states: start, grid: zeros(lv.grid_values@.len()) }
        },
        BridgeShape::Smoothed => bridge_seeds(w, lv, state, bridge, start, survival_seed, true),
    }
}

/// Seeds a graph payoff.
fn seed_graph<R: Scalar, M: Math<R>>(
    m: &M,
    lv: &LocalVolPlan<R>,
    observations: &Vec<Observation<R>>,
    discount: R,
    payoff: &GraphPayoff<R>,
    states: usize,
) -> (r: (Vec<R>, Vec<R>))
    ensures
        graph_seeds(*lv, observations@, discount, *payoff, states as nat) == (Seeds {
            states: r.0@,
            grid: r.1@,
        }),
{
    let mut seeds = make_zeros(m, states);
    let terminal = list_graph_deposits(
        m,
        lv,
        &lv.slopes,
        observations,
        discount,
        &payoff.terminal_adjoints,
    );
    deposit_all(m, &mut seeds, &terminal);
    let pre = list_graph_deposits(
        m,
        lv,
        &lv.pre_dividend_slopes,
        observations,
        discount,
        &payoff.pre_dividend_adjoints,
    );
    deposit_all(m, &mut seeds, &pre);
    (seeds, make_zeros(m, lv.grid_values.len()))
}

/// Seeds bridges.
fn seed_bridge<R: Scalar, M: Math<R>, W: LocalVolPaths<R>>(
    m: &M,
    w: &W,
    lv: &LocalVolPlan<R>,
    state: &W::State,
    bridge: &W::Bridge,
    start: Vec<R>,
    seed: R,
    hits: bool,
) -> (r: (Vec<R>, Vec<R>))
    ensures
        bridge_seeds(*w, *lv, *state, *bridge, start@, seed, hits) == (Seeds {
            states: r.0@,
            grid: r.1@,
        }),
{
    let adjoints = w.bridge_reverse(bridge, seed);
    let intervals = w.bridge_intervals(bridge);
    let mut states = start;
    let ends = interval_deposits(&intervals, &adjoints, false);
    deposit_all(m, &mut states, &ends);
    if hits {
        let list = w.hit_reverse(bridge, seed);
        deposit_all(m, &mut states, &list);
    }
    let mut variances = make_zeros(m, w.bridge_node_count(bridge));
    let list = interval_deposits(&intervals, &adjoints, true);
    deposit_all(m, &mut variances, &list);
    let grid = make_zeros(m, lv.grid_values.len());
    (
        w.variance_states(state, bridge, &variances, &states),
        w.variance_grid(state, bridge, &variances, &grid),
    )
}

/// Seeds a barrier.
fn seed_barrier<R: Scalar, M: Math<R>, W: LocalVolPaths<R>>(
    m: &M,
    w: &W,
    lv: &LocalVolPlan<R>,
    observations: &Vec<Observation<R>>,
    discount: R,
    state: &W::State,
    bridge: &W::Bridge,
    payoff: &BarrierPayoff<R>,
) -> (r: (Vec<R>, Vec<R>))
    requires
        lv.expiry_observation < observations@.len(),
    ensures
        barrier_seeds(*w, *lv, observations@, discount, *state, *bridge, *payoff) == (Seeds {
            states: r.0@,
            grid: r.1@,
        }),
{
    m.laws();
    let mut start = make_zeros(m, w.state_count(state));
    if lv.expiry_observation < lv.slopes.len() {
        if let Some(b) = lv.slopes[lv.expiry_observation] {
            let node = observations[lv.expiry_observation].node;
            if node < start.len() {
                let value = start[node] + discount * payoff.terminal_derivative * b;
                start.set(node, value);
            }
        }
    }
    assert(start@ == terminal_seed(
        *lv,
        observations@,
        discount,
        *payoff,
        w.states_of(*state) as nat,
    ));
    let survival_seed = discount * payoff.survival_derivative;
    match w.bridge_shape(bridge) {
        BridgeShape::Exact { endpoint_touched, dividend_jump_touched } => {
            if !endpoint_touched && !dividend_jump_touched {
                let seed = survival_seed * w.survival(bridge);
                seed_bridge(m, w, lv, state, bridge, start, seed, false)
            } else {
                (start, make_zeros(m, lv.grid_values.len()))
            }
        },
        BridgeShape::Smoothed => seed_bridge(m, w, lv, state, bridge, start, survival_seed, true),
    }
}

/// The spots at the two ends of a bump.
#[derive(Clone, Copy, Debug, PartialEq)]
pub struct BumpSpots<R> {
    pub down_spot: R,
    pub up_spot: R,
    pub spot_bump: R,
}

/// What one path yields.
pub struct LocalVolPathwise<R> {
    pub values: Vec<R>,
    pub raw_buckets: Option<Vec<R>>,
}

/// What one path yields, with its vectors as sequences.
pub ghost struct Pathwise<R> {
    pub values: Seq<R>,
    pub raw_buckets: Option<Seq<R>>,
}

impl<R> LocalVolPathwise<R> {
    pub open spec fn seen(self) -> Pathwise<R> {
        Pathwise {
            values: self.values@,
            raw_buckets: match self.raw_buckets {
                Some(b) => Some(b@),
                None => None,
            },
        }
    }
}

/// The payoff of a path: of its barrier, or of the graph of its observations.
pub enum PathPayoff<R, B> {
    Barrier { bridge: B, payoff: BarrierPayoff<R> },
    Graph { payoff: GraphPayoff<R> },
}

/// The payoff of a path.
pub open spec fn path_payoff<R: Scalar, W: LocalVolPaths<R>>(
    w: W,
    plan: SimulationPlan<R>,
    lv: LocalVolPlan<R>,
    state: W::State,
    observations: Seq<Observation<R>>,
    selection: Option<ExerciseCashflowSelection<R>>,
) -> Result<PathPayoff<R, W::Bridge>, MonteCarloError> {
    if plan.continuous_barrier {
        match w.barrier_of(state, plan.spot) {
            Err(e) => Err(e),
            Ok(bridge) => Ok(
                PathPayoff::Barrier {
                    bridge,
                    payoff: w.barrier_payoff_of(
                        observations[lv.expiry_observation as int].post_spot,
                        w.survival_of(bridge),
                    ),
                },
            ),
        }
    } else {
        match w.graph_payoff_of(output_of(selection), fixings_of(lv, observations)) {
            Err(e) => Err(e),
            Ok(payoff) => Ok(PathPayoff::Graph { payoff }),
        }
    }
}

/// The output that is selected, where one is.
pub open spec fn output_of<R>(selection: Option<ExerciseCashflowSelection<R>>) -> Option<usize> {
    match selection {
        Some(s) => Some(s.output_index),
        None => None,
    }
}

/// The discount of the selected cash flow, or of the plan.
pub open spec fn discount_of<R>(
    plan: SimulationPlan<R>,
    selection: Option<ExerciseCashflowSelection<R>>,
) -> R {
    match selection {
        Some(s) => s.discount,
        None => plan.discount,
    }
}

/// The price of a path and what its bridges did, all else zero.
pub open spec fn price_values<R: Scalar, W: LocalVolPaths<R>>(
    w: W,
    payoff: PathPayoff<R, W::Bridge>,
    price: R,
) -> Seq<R> {
    let values = zeros(PATHWISE_COMPONENTS as nat).update(PRICE as int, price);
    match payoff {
        PathPayoff::Graph { .. } => values,
        PathPayoff::Barrier { bridge, .. } => {
            let c = w.bridge_counts_of(bridge);
            values.update(BARRIER_ENDPOINT_HIT as int, c.endpoint_hit).update(
                BARRIER_DIVIDEND_JUMP_HIT as int,
                c.dividend_jump_hit,
            ).update(BARRIER_BRIDGE_HIT_WEIGHT as int, c.bridge_hit_weight).update(
                BARRIER_INTERVAL_COUNT as int,
                c.interval_count,
            ).update(BARRIER_FINITE_CORRECTION_COUNT as int, c.finite_correction_count).update(
                BARRIER_ZERO_VARIANCE_COUNT as int,
                c.zero_variance_count,
            ).update(BARRIER_SURVIVAL_UNDERFLOW_COUNT as int, c.survival_underflow_count).update(
                BARRIER_CERTAIN_SURVIVAL_COUNT as int,
                c.certain_survival_count,
            )
        },
    }
}

/// The values with the vega, and the buckets where they were asked for.
pub open spec fn vega_values<R: Scalar, W: LocalVolPaths<R>>(
    m: Model<R>,
    w: W,
    lv: LocalVolPlan<R>,
    state: W::State,
    observations: Seq<Observation<R>>,
    discount: R,
    payoff: PathPayoff<R, W::Bridge>,
    values: Seq<R>,
) -> Result<Pathwise<R>, MonteCarloError> {
    let seeds = match payoff {
        PathPayoff::Barrier { bridge, payoff } => barrier_seeds(
            w,
            lv,
            observations,
            discount,
            state,
            bridge,
            payoff,
        ),
        PathPayoff::Graph { payoff } => graph_seeds(
            lv,
            observations,
            discount,
            payoff,
            w.states_of(state) as nat,
        ),
    };
    match w.variance_adjoints_of(state, seeds.states) {
        Err(e) => Err(e),
        Ok(adjoints) => {
            let nodes = volatility_adjoints(m, adjoints, seeds.grid, lv.grid_values@);
            let with_vega = values.update(VEGA as int, compensated_sum(m, nodes));
            match lv.buckets {
                None => Ok(Pathwise { values: with_vega, raw_buckets: None }),
                Some(count) => match buckets_after(
                    w,
                    lv,
                    count as nat,
                    nodes,
                    lv.time_nodes@.len(),
                ) {
                    Err(e) => Err(e),
                    Ok(b) => Ok(Pathwise { values: with_vega, raw_buckets: Some(b) }),
                },
            }
        },
    }
}

/// The values with the central differences over a bump of the spot: the delta,
/// and the gamma where it was asked for.
pub open spec fn bumped_values<R: Scalar>(
    values: Seq<R>,
    price: R,
    down: R,
    up: R,
    bump: R,
    gamma: bool,
) -> Seq<R> {
    let delta = over(minus(up, down), times(literal(2), bump));
    let with_delta = values.update(DELTA as int, delta).update(BUMP_DELTA as int, delta);
    if gamma {
        let second = over(
            plus(minus(up, times(literal(2), price)), down),
            times(bump, bump),
        );
        with_delta.update(GAMMA as int, second).update(BUMP_GAMMA as int, second)
    } else {
        with_delta
    }
}

/// What one path yields, or the first step that fails.
pub open spec fn pathwise_of<R: Scalar, W: LocalVolPaths<R>>(
    m: Model<R>,
    w: W,
    plan: SimulationPlan<R>,
    lv: LocalVolPlan<R>,
    bumps: Option<BumpSpots<R>>,
    shocks: Seq<R>,
    path: u64,
    selection: Option<ExerciseCashflowSelection<R>>,
) -> Result<Pathwise<R>, MonteCarloError> {
    match w.evolution(lv.has_dividends, plan.spot, shocks, path) {
        Err(e) => Err(e),
        Ok(state) => match w.observations_of(state, plan.spot) {
            Err(e) => Err(e),
            Ok(observations) => match path_payoff(w, plan, lv, state, observations, selection) {
                Err(e) => Err(e),
                Ok(payoff) => {
                    let discount = discount_of(plan, selection);
                    let price = times(
                        discount,
                        match payoff {
                            PathPayoff::Barrier { payoff, .. } => payoff.value,
                            PathPayoff::Graph { payoff } => payoff.value,
                        },
                    );
                    let values = price_values(w, payoff, price);
                    let first: Result<Pathwise<R>, MonteCarloError> = if plan.request_vega
                        || lv.buckets is Some {
                        vega_values(m, w, lv, state, observations, discount, payoff, values)
                    } else {
                        Ok(Pathwise { values, raw_buckets: None })
                    };
                    match first {
                        Err(e) => Err(e),
                        Ok(p) => match bumps {
                            None => Ok(p),
                            Some(bumps) => match w.bumped_payoff_of(
                                bumps.down_spot,
                                shocks,
                                path,
                                selection,
                            ) {
                                Err(e) => Err(e),
                                Ok(down) => match w.bumped_payoff_of(
                                    bumps.up_spot,
                                    shocks,
                                    path,
                                    selection,
                                ) {
                                    Err(e) => Err(e),
                                    Ok(up) => Ok(
                                        Pathwise {
                                            values: bumped_values(
                                                p.values,
                                                price,
                                                down,
                                                up,
                                                bumps.spot_bump,
                                                plan.request_gamma is Some,
                                            ),
                                            ..p
                                        },
                                    ),
                                },
                            },
                        },
                    }
                },
            },
        },
    }
}

/// Pays off a path.
fn pay_path<R: Scalar, W: LocalVolPaths<R>>(
    w: &W,
    plan: &SimulationPlan<R>,
    lv: &LocalVolPlan<R>,
    state: &W::State,
    observations: &Vec<Observation<R>>,
    selection: Option<ExerciseCashflowSelection<R>>,
) -> (r: Result<PathPayoff<R, W::Bridge>, MonteCarloError>)
    requires
        plan.continuous_barrier ==> lv.expiry_observation < observations@.len(),
    ensures
        r == path_payoff(*w, *plan, *lv, *state, observations@, selection),
{
    if plan.continuous_barrier {
        match w.barrier_bridge(state, plan.spot) {
            Err(e) => Err(e),
            Ok(bridge) => {
                let terminal = observations[lv.expiry_observation].post_spot;
                let payoff = w.barrier_payoff(terminal, w.survival(&bridge));
                Ok(PathPayoff::Barrier { bridge, payoff })
            },
        }
    } else {
        let output = match selection {
            Some(s) => Some(s.output_index),
            None => None,
        };
        match w.graph_payoff(output, &take_fixings(lv, observations)) {
            Err(e) => Err(e),
            Ok(payoff) => Ok(PathPayoff::Graph { payoff }),
        }
    }
}

/// Sets the price and what the bridges did.
fn set_price<R: Scalar, M: Math<R>, W: LocalVolPaths<R>>(
    m: &M,
    w: &W,
    payoff: &PathPayoff<R, W::Bridge>,
    price: R,
) -> (values: Vec<R>)
    ensures
        values@ == price_values(*w, *payoff, price),
        values@.len() == PATHWISE_COMPONENTS,
{
    let mut values = make_zeros(m, PATHWISE_COMPONENTS);
    values.set(PRICE, price);
    match payoff {
        PathPayoff::Graph { .. } => {},
        PathPayoff::Barrier { bridge, .. } => {
            let c = w.bridge_counts(bridge);
            values.set(BARRIER_ENDPOINT_HIT, c.endpoint_hit);
            values.set(BARRIER_DIVIDEND_JUMP_HIT, c.dividend_jump_hit);
            values.set(BARRIER_BRIDGE_HIT_WEIGHT, c.bridge_hit_weight);
            values.set(BARRIER_INTERVAL_COUNT, c.interval_count);
            values.set(BARRIER_FINITE_CORRECTION_COUNT, c.finite_correction_count);
            values.set(BARRIER_ZERO_VARIANCE_COUNT, c.zero_variance_count);
            values.set(BARRIER_SURVIVAL_UNDERFLOW_COUNT, c.survival_underflow_count);
            values.set(BARRIER_CERTAIN_SURVIVAL_COUNT, c.certain_survival_count);
        },
    }
    values
}

/// Sets the vega and projects it to the buckets.
fn set_vega<R: Scalar, M: Math<R>, W: LocalVolPaths<R>>(
    m: &M,
    w: &W,
    lv: &LocalVolPlan<R>,
    state: &W::State,
    observations: &Vec<Observation<R>>,
    discount: R,
    payoff: &PathPayoff<R, W::Bridge>,
    values: Vec<R>,
) -> (r: Result<LocalVolPathwise<R>, MonteCarloError>)
    requires
        lv.valid(),
        payoff is Barrier ==> lv.expiry_observation < observations@.len(),
        values@.len() == PATHWISE_COMPONENTS,
    ensures
        (match r {
            Ok(p) => Ok(p.seen()),
            Err(e) => Err(e),
        }) == vega_values(
            m.model(),
            *w,
            *lv,
            *state,
            observations@,
            discount,
            *payoff,
            values@,
        ),
        r matches Ok(p) ==> p.values@.len() == PATHWISE_COMPONENTS,
{
    let (states, grid) = match payoff {
        PathPayoff::Barrier { bridge, payoff } => seed_barrier(
            m,
            w,
            lv,
            observations,
            discount,
            state,
            bridge,
            payoff,
        ),
        PathPayoff::Graph { payoff } => seed_graph(
            m,
            lv,
            observations,
            discount,
            payoff,
            w.state_count(state),
        ),
    };
    let adjoints = match w.reverse_states(state, &states) {
        Err(e) => return Err(e),
        Ok(adjoints) => adjoints,
    };
    let nodes = take_volatility_adjoints(m, &adjoints, &grid, &lv.grid_values);
    let mut values = values;
    let vega = sum_compensated(m, nodes.as_slice());
    values.set(VEGA, vega);
    match lv.buckets {
        None => Ok(LocalVolPathwise { values, raw_buckets: None }),
        Some(count) => match project_buckets(m, w, lv, count, &nodes) {
            Err(e) => Err(e),
            Ok(b) => Ok(LocalVolPathwise { values, raw_buckets: Some(b) }),
        },
    }
}

impl<R: Scalar> SimulationPlan<R> {
    /// Evaluates one path: its price, its vega and buckets where they were asked
    /// for, and the differences over a bump of the spot where one is given.
    pub fn local_vol_pathwise_values_and_buckets_inner<M: Math<R>, W: LocalVolPaths<R>>(
        &self,
        m: &M,
        w: &W,
        lv: &LocalVolPlan<R>,
        bumps: Option<BumpSpots<R>>,
        shocks: &Vec<R>,
        path: u64,
        selection: Option<ExerciseCashflowSelection<R>>,
    ) -> (r: Result<LocalVolPathwise<R>, MonteCarloError>)
        requires
            lv.valid(),
            self.continuous_barrier ==> lv.expiry_observation < w.observations_expected(),
        ensures
            (match r {
                Ok(p) => Ok(p.seen()),
                Err(e) => Err(e),
            }) == pathwise_of(m.model(), *w, *self, *lv, bumps, shocks@, path, selection),
            r matches Ok(p) ==> p.values@.len() == PATHWISE_COMPONENTS,
    {
        m.laws();
        let state = match w.evolve(lv.has_dividends, self.spot, shocks, path) {
            Err(e) => return Err(e),
            Ok(state) => state,
        };
        let observations = match w.observe(&state, self.spot) {
            Err(e) => return Err(e),
            Ok(observations) => observations,
        };
        let payoff = match pay_path(w, self, lv, &state, &observations, selection) {
            Err(e) => return Err(e),
            Ok(payoff) => payoff,
        };
        let discount = match selection {
            Some(s) => s.discount,
            None => self.discount,
        };
        let value = match &payoff {
            PathPayoff::Barrier { payoff, .. } => payoff.value,
            PathPayoff::Graph { payoff } => payoff.value,
        };
        let price = discount * value;
        let values = set_price(m, w, &payoff, price);
        let mut pathwise = if self.request_vega || lv.buckets.is_some() {
            match set_vega(m, w, lv, &state, &observations, discount, &payoff, values) {
                Err(e) => return Err(e),
                Ok(p) => p,
            }
        } else {
            LocalVolPathwise { values, raw_buckets: None }
        };
        if let Some(bumps) = bumps {
            let bump = bumps.spot_bump;
            let down = match w.bumped_payoff(bumps.down_spot, shocks, path, selection) {
                Err(e) => return Err(e),
                Ok(down) => down,
            };
            let up = match w.bumped_payoff(bumps.up_spot, shocks, path, selection) {
                Err(e) => return Err(e),
                Ok(up) => up,
            };
            let two = R::from(2u32);
            let delta = (up - down) / (two * bump);
            pathwise.values.set(DELTA, delta);
            pathwise.values.set(BUMP_DELTA, delta);
            if self.request_gamma.is_some() {
                let gamma = (up - two * price + down) / (bump * bump);
                pathwise.values.set(GAMMA, gamma);
                pathwise.values.set(BUMP_GAMMA, gamma);
            }
        }
        Ok(pathwise)
    }

    /// Evaluates one path of a plan without early exercise.
    pub fn local_vol_pathwise_values_and_buckets<M: Math<R>, W: LocalVolPaths<R>>(
        &self,
        m: &M,
        w: &W,
        lv: &LocalVolPlan<R>,
        bumps: Option<BumpSpots<R>>,
        shocks: &Vec<R>,
        path: u64,
    ) -> (r: Result<LocalVolPathwise<R>, MonteCarloError>)
        requires
            lv.valid(),
            self.continuous_barrier ==> lv.expiry_observation < w.observations_expected(),
        ensures
            (match r {
                Ok(p) => Ok(p.seen()),
                Err(e) => Err(e),
            }) == pathwise_of(m.model(), *w, *self, *lv, bumps, shocks@, path, None),
            r matches Ok(p) ==> p.values@.len() == PATHWISE_COMPONENTS,
    {
        self.local_vol_pathwise_values_and_buckets_inner(m, w, lv, bumps, shocks, path, None)
    }

    /// Evaluates one path of a plan with the cash flow that its frozen exercise
    /// policy selects.
    pub fn local_vol_fixed_policy_pathwise_values<M: Math<R>, W: LocalVolPaths<R>>(
        &self,
        m: &M,
        w: &W,
        lv: &LocalVolPlan<R>,
        bumps: Option<BumpSpots<R>>,
        shocks: &Vec<R>,
        path: u64,
        selection: ExerciseCashflowSelection<R>,
    ) -> (r: Result<LocalVolPathwise<R>, MonteCarloError>)
        requires
            lv.valid(),
            self.continuous_barrier ==> lv.expiry_observation < w.observations_expected(),
        ensures
            (match r {
                Ok(p) => Ok(p.seen()),
                Err(e) => Err(e),
            }) == pathwise_of(
                m.model(),
                *w,
                *self,
                *lv,
                bumps,
                shocks@,
                path,
                Some(selection),
            ),
            r matches Ok(p) ==> p.values@.len() == PATHWISE_COMPONENTS,
    {
        self.local_vol_pathwise_values_and_buckets_inner(
            m,
            w,
            lv,
            bumps,
            shocks,
            path,
            Some(selection),
        )
    }
}

/// The price of a path does not depend on which risk was asked for beside it.
pub proof fn price_ignores_risk<R: Scalar, W: LocalVolPaths<R>>(
    m: Model<R>,
    w: W,
    plan: SimulationPlan<R>,
    other: SimulationPlan<R>,
    lv: LocalVolPlan<R>,
    bumps: Option<BumpSpots<R>>,
    shocks: Seq<R>,
    path: u64,
    selection: Option<ExerciseCashflowSelection<R>>,
)
    requires
        other.spot == plan.spot,
        other.discount == plan.discount,
        other.continuous_barrier == plan.continuous_barrier,
    ensures
        pathwise_of(m, w, plan, lv, bumps, shocks, path, selection) matches Ok(p) ==>
        pathwise_of(m, w, other, lv, None, shocks, path, selection) matches Ok(q) ==>
        p.values[PRICE as int] == q.values[PRICE as int],
{
}

/// Every bucketed report has the number of buckets that was asked for.
proof fn buckets_length<R: Scalar, W: LocalVolPaths<R>>(
    w: W,
    lv: LocalVolPlan<R>,
    count: nat,
    nodes: Seq<R>,
    k: nat,
)
    ensures
        buckets_after(w, lv, count, nodes, k) matches Ok(b) ==> b.len() == count,
    decreases k,
{
    if k > 0 {
        buckets_length(w, lv, count, nodes, (k - 1) as nat);
    }
}

/// A path yields all its quantities, and buckets exactly when they were asked
/// for.
pub proof fn pathwise_shape<R: Scalar, W: LocalVolPaths<R>>(
    m: Model<R>,
    w: W,
    plan: SimulationPlan<R>,
    lv: LocalVolPlan<R>,
    bumps: Option<BumpSpots<R>>,
    shocks: Seq<R>,
    path: u64,
    selection: Option<ExerciseCashflowSelection<R>>,
)
    ensures
        pathwise_of(m, w, plan, lv, bumps, shocks, path, selection) matches Ok(p) ==> {
            &&& p.values.len() == PATHWISE_COMPONENTS
            &&& match lv.buckets {
                None => p.raw_buckets is None,
                Some(count) => p.raw_buckets matches Some(b) && b.len() == count,
            }
        },
{
    assert forall|nodes: Seq<R>, count: nat|
        (#[trigger] buckets_after(w, lv, count, nodes, lv.time_nodes@.len())) matches Ok(b)
            ==> b.len() == count by {
        buckets_length(w, lv, count, nodes, lv.time_nodes@.len());
    }
}

} // verus!
