//! Dividends that are paid out of the spot: between dividends the amounts paid
//! so far accrue at the realised rate, and the spot is affine in the equity.

use crate::errors::{HullWhiteError, MonteCarloError};
use crate::paid_market::{PaidDividend, PaidMarket};
use crate::pathwise::make_zeros;
use crate::rates::{invalid_rate, rate_field};
use crate::reverse::SpotSeed;
use crate::sampling::zeros;
use crate::scalar::{
    all_finite, lawful, le, literal, lt, minus, negated, over, plus, same, times, Math, Model,
    Scalar,
};
use core::ops::Neg;
use vstd::prelude::*;

verus! {

/// The state of equity and rates at a node.
#[derive(Clone, Copy, Debug, PartialEq)]
pub struct HybridState<R> {
    pub normalized_equity: R,
    pub rate_factor: R,
    pub integrated_rate_factor: R,
}

/// The spots of a node: after its dividend, and before it where it has one.
#[derive(Clone, Copy, Debug, PartialEq)]
pub struct AffineSpot<R> {
    pub post: R,
    pub pre: Option<R>,
}

/// Dividends on a grid.
pub struct AffineDividendPlan<R> {
    pub grid: Vec<R>,
    pub log_carry: Vec<R>,
    pub rate_shift: Vec<R>,
    pub scales: Vec<R>,
    pub events: Vec<Option<PaidDividend<R>>>,
}

/// An [`AffineDividendPlan`] as a mathematical value.
pub ghost struct AffineView<R> {
    pub grid: Seq<R>,
    pub log_carry: Seq<R>,
    pub rate_shift: Seq<R>,
    pub scales: Seq<R>,
    pub events: Seq<Option<PaidDividend<R>>>,
}

impl<R> View for AffineDividendPlan<R> {
    type V = AffineView<R>;

    open spec fn view(&self) -> AffineView<R> {
        AffineView {
            grid: self.grid@,
            log_carry: self.log_carry@,
            rate_shift: self.rate_shift@,
            scales: self.scales@,
            events: self.events@,
        }
    }
}

impl<R> AffineView<R> {
    /// Every node has its carry, its scale and its dividend, if any.
    pub open spec fn valid(self) -> bool {
        &&& self.log_carry.len() == self.grid.len()
        &&& self.rate_shift.len() == self.grid.len()
        &&& self.scales.len() == self.grid.len()
        &&& self.events.len() == self.grid.len()
    }
}

/// The first time that is not finite, is below zero, or is not after the one
/// before it.
pub open spec fn first_disorder<R: Scalar>(m: Model<R>, grid: Seq<R>, i: int) -> Option<int>
    decreases grid.len() - i,
{
    if i >= grid.len() {
        None
    } else if !m.is_finite(grid[i]) || lt(grid[i], literal(0)) || (i > 0 && le(
        grid[i],
        grid[i - 1],
    )) {
        Some(i)
    } else {
        first_disorder(m, grid, i + 1)
    }
}

/// A time is one of the grid.
pub open spec fn on_grid<R: Scalar>(grid: Seq<R>, t: R) -> bool {
    exists|i: int| 0 <= i < grid.len() && same(#[trigger] grid[i], t)
}

/// The first dividend up to the last time that is not on the grid.
pub open spec fn first_missing<R: Scalar>(
    schedule: Seq<PaidDividend<R>>,
    grid: Seq<R>,
    i: int,
) -> Option<int>
    decreases schedule.len() - i,
{
    if i >= schedule.len() {
        None
    } else if le(schedule[i].ex_time, grid.last()) && !on_grid(grid, schedule[i].ex_time) {
        Some(i)
    } else {
        first_missing(schedule, grid, i + 1)
    }
}

/// The first dividend that is paid at a time.
pub open spec fn dividend_at<R: Scalar>(schedule: Seq<PaidDividend<R>>, t: R, i: int) -> Option<
    PaidDividend<R>,
>
    decreases schedule.len() - i,
{
    if i >= schedule.len() {
        None
    } else if same(schedule[i].ex_time, t) {
        Some(schedule[i])
    } else {
        dividend_at(schedule, t, i + 1)
    }
}

/// The share of the equity that is left after the dividends of the first `n`
/// nodes.
pub open spec fn share_after<R: Scalar>(schedule: Seq<PaidDividend<R>>, grid: Seq<R>, n: nat) -> R
    decreases n,
{
    if n == 0 {
        literal(1)
    } else {
        let before = share_after(schedule, grid, (n - 1) as nat);
        match dividend_at(schedule, grid[n - 1], 0) {
            Some(d) => times(before, minus(literal(1), d.beta)),
            None => before,
        }
    }
}

/// The first `n` nodes of the dividends on a grid.
pub open spec fn affine_nodes<R: Scalar, C: PaidMarket<R>>(
    m: Model<R>,
    c: C,
    grid: Seq<R>,
    n: nat,
) -> Result<AffineView<R>, MonteCarloError>
    decreases n,
{
    if n == 0 {
        Ok(
            AffineView {
                grid,
                log_carry: Seq::empty(),
                rate_shift: Seq::empty(),
                scales: Seq::empty(),
                events: Seq::empty(),
            },
        )
    } else {
        let t = grid[n - 1];
        match affine_nodes(m, c, grid, (n - 1) as nat) {
            Err(e) => Err(e),
            Ok(v) => match c.log_dividend_of(t) {
                Err(e) => Err(e),
                Ok(dividend) => match c.log_discount_of(t) {
                    Err(e) => Err(e),
                    Ok(discount) => {
                        let carry = minus(dividend, discount);
                        let scale = times(share_after(c.schedule_of(), grid, n), m.exp(carry));
                        if !m.is_finite(scale) || le(scale, literal(0)) {
                            Err(rate_field("affine_dividend_scale", (n - 1) as usize))
                        } else {
                            let shift = if n == 1 {
                                Ok(literal(0))
                            } else {
                                c.integrated_shift_of(grid[n - 2], t)
                            };
                            match shift {
                                Err(e) => Err(e),
                                Ok(shift) => Ok(
                                    AffineView {
                                        grid,
                                        log_carry: v.log_carry.push(carry),
                                        rate_shift: v.rate_shift.push(shift),
                                        scales: v.scales.push(scale),
                                        events: v.events.push(dividend_at(c.schedule_of(), t, 0)),
                                    },
                                ),
                            }
                        }
                    },
                },
            },
        }
    }
}

/// Dividends on a grid that starts at zero and holds every dividend up to its
/// end.
pub open spec fn affine_plan_of<R: Scalar, C: PaidMarket<R>>(
    m: Model<R>,
    c: C,
    grid: Seq<R>,
) -> Result<
    AffineView<R>,
    MonteCarloError,
> {
    if grid.len() < 2 || !same(grid[0], literal(0)) {
        Err(rate_field("affine_dividend_time_grid", 0))
    } else {
        match first_disorder(m, grid, 0) {
            Some(i) => Err(rate_field("affine_dividend_time_order", i as usize)),
            None => match first_missing(c.schedule_of(), grid, 0) {
                Some(i) => Err(rate_field("missing_affine_dividend_time", i as usize)),
                None => affine_nodes(m, c, grid, grid.len()),
            },
        }
    }
}

proof fn nodes_stop<R: Scalar, C: PaidMarket<R>>(m: Model<R>, c: C, grid: Seq<R>, a: nat, n: nat)
    requires
        a <= n,
        affine_nodes(m, c, grid, a) is Err,
    ensures
        affine_nodes(m, c, grid, n) == affine_nodes(m, c, grid, a),
    decreases n,
{
    if a < n {
        nodes_stop(m, c, grid, a, (n - 1) as nat);
    }
}

fn is_on_grid<R: Scalar, M: Math<R>>(m: &M, grid: &Vec<R>, t: R) -> (b: bool)
    ensures
        b == on_grid(grid@, t),
{
    m.laws();
    let mut i: usize = 0;
    while i < grid.len()
        invariant
            lawful::<R>(),
            i <= grid@.len(),
            forall|k: int| 0 <= k < i ==> !same(#[trigger] grid@[k], t),
        decreases grid@.len() - i,
    {
        if grid[i] == t {
            assert(same(grid@[i as int], t));
            return true;
        }
        i = i + 1;
    }
    false
}

fn find_dividend<R: Scalar, M: Math<R>>(m: &M, schedule: &Vec<PaidDividend<R>>, t: R) -> (d: Option<
    PaidDividend<R>,
>)
    ensures
        d == dividend_at(schedule@, t, 0),
{
    m.laws();
    let mut i: usize = 0;
    while i < schedule.len()
        invariant
            lawful::<R>(),
            i <= schedule@.len(),
            dividend_at(schedule@, t, 0) == dividend_at(schedule@, t, i as int),
        decreases schedule@.len() - i,
    {
        if schedule[i].ex_time == t {
            return Some(schedule[i]);
        }
        i = i + 1;
    }
    None
}

impl<R: Scalar> AffineDividendPlan<R> {
    /// Checks a grid against the dividends of a market.
    fn check_grid<M: Math<R>, C: PaidMarket<R>>(
        m: &M,
        c: &C,
        grid: &Vec<R>,
        schedule: &Vec<PaidDividend<R>>,
    ) -> (r: Option<MonteCarloError>)
        requires
            schedule@ == c.schedule_of(),
            grid@.len() >= 2,
        ensures
            r == (match first_disorder(m.model(), grid@, 0) {
                Some(i) => Some(rate_field("affine_dividend_time_order", i as usize)),
                None => match first_missing(schedule@, grid@, 0) {
                    Some(i) => Some(rate_field("missing_affine_dividend_time", i as usize)),
                    None => None,
                },
            }),
    {
        m.laws();
        let mut i: usize = 0;
        while i < grid.len()
            invariant
                lawful::<R>(),
                i <= grid@.len(),
                first_disorder(m.model(), grid@, 0) == first_disorder(
                    m.model(),
                    grid@,
                    i as int,
                ),
            decreases grid@.len() - i,
        {
            let t = grid[i];
            if !m.is_finite(t) || t < R::from(0u32) || (i > 0 && t <= grid[i - 1]) {
                return Some(invalid_rate("affine_dividend_time_order", i));
            }
            i = i + 1;
        }
        let horizon = grid[grid.len() - 1];
        let mut i: usize = 0;
        while i < schedule.len()
            invariant
                lawful::<R>(),
                i <= schedule@.len(),
                horizon == grid@.last(),
                first_disorder(m.model(), grid@, 0) is None,
                first_missing(schedule@, grid@, 0) == first_missing(
                    schedule@,
                    grid@,
                    i as int,
                ),
            decreases schedule@.len() - i,
        {
            let t = schedule[i].ex_time;
            if t <= horizon && !is_on_grid(m, grid, t) {
                return Some(invalid_rate("missing_affine_dividend_time", i));
            }
            i = i + 1;
        }
        None
    }

    /// Puts the dividends of a market on a grid.
    pub fn new<M: Math<R>, C: PaidMarket<R>>(m: &M, c: &C, grid: Vec<R>) -> (r: Result<
        AffineDividendPlan<R>,
        MonteCarloError,
    >)
        ensures
            (match r {
                Ok(p) => Ok(p@),
                Err(e) => Err(e),
            }) == affine_plan_of(m.model(), *c, grid@),
            r matches Ok(p) ==> p@.valid() && p@.grid.len() >= 2,
    {
        m.laws();
        if grid.len() < 2 || !(grid[0] == R::from(0u32)) {
            return Err(invalid_rate("affine_dividend_time_grid", 0));
        }
        let schedule = c.schedule();
        if let Some(e) = Self::check_grid(m, c, &grid, &schedule) {
            return Err(e);
        }
        let n = grid.len();
        let mut log_carry: Vec<R> = Vec::new();
        let mut rate_shift: Vec<R> = Vec::new();
        let mut scales: Vec<R> = Vec::new();
        let mut events: Vec<Option<PaidDividend<R>>> = Vec::new();
        let mut share = R::from(1u32);
        proof {
            assert(log_carry@ =~= Seq::empty());
            assert(rate_shift@ =~= Seq::empty());
            assert(scales@ =~= Seq::empty());
            assert(events@ =~= Seq::empty());
        }
        let mut i: usize = 0;
        while i < n
            invariant
                lawful::<R>(),
                i <= n,
                n == grid@.len(),
                2 <= n,
                same(grid@[0], literal(0)),
                schedule@ == c.schedule_of(),
                first_disorder(m.model(), grid@, 0) is None,
                first_missing(c.schedule_of(), grid@, 0) is None,
                share == share_after(c.schedule_of(), grid@, i as nat),
                log_carry@.len() == i,
                rate_shift@.len() == i,
                scales@.len() == i,
                events@.len() == i,
                affine_nodes(m.model(), *c, grid@, i as nat) == Ok::<
                    AffineView<R>,
                    MonteCarloError,
                >(
                    AffineView {
                        grid: grid@,
                        log_carry: log_carry@,
                        rate_shift: rate_shift@,
                        scales: scales@,
                        events: events@,
                    },
                ),
            decreases n - i,
        {
            proof {
                if affine_nodes(m.model(), *c, grid@, (i + 1) as nat) is Err {
                    nodes_stop(m.model(), *c, grid@, (i + 1) as nat, n as nat);
                }
            }
            let t = grid[i];
            let dividend = match c.log_dividend(t) {
                Err(e) => return Err(e),
                Ok(x) => x,
            };
            let discount = match c.log_discount(t) {
                Err(e) => return Err(e),
                Ok(x) => x,
            };
            let carry = dividend - discount;
            let event = find_dividend(m, &schedule, t);
            if let Some(d) = event {
                share = share * (R::from(1u32) - d.beta);
            }
            let scale = share * m.exp(carry);
            if !m.is_finite(scale) || scale <= R::from(0u32) {
                return Err(invalid_rate("affine_dividend_scale", i));
            }
            let shift = if i == 0 {
                R::from(0u32)
            } else {
                match c.integrated_shift(grid[i - 1], t) {
                    Err(e) => return Err(e),
                    Ok(x) => x,
                }
            };
            log_carry.push(carry);
            rate_shift.push(shift);
            scales.push(scale);
            events.push(event);
            i = i + 1;
        }
        Ok(AffineDividendPlan { grid, log_carry, rate_shift, scales, events })
    }

    /// The scale of a node after its dividend, or before it.
    pub fn scale<M: Math<R>>(&self, m: &M, node: usize, pre: bool) -> (x: R)
        requires
            self@.valid(),
            node < self@.grid.len(),
        ensures
            x == over(
                self@.scales[node as int],
                match self@.events[node as int] {
                    Some(d) => if pre {
                        minus(literal(1), d.beta)
                    } else {
                        literal(1)
                    },
                    None => literal(1),
                },
            ),
    {
        m.laws();
        let one = R::from(1u32);
        let divisor = match self.events[node] {
            Some(d) => if pre {
                one - d.beta
            } else {
                one
            },
            None => one,
        };
        self.scales[node] / divisor
    }
}

/// The spots of a path, its growth into each node, and what the amounts paid so
/// far have grown to before each node.
pub struct AffineDividendPath<R> {
    pub spots: Vec<AffineSpot<R>>,
    pub growth: Vec<R>,
    pub before_offsets: Vec<R>,
}

/// An [`AffineDividendPath`] as a mathematical value.
pub ghost struct AffinePathView<R> {
    pub spots: Seq<AffineSpot<R>>,
    pub growth: Seq<R>,
    pub before_offsets: Seq<R>,
}

impl<R> View for AffineDividendPath<R> {
    type V = AffinePathView<R>;

    open spec fn view(&self) -> AffinePathView<R> {
        AffinePathView {
            spots: self.spots@,
            growth: self.growth@,
            before_offsets: self.before_offsets@,
        }
    }
}

/// The realised growth into the node `i`.
pub open spec fn growth_of<R: Scalar>(
    m: Model<R>,
    p: AffineView<R>,
    states: Seq<HybridState<R>>,
    i: int,
) -> R {
    if i == 0 {
        literal(1)
    } else {
        m.exp(
            minus(
                plus(
                    plus(minus(p.log_carry[i], p.log_carry[i - 1]), p.rate_shift[i]),
                    states[i].integrated_rate_factor,
                ),
                states[i - 1].integrated_rate_factor,
            ),
        )
    }
}

/// What the amounts paid before the node `i` have grown to there.
pub open spec fn before_offset<R: Scalar>(
    m: Model<R>,
    p: AffineView<R>,
    states: Seq<HybridState<R>>,
    i: int,
) -> R
    decreases i, 0int,
{
    if i <= 0 {
        times(literal(0), growth_of(m, p, states, 0))
    } else {
        times(after_offset(m, p, states, i - 1), growth_of(m, p, states, i))
    }
}

/// The offset of the spot after the dividend of the node `i`.
pub open spec fn after_offset<R: Scalar>(
    m: Model<R>,
    p: AffineView<R>,
    states: Seq<HybridState<R>>,
    i: int,
) -> R
    decreases i, 1int,
{
    let before = before_offset(m, p, states, i);
    match p.events[i] {
        Some(d) => minus(times(minus(literal(1), d.beta), before), d.fixed_cash),
        None => before,
    }
}

/// The spots of the node `i`.
pub open spec fn affine_spot<R: Scalar>(
    m: Model<R>,
    p: AffineView<R>,
    states: Seq<HybridState<R>>,
    i: int,
) -> AffineSpot<R> {
    let post = plus(times(p.scales[i], states[i].normalized_equity), after_offset(m, p, states, i));
    AffineSpot {
        post,
        pre: match p.events[i] {
            Some(d) => Some(over(plus(post, d.fixed_cash), minus(literal(1), d.beta))),
            None => None,
        },
    }
}

/// A number above zero.
pub open spec fn above_zero<R: Scalar>(m: Model<R>, x: R) -> bool {
    m.is_finite(x) && !le(x, literal(0))
}

/// The failure of the node `i`: growth that is not positive, or a spot that is
/// not. No spot is floored.
pub open spec fn node_failure<R: Scalar>(
    m: Model<R>,
    p: AffineView<R>,
    states: Seq<HybridState<R>>,
    i: int,
) -> Option<MonteCarloError> {
    let spot = affine_spot(m, p, states, i);
    if !above_zero(m, growth_of(m, p, states, i)) {
        Some(rate_field("affine_dividend_realized_carry", i as usize))
    } else if !above_zero(m, spot.post) || (spot.pre matches Some(x) && !above_zero(m, x)) {
        Some(
            MonteCarloError::HullWhite(HullWhiteError::NonPositiveState { step: i as usize }),
        )
    } else {
        None
    }
}

/// The first failure of the nodes from `i` on.
pub open spec fn first_failure<R: Scalar>(
    m: Model<R>,
    p: AffineView<R>,
    states: Seq<HybridState<R>>,
    i: int,
) -> Option<MonteCarloError>
    decreases p.grid.len() - i,
{
    if i >= p.grid.len() {
        None
    } else {
        match node_failure(m, p, states, i) {
            Some(e) => Some(e),
            None => first_failure(m, p, states, i + 1),
        }
    }
}

/// The path of states.
pub open spec fn affine_path_of<R: Scalar>(
    m: Model<R>,
    p: AffineView<R>,
    states: Seq<HybridState<R>>,
) -> Result<AffinePathView<R>, MonteCarloError> {
    if states.len() != p.grid.len() {
        Err(rate_field("affine_dividend_state_shape", 0))
    } else {
        match first_failure(m, p, states, 0) {
            Some(e) => Err(e),
            None => Ok(
                AffinePathView {
                    spots: Seq::new(states.len(), |i: int| affine_spot(m, p, states, i)),
                    growth: Seq::new(states.len(), |i: int| growth_of(m, p, states, i)),
                    before_offsets: Seq::new(
                        states.len(),
                        |i: int| before_offset(m, p, states, i),
                    ),
                },
            ),
        }
    }
}

impl<R: Scalar> AffineDividendPlan<R> {
    /// Takes the spots of a path.
    pub fn record<M: Math<R>>(&self, m: &M, states: &Vec<HybridState<R>>) -> (r: Result<
        AffineDividendPath<R>,
        MonteCarloError,
    >)
        requires
            self@.valid(),
        ensures
            (match r {
                Ok(p) => Ok(p@),
                Err(e) => Err(e),
            }) == affine_path_of(m.model(), self@, states@),
            r matches Ok(p) ==> p@.spots.len() == self@.grid.len() && p@.growth.len()
                == self@.grid.len() && p@.before_offsets.len() == self@.grid.len(),
    {
        m.laws();
        let n = self.grid.len();
        if states.len() != n {
            return Err(invalid_rate("affine_dividend_state_shape", 0));
        }
        let zero = R::from(0u32);
        let mut spots: Vec<AffineSpot<R>> = Vec::new();
        let mut growth: Vec<R> = Vec::new();
        let mut before_offsets: Vec<R> = Vec::new();
        let mut offset = R::from(0u32);
        let mut i: usize = 0;
        while i < n
            invariant
                lawful::<R>(),
                zero == literal::<R>(0),
                self@.valid(),
                n == self@.grid.len(),
                states@.len() == n,
                i <= n,
                offset == (if i == 0 {
                    literal(0)
                } else {
                    after_offset(m.model(), self@, states@, i - 1)
                }),
                spots@.len() == i,
                growth@.len() == i,
                before_offsets@.len() == i,
                forall|k: int|
                    0 <= k < i ==> #[trigger] spots@[k] == affine_spot(
                        m.model(),
                        self@,
                        states@,
                        k,
                    ),
                forall|k: int|
                    0 <= k < i ==> #[trigger] growth@[k] == growth_of(
                        m.model(),
                        self@,
                        states@,
                        k,
                    ),
                forall|k: int|
                    0 <= k < i ==> #[trigger] before_offsets@[k] == before_offset(
                        m.model(),
                        self@,
                        states@,
                        k,
                    ),
                first_failure(m.model(), self@, states@, 0) == first_failure(
                    m.model(),
                    self@,
                    states@,
                    i as int,
                ),
            decreases n - i,
        {
            let state = states[i];
            let g = if i == 0 {
                R::from(1u32)
            } else {
                m.exp(
                    self.log_carry[i] - self.log_carry[i - 1] + self.rate_shift[i]
                        + state.integrated_rate_factor - states[i - 1].integrated_rate_factor,
                )
            };
            assert(g == growth_of(m.model(), self@, states@, i as int));
            if !m.is_finite(g) || g <= zero {
                return Err(invalid_rate("affine_dividend_realized_carry", i));
            }
            let before = offset * g;
            assert(before == before_offset(m.model(), self@, states@, i as int));
            let event = self.events[i];
            let after = match event {
                Some(d) => (R::from(1u32) - d.beta) * before - d.fixed_cash,
                None => before,
            };
            assert(after == after_offset(m.model(), self@, states@, i as int));
            let post = self.scales[i] * state.normalized_equity + after;
            let pre = match event {
                Some(d) => Some((post + d.fixed_cash) / (R::from(1u32) - d.beta)),
                None => None,
            };
            let spot = AffineSpot { post, pre };
            assert(spot == affine_spot(m.model(), self@, states@, i as int));
            let low = match pre {
                Some(x) => !m.is_finite(x) || x <= zero,
                None => false,
            };
            if !m.is_finite(post) || post <= zero || low {
                return Err(
                    MonteCarloError::HullWhite(HullWhiteError::NonPositiveState { step: i }),
                );
            }
            spots.push(spot);
            growth.push(g);
            before_offsets.push(before);
            offset = after;
            i = i + 1;
        }
        proof {
            assert(spots@ =~= Seq::new(
                states@.len(),
                |i: int| affine_spot(m.model(), self@, states@, i),
            ));
            assert(growth@ =~= Seq::new(
                states@.len(),
                |i: int| growth_of(m.model(), self@, states@, i),
            ));
            assert(before_offsets@ =~= Seq::new(
                states@.len(),
                |i: int| before_offset(m.model(), self@, states@, i),
            ));
        }
        Ok(AffineDividendPath { spots, growth, before_offsets })
    }
}

/// The adjoint of the spot after the dividend of a node, out of those of both
/// its spots.
pub open spec fn spot_total<R: Scalar>(
    m: Model<R>,
    event: Option<PaidDividend<R>>,
    seed: SpotSeed<R>,
    multiplier: R,
    i: int,
) -> Result<R, MonteCarloError> {
    let raw = match event {
        Some(d) => Ok(plus(seed.post, over(seed.pre, minus(literal(1), d.beta)))),
        None => if same(seed.pre, literal(0)) {
            Ok(seed.post)
        } else {
            Err(rate_field("unexpected_pre_dividend_adjoint", i as usize))
        },
    };
    match raw {
        Err(e) => Err(e),
        Ok(x) => {
            let total = times(x, multiplier);
            if m.is_finite(total) {
                Ok(total)
            } else {
                Err(rate_field("affine_dividend_adjoint_value", i as usize))
            }
        },
    }
}

/// The adjoints of equity, of the logarithm of the carry, and of the offset.
pub ghost struct AffineSweep<R> {
    pub equity: Seq<R>,
    pub carry: Seq<R>,
    pub offset: R,
}

/// The adjoints with the node `i`.
pub open spec fn affine_step<R: Scalar>(
    p: AffineView<R>,
    path: AffinePathView<R>,
    states: Seq<HybridState<R>>,
    w: AffineSweep<R>,
    total: R,
    i: int,
) -> AffineSweep<R> {
    let equity = times(total, p.scales[i]);
    let carried = w.carry.update(i, plus(w.carry[i], times(equity, states[i].normalized_equity)));
    let seed = plus(w.offset, total);
    let kept = match p.events[i] {
        Some(d) => times(seed, minus(literal(1), d.beta)),
        None => seed,
    };
    if i > 0 {
        let weight = times(kept, path.before_offsets[i]);
        let here = carried.update(i, plus(carried[i], weight));
        AffineSweep {
            equity: w.equity.update(i, equity),
            carry: here.update(i - 1, minus(here[i - 1], weight)),
            offset: times(kept, path.growth[i]),
        }
    } else {
        AffineSweep { equity: w.equity.update(i, equity), carry: carried, offset: kept }
    }
}

/// The adjoints out of the nodes from `i` on.
pub open spec fn affine_swept<R: Scalar>(
    m: Model<R>,
    p: AffineView<R>,
    path: AffinePathView<R>,
    states: Seq<HybridState<R>>,
    seeds: Seq<SpotSeed<R>>,
    multiplier: R,
    i: int,
) -> Result<AffineSweep<R>, MonteCarloError>
    decreases p.grid.len() - i,
{
    let n = p.grid.len();
    if i >= n {
        Ok(AffineSweep { equity: zeros(n), carry: zeros(n), offset: literal(0) })
    } else {
        match affine_swept(m, p, path, states, seeds, multiplier, i + 1) {
            Err(e) => Err(e),
            Ok(w) => match spot_total(m, p.events[i], seeds[i], multiplier, i) {
                Err(e) => Err(e),
                Ok(total) => Ok(affine_step(p, path, states, w, total, i)),
            },
        }
    }
}

/// The adjoints of equity and of the pillars of both curves.
pub struct AffineDividendAdjoints<R> {
    pub equity: Vec<R>,
    pub discount_log_df: Vec<R>,
    pub dividend_log_df: Vec<R>,
}

/// An [`AffineDividendAdjoints`] as a mathematical value.
pub ghost struct AffineAdjointsView<R> {
    pub equity: Seq<R>,
    pub discount_log_df: Seq<R>,
    pub dividend_log_df: Seq<R>,
}

impl<R> View for AffineDividendAdjoints<R> {
    type V = AffineAdjointsView<R>;

    open spec fn view(&self) -> AffineAdjointsView<R> {
        AffineAdjointsView {
            equity: self.equity@,
            discount_log_df: self.discount_log_df@,
            dividend_log_df: self.dividend_log_df@,
        }
    }
}

/// The adjoints of the pillars out of those of the carry at the first `n` times.
pub open spec fn pillars_after<R: Scalar, C: PaidMarket<R>>(
    c: C,
    grid: Seq<R>,
    carry: Seq<R>,
    n: nat,
) -> Result<(Seq<R>, Seq<R>), MonteCarloError>
    decreases n,
{
    if n == 0 {
        Ok((zeros(c.discount_pillars_of().len()), zeros(c.dividend_pillars_of().len())))
    } else {
        match pillars_after(c, grid, carry, (n - 1) as nat) {
            Err(e) => Err(e),
            Ok((discount, dividend)) => match c.discount_transposed(
                grid[n - 1],
                negated(carry[n - 1]),
                discount,
            ) {
                Err(e) => Err(e),
                Ok(d) => match c.dividend_transposed(grid[n - 1], carry[n - 1], dividend) {
                    Err(e) => Err(e),
                    Ok(q) => Ok((d, q)),
                },
            },
        }
    }
}

proof fn pillars_stop<R: Scalar, C: PaidMarket<R>>(
    c: C,
    grid: Seq<R>,
    carry: Seq<R>,
    a: nat,
    n: nat,
)
    requires
        a <= n,
        pillars_after(c, grid, carry, a) is Err,
    ensures
        pillars_after(c, grid, carry, n) == pillars_after(c, grid, carry, a),
    decreases n,
{
    if a < n {
        pillars_stop(c, grid, carry, a, (n - 1) as nat);
    }
}

proof fn affine_stops<R: Scalar>(
    m: Model<R>,
    p: AffineView<R>,
    path: AffinePathView<R>,
    states: Seq<HybridState<R>>,
    seeds: Seq<SpotSeed<R>>,
    multiplier: R,
    a: int,
    i: int,
)
    requires
        i <= a,
        affine_swept(m, p, path, states, seeds, multiplier, a) is Err,
    ensures
        affine_swept(m, p, path, states, seeds, multiplier, i) == affine_swept(
            m,
            p,
            path,
            states,
            seeds,
            multiplier,
            a,
        ),
    decreases a - i,
{
    if i < a {
        affine_stops(m, p, path, states, seeds, multiplier, a, i + 1);
    }
}

/// The adjoints of a path.
pub open spec fn affine_adjoints_of<R: Scalar, C: PaidMarket<R>>(
    m: Model<R>,
    c: C,
    p: AffineView<R>,
    path: AffinePathView<R>,
    states: Seq<HybridState<R>>,
    seeds: Seq<SpotSeed<R>>,
    multiplier: R,
) -> Result<AffineAdjointsView<R>, MonteCarloError> {
    let n = p.grid.len();
    if states.len() != n || seeds.len() != n || path.spots.len() != n {
        Err(rate_field("affine_dividend_adjoint_shape", 0))
    } else if !m.is_finite(multiplier) {
        Err(rate_field("affine_dividend_adjoint_multiplier", 0))
    } else {
        match affine_swept(m, p, path, states, seeds, multiplier, 0) {
            Err(e) => Err(e),
            Ok(w) => match pillars_after(c, p.grid, w.carry, n) {
                Err(e) => Err(e),
                Ok((discount, dividend)) => if m.all_finite(w.equity) && m.all_finite(discount)
                    && m.all_finite(dividend) {
                    Ok(
                        AffineAdjointsView {
                            equity: w.equity,
                            discount_log_df: discount,
                            dividend_log_df: dividend,
                        },
                    )
                } else {
                    Err(rate_field("affine_dividend_adjoint_result", 0))
                },
            },
        }
    }
}

impl<R: Scalar> AffineDividendPlan<R> {
    /// Takes the adjoints of equity and of the carry.
    fn sweep<M: Math<R>>(
        &self,
        m: &M,
        path: &AffineDividendPath<R>,
        states: &Vec<HybridState<R>>,
        seeds: &Vec<SpotSeed<R>>,
        multiplier: R,
    ) -> (r: Result<(Vec<R>, Vec<R>), MonteCarloError>)
        requires
            self@.valid(),
            states@.len() == self@.grid.len(),
            seeds@.len() == self@.grid.len(),
            path@.growth.len() == self@.grid.len(),
            path@.before_offsets.len() == self@.grid.len(),
        ensures
            match (
                r,
                affine_swept(m.model(), self@, path@, states@, seeds@, multiplier, 0),
            ) {
                (Ok((equity, carry)), Ok(w)) => equity@ == w.equity && carry@ == w.carry,
                (Err(a), Err(b)) => a == b,
                _ => false,
            },
            r matches Ok((equity, carry)) ==> equity@.len() == self@.grid.len() && carry@.len()
                == self@.grid.len(),
    {
        m.laws();
        let n = self.grid.len();
        let mut equity = make_zeros(m, n);
        let mut carry = make_zeros(m, n);
        let mut offset = R::from(0u32);
        let mut left: usize = n;
        while left > 0
            invariant
                lawful::<R>(),
                self@.valid(),
                n == self@.grid.len(),
                states@.len() == n,
                seeds@.len() == n,
                path@.growth.len() == n,
                path@.before_offsets.len() == n,
                left <= n,
                equity@.len() == n,
                carry@.len() == n,
                affine_swept(
                    m.model(),
                    self@,
                    path@,
                    states@,
                    seeds@,
                    multiplier,
                    left as int,
                ) == Ok::<AffineSweep<R>, MonteCarloError>(
                    AffineSweep { equity: equity@, carry: carry@, offset },
                ),
            decreases left,
        {
            let i: usize = left - 1;
            let ghost before = AffineSweep { equity: equity@, carry: carry@, offset };
            proof {
                if affine_swept(
                    m.model(),
                    self@,
                    path@,
                    states@,
                    seeds@,
                    multiplier,
                    i as int,
                ) is Err {
                    affine_stops(
                        m.model(),
                        self@,
                        path@,
                        states@,
                        seeds@,
                        multiplier,
                        i as int,
                        0,
                    );
                }
            }
            let seed = seeds[i];
            let raw = match self.events[i] {
                Some(d) => seed.post + seed.pre / (R::from(1u32) - d.beta),
                None => {
                    if !(seed.pre == R::from(0u32)) {
                        return Err(invalid_rate("unexpected_pre_dividend_adjoint", i));
                    }
                    seed.post
                },
            };
            let total = raw * multiplier;
            if !m.is_finite(total) {
                return Err(invalid_rate("affine_dividend_adjoint_value", i));
            }
            let here = total * self.scales[i];
            equity.set(i, here);
            let x = carry[i] + here * states[i].normalized_equity;
            carry.set(i, x);
            offset = offset + total;
            if let Some(d) = self.events[i] {
                offset = offset * (R::from(1u32) - d.beta);
            }
            if i > 0 {
                let weight = offset * path.before_offsets[i];
                let x = carry[i] + weight;
                carry.set(i, x);
                let x = carry[i - 1] - weight;
                carry.set(i - 1, x);
                offset = offset * path.growth[i];
            }
            proof {
                let want = affine_step(self@, path@, states@, before, total, i as int);
                assert(want.equity == equity@);
                assert(want.carry == carry@);
                assert(want.offset == offset);
            }
            left = i;
        }
        Ok((equity, carry))
    }

    /// Takes the adjoints of a path.
    pub fn reverse<M: Math<R>, C: PaidMarket<R>>(
        &self,
        m: &M,
        c: &C,
        path: &AffineDividendPath<R>,
        states: &Vec<HybridState<R>>,
        seeds: &Vec<SpotSeed<R>>,
        multiplier: R,
    ) -> (r: Result<AffineDividendAdjoints<R>, MonteCarloError>)
        requires
            self@.valid(),
            path@.growth.len() == path@.spots.len(),
            path@.before_offsets.len() == path@.spots.len(),
        ensures
            (match r {
                Ok(a) => Ok(a@),
                Err(e) => Err(e),
            }) == affine_adjoints_of(
                m.model(),
                *c,
                self@,
                path@,
                states@,
                seeds@,
                multiplier,
            ),
            r matches Ok(a) ==> a@.equity.len() == self@.grid.len() && a@.discount_log_df.len()
                == c.discount_pillars_of().len() && a@.dividend_log_df.len()
                == c.dividend_pillars_of().len(),
    {
        let n = self.grid.len();
        if states.len() != n || seeds.len() != n || path.spots.len() != n {
            return Err(invalid_rate("affine_dividend_adjoint_shape", 0));
        }
        if !m.is_finite(multiplier) {
            return Err(invalid_rate("affine_dividend_adjoint_multiplier", 0));
        }
        let (equity, carry) = match self.sweep(m, path, states, seeds, multiplier) {
            Err(e) => return Err(e),
            Ok(v) => v,
        };
        let mut discount_log_df = make_zeros(m, c.discount_pillars().len());
        let mut dividend_log_df = make_zeros(m, c.dividend_pillars().len());
        m.laws();
        let mut i: usize = 0;
        while i < n
            invariant
                lawful::<R>(),
                i <= n,
                n == self@.grid.len(),
                carry@.len() == n,
                discount_log_df@.len() == c.discount_pillars_of().len(),
                dividend_log_df@.len() == c.dividend_pillars_of().len(),
                states@.len() == n,
                seeds@.len() == n,
                path@.spots.len() == n,
                m.model().is_finite(multiplier),
                affine_swept(m.model(), self@, path@, states@, seeds@, multiplier, 0) matches Ok(w)
                    && w.equity == equity@ && w.carry == carry@,
                pillars_after(*c, self@.grid, carry@, i as nat) == Ok::<
                    (Seq<R>, Seq<R>),
                    MonteCarloError,
                >((discount_log_df@, dividend_log_df@)),
            decreases n - i,
        {
            proof {
                if pillars_after(*c, self@.grid, carry@, (i + 1) as nat) is Err {
                    pillars_stop(*c, self@.grid, carry@, (i + 1) as nat, n as nat);
                }
            }
            let seed = carry[i];
            let discount = match c.transpose_discount(self.grid[i], seed.neg(), &discount_log_df) {
                Err(e) => return Err(e),
                Ok(v) => v,
            };
            let dividend = match c.transpose_dividend(self.grid[i], seed, &dividend_log_df) {
                Err(e) => return Err(e),
                Ok(v) => v,
            };
            discount_log_df = discount;
            dividend_log_df = dividend;
            i = i + 1;
        }
        if !all_finite(m, equity.as_slice()) || !all_finite(m, discount_log_df.as_slice())
            || !all_finite(m, dividend_log_df.as_slice()) {
            return Err(invalid_rate("affine_dividend_adjoint_result", 0));
        }
        Ok(AffineDividendAdjoints { equity, discount_log_df, dividend_log_df })
    }
}

/// Every recorded spot is a finite number above zero, before and after its
/// dividend.
pub proof fn recorded_spots_are_positive<R: Scalar>(
    m: Model<R>,
    p: AffineView<R>,
    states: Seq<HybridState<R>>,
    i: int,
)
    requires
        0 <= i < p.grid.len(),
    ensures
        affine_path_of(m, p, states) matches Ok(path) ==> above_zero(m, path.spots[i].post) && (
        path.spots[i].pre matches Some(x) ==> above_zero(m, x)) && above_zero(m, path.growth[i]),
{
    if first_failure(m, p, states, 0) is None {
        no_failure_at(m, p, states, 0, i);
    }
}

proof fn no_failure_at<R: Scalar>(
    m: Model<R>,
    p: AffineView<R>,
    states: Seq<HybridState<R>>,
    a: int,
    i: int,
)
    requires
        0 <= a <= i < p.grid.len(),
        first_failure(m, p, states, a) is None,
    ensures
        node_failure(m, p, states, i) is None,
    decreases i - a,
{
    if a < i {
        no_failure_at(m, p, states, a + 1, i);
    }
}

/// A node has a spot before its dividend exactly where a dividend is paid.
pub proof fn recorded_dividends_have_two_spots<R: Scalar>(
    m: Model<R>,
    p: AffineView<R>,
    states: Seq<HybridState<R>>,
    i: int,
)
    requires
        0 <= i < p.grid.len(),
    ensures
        affine_path_of(m, p, states) matches Ok(path) ==> (path.spots[i].pre is Some
            <==> p.events[i] is Some),
{
}

/// Two markets with the same curves.
pub open spec fn curves_agree<R: Scalar, C: PaidMarket<R>, D: PaidMarket<R>>(c: C, d: D) -> bool {
    &&& forall|t: R| #[trigger] c.log_dividend_of(t) == d.log_dividend_of(t)
    &&& forall|t: R| #[trigger] c.log_discount_of(t) == d.log_discount_of(t)
    &&& forall|s: R, t: R| #[trigger] c.integrated_shift_of(s, t) == d.integrated_shift_of(s, t)
}

/// A dividend after the last time of a grid.
pub open spec fn after_grid<R: Scalar>(e: PaidDividend<R>, grid: Seq<R>) -> bool {
    !le(e.ex_time, grid.last()) && forall|i: int|
        0 <= i < grid.len() ==> !same(e.ex_time, #[trigger] grid[i])
}

proof fn later_dividend_is_not_paid<R: Scalar>(
    schedule: Seq<PaidDividend<R>>,
    e: PaidDividend<R>,
    t: R,
    i: int,
)
    requires
        0 <= i <= schedule.len(),
        !same(e.ex_time, t),
    ensures
        dividend_at(schedule.push(e), t, i) == dividend_at(schedule, t, i),
    decreases schedule.len() - i,
{
    if i < schedule.len() {
        later_dividend_is_not_paid(schedule, e, t, i + 1);
    } else {
        assert(dividend_at(schedule.push(e), t, i + 1) is None);
    }
}

proof fn later_dividend_is_not_missing<R: Scalar>(
    schedule: Seq<PaidDividend<R>>,
    e: PaidDividend<R>,
    grid: Seq<R>,
    i: int,
)
    requires
        0 <= i <= schedule.len(),
        after_grid(e, grid),
    ensures
        first_missing(schedule.push(e), grid, i) == first_missing(schedule, grid, i),
    decreases schedule.len() - i,
{
    if i < schedule.len() {
        later_dividend_is_not_missing(schedule, e, grid, i + 1);
    } else {
        assert(first_missing(schedule.push(e), grid, i + 1) is None);
    }
}

proof fn later_dividend_leaves_share<R: Scalar>(
    schedule: Seq<PaidDividend<R>>,
    e: PaidDividend<R>,
    grid: Seq<R>,
    n: nat,
)
    requires
        n <= grid.len(),
        after_grid(e, grid),
    ensures
        share_after(schedule.push(e), grid, n) == share_after(schedule, grid, n),
    decreases n,
{
    if n > 0 {
        later_dividend_leaves_share(schedule, e, grid, (n - 1) as nat);
        later_dividend_is_not_paid(schedule, e, grid[n - 1], 0);
    }
}

proof fn later_dividend_leaves_nodes<R: Scalar, C: PaidMarket<R>, D: PaidMarket<R>>(
    m: Model<R>,
    c: C,
    d: D,
    e: PaidDividend<R>,
    grid: Seq<R>,
    n: nat,
)
    requires
        n <= grid.len(),
        curves_agree(c, d),
        d.schedule_of() == c.schedule_of().push(e),
        after_grid(e, grid),
    ensures
        affine_nodes(m, d, grid, n) == affine_nodes(m, c, grid, n),
    decreases n,
{
    if n > 0 {
        let t = grid[n - 1];
        later_dividend_leaves_nodes(m, c, d, e, grid, (n - 1) as nat);
        later_dividend_leaves_share(c.schedule_of(), e, grid, n);
        later_dividend_is_not_paid(c.schedule_of(), e, t, 0);
        assert(c.log_dividend_of(t) == d.log_dividend_of(t));
        assert(c.log_discount_of(t) == d.log_discount_of(t));
        if n > 1 {
            assert(c.integrated_shift_of(grid[n - 2], t) == d.integrated_shift_of(grid[n - 2], t));
        }
    }
}

/// A dividend after the last time of a grid changes nothing of the plan on it: it
/// creates no reserve and moves no path.
pub proof fn future_dividends_do_not_matter<R: Scalar, C: PaidMarket<R>, D: PaidMarket<R>>(
    m: Model<R>,
    c: C,
    d: D,
    e: PaidDividend<R>,
    grid: Seq<R>,
)
    requires
        curves_agree(c, d),
        d.schedule_of() == c.schedule_of().push(e),
        after_grid(e, grid),
    ensures
        affine_plan_of(m, d, grid) == affine_plan_of(m, c, grid),
{
    later_dividend_is_not_missing(c.schedule_of(), e, grid, 0);
    later_dividend_leaves_nodes(m, c, d, e, grid, grid.len());
}

} // verus!
