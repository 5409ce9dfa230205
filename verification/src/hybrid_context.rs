//! What the derivatives of a plan of equity and rates need: the dividends that
//! its spots depend on, and where the coefficients of each node stand.

use crate::affine::AffineDividendPlan;
use crate::engine::EngineConfig;
use crate::errors::MonteCarloError;
use crate::hybrid_world::{
    fitting, flat_len, HullWhiteDividendNodeAdjoints, HybridWorld, NodeAdjointsView,
};
use crate::linear::{build, in_order, sort, views};
use crate::models::Fingerprint;
use crate::paid_market::{PaidDividend, PaidMarket};
use crate::pathwise::make_zeros;
use crate::sampling::{added, zeros};
use crate::scalar::{lawful, le, literal, plus, same, Math, Model, Scalar};
use vstd::prelude::*;

verus! {

/// The surface that a calibration made, and whether it kept its trace.
pub struct CalibrationSurface<R> {
    pub surface_times: Vec<R>,
    pub log_nodes: Vec<R>,
    pub retains_reverse_trace: bool,
}

/// Quotes of the market.
pub struct MarketIvSurface<R> {
    pub maturity_nodes: Vec<R>,
    pub log_moneyness_nodes: Vec<R>,
    pub implied_volatilities: Vec<R>,
}

/// The target of a calibration that may rest on quotes of the market.
pub struct HullWhiteLsvTarget<R> {
    pub market_iv_surface: Option<MarketIvSurface<R>>,
}

/// A compiled plan of equity and rates.
pub struct HullWhiteEquityPricingPlan<R> {
    pub engine: EngineConfig,
    /// The failure of the executor, if it could not be made.
    pub executor_failure: Option<MonteCarloError>,
    /// The failure of the quasi-random plan, if it could not be made.
    pub quasi_failure: Option<MonteCarloError>,
    /// The failure of the Brownian bridge, if it could not be made.
    pub bridge_failure: Option<MonteCarloError>,
    pub time_nodes: Vec<R>,
    pub random_factor_count: usize,
    pub risky_spot: R,
    pub payment_time: R,
    /// The payoff can be differentiated.
    pub risk_supported: bool,
    pub affine_dividends: Option<AffineDividendPlan<R>>,
    pub calibration: Option<CalibrationSurface<R>>,
    pub market_iv_target: Option<HullWhiteLsvTarget<R>>,
    /// The volatility is rough, without a calibration.
    pub direct_rough: bool,
    pub fingerprint: Fingerprint,
    pub scheme: &'static str,
    pub calibration_method: Option<&'static str>,
    pub calibration_seed: Option<u64>,
    pub cash_dividend_model: Option<&'static str>,
    pub aad_method: &'static str,
    pub market_iv_interpolation: &'static str,
}

/// Numbers without those that equal the one kept before.
pub open spec fn without_repeats<R: Scalar>(v: Seq<R>) -> Seq<R>
    decreases v.len(),
{
    if v.len() == 0 {
        v
    } else {
        let kept = without_repeats(v.drop_last());
        if kept.len() > 0 && same(v.last(), kept.last()) {
            kept
        } else {
            kept.push(v.last())
        }
    }
}

/// The times of dividends up to a time.
pub open spec fn times_until<R: Scalar>(schedule: Seq<PaidDividend<R>>, last: R) -> Seq<R>
    decreases schedule.len(),
{
    if schedule.len() == 0 {
        Seq::empty()
    } else {
        let before = times_until(schedule.drop_last(), last);
        if le(schedule.last().ex_time, last) {
            before.push(schedule.last().ex_time)
        } else {
            before
        }
    }
}

/// The times of a path with those of the dividends up to its last.
pub open spec fn augmented<R: Scalar>(
    m: Model<R>,
    schedule: Seq<PaidDividend<R>>,
    grid: Seq<R>,
) -> Seq<R> {
    without_repeats(in_order(m, grid + times_until(schedule, grid.last())))
}

/// The first node from `i` on at a time.
pub open spec fn node_at<R: Scalar>(m: Model<R>, nodes: Seq<R>, t: R, i: int) -> Option<
    usize,
>
    decreases nodes.len() - i,
{
    if i >= nodes.len() {
        None
    } else if !m.precedes(nodes[i], t) && !m.precedes(t, nodes[i]) {
        Some(i as usize)
    } else {
        node_at(m, nodes, t, i + 1)
    }
}

/// Every time has its node.
pub open spec fn covering<R: Scalar>(m: Model<R>, nodes: Seq<R>, grid: Seq<R>) -> bool {
    forall|i: int|
        0 <= i < grid.len() ==> node_at(m, nodes, #[trigger] grid[i], 0) is Some
}

/// Drops the numbers that equal the one kept before.
fn drop_repeats<R: Scalar, M: Math<R>>(m: &M, v: &Vec<R>) -> (s: Vec<R>)
    ensures
        s@ == without_repeats(v@),
{
    m.laws();
    let mut s: Vec<R> = Vec::new();
    let mut i: usize = 0;
    assert(v@.take(0) =~= Seq::empty());
    while i < v.len()
        invariant
            lawful::<R>(),
            i <= v@.len(),
            s@ == without_repeats(v@.take(i as int)),
        decreases v@.len() - i,
    {
        assert(v@.take(i + 1).drop_last() =~= v@.take(i as int));
        let n = s.len();
        if !(n > 0 && v[i] == s[n - 1]) {
            s.push(v[i]);
        }
        i = i + 1;
    }
    assert(v@.take(i as int) =~= v@);
    s
}

/// Makes the times of a path with those of the dividends up to its last.
fn augment<R: Scalar, M: Math<R>>(
    m: &M,
    schedule: &Vec<PaidDividend<R>>,
    grid: &Vec<R>,
) -> (v: Vec<R>)
    requires
        grid@.len() > 0,
    ensures
        v@ == augmented(m.model(), schedule@, grid@),
{
    m.laws();
    let n = grid.len();
    let last = grid[n - 1];
    let ghost own = |i: int| grid@[i];
    let all_at = |i: usize| -> (x: R)
        requires
            i < n,
        ensures
            x == own(i as int),
        { grid[i] };
    let mut all = build(
        n,
        all_at,
        Ghost(own),
    );
    assert(all@ =~= grid@ + times_until(schedule@.take(0), last));
    let mut i: usize = 0;
    while i < schedule.len()
        invariant
            lawful::<R>(),
            i <= schedule@.len(),
            all@ == grid@ + times_until(schedule@.take(i as int), last),
        decreases schedule@.len() - i,
    {
        assert(schedule@.take(i + 1).drop_last() =~= schedule@.take(i as int));
        let t = schedule[i].ex_time;
        if t <= last {
            all.push(t);
        }
        assert(all@ =~= grid@ + times_until(schedule@.take(i + 1), last));
        i = i + 1;
    }
    assert(schedule@.take(i as int) =~= schedule@);
    let sorted = sort(m, &all);
    drop_repeats(m, &sorted)
}

/// Finds the node at a time.
fn find_node<R: Scalar, M: Math<R>>(m: &M, nodes: &Vec<R>, t: R) -> (i: usize)
    requires
        node_at(m.model(), nodes@, t, 0) is Some,
    ensures
        node_at(m.model(), nodes@, t, 0) == Some(i),
        i < nodes@.len(),
{
    let mut i: usize = 0;
    while m.precedes(nodes[i], t) || m.precedes(t, nodes[i])
        invariant
            i < nodes@.len(),
            node_at(m.model(), nodes@, t, 0) is Some,
            node_at(m.model(), nodes@, t, 0) == node_at(m.model(), nodes@, t, i as int),
        decreases nodes@.len() - i,
    {
        assert(node_at(m.model(), nodes@, t, i as int) == node_at(m.model(), nodes@, t, i + 1));
        assert(nodes@.len() == nodes.len());
        i = i + 1;
    }
    i
}

/// Adjoints that are zero.
pub open spec fn zero_nodes<R: Scalar>(counts: Seq<usize>) -> Seq<NodeAdjointsView<R>> {
    Seq::new(
        counts.len(),
        |i: int|
            NodeAdjointsView {
                scale: literal(0),
                deterministic_reserve: literal(0),
                bond_amounts: zeros(counts[i] as nat),
            },
    )
}

/// Makes adjoints that are zero.
pub fn make_zero_nodes<R: Scalar, M: Math<R>>(m: &M, counts: &Vec<usize>) -> (v: Vec<
    HullWhiteDividendNodeAdjoints<R>,
>)
    ensures
        views(v@) == zero_nodes::<R>(counts@),
        fitting(views(v@), counts@),
{
    m.laws();
    let mut v: Vec<HullWhiteDividendNodeAdjoints<R>> = Vec::new();
    let mut i: usize = 0;
    while i < counts.len()
        invariant
            lawful::<R>(),
            i <= counts@.len(),
            v@.len() == i,
            forall|k: int| 0 <= k < i ==> (#[trigger] v@[k])@ == zero_nodes::<R>(counts@)[k],
        decreases counts@.len() - i,
    {
        v.push(
            HullWhiteDividendNodeAdjoints {
                scale: R::from(0u32),
                deterministic_reserve: R::from(0u32),
                bond_amounts: make_zeros(m, counts[i]),
            },
        );
        i = i + 1;
    }
    assert(views(v@) =~= zero_nodes::<R>(counts@));
    v
}

/// Node by node, the sum of adjoints.
pub open spec fn nodes_added<R: Scalar>(
    a: Seq<NodeAdjointsView<R>>,
    b: Seq<NodeAdjointsView<R>>,
) -> Seq<NodeAdjointsView<R>> {
    Seq::new(
        a.len(),
        |i: int|
            NodeAdjointsView {
                scale: plus(a[i].scale, b[i].scale),
                deterministic_reserve: plus(a[i].deterministic_reserve, b[i].deterministic_reserve),
                bond_amounts: added(a[i].bond_amounts, b[i].bond_amounts),
            },
    )
}

/// Adds adjoints, node by node.
pub fn add_nodes<R: Scalar, M: Math<R>>(
    m: &M,
    target: &Vec<HullWhiteDividendNodeAdjoints<R>>,
    source: &Vec<HullWhiteDividendNodeAdjoints<R>>,
) -> (v: Vec<HullWhiteDividendNodeAdjoints<R>>)
    requires
        target@.len() == source@.len(),
        forall|i: int|
            0 <= i < target@.len() ==> (#[trigger] target@[i])@.bond_amounts.len()
                == source@[i]@.bond_amounts.len(),
    ensures
        views(v@) == nodes_added(views(target@), views(source@)),
{
    m.laws();
    let ghost want = nodes_added(views(target@), views(source@));
    let mut v: Vec<HullWhiteDividendNodeAdjoints<R>> = Vec::new();
    let mut i: usize = 0;
    while i < target.len()
        invariant
            lawful::<R>(),
            i <= target@.len(),
            target@.len() == source@.len(),
            want == nodes_added(views(target@), views(source@)),
            forall|i: int|
                0 <= i < target@.len() ==> (#[trigger] target@[i])@.bond_amounts.len()
                    == source@[i]@.bond_amounts.len(),
            v@.len() == i,
            forall|k: int| 0 <= k < i ==> (#[trigger] v@[k])@ == want[k],
        decreases target@.len() - i,
    {
        let a = &target[i];
        let b = &source[i];
        let n = a.bond_amounts.len();
        assert(target@[i as int]@.bond_amounts.len() == source@[i as int]@.bond_amounts.len());
        let ghost sum = |k: int| added(a.bond_amounts@, b.bond_amounts@)[k];
        let bond_amounts_at = |k: usize| -> (x: R)
            requires
                k < n,
            ensures
                x == sum(k as int),
            {
                m.laws();
                a.bond_amounts[k] + b.bond_amounts[k]
            };
        let bond_amounts = build(
            n,
            bond_amounts_at,
            Ghost(sum),
        );
        assert(bond_amounts@ =~= added(a.bond_amounts@, b.bond_amounts@));
        v.push(
            HullWhiteDividendNodeAdjoints {
                scale: a.scale + b.scale,
                deterministic_reserve: a.deterministic_reserve + b.deterministic_reserve,
                bond_amounts,
            },
        );
        i = i + 1;
    }
    assert(views(v@) =~= want);
    v
}

/// What the derivatives of a plan need.
pub struct Context<D> {
    /// The dividends that the spots depend on, unless they are paid.
    pub dividends: Option<D>,
    /// The node of each time of the path.
    pub node_indices: Vec<usize>,
    /// The number of adjoints of what the spots are made of.
    pub coefficient_count: usize,
    pub leverage_count: usize,
    /// There is no calibration.
    pub is_bs: bool,
}

/// A [`Context`] as a mathematical value.
pub ghost struct HybridContextView<D> {
    pub dividends: Option<D>,
    pub node_indices: Seq<usize>,
    pub coefficient_count: nat,
    pub leverage_count: nat,
    pub is_bs: bool,
}

impl<D> View for Context<D> {
    type V = HybridContextView<D>;

    open spec fn view(&self) -> HybridContextView<D> {
        HybridContextView {
            dividends: self.dividends,
            node_indices: self.node_indices@,
            coefficient_count: self.coefficient_count as nat,
            leverage_count: self.leverage_count as nat,
            is_bs: self.is_bs,
        }
    }
}

impl<D> HybridContextView<D> {
    /// The number of quantities of a path: its payoff, the adjoints of the spot
    /// and of the volatility, those of what the spots are made of, and those of
    /// the leverage.
    pub open spec fn width(self) -> nat {
        3 + self.coefficient_count + self.leverage_count
    }
}

/// Quotes of the market come with a calibration, and each has its adjoint.
pub open spec fn quotes_belong<R: Scalar, W: HybridWorld<R>>(
    w: W,
    plan: HullWhiteEquityPricingPlan<R>,
) -> bool {
    plan.market_iv_target matches Some(t) ==> {
        &&& plan.calibration is Some
        &&& t.market_iv_surface matches Some(s) && s.implied_volatilities@.len()
            == w.quote_count_of()
    }
}

impl<R: Scalar> HullWhiteEquityPricingPlan<R> {
    /// The number of nodes of the leverage surface.
    pub open spec fn leverage(self) -> nat {
        match self.calibration {
            Some(c) => c.surface_times@.len() * c.log_nodes@.len(),
            None => 0,
        }
    }

    /// The parts of the plan belong together.
    pub open spec fn valid<W: HybridWorld<R>, C: PaidMarket<R>>(
        self,
        m: Model<R>,
        w: W,
        c: C,
    ) -> bool {
        &&& self.time_nodes@.len() == w.time_count_of()
        &&& self.time_nodes@.len() > 0
        &&& self.random_factor_count * (self.time_nodes@.len() - 1) <= usize::MAX
        &&& (self.engine.reduction().brownian_bridge ==> self.time_nodes@.len() > 1)
        &&& (self.engine matches EngineConfig::RandomizedQuasiMonteCarlo(q) ==> 0
            < q.scramble_count)
        &&& self.leverage() == w.leverage_count_of()
        &&& quotes_belong(w, self)
        &&& c.discount_pillars_of().len() == w.discount_count_of()
        &&& c.dividend_pillars_of().len() == w.dividend_count_of()
        &&& 3 + w.discount_count_of() + w.dividend_count_of() + w.leverage_count_of() <= usize::MAX
        &&& match self.affine_dividends {
            Some(d) => d@.valid() && w.path_dividends_of() is None,
            None => match w.path_dividends_of() {
                Some(d) => covering(m, w.node_times_of(d), self.time_nodes@),
                None => covering(
                    m,
                    augmented(m, c.schedule_of(), self.time_nodes@),
                    self.time_nodes@,
                ),
            },
        }
    }
}

/// The node of each time.
pub open spec fn node_places<R: Scalar>(
    m: Model<R>,
    nodes: Seq<R>,
    grid: Seq<R>,
) -> Seq<usize> {
    Seq::new(
        grid.len(),
        |i: int|
            match node_at(m, nodes, grid[i], 0) {
                Some(k) => k,
                None => 0,
            },
    )
}

/// The dividends that the spots of a plan depend on: those of its path, or else
/// those of the market on its times and on the times of the dividends.
pub open spec fn spot_dividends<R: Scalar, W: HybridWorld<R>, C: PaidMarket<R>>(
    m: Model<R>,
    w: W,
    c: C,
    grid: Seq<R>,
) -> Result<W::Dividends, MonteCarloError> {
    match w.path_dividends_of() {
        Some(d) => Ok(d),
        None => w.dividends_made(augmented(m, c.schedule_of(), grid)),
    }
}

/// What the derivatives of a plan need.
pub open spec fn hybrid_context<R: Scalar, W: HybridWorld<R>, C: PaidMarket<R>>(
    m: Model<R>,
    w: W,
    c: C,
    plan: HullWhiteEquityPricingPlan<R>,
) -> Result<HybridContextView<W::Dividends>, MonteCarloError> {
    if plan.affine_dividends is Some {
        Ok(
            HybridContextView {
                dividends: None,
                node_indices: Seq::empty(),
                coefficient_count: c.discount_pillars_of().len() + c.dividend_pillars_of().len(),
                leverage_count: plan.leverage(),
                is_bs: plan.calibration is None,
            },
        )
    } else {
        match spot_dividends(m, w, c, plan.time_nodes@) {
            Err(e) => Err(e),
            Ok(d) => Ok(
                HybridContextView {
                    dividends: Some(d),
                    node_indices: node_places(m, w.node_times_of(d), plan.time_nodes@),
                    coefficient_count: flat_len(w.bond_counts_of(d)),
                    leverage_count: plan.leverage(),
                    is_bs: plan.calibration is None,
                },
            ),
        }
    }
}

/// The context belongs to a plan.
pub open spec fn context_fits<R: Scalar, W: HybridWorld<R>>(
    w: W,
    plan: HullWhiteEquityPricingPlan<R>,
    k: HybridContextView<W::Dividends>,
) -> bool {
    &&& k.leverage_count == w.leverage_count_of()
    &&& k.width() <= usize::MAX
    &&& k.is_bs == (plan.calibration is None)
    &&& match k.dividends {
        None => plan.affine_dividends is Some && k.coefficient_count == w.discount_count_of()
            + w.dividend_count_of(),
        Some(d) => {
            &&& plan.affine_dividends is None
            &&& k.coefficient_count == flat_len(w.bond_counts_of(d))
            &&& w.bond_counts_of(d).len() == w.node_times_of(d).len()
            &&& k.node_indices.len() == plan.time_nodes@.len()
            &&& forall|i: int|
                0 <= i < k.node_indices.len() ==> (#[trigger] k.node_indices[i]) < w.node_times_of(
                    d,
                ).len()
            &&& (w.path_dividends_of() matches Some(e) ==> d == e)
        },
    }
}

/// Counts the coefficients of nodes.
fn count_coefficients(counts: &Vec<usize>) -> (n: usize)
    requires
        flat_len(counts@) <= usize::MAX,
    ensures
        n == flat_len(counts@),
{
    let mut n: usize = 0;
    let mut i: usize = 0;
    assert(counts@.take(0) =~= Seq::empty());
    while i < counts.len()
        invariant
            i <= counts@.len(),
            n == flat_len(counts@.take(i as int)),
            flat_len(counts@) <= usize::MAX,
        decreases counts@.len() - i,
    {
        proof {
            assert(counts@.take(i + 1).drop_last() =~= counts@.take(i as int));
            flat_len_grows(counts@, i + 1);
        }
        n = n + 2 + counts[i];
        i = i + 1;
    }
    assert(counts@.take(i as int) =~= counts@);
    n
}

/// Fewer nodes have no more coefficients.
pub proof fn flat_len_grows(counts: Seq<usize>, n: int)
    requires
        0 <= n <= counts.len(),
    ensures
        flat_len(counts.take(n)) <= flat_len(counts),
        n < counts.len() ==> flat_len(counts.take(n)) + 2 + counts[n] <= flat_len(counts),
    decreases counts.len(),
{
    if n == counts.len() {
        assert(counts.take(n) =~= counts);
    } else {
        let shorter = counts.drop_last();
        flat_len_grows(shorter, n);
        assert(shorter.take(n) =~= counts.take(n));
        if n == shorter.len() {
            assert(counts.take(n) =~= shorter);
        }
    }
}

impl<D> Context<D> {
    /// Prepares the derivatives of a plan.
    pub fn new<R: Scalar, M: Math<R>, W: HybridWorld<R, Dividends = D>, C: PaidMarket<R>>(
        m: &M,
        w: &W,
        c: &C,
        plan: &HullWhiteEquityPricingPlan<R>,
    ) -> (r: Result<Context<D>, MonteCarloError>)
        requires
            plan.valid(m.model(), *w, *c),
        ensures
            (match r {
                Ok(k) => Ok(k@),
                Err(e) => Err(e),
            }) == hybrid_context(m.model(), *w, *c, *plan),
            r matches Ok(k) ==> context_fits(*w, *plan, k@),
    {
        let leverage_count: usize = match &plan.calibration {
            Some(s) => s.surface_times.len() * s.log_nodes.len(),
            None => 0,
        };
        let is_bs = plan.calibration.is_none();
        if plan.affine_dividends.is_some() {
            let coefficient_count = c.discount_pillars().len() + c.dividend_pillars().len();
            let k = Context {
                dividends: None,
                node_indices: Vec::new(),
                coefficient_count,
                leverage_count,
                is_bs,
            };
            assert(k@.node_indices =~= Seq::empty());
            return Ok(k);
        }
        let dividends = match w.path_dividends() {
            Some(d) => d,
            None => {
                let schedule = c.schedule();
                let all = augment(m, &schedule, &plan.time_nodes);
                match w.dividends_on(&all) {
                    Err(e) => return Err(e),
                    Ok(d) => d,
                }
            },
        };
        let nodes = w.node_times(&dividends);
        let counts = w.bond_counts(&dividends);
        let mut node_indices: Vec<usize> = Vec::new();
        let mut i: usize = 0;
        while i < plan.time_nodes.len()
            invariant
                i <= plan.time_nodes@.len(),
                covering(m.model(), nodes@, plan.time_nodes@),
                node_indices@.len() == i,
                forall|k: int|
                    0 <= k < i ==> #[trigger] node_indices@[k] < nodes@.len() && node_indices@[k]
                        == node_places(m.model(), nodes@, plan.time_nodes@)[k],
            decreases plan.time_nodes@.len() - i,
        {
            let t = plan.time_nodes[i];
            assert(node_at(m.model(), nodes@, plan.time_nodes@[i as int], 0) is Some);
            let k = find_node(m, &nodes, t);
            node_indices.push(k);
            i = i + 1;
        }
        assert(node_indices@ =~= node_places(m.model(), nodes@, plan.time_nodes@));
        let coefficient_count = count_coefficients(&counts);
        Ok(
            Context {
                dividends: Some(dividends),
                node_indices,
                coefficient_count,
                leverage_count,
                is_bs,
            },
        )
    }

    /// The number of quantities of a path.
    pub fn width(&self) -> (n: usize)
        requires
            self@.width() <= usize::MAX,
        ensures
            n == self@.width(),
    {
        3 + self.coefficient_count + self.leverage_count
    }
}

} // verus!
