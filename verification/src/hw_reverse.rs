//! The derivatives of a path with stochastic rates with respect to the spot, the
//! volatility, the dividend model, the means of the cash and both curves. Rates
//! and correlations are held fixed.

use crate::dynamics::DividendDynamics;
use crate::errors::{invalid, invalid_field, MonteCarloError};
use crate::hw_cash::CashInputs;
use crate::hw_cash_risk::{cash_coefficient_jacobian, cash_jacobian};
use crate::hw_path::{
    claim_value, claims_within, initial_state, node_growth, projection, CashClaim, RatePathView,
    StochasticDividendHullWhitePathPlan, StochasticDividendHullWhiteState,
};
use crate::hybrid_aad::{append, taken};
use crate::hybrid_risk::{copied, indexed, push_indexed};
use crate::linear::{build, collect_views, rows_seen, take_total, total, viewed, views};
use crate::pathwise::make_zeros;
use crate::rate_market::{MixedEvent, RateMarket};
use crate::rates::{HullWhite1Factor, RatesView};
use crate::results::{gather, gather_values, seen};
use crate::reverse::{are_seeds_finite, seeds_finite, Label, SpotSeed};
use crate::sampling::{half, zeros};
use crate::scalar::{
    all_finite, lawful, literal, minus, negated, plus, same, times, Math, Model, Scalar,
};
use core::ops::Neg;
use vstd::prelude::*;

verus! {

/// How a claim depends on the dividend model: what a unit of its mean is worth
/// with its carry, and the derivatives of its coefficients.
pub struct ClaimJacobian<R> {
    pub unit: R,
    pub rows: Vec<Vec<R>>,
}

/// A [`ClaimJacobian`] as a mathematical value.
pub ghost struct ClaimJacobianView<R> {
    pub unit: R,
    pub rows: Seq<Seq<R>>,
}

impl<R> View for ClaimJacobian<R> {
    type V = ClaimJacobianView<R>;

    open spec fn view(&self) -> ClaimJacobianView<R> {
        ClaimJacobianView { unit: self.unit, rows: rows_seen(self.rows@) }
    }
}

/// Four rows of three.
pub open spec fn four_by_three<R>(rows: Seq<Seq<R>>) -> bool {
    rows.len() == 4 && forall|i: int| 0 <= i < 4 ==> (#[trigger] rows[i]).len() == 3
}

/// Adjoints of the parameters: of the spot, the volatility, the dividend model and
/// the means of the cash, of the discount curve, and of the repo-spread curve.
#[verifier::ext_equal]
pub ghost struct Adjoints<R> {
    pub head: Seq<R>,
    pub discount: Seq<R>,
    pub repo: Seq<R>,
}

impl<R> Adjoints<R> {
    /// All adjoints, one after the other.
    pub open spec fn all(self) -> Seq<R> {
        self.head + self.discount + self.repo
    }

    /// There are so many of each.
    pub open spec fn sized(self, head: nat, discount: nat, repo: nat) -> bool {
        self.head.len() == head && self.discount.len() == discount && self.repo.len() == repo
    }
}

/// [`Adjoints`] as they are accumulated.
pub struct AdjointTable<R> {
    pub head: Vec<R>,
    pub discount: Vec<R>,
    pub repo: Vec<R>,
}

impl<R> View for AdjointTable<R> {
    type V = Adjoints<R>;

    open spec fn view(&self) -> Adjoints<R> {
        Adjoints { head: self.head@, discount: self.discount@, repo: self.repo@ }
    }
}

/// An adjoint with something added.
pub open spec fn bumped<R: Scalar>(v: Seq<R>, i: int, x: R) -> Seq<R> {
    v.update(i, plus(v[i], x))
}

/// Adjoints with those of both curves at a time.
pub open spec fn with_curves<R: Scalar, C: RateMarket<R>>(
    c: C,
    w: Adjoints<R>,
    t: R,
    discount: R,
    repo: R,
) -> Result<Adjoints<R>, MonteCarloError> {
    match c.discount_transposed(t, discount, w.discount) {
        Err(e) => Err(e),
        Ok(d) => match c.repo_spread_transposed(t, repo, w.repo) {
            Err(e) => Err(e),
            Ok(q) => Ok(Adjoints { head: w.head, discount: d, repo: q }),
        },
    }
}

impl<R: Scalar> AdjointTable<R> {
    fn bump<M: Math<R>>(&mut self, m: &M, i: usize, x: R)
        requires
            i < old(self)@.head.len(),
        ensures
            final(self)@.head == bumped(old(self)@.head, i as int, x),
            final(self)@.discount == old(self)@.discount,
            final(self)@.repo == old(self)@.repo,
    {
        m.laws();
        let y = self.head[i] + x;
        self.head.set(i, y);
    }

    fn add_curves<C: RateMarket<R>>(&mut self, c: &C, t: R, discount: R, repo: R) -> (r: Result<
        (),
        MonteCarloError,
    >)
        ensures
            match r {
                Ok(()) => with_curves(*c, old(self)@, t, discount, repo) == Ok::<
                    Adjoints<R>,
                    MonteCarloError,
                >(final(self)@),
                Err(e) => with_curves(*c, old(self)@, t, discount, repo) == Err::<
                    Adjoints<R>,
                    MonteCarloError,
                >(e),
            },
            final(self)@.sized(
                old(self)@.head.len(),
                old(self)@.discount.len(),
                old(self)@.repo.len(),
            ),
    {
        let d = match c.transpose_discount(t, discount, &self.discount) {
            Err(e) => return Err(e),
            Ok(v) => v,
        };
        let q = match c.transpose_repo_spread(t, repo, &self.repo) {
            Err(e) => return Err(e),
            Ok(v) => v,
        };
        self.discount = d;
        self.repo = q;
        Ok(())
    }
}

/// How a claim depends on the dividend model.
pub open spec fn claim_jacobian<R: Scalar, Y: DividendDynamics<R>, C: RateMarket<R>>(
    m: Model<R>,
    y: Y,
    c: C,
    rates: RatesView<R>,
    x: CashInputs<R>,
    t: R,
    maturity: R,
    claim: CashClaim<R>,
) -> Result<ClaimJacobianView<R>, MonteCarloError> {
    match c.bond_price_of(rates, t, maturity) {
        Err(e) => Err(e),
        Ok(bond) => match cash_jacobian(m, y, rates, x, t, maturity) {
            Err(e) => Err(e),
            Ok(rows) => Ok(ClaimJacobianView { unit: times(claim.carry_weight, bond), rows }),
        },
    }
}

fn take_claim_jacobian<R: Scalar, M: Math<R>, Y: DividendDynamics<R>, C: RateMarket<R>>(
    m: &M,
    y: &Y,
    c: &C,
    rates: &HullWhite1Factor<R>,
    x: CashInputs<R>,
    t: R,
    maturity: R,
    claim: CashClaim<R>,
) -> (r: Result<ClaimJacobian<R>, MonteCarloError>)
    requires
        rates@.valid(),
    ensures
        viewed(r) == claim_jacobian(m.model(), *y, *c, rates@, x, t, maturity, claim),
        r matches Ok(j) ==> four_by_three(j@.rows),
{
    m.laws();
    let bond = match c.bond_price(rates, t, maturity) {
        Err(e) => return Err(e),
        Ok(v) => v,
    };
    let rows = match cash_coefficient_jacobian(m, y, rates, x, t, maturity) {
        Err(e) => return Err(e),
        Ok(v) => v,
    };
    let j = ClaimJacobian { unit: claim.carry_weight * bond, rows };
    proof {
        assert forall|i: int| 0 <= i < 4 implies (#[trigger] j@.rows[i]).len() == 3 by {
            assert(j.rows@[i]@.len() == 3);
        }
    }
    Ok(j)
}

/// The coefficients of a claim.
pub open spec fn coefficients<R>(claim: CashClaim<R>) -> Seq<R> {
    seq![claim.equity, claim.dividend, claim.constant]
}

/// What the reserve at first depends on, with one more claim.
pub open spec fn funding_with<R: Scalar, C: RateMarket<R>>(
    m: Model<R>,
    c: C,
    p: RatePathView<R>,
    w: Adjoints<R>,
    claim: CashClaim<R>,
    j: ClaimJacobianView<R>,
) -> Result<Adjoints<R>, MonteCarloError> {
    match claim_value(m, claim, initial_state()) {
        Err(e) => Err(e),
        Ok(value) => {
            let worth = times(claim.carry_weight, value);
            let mean = p.cash_means[claim.index as int];
            let placed = w.head.update(
                5 + claim.index,
                times(j.unit, total(coefficients(claim))),
            );
            let head = model_bumps(placed, times(j.unit, mean), j.rows, 4);
            with_curves(
                c,
                Adjoints { head, ..w },
                p.cash_times[claim.index as int],
                worth,
                negated(worth),
            )
        },
    }
}

/// The adjoints of the dividend model out of the sums of the rows of a claim.
pub open spec fn model_bumps<R: Scalar>(
    head: Seq<R>,
    amount: R,
    rows: Seq<Seq<R>>,
    n: nat,
) -> Seq<R>
    decreases n,
{
    if n == 0 {
        head
    } else {
        bumped(
            model_bumps(head, amount, rows, (n - 1) as nat),
            n as int,
            times(amount, total(rows[n - 1])),
        )
    }
}

/// How the claims at the first node depend on the dividend model, and what the
/// reserve depends on.
pub open spec fn funded<R: Scalar, Y: DividendDynamics<R>, C: RateMarket<R>>(
    m: Model<R>,
    y: Y,
    c: C,
    rates: RatesView<R>,
    x: CashInputs<R>,
    p: RatePathView<R>,
    n: nat,
) -> Result<(Seq<ClaimJacobianView<R>>, Adjoints<R>), MonteCarloError>
    decreases n,
{
    if n == 0 {
        Ok(
            (
                Seq::empty(),
                Adjoints {
                    head: zeros(5 + p.cash_times.len()),
                    discount: zeros(c.discount_times_of().len()),
                    repo: zeros(c.repo_spread_times_of().len()),
                },
            ),
        )
    } else {
        match funded(m, y, c, rates, x, p, (n - 1) as nat) {
            Err(e) => Err(e),
            Ok((row, w)) => {
                let claim = p.nodes[0].claims[n - 1];
                match claim_jacobian(
                    m,
                    y,
                    c,
                    rates,
                    x,
                    p.times[0],
                    p.cash_times[claim.index as int],
                    claim,
                ) {
                    Err(e) => Err(e),
                    Ok(j) => match funding_with(m, c, p, w, claim, j) {
                        Err(e) => Err(e),
                        Ok(more) => Ok((row.push(j), more)),
                    },
                }
            },
        }
    }
}

proof fn funded_stops<R: Scalar, Y: DividendDynamics<R>, C: RateMarket<R>>(
    m: Model<R>,
    y: Y,
    c: C,
    rates: RatesView<R>,
    x: CashInputs<R>,
    p: RatePathView<R>,
    a: nat,
    n: nat,
)
    requires
        a <= n,
        funded(m, y, c, rates, x, p, a) is Err,
    ensures
        funded(m, y, c, rates, x, p, n) == funded(m, y, c, rates, x, p, a),
    decreases n,
{
    if a < n {
        funded_stops(m, y, c, rates, x, p, a, (n - 1) as nat);
    }
}

/// The claims of a row have derivatives of the right shape.
pub open spec fn jacobians_shaped<R>(row: Seq<ClaimJacobianView<R>>) -> bool {
    forall|i: int| 0 <= i < row.len() ==> four_by_three((#[trigger] row[i]).rows)
}

fn bump_model<R: Scalar, M: Math<R>>(
    m: &M,
    w: &mut AdjointTable<R>,
    amount: R,
    rows: &Vec<Vec<R>>,
)
    requires
        rows@.len() == 4,
        old(w)@.head.len() >= 5,
    ensures
        final(w)@.head == model_bumps(old(w)@.head, amount, rows_seen(rows@), 4),
        final(w)@.head.len() == old(w)@.head.len(),
        final(w)@.discount == old(w)@.discount,
        final(w)@.repo == old(w)@.repo,
{
    m.laws();
    let ghost start = w@;
    let mut j: usize = 0;
    while j < 4
        invariant
            lawful::<R>(),
            j <= 4,
            rows@.len() == 4,
            start.head.len() >= 5,
            w@.head.len() == start.head.len(),
            w@.head == model_bumps(start.head, amount, rows_seen(rows@), j as nat),
            w@.discount == start.discount,
            w@.repo == start.repo,
        decreases 4 - j,
    {
        assert(rows_seen(rows@)[j as int] == rows@[j as int]@);
        let sum = take_total(m, &rows[j]);
        w.bump(m, j + 1, amount * sum);
        j = j + 1;
    }
}

/// Funds the claims at the first node.
fn fund<R: Scalar, M: Math<R>, Y: DividendDynamics<R>, C: RateMarket<R>>(
    m: &M,
    y: &Y,
    c: &C,
    rates: &HullWhite1Factor<R>,
    x: CashInputs<R>,
    path: &StochasticDividendHullWhitePathPlan<R>,
) -> (r: Result<(Vec<ClaimJacobian<R>>, AdjointTable<R>), MonteCarloError>)
    requires
        rates@.valid(),
        path@.valid(),
        5 + path@.cash_times.len() <= usize::MAX,
    ensures
        (match r {
            Ok((row, w)) => Ok((views(row@), w@)),
            Err(e) => Err(e),
        }) == funded(m.model(), *y, *c, rates@, x, path@, path@.nodes[0].claims.len()),
        r matches Ok((row, w)) ==> w@.sized(
            5 + path@.cash_times.len(),
            c.discount_times_of().len(),
            c.repo_spread_times_of().len(),
        ) && jacobians_shaped(views(row@)) && row@.len() == path@.nodes[0].claims.len(),
{
    m.laws();
    assert(path@.nodes[0] == path.nodes@[0]@);
    let claims = &path.nodes[0].claims;
    let n = claims.len();
    let t = path.times[0];
    let mut row: Vec<ClaimJacobian<R>> = Vec::new();
    assert(views(row@) =~= Seq::empty());
    let mut w = AdjointTable {
        head: make_zeros(m, 5 + path.cash_times.len()),
        discount: make_zeros(m, c.discount_times().len()),
        repo: make_zeros(m, c.repo_spread_times().len()),
    };
    let mut i: usize = 0;
    while i < n
        invariant
            lawful::<R>(),
            rates@.valid(),
            path@.valid(),
            5 + path@.cash_times.len() <= usize::MAX,
            claims@ == path@.nodes[0].claims,
            n == claims@.len(),
            t == path@.times[0],
            i <= n,
            row@.len() == i,
            jacobians_shaped(views(row@)),
            w@.sized(
                5 + path@.cash_times.len(),
                c.discount_times_of().len(),
                c.repo_spread_times_of().len(),
            ),
            funded(m.model(), *y, *c, rates@, x, path@, i as nat) == Ok::<
                (Seq<ClaimJacobianView<R>>, Adjoints<R>),
                MonteCarloError,
            >((views(row@), w@)),
        decreases n - i,
    {
        proof {
            if funded(m.model(), *y, *c, rates@, x, path@, (i + 1) as nat) is Err {
                funded_stops(m.model(), *y, *c, rates@, x, path@, (i + 1) as nat, n as nat);
            }
            assert(claims_within(claims@, path@.cash_times.len()));
        }
        let claim = claims[i];
        assert(claims@[i as int].index < path@.cash_times.len());
        let maturity = path.cash_times[claim.index];
        let j = match take_claim_jacobian(m, y, c, rates, x, t, maturity, claim) {
            Err(e) => return Err(e),
            Ok(v) => v,
        };
        let start = StochasticDividendHullWhiteState::initial(m);
        let value = match claim.value(m, start) {
            Err(e) => return Err(e),
            Ok(v) => v,
        };
        let worth = claim.carry_weight * value;
        let parts: Vec<R> = vec![claim.equity, claim.dividend, claim.constant];
        assert(parts@ =~= coefficients(claim));
        let sum = take_total(m, &parts);
        let ghost before = w@;
        w.head.set(5 + claim.index, j.unit * sum);
        let amount = j.unit * path.cash_means[claim.index];
        assert(j@.rows == rows_seen(j.rows@));
        bump_model(m, &mut w, amount, &j.rows);
        if let Err(e) = w.add_curves(c, maturity, worth, worth.neg()) {
            return Err(e);
        }
        let ghost (rows_before, jv) = (views(row@), j@);
        row.push(j);
        assert(views(row@) =~= rows_before.push(jv));
        i = i + 1;
    }
    Ok((row, w))
}

/// How the claims at a node depend on the dividend model.
pub open spec fn node_jacobians<R: Scalar, Y: DividendDynamics<R>, C: RateMarket<R>>(
    m: Model<R>,
    y: Y,
    c: C,
    rates: RatesView<R>,
    x: CashInputs<R>,
    p: RatePathView<R>,
    i: int,
) -> Result<Seq<ClaimJacobianView<R>>, MonteCarloError> {
    gather(
        p.nodes[i].claims.len(),
        |k: int|
            {
                let claim = p.nodes[i].claims[k];
                claim_jacobian(
                    m,
                    y,
                    c,
                    rates,
                    x,
                    p.times[i],
                    p.cash_times[claim.index as int],
                    claim,
                )
            },
    )
}

/// A row of claims as it is made.
pub struct JacobianRow<R> {
    pub claims: Vec<ClaimJacobian<R>>,
}

impl<R> View for JacobianRow<R> {
    type V = Seq<ClaimJacobianView<R>>;

    open spec fn view(&self) -> Seq<ClaimJacobianView<R>> {
        views(self.claims@)
    }
}

fn take_node_jacobians<R: Scalar, M: Math<R>, Y: DividendDynamics<R>, C: RateMarket<R>>(
    m: &M,
    y: &Y,
    c: &C,
    rates: &HullWhite1Factor<R>,
    x: CashInputs<R>,
    path: &StochasticDividendHullWhitePathPlan<R>,
    i: usize,
) -> (r: Result<JacobianRow<R>, MonteCarloError>)
    requires
        rates@.valid(),
        path@.valid(),
        i < path@.nodes.len(),
    ensures
        viewed(r) == node_jacobians(m.model(), *y, *c, rates@, x, path@, i as int),
        r matches Ok(row) ==> row@.len() == path@.nodes[i as int].claims.len()
            && jacobians_shaped(row@),
{
    assert(path@.nodes[i as int] == path.nodes@[i as int]@);
    assert(claims_within(path@.nodes[i as int].claims, path@.cash_times.len()));
    let claims = &path.nodes[i].claims;
    let n = claims.len();
    let t = path.times[i];
    let ghost law = |k: int|
        {
            let claim = path@.nodes[i as int].claims[k];
            claim_jacobian(
                m.model(),
                *y,
                *c,
                rates@,
                x,
                path@.times[i as int],
                path@.cash_times[claim.index as int],
                claim,
            )
        };
    let ghost shaped = |j: ClaimJacobian<R>| four_by_three(j@.rows);
    let row_at = |k: usize| -> (z: Result<ClaimJacobian<R>, MonteCarloError>)
        requires
            k < n,
        ensures
            viewed(z) == law(k as int),
            z matches Ok(j) ==> shaped(j),
        {
            let claim = claims[k];
            assert(path@.nodes[i as int].claims[k as int].index < path@.cash_times.len());
            take_claim_jacobian(
                m,
                y,
                c,
                rates,
                x,
                t,
                path.cash_times[claim.index],
                claim,
            )
        };
    let row = match collect_views(
        n,
        row_at,
        Ghost(law),
        Ghost(shaped),
    ) {
        Err(e) => return Err(e),
        Ok(v) => v,
    };
    Ok(JacobianRow { claims: row })
}

/// What the derivatives of a path need.
pub struct HullWhiteReverseContext<R> {
    pub labels: Vec<Label>,
    pub cash_times: Vec<R>,
    pub discount_times: Vec<R>,
    pub repo_spread_times: Vec<R>,
    pub claims: Vec<JacobianRow<R>>,
    /// What the reserve at first depends on.
    pub funding: Vec<R>,
    /// What the logarithm of the discount factor of the payment depends on.
    pub payment_weights: Vec<R>,
}

/// A [`HullWhiteReverseContext`] as a mathematical value.
pub ghost struct RateContextView<R> {
    pub labels: Seq<Label>,
    pub cash_times: Seq<R>,
    pub discount_times: Seq<R>,
    pub repo_spread_times: Seq<R>,
    pub claims: Seq<Seq<ClaimJacobianView<R>>>,
    pub funding: Seq<R>,
    pub payment_weights: Seq<R>,
}

impl<R> View for HullWhiteReverseContext<R> {
    type V = RateContextView<R>;

    open spec fn view(&self) -> RateContextView<R> {
        RateContextView {
            labels: self.labels@,
            cash_times: self.cash_times@,
            discount_times: self.discount_times@,
            repo_spread_times: self.repo_spread_times@,
            claims: views(self.claims@),
            funding: self.funding@,
            payment_weights: self.payment_weights@,
        }
    }
}

impl<R> RateContextView<R> {
    /// The number of parameters.
    pub open spec fn count(self) -> nat {
        5 + self.cash_times.len() + self.discount_times.len() + self.repo_spread_times.len()
    }

    /// The context belongs to a path.
    pub open spec fn of(self, p: RatePathView<R>) -> bool {
        &&& self.cash_times == p.cash_times
        &&& self.labels.len() == self.count()
        &&& self.funding.len() == self.count()
        &&& self.payment_weights.len() == self.count()
        &&& self.count() <= usize::MAX
        &&& rows_belong(self.claims, p)
    }
}

/// The names of the parameters.
pub open spec fn rate_labels<R>(
    events: Seq<MixedEvent<R>>,
    discount: nat,
    repo: nat,
) -> Seq<Label> {
    seq![
        Label::Named("spot"),
        Label::Named("initial_volatility"),
        Label::Named("dividend_mean_reversion"),
        Label::Named("equity_linkage"),
        Label::Named("dividend_volatility"),
    ] + Seq::new(
        events.len(),
        |i: int| Label::Indexed { name: "cash_mean", index: events[i].event },
    ) + indexed("discount_log_df", discount) + indexed("repo_spread_log_df", repo)
}

fn make_rate_labels<R: Scalar>(events: &Vec<MixedEvent<R>>, discount: usize, repo: usize) -> (labels: Vec<
    Label,
>)
    ensures
        labels@ == rate_labels(events@, discount as nat, repo as nat),
{
    let mut labels: Vec<Label> = vec![
        Label::Named("spot"),
        Label::Named("initial_volatility"),
        Label::Named("dividend_mean_reversion"),
        Label::Named("equity_linkage"),
        Label::Named("dividend_volatility"),
    ];
    let ghost start = labels@;
    let ghost cash = |k: int| Label::Indexed { name: "cash_mean", index: events@[k].event };
    let mut i: usize = 0;
    while i < events.len()
        invariant
            i <= events@.len(),
            forall|k: int| #[trigger] cash(k) == (Label::Indexed {
                name: "cash_mean",
                index: events@[k].event,
            }),
            labels@ == start + Seq::new(i as nat, cash),
        decreases events@.len() - i,
    {
        labels.push(Label::Indexed { name: "cash_mean", index: events[i].event });
        assert(labels@ =~= start + Seq::new((i + 1) as nat, cash));
        i = i + 1;
    }
    push_indexed(&mut labels, "discount_log_df", discount);
    push_indexed(&mut labels, "repo_spread_log_df", repo);
    assert(labels@ =~= rate_labels(events@, discount as nat, repo as nat));
    labels
}

/// How all claims of a path depend on the dividend model, and what the reserve at
/// first depends on.
pub open spec fn all_jacobians<R: Scalar, Y: DividendDynamics<R>, C: RateMarket<R>>(
    m: Model<R>,
    y: Y,
    c: C,
    rates: RatesView<R>,
    x: CashInputs<R>,
    p: RatePathView<R>,
) -> Result<(Seq<Seq<ClaimJacobianView<R>>>, Adjoints<R>), MonteCarloError> {
    match funded(m, y, c, rates, x, p, p.nodes[0].claims.len()) {
        Err(e) => Err(e),
        Ok((first, w)) => match gather(
            (p.nodes.len() - 1) as nat,
            |i: int| node_jacobians(m, y, c, rates, x, p, i + 1),
        ) {
            Err(e) => Err(e),
            Ok(rest) => Ok((seq![first] + rest, w)),
        },
    }
}

/// What the derivatives of a path need, or why they cannot be had.
pub open spec fn rate_context<R: Scalar, Y: DividendDynamics<R>, C: RateMarket<R>>(
    m: Model<R>,
    y: Y,
    c: C,
    rates: RatesView<R>,
    x: CashInputs<R>,
    p: RatePathView<R>,
    payment: R,
) -> Result<RateContextView<R>, MonteCarloError> {
    let head = 5 + p.cash_times.len();
    match all_jacobians(m, y, c, rates, x, p) {
        Err(e) => Err(e),
        Ok((claims, w)) => match c.discount_transposed(
            payment,
            literal(1),
            zeros(c.discount_times_of().len()),
        ) {
            Err(e) => Err(e),
            Ok(weights) => {
                let funding = w.all();
                let payment_weights = zeros::<R>(head) + weights + zeros::<R>(
                    c.repo_spread_times_of().len(),
                );
                if m.all_finite(funding) && m.all_finite(payment_weights) {
                    Ok(
                        RateContextView {
                            labels: rate_labels(
                                c.events_of(),
                                c.discount_times_of().len(),
                                c.repo_spread_times_of().len(),
                            ),
                            cash_times: p.cash_times,
                            discount_times: c.discount_times_of(),
                            repo_spread_times: c.repo_spread_times_of(),
                            claims,
                            funding,
                            payment_weights,
                        },
                    )
                } else {
                    Err(invalid_field("hw_reverse_coefficients"))
                }
            },
        },
    }
}

/// A market with these dividends can be counted.
pub open spec fn rate_market_sized<R: Scalar, C: RateMarket<R>>(c: C) -> bool {
    16 + c.events_of().len() + c.discount_times_of().len() + c.repo_spread_times_of().len()
        <= usize::MAX
}

fn join<R: Scalar>(w: AdjointTable<R>) -> (v: Vec<R>)
    ensures
        v@ == w@.all(),
{
    let mut v = w.head;
    append(&mut v, &w.discount);
    append(&mut v, &w.repo);
    v
}

/// The rows belong to the claims of a path.
pub open spec fn rows_belong<R>(rows: Seq<Seq<ClaimJacobianView<R>>>, p: RatePathView<R>) -> bool {
    &&& rows.len() == p.nodes.len()
    &&& forall|i: int|
        0 <= i < rows.len() ==> (#[trigger] rows[i]).len() == p.nodes[i].claims.len()
    &&& forall|i: int| 0 <= i < rows.len() ==> jacobians_shaped(#[trigger] rows[i])
}

fn take_jacobians<R: Scalar, M: Math<R>, Y: DividendDynamics<R>, C: RateMarket<R>>(
    m: &M,
    y: &Y,
    c: &C,
    rates: &HullWhite1Factor<R>,
    x: CashInputs<R>,
    path: &StochasticDividendHullWhitePathPlan<R>,
) -> (r: Result<(Vec<JacobianRow<R>>, AdjointTable<R>), MonteCarloError>)
    requires
        rates@.valid(),
        path@.valid(),
        5 + path@.cash_times.len() <= usize::MAX,
    ensures
        (match r {
            Ok((rows, w)) => Ok((views(rows@), w@)),
            Err(e) => Err(e),
        }) == all_jacobians(m.model(), *y, *c, rates@, x, path@),
        r matches Ok((rows, w)) ==> w@.sized(
            5 + path@.cash_times.len(),
            c.discount_times_of().len(),
            c.repo_spread_times_of().len(),
        ) && rows_belong(views(rows@), path@),
{
    let (first, w) = match fund(m, y, c, rates, x, path) {
        Err(e) => return Err(e),
        Ok(v) => v,
    };
    let n: usize = path.nodes.len() - 1;
    assert(path@.nodes.len() == path.nodes@.len());
    let ghost law = |i: int| node_jacobians(m.model(), *y, *c, rates@, x, path@, i + 1);
    let ghost shaped = |row: JacobianRow<R>| jacobians_shaped(row@);
    let rest_at = |i: usize| -> (z: Result<JacobianRow<R>, MonteCarloError>)
        requires
            i < n,
        ensures
            viewed(z) == law(i as int),
            z matches Ok(row) ==> shaped(row),
        { take_node_jacobians(m, y, c, rates, x, path, i + 1) };
    let rest = match collect_views(
        n,
        rest_at,
        Ghost(law),
        Ghost(shaped),
    ) {
        Err(e) => return Err(e),
        Ok(v) => v,
    };
    let ghost (first_view, rest_rows) = (views(first@), rest@);
    let ghost rest_views = views(rest@);
    let mut rows: Vec<JacobianRow<R>> = vec![JacobianRow { claims: first }];
    let mut rest = rest;
    rows.append(&mut rest);
    proof {
        assert(views(rows@) =~= seq![first_view] + rest_views);
        gather_values(n as nat, law);
        assert forall|i: int| 0 <= i < views(rows@).len() implies (#[trigger] views(rows@)[i]).len()
            == path@.nodes[i].claims.len() && jacobians_shaped(views(rows@)[i]) by {
            if i > 0 {
                assert(law(i - 1) == Ok::<Seq<ClaimJacobianView<R>>, MonteCarloError>(
                    rest_views[i - 1],
                ));
                node_jacobians_len(m.model(), *y, *c, rates@, x, path@, i);
                assert(shaped(rest_rows[i - 1]));
            }
        }
    }
    Ok((rows, w))
}

impl<R: Scalar> HullWhiteReverseContext<R> {
    /// Prepares the derivatives of a path.
    pub fn new<M: Math<R>, Y: DividendDynamics<R>, C: RateMarket<R>>(
        m: &M,
        y: &Y,
        c: &C,
        rates: &HullWhite1Factor<R>,
        x: CashInputs<R>,
        path: &StochasticDividendHullWhitePathPlan<R>,
        payment: R,
    ) -> (r: Result<Self, MonteCarloError>)
        requires
            rates@.valid(),
            path@.valid(),
            path@.cash_times.len() == c.events_of().len(),
            rate_market_sized::<R, C>(*c),
            x.dividends == path.model,
            x.sigma == path.volatility,
        ensures
            viewed(r) == rate_context(m.model(), *y, *c, rates@, x, path@, payment),
            r matches Ok(k) ==> k@.of(path@) && k@.discount_times == c.discount_times_of()
                && k@.repo_spread_times == c.repo_spread_times_of(),
    {
        m.laws();
        let (claims, w) = match take_jacobians(m, y, c, rates, x, path) {
            Err(e) => return Err(e),
            Ok(v) => v,
        };
        let discount_times = c.discount_times();
        let repo_spread_times = c.repo_spread_times();
        let events = c.events();
        let nothing = make_zeros(m, discount_times.len());
        let weights = match c.transpose_discount(payment, R::from(1u32), &nothing) {
            Err(e) => return Err(e),
            Ok(v) => v,
        };
        let mut payment_weights = make_zeros(m, 5 + path.cash_times.len());
        append(&mut payment_weights, &weights);
        let none = make_zeros(m, repo_spread_times.len());
        append(&mut payment_weights, &none);
        let funding = join(w);
        if !all_finite(m, funding.as_slice()) || !all_finite(m, payment_weights.as_slice()) {
            return Err(invalid("hw_reverse_coefficients"));
        }
        let labels = make_rate_labels(&events, discount_times.len(), repo_spread_times.len());
        let cash_times = copied(&path.cash_times);
        Ok(
            HullWhiteReverseContext {
                labels,
                cash_times,
                discount_times,
                repo_spread_times,
                claims,
                funding,
                payment_weights,
            },
        )
    }
}

proof fn node_jacobians_len<R: Scalar, Y: DividendDynamics<R>, C: RateMarket<R>>(
    m: Model<R>,
    y: Y,
    c: C,
    rates: RatesView<R>,
    x: CashInputs<R>,
    p: RatePathView<R>,
    i: int,
)
    ensures
        node_jacobians(m, y, c, rates, x, p, i) matches Ok(row) ==> row.len()
            == p.nodes[i].claims.len(),
{
    gather_values(
        p.nodes[i].claims.len(),
        |k: int|
            {
                let claim = p.nodes[i].claims[k];
                claim_jacobian(
                    m,
                    y,
                    c,
                    rates,
                    x,
                    p.times[i],
                    p.cash_times[claim.index as int],
                    claim,
                )
            },
    );
}

/// A path under reversal: the adjoints so far, those of equity and of dividends at
/// the node, and that of the reserve at first.
pub ghost struct RateSweep<R> {
    pub out: Adjoints<R>,
    pub f_bar: R,
    pub y_bar: R,
    pub funding_bar: R,
    pub growth_seed: R,
}

/// The reversal with a claim of a node.
pub open spec fn with_claim<R: Scalar, C: RateMarket<R>>(
    m: Model<R>,
    c: C,
    p: RatePathView<R>,
    w: RateSweep<R>,
    claim: CashClaim<R>,
    j: ClaimJacobianView<R>,
    s: StochasticDividendHullWhiteState<R>,
    seed: R,
) -> Result<RateSweep<R>, MonteCarloError> {
    let unit = times(j.unit, m.exp(times(negated(claim.duration), s.rate_factor)));
    let amount = times(unit, p.cash_means[claim.index as int]);
    let value_seed = times(times(seed, amount), projection(claim, s.factors));
    let placed = bumped(
        w.out.head,
        5 + claim.index,
        times(times(seed, unit), projection(claim, s.factors)),
    );
    let head = row_bumps(placed, times(seed, amount), j.rows, s, 4);
    match with_curves(
        c,
        Adjoints { head, ..w.out },
        p.cash_times[claim.index as int],
        value_seed,
        negated(value_seed),
    ) {
        Err(e) => Err(e),
        Ok(out) => Ok(
            RateSweep {
                out,
                f_bar: plus(w.f_bar, times(times(seed, amount), claim.equity)),
                y_bar: plus(w.y_bar, times(times(seed, amount), claim.dividend)),
                funding_bar: w.funding_bar,
                growth_seed: plus(w.growth_seed, value_seed),
            },
        ),
    }
}

/// The adjoints of the dividend model out of the rows of a claim in a state.
pub open spec fn row_bumps<R: Scalar>(
    head: Seq<R>,
    amount: R,
    rows: Seq<Seq<R>>,
    s: StochasticDividendHullWhiteState<R>,
    n: nat,
) -> Seq<R>
    decreases n,
{
    if n == 0 {
        head
    } else {
        let row = rows[n - 1];
        bumped(
            row_bumps(head, amount, rows, s, (n - 1) as nat),
            n as int,
            times(
                amount,
                plus(
                    plus(times(row[0], s.factors.equity), times(row[1], s.factors.dividend)),
                    row[2],
                ),
            ),
        )
    }
}

/// The reversal with the first `n` claims of a node.
pub open spec fn with_claims<R: Scalar, C: RateMarket<R>>(
    m: Model<R>,
    c: C,
    p: RatePathView<R>,
    w: RateSweep<R>,
    i: int,
    row: Seq<ClaimJacobianView<R>>,
    s: StochasticDividendHullWhiteState<R>,
    seed: R,
    n: nat,
) -> Result<RateSweep<R>, MonteCarloError>
    decreases n,
{
    if n == 0 {
        Ok(w)
    } else {
        match with_claims(m, c, p, w, i, row, s, seed, (n - 1) as nat) {
            Err(e) => Err(e),
            Ok(v) => with_claim(m, c, p, v, p.nodes[i].claims[n - 1], row[n - 1], s, seed),
        }
    }
}

proof fn with_claims_stop<R: Scalar, C: RateMarket<R>>(
    m: Model<R>,
    c: C,
    p: RatePathView<R>,
    w: RateSweep<R>,
    i: int,
    row: Seq<ClaimJacobianView<R>>,
    s: StochasticDividendHullWhiteState<R>,
    seed: R,
    a: nat,
    n: nat,
)
    requires
        a <= n,
        with_claims(m, c, p, w, i, row, s, seed, a) is Err,
    ensures
        with_claims(m, c, p, w, i, row, s, seed, n) == with_claims(
            m,
            c,
            p,
            w,
            i,
            row,
            s,
            seed,
            a,
        ),
    decreases n,
{
    if a < n {
        with_claims_stop(m, c, p, w, i, row, s, seed, a, (n - 1) as nat);
    }
}

/// The adjoints of the means of the cash that is paid at a time.
pub open spec fn cash_bumps<R: Scalar>(head: Seq<R>, cash: Seq<R>, t: R, x: R, n: nat) -> Seq<R>
    decreases n,
{
    if n == 0 {
        head
    } else {
        let before = cash_bumps(head, cash, t, x, (n - 1) as nat);
        if same(cash[n - 1], t) {
            bumped(before, 5 + (n - 1), x)
        } else {
            before
        }
    }
}

/// The reversal with a node, before the step that led to it.
pub open spec fn with_node<R: Scalar, C: RateMarket<R>>(
    m: Model<R>,
    c: C,
    p: RatePathView<R>,
    w: RateSweep<R>,
    i: int,
    row: Seq<ClaimJacobianView<R>>,
    s: StochasticDividendHullWhiteState<R>,
    seed: SpotSeed<R>,
) -> Result<RateSweep<R>, MonteCarloError> {
    let both = plus(seed.post, seed.pre);
    let growth = node_growth(m, p.nodes[i], s);
    let equity = s.factors.equity;
    let risky_spot = p.risky_spot;
    let start = RateSweep {
        out: Adjoints { head: bumped(w.out.head, 0, times(times(both, growth), equity)), ..w.out },
        f_bar: plus(w.f_bar, times(times(both, risky_spot), growth)),
        y_bar: w.y_bar,
        funding_bar: minus(w.funding_bar, times(times(both, growth), equity)),
        growth_seed: times(both, times(times(risky_spot, growth), equity)),
    };
    match with_claims(m, c, p, start, i, row, s, both, p.nodes[i].claims.len()) {
        Err(e) => Err(e),
        Ok(v) => match with_curves(
            c,
            v.out,
            p.times[i],
            negated(v.growth_seed),
            v.growth_seed,
        ) {
            Err(e) => Err(e),
            Ok(out) => {
                let paid = match p.nodes[i].event_cash {
                    Some(x) => x,
                    None => literal(0),
                };
                Ok(
                    RateSweep {
                        out: Adjoints {
                            head: cash_bumps(
                                out.head,
                                p.cash_times,
                                p.times[i],
                                times(seed.pre, s.factors.dividend),
                                p.cash_times.len(),
                            ),
                            ..out
                        },
                        y_bar: plus(v.y_bar, times(seed.pre, paid)),
                        ..v
                    },
                )
            },
        },
    }
}

/// The reversal with the step that led to a node: drift, diffusion and drift.
pub open spec fn with_step<R: Scalar, Y: DividendDynamics<R>>(
    m: Model<R>,
    y: Y,
    p: RatePathView<R>,
    w: RateSweep<R>,
    dt: R,
    z0: R,
    z1: R,
    now: StochasticDividendHullWhiteState<R>,
    old: StochasticDividendHullWhiteState<R>,
) -> RateSweep<R> {
    let model = p.model;
    let alpha = model.equity_linkage;
    let rho = model.equity_dividend_correlation;
    let root = m.sqrt(dt);
    let weights = y.decay_of(model.mean_reversion, times(half(), dt));
    let (a, b) = (weights.first, weights.second);
    let old_target = y.target_of(model, old.factors.equity);
    let now_target = y.target_of(model, now.factors.equity);
    let half_way = y.blend_of(weights, old.factors.dividend, old_target);
    let v = times(model.dividend_volatility, root);
    let zd = plus(
        times(rho, z0),
        times(m.sqrt(times(minus(literal(1), rho), plus(literal(1), rho))), z1),
    );
    let ed = m.exp(plus(times(times(negated(half()), v), v), times(v, zd)));
    let noise = times(half_way, ed);
    let u = times(p.volatility, root);
    let ef = m.exp(plus(times(times(negated(half()), u), u), times(u, z0)));
    let noise_bar = times(a, w.y_bar);
    let next_f_bar = plus(w.f_bar, times(times(b, alpha), w.y_bar));
    let half_bar = times(noise_bar, ed);
    let h1 = bumped(
        w.out.head,
        2,
        times(times(w.y_bar, times(times(negated(half()), dt), a)), minus(noise, now_target)),
    );
    let h2 = bumped(h1, 3, times(times(w.y_bar, b), minus(now.factors.equity, literal(1))));
    let h3 = bumped(h2, 4, times(times(times(noise_bar, noise), minus(zd, v)), root));
    let h4 = bumped(h3, 1, times(times(times(next_f_bar, now.factors.equity), minus(z0, u)), root));
    let h5 = bumped(
        h4,
        2,
        times(
            times(half_bar, times(times(negated(half()), dt), a)),
            minus(old.factors.dividend, old_target),
        ),
    );
    let h6 = bumped(h5, 3, times(times(half_bar, b), minus(old.factors.equity, literal(1))));
    RateSweep {
        out: Adjoints { head: h6, ..w.out },
        f_bar: plus(times(next_f_bar, ef), times(times(half_bar, b), alpha)),
        y_bar: times(half_bar, a),
        ..w
    }
}

/// The reversal of the nodes from `i` on.
pub open spec fn rate_swept<R: Scalar, Y: DividendDynamics<R>, C: RateMarket<R>>(
    m: Model<R>,
    y: Y,
    c: C,
    k: RateContextView<R>,
    p: RatePathView<R>,
    z: Seq<R>,
    states: Seq<StochasticDividendHullWhiteState<R>>,
    seeds: Seq<SpotSeed<R>>,
    payoff: R,
    i: int,
) -> Result<RateSweep<R>, MonteCarloError>
    decreases states.len() - i,
{
    if i >= states.len() {
        let head = 5 + p.cash_times.len() as int;
        let split = head + k.discount_times.len();
        let out = Seq::new(k.count(), |j: int| times(k.payment_weights[j], payoff));
        Ok(
            RateSweep {
                out: Adjoints {
                    head: out.subrange(0, head),
                    discount: out.subrange(head, split),
                    repo: out.subrange(split, k.count() as int),
                },
                f_bar: literal(0),
                y_bar: literal(0),
                funding_bar: literal(0),
                growth_seed: literal(0),
            },
        )
    } else {
        match rate_swept(m, y, c, k, p, z, states, seeds, payoff, i + 1) {
            Err(e) => Err(e),
            Ok(w) => match with_node(m, c, p, w, i, k.claims[i], states[i], seeds[i]) {
                Err(e) => Err(e),
                Ok(v) => if i <= 0 {
                    Ok(v)
                } else {
                    Ok(
                        with_step(
                            m,
                            y,
                            p,
                            v,
                            p.steps[i - 1].dt,
                            z[4 * (i - 1)],
                            z[4 * (i - 1) + 1],
                            states[i],
                            states[i - 1],
                        ),
                    )
                },
            },
        }
    }
}

/// The derivatives of a path.
pub open spec fn rate_pullback<R: Scalar, Y: DividendDynamics<R>, C: RateMarket<R>>(
    m: Model<R>,
    y: Y,
    c: C,
    k: RateContextView<R>,
    p: RatePathView<R>,
    z: Seq<R>,
    states: Seq<StochasticDividendHullWhiteState<R>>,
    seeds: Seq<SpotSeed<R>>,
    payoff: R,
) -> Result<Seq<R>, MonteCarloError> {
    if z.len() != p.dimension || states.len() != p.times.len() || seeds.len() != states.len() {
        Err(invalid_field("hw_reverse_shape"))
    } else if !m.is_finite(payoff) || !m.all_finite(z) || !seeds_finite(m, seeds) {
        Err(invalid_field("hw_reverse_seed"))
    } else {
        match rate_swept(m, y, c, k, p, z, states, seeds, payoff, 0) {
            Err(e) => Err(e),
            Ok(w) => {
                let all = w.out.all();
                let out = Seq::new(
                    all.len(),
                    |j: int| plus(all[j], times(w.funding_bar, k.funding[j])),
                );
                if m.all_finite(out) {
                    Ok(out)
                } else {
                    Err(invalid_field("hw_reverse_result"))
                }
            },
        }
    }
}

/// A path under reversal, as it is computed.
struct SweepTable<R> {
    out: AdjointTable<R>,
    f_bar: R,
    y_bar: R,
    funding_bar: R,
    growth_seed: R,
}

impl<R> View for SweepTable<R> {
    type V = RateSweep<R>;

    closed spec fn view(&self) -> RateSweep<R> {
        RateSweep {
            out: self.out@,
            f_bar: self.f_bar,
            y_bar: self.y_bar,
            funding_bar: self.funding_bar,
            growth_seed: self.growth_seed,
        }
    }
}

/// A step of a computation: it gives what it should, or fails as it should.
spec fn follows<R>(
    r: Result<(), MonteCarloError>,
    after: RateSweep<R>,
    want: Result<RateSweep<R>, MonteCarloError>,
) -> bool {
    match r {
        Ok(()) => want == Ok::<RateSweep<R>, MonteCarloError>(after),
        Err(e) => want == Err::<RateSweep<R>, MonteCarloError>(e),
    }
}

/// Two reversals have adjoints of the same sizes.
spec fn alike<R>(a: Adjoints<R>, b: Adjoints<R>) -> bool {
    b.sized(a.head.len(), a.discount.len(), a.repo.len())
}

impl<R: Scalar> SweepTable<R> {
    fn bump_rows<M: Math<R>>(
        &mut self,
        m: &M,
        amount: R,
        rows: &Vec<Vec<R>>,
        s: StochasticDividendHullWhiteState<R>,
    )
        requires
            four_by_three(rows_seen(rows@)),
            old(self)@.out.head.len() >= 5,
        ensures
            final(self)@ == (RateSweep {
                out: (Adjoints {
                    head: row_bumps(old(self)@.out.head, amount, rows_seen(rows@), s, 4),
                    ..old(self)@.out
                }),
                ..old(self)@
            }),
            final(self)@.out.head.len() == old(self)@.out.head.len(),
    {
        m.laws();
        let ghost start = self@;
        let mut j: usize = 0;
        while j < 4
            invariant
                lawful::<R>(),
                j <= 4,
                four_by_three(rows_seen(rows@)),
                start.out.head.len() >= 5,
                self@.out.head.len() == start.out.head.len(),
                self@ == (RateSweep {
                    out: (Adjoints {
                        head: row_bumps(start.out.head, amount, rows_seen(rows@), s, j as nat),
                        ..start.out
                    }),
                    ..start
                }),
            decreases 4 - j,
        {
            assert(rows_seen(rows@)[j as int] == rows@[j as int]@);
            let row = &rows[j];
            let x = row[0] * s.factors.equity + row[1] * s.factors.dividend + row[2];
            self.out.bump(m, j + 1, amount * x);
            j = j + 1;
        }
    }

    fn add_claim<M: Math<R>, C: RateMarket<R>>(
        &mut self,
        m: &M,
        c: &C,
        path: &StochasticDividendHullWhitePathPlan<R>,
        claim: CashClaim<R>,
        j: &ClaimJacobian<R>,
        s: StochasticDividendHullWhiteState<R>,
        seed: R,
    ) -> (r: Result<(), MonteCarloError>)
        requires
            path@.valid(),
            claim.index < path@.cash_times.len(),
            four_by_three(j@.rows),
            old(self)@.out.head.len() == 5 + path@.cash_times.len(),
            old(self)@.out.head.len() <= usize::MAX,
        ensures
            follows(
                r,
                final(self)@,
                with_claim(m.model(), *c, path@, old(self)@, claim, j@, s, seed),
            ),
            alike(old(self)@.out, final(self)@.out),
    {
        m.laws();
        let unit = j.unit * m.exp(claim.duration.neg() * s.rate_factor);
        let amount = unit * path.cash_means[claim.index];
        let shape = claim.equity * s.factors.equity + claim.dividend * s.factors.dividend
            + claim.constant;
        let value_seed = seed * amount * shape;
        self.growth_seed = self.growth_seed + value_seed;
        self.out.bump(m, 5 + claim.index, seed * unit * shape);
        self.bump_rows(m, seed * amount, &j.rows, s);
        self.f_bar = self.f_bar + seed * amount * claim.equity;
        self.y_bar = self.y_bar + seed * amount * claim.dividend;
        let maturity = path.cash_times[claim.index];
        self.out.add_curves(c, maturity, value_seed, value_seed.neg())
    }

    fn add_claims<M: Math<R>, C: RateMarket<R>>(
        &mut self,
        m: &M,
        c: &C,
        path: &StochasticDividendHullWhitePathPlan<R>,
        i: usize,
        row: &JacobianRow<R>,
        s: StochasticDividendHullWhiteState<R>,
        seed: R,
    ) -> (r: Result<(), MonteCarloError>)
        requires
            path@.valid(),
            i < path@.nodes.len(),
            row@.len() == path@.nodes[i as int].claims.len(),
            jacobians_shaped(row@),
            old(self)@.out.head.len() == 5 + path@.cash_times.len(),
            old(self)@.out.head.len() <= usize::MAX,
        ensures
            follows(
                r,
                final(self)@,
                with_claims(
                    m.model(),
                    *c,
                    path@,
                    old(self)@,
                    i as int,
                    row@,
                    s,
                    seed,
                    path@.nodes[i as int].claims.len(),
                ),
            ),
            alike(old(self)@.out, final(self)@.out),
    {
        assert(path@.nodes[i as int] == path.nodes@[i as int]@);
        assert(claims_within(path@.nodes[i as int].claims, path@.cash_times.len()));
        let ghost start = self@;
        let n = path.nodes[i].claims.len();
        let mut k: usize = 0;
        while k < n
            invariant
                path@.valid(),
                i < path@.nodes.len(),
                path@.nodes[i as int] == path.nodes@[i as int]@,
                claims_within(path@.nodes[i as int].claims, path@.cash_times.len()),
                n == path@.nodes[i as int].claims.len(),
                row@.len() == n,
                jacobians_shaped(row@),
                start.out.head.len() == 5 + path@.cash_times.len(),
                start.out.head.len() <= usize::MAX,
                start == old(self)@,
                alike(start.out, self@.out),
                k <= n,
                with_claims(m.model(), *c, path@, start, i as int, row@, s, seed, k as nat) == Ok::<
                    RateSweep<R>,
                    MonteCarloError,
                >(self@),
            decreases n - k,
        {
            proof {
                if with_claims(
                    m.model(),
                    *c,
                    path@,
                    start,
                    i as int,
                    row@,
                    s,
                    seed,
                    (k + 1) as nat,
                ) is Err {
                    with_claims_stop(
                        m.model(),
                        *c,
                        path@,
                        start,
                        i as int,
                        row@,
                        s,
                        seed,
                        (k + 1) as nat,
                        n as nat,
                    );
                }
                assert(row@[k as int] == row.claims@[k as int]@);
                assert(four_by_three(row@[k as int].rows));
                assert(path@.nodes[i as int].claims[k as int].index < path@.cash_times.len());
            }
            let claim = path.nodes[i].claims[k];
            if let Err(e) = self.add_claim(m, c, path, claim, &row.claims[k], s, seed) {
                return Err(e);
            }
            k = k + 1;
        }
        Ok(())
    }

    fn add_cash<M: Math<R>>(&mut self, m: &M, cash: &Vec<R>, t: R, x: R)
        requires
            old(self)@.out.head.len() == 5 + cash@.len(),
            old(self)@.out.head.len() <= usize::MAX,
        ensures
            final(self)@ == (RateSweep {
                out: (Adjoints {
                    head: cash_bumps(old(self)@.out.head, cash@, t, x, cash@.len()),
                    ..old(self)@.out
                }),
                ..old(self)@
            }),
            final(self)@.out.head.len() == old(self)@.out.head.len(),
    {
        m.laws();
        let ghost start = self@;
        let mut j: usize = 0;
        while j < cash.len()
            invariant
                lawful::<R>(),
                j <= cash@.len(),
                start.out.head.len() == 5 + cash@.len(),
                start.out.head.len() <= usize::MAX,
                self@.out.head.len() == start.out.head.len(),
                self@ == (RateSweep {
                    out: (Adjoints {
                        head: cash_bumps(start.out.head, cash@, t, x, j as nat),
                        ..start.out
                    }),
                    ..start
                }),
            decreases cash@.len() - j,
        {
            if cash[j] == t {
                self.out.bump(m, 5 + j, x);
            }
            j = j + 1;
        }
    }

    fn add_node<M: Math<R>, C: RateMarket<R>>(
        &mut self,
        m: &M,
        c: &C,
        path: &StochasticDividendHullWhitePathPlan<R>,
        i: usize,
        row: &JacobianRow<R>,
        s: StochasticDividendHullWhiteState<R>,
        seed: SpotSeed<R>,
    ) -> (r: Result<(), MonteCarloError>)
        requires
            path@.valid(),
            i < path@.nodes.len(),
            row@.len() == path@.nodes[i as int].claims.len(),
            jacobians_shaped(row@),
            old(self)@.out.head.len() == 5 + path@.cash_times.len(),
            old(self)@.out.head.len() <= usize::MAX,
        ensures
            follows(
                r,
                final(self)@,
                with_node(m.model(), *c, path@, old(self)@, i as int, row@, s, seed),
            ),
            alike(old(self)@.out, final(self)@.out),
    {
        m.laws();
        assert(path@.nodes[i as int] == path.nodes@[i as int]@);
        let node = &path.nodes[i];
        let both = seed.post + seed.pre;
        let growth = node.residual_growth * m.exp(
            s.integrated_rate_factor + node.half_integral_variance,
        );
        let equity = s.factors.equity;
        let risky_spot = path.risky_spot;
        self.out.bump(m, 0, both * growth * equity);
        self.funding_bar = self.funding_bar - both * growth * equity;
        self.f_bar = self.f_bar + both * risky_spot * growth;
        self.growth_seed = both * (risky_spot * growth * equity);
        if let Err(e) = self.add_claims(m, c, path, i, row, s, both) {
            return Err(e);
        }
        let grown = self.growth_seed;
        if let Err(e) = self.out.add_curves(c, path.times[i], grown.neg(), grown) {
            return Err(e);
        }
        let paid = match node.event_cash {
            Some(x) => x,
            None => R::from(0u32),
        };
        self.y_bar = self.y_bar + seed.pre * paid;
        self.add_cash(m, &path.cash_times, path.times[i], seed.pre * s.factors.dividend);
        Ok(())
    }

    fn add_step<M: Math<R>, Y: DividendDynamics<R>>(
        &mut self,
        m: &M,
        y: &Y,
        path: &StochasticDividendHullWhitePathPlan<R>,
        dt: R,
        z0: R,
        z1: R,
        now: StochasticDividendHullWhiteState<R>,
        old_state: StochasticDividendHullWhiteState<R>,
    )
        requires
            old(self)@.out.head.len() >= 5,
        ensures
            final(self)@ == with_step(
                m.model(),
                *y,
                path@,
                old(self)@,
                dt,
                z0,
                z1,
                now,
                old_state,
            ),
            alike(old(self)@.out, final(self)@.out),
    {
        m.laws();
        let model = path.model;
        let alpha = model.equity_linkage;
        let rho = model.equity_dividend_correlation;
        let volatility = path.volatility;
        let root = m.sqrt(dt);
        let weights = y.decay(model.mean_reversion, (R::from(1u32) / R::from(2u32)) * dt);
        let (a, b) = (weights.first, weights.second);
        let old_target = y.target(model, old_state.factors.equity);
        let now_target = y.target(model, now.factors.equity);
        let half_way = y.blend(weights, old_state.factors.dividend, old_target);
        let v = model.dividend_volatility * root;
        let zd = rho * z0 + m.sqrt((R::from(1u32) - rho) * (R::from(1u32) + rho)) * z1;
        let ed = m.exp((R::from(1u32) / R::from(2u32)).neg() * v * v + v * zd);
        let noise = half_way * ed;
        let u = volatility * root;
        let ef = m.exp((R::from(1u32) / R::from(2u32)).neg() * u * u + u * z0);
        let f_bar = self.f_bar;
        let y_bar = self.y_bar;
        let noise_bar = a * y_bar;
        let next_f_bar = f_bar + b * alpha * y_bar;
        let half_bar = noise_bar * ed;
        self.out.bump(
            m,
            2,
            y_bar * ((R::from(1u32) / R::from(2u32)).neg() * dt * a) * (noise - now_target),
        );
        self.out.bump(m, 3, y_bar * b * (now.factors.equity - R::from(1u32)));
        self.out.bump(m, 4, noise_bar * noise * (zd - v) * root);
        self.out.bump(m, 1, next_f_bar * now.factors.equity * (z0 - u) * root);
        self.out.bump(
            m,
            2,
            half_bar * (
                (R::from(1u32) / R::from(2u32)).neg() * dt * a
            ) * (old_state.factors.dividend - old_target),
        );
        self.out.bump(m, 3, half_bar * b * (old_state.factors.equity - R::from(1u32)));
        self.f_bar = next_f_bar * ef + half_bar * b * alpha;
        self.y_bar = half_bar * a;
    }
}

proof fn rate_swept_stops<R: Scalar, Y: DividendDynamics<R>, C: RateMarket<R>>(
    m: Model<R>,
    y: Y,
    c: C,
    k: RateContextView<R>,
    p: RatePathView<R>,
    z: Seq<R>,
    states: Seq<StochasticDividendHullWhiteState<R>>,
    seeds: Seq<SpotSeed<R>>,
    payoff: R,
    a: int,
    i: int,
)
    requires
        i <= a,
        rate_swept(m, y, c, k, p, z, states, seeds, payoff, a) is Err,
    ensures
        rate_swept(m, y, c, k, p, z, states, seeds, payoff, i) == rate_swept(
            m,
            y,
            c,
            k,
            p,
            z,
            states,
            seeds,
            payoff,
            a,
        ),
    decreases a - i,
{
    if i < a {
        rate_swept_stops(m, y, c, k, p, z, states, seeds, payoff, a, i + 1);
    }
}

impl<R: Scalar> HullWhiteReverseContext<R> {
    fn start_sweep<M: Math<R>>(&self, m: &M, payoff: R, head: usize) -> (w: SweepTable<R>)
        requires
            self@.payment_weights.len() == self@.count(),
            self@.count() <= usize::MAX,
            head == 5 + self@.cash_times.len(),
        ensures
            w@.out == ({
                let out = Seq::new(
                    self@.count(),
                    |j: int| times(self@.payment_weights[j], payoff),
                );
                let split = head + self@.discount_times.len();
                Adjoints {
                    head: out.subrange(0, head as int),
                    discount: out.subrange(head as int, split as int),
                    repo: out.subrange(split as int, self@.count() as int),
                }
            }),
            w@.f_bar == literal::<R>(0),
            w@.y_bar == literal::<R>(0),
            w@.funding_bar == literal::<R>(0),
            w@.growth_seed == literal::<R>(0),
            w@.out.sized(head as nat, self@.discount_times.len(), self@.repo_spread_times.len()),
    {
        m.laws();
        let n = self.payment_weights.len();
        let ghost scaled = |j: int| times(self@.payment_weights[j], payoff);
        let out_at = |j: usize| -> (x: R)
            requires
                j < n,
            ensures
                x == scaled(j as int),
            {
                m.laws();
                self.payment_weights[j] * payoff
            };
        let out = build(
            n,
            out_at,
            Ghost(scaled),
        );
        let d = self.discount_times.len();
        let q = self.repo_spread_times.len();
        let zero = R::from(0u32);
        SweepTable {
            out: AdjointTable {
                head: taken(&out, 0, head),
                discount: taken(&out, head, d),
                repo: taken(&out, head + d, q),
            },
            f_bar: zero,
            y_bar: zero,
            funding_bar: zero,
            growth_seed: zero,
        }
    }

    fn sweep<M: Math<R>, Y: DividendDynamics<R>, C: RateMarket<R>>(
        &self,
        m: &M,
        y: &Y,
        c: &C,
        path: &StochasticDividendHullWhitePathPlan<R>,
        normals: &Vec<R>,
        states: &Vec<StochasticDividendHullWhiteState<R>>,
        seeds: &Vec<SpotSeed<R>>,
        payoff: R,
    ) -> (r: Result<SweepTable<R>, MonteCarloError>)
        requires
            path@.valid(),
            self@.of(path@),
            normals@.len() == path@.dimension,
            states@.len() == path@.times.len(),
            seeds@.len() == states@.len(),
        ensures
            viewed(r) == rate_swept(
                m.model(),
                *y,
                *c,
                self@,
                path@,
                normals@,
                states@,
                seeds@,
                payoff,
                0,
            ),
            r matches Ok(w) ==> w@.out.all().len() == self@.count(),
    {
        let head: usize = 5 + path.cash_times.len();
        let mut w = self.start_sweep(m, payoff, head);
        let mut left: usize = states.len();
        while left > 0
            invariant
                path@.valid(),
                self@.of(path@),
                normals@.len() == path@.dimension,
                states@.len() == path@.times.len(),
                seeds@.len() == states@.len(),
                left <= states@.len(),
                head == 5 + path@.cash_times.len(),
                w@.out.sized(
                    head as nat,
                    self@.discount_times.len(),
                    self@.repo_spread_times.len(),
                ),
                rate_swept(
                    m.model(),
                    *y,
                    *c,
                    self@,
                    path@,
                    normals@,
                    states@,
                    seeds@,
                    payoff,
                    left as int,
                ) == Ok::<RateSweep<R>, MonteCarloError>(w@),
            decreases left,
        {
            let i: usize = left - 1;
            proof {
                if rate_swept(
                    m.model(),
                    *y,
                    *c,
                    self@,
                    path@,
                    normals@,
                    states@,
                    seeds@,
                    payoff,
                    i as int,
                ) is Err {
                    rate_swept_stops(
                        m.model(),
                        *y,
                        *c,
                        self@,
                        path@,
                        normals@,
                        states@,
                        seeds@,
                        payoff,
                        i as int,
                        0,
                    );
                }
                assert(self@.claims[i as int] == self.claims@[i as int]@);
                assert(self@.claims[i as int].len() == path@.nodes[i as int].claims.len());
                assert(jacobians_shaped(self@.claims[i as int]));
            }
            if let Err(e) = w.add_node(m, c, path, i, &self.claims[i], states[i], seeds[i]) {
                return Err(e);
            }
            if i > 0 {
                let at: usize = 4 * (i - 1);
                assert(path@.steps[i - 1] == path.steps@[i - 1]@);
                w.add_step(
                    m,
                    y,
                    path,
                    path.steps[i - 1].dt,
                    normals[at],
                    normals[at + 1],
                    states[i],
                    states[i - 1],
                );
            }
            left = i;
        }
        Ok(w)
    }

    /// Takes the derivatives of a path.
    pub fn pullback<M: Math<R>, Y: DividendDynamics<R>, C: RateMarket<R>>(
        &self,
        m: &M,
        y: &Y,
        c: &C,
        path: &StochasticDividendHullWhitePathPlan<R>,
        normals: &Vec<R>,
        states: &Vec<StochasticDividendHullWhiteState<R>>,
        seeds: &Vec<SpotSeed<R>>,
        discounted_payoff: R,
    ) -> (r: Result<Vec<R>, MonteCarloError>)
        requires
            path@.valid(),
            self@.of(path@),
        ensures
            seen(r) == rate_pullback(
                m.model(),
                *y,
                *c,
                self@,
                path@,
                normals@,
                states@,
                seeds@,
                discounted_payoff,
            ),
            r matches Ok(v) ==> v@.len() == self@.count(),
    {
        if normals.len() != path.dimension as usize || states.len() != path.times.len()
            || seeds.len() != states.len() {
            return Err(invalid("hw_reverse_shape"));
        }
        if !m.is_finite(discounted_payoff) || !all_finite(m, normals.as_slice())
            || !are_seeds_finite(m, seeds) {
            return Err(invalid("hw_reverse_seed"));
        }
        let w = match self.sweep(m, y, c, path, normals, states, seeds, discounted_payoff) {
            Err(e) => return Err(e),
            Ok(v) => v,
        };
        let funding_bar = w.funding_bar;
        let all = join(w.out);
        let n = all.len();
        let ghost entry = |j: int| plus(all@[j], times(funding_bar, self@.funding[j]));
        let out_at = |j: usize| -> (x: R)
            requires
                j < n,
            ensures
                x == entry(j as int),
            {
                m.laws();
                all[j] + funding_bar * self.funding[j]
            };
        let out = build(
            n,
            out_at,
            Ghost(entry),
        );
        assert(out@ =~= Seq::new(
            all@.len(),
            |j: int| plus(all@[j], times(funding_bar, self@.funding[j])),
        ));
        if !all_finite(m, out.as_slice()) {
            return Err(invalid("hw_reverse_result"));
        }
        Ok(out)
    }
}

proof fn curves_keep_sizes<R: Scalar, C: RateMarket<R>>(
    c: C,
    w: Adjoints<R>,
    t: R,
    discount: R,
    repo: R,
)
    ensures
        with_curves(c, w, t, discount, repo) matches Ok(v) ==> alike(w, v) && v.head == w.head,
{
    c.transposes_keep_sizes(t, discount, w.discount);
    c.transposes_keep_sizes(t, repo, w.repo);
}

proof fn row_bumps_keep_size<R: Scalar>(
    head: Seq<R>,
    amount: R,
    rows: Seq<Seq<R>>,
    s: StochasticDividendHullWhiteState<R>,
    n: nat,
)
    requires
        n < head.len(),
    ensures
        row_bumps(head, amount, rows, s, n).len() == head.len(),
    decreases n,
{
    if n > 0 {
        row_bumps_keep_size(head, amount, rows, s, (n - 1) as nat);
    }
}

proof fn cash_bumps_keep_size<R: Scalar>(head: Seq<R>, cash: Seq<R>, t: R, x: R, n: nat)
    requires
        5 + n <= head.len(),
    ensures
        cash_bumps(head, cash, t, x, n).len() == head.len(),
    decreases n,
{
    if n > 0 {
        cash_bumps_keep_size(head, cash, t, x, (n - 1) as nat);
    }
}

proof fn claims_keep_sizes<R: Scalar, C: RateMarket<R>>(
    m: Model<R>,
    c: C,
    p: RatePathView<R>,
    w: RateSweep<R>,
    i: int,
    row: Seq<ClaimJacobianView<R>>,
    s: StochasticDividendHullWhiteState<R>,
    seed: R,
    n: nat,
)
    requires
        p.valid(),
        0 <= i < p.nodes.len(),
        n <= p.nodes[i].claims.len(),
        w.out.head.len() == 5 + p.cash_times.len(),
    ensures
        with_claims(m, c, p, w, i, row, s, seed, n) matches Ok(v) ==> alike(w.out, v.out),
    decreases n,
{
    if n > 0 {
        claims_keep_sizes(m, c, p, w, i, row, s, seed, (n - 1) as nat);
        if let Ok(v) = with_claims(m, c, p, w, i, row, s, seed, (n - 1) as nat) {
            let (claim, j) = (p.nodes[i].claims[n - 1], row[n - 1]);
            let unit = times(j.unit, m.exp(times(negated(claim.duration), s.rate_factor)));
            let amount = times(unit, p.cash_means[claim.index as int]);
            let value_seed = times(times(seed, amount), projection(claim, s.factors));
            let placed = bumped(
                v.out.head,
                5 + claim.index,
                times(times(seed, unit), projection(claim, s.factors)),
            );
            let head = row_bumps(placed, times(seed, amount), j.rows, s, 4);
            row_bumps_keep_size(placed, times(seed, amount), j.rows, s, 4);
            curves_keep_sizes(
                c,
                Adjoints { head, ..v.out },
                p.cash_times[claim.index as int],
                value_seed,
                negated(value_seed),
            );
        }
    }
}

proof fn node_keeps_sizes<R: Scalar, C: RateMarket<R>>(
    m: Model<R>,
    c: C,
    p: RatePathView<R>,
    w: RateSweep<R>,
    i: int,
    row: Seq<ClaimJacobianView<R>>,
    s: StochasticDividendHullWhiteState<R>,
    seed: SpotSeed<R>,
)
    requires
        p.valid(),
        0 <= i < p.nodes.len(),
        w.out.head.len() == 5 + p.cash_times.len(),
    ensures
        with_node(m, c, p, w, i, row, s, seed) matches Ok(v) ==> alike(w.out, v.out),
{
    let both = plus(seed.post, seed.pre);
    let growth = node_growth(m, p.nodes[i], s);
    let equity = s.factors.equity;
    let start = RateSweep {
        out: Adjoints { head: bumped(w.out.head, 0, times(times(both, growth), equity)), ..w.out },
        f_bar: plus(w.f_bar, times(times(both, p.risky_spot), growth)),
        y_bar: w.y_bar,
        funding_bar: minus(w.funding_bar, times(times(both, growth), equity)),
        growth_seed: times(both, times(times(p.risky_spot, growth), equity)),
    };
    let n = p.nodes[i].claims.len();
    claims_keep_sizes(m, c, p, start, i, row, s, both, n);
    if let Ok(v) = with_claims(m, c, p, start, i, row, s, both, n) {
        curves_keep_sizes(c, v.out, p.times[i], negated(v.growth_seed), v.growth_seed);
        let x = times(seed.pre, s.factors.dividend);
        cash_bumps_keep_size(v.out.head, p.cash_times, p.times[i], x, p.cash_times.len());
    }
}

proof fn sweep_is_sized<R: Scalar, Y: DividendDynamics<R>, C: RateMarket<R>>(
    m: Model<R>,
    y: Y,
    c: C,
    k: RateContextView<R>,
    p: RatePathView<R>,
    z: Seq<R>,
    states: Seq<StochasticDividendHullWhiteState<R>>,
    seeds: Seq<SpotSeed<R>>,
    payoff: R,
    i: int,
)
    requires
        p.valid(),
        states.len() == p.times.len(),
        k.cash_times == p.cash_times,
        0 <= i,
    ensures
        rate_swept(m, y, c, k, p, z, states, seeds, payoff, i) matches Ok(w) ==> w.out.sized(
            5 + p.cash_times.len(),
            k.discount_times.len(),
            k.repo_spread_times.len(),
        ),
    decreases states.len() - i,
{
    if i < states.len() {
        sweep_is_sized(m, y, c, k, p, z, states, seeds, payoff, i + 1);
        if let Ok(w) = rate_swept(m, y, c, k, p, z, states, seeds, payoff, i + 1) {
            node_keeps_sizes(m, c, p, w, i, k.claims[i], states[i], seeds[i]);
        }
    }
}

/// A pullback has one derivative for each parameter.
pub proof fn pullback_is_sized<R: Scalar, Y: DividendDynamics<R>, C: RateMarket<R>>(
    m: Model<R>,
    y: Y,
    c: C,
    k: RateContextView<R>,
    p: RatePathView<R>,
    z: Seq<R>,
    states: Seq<StochasticDividendHullWhiteState<R>>,
    seeds: Seq<SpotSeed<R>>,
    payoff: R,
)
    requires
        p.valid(),
        k.cash_times == p.cash_times,
    ensures
        rate_pullback(m, y, c, k, p, z, states, seeds, payoff) matches Ok(v) ==> v.len()
            == k.count(),
{
    if states.len() == p.times.len() {
        sweep_is_sized(m, y, c, k, p, z, states, seeds, payoff, 0);
    }
}

} // verus!
