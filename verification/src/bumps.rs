//! Finite bumps: which are admissible, and central differences under common
//! shocks.

use crate::engine::EngineConfig;
use crate::errors::{invalid, invalid_field, MonteCarloError};
use crate::estimation::{estimate, estimated, simulate, simulated, Estimates, Job};
use crate::extension::{
    begins, estimates_are_their_own, quantities_extend, wider_simulation_keeps_statistics,
};
use crate::results::{gather, gather_begins, gather_stops};
use crate::sampling::{as_they_are, Backend, Contribution, Quantities};
use crate::scalar::{
    ge, gt, lawful, le, literal, lt, minus, negated, over, plus, times, Math, Model, Scalar,
};
use crate::world::{discounted_payoff, path_value, World};
use core::ops::Neg;
use vstd::prelude::*;

verus! {

/// The range that a bumped parameter may not leave.
#[derive(Clone, Copy, Debug, PartialEq, Eq, Structural)]
pub enum Domain {
    /// At least zero.
    Nonnegative,
    /// From zero to one.
    UnitInterval,
    /// From minus one to one.
    Correlation,
}

/// Both sides of the bump stay in the domain.
pub open spec fn stays_in<R: Scalar>(domain: Domain, parameter: R, bump: R) -> bool {
    match domain {
        Domain::Nonnegative => !lt(minus(parameter, bump), literal(0)),
        Domain::UnitInterval => !lt(minus(parameter, bump), literal(0)) && !gt(
            plus(parameter, bump),
            literal(1),
        ),
        Domain::Correlation => !lt(minus(parameter, bump), negated(literal(1))) && !gt(
            plus(parameter, bump),
            literal(1),
        ),
    }
}

/// The bump is admissible: finite, positive, inside the domain on both sides,
/// and large enough to move the parameter on both sides.
pub open spec fn admissible<R: Scalar>(m: Model<R>, domain: Domain, parameter: R, bump: R) -> bool {
    &&& m.is_finite(parameter)
    &&& m.is_finite(bump)
    &&& !le(bump, literal(0))
    &&& stays_in(domain, parameter, bump)
    &&& !ge(minus(parameter, bump), parameter)
    &&& !le(plus(parameter, bump), parameter)
}

/// Refuses a bump that is not admissible, by the name of the field.
pub fn validate_bump<R: Scalar, M: Math<R>>(
    m: &M,
    domain: Domain,
    parameter: R,
    bump: R,
    field: &'static str,
) -> (r: Result<(), MonteCarloError>)
    ensures
        r == (if admissible(m.model(), domain, parameter, bump) {
            Ok(())
        } else {
            Err(invalid_field(field))
        }),
{
    m.laws();
    let zero = R::from(0u32);
    let one = R::from(1u32);
    if !m.is_finite(parameter) || !m.is_finite(bump) || bump <= zero {
        return Err(invalid(field));
    }
    let down = parameter - bump;
    let up = parameter + bump;
    let leaves = match domain {
        Domain::Nonnegative => down < zero,
        Domain::UnitInterval => down < zero || up > one,
        Domain::Correlation => down < one.neg() || up > one,
    };
    if leaves || down >= parameter || up <= parameter {
        return Err(invalid(field));
    }
    Ok(())
}

/// A bump to be validated: domain, parameter, bump, and the name of the field.
#[derive(Clone, Copy, Debug)]
pub struct Bump<R> {
    pub domain: Domain,
    pub parameter: R,
    pub size: R,
    pub field: &'static str,
}

/// Whether the bump `i` is admissible.
pub open spec fn bump_check<R: Scalar>(m: Model<R>, bumps: Seq<Bump<R>>) -> spec_fn(int) -> Result<
    (),
    MonteCarloError,
> {
    |i: int|
        if admissible(m, bumps[i].domain, bumps[i].parameter, bumps[i].size) {
            Ok(())
        } else {
            Err(invalid_field(bumps[i].field))
        }
}

/// All bumps are admissible, or else the first that is not is refused.
pub open spec fn bumps_checked<R: Scalar>(m: Model<R>, bumps: Seq<Bump<R>>) -> Result<
    (),
    MonteCarloError,
> {
    match gather(bumps.len(), bump_check(m, bumps)) {
        Ok(_) => Ok(()),
        Err(e) => Err(e),
    }
}

/// Refuses the first bump that is not admissible.
pub fn validate_bumps<R: Scalar, M: Math<R>>(m: &M, bumps: &Vec<Bump<R>>) -> (r: Result<
    (),
    MonteCarloError,
>)
    ensures
        r == bumps_checked(m.model(), bumps@),
{
    let ghost f = bump_check(m.model(), bumps@);
    let ghost mut done: Seq<()> = Seq::empty();
    let mut i: usize = 0;
    while i < bumps.len()
        invariant
            i <= bumps@.len(),
            f == bump_check(m.model(), bumps@),
            gather(i as nat, f) == Ok::<Seq<()>, MonteCarloError>(done),
        decreases bumps@.len() - i,
    {
        let bump = &bumps[i];
        let checked = validate_bump(m, bump.domain, bump.parameter, bump.size, bump.field);
        assert(checked == f(i as int));
        match checked {
            Err(e) => {
                proof {
                    assert(gather((i + 1) as nat, f) == Err::<Seq<()>, MonteCarloError>(e));
                    gather_stops((i + 1) as nat, bumps@.len(), f);
                }
                return Err(e);
            },
            Ok(u) => {
                proof {
                    done = done.push(u);
                }
            },
        }
        i = i + 1;
    }
    Ok(())
}

/// A parameter moved down or up by its bump.
pub open spec fn moved<R: Scalar>(parameter: R, bump: R, up: bool) -> R {
    if up {
        plus(parameter, bump)
    } else {
        minus(parameter, bump)
    }
}

/// Moves a parameter down or up by its bump.
pub fn shift<R: Scalar, M: Math<R>>(m: &M, parameter: R, bump: R, up: bool) -> (x: R)
    ensures
        x == moved(parameter, bump, up),
{
    m.laws();
    if up {
        parameter + bump
    } else {
        parameter - bump
    }
}

/// The sizes of the bumps.
pub open spec fn sizes<R>(bumps: Seq<Bump<R>>) -> Seq<R> {
    Seq::new(bumps.len(), |i: int| bumps[i].size)
}

/// Takes the sizes of the bumps.
pub fn bump_sizes<R: Scalar>(bumps: &Vec<Bump<R>>) -> (s: Vec<R>)
    ensures
        s@ == sizes(bumps@),
{
    let mut s: Vec<R> = Vec::new();
    let mut i: usize = 0;
    while i < bumps.len()
        invariant
            i <= bumps@.len(),
            s@.len() == i,
            forall|k: int| 0 <= k < i ==> #[trigger] s@[k] == bumps@[k].size,
        decreases bumps@.len() - i,
    {
        s.push(bumps[i].size);
        i = i + 1;
    }
    assert(s@ =~= sizes(bumps@));
    s
}

/// The central difference of two values over twice a bump.
pub open spec fn central_difference<R: Scalar>(down: R, up: R, bump: R) -> R {
    over(minus(up, down), times(literal(2), bump))
}

/// The value of the base path (`0`) or of a scenario (`1 + k`).
pub open spec fn scenario_value<R: Scalar, W: World<R>>(
    w: W,
    base: W::Path,
    scenarios: Seq<W::Path>,
    shocks: Seq<R>,
) -> spec_fn(int) -> Result<R, MonteCarloError> {
    |k: int|
        if k == 0 {
            path_value(w, base, shocks)
        } else {
            path_value(w, scenarios[k - 1], shocks)
        }
}

/// The price, then for each parameter the central difference of its down and
/// up scenarios, which stand at `2 * parameter` and `2 * parameter + 1`. All
/// under the same shocks; the first path that fails is the failure.
pub open spec fn differences<R: Scalar, W: World<R>>(
    w: W,
    base: W::Path,
    scenarios: Seq<W::Path>,
    bumps: Seq<R>,
) -> spec_fn(Seq<R>) -> Result<Seq<R>, MonteCarloError> {
    |shocks: Seq<R>|
        match gather(1 + scenarios.len(), scenario_value(w, base, scenarios, shocks)) {
            Err(e) => Err(e),
            Ok(values) => Ok(difference_row(values, bumps)),
        }
}

/// The price and the central differences of the values of all paths.
pub open spec fn difference_row<R: Scalar>(values: Seq<R>, bumps: Seq<R>) -> Seq<R> {
    Seq::new(
        1 + bumps.len(),
        |j: int|
            if j == 0 {
                values[0]
            } else {
                central_difference(values[2 * j - 1], values[2 * j], bumps[j - 1])
            },
    )
}

/// The price and the central differences of a bumped plan.
pub open spec fn difference_quantities<R: Scalar, W: World<R>>(
    w: W,
    base: W::Path,
    scenarios: Seq<W::Path>,
    bumps: Seq<R>,
) -> Quantities<R> {
    Quantities {
        width: 1 + bumps.len(),
        terms: differences(w, base, scenarios, bumps),
        finish: as_they_are(),
    }
}

/// The paths of a bumped plan, with what is needed to value them.
pub struct BumpTerms<'a, R: Scalar, M: Math<R>, W: World<R>> {
    m: &'a M,
    w: &'a W,
    base: &'a W::Path,
    scenarios: &'a Vec<W::Path>,
    bumps: &'a Vec<R>,
}

impl<'a, R: Scalar, M: Math<R>, W: World<R>> BumpTerms<'a, R, M, W> {
    #[verifier::type_invariant]
    closed spec fn inv(self) -> bool {
        self.scenarios@.len() == 2 * self.bumps@.len() && self.scenarios@.len() < usize::MAX
    }

    /// The number of quantities.
    pub closed spec fn count(self) -> nat {
        1 + self.bumps@.len()
    }

    /// The price and the central differences.
    pub closed spec fn estimated(self) -> Quantities<R> {
        difference_quantities(*self.w, *self.base, self.scenarios@, self.bumps@)
    }

    /// The paths of a bumped plan.
    pub fn new(
        m: &'a M,
        w: &'a W,
        base: &'a W::Path,
        scenarios: &'a Vec<W::Path>,
        bumps: &'a Vec<R>,
    ) -> (t: Self)
        requires
            scenarios@.len() == 2 * bumps@.len(),
            scenarios@.len() < usize::MAX,
        ensures
            t.estimated() == difference_quantities(*w, *base, scenarios@, bumps@),
    {
        BumpTerms { m, w, base, scenarios, bumps }
    }
}

impl<'a, R: Scalar, M: Math<R>, W: World<R>> Contribution<R> for BumpTerms<'a, R, M, W> {
    closed spec fn term_count(&self) -> nat {
        self.count()
    }

    open spec fn quantities(&self) -> Quantities<R> {
        self.estimated()
    }

    fn contribute(&self, shocks: &Vec<R>) -> (r: Result<Vec<R>, MonteCarloError>) {
        proof {
            use_type_invariant(self);
        }
        self.m.laws();
        let ghost f = scenario_value(*self.w, *self.base, self.scenarios@, shocks@);
        let mut values: Vec<R> = Vec::new();
        let count: usize = self.scenarios.len() + 1;
        let mut k: usize = 0;
        while k < count
            invariant
                k <= count,
                count == self.scenarios@.len() + 1,
                f == scenario_value(*self.w, *self.base, self.scenarios@, shocks@),
                values@.len() == k,
                gather(k as nat, f) == Ok::<Seq<R>, MonteCarloError>(values@),
            decreases count - k,
        {
            let value = if k == 0 {
                discounted_payoff(self.w, self.base, shocks)
            } else {
                discounted_payoff(self.w, &self.scenarios[k - 1], shocks)
            };
            assert(value == f(k as int));
            match value {
                Err(e) => {
                    proof {
                        assert(gather((k + 1) as nat, f) == Err::<Seq<R>, MonteCarloError>(e));
                        gather_stops((k + 1) as nat, count as nat, f);
                    }
                    return Err(e);
                },
                Ok(x) => {
                    values.push(x);
                },
            }
            k = k + 1;
        }
        let two = R::from(2u32);
        let mut terms: Vec<R> = Vec::new();
        terms.push(values[0]);
        let mut parameter: usize = 0;
        while parameter < self.bumps.len()
            invariant
                lawful::<R>(),
                two == literal::<R>(2),
                parameter <= self.bumps@.len(),
                values@.len() == 1 + 2 * self.bumps@.len(),
                values@.len() <= usize::MAX,
                terms@.len() == 1 + parameter,
                terms@[0] == values@[0],
                forall|j: int|
                    1 <= j <= parameter ==> #[trigger] terms@[j] == central_difference(
                        values@[2 * j - 1],
                        values@[2 * j],
                        self.bumps@[j - 1],
                    ),
            decreases self.bumps@.len() - parameter,
        {
            let down = values[2 * parameter + 1];
            let up = values[2 * parameter + 2];
            terms.push((up - down) / (two * self.bumps[parameter]));
            parameter = parameter + 1;
        }
        assert(terms@ =~= difference_row(values@, self.bumps@));
        Ok(terms)
    }

    fn finish(&self, row: Vec<R>) -> (r: Result<Vec<R>, MonteCarloError>) {
        Ok(row)
    }
}

/// The estimates of a bumped plan: of the price, then of each derivative.
pub open spec fn bump_estimates<R: Scalar, B: Backend<R>, W: World<R>>(
    m: Model<R>,
    b: B,
    w: W,
    base: W::Path,
    scenarios: Seq<W::Path>,
    bumps: Seq<R>,
    job: Job,
    error_field: &'static str,
    field: &'static str,
) -> Result<(Seq<R>, Seq<R>), MonteCarloError> {
    match simulated(m, b, difference_quantities(w, base, scenarios, bumps), job) {
        Err(e) => Err(e),
        Ok(statistics) => estimated(m, statistics, job.engine.units(), error_field, field),
    }
}

/// Estimates the price and the derivatives of a bumped plan.
pub fn estimate_bumps<R: Scalar, M: Math<R>, B: Backend<R>, W: World<R>>(
    m: &M,
    b: &B,
    w: &W,
    base: &W::Path,
    scenarios: &Vec<W::Path>,
    bumps: &Vec<R>,
    job: &Job,
    error_field: &'static str,
    field: &'static str,
) -> (r: Result<Estimates<R>, MonteCarloError>)
    requires
        job.valid(),
        scenarios@.len() == 2 * bumps@.len(),
        scenarios@.len() < usize::MAX,
    ensures
        (match r {
            Ok(e) => Ok((e.values@, e.errors@)),
            Err(e) => Err(e),
        }) == bump_estimates(
            m.model(),
            *b,
            *w,
            *base,
            scenarios@,
            bumps@,
            *job,
            error_field,
            field,
        ),
        r matches Ok(e) ==> e.values@.len() == 1 + bumps@.len() && e.errors@.len() == 1
            + bumps@.len(),
{
    let terms = BumpTerms::new(m, w, base, scenarios, bumps);
    match simulate(m, b, &terms, job, bumps.len() + 1) {
        Err(e) => Err(e),
        Ok(statistics) => {
            let units: u64 = match job.engine {
                EngineConfig::PseudoMonteCarlo(config) => config.independent_sampling_units,
                EngineConfig::RandomizedQuasiMonteCarlo(config) => config.scramble_count as u64,
            };
            estimate(m, &statistics, units, error_field, field)
        },
    }
}

/// The first bumps of a plan have the terms that they have without the others.
pub proof fn later_bumps_append<R: Scalar, W: World<R>>(
    w: W,
    base: W::Path,
    scenarios: Seq<W::Path>,
    bumps: Seq<R>,
    n: nat,
)
    requires
        n <= bumps.len(),
        scenarios.len() == 2 * bumps.len(),
    ensures
        quantities_extend(
            difference_quantities(w, base, scenarios.take((2 * n) as int), bumps.take(n as int)),
            difference_quantities(w, base, scenarios, bumps),
        ),
{
    let short = difference_quantities(
        w,
        base,
        scenarios.take((2 * n) as int),
        bumps.take(n as int),
    );
    let long = difference_quantities(w, base, scenarios, bumps);
    assert forall|z: Seq<R>|
        begins((short.terms)(z), #[trigger] (long.terms)(z), short.width, long.width) by {
        let f = scenario_value(w, base, scenarios.take((2 * n) as int), z);
        let g = scenario_value(w, base, scenarios, z);
        gather_begins(1 + 2 * n, 1 + scenarios.len(), f, g);
        if let Ok(values) = gather(1 + scenarios.len(), g) {
            assert(difference_row(values.take((1 + 2 * n) as int), bumps.take(n as int))
                =~= difference_row(values, bumps).take(short.width as int));
        }
    }
}

/// The estimates of the price and of the first bumps of a plan do not depend on the
/// others, wherever both can be had.
pub proof fn later_bumps_do_not_matter<R: Scalar, B: Backend<R>, W: World<R>>(
    m: Model<R>,
    b: B,
    w: W,
    base: W::Path,
    scenarios: Seq<W::Path>,
    bumps: Seq<R>,
    others: Seq<W::Path>,
    sizes: Seq<R>,
    n: nat,
    job: Job,
    error_field: &'static str,
    field: &'static str,
    j: int,
)
    requires
        0 <= j <= n <= bumps.len(),
        n <= sizes.len(),
        scenarios.len() == 2 * bumps.len(),
        others.len() == 2 * sizes.len(),
        scenarios.take((2 * n) as int) == others.take((2 * n) as int),
        bumps.take(n as int) == sizes.take(n as int),
    ensures
        match (
            bump_estimates(m, b, w, base, scenarios, bumps, job, error_field, field),
            bump_estimates(m, b, w, base, others, sizes, job, error_field, field),
        ) {
            (Ok((values, errors)), Ok((same_values, same_errors))) => values[j] == same_values[j]
                && errors[j] == same_errors[j] && values.len() == 1 + bumps.len()
                && errors.len() == 1 + bumps.len() && same_values.len() == 1 + sizes.len()
                && same_errors.len() == 1 + sizes.len(),
            _ => true,
        },
{
    let short = difference_quantities(
        w,
        base,
        scenarios.take((2 * n) as int),
        bumps.take(n as int),
    );
    let long = difference_quantities(w, base, scenarios, bumps);
    let other = difference_quantities(w, base, others, sizes);
    later_bumps_append(w, base, scenarios, bumps, n);
    later_bumps_append(w, base, others, sizes, n);
    wider_simulation_keeps_statistics(m, b, short, long, job);
    wider_simulation_keeps_statistics(m, b, short, other, job);
    if let (Ok(s), Ok(t)) = (simulated(m, b, long, job), simulated(m, b, other, job)) {
        let k = short.width as int;
        assert(s.take(k)[j] == t.take(k)[j]);
        estimates_are_their_own(m, s, job.engine.units(), error_field, field, j);
        estimates_are_their_own(m, t, job.engine.units(), error_field, field, j);
    }
}

} // verus!
