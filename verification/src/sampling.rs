//! Draws: the normals of a path, the Brownian bridge over the factors, and the
//! average over a draw and its reflection.

use crate::engine::VarianceReduction;
use crate::errors::{invalid, invalid_field, MonteCarloError};
use crate::results::{gather, gather_stops, seen};
use crate::scalar::{lawful, literal, negated, over, plus, times, Math, Scalar};
use core::ops::Neg;
use vstd::prelude::*;

verus! {

/// What is kept of a reduction: its total, and its sample variance where there
/// are enough values for one.
#[derive(Clone, Copy, Debug, PartialEq)]
pub struct Statistics<R> {
    pub total: R,
    pub sample_variance: Option<R>,
}

/// What a simulation obtains from its surroundings.
pub trait Backend<R: Scalar> {
    /// The standard normal of a path in a dimension.
    spec fn normal_at(&self, path: u64, dimension: u32) -> R;

    /// The uniform of a scrambled point in a dimension, where there is one.
    spec fn uniform_at(&self, scramble: u32, point: u64, dimension: u32) -> Option<R>;

    /// The standard normal at which the distribution function is `u`, where
    /// there is one.
    spec fn inverse_at(&self, u: R) -> Option<R>;

    /// The draws of one factor after the Brownian bridge.
    spec fn bridge_of(&self, draws: Seq<R>) -> Result<Seq<R>, MonteCarloError>;

    /// The reduction of the values of the paths, in their order.
    spec fn reduction_of(&self, values: Seq<R>) -> Statistics<R>;

    /// The two-pass statistics of a few values, in their order.
    spec fn two_pass_of(&self, values: Seq<R>) -> Statistics<R>;

    /// Draws a standard normal.
    fn normal(&self, path: u64, dimension: u32) -> (z: R)
        ensures
            z == self.normal_at(path, dimension),
    ;

    /// Draws a uniform.
    fn uniform(&self, scramble: u32, point: u64, dimension: u32) -> (u: Option<R>)
        ensures
            u == self.uniform_at(scramble, point, dimension),
    ;

    /// Inverts the normal distribution function.
    fn inverse_normal(&self, u: R) -> (z: Option<R>)
        ensures
            z == self.inverse_at(u),
    ;

    /// Applies the Brownian bridge to the draws of one factor.
    fn bridge(&self, draws: &Vec<R>) -> (r: Result<Vec<R>, MonteCarloError>)
        ensures
            seen(r) == self.bridge_of(draws@),
            r matches Ok(v) ==> v@.len() == draws@.len(),
    ;

    /// Reduces the values of the paths.
    fn reduce(&self, values: &Vec<R>) -> (s: Statistics<R>)
        ensures
            s == self.reduction_of(values@),
    ;

    /// Takes the two-pass statistics of a few values.
    fn two_pass(&self, values: &Vec<R>) -> (s: Statistics<R>)
        ensures
            s == self.two_pass_of(values@),
    ;
}

/// The draws of the factor `factor` out of `count` interleaved factors.
pub open spec fn strided<R>(z: Seq<R>, factor: int, count: int) -> Seq<R> {
    Seq::new(
        ((z.len() - factor + count - 1) / count) as nat,
        |step: int| z[count * step + factor],
    )
}

/// The draws of one of `count` interleaved factors after the bridge.
pub open spec fn factor_bridge<R: Scalar, B: Backend<R>>(b: B, z: Seq<R>, count: int) -> spec_fn(
    int,
) -> Result<Seq<R>, MonteCarloError> {
    |factor: int| b.bridge_of(strided(z, factor, count))
}

/// The draws with each of `count` interleaved factors taken through the bridge
/// on its own, or the failure of the first factor that fails.
pub open spec fn bridged<R: Scalar, B: Backend<R>>(b: B, z: Seq<R>, count: int) -> Result<
    Seq<R>,
    MonteCarloError,
> {
    match gather(count as nat, factor_bridge(b, z, count)) {
        Err(e) => Err(e),
        Ok(outputs) => Ok(Seq::new(z.len(), |i: int| outputs[i % count][i / count])),
    }
}

proof fn lemma_stride(len: int, count: int, i: int)
    requires
        0 < count,
        0 <= i < len,
    ensures
        0 <= i % count < count,
        0 <= i / count < (len - i % count + count - 1) / count,
        count * (i / count) + i % count == i,
{
    assert(0 <= i % count < count && count * (i / count) + i % count == i && 0 <= i / count)
        by (nonlinear_arith)
        requires
            0 < count,
            0 <= i,
    ;
    let f = i % count;
    let q = i / count;
    assert(q < (len - f + count - 1) / count) by (nonlinear_arith)
        requires
            0 < count,
            count * q + f == i,
            i < len,
            0 <= f < count,
            0 <= q,
    ;
}

proof fn lemma_step(len: int, count: int, factor: int, step: int)
    requires
        0 <= factor < count,
        0 <= step < (len - factor + count - 1) / count,
    ensures
        0 <= count * step + factor < len,
        (count * step + factor) % count == factor,
        (count * step + factor) / count == step,
{
    assert(count * step + factor < len && 0 <= count * step + factor) by (nonlinear_arith)
        requires
            0 <= factor < count,
            0 <= step < (len - factor + count - 1) / count,
    ;
    assert(count * step == step * count) by (nonlinear_arith);
    vstd::arithmetic::div_mod::lemma_fundamental_div_mod_converse(
        count * step + factor,
        count,
        step,
        factor,
    );
}

/// Takes each of `count` interleaved factors of the draws through the bridge.
pub fn bridge_factors<R: Scalar, B: Backend<R>>(b: &B, draws: Vec<R>, count: usize) -> (r: Result<
    Vec<R>,
    MonteCarloError,
>)
    requires
        0 < count,
        draws@.len() + count <= usize::MAX,
    ensures
        seen(r) == bridged(*b, draws@, count as int),
{
    let ghost start = draws@;
    let ghost f = factor_bridge(*b, start, count as int);
    let ghost mut outputs: Seq<Seq<R>> = Seq::empty();
    let mut z = draws;
    let mut factor: usize = 0;
    while factor < count
        invariant
            0 < count,
            factor <= count,
            start == draws@,
            start.len() + count <= usize::MAX,
            z@.len() == start.len(),
            f == factor_bridge(*b, start, count as int),
            gather(factor as nat, f) == Ok::<Seq<Seq<R>>, MonteCarloError>(outputs),
            outputs.len() == factor,
            forall|i: int|
                0 <= i < z@.len() ==> #[trigger] z@[i] == (if i % (count as int) < factor {
                    outputs[i % (count as int)][i / (count as int)]
                } else {
                    start[i]
                }),
        decreases count - factor,
    {
        let mut input: Vec<R> = Vec::new();
        let mut i: usize = factor;
        let ghost want = strided(start, factor as int, count as int);
        proof {
            if start.len() <= factor {
                assert((start.len() - factor + count - 1) / count as int == 0) by (nonlinear_arith)
                    requires
                        0 <= start.len() <= factor < count,
                ;
            } else {
                assert((start.len() - factor + count - 1) / count as int > 0) by (nonlinear_arith)
                    requires
                        0 <= factor < count,
                        factor < start.len(),
                ;
            }
        }
        while i < z.len()
            invariant
                0 < count,
                factor < count,
                start.len() + count <= usize::MAX,
                z@.len() == start.len(),
                want == strided(start, factor as int, count as int),
                i == count * input@.len() + factor,
                input@.len() <= want.len(),
                forall|k: int| 0 <= k < input@.len() ==> #[trigger] input@[k] == want[k],
                forall|i: int|
                    0 <= i < z@.len() ==> #[trigger] z@[i] == (if i % (count as int) < factor {
                        outputs[i % (count as int)][i / (count as int)]
                    } else {
                        start[i]
                    }),
                i < start.len() ==> input@.len() < want.len(),
            decreases z@.len() + count - i,
        {
            proof {
                lemma_step(start.len() as int, count as int, factor as int, input@.len() as int);
            }
            input.push(z[i]);
            proof {
                let n = input@.len() as int;
                assert(count * n + factor == i + count) by (nonlinear_arith)
                    requires
                        i == count * (n - 1) + factor,
                ;
                if i + count < start.len() {
                    assert(n < (start.len() - factor + count - 1) / count as int)
                        by (nonlinear_arith)
                        requires
                            0 < count,
                            count * n + factor < start.len(),
                    ;
                }
            }
            i = i + count;
        }
        proof {
            if input@.len() > 0 {
                let n = input@.len() as int;
                assert(n >= (start.len() - factor + count - 1) / count as int) by (nonlinear_arith)
                    requires
                        0 < count,
                        count * n + factor >= start.len(),
                ;
            }
            assert(input@ =~= want);
        }
        match b.bridge(&input) {
            Err(e) => {
                proof {
                    assert(f(factor as int) == Err::<Seq<R>, MonteCarloError>(e));
                    assert(
                        gather((factor + 1) as nat, f) == Err::<Seq<Seq<R>>, MonteCarloError>(e)
                    );
                    gather_stops((factor + 1) as nat, count as nat, f);
                }
                return Err(e);
            },
            Ok(output) => {
                let ghost before = z@;
                proof {
                    assert(f(factor as int) == Ok::<Seq<R>, MonteCarloError>(output@));
                }
                let mut step: usize = 0;
                while step < output.len()
                    invariant
                        0 < count,
                        factor < count,
                        start.len() + count <= usize::MAX,
                        z@.len() == start.len(),
                        before.len() == start.len(),
                        step <= output@.len(),
                        output@.len() == want.len(),
                        want == strided(start, factor as int, count as int),
                        forall|i: int|
                            0 <= i < z@.len() ==> #[trigger] z@[i] == (if i % (count as int)
                                == factor && i / (count as int) < step {
                                output@[i / (count as int)]
                            } else {
                                before[i]
                            }),
                    decreases output@.len() - step,
                {
                    proof {
                        lemma_step(start.len() as int, count as int, factor as int, step as int);
                        assert(count * step <= usize::MAX) by {
                            assert(count * step + factor < start.len());
                        }
                    }
                    let at: usize = count * step + factor;
                    z.set(at, output[step]);
                    proof {
                        assert forall|i: int| 0 <= i < z@.len() implies #[trigger] z@[i]
                            == (if i % (
                        count as int) == factor && i / (count as int) < step + 1 {
                            output@[i / (count as int)]
                        } else {
                            before[i]
                        }) by {
                            lemma_stride(start.len() as int, count as int, i);
                        }
                    }
                    step = step + 1;
                }
                proof {
                    let next = outputs.push(output@);
                    assert forall|i: int| 0 <= i < z@.len() implies #[trigger] z@[i] == (if i % (
                    count as int) < factor + 1 {
                        next[i % (count as int)][i / (count as int)]
                    } else {
                        start[i]
                    }) by {
                        lemma_stride(start.len() as int, count as int, i);
                    }
                    outputs = next;
                }
            },
        }
        factor = factor + 1;
    }
    proof {
        assert(z@ =~= Seq::new(
            start.len(),
            |i: int| outputs[i % (count as int)][i / (count as int)],
        )) by {
            assert forall|i: int| 0 <= i < z@.len() implies z@[i] == outputs[i % (count as int)][i
                / (count as int)] by {
                lemma_stride(start.len() as int, count as int, i);
            }
        }
    }
    Ok(z)
}

/// The standard normals of a path, dimension by dimension.
pub open spec fn path_normals<R: Scalar, B: Backend<R>>(b: B, path: u64, dimension: u32) -> Seq<R> {
    Seq::new(dimension as nat, |d: int| b.normal_at(path, d as u32))
}

/// Draws the standard normals of a path.
pub fn draw_normals<R: Scalar, B: Backend<R>>(b: &B, path: u64, dimension: u32) -> (z: Vec<R>)
    ensures
        z@ == path_normals(*b, path, dimension),
        z@.len() == dimension,
{
    let mut z: Vec<R> = Vec::new();
    let mut d: u32 = 0;
    while d < dimension
        invariant
            d <= dimension,
            z@.len() == d,
            forall|i: int| 0 <= i < d ==> #[trigger] z@[i] == b.normal_at(path, i as u32),
        decreases dimension - d,
    {
        z.push(b.normal(path, d));
        d = d + 1;
    }
    assert(z@ =~= path_normals(*b, path, dimension));
    z
}

/// The standard normal of a scrambled point in a dimension.
pub open spec fn quasi_normal<R: Scalar, B: Backend<R>>(
    b: B,
    scramble: u32,
    point: u64,
) -> spec_fn(int) -> Result<R, MonteCarloError> {
    |d: int|
        match b.uniform_at(scramble, point, d as u32) {
            None => Err(invalid_field("rqmc_uniform")),
            Some(u) => match b.inverse_at(u) {
                None => Err(invalid_field("rqmc_normal")),
                Some(z) => Ok(z),
            },
        }
}

/// The standard normals of a scrambled point, or the first failure.
pub open spec fn quasi_normals<R: Scalar, B: Backend<R>>(
    b: B,
    scramble: u32,
    point: u64,
    dimension: u32,
) -> Result<Seq<R>, MonteCarloError> {
    gather(dimension as nat, quasi_normal(b, scramble, point))
}

/// Draws the standard normals of a scrambled point.
pub fn draw_quasi_normals<R: Scalar, B: Backend<R>>(
    b: &B,
    scramble: u32,
    point: u64,
    dimension: u32,
) -> (r: Result<Vec<R>, MonteCarloError>)
    ensures
        seen(r) == quasi_normals(*b, scramble, point, dimension),
        r matches Ok(z) ==> z@.len() == dimension,
{
    let mut z: Vec<R> = Vec::new();
    let ghost f = quasi_normal(*b, scramble, point);
    let mut d: u32 = 0;
    while d < dimension
        invariant
            d <= dimension,
            f == quasi_normal(*b, scramble, point),
            z@.len() == d,
            gather(d as nat, f) == Ok::<Seq<R>, MonteCarloError>(z@),
        decreases dimension - d,
    {
        let drawn: Result<R, MonteCarloError> = match b.uniform(scramble, point, d) {
            None => Err(invalid("rqmc_uniform")),
            Some(u) => match b.inverse_normal(u) {
                None => Err(invalid("rqmc_normal")),
                Some(x) => Ok(x),
            },
        };
        assert(drawn == f(d as int));
        match drawn {
            Err(e) => {
                proof {
                    assert(gather((d + 1) as nat, f) == Err::<Seq<R>, MonteCarloError>(e));
                    gather_stops((d + 1) as nat, dimension as nat, f);
                }
                return Err(e);
            },
            Ok(x) => {
                z.push(x);
            },
        }
        d = d + 1;
    }
    Ok(z)
}

/// The shocks of a draw with a sign.
pub open spec fn signed<R: Scalar>(z: Seq<R>, sign: R) -> Seq<R> {
    Seq::new(z.len(), |i: int| times(sign, z[i]))
}

/// Multiplies each draw with a sign.
pub fn apply_sign<R: Scalar, M: Math<R>>(m: &M, z: &Vec<R>, sign: R) -> (shocks: Vec<R>)
    ensures
        shocks@ == signed(z@, sign),
{
    m.laws();
    let mut shocks: Vec<R> = Vec::new();
    let mut i: usize = 0;
    while i < z.len()
        invariant
            lawful::<R>(),
            i <= z@.len(),
            shocks@.len() == i,
            forall|k: int| 0 <= k < i ==> #[trigger] shocks@[k] == times(sign, z@[k]),
        decreases z@.len() - i,
    {
        shocks.push(sign * z[i]);
        i = i + 1;
    }
    assert(shocks@ =~= signed(z@, sign));
    shocks
}

/// `n` zeros.
pub open spec fn zeros<R: Scalar>(n: nat) -> Seq<R> {
    Seq::new(n, |i: int| literal::<R>(0))
}

/// Entry by entry, `a + b`.
pub open spec fn added<R: Scalar>(a: Seq<R>, b: Seq<R>) -> Seq<R> {
    Seq::new(a.len(), |i: int| plus(a[i], b[i]))
}

/// Entry by entry, half of `a`.
pub open spec fn halved<R: Scalar>(a: Seq<R>) -> Seq<R> {
    Seq::new(a.len(), |i: int| times(a[i], half()))
}

/// One half.
pub open spec fn half<R: Scalar>() -> R {
    over(literal(1), literal(2))
}

/// Adds `terms` to `total`, entry by entry.
pub fn accumulate<R: Scalar, M: Math<R>>(m: &M, total: &mut Vec<R>, terms: &Vec<R>)
    requires
        old(total)@.len() == terms@.len(),
    ensures
        final(total)@ == added(old(total)@, terms@),
{
    m.laws();
    let ghost start = total@;
    let mut i: usize = 0;
    while i < terms.len()
        invariant
            lawful::<R>(),
            i <= terms@.len(),
            total@.len() == terms@.len(),
            start.len() == terms@.len(),
            forall|k: int| 0 <= k < i ==> #[trigger] total@[k] == plus(start[k], terms@[k]),
            forall|k: int| i <= k < start.len() ==> #[trigger] total@[k] == start[k],
        decreases terms@.len() - i,
    {
        let sum = total[i] + terms[i];
        total.set(i, sum);
        i = i + 1;
    }
    assert(total@ =~= added(start, terms@));
}

/// Quantities that a simulation estimates.
#[verifier::reject_recursive_types(R)]
pub ghost struct Quantities<R> {
    /// How many there are.
    pub width: nat,
    /// What one set of shocks contributes, or the failure of its path.
    pub terms: spec_fn(Seq<R>) -> Result<Seq<R>, MonteCarloError>,
    /// The quantities that the averaged contributions make.
    pub finish: spec_fn(Seq<R>) -> Result<Seq<R>, MonteCarloError>,
}

/// Contributions that are the quantities as they are.
pub open spec fn as_they_are<R>() -> spec_fn(Seq<R>) -> Result<Seq<R>, MonteCarloError> {
    |row: Seq<R>| Ok(row)
}

/// What one set of shocks contributes to the quantities that are estimated.
pub trait Contribution<R: Scalar> {
    /// The number of contributions.
    spec fn term_count(&self) -> nat;

    /// The quantities.
    spec fn quantities(&self) -> Quantities<R>;

    /// Evaluates the contributions.
    fn contribute(&self, shocks: &Vec<R>) -> (r: Result<Vec<R>, MonteCarloError>)
        ensures
            seen(r) == (self.quantities().terms)(shocks@),
            r matches Ok(v) ==> v@.len() == self.term_count(),
    ;

    /// Makes the quantities of averaged contributions.
    fn finish(&self, row: Vec<R>) -> (r: Result<Vec<R>, MonteCarloError>)
        requires
            row@.len() == self.term_count(),
        ensures
            seen(r) == (self.quantities().finish)(row@),
            r matches Ok(v) ==> v@.len() == self.quantities().width,
    ;
}

/// The contributions of one draw, or with `antithetic` the average of the
/// contributions of the draw and of its reflection.
pub open spec fn averaged<R: Scalar>(
    terms: spec_fn(Seq<R>) -> Result<Seq<R>, MonteCarloError>,
    antithetic: bool,
    z: Seq<R>,
) -> Result<Seq<R>, MonteCarloError> {
    match terms(signed(z, literal(1))) {
        Err(e) => Err(e),
        Ok(first) => {
            let total = added(zeros(first.len()), first);
            if !antithetic {
                Ok(total)
            } else {
                match terms(signed(z, negated(literal(1)))) {
                    Err(e) => Err(e),
                    Ok(second) => Ok(halved(added(total, second))),
                }
            }
        },
    }
}

/// Averages the contributions of one draw.
pub fn average<R: Scalar, M: Math<R>, C: Contribution<R>>(
    m: &M,
    c: &C,
    antithetic: bool,
    z: &Vec<R>,
) -> (r: Result<Vec<R>, MonteCarloError>)
    ensures
        seen(r) == averaged(c.quantities().terms, antithetic, z@),
        r matches Ok(v) ==> v@.len() == c.term_count(),
{
    m.laws();
    let one = R::from(1u32);
    let shocks = apply_sign(m, z, one);
    let first = match c.contribute(&shocks) {
        Err(e) => return Err(e),
        Ok(v) => v,
    };
    let zero = R::from(0u32);
    let mut total: Vec<R> = Vec::new();
    let mut i: usize = 0;
    while i < first.len()
        invariant
            i <= first@.len(),
            zero == literal::<R>(0),
            total@.len() == i,
            forall|k: int| 0 <= k < i ==> #[trigger] total@[k] == literal::<R>(0),
        decreases first@.len() - i,
    {
        total.push(zero);
        i = i + 1;
    }
    assert(total@ =~= zeros(first@.len()));
    accumulate(m, &mut total, &first);
    if !antithetic {
        return Ok(total);
    }
    let shocks = apply_sign(m, z, one.neg());
    let second = match c.contribute(&shocks) {
        Err(e) => return Err(e),
        Ok(v) => v,
    };
    accumulate(m, &mut total, &second);
    let half_value = R::from(1u32) / R::from(2u32);
    let ghost whole = total@;
    let mut i: usize = 0;
    while i < total.len()
        invariant
            lawful::<R>(),
            half_value == half::<R>(),
            i <= total@.len(),
            total@.len() == whole.len(),
            forall|k: int| 0 <= k < i ==> #[trigger] total@[k] == times(whole[k], half()),
            forall|k: int| i <= k < whole.len() ==> #[trigger] total@[k] == whole[k],
        decreases total@.len() - i,
    {
        let value = total[i] * half_value;
        total.set(i, value);
        i = i + 1;
    }
    assert(total@ =~= halved(whole));
    Ok(total)
}

/// The quantities of a draw that has passed the bridge.
pub open spec fn finished<R: Scalar>(q: Quantities<R>, antithetic: bool, z: Seq<R>) -> Result<
    Seq<R>,
    MonteCarloError,
> {
    match averaged(q.terms, antithetic, z) {
        Err(e) => Err(e),
        Ok(row) => (q.finish)(row),
    }
}

/// The quantities of one draw, after the bridge where it is requested.
pub open spec fn sampled<R: Scalar, B: Backend<R>>(
    b: B,
    q: Quantities<R>,
    reduction: VarianceReduction,
    factors: int,
    z: Seq<R>,
) -> Result<Seq<R>, MonteCarloError> {
    if reduction.brownian_bridge {
        match bridged(b, z, factors) {
            Err(e) => Err(e),
            Ok(w) => finished(q, reduction.antithetic, w),
        }
    } else {
        finished(q, reduction.antithetic, z)
    }
}

/// Evaluates the quantities of one draw of `factors` interleaved factors.
pub fn sample<R: Scalar, M: Math<R>, B: Backend<R>, C: Contribution<R>>(
    m: &M,
    b: &B,
    c: &C,
    reduction: VarianceReduction,
    factors: usize,
    z: Vec<R>,
) -> (r: Result<Vec<R>, MonteCarloError>)
    requires
        0 < factors,
        z@.len() + factors <= usize::MAX,
    ensures
        seen(r) == sampled(*b, c.quantities(), reduction, factors as int, z@),
        r matches Ok(v) ==> v@.len() == c.quantities().width,
{
    let arranged = if reduction.brownian_bridge {
        match bridge_factors(b, z, factors) {
            Err(e) => return Err(e),
            Ok(w) => w,
        }
    } else {
        z
    };
    match average(m, c, reduction.antithetic, &arranged) {
        Err(e) => Err(e),
        Ok(row) => c.finish(row),
    }
}

} // verus!
