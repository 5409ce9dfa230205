//! Compensated summation.

use crate::scalar::{ge, literal, minus, plus, Math, Model, Scalar};
use vstd::prelude::*;

verus! {

/// A running sum with the rounding that it has lost so far, after Neumaier.
#[derive(Clone, Copy, Debug)]
pub struct NeumaierSum<R> {
    pub sum: R,
    pub compensation: R,
}

/// The empty sum.
pub open spec fn empty_sum<R: Scalar>() -> NeumaierSum<R> {
    NeumaierSum { sum: literal(0), compensation: literal(0) }
}

/// The sum with `x` added. What the addition loses is recovered from the larger
/// of the two operands.
pub open spec fn sum_plus<R: Scalar>(m: Model<R>, s: NeumaierSum<R>, x: R) -> NeumaierSum<R> {
    let t = plus(s.sum, x);
    NeumaierSum {
        sum: t,
        compensation: plus(
            s.compensation,
            if ge(m.abs(s.sum), m.abs(x)) {
                plus(minus(s.sum, t), x)
            } else {
                plus(minus(x, t), s.sum)
            },
        ),
    }
}

/// The value of a running sum.
pub open spec fn sum_total<R: Scalar>(s: NeumaierSum<R>) -> R {
    plus(s.sum, s.compensation)
}

/// The running sum of a sequence, from its first value to its last.
pub open spec fn running_sum<R: Scalar>(m: Model<R>, values: Seq<R>) -> NeumaierSum<R>
    decreases values.len(),
{
    if values.len() == 0 {
        empty_sum()
    } else {
        sum_plus(m, running_sum(m, values.drop_last()), values.last())
    }
}

/// The compensated sum of a sequence.
pub open spec fn compensated_sum<R: Scalar>(m: Model<R>, values: Seq<R>) -> R {
    sum_total(running_sum(m, values))
}

impl<R: Scalar> NeumaierSum<R> {
    /// The empty sum.
    pub fn new<M: Math<R>>(m: &M) -> (s: Self)
        ensures
            s == empty_sum::<R>(),
    {
        m.laws();
        NeumaierSum { sum: R::from(0u32), compensation: R::from(0u32) }
    }

    /// Adds `x`.
    pub fn accumulate<M: Math<R>>(&mut self, m: &M, x: R)
        ensures
            *final(self) == sum_plus(m.model(), *old(self), x),
    {
        m.laws();
        let t = self.sum + x;
        let lost = if m.abs(self.sum) >= m.abs(x) {
            (self.sum - t) + x
        } else {
            (x - t) + self.sum
        };
        self.compensation = self.compensation + lost;
        self.sum = t;
    }

    /// The value of the sum.
    pub fn total<M: Math<R>>(&self, m: &M) -> (t: R)
        ensures
            t == sum_total(*self),
    {
        m.laws();
        self.sum + self.compensation
    }
}

/// Sums a sequence with compensation.
pub fn sum_compensated<R: Scalar, M: Math<R>>(m: &M, values: &[R]) -> (t: R)
    ensures
        t == compensated_sum(m.model(), values@),
{
    let mut s: NeumaierSum<R> = NeumaierSum::new(m);
    let mut i: usize = 0;
    assert(values@.take(0) =~= Seq::empty());
    while i < values.len()
        invariant
            i <= values@.len(),
            s == running_sum(m.model(), values@.take(i as int)),
        decreases values@.len() - i,
    {
        proof {
            let next = values@.take(i + 1);
            assert(next.drop_last() =~= values@.take(i as int));
            assert(next.last() == values@[i as int]);
        }
        s.accumulate(m, values[i]);
        i = i + 1;
    }
    assert(values@.take(i as int) =~= values@);
    s.total(m)
}

/// A sum can be continued: the running sum of a sequence and one more value is
/// the running sum of the sequence with that value added.
pub proof fn sum_continues<R: Scalar>(m: Model<R>, values: Seq<R>, x: R)
    ensures
        running_sum(m, values.push(x)) == sum_plus(m, running_sum(m, values), x),
{
    assert(values.push(x).drop_last() =~= values);
}

} // verus!
