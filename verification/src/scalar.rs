//! The number type.
//!
//! Every computation of this crate is generic over a number type `R` with the
//! four operations, negation, comparison and literals. What is proved of a
//! function is the exact expression that it evaluates, operation by operation
//! and in order, so that it holds of a rounded arithmetic as well as of an
//! exact one. An [`Arithmetic`] carries the elementary functions of `R`.

use core::ops::{Add, Div, Mul, Neg, Sub};
use vstd::prelude::*;
use vstd::std_specs::cmp::{PartialEqSpec, PartialOrdSpec};
use vstd::std_specs::convert::FromSpec;
use vstd::std_specs::ops::{AddSpec, DivSpec, MulSpec, NegSpec, SubSpec};

verus! {

/// A number type: copyable, with the arithmetic operators, an order that may
/// leave two values unordered, and the small nonnegative integers.
pub trait Scalar: Copy + Add<Output = Self> + Sub<Output = Self> + Mul<Output = Self> + Div<
    Output = Self,
> + Neg<Output = Self> + PartialOrd + From<u32> {

}

impl<T> Scalar for T where
    T: Copy + Add<Output = T> + Sub<Output = T> + Mul<Output = T> + Div<Output = T> + Neg<
        Output = T,
    > + PartialOrd + From<u32>,
 {

}

/// `a + b`.
pub open spec fn plus<R: Scalar>(a: R, b: R) -> R {
    a.add_spec(b)
}

/// `a - b`.
pub open spec fn minus<R: Scalar>(a: R, b: R) -> R {
    a.sub_spec(b)
}

/// `a * b`.
pub open spec fn times<R: Scalar>(a: R, b: R) -> R {
    a.mul_spec(b)
}

/// `a / b`.
pub open spec fn over<R: Scalar>(a: R, b: R) -> R {
    a.div_spec(b)
}

/// `-a`.
pub open spec fn negated<R: Scalar>(a: R) -> R {
    a.neg_spec()
}

/// The number `n`.
pub open spec fn literal<R: Scalar>(n: u32) -> R {
    <R as FromSpec<u32>>::from_spec(n)
}

/// `a < b`.
pub open spec fn lt<R: Scalar>(a: R, b: R) -> bool {
    a.partial_cmp_spec(&b) == Some(core::cmp::Ordering::Less)
}

/// `a <= b`.
pub open spec fn le<R: Scalar>(a: R, b: R) -> bool {
    ||| a.partial_cmp_spec(&b) == Some(core::cmp::Ordering::Less)
    ||| a.partial_cmp_spec(&b) == Some(core::cmp::Ordering::Equal)
}

/// `a > b`, which is not the same as `b < a` unless the order is lawful.
pub open spec fn gt<R: Scalar>(a: R, b: R) -> bool {
    a.partial_cmp_spec(&b) == Some(core::cmp::Ordering::Greater)
}

/// `a >= b`.
pub open spec fn ge<R: Scalar>(a: R, b: R) -> bool {
    ||| a.partial_cmp_spec(&b) == Some(core::cmp::Ordering::Greater)
    ||| a.partial_cmp_spec(&b) == Some(core::cmp::Ordering::Equal)
}

/// `a == b` as the number type compares, which need not be identity.
pub open spec fn same<R: Scalar>(a: R, b: R) -> bool {
    a.eq_spec(&b)
}

/// The comparison operators of `R` compute [`lt`], [`le`], [`gt`], [`ge`] and
/// [`same`].
pub open spec fn comparable<R: Scalar>() -> bool {
    R::obeys_partial_cmp_spec() && R::obeys_eq_spec()
}

/// `R::from` computes [`literal`].
pub open spec fn countable<R: Scalar>() -> bool {
    <R as FromSpec<u32>>::obeys_from_spec()
}

/// The operators of `R` are total functions of their operands.
pub open spec fn lawful<R: Scalar>() -> bool {
    &&& R::obeys_add_spec() && R::obeys_sub_spec() && R::obeys_mul_spec()
    &&& R::obeys_div_spec() && R::obeys_neg_spec()
    &&& forall|a: R, b: R| #[trigger] a.add_req(b)
    &&& forall|a: R, b: R| #[trigger] a.sub_req(b)
    &&& forall|a: R, b: R| #[trigger] a.mul_req(b)
    &&& forall|a: R, b: R| #[trigger] a.div_req(b)
    &&& forall|a: R| #[trigger] a.neg_req()
    &&& countable::<R>()
    &&& comparable::<R>()
}

/// The elementary functions of one argument.
#[derive(Clone, Copy, Debug, PartialEq, Eq, Structural)]
pub enum Elementary {
    /// The exponential.
    Exp,
    /// The exponential less one.
    ExpM1,
    /// The natural logarithm.
    Ln,
    /// The natural logarithm of one plus the argument.
    Ln1p,
    /// The square root.
    Sqrt,
    /// The absolute value.
    Abs,
}

/// What the elementary functions of a number type are, as mathematical
/// functions.
#[verifier::reject_recursive_types(R)]
pub ghost struct Model<R> {
    pub apply: spec_fn(Elementary, R) -> R,
    pub power: spec_fn(R, R) -> R,
    pub finite: spec_fn(R) -> bool,
    pub count: spec_fn(u64) -> R,
    pub order: spec_fn(R, R) -> bool,
}

impl<R> Model<R> {
    pub open spec fn exp(self, x: R) -> R {
        (self.apply)(Elementary::Exp, x)
    }

    pub open spec fn exp_m1(self, x: R) -> R {
        (self.apply)(Elementary::ExpM1, x)
    }

    pub open spec fn ln(self, x: R) -> R {
        (self.apply)(Elementary::Ln, x)
    }

    pub open spec fn ln_1p(self, x: R) -> R {
        (self.apply)(Elementary::Ln1p, x)
    }

    pub open spec fn sqrt(self, x: R) -> R {
        (self.apply)(Elementary::Sqrt, x)
    }

    pub open spec fn abs(self, x: R) -> R {
        (self.apply)(Elementary::Abs, x)
    }

    pub open spec fn pow(self, x: R, y: R) -> R {
        (self.power)(x, y)
    }

    pub open spec fn is_finite(self, x: R) -> bool {
        (self.finite)(x)
    }

    pub open spec fn of(self, n: u64) -> R {
        (self.count)(n)
    }

    /// `a` comes before `b` in the total order of all numbers.
    pub open spec fn precedes(self, a: R, b: R) -> bool {
        (self.order)(a, b)
    }

    /// Every number of `s` is finite.
    pub open spec fn all_finite(self, s: Seq<R>) -> bool {
        forall|i: int| 0 <= i < s.len() ==> self.is_finite(#[trigger] s[i])
    }
}

/// A zero of either sign, as a number type that has two compares them.
pub open spec fn is_zero<R: Scalar>(x: R) -> bool {
    same(x, literal(0))
}

impl<R: Scalar> Model<R> {
    /// What rounding leaves alone: zeros stay zeros and are lost in a sum, one is the
    /// unit, the exponential of a zero is one, a number less itself is nothing, and
    /// what is not finite stays so in a sum.
    pub open spec fn zeros_behave(self) -> bool {
        &&& is_zero(literal::<R>(0))
        &&& self.is_finite(literal(1))
        &&& self.is_finite(over(literal(1), literal(2)))
        &&& forall|z: R| #[trigger]
            is_zero(z) ==> self.is_finite(z) && le(z, literal(0)) && self.exp(z) == literal::<R>(1)
        &&& forall|x: R, z: R|
            self.is_finite(x) && is_zero(z) ==> is_zero(#[trigger] times(x, z))
        &&& forall|y: R, z: R| is_zero(y) && is_zero(z) ==> is_zero(#[trigger] plus(y, z))
        &&& forall|y: R, z: R| is_zero(y) && is_zero(z) ==> is_zero(#[trigger] minus(y, z))
        &&& forall|y: R, z: R, x: R|
            is_zero(y) && is_zero(z) && self.is_finite(x) ==> #[trigger] plus(y, x)
                == #[trigger] plus(z, x) || (is_zero(plus(y, x)) && is_zero(plus(z, x)))
        &&& forall|x: R, y: R|
            self.is_finite(#[trigger] plus(x, y)) ==> self.is_finite(x) && self.is_finite(y)
        &&& forall|x: R, y: R|
            self.is_finite(#[trigger] minus(x, y)) ==> self.is_finite(x) && self.is_finite(y)
        &&& forall|x: R| self.is_finite(x) ==> #[trigger] minus(x, x) == literal::<R>(0)
        &&& forall|x: R| self.is_finite(x) ==> #[trigger] minus(x, literal(0)) == x
        &&& forall|x: R| self.is_finite(x) ==> #[trigger] times(x, literal(1)) == x
        &&& forall|x: R| self.is_finite(x) ==> #[trigger] over(x, literal(1)) == x
    }
}

/// What numbers stand for, where no operation rounds.
pub open spec fn exact<R: Scalar>(value: spec_fn(R) -> real) -> bool {
    &&& value(literal(0)) == 0 as real
    &&& value(literal(1)) == 1 as real
    &&& forall|a: R, b: R| #[trigger] value(plus(a, b)) == value(a) + value(b)
    &&& forall|a: R, b: R| #[trigger] value(minus(a, b)) == value(a) - value(b)
    &&& forall|a: R, b: R| #[trigger] value(times(a, b)) == value(a) * value(b)
    &&& forall|a: R, b: R|
        value(b) != 0 as real ==> #[trigger] value(over(a, b)) * value(b) == value(a)
    &&& forall|a: R| #[trigger] value(negated(a)) == -value(a)
}

/// The functions supplied compute those of the model.
pub open spec fn computes<
    R,
    A: Fn(Elementary, R) -> R,
    P: Fn(R, R) -> R,
    F: Fn(R) -> bool,
    N: Fn(u64) -> R,
    O: Fn(R, R) -> bool,
>(apply: A, power: P, finite: F, count: N, order: O, model: Model<R>) -> bool {
    &&& forall|e: Elementary, x: R, y: R|
        #[trigger] call_ensures(apply, (e, x), y) ==> y == (model.apply)(e, x)
    &&& forall|x: R, y: R, z: R|
        #[trigger] call_ensures(power, (x, y), z) ==> z == (model.power)(x, y)
    &&& forall|x: R, b: bool|
        #[trigger] call_ensures(finite, (x,), b) ==> b == (model.finite)(x)
    &&& forall|n: u64, y: R|
        #[trigger] call_ensures(count, (n,), y) ==> y == (model.count)(n)
    &&& forall|x: R, y: R, b: bool|
        #[trigger] call_ensures(order, (x, y), b) ==> b == (model.order)(x, y)
}

/// The functions supplied accept every argument.
pub open spec fn callable<
    R,
    A: Fn(Elementary, R) -> R,
    P: Fn(R, R) -> R,
    F: Fn(R) -> bool,
    N: Fn(u64) -> R,
    O: Fn(R, R) -> bool,
>(apply: A, power: P, finite: F, count: N, order: O) -> bool {
    &&& forall|e: Elementary, x: R| #[trigger] call_requires(apply, (e, x))
    &&& forall|x: R, y: R| #[trigger] call_requires(power, (x, y))
    &&& forall|x: R| #[trigger] call_requires(finite, (x,))
    &&& forall|n: u64| #[trigger] call_requires(count, (n,))
    &&& forall|x: R, y: R| #[trigger] call_requires(order, (x, y))
}

/// Called twice with the same arguments, the functions supplied give the same
/// result, and zeros behave among them.
pub open spec fn repeatable<
    R: Scalar,
    A: Fn(Elementary, R) -> R,
    P: Fn(R, R) -> R,
    F: Fn(R) -> bool,
    N: Fn(u64) -> R,
    O: Fn(R, R) -> bool,
>(apply: A, power: P, finite: F, count: N, order: O) -> bool {
    exists|model: Model<R>| #[trigger]
        computes(apply, power, finite, count, order, model) && model.zeros_behave()
}

/// The elementary functions of a number type, and the evidence that its
/// operators are total.
pub trait Math<R: Scalar> {
    /// The mathematical functions that the methods compute.
    spec fn model(&self) -> Model<R>;

    /// The operators of the number type are total.
    fn laws(&self)
        ensures
            lawful::<R>(),
    ;

    /// Zeros behave among the operators and the functions.
    fn zero_laws(&self)
        ensures
            self.model().zeros_behave(),
    ;

    /// The exponential of `x`.
    fn exp(&self, x: R) -> (y: R)
        ensures
            y == self.model().exp(x),
    ;

    /// The exponential of `x`, less one.
    fn exp_m1(&self, x: R) -> (y: R)
        ensures
            y == self.model().exp_m1(x),
    ;

    /// The natural logarithm of `x`.
    fn ln(&self, x: R) -> (y: R)
        ensures
            y == self.model().ln(x),
    ;

    /// The natural logarithm of one plus `x`.
    fn ln_1p(&self, x: R) -> (y: R)
        ensures
            y == self.model().ln_1p(x),
    ;

    /// The square root of `x`.
    fn sqrt(&self, x: R) -> (y: R)
        ensures
            y == self.model().sqrt(x),
    ;

    /// The absolute value of `x`.
    fn abs(&self, x: R) -> (y: R)
        ensures
            y == self.model().abs(x),
    ;

    /// The power of `x` with the exponent `y`.
    fn pow(&self, x: R, y: R) -> (z: R)
        ensures
            z == self.model().pow(x, y),
    ;

    /// The answer to whether `x` is finite.
    fn is_finite(&self, x: R) -> (b: bool)
        ensures
            b == self.model().is_finite(x),
    ;

    /// The number `n`.
    fn of(&self, n: u64) -> (y: R)
        ensures
            y == self.model().of(n),
    ;

    /// The answer to whether `a` comes before `b` in the total order.
    fn precedes(&self, a: R, b: R) -> (x: bool)
        ensures
            x == self.model().precedes(a, b),
    ;
}

/// Elementary functions that are supplied one by one.
#[verifier::reject_recursive_types(R)]
pub struct Arithmetic<
    R: Scalar,
    A: Fn(Elementary, R) -> R,
    P: Fn(R, R) -> R,
    F: Fn(R) -> bool,
    N: Fn(u64) -> R,
    O: Fn(R, R) -> bool,
> {
    apply: A,
    power: P,
    finite: F,
    count: N,
    order: O,
    model: Ghost<Model<R>>,
}

impl<
    R: Scalar,
    A: Fn(Elementary, R) -> R,
    P: Fn(R, R) -> R,
    F: Fn(R) -> bool,
    N: Fn(u64) -> R,
    O: Fn(R, R) -> bool,
> Arithmetic<R, A, P, F, N, O> {
    #[verifier::type_invariant]
    closed spec fn inv(self) -> bool {
        &&& lawful::<R>()
        &&& callable(self.apply, self.power, self.finite, self.count, self.order)
        &&& computes(self.apply, self.power, self.finite, self.count, self.order, self.model@)
        &&& self.model@.zeros_behave()
    }

    /// The model that the functions supplied compute.
    pub closed spec fn supplied(self) -> Model<R> {
        self.model@
    }

    /// An arithmetic over the functions supplied.
    pub fn new(apply: A, power: P, finite: F, count: N, order: O) -> (m: Self)
        requires
            lawful::<R>(),
            callable::<R, A, P, F, N, O>(apply, power, finite, count, order),
            repeatable::<R, A, P, F, N, O>(apply, power, finite, count, order),
        ensures
            computes(apply, power, finite, count, order, m.supplied()),
    {
        let ghost model = choose|model: Model<R>| #[trigger]
            computes(apply, power, finite, count, order, model) && model.zeros_behave();
        Arithmetic { apply, power, finite, count, order, model: Ghost(model) }
    }

    /// An arithmetic over functions that are known to compute `model`.
    pub fn with_model(
        apply: A,
        power: P,
        finite: F,
        count: N,
        order: O,
        model: Ghost<Model<R>>,
    ) -> (m: Self)
        requires
            lawful::<R>(),
            callable::<R, A, P, F, N, O>(apply, power, finite, count, order),
            computes(apply, power, finite, count, order, model@),
            model@.zeros_behave(),
        ensures
            m.supplied() == model@,
    {
        Arithmetic { apply, power, finite, count, order, model }
    }
}

impl<
    R: Scalar,
    A: Fn(Elementary, R) -> R,
    P: Fn(R, R) -> R,
    F: Fn(R) -> bool,
    N: Fn(u64) -> R,
    O: Fn(R, R) -> bool,
> Math<R> for Arithmetic<R, A, P, F, N, O> {
    open spec fn model(&self) -> Model<R> {
        self.supplied()
    }

    fn laws(&self) {
        proof {
            use_type_invariant(self);
        }
    }

    fn zero_laws(&self) {
        proof {
            use_type_invariant(self);
        }
    }

    fn exp(&self, x: R) -> (y: R) {
        proof {
            use_type_invariant(self);
        }
        (self.apply)(Elementary::Exp, x)
    }

    fn exp_m1(&self, x: R) -> (y: R) {
        proof {
            use_type_invariant(self);
        }
        (self.apply)(Elementary::ExpM1, x)
    }

    fn ln(&self, x: R) -> (y: R) {
        proof {
            use_type_invariant(self);
        }
        (self.apply)(Elementary::Ln, x)
    }

    fn ln_1p(&self, x: R) -> (y: R) {
        proof {
            use_type_invariant(self);
        }
        (self.apply)(Elementary::Ln1p, x)
    }

    fn sqrt(&self, x: R) -> (y: R) {
        proof {
            use_type_invariant(self);
        }
        (self.apply)(Elementary::Sqrt, x)
    }

    fn abs(&self, x: R) -> (y: R) {
        proof {
            use_type_invariant(self);
        }
        (self.apply)(Elementary::Abs, x)
    }

    fn pow(&self, x: R, y: R) -> (z: R) {
        proof {
            use_type_invariant(self);
        }
        (self.power)(x, y)
    }

    fn is_finite(&self, x: R) -> (b: bool) {
        proof {
            use_type_invariant(self);
        }
        (self.finite)(x)
    }

    fn of(&self, n: u64) -> (y: R) {
        proof {
            use_type_invariant(self);
        }
        (self.count)(n)
    }

    fn precedes(&self, a: R, b: R) -> (x: bool) {
        proof {
            use_type_invariant(self);
        }
        (self.order)(a, b)
    }
}

/// Whether every number of `v` is finite.
pub fn all_finite<R: Scalar, M: Math<R>>(m: &M, v: &[R]) -> (b: bool)
    ensures
        b == m.model().all_finite(v@),
{
    let mut i: usize = 0;
    while i < v.len()
        invariant
            i <= v.len(),
            forall|j: int| 0 <= j < i ==> m.model().is_finite(#[trigger] v@[j]),
        decreases v.len() - i,
    {
        if !m.is_finite(v[i]) {
            return false;
        }
        i = i + 1;
    }
    true
}

} // verus!
