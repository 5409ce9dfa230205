//! Sequences of computations of which each may fail.

use vstd::prelude::*;

verus! {

/// A result with its vector taken as a sequence.
pub open spec fn seen<T, E>(r: Result<Vec<T>, E>) -> Result<Seq<T>, E> {
    match r {
        Ok(v) => Ok(v@),
        Err(e) => Err(e),
    }
}

/// A result that is a sequence of a length.
pub open spec fn resized<T, E>(r: Result<Seq<T>, E>, n: nat) -> Result<Seq<T>, E> {
    match r {
        Ok(v) => Ok(Seq::new(n, |i: int| v[i])),
        Err(e) => Err(e),
    }
}

pub(crate) proof fn resized_to_itself<T, E>(r: Result<Vec<T>, E>, n: nat)
    requires
        r matches Ok(v) ==> v@.len() == n,
    ensures
        resized(seen(r), n) == seen(r),
{
    if let Ok(v) = r {
        assert(Seq::new(n, |i: int| v@[i]) =~= v@);
    }
}

/// A result with the vector beside its value taken as a sequence.
pub open spec fn pair_seen<A, T, E>(r: Result<(A, Vec<T>), E>) -> Result<(A, Seq<T>), E> {
    match r {
        Ok((a, v)) => Ok((a, v@)),
        Err(e) => Err(e),
    }
}

/// An optional vector taken as a sequence.
pub open spec fn opt_seen<T>(r: Option<Vec<T>>) -> Option<Seq<T>> {
    match r {
        Some(v) => Some(v@),
        None => None,
    }
}

/// The values of `f` at `0`, `1`, ..., `n - 1`, or the failure of the first
/// that fails.
pub open spec fn gather<T, E>(n: nat, f: spec_fn(int) -> Result<T, E>) -> Result<Seq<T>, E>
    decreases n,
{
    if n == 0 {
        Ok(Seq::empty())
    } else {
        match gather((n - 1) as nat, f) {
            Err(e) => Err(e),
            Ok(s) => match f(n - 1) {
                Err(e) => Err(e),
                Ok(t) => Ok(s.push(t)),
            },
        }
    }
}

/// Where nothing fails, the sequence holds the value at each place.
pub proof fn gather_values<T, E>(n: nat, f: spec_fn(int) -> Result<T, E>)
    ensures
        gather(n, f) matches Ok(s) ==> s.len() == n && forall|i: int|
            0 <= i < n ==> f(i) == Ok::<T, E>(#[trigger] s[i]),
    decreases n,
{
    if n > 0 {
        gather_values((n - 1) as nat, f);
    }
}

/// Places that agree with the first ones of another list give the beginning of what
/// that list gives.
pub proof fn gather_begins<T, E>(
    k: nat,
    n: nat,
    f: spec_fn(int) -> Result<T, E>,
    g: spec_fn(int) -> Result<T, E>,
)
    requires
        k <= n,
        forall|i: int| 0 <= i < k ==> #[trigger] f(i) == g(i),
    ensures
        gather(n, g) matches Ok(s) ==> s.len() == n && gather(k, f) == Ok::<Seq<T>, E>(
            s.take(k as int),
        ),
    decreases n + k,
{
    if let Ok(s) = gather(n, g) {
        gather_values(n, g);
        if k < n {
            gather_begins(k, (n - 1) as nat, f, g);
            let t = gather((n - 1) as nat, g)->Ok_0;
            assert(s.take(k as int) =~= t.take(k as int));
        } else if k > 0 {
            gather_begins((k - 1) as nat, (n - 1) as nat, f, g);
            let t = gather((n - 1) as nat, g)->Ok_0;
            assert(f(k - 1) == g(k - 1));
            gather_values((n - 1) as nat, g);
            assert(t.take(k - 1) =~= t);
            assert(s.take(k as int) =~= s);
        } else {
            assert(s.take(0) =~= Seq::empty());
        }
    }
}

/// Something fails exactly when the value at some place does, and the failure
/// is that of the first such place.
pub proof fn gather_failure<T, E>(n: nat, f: spec_fn(int) -> Result<T, E>)
    ensures
        gather(n, f) is Ok <==> forall|i: int| 0 <= i < n ==> (#[trigger] f(i)) is Ok,
        gather(n, f) matches Err(e) ==> exists|i: int|
            0 <= i < n && #[trigger] f(i) == Err::<T, E>(e) && forall|j: int|
                0 <= j < i ==> (#[trigger] f(j)) is Ok,
    decreases n,
{
    if n > 0 {
        gather_failure((n - 1) as nat, f);
        gather_values((n - 1) as nat, f);
        if gather((n - 1) as nat, f) is Ok {
            assert(f(n - 1) is Err ==> gather(n, f) is Err);
            assert forall|i: int| 0 <= i < n && f(n - 1) is Ok implies (#[trigger] f(i)) is Ok by {
                if i < n - 1 {
                }
            }
        }
    }
}

/// A failure at one place stops every longer sequence.
pub proof fn gather_stops<T, E>(k: nat, n: nat, f: spec_fn(int) -> Result<T, E>)
    requires
        k <= n,
        gather(k, f) is Err,
    ensures
        gather(n, f) == gather(k, f),
    decreases n,
{
    if k < n {
        gather_stops(k, (n - 1) as nat, f);
    }
}

} // verus!
