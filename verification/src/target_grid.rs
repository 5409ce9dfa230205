//! The local variances that a leverage surface is calibrated to.

use crate::errors::MonteCarloError;
use crate::linear::collect;
use crate::pathwise::make_zeros;
use crate::results::{gather, seen};
use crate::sampling::zeros;
use crate::scalar::{Math, Scalar};
use vstd::prelude::*;

verus! {

/// A grid of local variances.
pub trait TargetGrid<R: Scalar> {
    /// The times of the nodes.
    spec fn time_nodes_of(&self) -> Seq<R>;

    /// The log-moneyness of the nodes.
    spec fn log_moneyness_nodes_of(&self) -> Seq<R>;

    /// The variances, time by time.
    spec fn values_of(&self) -> Seq<R>;

    /// The variance between the nodes.
    spec fn interpolation_of(&self, t: R, x: R) -> Result<R, MonteCarloError>;

    /// The adjoints of the nodes with that of a variance between them added.
    spec fn accumulation_of(
        &self,
        t: R,
        x: R,
        adjoint: R,
        nodes: Seq<R>,
    ) -> Result<Seq<R>, MonteCarloError>;

    /// Computes [`Self::time_nodes_of`].
    fn time_nodes(&self) -> (r: Vec<R>)
        ensures
            r@ == self.time_nodes_of(),
    ;

    /// Computes [`Self::log_moneyness_nodes_of`].
    fn log_moneyness_nodes(&self) -> (r: Vec<R>)
        ensures
            r@ == self.log_moneyness_nodes_of(),
            r@.len() > 0,
    ;

    /// Computes [`Self::values_of`].
    fn values(&self) -> (r: Vec<R>)
        ensures
            r@ == self.values_of(),
    ;

    /// Computes [`Self::interpolation_of`].
    fn interpolate(&self, t: R, x: R) -> (r: Result<R, MonteCarloError>)
        ensures
            r == self.interpolation_of(t, x),
    ;

    /// Computes [`Self::accumulation_of`].
    fn accumulate(
        &self,
        t: R,
        x: R,
        adjoint: R,
        nodes: &Vec<R>,
    ) -> (r: Result<Vec<R>, MonteCarloError>)
        ensures
            seen(r) == self.accumulation_of(t, x, adjoint, nodes@),
            r matches Ok(v) ==> v@.len() == nodes@.len(),
    ;
}

/// The functions behind a [`SuppliedTargetGrid`], as mathematical functions.
#[verifier::reject_recursive_types(R)]
pub ghost struct SuppliedTargetGridModel<R> {
    pub time_nodes: spec_fn() -> Seq<R>,
    pub log_moneyness_nodes: spec_fn() -> Seq<R>,
    pub values: spec_fn() -> Seq<R>,
    pub interpolate: spec_fn(R, R) -> Result<R, MonteCarloError>,
    pub accumulate: spec_fn(R, R, R, Seq<R>) -> Result<Seq<R>, MonteCarloError>,
}

/// A [`TargetGrid`] whose functions are supplied one by one.
#[verifier::reject_recursive_types(R)]
pub struct SuppliedTargetGrid<
    R: Scalar,
    FTimeNodes: Fn() -> Vec<R>,
    FLogMoneynessNodes: Fn() -> Vec<R>,
    FValues: Fn() -> Vec<R>,
    FInterpolate: Fn(R, R) -> Result<R, MonteCarloError>,
    FAccumulate: Fn(R, R, R, &Vec<R>) -> Result<Vec<R>, MonteCarloError>,
> {
    time_nodes: FTimeNodes,
    log_moneyness_nodes: FLogMoneynessNodes,
    values: FValues,
    interpolate: FInterpolate,
    accumulate: FAccumulate,
    model: Ghost<SuppliedTargetGridModel<R>>,
}

impl<
    R: Scalar,
    FTimeNodes: Fn() -> Vec<R>,
    FLogMoneynessNodes: Fn() -> Vec<R>,
    FValues: Fn() -> Vec<R>,
    FInterpolate: Fn(R, R) -> Result<R, MonteCarloError>,
    FAccumulate: Fn(R, R, R, &Vec<R>) -> Result<Vec<R>, MonteCarloError>,
> SuppliedTargetGrid<R, FTimeNodes, FLogMoneynessNodes, FValues, FInterpolate, FAccumulate> {
    #[verifier::type_invariant]
    closed spec fn inv(self) -> bool {
        Self::callable(
            self.time_nodes,
            self.log_moneyness_nodes,
            self.values,
            self.interpolate,
            self.accumulate,
        )
            && Self::computes(
                self.time_nodes,
                self.log_moneyness_nodes,
                self.values,
                self.interpolate,
                self.accumulate,
                self.model@,
            )
    }

    /// The functions accept every argument.
    pub open spec fn callable(
        time_nodes: FTimeNodes,
        log_moneyness_nodes: FLogMoneynessNodes,
        values: FValues,
        interpolate: FInterpolate,
        accumulate: FAccumulate,
    ) -> bool {
        &&& call_requires(time_nodes, ())
        &&& call_requires(log_moneyness_nodes, ())
        &&& call_requires(values, ())
        &&& forall|t: R, x: R| #[trigger] call_requires(interpolate, (t, x))
        &&& forall|t: R, x: R, adjoint: R, nodes: &Vec<R>| #[trigger] call_requires(
            accumulate,
            (t, x, adjoint, nodes),
        )
    }

    /// The functions compute those of the model.
    pub open spec fn computes(
        time_nodes: FTimeNodes,
        log_moneyness_nodes: FLogMoneynessNodes,
        values: FValues,
        interpolate: FInterpolate,
        accumulate: FAccumulate,
        model: SuppliedTargetGridModel<R>,
    ) -> bool {
        &&& forall|result: Vec<R>| #[trigger]
            call_ensures(time_nodes, (), result) ==> result@ == (model.time_nodes)()
        &&& forall|result: Vec<R>| #[trigger]
            call_ensures(
                log_moneyness_nodes,
                (),
                result,
            ) ==> result@ == (model.log_moneyness_nodes)() && (result@.len() > 0)
        &&& forall|result: Vec<R>| #[trigger]
            call_ensures(values, (), result) ==> result@ == (model.values)()
        &&& forall|t: R, x: R, result: Result<R, MonteCarloError>| #[trigger]
            call_ensures(interpolate, (t, x), result) ==> result == (model.interpolate)(t, x)
        &&& forall|t: R, x: R, adjoint: R, nodes: &Vec<R>, result: Result<Vec<R>, MonteCarloError>|
            #[trigger]
            call_ensures(accumulate, (t, x, adjoint, nodes), result)
                ==> seen(result) == (model.accumulate)(t, x, adjoint, nodes@) && (
                result matches Ok(v) ==> v@.len() == nodes@.len()
            )
    }

    /// The functions that were supplied.
    pub closed spec fn supplied(self) -> SuppliedTargetGridModel<R> {
        self.model@
    }

    /// Takes functions that give the same result whenever they are given the
    /// same arguments.
    pub fn new(
        time_nodes: FTimeNodes,
        log_moneyness_nodes: FLogMoneynessNodes,
        values: FValues,
        interpolate: FInterpolate,
        accumulate: FAccumulate,
    ) -> (s: Self)
        requires
            Self::callable(time_nodes, log_moneyness_nodes, values, interpolate, accumulate),
            exists|model: SuppliedTargetGridModel<R>| #[trigger] Self::computes(
                time_nodes,
                log_moneyness_nodes,
                values,
                interpolate,
                accumulate,
                model,
            ),
        ensures
            Self::computes(
                time_nodes,
                log_moneyness_nodes,
                values,
                interpolate,
                accumulate,
                s.supplied(),
            ),
    {
        let ghost model = choose|model: SuppliedTargetGridModel<R>| #[trigger] Self::computes(
            time_nodes,
            log_moneyness_nodes,
            values,
            interpolate,
            accumulate,
            model,
        );
        SuppliedTargetGrid {
            time_nodes,
            log_moneyness_nodes,
            values,
            interpolate,
            accumulate,
            model: Ghost(model),
        }
    }

    /// Takes functions that are known to compute `model`.
    pub fn with_model(
        time_nodes: FTimeNodes,
        log_moneyness_nodes: FLogMoneynessNodes,
        values: FValues,
        interpolate: FInterpolate,
        accumulate: FAccumulate,
        model: Ghost<SuppliedTargetGridModel<R>>,
    ) -> (s: Self)
        requires
            Self::callable(time_nodes, log_moneyness_nodes, values, interpolate, accumulate),
            Self::computes(
                time_nodes,
                log_moneyness_nodes,
                values,
                interpolate,
                accumulate,
                model@,
            ),
        ensures
            s.supplied() == model@,
    {
        SuppliedTargetGrid {
            time_nodes,
            log_moneyness_nodes,
            values,
            interpolate,
            accumulate,
            model,
        }
    }
}

impl<
    R: Scalar,
    FTimeNodes: Fn() -> Vec<R>,
    FLogMoneynessNodes: Fn() -> Vec<R>,
    FValues: Fn() -> Vec<R>,
    FInterpolate: Fn(R, R) -> Result<R, MonteCarloError>,
    FAccumulate: Fn(R, R, R, &Vec<R>) -> Result<Vec<R>, MonteCarloError>,
> TargetGrid<R> for SuppliedTargetGrid<
    R,
    FTimeNodes,
    FLogMoneynessNodes,
    FValues,
    FInterpolate,
    FAccumulate,
> {
    open spec fn time_nodes_of(&self) -> Seq<R> {
        (self.supplied().time_nodes)()
    }

    open spec fn log_moneyness_nodes_of(&self) -> Seq<R> {
        (self.supplied().log_moneyness_nodes)()
    }

    open spec fn values_of(&self) -> Seq<R> {
        (self.supplied().values)()
    }

    open spec fn interpolation_of(&self, t: R, x: R) -> Result<R, MonteCarloError> {
        (self.supplied().interpolate)(t, x)
    }

    open spec fn accumulation_of(
        &self,
        t: R,
        x: R,
        adjoint: R,
        nodes: Seq<R>,
    ) -> Result<Seq<R>, MonteCarloError> {
        (self.supplied().accumulate)(t, x, adjoint, nodes)
    }

    fn time_nodes(&self) -> (r: Vec<R>) {
        proof {
            use_type_invariant(self);
        }
        (self.time_nodes)()
    }

    fn log_moneyness_nodes(&self) -> (r: Vec<R>) {
        proof {
            use_type_invariant(self);
        }
        (self.log_moneyness_nodes)()
    }

    fn values(&self) -> (r: Vec<R>) {
        proof {
            use_type_invariant(self);
        }
        (self.values)()
    }

    fn interpolate(&self, t: R, x: R) -> (r: Result<R, MonteCarloError>) {
        proof {
            use_type_invariant(self);
        }
        (self.interpolate)(t, x)
    }

    fn accumulate(
        &self,
        t: R,
        x: R,
        adjoint: R,
        nodes: &Vec<R>,
    ) -> (r: Result<Vec<R>, MonteCarloError>) {
        proof {
            use_type_invariant(self);
        }
        (self.accumulate)(t, x, adjoint, nodes)
    }
}

/// The entry `q` of a grid of times and log-moneyness lies in it.
proof fn entry_exists(q: int, times: int, width: int)
    requires
        0 <= q < times * width,
        width > 0,
    ensures
        0 <= q / width < times,
        0 <= q % width < width,
{
    assert(0 <= q / width < times && 0 <= q % width < width) by (nonlinear_arith)
        requires
            0 <= q < times * width,
            width > 0,
    ;
}

/// The variances of a target on other times, time by time.
pub open spec fn refined_values<R: Scalar, G: TargetGrid<R>>(g: G, grid: Seq<R>) -> Result<
    Seq<R>,
    MonteCarloError,
> {
    let x = g.log_moneyness_nodes_of();
    gather(
        grid.len() * x.len(),
        |q: int| g.interpolation_of(grid[q / x.len() as int], x[q % x.len() as int]),
    )
}

/// The number of entries of a target on other times can be counted.
pub open spec fn refinable<R: Scalar, G: TargetGrid<R>>(g: G, grid: Seq<R>) -> bool {
    grid.len() * g.log_moneyness_nodes_of().len() <= usize::MAX
}

/// Takes the variances of a target on other times.
pub fn refine<R: Scalar, G: TargetGrid<R>>(g: &G, grid: &Vec<R>) -> (r: Result<
    Vec<R>,
    MonteCarloError,
>)
    requires
        refinable(*g, grid@),
    ensures
        seen(r) == refined_values(*g, grid@),
{
    let x = g.log_moneyness_nodes();
    let width = x.len();
    let n = grid.len() * width;
    let ghost value = |q: int|
        g.interpolation_of(grid@[q / x@.len() as int], x@[q % x@.len() as int]);
    let value_at = |q: usize| -> (v: Result<R, MonteCarloError>)
        requires
            q < n,
        ensures
            v == value(q as int),
        {
            proof {
                entry_exists(q as int, grid@.len() as int, width as int);
            }
            g.interpolate(grid[q / width], x[q % width])
        };
    collect(
        n,
        value_at,
        Ghost(value),
    )
}

/// The adjoints of a target out of the first `n` of those on other times.
pub open spec fn spread<R: Scalar, G: TargetGrid<R>>(
    g: G,
    grid: Seq<R>,
    adjoints: Seq<R>,
    n: nat,
) -> Result<Seq<R>, MonteCarloError>
    decreases n,
{
    if n == 0 {
        Ok(zeros(g.values_of().len()))
    } else {
        let x = g.log_moneyness_nodes_of();
        let q = n - 1;
        match spread(g, grid, adjoints, (n - 1) as nat) {
            Err(e) => Err(e),
            Ok(nodes) => g.accumulation_of(
                grid[q / x.len() as int],
                x[q % x.len() as int],
                adjoints[q],
                nodes,
            ),
        }
    }
}

proof fn spread_stops<R: Scalar, G: TargetGrid<R>>(
    g: G,
    grid: Seq<R>,
    adjoints: Seq<R>,
    a: nat,
    n: nat,
)
    requires
        a <= n,
        spread(g, grid, adjoints, a) is Err,
    ensures
        spread(g, grid, adjoints, n) == spread(g, grid, adjoints, a),
    decreases n,
{
    if a < n {
        spread_stops(g, grid, adjoints, a, (n - 1) as nat);
    }
}

/// Takes the adjoints on other times back to the nodes of a target, entry by entry.
pub fn gather_adjoints<R: Scalar, M: Math<R>, G: TargetGrid<R>>(
    m: &M,
    g: &G,
    grid: &Vec<R>,
    adjoints: &Vec<R>,
) -> (r: Result<Vec<R>, MonteCarloError>)
    requires
        adjoints@.len() == grid@.len() * g.log_moneyness_nodes_of().len(),
    ensures
        seen(r) == spread(*g, grid@, adjoints@, adjoints@.len()),
        r matches Ok(v) ==> v@.len() == g.values_of().len(),
{
    let x = g.log_moneyness_nodes();
    let width = x.len();
    let mut nodes = make_zeros(m, g.values().len());
    let mut q: usize = 0;
    while q < adjoints.len()
        invariant
            q <= adjoints@.len(),
            width == x@.len(),
            width > 0,
            x@ == g.log_moneyness_nodes_of(),
            adjoints@.len() == grid@.len() * x@.len(),
            nodes@.len() == g.values_of().len(),
            spread(*g, grid@, adjoints@, q as nat) == Ok::<Seq<R>, MonteCarloError>(nodes@),
        decreases adjoints@.len() - q,
    {
        proof {
            entry_exists(q as int, grid@.len() as int, width as int);
            if spread(*g, grid@, adjoints@, (q + 1) as nat) is Err {
                spread_stops(*g, grid@, adjoints@, (q + 1) as nat, adjoints@.len());
            }
        }
        nodes = match g.accumulate(grid[q / width], x[q % width], adjoints[q], &nodes) {
            Err(e) => return Err(e),
            Ok(v) => v,
        };
        q = q + 1;
    }
    Ok(nodes)
}

} // verus!
