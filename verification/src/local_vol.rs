//! Local-volatility simulations: which spots are bumped, which shocks a path
//! takes, which paths an exercise policy has to cover, and the rows that the
//! sampling units make.

use crate::bergomi::{is_positive, positive};
use crate::engine::{paths_per_unit, EngineConfig, VarianceReduction};
use crate::errors::{LsmNumericalError, MonteCarloError};
use crate::local_vol_paths::{ExerciseCashflowSelection, LocalVolPaths};
use crate::pathwise::{
    pathwise_of, pathwise_shape, BumpSpots, LocalVolPathwise, LocalVolPlan, Pathwise,
};
use crate::results::seen;
use crate::sampling::{draw_quasi_normals, half, quasi_normals, Backend};
use crate::scalar::{lawful, minus, negated, plus, times, Math, Model, Scalar};
use crate::simulation::{SimulationPlan, PATHWISE_COMPONENTS};
use crate::units::{rectangular, table_of, table_seen, tabulate, Rows, UnitSampler};
use core::ops::Neg;
use vstd::prelude::*;

verus! {

/// Why there are no paths from a spot: it is not positive, or they cannot be made.
pub open spec fn runtime_refusal<
    R: Scalar,
    W: LocalVolPaths<R>,
>(m: Model<R>, w: W, spot: R) -> Option<
    MonteCarloError,
> {
    if positive(m, spot) {
        w.runtime_failure_of(spot)
    } else {
        Some(MonteCarloError::ResultBuild { field: "spot" })
    }
}

/// The spots that a plan bumps: none unless a delta or a gamma was asked for.
/// The paths from the lower spot are made before those from the upper one.
pub open spec fn bump_spots<
    R: Scalar,
    W: LocalVolPaths<R>,
>(m: Model<R>, w: W, plan: SimulationPlan<R>) -> Result<
    Option<BumpSpots<R>>,
    MonteCarloError,
> {
    let bumps = BumpSpots {
        down_spot: minus(plan.spot, plan.validation_spot_bump),
        up_spot: plus(plan.spot, plan.validation_spot_bump),
        spot_bump: plan.validation_spot_bump,
    };
    if !plan.request_delta && plan.request_gamma is None {
        Ok(None)
    } else if !plan.local_volatility {
        Err(MonteCarloError::UnsupportedModel { model: "local_volatility" })
    } else {
        match runtime_refusal(m, w, bumps.down_spot) {
            Some(e) => Err(e),
            None => match runtime_refusal(m, w, bumps.up_spot) {
                Some(e) => Err(e),
                None => Ok(Some(bumps)),
            },
        }
    }
}

impl<R: Scalar> SimulationPlan<R> {
    /// Makes the paths from another spot, or says why there are none.
    pub fn local_vol_runtime_for_spot<M: Math<R>, W: LocalVolPaths<R>>(
        &self,
        m: &M,
        w: &W,
        spot: R,
    ) -> (e: Option<MonteCarloError>)
        ensures
            e == runtime_refusal(m.model(), *w, spot),
    {
        if !is_positive(m, spot) {
            return Some(MonteCarloError::ResultBuild { field: "spot" });
        }
        w.runtime_failure(spot)
    }

    /// The spots that the plan bumps.
    pub fn local_vol_bump_runtimes<M: Math<R>, W: LocalVolPaths<R>>(&self, m: &M, w: &W) -> (r:
        Result<Option<BumpSpots<R>>, MonteCarloError>)
        ensures
            r == bump_spots(m.model(), *w, *self),
    {
        if !self.request_delta && self.request_gamma.is_none() {
            return Ok(None);
        }
        if !self.local_volatility {
            return Err(MonteCarloError::UnsupportedModel { model: "local_volatility" });
        }
        m.laws();
        let bumps = BumpSpots {
            down_spot: self.spot - self.validation_spot_bump,
            up_spot: self.spot + self.validation_spot_bump,
            spot_bump: self.validation_spot_bump,
        };
        if let Some(e) = self.local_vol_runtime_for_spot(m, w, bumps.down_spot) {
            return Err(e);
        }
        if let Some(e) = self.local_vol_runtime_for_spot(m, w, bumps.up_spot) {
            return Err(e);
        }
        Ok(Some(bumps))
    }
}

/// The shocks of a point of a scramble: its normals, through the bridge where
/// it is requested.
pub open spec fn quasi_shocks<R: Scalar, B: Backend<R>>(
    b: B,
    brownian_bridge: bool,
    dimension: u32,
    scramble: u32,
    point: u64,
) -> Result<Seq<R>, MonteCarloError> {
    match quasi_normals(b, scramble, point, dimension) {
        Err(e) => Err(e),
        Ok(z) => if brownian_bridge {
            b.bridge_of(z)
        } else {
            Ok(z)
        },
    }
}

/// Draws the shocks of a point of a scramble.
pub fn local_vol_rqmc_shocks<R: Scalar, B: Backend<R>>(
    b: &B,
    brownian_bridge: bool,
    dimension: u32,
    scramble: u32,
    point: u64,
) -> (r: Result<Vec<R>, MonteCarloError>)
    ensures
        seen(r) == quasi_shocks(*b, brownian_bridge, dimension, scramble, point),
{
    let z = match draw_quasi_normals(b, scramble, point, dimension) {
        Err(e) => return Err(e),
        Ok(z) => z,
    };
    if brownian_bridge {
        b.bridge(&z)
    } else {
        Ok(z)
    }
}

/// The number of paths that an exercise policy has to cover.
pub open spec fn policy_path_count(engine: EngineConfig) -> int {
    match engine {
        EngineConfig::PseudoMonteCarlo(c) => c.independent_sampling_units * paths_per_unit(
            c.variance_reduction,
        ),
        EngineConfig::RandomizedQuasiMonteCarlo(c) => c.scramble_count * c.points_per_scramble
            * paths_per_unit(c.variance_reduction),
    }
}

/// The counts behind the number of paths fit the machine, one after the other.
pub open spec fn policy_paths_fit(engine: EngineConfig) -> bool {
    match engine {
        EngineConfig::PseudoMonteCarlo(c) => c.independent_sampling_units <= usize::MAX
            && policy_path_count(engine) <= usize::MAX,
        EngineConfig::RandomizedQuasiMonteCarlo(c) => c.points_per_scramble <= usize::MAX
            && c.scramble_count <= usize::MAX && c.scramble_count * c.points_per_scramble
            <= usize::MAX && policy_path_count(engine) <= usize::MAX,
    }
}

/// The stopping indices of a policy cover the paths of an engine: their number
/// has to fit the machine and to be the number of paths.
pub open spec fn coverage_of(engine: EngineConfig, stopping_indices: nat) -> Result<
    (),
    MonteCarloError,
> {
    if !policy_paths_fit(engine) {
        Err(MonteCarloError::Lsm(LsmNumericalError::MatrixShapeOverflow))
    } else if stopping_indices != policy_path_count(engine) {
        Err(
            MonteCarloError::Lsm(
                LsmNumericalError::ImmediateValueLengthMismatch {
                    expected: policy_path_count(engine) as usize,
                    actual: stopping_indices as usize,
                },
            ),
        )
    } else {
        Ok(())
    }
}

/// Checks that the stopping indices of a policy cover the paths of an engine.
pub fn check_coverage(engine: &EngineConfig, stopping_indices: &Vec<usize>) -> (r: Result<
    (),
    MonteCarloError,
>)
    ensures
        r == coverage_of(*engine, stopping_indices@.len()),
{
    let overflow: MonteCarloError = MonteCarloError::Lsm(LsmNumericalError::MatrixShapeOverflow);
    let (count, reduction) = match engine {
        EngineConfig::PseudoMonteCarlo(c) => {
            if c.independent_sampling_units > usize::MAX as u64 {
                return Err(overflow);
            }
            (c.independent_sampling_units as usize, c.variance_reduction)
        },
        EngineConfig::RandomizedQuasiMonteCarlo(c) => {
            if c.points_per_scramble > usize::MAX as u64 || c.scramble_count as u64
                > usize::MAX as u64 {
                return Err(overflow);
            }
            let scrambles: usize = c.scramble_count as usize;
            match scrambles.checked_mul(c.points_per_scramble as usize) {
                None => return Err(overflow),
                Some(count) => (count, c.variance_reduction),
            }
        },
    };
    let multiplier: usize = if reduction.antithetic {
        2
    } else {
        1
    };
    let expected = match count.checked_mul(multiplier) {
        None => return Err(overflow),
        Some(expected) => expected,
    };
    if stopping_indices.len() != expected {
        return Err(
            MonteCarloError::Lsm(
                LsmNumericalError::ImmediateValueLengthMismatch {
                    expected,
                    actual: stopping_indices.len(),
                },
            ),
        );
    }
    Ok(())
}

/// The reflected shocks.
pub open spec fn reflected<R: Scalar>(shocks: Seq<R>) -> Seq<R> {
    Seq::new(shocks.len(), |i: int| negated(shocks[i]))
}

/// Reflects shocks.
pub fn reflect<R: Scalar, M: Math<R>>(m: &M, shocks: &Vec<R>) -> (mate: Vec<R>)
    ensures
        mate@ == reflected(shocks@),
{
    m.laws();
    let mut mate: Vec<R> = Vec::new();
    let mut i: usize = 0;
    while i < shocks.len()
        invariant
            lawful::<R>(),
            i <= shocks@.len(),
            mate@.len() == i,
            forall|k: int| 0 <= k < i ==> #[trigger] mate@[k] == negated(shocks@[k]),
        decreases shocks@.len() - i,
    {
        mate.push(shocks[i].neg());
        i = i + 1;
    }
    assert(mate@ =~= reflected(shocks@));
    mate
}

/// Entry by entry, the average of a path and its mate.
pub open spec fn pair_average<R: Scalar>(primary: Seq<R>, mate: Seq<R>) -> Seq<R> {
    Seq::new(primary.len(), |i: int| times(plus(primary[i], mate[i]), half()))
}

/// Averages a path and its mate.
pub fn average_pair<R: Scalar, M: Math<R>>(m: &M, primary: &Vec<R>, mate: &Vec<R>) -> (v: Vec<R>)
    requires
        primary@.len() == mate@.len(),
    ensures
        v@ == pair_average(primary@, mate@),
{
    m.laws();
    let half_value = R::from(1u32) / R::from(2u32);
    let mut v: Vec<R> = Vec::new();
    let mut i: usize = 0;
    while i < primary.len()
        invariant
            lawful::<R>(),
            half_value == half::<R>(),
            i <= primary@.len(),
            primary@.len() == mate@.len(),
            v@.len() == i,
            forall|k: int|
                0 <= k < i ==> #[trigger] v@[k] == times(plus(primary@[k], mate@[k]), half()),
        decreases primary@.len() - i,
    {
        v.push((primary[i] + mate[i]) * half_value);
        i = i + 1;
    }
    assert(v@ =~= pair_average(primary@, mate@));
    v
}

/// A row of a pair: the primary path, averaged with its mate where there is
/// one. The primary fails first.
pub open spec fn paired_row<R: Scalar>(
    antithetic: bool,
    primary: Result<Seq<R>, MonteCarloError>,
    mate: Result<Seq<R>, MonteCarloError>,
) -> Result<Seq<R>, MonteCarloError> {
    match primary {
        Err(e) => Err(e),
        Ok(a) => if !antithetic {
            Ok(a)
        } else {
            match mate {
                Err(e) => Err(e),
                Ok(b) => Ok(pair_average(a, b)),
            }
        },
    }
}

/// The quantities of a path, followed by its buckets.
pub open spec fn full_row<R>(p: Pathwise<R>) -> Seq<R> {
    match p.raw_buckets {
        Some(b) => p.values + b,
        None => p.values,
    }
}

/// The number of entries of a full row.
pub open spec fn full_width<R>(lv: LocalVolPlan<R>) -> nat {
    match lv.buckets {
        Some(count) => PATHWISE_COMPONENTS as nat + count as nat,
        None => PATHWISE_COMPONENTS as nat,
    }
}

/// Joins the quantities of a path and its buckets.
fn join_row<R: Scalar>(p: LocalVolPathwise<R>) -> (row: Vec<R>)
    ensures
        row@ == full_row(p.seen()),
{
    let mut row = p.values;
    let ghost values = row@;
    if let Some(buckets) = p.raw_buckets {
        let mut i: usize = 0;
        while i < buckets.len()
            invariant
                i <= buckets@.len(),
                row@ == values + buckets@.take(i as int),
            decreases buckets@.len() - i,
        {
            row.push(buckets[i]);
            i = i + 1;
            assert(row@ =~= values + buckets@.take(i as int));
        }
        assert(buckets@.take(i as int) =~= buckets@);
    }
    row
}

/// The run of a local-volatility simulation.
pub struct LocalVolRun<R> {
    pub engine: EngineConfig,
    /// The dimension of a quasi-random draw.
    pub dimension: u32,
    pub bumps: Option<BumpSpots<R>>,
    /// The stopping index of each path, where an exercise policy is frozen.
    pub stopping_indices: Option<Vec<usize>>,
}

/// The run of a local-volatility simulation, with its indices as a sequence.
pub ghost struct RunView<R> {
    pub engine: EngineConfig,
    pub dimension: u32,
    pub bumps: Option<BumpSpots<R>>,
    pub stops: Option<Seq<usize>>,
}

impl<R> View for LocalVolRun<R> {
    type V = RunView<R>;

    open spec fn view(&self) -> RunView<R> {
        RunView {
            engine: self.engine,
            dimension: self.dimension,
            bumps: self.bumps,
            stops: match self.stopping_indices {
                Some(v) => Some(v@),
                None => None,
            },
        }
    }
}

/// The quantities of one path. Under a frozen policy the cash flow of the
/// stopping index at `place` is selected first.
pub open spec fn path_row<R: Scalar, W: LocalVolPaths<R>>(
    m: Model<R>,
    w: W,
    plan: SimulationPlan<R>,
    lv: LocalVolPlan<R>,
    run: RunView<R>,
    shocks: Seq<R>,
    path: u64,
    place: int,
) -> Result<Seq<R>, MonteCarloError> {
    let selected: Result<Option<ExerciseCashflowSelection<R>>, MonteCarloError> =
        match run.stops {
        None => Ok(None),
        Some(stops) => match w.selection_of(stops[place]) {
            Err(e) => Err(e),
            Ok(s) => Ok(Some(s)),
        },
    };
    match selected {
        Err(e) => Err(e),
        Ok(selection) => match pathwise_of(
            m,
            w,
            plan,
            lv,
            run.bumps,
            shocks,
            path,
            selection,
        ) {
            Err(e) => Err(e),
            Ok(p) => Ok(full_row(p)),
        },
    }
}

/// The quantities of a path and its mate. The stopping indices of a pair stand
/// side by side from `place` on.
pub open spec fn unit_of<R: Scalar, W: LocalVolPaths<R>>(
    m: Model<R>,
    w: W,
    plan: SimulationPlan<R>,
    lv: LocalVolPlan<R>,
    run: RunView<R>,
    shocks: Result<Seq<R>, MonteCarloError>,
    path: u64,
    place: int,
) -> Result<Seq<R>, MonteCarloError> {
    match shocks {
        Err(e) => Err(e),
        Ok(z) => paired_row(
            run.engine.reduction().antithetic,
            path_row(m, w, plan, lv, run, z, path, place),
            path_row(m, w, plan, lv, run, reflected(z), path, place + 1),
        ),
    }
}

/// The seed of an engine.
pub open spec fn seed_of(engine: EngineConfig) -> u64 {
    match engine {
        EngineConfig::PseudoMonteCarlo(c) => c.master_seed,
        EngineConfig::RandomizedQuasiMonteCarlo(c) => c.master_seed,
    }
}

/// The points of a scramble, or none of a pseudo-random engine.
pub open spec fn points_of(engine: EngineConfig) -> u64 {
    match engine {
        EngineConfig::PseudoMonteCarlo(_) => 0,
        EngineConfig::RandomizedQuasiMonteCarlo(c) => c.points_per_scramble,
    }
}

/// The rows of a local-volatility run. The path of a point counts on through
/// the scrambles, and the places of its stopping indices with it.
pub open spec fn local_vol_rows<R: Scalar, B: Backend<R>, W: LocalVolPaths<R>>(
    m: Model<R>,
    b: B,
    w: W,
    plan: SimulationPlan<R>,
    lv: LocalVolPlan<R>,
    run: RunView<R>,
) -> Rows<R> {
    let reduction = run.engine.reduction();
    Rows {
        width: full_width(lv),
        unit: |unit: int|
            unit_of(
                m,
                w,
                plan,
                lv,
                run,
                w.path_shocks_of(seed_of(run.engine), unit as u64, reduction.brownian_bridge),
                unit as u64,
                unit * paths_per_unit(reduction),
            ),
        point: |scramble: u32, point: int|
            unit_of(
                m,
                w,
                plan,
                lv,
                run,
                quasi_shocks(
                    b,
                    reduction.brownian_bridge,
                    run.dimension,
                    scramble,
                    point as u64,
                ),
                (scramble * points_of(run.engine) + point) as u64,
                (scramble * points_of(run.engine) + point) * paths_per_unit(reduction),
            ),
    }
}

impl<R: Scalar> LocalVolRun<R> {
    /// The paths of the run can be counted, and a frozen policy covers them.
    pub open spec fn valid(self) -> bool {
        &&& self.engine matches EngineConfig::RandomizedQuasiMonteCarlo(c) ==> c.scramble_count
            * c.points_per_scramble <= u64::MAX
        &&& self.stopping_indices matches Some(indices) ==> indices@.len() == policy_path_count(
            self.engine,
        )
    }
}

/// The draws of a local-volatility run.
struct LocalVolSampler<'a, R: Scalar, M: Math<R>, B: Backend<R>, W: LocalVolPaths<R>> {
    m: &'a M,
    b: &'a B,
    w: &'a W,
    plan: &'a SimulationPlan<R>,
    lv: &'a LocalVolPlan<R>,
    run: &'a LocalVolRun<R>,
    reduction: VarianceReduction,
}

impl<'a, R: Scalar, M: Math<R>, B: Backend<R>, W: LocalVolPaths<R>> LocalVolSampler<
    'a,
    R,
    M,
    B,
    W,
> {
    #[verifier::type_invariant]
    spec fn inv(self) -> bool {
        &&& self.run.valid()
        &&& self.lv.valid()
        &&& self.plan.continuous_barrier ==> self.lv.expiry_observation
            < self.w.observations_expected()
        &&& self.reduction == self.run.engine.reduction()
    }

    /// Evaluates one path.
    fn one(&self, shocks: &Vec<R>, path: u64, place: usize) -> (r: Result<Vec<R>, MonteCarloError>)
        requires
            self.run.stopping_indices matches Some(indices) ==> place < indices@.len(),
        ensures
            seen(r) == path_row(
                self.m.model(),
                *self.w,
                *self.plan,
                *self.lv,
                self.run@,
                shocks@,
                path,
                place as int,
            ),
            r matches Ok(v) ==> v@.len() == full_width(*self.lv),
    {
        proof {
            use_type_invariant(self);
        }
        let selection: Option<ExerciseCashflowSelection<R>> = match &self.run.stopping_indices {
            None => None,
            Some(indices) => match self.w.selection(indices[place]) {
                Err(e) => return Err(e),
                Ok(s) => Some(s),
            },
        };
        proof {
            pathwise_shape(
                self.m.model(),
                *self.w,
                *self.plan,
                *self.lv,
                self.run.bumps,
                shocks@,
                path,
                selection,
            );
        }
        match self.plan.local_vol_pathwise_values_and_buckets_inner(
            self.m,
            self.w,
            self.lv,
            self.run.bumps,
            shocks,
            path,
            selection,
        ) {
            Err(e) => Err(e),
            Ok(p) => Ok(join_row(p)),
        }
    }

    /// Evaluates a path and its mate.
    fn pair(&self, shocks: &Vec<R>, path: u64, place: usize) -> (r: Result<
        Vec<R>,
        MonteCarloError,
    >)
        requires
            self.run.stopping_indices matches Some(indices) ==> place + paths_per_unit(
                self.run.engine.reduction(),
            ) <= indices@.len(),
        ensures
            seen(r) == unit_of(
                self.m.model(),
                *self.w,
                *self.plan,
                *self.lv,
                self.run@,
                Ok(shocks@),
                path,
                place as int,
            ),
            r matches Ok(v) ==> v@.len() == full_width(*self.lv),
    {
        proof {
            use_type_invariant(self);
        }
        let primary = match self.one(shocks, path, place) {
            Err(e) => return Err(e),
            Ok(v) => v,
        };
        if !self.reduction.antithetic {
            return Ok(primary);
        }
        let mate_shocks = reflect(self.m, shocks);
        let next: usize = match &self.run.stopping_indices {
            Some(indices) => {
                assert(place + 1 < indices.len());
                place + 1
            },
            None => 0,
        };
        proof {
            if self.run.stopping_indices is None {
                assert(path_row(
                    self.m.model(),
                    *self.w,
                    *self.plan,
                    *self.lv,
                    self.run@,
                    mate_shocks@,
                    path,
                    next as int,
                ) == path_row(
                    self.m.model(),
                    *self.w,
                    *self.plan,
                    *self.lv,
                    self.run@,
                    mate_shocks@,
                    path,
                    place + 1,
                ));
            }
        }
        match self.one(&mate_shocks, path, next) {
            Err(e) => Err(e),
            Ok(mate) => Ok(average_pair(self.m, &primary, &mate)),
        }
    }
}

impl<'a, R: Scalar, M: Math<R>, B: Backend<R>, W: LocalVolPaths<R>> UnitSampler<
    R,
> for LocalVolSampler<'a, R, M, B, W> {
    closed spec fn rows(&self) -> Rows<R> {
        local_vol_rows(self.m.model(), *self.b, *self.w, *self.plan, *self.lv, self.run@)
    }

    closed spec fn unit_exists(&self, unit: u64) -> bool {
        self.run.engine matches EngineConfig::PseudoMonteCarlo(c) && unit
            < c.independent_sampling_units
    }

    closed spec fn point_exists(&self, scramble: u32, point: u64) -> bool {
        self.run.engine matches EngineConfig::RandomizedQuasiMonteCarlo(c) && scramble
            < c.scramble_count && point < c.points_per_scramble
    }

    fn sample_unit(&self, unit: u64) -> (r: Result<Vec<R>, MonteCarloError>) {
        proof {
            use_type_invariant(self);
        }
        let (units, seed) = match self.run.engine {
            EngineConfig::PseudoMonteCarlo(c) => (c.independent_sampling_units, c.master_seed),
            EngineConfig::RandomizedQuasiMonteCarlo(c) => (0, c.master_seed),
        };
        let shocks = match self.w.path_shocks(seed, unit, self.reduction.brownian_bridge) {
            Err(e) => return Err(e),
            Ok(z) => z,
        };
        let place: usize = match &self.run.stopping_indices {
            Some(indices) => {
                proof {
                    let n = paths_per_unit(self.reduction) as int;
                    assert(unit * n + n <= units * n) by (nonlinear_arith)
                        requires
                            unit + 1 <= units,
                            1 <= n,
                    ;
                }
                assert(unit * paths_per_unit(self.reduction) + paths_per_unit(self.reduction)
                    <= indices.len());
                if self.reduction.antithetic {
                    unit as usize * 2
                } else {
                    unit as usize
                }
            },
            None => 0,
        };
        let row = self.pair(&shocks, unit, place);
        proof {
            lemma_place(
                self.m.model(),
                *self.w,
                *self.plan,
                *self.lv,
                self.run@,
                Ok(shocks@),
                unit,
                place as int,
                unit * paths_per_unit(self.reduction),
            );
        }
        row
    }

    fn sample_point(&self, scramble: u32, point: u64) -> (r: Result<Vec<R>, MonteCarloError>) {
        proof {
            use_type_invariant(self);
        }
        let (scrambles, points) = match self.run.engine {
            EngineConfig::PseudoMonteCarlo(_) => (0, 0),
            EngineConfig::RandomizedQuasiMonteCarlo(c) => (c.scramble_count, c.points_per_scramble),
        };
        let shocks = match local_vol_rqmc_shocks(
            self.b,
            self.reduction.brownian_bridge,
            self.run.dimension,
            scramble,
            point,
        ) {
            Err(e) => return Err(e),
            Ok(z) => z,
        };
        proof {
            assert(scramble * points + point < scrambles * points) by (nonlinear_arith)
                requires
                    scramble + 1 <= scrambles,
                    point < points,
            ;
            assert(0 <= scramble * points) by (nonlinear_arith)
                requires
                    0 <= scramble,
                    0 <= points,
            ;
        }
        let path: u64 = scramble as u64 * points + point;
        let place: usize = match &self.run.stopping_indices {
            Some(indices) => {
                proof {
                    let n = paths_per_unit(self.reduction) as int;
                    assert(path * n + n <= scrambles * points * n) by (nonlinear_arith)
                        requires
                            path + 1 <= scrambles * points,
                            1 <= n,
                    ;
                }
                assert(path * paths_per_unit(self.reduction) + paths_per_unit(self.reduction)
                    <= indices.len());
                if self.reduction.antithetic {
                    path as usize * 2
                } else {
                    path as usize
                }
            },
            None => 0,
        };
        let row = self.pair(&shocks, path, place);
        proof {
            lemma_place(
                self.m.model(),
                *self.w,
                *self.plan,
                *self.lv,
                self.run@,
                Ok(shocks@),
                path,
                place as int,
                path * paths_per_unit(self.reduction),
            );
        }
        row
    }
}

/// Without a frozen policy no place matters.
proof fn lemma_place<R: Scalar, W: LocalVolPaths<R>>(
    m: Model<R>,
    w: W,
    plan: SimulationPlan<R>,
    lv: LocalVolPlan<R>,
    run: RunView<R>,
    shocks: Result<Seq<R>, MonteCarloError>,
    path: u64,
    first: int,
    second: int,
)
    requires
        run.stops is Some ==> first == second,
    ensures
        unit_of(m, w, plan, lv, run, shocks, path, first) == unit_of(
            m,
            w,
            plan,
            lv,
            run,
            shocks,
            path,
            second,
        ),
{
}

/// The table of a local-volatility run. Where buckets were asked for, the rows
/// are summed in their order.
pub open spec fn local_vol_table<R: Scalar, B: Backend<R>, W: LocalVolPaths<R>>(
    m: Model<R>,
    b: B,
    w: W,
    plan: SimulationPlan<R>,
    lv: LocalVolPlan<R>,
    run: RunView<R>,
    ordered: bool,
) -> Result<Seq<Seq<R>>, MonteCarloError> {
    table_of(m, b, local_vol_rows(m, b, w, plan, lv, run), run.engine, ordered)
}

/// Samples a local-volatility run.
pub fn sample_local_vol<R: Scalar, M: Math<R>, B: Backend<R>, W: LocalVolPaths<R>>(
    m: &M,
    b: &B,
    w: &W,
    plan: &SimulationPlan<R>,
    lv: &LocalVolPlan<R>,
    run: &LocalVolRun<R>,
    ordered: bool,
) -> (r: Result<Vec<Vec<R>>, MonteCarloError>)
    requires
        lv.valid(),
        run.valid(),
        plan.continuous_barrier ==> lv.expiry_observation < w.observations_expected(),
        full_width(*lv) <= usize::MAX,
    ensures
        table_seen(r) == local_vol_table(m.model(), *b, *w, *plan, *lv, run@, ordered),
        r matches Ok(t) ==> rectangular(t@, full_width(*lv)),
{
    let reduction = match run.engine {
        EngineConfig::PseudoMonteCarlo(c) => c.variance_reduction,
        EngineConfig::RandomizedQuasiMonteCarlo(c) => c.variance_reduction,
    };
    let width: usize = match lv.buckets {
        Some(count) => PATHWISE_COMPONENTS + count,
        None => PATHWISE_COMPONENTS,
    };
    let sampler = LocalVolSampler { m, b, w, plan, lv, run, reduction };
    tabulate(m, b, &sampler, &run.engine, ordered, width)
}

} // verus!
