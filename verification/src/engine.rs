//! The engine configurations.

use vstd::prelude::*;

verus! {

/// How the draws are arranged.
#[derive(Clone, Copy, Debug, PartialEq, Eq, Structural)]
pub struct VarianceReduction {
    /// Every draw is followed by its reflection.
    pub antithetic: bool,
    /// The draws of each factor pass through a Brownian bridge.
    pub brownian_bridge: bool,
}

/// A pseudo-random simulation.
#[derive(Clone, Copy, Debug, PartialEq, Eq, Structural)]
pub struct PseudoMonteCarlo {
    pub independent_sampling_units: u64,
    pub master_seed: u64,
    pub variance_reduction: VarianceReduction,
}

/// A randomized quasi-random simulation.
#[derive(Clone, Copy, Debug, PartialEq, Eq, Structural)]
pub struct RandomizedQuasiMonteCarlo {
    pub points_per_scramble: u64,
    pub scramble_count: u32,
    pub master_seed: u64,
    pub variance_reduction: VarianceReduction,
}

/// The simulation requested.
#[derive(Clone, Copy, Debug, PartialEq, Eq, Structural)]
pub enum EngineConfig {
    PseudoMonteCarlo(PseudoMonteCarlo),
    RandomizedQuasiMonteCarlo(RandomizedQuasiMonteCarlo),
}

/// The paths that one sampling unit evaluates.
pub open spec fn paths_per_unit(reduction: VarianceReduction) -> nat {
    if reduction.antithetic {
        2
    } else {
        1
    }
}

impl PseudoMonteCarlo {
    /// The paths that the simulation evaluates.
    pub fn evaluated_paths(&self) -> (paths: u128)
        ensures
            paths == self.independent_sampling_units * paths_per_unit(self.variance_reduction),
    {
        let multiplier: u128 = if self.variance_reduction.antithetic {
            2
        } else {
            1
        };
        assert(self.independent_sampling_units as u128 * multiplier <= 0xffff_ffff_ffff_ffffu128
            * 2) by (nonlinear_arith)
            requires
                self.independent_sampling_units as u128 <= 0xffff_ffff_ffff_ffffu128,
                multiplier <= 2,
        ;
        self.independent_sampling_units as u128 * multiplier
    }
}

impl RandomizedQuasiMonteCarlo {
    /// The paths that the simulation evaluates.
    pub fn evaluated_paths(&self) -> (paths: u128)
        ensures
            paths == self.points_per_scramble * self.scramble_count * paths_per_unit(
                self.variance_reduction,
            ),
    {
        let multiplier: u128 = if self.variance_reduction.antithetic {
            2
        } else {
            1
        };
        let points: u128 = self.points_per_scramble as u128;
        let scrambles: u128 = self.scramble_count as u128;
        assert(points * scrambles <= 0xffff_ffff_ffff_ffffu128 * 0xffff_ffffu128)
            by (nonlinear_arith)
            requires
                points <= 0xffff_ffff_ffff_ffffu128,
                scrambles <= 0xffff_ffffu128,
        ;
        let all: u128 = points * scrambles;
        assert(all * multiplier <= 0xffff_ffff_ffff_ffffu128 * 0xffff_ffffu128 * 2)
            by (nonlinear_arith)
            requires
                all <= 0xffff_ffff_ffff_ffffu128 * 0xffff_ffffu128,
                multiplier <= 2,
        ;
        all * multiplier
    }
}

impl EngineConfig {
    /// How the draws are arranged.
    pub open spec fn reduction(self) -> VarianceReduction {
        match self {
            EngineConfig::PseudoMonteCarlo(c) => c.variance_reduction,
            EngineConfig::RandomizedQuasiMonteCarlo(c) => c.variance_reduction,
        }
    }

    /// The seed of the draws.
    pub open spec fn seed(self) -> u64 {
        match self {
            EngineConfig::PseudoMonteCarlo(c) => c.master_seed,
            EngineConfig::RandomizedQuasiMonteCarlo(c) => c.master_seed,
        }
    }

    /// The points of a sampling unit.
    pub open spec fn points(self) -> u64 {
        match self {
            EngineConfig::PseudoMonteCarlo(_) => 1,
            EngineConfig::RandomizedQuasiMonteCarlo(c) => c.points_per_scramble,
        }
    }

    /// The independent sampling units: the draws, or the scrambles.
    pub open spec fn units(self) -> u64 {
        match self {
            EngineConfig::PseudoMonteCarlo(c) => c.independent_sampling_units,
            EngineConfig::RandomizedQuasiMonteCarlo(c) => c.scramble_count as u64,
        }
    }

    /// The paths that the simulation evaluates.
    pub open spec fn paths(self) -> int {
        match self {
            EngineConfig::PseudoMonteCarlo(c) => c.independent_sampling_units * paths_per_unit(
                c.variance_reduction,
            ),
            EngineConfig::RandomizedQuasiMonteCarlo(c) => c.points_per_scramble * c.scramble_count
                * paths_per_unit(c.variance_reduction),
        }
    }
}

/// The paths of a simulation can be counted several times over.
pub(crate) proof fn paths_fit(engine: EngineConfig)
    ensures
        0 <= engine.paths(),
        16 * engine.paths() <= u128::MAX,
{
    match engine {
        EngineConfig::PseudoMonteCarlo(c) => {
            let n = c.independent_sampling_units as int;
            let k = paths_per_unit(c.variance_reduction) as int;
            assert(0 <= n * k <= 2 * 0xffff_ffff_ffff_ffff) by (nonlinear_arith)
                requires
                    0 <= n <= 0xffff_ffff_ffff_ffff,
                    0 <= k <= 2,
            ;
        },
        EngineConfig::RandomizedQuasiMonteCarlo(c) => {
            let n = c.points_per_scramble as int;
            let s = c.scramble_count as int;
            let k = paths_per_unit(c.variance_reduction) as int;
            assert(0 <= n * s <= 0xffff_ffff_ffff_ffff * 0xffff_ffff) by (nonlinear_arith)
                requires
                    0 <= n <= 0xffff_ffff_ffff_ffff,
                    0 <= s <= 0xffff_ffff,
            ;
            let all = n * s;
            assert(0 <= all * k <= 2 * 0xffff_ffff_ffff_ffff * 0xffff_ffff) by (nonlinear_arith)
                requires
                    0 <= all <= 0xffff_ffff_ffff_ffff * 0xffff_ffff,
                    0 <= k <= 2,
            ;
        },
    }
}

/// An antithetic simulation evaluates twice the paths of a plain one.
pub proof fn antithetic_doubles_paths(plain: EngineConfig, paired: EngineConfig)
    requires
        plain matches EngineConfig::PseudoMonteCarlo(p)
            ==> paired == EngineConfig::PseudoMonteCarlo(
            (PseudoMonteCarlo {
                variance_reduction: (VarianceReduction {
                    antithetic: true,
                    ..p.variance_reduction
                }),
                ..p
            }),
        ),
        plain matches EngineConfig::RandomizedQuasiMonteCarlo(p) ==> paired
            == EngineConfig::RandomizedQuasiMonteCarlo(
            (RandomizedQuasiMonteCarlo {
                variance_reduction: (VarianceReduction {
                    antithetic: true,
                    ..p.variance_reduction
                }),
                ..p
            }),
        ),
        !plain.reduction().antithetic,
    ensures
        paired.paths() == 2 * plain.paths(),
        paired.units() == plain.units(),
{
    match plain {
        EngineConfig::PseudoMonteCarlo(c) => {},
        EngineConfig::RandomizedQuasiMonteCarlo(c) => {
            let all = c.points_per_scramble * c.scramble_count;
            assert(all * 2 == 2 * (all * 1)) by (nonlinear_arith);
        },
    }
}

} // verus!
