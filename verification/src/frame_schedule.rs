//! The order of the solver's passes within one frame.
//!
//! A frame rebuilds the neighbour table and the densities, then runs up to a
//! fixed number of substeps. The numerical passes themselves are done by the
//! caller; this module decides which pass comes next.

use vstd::prelude::*;

verus! {

/// One data-parallel pass over the particle array.
#[derive(Clone, Copy, Debug, PartialEq, Eq, Structural)]
pub enum Pass {
    /// Rebuild the neighbour table from the current positions.
    RebuildNeighbors,
    /// Recompute density and compressibility factor of every particle.
    ComputeDensityAndFactor,
    /// Choose the length of the substep. With `absorb_remaining` the substep
    /// is the last that the cap allows and takes all the time that is left.
    ChooseSubstep { absorb_remaining: bool },
    /// Predict velocities from viscosity and gravity.
    PredictVelocity,
    /// Density solve, first half of an iteration: stiffness of every particle.
    DensityStiffness,
    /// Density solve, second half of an iteration: velocity correction.
    DensityCorrection,
    /// Move the particles by their velocities.
    Integrate,
    /// Clamp the particles against the boundary box.
    ResolveBoundary,
    /// Divergence solve, first half of an iteration: stiffness.
    DivergenceStiffness,
    /// Divergence solve, second half of an iteration: velocity correction.
    DivergenceCorrection,
}

/// The fixed counts of a simulation: the cap on substeps per frame and the
/// iteration counts of the two pressure solves.
#[derive(Clone, Copy, Debug, PartialEq, Eq, Structural)]
pub struct SolverPlan {
    pub max_substeps: u32,
    pub density_iterations: u32,
    pub divergence_iterations: u32,
}

/// Where a frame stands: the pass that is due next.
#[derive(Clone, Copy, Debug, PartialEq, Eq, Structural)]
pub enum Stage {
    FrameStart,
    InitialDensity,
    SubstepHead,
    Predict,
    DensityStiffness,
    DensityCorrection,
    Integrate,
    Boundary,
    Rebuild,
    Recompute,
    DivergenceStiffness,
    DivergenceCorrection,
    Finished,
}

/// The state of a frame: its stage, the substeps completed, and the iteration
/// of the pressure solve in progress.
#[derive(Clone, Copy, Debug, PartialEq, Eq, Structural)]
pub struct FrameSchedule {
    pub plan: SolverPlan,
    pub stage: Stage,
    pub substeps_done: u32,
    pub iteration: u32,
}

/// The pass reads the neighbour table.
pub open spec fn reads_neighbors(p: Pass) -> bool {
    p == Pass::ComputeDensityAndFactor || reads_density(p)
}

/// The pass reads densities or compressibility factors.
pub open spec fn reads_density(p: Pass) -> bool {
    p == Pass::PredictVelocity || p == Pass::DensityStiffness || p == Pass::DensityCorrection || p
        == Pass::DivergenceStiffness || p == Pass::DivergenceCorrection
}

/// The pass changes particle positions.
pub open spec fn moves_particles(p: Pass) -> bool {
    p == Pass::Integrate || p == Pass::ResolveBoundary
}

/// At this stage the neighbour table was built from the current positions.
pub open spec fn neighbors_current(stage: Stage) -> bool {
    stage != Stage::FrameStart && stage != Stage::Boundary && stage != Stage::Rebuild
}

/// At this stage densities and factors were computed from the current
/// positions and the current neighbour table.
pub open spec fn density_current(stage: Stage) -> bool {
    neighbors_current(stage) && stage != Stage::InitialDensity && stage != Stage::Recompute
}

/// The passes of one substep.
pub open spec fn passes_per_substep(plan: SolverPlan) -> int {
    6 + 2 * plan.density_iterations + 2 * plan.divergence_iterations
}

/// The passes of the current substep that are already behind, by stage.
pub open spec fn passes_behind(s: FrameSchedule) -> int {
    match s.stage {
        Stage::FrameStart => -2,
        Stage::InitialDensity => -1,
        Stage::SubstepHead => 0,
        Stage::Predict => 1,
        Stage::DensityStiffness => 2 + 2 * s.iteration,
        Stage::DensityCorrection => 3 + 2 * s.iteration,
        Stage::Integrate => 2 + 2 * s.plan.density_iterations,
        Stage::Boundary => 3 + 2 * s.plan.density_iterations,
        Stage::Rebuild => 4 + 2 * s.plan.density_iterations,
        Stage::Recompute => 5 + 2 * s.plan.density_iterations,
        Stage::DivergenceStiffness => 6 + 2 * s.plan.density_iterations + 2 * s.iteration,
        Stage::DivergenceCorrection => 7 + 2 * s.plan.density_iterations + 2 * s.iteration,
        Stage::Finished => 0,
    }
}

/// The most passes that the frame can still take: those of the substeps that
/// the cap still allows, less what is behind in the current one.
pub open spec fn passes_left(s: FrameSchedule) -> int {
    if s.stage == Stage::Finished {
        0
    } else {
        (s.plan.max_substeps - s.substeps_done) * passes_per_substep(s.plan) - passes_behind(s)
    }
}

impl FrameSchedule {
    /// The counters agree with the stage: the cap on substeps is kept, a
    /// substep in progress is one that the cap allows, and the iteration of a
    /// pressure solve is below its count.
    pub open spec fn wf(&self) -> bool {
        &&& self.substeps_done <= self.plan.max_substeps
        &&& match self.stage {
            Stage::FrameStart | Stage::InitialDensity => self.substeps_done == 0 && self.iteration
                == 0,
            Stage::SubstepHead | Stage::Finished => self.iteration == 0,
            Stage::DensityStiffness | Stage::DensityCorrection => self.substeps_done
                < self.plan.max_substeps && self.iteration < self.plan.density_iterations,
            Stage::DivergenceStiffness | Stage::DivergenceCorrection => self.substeps_done
                < self.plan.max_substeps && self.iteration < self.plan.divergence_iterations,
            _ => self.substeps_done < self.plan.max_substeps && self.iteration == 0,
        }
    }

    /// The state with another stage and iteration.
    pub open spec fn at(self, stage: Stage, iteration: u32) -> FrameSchedule {
        FrameSchedule { stage, iteration, ..self }
    }

    /// The state at the head of the next substep.
    pub open spec fn substep_completed(self) -> FrameSchedule {
        FrameSchedule {
            stage: Stage::SubstepHead,
            iteration: 0,
            substeps_done: (self.substeps_done + 1) as u32,
            ..self
        }
    }

    /// The pass that is due in this state, if any. `time_left` says whether
    /// frame time remains; it matters at the head of a substep only.
    pub open spec fn spec_pass(self, time_left: bool) -> Option<Pass> {
        match self.stage {
            Stage::FrameStart => Some(Pass::RebuildNeighbors),
            Stage::InitialDensity => Some(Pass::ComputeDensityAndFactor),
            Stage::SubstepHead => if time_left && self.substeps_done < self.plan.max_substeps {
                Some(
                    Pass::ChooseSubstep {
                        absorb_remaining: self.substeps_done + 1 == self.plan.max_substeps,
                    },
                )
            } else {
                None
            },
            Stage::Predict => Some(Pass::PredictVelocity),
            Stage::DensityStiffness => Some(Pass::DensityStiffness),
            Stage::DensityCorrection => Some(Pass::DensityCorrection),
            Stage::Integrate => Some(Pass::Integrate),
            Stage::Boundary => Some(Pass::ResolveBoundary),
            Stage::Rebuild => Some(Pass::RebuildNeighbors),
            Stage::Recompute => Some(Pass::ComputeDensityAndFactor),
            Stage::DivergenceStiffness => Some(Pass::DivergenceStiffness),
            Stage::DivergenceCorrection => Some(Pass::DivergenceCorrection),
            Stage::Finished => None,
        }
    }

    /// The state after the pass that is due in this state.
    pub open spec fn spec_after(self, time_left: bool) -> FrameSchedule {
        match self.stage {
            Stage::FrameStart => self.at(Stage::InitialDensity, 0),
            Stage::InitialDensity => self.at(Stage::SubstepHead, 0),
            Stage::SubstepHead => if time_left && self.substeps_done < self.plan.max_substeps {
                self.at(Stage::Predict, 0)
            } else {
                self.at(Stage::Finished, 0)
            },
            Stage::Predict => if self.plan.density_iterations > 0 {
                self.at(Stage::DensityStiffness, 0)
            } else {
                self.at(Stage::Integrate, 0)
            },
            Stage::DensityStiffness => self.at(Stage::DensityCorrection, self.iteration),
            Stage::DensityCorrection => if self.iteration + 1 < self.plan.density_iterations {
                self.at(Stage::DensityStiffness, (self.iteration + 1) as u32)
            } else {
                self.at(Stage::Integrate, 0)
            },
            Stage::Integrate => self.at(Stage::Boundary, 0),
            Stage::Boundary => self.at(Stage::Rebuild, 0),
            Stage::Rebuild => self.at(Stage::Recompute, 0),
            Stage::Recompute => if self.plan.divergence_iterations > 0 {
                self.at(Stage::DivergenceStiffness, 0)
            } else {
                self.substep_completed()
            },
            Stage::DivergenceStiffness => self.at(Stage::DivergenceCorrection, self.iteration),
            Stage::DivergenceCorrection => if self.iteration + 1 < self.plan.divergence_iterations {
                self.at(Stage::DivergenceStiffness, (self.iteration + 1) as u32)
            } else {
                self.substep_completed()
            },
            Stage::Finished => self,
        }
    }

    /// The schedule of a new frame.
    pub fn new(plan: SolverPlan) -> (s: Self)
        ensures
            s == (FrameSchedule { plan, stage: Stage::FrameStart, substeps_done: 0, iteration: 0 }),
            s.wf(),
    {
        FrameSchedule { plan, stage: Stage::FrameStart, substeps_done: 0, iteration: 0 }
    }

    /// Starts the next frame with the same plan.
    pub fn begin_frame(&mut self)
        ensures
            *final(self) == (FrameSchedule {
                plan: old(self).plan,
                stage: Stage::FrameStart,
                substeps_done: 0,
                iteration: 0,
            }),
            final(self).wf(),
    {
        self.stage = Stage::FrameStart;
        self.substeps_done = 0;
        self.iteration = 0;
    }

    /// Tells whether the frame is over.
    pub fn is_finished(&self) -> (done: bool)
        ensures
            done == (self.stage == Stage::Finished),
    {
        match self.stage {
            Stage::Finished => true,
            _ => false,
        }
    }

    /// Returns the pass that is due and moves on to the next stage; returns
    /// `None` once the frame is over. `time_left` says whether frame time
    /// remains; it is read at the head of a substep only, where a substep
    /// starts if time remains and the cap on substeps is not reached.
    pub fn advance(&mut self, time_left: bool) -> (pass: Option<Pass>)
        requires
            old(self).wf(),
        ensures
            pass == old(self).spec_pass(time_left),
            *final(self) == old(self).spec_after(time_left),
            final(self).wf(),
    {
        match self.stage {
            Stage::FrameStart => {
                self.stage = Stage::InitialDensity;
                Some(Pass::RebuildNeighbors)
            },
            Stage::InitialDensity => {
                self.stage = Stage::SubstepHead;
                Some(Pass::ComputeDensityAndFactor)
            },
            Stage::SubstepHead => {
                if time_left && self.substeps_done < self.plan.max_substeps {
                    self.stage = Stage::Predict;
                    Some(
                        Pass::ChooseSubstep {
                            absorb_remaining: self.substeps_done + 1 == self.plan.max_substeps,
                        },
                    )
                } else {
                    self.stage = Stage::Finished;
                    None
                }
            },
            Stage::Predict => {
                if self.plan.density_iterations > 0 {
                    self.stage = Stage::DensityStiffness;
                } else {
                    self.stage = Stage::Integrate;
                }
                Some(Pass::PredictVelocity)
            },
            Stage::DensityStiffness => {
                self.stage = Stage::DensityCorrection;
                Some(Pass::DensityStiffness)
            },
            Stage::DensityCorrection => {
                if self.iteration + 1 < self.plan.density_iterations {
                    self.stage = Stage::DensityStiffness;
                    self.iteration = self.iteration + 1;
                } else {
                    self.stage = Stage::Integrate;
                    self.iteration = 0;
                }
                Some(Pass::DensityCorrection)
            },
            Stage::Integrate => {
                self.stage = Stage::Boundary;
                Some(Pass::Integrate)
            },
            Stage::Boundary => {
                self.stage = Stage::Rebuild;
                Some(Pass::ResolveBoundary)
            },
            Stage::Rebuild => {
                self.stage = Stage::Recompute;
                Some(Pass::RebuildNeighbors)
            },
            Stage::Recompute => {
                if self.plan.divergence_iterations > 0 {
                    self.stage = Stage::DivergenceStiffness;
                } else {
                    self.stage = Stage::SubstepHead;
                    self.substeps_done = self.substeps_done + 1;
                }
                Some(Pass::ComputeDensityAndFactor)
            },
            Stage::DivergenceStiffness => {
                self.stage = Stage::DivergenceCorrection;
                Some(Pass::DivergenceStiffness)
            },
            Stage::DivergenceCorrection => {
                if self.iteration + 1 < self.plan.divergence_iterations {
                    self.stage = Stage::DivergenceStiffness;
                    self.iteration = self.iteration + 1;
                } else {
                    self.stage = Stage::SubstepHead;
                    self.iteration = 0;
                    self.substeps_done = self.substeps_done + 1;
                }
                Some(Pass::DivergenceCorrection)
            },
            Stage::Finished => None,
        }
    }
}

/// Stale data is never read. A pass that reads the neighbour table is due only
/// where the table was built from the current positions, and a pass that reads
/// densities only where they were computed from them. The two notions of
/// "current" are kept truthfully: after a pass the table is current only if
/// that pass rebuilt it, or it was current and the pass moved no particle;
/// densities likewise, with the table current when they are computed.
pub proof fn lemma_no_stale_reads(s: FrameSchedule, time_left: bool)
    requires
        s.wf(),
        s.spec_pass(time_left).is_some(),
    ensures
        reads_neighbors(s.spec_pass(time_left).unwrap()) ==> neighbors_current(s.stage),
        reads_density(s.spec_pass(time_left).unwrap()) ==> density_current(s.stage),
        neighbors_current(s.spec_after(time_left).stage) ==> s.spec_pass(time_left) == Some(
            Pass::RebuildNeighbors,
        ) || (neighbors_current(s.stage) && !moves_particles(s.spec_pass(time_left).unwrap())),
        density_current(s.spec_after(time_left).stage) ==> (s.spec_pass(time_left) == Some(
            Pass::ComputeDensityAndFactor,
        ) && neighbors_current(s.stage)) || (density_current(s.stage) && !moves_particles(
            s.spec_pass(time_left).unwrap(),
        ) && s.spec_pass(time_left) != Some(Pass::RebuildNeighbors)),
{
}

/// A frame ends: every pass brings the bound `passes_left` down by one, and
/// the bound is never negative. A frame therefore takes at most two passes
/// and those of `max_substeps` substeps.
pub proof fn lemma_frame_terminates(s: FrameSchedule, time_left: bool)
    requires
        s.wf(),
    ensures
        passes_left(s) >= 0,
        s.spec_pass(time_left).is_some() ==> passes_left(s.spec_after(time_left)) == passes_left(s)
            - 1,
        s.spec_pass(time_left).is_none() ==> s.spec_after(time_left).stage == Stage::Finished,
{
    let per = passes_per_substep(s.plan);
    let left = s.plan.max_substeps - s.substeps_done;
    assert((left - 1) * per == left * per - per) by (nonlinear_arith);
    assert(left >= 1 ==> left * per >= per) by (nonlinear_arith)
        requires
            per >= 0,
    ;
    assert(left * per >= 0) by (nonlinear_arith)
        requires
            per >= 0,
            left >= 0,
    ;
}

/// The cap on substeps holds, and the substep that reaches it is told to take
/// all the time that is left.
pub proof fn lemma_substep_cap(s: FrameSchedule, time_left: bool)
    requires
        s.wf(),
    ensures
        s.spec_after(time_left).substeps_done <= s.plan.max_substeps,
        s.spec_after(time_left).plan == s.plan,
        forall|absorb: bool|
            s.spec_pass(time_left) == Some(Pass::ChooseSubstep { absorb_remaining: absorb })
                ==> absorb == (s.substeps_done + 1 == s.plan.max_substeps),
{
}

} // verus!
