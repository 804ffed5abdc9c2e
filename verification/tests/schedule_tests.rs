use dfsph::frame_schedule::{FrameSchedule, Pass, SolverPlan, Stage};

fn run_frame(plan: SolverPlan, substeps_wanted: u32) -> Vec<Pass> {
    let mut schedule = FrameSchedule::new(plan);
    let mut passes = Vec::new();
    let mut started = 0;
    loop {
        let at_head = schedule.stage == Stage::SubstepHead;
        let time_left = started < substeps_wanted;
        match schedule.advance(time_left) {
            Some(pass) => {
                if at_head {
                    started += 1;
                }
                passes.push(pass);
            }
            None => break,
        }
        assert!(passes.len() < 10_000);
    }
    assert!(schedule.is_finished());
    passes
}

fn substep(absorb: bool, density: usize, divergence: usize) -> Vec<Pass> {
    let mut v = vec![Pass::ChooseSubstep { absorb_remaining: absorb }, Pass::PredictVelocity];
    for _ in 0..density {
        v.push(Pass::DensityStiffness);
        v.push(Pass::DensityCorrection);
    }
    v.extend([
        Pass::Integrate,
        Pass::ResolveBoundary,
        Pass::RebuildNeighbors,
        Pass::ComputeDensityAndFactor,
    ]);
    for _ in 0..divergence {
        v.push(Pass::DivergenceStiffness);
        v.push(Pass::DivergenceCorrection);
    }
    v
}

#[test]
fn frame_without_time_only_refreshes_neighbors_and_density() {
    let plan = SolverPlan { max_substeps: 2, density_iterations: 2, divergence_iterations: 1 };
    assert_eq!(run_frame(plan, 0), vec![Pass::RebuildNeighbors, Pass::ComputeDensityAndFactor]);
}

#[test]
fn frame_with_zero_cap_runs_no_substep() {
    let plan = SolverPlan { max_substeps: 0, density_iterations: 2, divergence_iterations: 1 };
    assert_eq!(run_frame(plan, 5), vec![Pass::RebuildNeighbors, Pass::ComputeDensityAndFactor]);
}

#[test]
fn one_substep_follows_the_solver_order() {
    let plan = SolverPlan { max_substeps: 2, density_iterations: 2, divergence_iterations: 1 };
    let mut expected = vec![Pass::RebuildNeighbors, Pass::ComputeDensityAndFactor];
    expected.extend(substep(false, 2, 1));
    assert_eq!(run_frame(plan, 1), expected);
}

#[test]
fn substeps_stop_at_the_cap_and_the_last_absorbs() {
    let plan = SolverPlan { max_substeps: 3, density_iterations: 1, divergence_iterations: 2 };
    let mut expected = vec![Pass::RebuildNeighbors, Pass::ComputeDensityAndFactor];
    expected.extend(substep(false, 1, 2));
    expected.extend(substep(false, 1, 2));
    expected.extend(substep(true, 1, 2));
    let got = run_frame(plan, 100);
    assert_eq!(got, expected);
    assert_eq!(got.len(), 2 + 3 * (6 + 2 * 1 + 2 * 2));
}

#[test]
fn solves_with_zero_iterations_are_skipped() {
    let plan = SolverPlan { max_substeps: 1, density_iterations: 0, divergence_iterations: 0 };
    let mut expected = vec![Pass::RebuildNeighbors, Pass::ComputeDensityAndFactor];
    expected.extend(substep(true, 0, 0));
    assert_eq!(run_frame(plan, 1), expected);
}

#[test]
fn density_is_recomputed_between_moving_and_solving() {
    let plan = SolverPlan { max_substeps: 4, density_iterations: 2, divergence_iterations: 1 };
    let passes = run_frame(plan, 4);
    let mut neighbors_fresh = false;
    let mut density_fresh = false;
    for p in passes {
        match p {
            Pass::RebuildNeighbors => {
                neighbors_fresh = true;
                density_fresh = false;
            }
            Pass::ComputeDensityAndFactor => {
                assert!(neighbors_fresh);
                density_fresh = true;
            }
            Pass::Integrate | Pass::ResolveBoundary => {
                neighbors_fresh = false;
                density_fresh = false;
            }
            Pass::ChooseSubstep { .. } => {}
            _ => assert!(neighbors_fresh && density_fresh),
        }
    }
}

#[test]
fn finished_frame_stays_finished_until_begun_again() {
    let plan = SolverPlan { max_substeps: 1, density_iterations: 1, divergence_iterations: 1 };
    let mut schedule = FrameSchedule::new(plan);
    while schedule.advance(false).is_some() {}
    assert!(schedule.is_finished());
    assert_eq!(schedule.advance(true), None);
    assert!(schedule.is_finished());
    schedule.begin_frame();
    assert!(!schedule.is_finished());
    assert_eq!(schedule.stage, Stage::FrameStart);
    assert_eq!(schedule.substeps_done, 0);
    assert_eq!(schedule.advance(true), Some(Pass::RebuildNeighbors));
}
