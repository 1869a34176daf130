//! The stage pipeline: the mutational loop's accounting, executor
//! composition, restart, and the outer-loop iteration.

use std::cell::RefCell;
use std::rc::Rc;

use fuzz_core::{
    CombinedExecutor, Error, ExitKind, Executor, FlipMutator, FuzzState, ListFeedback,
    LoopMutationalStage, PerformInterval, RestartStage, SkippableStage,
    SkippableStageDecision, Stage, StagesOwnedList, StagesTuple, StdFuzzer, Testcase,
    fuzz_one, should_halt,
};

struct TestExecutor {
    kind: ExitKind,
    obs: Vec<u64>,
    runs: usize,
    resets: usize,
    fail: bool,
    log: Option<(Rc<RefCell<Vec<String>>>, String)>,
}

impl TestExecutor {
    fn ok(obs: Vec<u64>) -> TestExecutor {
        TestExecutor { kind: ExitKind::Okay, obs, runs: 0, resets: 0, fail: false, log: None }
    }

    fn logged(tag: &str, log: Rc<RefCell<Vec<String>>>, fail: bool) -> TestExecutor {
        TestExecutor {
            kind: ExitKind::Okay,
            obs: vec![],
            runs: 0,
            resets: 0,
            fail,
            log: Some((log, tag.to_string())),
        }
    }
}

impl Executor for TestExecutor {
    fn run_target(&mut self, _input: &Vec<u8>) -> Result<ExitKind, Error> {
        self.runs += 1;
        if let Some((log, tag)) = &self.log {
            log.borrow_mut().push(format!("{}:run", tag));
        }
        if self.fail {
            Err(Error::illegal_state("target unavailable"))
        } else {
            Ok(self.kind)
        }
    }

    fn post_run_reset(&mut self) {
        self.resets += 1;
        if let Some((log, tag)) = &self.log {
            log.borrow_mut().push(format!("{}:reset", tag));
        }
    }

    fn list_observation(&mut self) -> Vec<u64> {
        self.obs.clone()
    }
}

fn seeded_state() -> (StdFuzzer, FuzzState) {
    let mut feedback = ListFeedback::new("edges");
    let mut state = FuzzState::new(7, 64);
    feedback.init_state(&mut state.metadata).unwrap();
    let fuzzer = StdFuzzer::new(feedback);
    (fuzzer, state)
}

#[test]
fn mutational_loop_runs_once_per_mutated_verdict() {
    let (mut fuzzer, mut state) = seeded_state();
    let id = state.corpus.add(Testcase::with_input(vec![1, 2, 3, 4]));
    state.corpus.set_current(Some(id));
    let mut exec = TestExecutor::ok(vec![42]);
    let rounds = 5;
    let mut stage = LoopMutationalStage::new(FlipMutator::new(rounds));
    stage.perform(&mut fuzzer, &mut exec, &mut state, id).unwrap();
    // exactly one evaluation (one target run) per Mutated verdict, then the
    // Skipped verdict ends the loop
    assert_eq!(exec.runs, rounds as usize);
}

#[test]
fn mutational_loop_skips_immediately_on_empty_input() {
    let (mut fuzzer, mut state) = seeded_state();
    let id = state.corpus.add(Testcase::with_input(vec![]));
    state.corpus.set_current(Some(id));
    let mut exec = TestExecutor::ok(vec![42]);
    let mut stage = LoopMutationalStage::new(FlipMutator::new(5));
    stage.perform(&mut fuzzer, &mut exec, &mut state, id).unwrap();
    assert_eq!(exec.runs, 0);
}

#[test]
fn mutational_loop_reports_a_missing_seed() {
    let (mut fuzzer, mut state) = seeded_state();
    let mut exec = TestExecutor::ok(vec![]);
    let mut stage = LoopMutationalStage::new(FlipMutator::new(3));
    let err = stage
        .perform(&mut fuzzer, &mut exec, &mut state, fuzz_core::SeedId(12))
        .unwrap_err();
    assert!(err.is_not_found());
}

#[test]
fn combined_executor_resets_both_sides_primary_first() {
    let log = Rc::new(RefCell::new(Vec::new()));
    let primary = TestExecutor::logged("primary", log.clone(), false);
    let secondary = TestExecutor::logged("secondary", log.clone(), false);
    let mut combined = CombinedExecutor::new(primary, secondary);
    combined.run_target(&vec![1]).unwrap();
    assert_eq!(
        *log.borrow(),
        vec!["primary:run".to_string(), "primary:reset".to_string(), "secondary:reset".to_string()]
    );
    assert_eq!(combined.primary().resets, 1);
    assert_eq!(combined.secondary().resets, 1);
}

#[test]
fn combined_executor_resets_both_sides_even_on_error() {
    let log = Rc::new(RefCell::new(Vec::new()));
    let primary = TestExecutor::logged("primary", log.clone(), true);
    let secondary = TestExecutor::logged("secondary", log.clone(), false);
    let mut combined = CombinedExecutor::new(primary, secondary);
    assert!(combined.run_target(&vec![1]).is_err());
    assert_eq!(
        *log.borrow(),
        vec!["primary:run".to_string(), "primary:reset".to_string(), "secondary:reset".to_string()]
    );
    assert_eq!(combined.primary().resets, 1);
    assert_eq!(combined.secondary().resets, 1);
    // only the primary ever runs the target
    assert_eq!(combined.secondary().runs, 0);
}

#[test]
fn restart_stage_shuts_down_and_reinstalls_feedback_state() {
    let (mut fuzzer, mut state) = seeded_state();
    let id = state.corpus.add(Testcase::with_input(vec![1]));
    state.corpus.set_current(Some(id));
    // persist some novelty first
    let (seen, _) = fuzzer
        .feedback
        .is_interesting(&mut state.metadata, &vec![3, 4], 0)
        .unwrap();
    assert!(seen);
    fuzzer.feedback.append_metadata(&mut state.metadata).unwrap();
    let mut exec = TestExecutor::ok(vec![]);
    let mut stage = RestartStage::new();
    let err = stage.perform(&mut fuzzer, &mut exec, &mut state, id).unwrap_err();
    assert!(err.is_shutting_down());
    // the feedback initialization state was reset: the old values are novel
    // again after the (simulated) relaunch
    let (again, _) = fuzzer
        .feedback
        .is_interesting(&mut state.metadata, &vec![3, 4], 0)
        .unwrap();
    assert!(again);
}

#[test]
fn fuzz_one_selects_a_seed_and_drives_the_pipeline() {
    let (mut fuzzer, mut state) = seeded_state();
    let first = state.corpus.add(Testcase::with_input(vec![1, 2]));
    let mut exec = TestExecutor::ok(vec![9]);
    let mut stages = (LoopMutationalStage::new(FlipMutator::new(2)), ());
    let picked = fuzz_one(&mut fuzzer, &mut stages, &mut exec, &mut state).unwrap();
    // the scheduler's pick was fuzzed and selected
    assert_eq!(picked, first);
    assert_eq!(state.corpus.current(), Some(first));
    assert_eq!(exec.runs, 2);
}

#[test]
fn fuzz_one_fails_without_enabled_entries() {
    let (mut fuzzer, mut state) = seeded_state();
    let mut exec = TestExecutor::ok(vec![]);
    let mut stages = (LoopMutationalStage::new(FlipMutator::new(2)), ());
    let err = fuzz_one(&mut fuzzer, &mut stages, &mut exec, &mut state).unwrap_err();
    assert!(err.is_illegal_state());
}

#[test]
fn owned_stage_list_runs_every_stage_in_order() {
    let (mut fuzzer, mut state) = seeded_state();
    let id = state.corpus.add(Testcase::with_input(vec![1, 2, 3]));
    state.corpus.set_current(Some(id));
    let mut exec = TestExecutor::ok(vec![7]);
    let list = vec![
        LoopMutationalStage::new(FlipMutator::new(2)),
        LoopMutationalStage::new(FlipMutator::new(3)),
    ];
    let mut stages = StagesOwnedList::new(list);
    stages.perform_all(&mut fuzzer, &mut exec, &mut state, id).unwrap();
    assert_eq!(exec.runs, 5);
}

#[test]
fn the_skip_decision_converts_from_bool() {
    assert_eq!(SkippableStageDecision::from(true), SkippableStageDecision::Perform);
    assert_eq!(SkippableStageDecision::from(false), SkippableStageDecision::Skip);
}

#[test]
fn a_skippable_stage_runs_only_when_due() {
    let (mut fuzzer, mut state) = seeded_state();
    let id = state.corpus.add(Testcase::with_input(vec![1, 2]));
    state.corpus.set_current(Some(id));
    let mut exec = TestExecutor::ok(vec![5]);
    // the wrapped stage runs on the first and fourth calls only
    let mut stage = SkippableStage::new(
        LoopMutationalStage::new(FlipMutator::new(1)),
        PerformInterval::new(3),
    );
    for _ in 0..4 {
        stage.perform(&mut fuzzer, &mut exec, &mut state, id).unwrap();
    }
    assert_eq!(exec.runs, 2);
}

#[test]
fn halting_follows_the_ignore_rules() {
    assert!(should_halt(ExitKind::Crash, false, false, false));
    assert!(!should_halt(ExitKind::Crash, true, false, false));
    assert!(should_halt(ExitKind::Oom, true, false, false));
    assert!(!should_halt(ExitKind::Oom, true, true, false));
    assert!(should_halt(ExitKind::Timeout, true, true, false));
    assert!(!should_halt(ExitKind::Timeout, true, true, true));
    assert!(!should_halt(ExitKind::Okay, false, false, false));
}
