//! The evaluation entrypoint: admission decisions, the deferred fold, and
//! reference-counted novelty bookkeeping.

use fuzz_core::{
    Error, ExitKind, Executor, FuzzState, ListFeedback, SeedId, StdFuzzer, Testcase,
};

struct ObsExecutor {
    obs: Vec<u64>,
}

impl Executor for ObsExecutor {
    fn run_target(&mut self, _input: &Vec<u8>) -> Result<ExitKind, Error> {
        Ok(ExitKind::Okay)
    }

    fn post_run_reset(&mut self) {
    }

    fn list_observation(&mut self) -> Vec<u64> {
        self.obs.clone()
    }
}

fn setup() -> (StdFuzzer, FuzzState) {
    let mut feedback = ListFeedback::new("edges");
    let mut state = FuzzState::new(3, 64);
    feedback.init_state(&mut state.metadata).unwrap();
    (StdFuzzer::new(feedback), state)
}

#[test]
fn novel_observations_admit_the_candidate() {
    let (mut fuzzer, mut state) = setup();
    let mut exec = ObsExecutor { obs: vec![1, 2] };
    let (interesting, id) = fuzzer
        .evaluate_input(&mut state, &mut exec, vec![0xAA])
        .unwrap();
    assert!(interesting);
    let id = id.unwrap();
    assert_eq!(id, SeedId(0));
    assert_eq!(state.corpus.count(), 1);
    assert_eq!(state.corpus.get(id).unwrap().input, vec![0xAA]);
    assert!(state.corpus.get(id).unwrap().contributed_novelty);
}

#[test]
fn stale_observations_reject_the_candidate() {
    let (mut fuzzer, mut state) = setup();
    let mut exec = ObsExecutor { obs: vec![1, 2] };
    fuzzer.evaluate_input(&mut state, &mut exec, vec![0xAA]).unwrap();
    let (interesting, id) = fuzzer
        .evaluate_input(&mut state, &mut exec, vec![0xBB])
        .unwrap();
    assert!(!interesting);
    assert_eq!(id, None);
    assert_eq!(state.corpus.count_all(), 1);
}

#[test]
fn the_keep_flag_admits_without_novelty() {
    let (mut fuzzer, mut state) = setup();
    let mut exec = ObsExecutor { obs: vec![] };
    fuzzer.keep_feedback.set_keep(true);
    let (interesting, id) = fuzzer
        .evaluate_input(&mut state, &mut exec, vec![0xCC])
        .unwrap();
    assert!(interesting);
    let id = id.unwrap();
    // the entry was kept on the harness's word, not for novelty
    assert!(!state.corpus.get(id).unwrap().contributed_novelty);
}

#[test]
fn admission_raises_the_refcount_and_removal_lowers_it() {
    let (mut fuzzer, mut state) = setup();
    let mut exec = ObsExecutor { obs: vec![5] };
    let (_, id) = fuzzer.evaluate_input(&mut state, &mut exec, vec![1]).unwrap();
    let id = id.unwrap();
    let i = state.metadata.index_of(&"edges".to_string()).unwrap();
    assert_eq!(state.metadata.meta_at(i).refcnt(), 1);
    fuzzer.remove_testcase(&mut state, id).unwrap();
    assert_eq!(state.metadata.meta_at(i).refcnt(), 0);
    assert_eq!(state.corpus.count_all(), 0);
}

#[test]
fn removal_of_a_non_contributor_keeps_the_refcount() {
    let (mut fuzzer, mut state) = setup();
    let id = fuzzer.add_input(&mut state, vec![9]).unwrap();
    let i = state.metadata.index_of(&"edges".to_string()).unwrap();
    assert_eq!(state.metadata.meta_at(i).refcnt(), 0);
    fuzzer.remove_testcase(&mut state, id).unwrap();
    assert_eq!(state.metadata.meta_at(i).refcnt(), 0);
}

#[test]
fn direct_add_paths_bypass_the_feedbacks() {
    let (mut fuzzer, mut state) = setup();
    let a = fuzzer.add_input(&mut state, vec![1]).unwrap();
    let b = fuzzer.add_disabled_input(&mut state, vec![2]).unwrap();
    assert_eq!(state.corpus.count(), 1);
    assert_eq!(state.corpus.count_disabled(), 1);
    assert_eq!(a, SeedId(0));
    assert_eq!(b, SeedId(1));
    // nothing was folded into the novelty history
    let mut probe = ListFeedback::new("edges");
    let (novel, _) = probe.is_interesting(&mut state.metadata, &vec![1, 2], 0).unwrap();
    assert!(novel);
}

#[test]
fn evaluate_without_metadata_reports_not_found() {
    let feedback = ListFeedback::new("edges");
    let mut state = FuzzState::new(3, 64);
    let mut fuzzer = StdFuzzer::new(feedback);
    let mut exec = ObsExecutor { obs: vec![1] };
    let err = fuzzer.evaluate_input(&mut state, &mut exec, vec![1]).unwrap_err();
    assert!(err.is_not_found());
}

#[test]
fn target_errors_propagate_out_of_evaluation() {
    struct FailingExecutor;

    impl Executor for FailingExecutor {
        fn run_target(&mut self, _input: &Vec<u8>) -> Result<ExitKind, Error> {
            Err(Error::illegal_state("target unavailable"))
        }

        fn post_run_reset(&mut self) {
        }

        fn list_observation(&mut self) -> Vec<u64> {
            vec![]
        }
    }

    let (mut fuzzer, mut state) = setup();
    let mut exec = FailingExecutor;
    let err = fuzzer.evaluate_input(&mut state, &mut exec, vec![1]).unwrap_err();
    assert!(err.is_illegal_state());
    assert_eq!(state.corpus.count_all(), 0);
}

#[test]
fn the_queue_scheduler_cycles_in_order() {
    let (mut fuzzer, mut state) = setup();
    let a = fuzzer.add_input(&mut state, vec![1]).unwrap();
    let b = fuzzer.add_input(&mut state, vec![2]).unwrap();
    let c = fuzzer.add_input(&mut state, vec![3]).unwrap();
    assert_eq!(fuzzer.scheduler.next(&state.corpus).unwrap(), a);
    assert_eq!(fuzzer.scheduler.next(&state.corpus).unwrap(), b);
    assert_eq!(fuzzer.scheduler.next(&state.corpus).unwrap(), c);
    assert_eq!(fuzzer.scheduler.next(&state.corpus).unwrap(), a);
}

#[test]
fn the_scheduler_needs_enabled_entries() {
    let (mut fuzzer, mut state) = setup();
    fuzzer.add_disabled_input(&mut state, vec![1]).unwrap();
    let err = fuzzer.scheduler.next(&state.corpus).unwrap_err();
    assert!(err.is_illegal_state());
}

#[test]
fn removal_guards_the_selection() {
    let (mut fuzzer, mut state) = setup();
    let id = fuzzer.add_input(&mut state, vec![1]).unwrap();
    state.corpus.set_current(Some(id));
    let err = fuzzer.remove_testcase(&mut state, id).unwrap_err();
    assert!(err.is_illegal_state());
    let _ = Testcase::with_input(vec![]);
}
