//! Pruning: the selected seed is exempt, the entry count is preserved, and
//! the extreme retention chances behave as promised.

use fuzz_core::{
    CorpusPruning, Error, ExitKind, Executor, FuzzState, ListFeedback, SeedId, Stage,
    StdFuzzer, Testcase,
};

struct NullExecutor;

impl Executor for NullExecutor {
    fn run_target(&mut self, _input: &Vec<u8>) -> Result<ExitKind, Error> {
        Ok(ExitKind::Okay)
    }

    fn post_run_reset(&mut self) {
    }

    fn list_observation(&mut self) -> Vec<u64> {
        vec![]
    }
}

/// A replica of the engine's generator, to predict its draws.
struct Replica {
    s: u64,
}

impl Replica {
    fn new(seed: u64) -> Replica {
        Replica { s: if seed == 0 { 0x9E3779B97F4A7C15 } else { seed } }
    }

    fn below(&mut self, bound: u64) -> u64 {
        let mut x = self.s;
        x ^= x << 13;
        x ^= x >> 7;
        x ^= x << 17;
        self.s = x;
        x % bound
    }
}

fn setup(seed: u64) -> (StdFuzzer, FuzzState) {
    let mut feedback = ListFeedback::new("edges");
    let mut state = FuzzState::new(seed, 64);
    feedback.init_state(&mut state.metadata).unwrap();
    (StdFuzzer::new(feedback), state)
}

fn enabled_ids(state: &FuzzState) -> Vec<SeedId> {
    let mut out = Vec::new();
    for i in 0..state.corpus.count() {
        out.push(state.corpus.nth_enabled(i));
    }
    out
}

#[test]
fn full_retention_evicts_nothing() {
    let (mut fuzzer, mut state) = setup(11);
    for i in 0..5u8 {
        state.corpus.add(Testcase::with_input(vec![i]));
    }
    state.corpus.add_disabled(Testcase::with_input(vec![99]));
    let cur = state.corpus.nth_enabled(2);
    state.corpus.set_current(Some(cur));
    let before = enabled_ids(&state);
    let mut exec = NullExecutor;
    let mut stage = CorpusPruning::new(100);
    stage.perform(&mut fuzzer, &mut exec, &mut state, cur).unwrap();
    assert_eq!(enabled_ids(&state), before);
    assert_eq!(state.corpus.count_disabled(), 1);
    assert_eq!(state.corpus.current(), Some(cur));
}

#[test]
fn zero_retention_evicts_everything_but_the_selection() {
    // pick a seed whose first draws are all nonzero, so every entry but the
    // selected one is evicted
    let n_all = 8usize;
    let mut seed = 1u64;
    loop {
        let mut r = Replica::new(seed);
        let mut all_nonzero = true;
        for _ in 0..n_all {
            if r.below(100) == 0 {
                all_nonzero = false;
                break;
            }
        }
        if all_nonzero {
            break;
        }
        seed += 1;
    }
    let (mut fuzzer, mut state) = setup(seed);
    for i in 0..5u8 {
        state.corpus.add(Testcase::with_input(vec![i]));
    }
    for i in 0..3u8 {
        state.corpus.add_disabled(Testcase::with_input(vec![100 + i]));
    }
    let cur = state.corpus.nth_enabled(0);
    state.corpus.set_current(Some(cur));
    let mut exec = NullExecutor;
    let mut stage = CorpusPruning::new(0);
    stage.perform(&mut fuzzer, &mut exec, &mut state, cur).unwrap();
    // nothing is lost: every evicted entry is re-admitted to the other
    // partition
    assert_eq!(state.corpus.count_all(), 8);
    // the selection is exempt and keeps its id; the four other enabled
    // entries moved to disabled, and the three disabled ones came back
    assert_eq!(state.corpus.current(), Some(cur));
    assert!(enabled_ids(&state).contains(&cur));
    assert_eq!(state.corpus.count(), 1 + 3);
    assert_eq!(state.corpus.count_disabled(), 4);
}

#[test]
fn pruning_without_a_selection_is_fatal_to_the_stage() {
    let (mut fuzzer, mut state) = setup(5);
    state.corpus.add(Testcase::with_input(vec![1]));
    let mut exec = NullExecutor;
    let mut stage = CorpusPruning::new(50);
    let err = stage
        .perform(&mut fuzzer, &mut exec, &mut state, SeedId(0))
        .unwrap_err();
    assert!(err.is_illegal_state());
    assert_eq!(state.corpus.count_all(), 1);
}

#[test]
fn pruning_preserves_the_total_count_at_any_chance() {
    for prob in [0u64, 25, 50, 75, 100] {
        let (mut fuzzer, mut state) = setup(17 + prob);
        for i in 0..6u8 {
            state.corpus.add(Testcase::with_input(vec![i]));
        }
        for i in 0..2u8 {
            state.corpus.add_disabled(Testcase::with_input(vec![50 + i]));
        }
        let cur = state.corpus.nth_enabled(1);
        state.corpus.set_current(Some(cur));
        let mut exec = NullExecutor;
        let mut stage = CorpusPruning::new(prob);
        stage.perform(&mut fuzzer, &mut exec, &mut state, cur).unwrap();
        assert_eq!(state.corpus.count_all(), 8);
        assert_eq!(
            state.corpus.count_all(),
            state.corpus.count() + state.corpus.count_disabled()
        );
        assert_eq!(state.corpus.current(), Some(cur));
        assert!(enabled_ids(&state).contains(&cur));
    }
}
