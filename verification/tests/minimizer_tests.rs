//! Minimization: the greedy covering subset, the deterministic tie-break,
//! and the end-to-end stage.

use fuzz_core::{
    CMinStage, Error, ExitKind, Executor, FuzzState, ListFeedback, MinimizeCandidate,
    SeedId, Stage, StdFuzzer, Testcase, compute_retained,
};

fn cand(id: u64, score: u64, cover: Vec<u64>) -> MinimizeCandidate {
    MinimizeCandidate { id: SeedId(id), score, cover }
}

#[test]
fn disjoint_contributors_are_all_retained() {
    // ten candidates with disjoint single-value covers: none is redundant
    let mut cands = Vec::new();
    for i in 0..10u64 {
        cands.push(cand(i, 1, vec![i]));
    }
    let kept = compute_retained(cands, SeedId(0)).unwrap();
    assert_eq!(kept.len(), 10);
    for i in 0..10u64 {
        assert!(kept.contains(&SeedId(i)));
    }
}

#[test]
fn a_subsumed_candidate_is_removed() {
    let mut cands = Vec::new();
    for i in 0..10u64 {
        cands.push(cand(i, 1, vec![i]));
    }
    // an eleventh candidate covering a subset of candidate 0's values
    cands.push(cand(10, 1, vec![0]));
    let kept = compute_retained(cands, SeedId(0)).unwrap();
    assert_eq!(kept.len(), 10);
    assert!(!kept.contains(&SeedId(10)));
    for i in 0..10u64 {
        assert!(kept.contains(&SeedId(i)));
    }
}

#[test]
fn the_selected_candidate_is_always_retained() {
    // the selected candidate is redundant, yet it stays, and it comes first
    let cands = vec![
        cand(0, 100, vec![1, 2, 3]),
        cand(1, 1, vec![1]),
    ];
    let kept = compute_retained(cands, SeedId(1)).unwrap();
    assert_eq!(kept[0], SeedId(1));
    assert!(kept.contains(&SeedId(0)));
}

#[test]
fn equal_scores_fall_back_to_the_lower_id() {
    let cands = vec![
        cand(0, 1, vec![100]),
        cand(7, 5, vec![1, 2]),
        cand(3, 5, vec![1, 2]),
    ];
    let kept = compute_retained(cands, SeedId(0)).unwrap();
    // both non-selected candidates cover the same values with the same
    // score: the lower id wins, the other contributes nothing and goes
    assert_eq!(kept, vec![SeedId(0), SeedId(3)]);
}

#[test]
fn a_higher_score_wins_over_a_lower_id() {
    let cands = vec![
        cand(0, 1, vec![100]),
        cand(1, 2, vec![1, 2]),
        cand(2, 9, vec![1, 2]),
    ];
    let kept = compute_retained(cands, SeedId(0)).unwrap();
    assert_eq!(kept, vec![SeedId(0), SeedId(2)]);
}

#[test]
fn minimization_is_reproducible() {
    let build = || {
        vec![
            cand(0, 3, vec![1, 2]),
            cand(1, 3, vec![2, 3]),
            cand(2, 2, vec![3]),
            cand(3, 9, vec![4]),
        ]
    };
    let first = compute_retained(build(), SeedId(1)).unwrap();
    let second = compute_retained(build(), SeedId(1)).unwrap();
    assert_eq!(first, second);
}

#[test]
fn a_missing_selection_is_not_found() {
    let cands = vec![cand(0, 1, vec![1])];
    let err = compute_retained(cands, SeedId(9)).unwrap_err();
    assert!(err.is_not_found());
}

/// An executor whose observation channel maps each input to the cover its
/// first byte stands for.
struct CoverExecutor {
    last: Vec<u64>,
}

impl Executor for CoverExecutor {
    fn run_target(&mut self, input: &Vec<u8>) -> Result<ExitKind, Error> {
        self.last = input.iter().map(|b| *b as u64).collect();
        Ok(ExitKind::Okay)
    }

    fn post_run_reset(&mut self) {
    }

    fn list_observation(&mut self) -> Vec<u64> {
        self.last.clone()
    }
}

#[test]
fn the_stage_removes_redundant_entries_and_keeps_the_selection() {
    let mut feedback = ListFeedback::new("edges");
    let mut state = FuzzState::new(23, 64);
    feedback.init_state(&mut state.metadata).unwrap();
    let mut fuzzer = StdFuzzer::new(feedback);
    // ten entries with disjoint covers, plus one subsumed by the first;
    // inputs are two bytes long so every score is equal
    let mut first = SeedId(0);
    for i in 0..10u8 {
        let id = state.corpus.add(Testcase::with_input(vec![i, i]));
        if i == 0 {
            first = id;
        }
    }
    state.corpus.add(Testcase::with_input(vec![0, 0]));
    state.corpus.set_current(Some(first));
    let mut exec = CoverExecutor { last: vec![] };
    let mut stage = CMinStage::new().unwrap();
    stage.perform(&mut fuzzer, &mut exec, &mut state, first).unwrap();
    assert_eq!(state.corpus.count(), 10);
    assert_eq!(
        state.corpus.count_all(),
        state.corpus.count() + state.corpus.count_disabled()
    );
    assert_eq!(state.corpus.current(), Some(first));
    let mut kept = Vec::new();
    for i in 0..state.corpus.count() {
        kept.push(state.corpus.nth_enabled(i));
    }
    assert!(kept.contains(&first));
    assert!(!kept.contains(&SeedId(10)));
}

#[test]
fn the_stage_needs_a_selection() {
    let mut feedback = ListFeedback::new("edges");
    let mut state = FuzzState::new(23, 64);
    feedback.init_state(&mut state.metadata).unwrap();
    let mut fuzzer = StdFuzzer::new(feedback);
    state.corpus.add(Testcase::with_input(vec![1]));
    let mut exec = CoverExecutor { last: vec![] };
    let mut stage = CMinStage::new().unwrap();
    let err = stage
        .perform(&mut fuzzer, &mut exec, &mut state, SeedId(0))
        .unwrap_err();
    assert!(err.is_illegal_state());
}
