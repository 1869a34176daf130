//! Feedbacks: novelty judgment, the deferred metadata fold, the telemetry
//! mode, and crash-cause classification.

use fuzz_core::{
    ExitKind, LibfuzzerCrashCauseFeedback, LibfuzzerKeepFeedback, ListFeedback,
    NamedMetadataStore, Testcase, PROGRESS_UPDATE_INTERVAL_MS,
};

fn store_with(feedback: &mut ListFeedback) -> NamedMetadataStore {
    let mut store = NamedMetadataStore::new();
    feedback.init_state(&mut store).unwrap();
    store
}

#[test]
fn novel_values_are_interesting() {
    let mut f = ListFeedback::new("edges");
    let mut store = store_with(&mut f);
    let (interesting, report) = f
        .is_interesting(&mut store, &vec![1, 2, 3], 0)
        .unwrap();
    assert!(interesting);
    assert_eq!(report, None);
}

#[test]
fn rejected_candidates_leave_no_trace() {
    let mut f = ListFeedback::new("edges");
    let mut store = store_with(&mut f);
    let (first, _) = f.is_interesting(&mut store, &vec![5, 6], 0).unwrap();
    assert!(first);
    // no append_metadata: the candidate was rejected, so a second run over
    // the same values still counts as novel
    let (second, _) = f.is_interesting(&mut store, &vec![5, 6], 0).unwrap();
    assert!(second);
}

#[test]
fn admitted_novelty_is_reflected_exactly_once() {
    let mut f = ListFeedback::new("edges");
    let mut store = store_with(&mut f);
    let (first, _) = f.is_interesting(&mut store, &vec![5, 6], 0).unwrap();
    assert!(first);
    f.append_metadata(&mut store).unwrap();
    // the fold persisted the values: they are no longer novel
    let (second, _) = f.is_interesting(&mut store, &vec![5, 6], 0).unwrap();
    assert!(!second);
    // but a fresh value still is
    let (third, _) = f.is_interesting(&mut store, &vec![6, 7], 0).unwrap();
    assert!(third);
}

#[test]
fn missing_metadata_is_not_found() {
    let mut f = ListFeedback::new("edges");
    let mut store = NamedMetadataStore::new();
    let err = f.is_interesting(&mut store, &vec![1], 0).unwrap_err();
    assert!(err.is_not_found());
}

#[test]
fn never_corpus_forces_false_and_folds_immediately() {
    let mut f = ListFeedback::new("allocs");
    let mut store = store_with(&mut f);
    f.set_never_corpus();
    let (interesting, _) = f.is_interesting(&mut store, &vec![10, 11], 0).unwrap();
    assert!(!interesting);
    // the values were folded in spite of the false verdict
    let (again, _) = f.is_interesting(&mut store, &vec![10, 11], 0).unwrap();
    assert!(!again);
    let i = store.index_of(&"allocs".to_string()).unwrap();
    assert_eq!(store.meta_at(i).counter(), 2);
}

#[test]
fn never_corpus_reports_are_rate_limited() {
    let mut f = ListFeedback::new("allocs");
    let mut store = store_with(&mut f);
    f.set_never_corpus();
    // first call arms the clock and reports nothing
    let (_, r1) = f.is_interesting(&mut store, &vec![1], 1_000).unwrap();
    assert_eq!(r1, None);
    // not enough time has passed
    let (_, r2) = f
        .is_interesting(&mut store, &vec![2], 1_000 + PROGRESS_UPDATE_INTERVAL_MS)
        .unwrap();
    assert_eq!(r2, None);
    // now it has: the aggregate counter of all values ever seen comes out
    let (_, r3) = f
        .is_interesting(&mut store, &vec![3], 2_000 + PROGRESS_UPDATE_INTERVAL_MS)
        .unwrap();
    assert_eq!(r3, Some(3));
}

#[test]
fn keep_feedback_mirrors_the_flag() {
    let mut k = LibfuzzerKeepFeedback::new();
    assert!(!k.is_interesting());
    k.set_keep(true);
    assert!(k.is_interesting());
    assert!(k.keep());
    k.set_keep(false);
    assert!(!k.is_interesting());
}

fn solution(name: &str) -> Testcase {
    let mut t = Testcase::with_input(vec![1, 2, 3]);
    t.filename = Some(name.to_string());
    t
}

#[test]
fn crash_filenames_get_the_crash_prefix() {
    let mut f = LibfuzzerCrashCauseFeedback::new();
    assert!(!f.is_interesting(ExitKind::Crash));
    let mut t = solution("poc");
    f.append_metadata(&mut t, false);
    assert_eq!(t.filename, Some("crash-poc".to_string()));
    assert_eq!(t.crash_cause.unwrap().kind(), ExitKind::Crash);
}

#[test]
fn confirmed_oom_overrides_the_generic_crash() {
    let mut f = LibfuzzerCrashCauseFeedback::new();
    f.is_interesting(ExitKind::Crash);
    let mut t = solution("poc");
    f.append_metadata(&mut t, true);
    assert_eq!(t.filename, Some("oom-poc".to_string()));
    assert_eq!(t.crash_cause.unwrap().kind(), ExitKind::Oom);
}

#[test]
fn unconfirmed_oom_exit_counts_as_crash() {
    let mut f = LibfuzzerCrashCauseFeedback::new();
    f.is_interesting(ExitKind::Oom);
    let mut t = solution("poc");
    f.append_metadata(&mut t, false);
    assert_eq!(t.filename, Some("crash-poc".to_string()));
    assert_eq!(t.crash_cause.unwrap().kind(), ExitKind::Crash);
}

#[test]
fn timeouts_get_the_timeout_prefix() {
    let mut f = LibfuzzerCrashCauseFeedback::new();
    f.is_interesting(ExitKind::Timeout);
    let mut t = solution("poc");
    f.append_metadata(&mut t, false);
    assert_eq!(t.filename, Some("timeout-poc".to_string()));
    assert_eq!(t.crash_cause.unwrap().kind(), ExitKind::Timeout);
}

#[test]
fn the_classification_prefix_is_applied_at_most_once() {
    let mut f = LibfuzzerCrashCauseFeedback::new();
    f.is_interesting(ExitKind::Crash);
    let mut t = solution("poc");
    f.append_metadata(&mut t, false);
    assert_eq!(t.filename, Some("crash-poc".to_string()));
    // a second classification of the same testcase changes nothing
    f.is_interesting(ExitKind::Timeout);
    f.append_metadata(&mut t, false);
    assert_eq!(t.filename, Some("crash-poc".to_string()));
    assert_eq!(t.crash_cause.unwrap().kind(), ExitKind::Crash);
}

#[test]
fn clean_exits_leave_the_filename_alone() {
    let mut f = LibfuzzerCrashCauseFeedback::new();
    f.is_interesting(ExitKind::Okay);
    let mut t = solution("poc");
    f.append_metadata(&mut t, false);
    assert_eq!(t.filename, Some("poc".to_string()));
    assert_eq!(t.crash_cause.unwrap().kind(), ExitKind::Okay);
    // a solution without a display name stays nameless
    let mut anon = Testcase::with_input(vec![9]);
    f.append_metadata(&mut anon, false);
    assert_eq!(anon.filename, None);
}
