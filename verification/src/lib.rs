//! Core of a coverage-guided fuzzing engine.
//!
//! The engine repeatedly selects a seed from a corpus, mutates it, runs the
//! target through an execute-once boundary, and decides from the observed
//! behaviour whether the candidate advances the search.  This crate holds the
//! verified logic: the corpus lifecycle (scheduling, minimization, pruning),
//! feedback and novelty tracking, the stage pipeline, executor composition,
//! and the bridge that lets a foreign single-slot mutation callback re-enter
//! the mutation engine safely.

use vstd::prelude::*;

mod bridge;
mod cmin;
mod corpus;
mod errors;
mod executors;
mod feedbacks;
mod fuzzer;
mod hooks;
mod minimizer;
mod mutators;
mod novelty;
mod pruning;
mod rand;
mod scheduler;
mod stages;
mod state;
mod store;

pub use bridge::{BridgePrep, CrossoverPrep, LLVMCustomMutator, LLVMFuzzerMutate, MutatorProxy, MutatorSlot};
pub use cmin::{CMinStage, cmin_pass_described, minimized_to};
pub use corpus::{Corpus, CorpusEntry, SeedId, Testcase};
pub use errors::Error;
pub use executors::{CombinedExecutor, Executor};
pub use fuzzer::{StdFuzzer, contributor_count, feedback_history, lemma_zero_refcnt_means_no_contributors, refcnt_tracks_contributors, should_halt};
pub use hooks::MemacHook;
pub use scheduler::QueueScheduler;
pub use feedbacks::{
    LibfuzzerCrashCauseFeedback, LibfuzzerCrashCauseMetadata, LibfuzzerKeepFeedback,
    ListFeedback, PROGRESS_UPDATE_INTERVAL_MS, classified_kind, classified_prefix,
    novel_seq, novel_values, progress_due,
};
pub use minimizer::{MinimizeCandidate, cand_ids, compute_retained, contributes, cover_set, cover_union, better, spec_pick_best, spec_greedy, spec_cmin, lemma_pick_best_characterization, lemma_minimize_preserves_coverage, lemma_minimize_deterministic};
pub use mutators::{FlipMutator, Mutator};
pub use novelty::{ListFeedbackMetadata, NoveltySet, novelty_set_values};
pub use pruning::{CorpusPruning, draw_at, entry_kept, evicted_inputs, holds_readded_input, lemma_prune_extremes, spec_evicts};
pub use rand::{StdRand, ZERO_SEED_STATE, rand_after, spec_next};
pub use stages::{AnyStage, LoopMutationalStage, PerformInterval, RestartStage, SkipCondition, SkippableStage, SkippableStageDecision, Stage, StagesOwnedList, StagesTuple, fuzz_one};
pub use state::FuzzState;
pub use store::{NamedEntry, NamedMetadataStore};

verus! {

/// Classification of one execution of the target.
#[derive(Clone, Copy, Debug, PartialEq, Eq, Structural)]
pub enum ExitKind {
    /// The target ran to completion.
    Okay,
    /// The target crashed.
    Crash,
    /// The target exceeded its time budget.
    Timeout,
    /// The target exceeded its memory budget.
    Oom,
}

/// A mutator's verdict for one mutation attempt.
#[derive(Clone, Copy, Debug, PartialEq, Eq, Structural)]
pub enum MutationResult {
    /// The input was changed.
    Mutated,
    /// The mutator declined to change the input.
    Skipped,
}

} // verus!
