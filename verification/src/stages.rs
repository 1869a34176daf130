//! The stage pipeline: ordered, composable units of work against one
//! selected seed, each with a restart-safety contract.

use vstd::prelude::*;
use crate::MutationResult;
use crate::bridge::clone_bytes;
use crate::corpus::{CorpusEntry, SeedId};
use crate::errors::Error;
use crate::executors::Executor;
use crate::fuzzer::StdFuzzer;
use crate::mutators::Mutator;
use crate::state::FuzzState;

verus! {

/// One unit of fuzzing work against one selected seed.
///
/// Beside the work itself, a stage answers whether the supervising process
/// may kill and relaunch mid-flight without losing correctness
/// (`should_restart`), and resets any persisted partial progress so a
/// relaunch restarts the stage cleanly (`clear_progress`).
pub trait Stage: Sized {
    /// Run the stage against the selected seed.
    fn perform<E: Executor>(
        &mut self,
        fuzzer: &mut StdFuzzer,
        executor: &mut E,
        state: &mut FuzzState,
        seed_id: SeedId,
    ) -> (r: Result<(), Error>)
        requires
            old(state).wf(),
        ensures
            final(state).wf(),
    ;

    /// Whether a kill-and-relaunch during this stage is safe.
    fn should_restart(&mut self, state: &mut FuzzState) -> (r: Result<bool, Error>)
        requires
            old(state).wf(),
        ensures
            final(state).wf(),
    ;

    /// Reset any persisted partial progress of this stage.
    fn clear_progress(&mut self, state: &mut FuzzState) -> (r: Result<(), Error>)
        requires
            old(state).wf(),
        ensures
            final(state).wf(),
    ;
}

/// A stage that may stand in a dynamic stage list.
pub trait AnyStage: Stage {

}

impl<S: Stage> AnyStage for S {

}

/// An ordered sequence of stages, executed once per outer-loop iteration.
pub trait StagesTuple: Sized {
    /// Perform every stage in order, stopping at the first error.
    fn perform_all<E: Executor>(
        &mut self,
        fuzzer: &mut StdFuzzer,
        executor: &mut E,
        state: &mut FuzzState,
        seed_id: SeedId,
    ) -> (r: Result<(), Error>)
        requires
            old(state).wf(),
        ensures
            final(state).wf(),
    ;
}

impl StagesTuple for () {
    /// The empty pipeline performs nothing and changes nothing.
    fn perform_all<E: Executor>(
        &mut self,
        fuzzer: &mut StdFuzzer,
        executor: &mut E,
        state: &mut FuzzState,
        seed_id: SeedId,
    ) -> (r: Result<(), Error>)
        ensures
            r is Ok,
            *final(state) == *old(state),
            *final(fuzzer) == *old(fuzzer),
    {
        Ok(())
    }
}

impl<Head: Stage, Tail: StagesTuple> StagesTuple for (Head, Tail) {
    fn perform_all<E: Executor>(
        &mut self,
        fuzzer: &mut StdFuzzer,
        executor: &mut E,
        state: &mut FuzzState,
        seed_id: SeedId,
    ) -> (r: Result<(), Error>) {
        match self.0.perform(fuzzer, executor, state, seed_id) {
            Ok(u) => u,
            Err(e) => {
                return Err(e);
            },
        };
        self.1.perform_all(fuzzer, executor, state, seed_id)
    }
}

/// A dynamic ordered list of stages of one polymorphic stage type.
pub struct StagesOwnedList<S> {
    /// The stages, in execution order.
    pub list: Vec<S>,
}

impl<S> StagesOwnedList<S> {
    /// Wrap a list of stages.
    pub fn new(list: Vec<S>) -> (r: StagesOwnedList<S>)
        ensures
            r.list == list,
    {
        StagesOwnedList { list }
    }
}

impl<S: AnyStage> StagesTuple for StagesOwnedList<S> {
    fn perform_all<E: Executor>(
        &mut self,
        fuzzer: &mut StdFuzzer,
        executor: &mut E,
        state: &mut FuzzState,
        seed_id: SeedId,
    ) -> (r: Result<(), Error>) {
        let mut i: usize = 0;
        let n = self.list.len();
        while i < n
            invariant
                state.wf(),
                n == self.list@.len(),
                i <= n,
            decreases n - i,
        {
            let stage = &mut self.list[i];
            match stage.perform(fuzzer, executor, state, seed_id) {
                Ok(u) => u,
                Err(e) => {
                    return Err(e);
                },
            };
            i = i + 1;
        }
        Ok(())
    }
}

/// A mutational stage that runs until its mutator reports Skipped: it loads
/// the selected seed once, then repeatedly clones it, asks the mutator for a
/// candidate, evaluates the candidate, and invokes the mutator's
/// post-evaluation hook.
pub struct LoopMutationalStage<M> {
    mutator: M,
}

impl<M: Mutator> LoopMutationalStage<M> {
    /// The wrapped mutator.
    pub closed spec fn mutator_spec(&self) -> M {
        self.mutator
    }

    /// Wrap a mutator.
    pub fn new(mutator: M) -> (r: LoopMutationalStage<M>)
        ensures
            r.mutator_spec() == mutator,
    {
        LoopMutationalStage { mutator }
    }

    /// Reach the wrapped mutator.
    pub fn mutator_mut(&mut self) -> (r: &mut M)
        ensures
            *r == old(self).mutator_spec(),
            final(self).mutator_spec() == *final(r),
    {
        &mut self.mutator
    }
}

impl<M: Mutator> Stage for LoopMutationalStage<M> {
    /// For a run of consecutive Mutated verdicts closed by one Skipped,
    /// exactly one evaluation and one post-evaluation hook call happen per
    /// Mutated verdict, in that order, and then the stage returns.
    fn perform<E: Executor>(
        &mut self,
        fuzzer: &mut StdFuzzer,
        executor: &mut E,
        state: &mut FuzzState,
        seed_id: SeedId,
    ) -> (r: Result<(), Error>)
        ensures
            (r is Ok ==> {
                let n = final(self).mutator_spec().verdicts().len() - old(
                    self,
                ).mutator_spec().verdicts().len() - 1;
                &&& n >= 0
                &&& final(self).mutator_spec().verdicts() == old(
                    self,
                ).mutator_spec().verdicts() + Seq::new(
                    n as nat,
                    |i: int| MutationResult::Mutated,
                ).push(MutationResult::Skipped)
                &&& final(fuzzer).evals() == old(fuzzer).evals() + n
                &&& final(self).mutator_spec().posts() == old(self).mutator_spec().posts() + n
            }),
            (r is Ok ==> old(state).corpus.contains_id(seed_id)),
            (r is Ok ==> final(state).corpus.disabled_seq() == old(
                state,
            ).corpus.disabled_seq()),
            (r is Ok ==> (forall|e: CorpusEntry|
                old(state).corpus.enabled_seq().contains(e)
                    ==> #[trigger] final(state).corpus.enabled_seq().contains(e))),
            (r is Ok ==> (exists|gi: int|
                0 <= gi < old(state).corpus.all_seq().len() && (#[trigger] old(
                    state,
                ).corpus.all_seq()[gi]).id == seed_id && final(self).mutator_spec().received()
                    == old(self).mutator_spec().received() + Seq::new(
                    (final(self).mutator_spec().verdicts().len() - old(
                        self,
                    ).mutator_spec().verdicts().len()) as nat,
                    |q: int| old(state).corpus.all_seq()[gi].testcase.input@,
                ))),
    {
        let tc_ref = match state.corpus.get(seed_id) {
            Ok(tc) => tc,
            Err(e) => {
                return Err(e);
            },
        };
        let ghost gi = choose|gi: int|
            0 <= gi < state.corpus.all_seq().len() && (
            #[trigger] state.corpus.all_seq()[gi]).id == seed_id
                && state.corpus.all_seq()[gi].testcase == *tc_ref;
        let input = clone_bytes(&tc_ref.input);
        let ghost inp = input@;
        let ghost verdicts0 = self.mutator.verdicts();
        let ghost posts0 = self.mutator.posts();
        let ghost received0 = self.mutator.received();
        let ghost evals0 = fuzzer.evals();
        let ghost bound = self.mutator.skip_bound();
        proof {
            assert(received0 + Seq::new(0nat, |q: int| inp) =~= received0);
        }
        let mut ctr: u64 = 0;
        loop
            invariant_except_break
                state.wf(),
                ctr <= bound,
                bound == self.mutator.skip_bound(),
                inp == input@,
                self.mutator.verdicts() == verdicts0 + Seq::new(
                    ctr as nat,
                    |i: int| MutationResult::Mutated,
                ),
                self.mutator.posts() == posts0 + ctr,
                self.mutator.received() == received0 + Seq::new(ctr as nat, |q: int| inp),
                fuzzer.evals() == evals0 + ctr,
                state.corpus.disabled_seq() == old(state).corpus.disabled_seq(),
                forall|e: CorpusEntry|
                    old(state).corpus.enabled_seq().contains(e)
                        ==> #[trigger] state.corpus.enabled_seq().contains(e),
            ensures
                state.wf(),
                self.mutator.verdicts() == verdicts0 + Seq::new(
                    ctr as nat,
                    |i: int| MutationResult::Mutated,
                ).push(MutationResult::Skipped),
                self.mutator.posts() == posts0 + ctr,
                self.mutator.received() == received0 + Seq::new(
                    (ctr + 1) as nat,
                    |q: int| inp,
                ),
                fuzzer.evals() == evals0 + ctr,
                state.corpus.disabled_seq() == old(state).corpus.disabled_seq(),
                forall|e: CorpusEntry|
                    old(state).corpus.enabled_seq().contains(e)
                        ==> #[trigger] state.corpus.enabled_seq().contains(e),
            decreases bound - ctr,
        {
            let mut candidate = clone_bytes(&input);
            let res = match self.mutator.mutate(state, &mut candidate, ctr) {
                Ok(v) => v,
                Err(e) => {
                    return Err(e);
                },
            };
            proof {
                assert(self.mutator.received() =~= received0 + Seq::new(
                    (ctr + 1) as nat,
                    |q: int| inp,
                ));
            }
            if res == MutationResult::Skipped {
                proof {
                    assert(self.mutator.verdicts() =~= verdicts0 + Seq::new(
                        ctr as nat,
                        |i: int| MutationResult::Mutated,
                    ).push(MutationResult::Skipped));
                }
                break ;
            }
            let (_, corpus_id) = match fuzzer.evaluate_input(state, executor, candidate) {
                Ok(p) => p,
                Err(e) => {
                    return Err(e);
                },
            };
            match self.mutator.post_exec(state, ctr, corpus_id) {
                Ok(u) => u,
                Err(e) => {
                    return Err(e);
                },
            };
            proof {
                assert(self.mutator.verdicts() =~= verdicts0 + Seq::new(
                    (ctr + 1) as nat,
                    |i: int| MutationResult::Mutated,
                ));
            }
            ctr = ctr + 1;
        }
        Ok(())
    }

    /// The mutational loop runs to completion within one iteration; there
    /// is no persisted partial progress, so a relaunch is safe and nothing
    /// changes.
    fn should_restart(&mut self, state: &mut FuzzState) -> (r: Result<bool, Error>)
        ensures
            (r matches Ok(b) && b),
            *final(state) == *old(state),
            *final(self) == *old(self),
    {
        Ok(true)
    }

    /// There is no persisted partial progress to reset.
    fn clear_progress(&mut self, state: &mut FuzzState) -> (r: Result<(), Error>)
        ensures
            r is Ok,
            *final(state) == *old(state),
            *final(self) == *old(self),
    {
        Ok(())
    }
}

/// A stage that makes the process restart voluntarily: it reinstalls the
/// admission feedback's initial metadata and reports the graceful
/// termination request, which the supervising relaunch loop answers with a
/// clean exit and a relaunch from persisted state.
pub struct RestartStage {
}

impl RestartStage {
    /// Build the stage.
    pub fn new() -> (r: RestartStage) {
        RestartStage {  }
    }
}

impl Stage for RestartStage {
    /// Reset feedback initialization state and ask for the voluntary exit:
    /// the result is never Ok, and on the regular path it is the graceful
    /// ShuttingDown request, which unwinds through every enclosing stage.
    fn perform<E: Executor>(
        &mut self,
        fuzzer: &mut StdFuzzer,
        executor: &mut E,
        state: &mut FuzzState,
        seed_id: SeedId,
    ) -> (r: Result<(), Error>)
        ensures
            r is Err,
            old(state).metadata.entries_seq().len() < usize::MAX ==> (r matches Err(e)
                && e is ShuttingDown && final(state).metadata.meta_of(
                old(fuzzer).feedback.name_spec(),
            ).values() == Set::<u64>::empty()),
    {
        if state.metadata.len() == usize::MAX {
            return Err(Error::illegal_state("the metadata store cannot be reinstalled"));
        }
        match fuzzer.feedback.init_state(&mut state.metadata) {
            Ok(u) => u,
            Err(_) => {
                proof {
                    assert(false);
                }
                vstd::pervasive::unreached::<()>()
            },
        };
        Err(Error::shutting_down())
    }

    /// The restart stage keeps no progress of its own; a relaunch is safe
    /// and nothing changes.
    fn should_restart(&mut self, state: &mut FuzzState) -> (r: Result<bool, Error>)
        ensures
            (r matches Ok(b) && b),
            *final(state) == *old(state),
            *final(self) == *old(self),
    {
        Ok(true)
    }

    /// There is no persisted partial progress to reset.
    fn clear_progress(&mut self, state: &mut FuzzState) -> (r: Result<(), Error>)
        ensures
            r is Ok,
            *final(state) == *old(state),
            *final(self) == *old(self),
    {
        Ok(())
    }
}

/// The decision whether a wrapped stage runs this iteration.
#[derive(Debug, Clone, Copy, Eq, PartialEq, Structural)]
pub enum SkippableStageDecision {
    /// Execute the wrapped stage.
    Perform,
    /// Skip the wrapped stage this iteration.
    Skip,
}

impl From<bool> for SkippableStageDecision {
    fn from(b: bool) -> (r: SkippableStageDecision) {
        if b {
            SkippableStageDecision::Perform
        } else {
            SkippableStageDecision::Skip
        }
    }
}

impl vstd::std_specs::convert::FromSpecImpl<bool> for SkippableStageDecision {
    open spec fn obeys_from_spec() -> bool {
        true
    }

    open spec fn from_spec(b: bool) -> SkippableStageDecision {
        if b {
            SkippableStageDecision::Perform
        } else {
            SkippableStageDecision::Skip
        }
    }
}

/// A condition deciding, from the state, whether a skippable stage runs.
pub trait SkipCondition: Sized {
    /// What the next decision will be.
    open spec fn decide_spec(&self) -> SkippableStageDecision {
        SkippableStageDecision::Perform
    }

    /// Decide for this iteration.
    fn decide(&mut self, state: &FuzzState) -> (r: SkippableStageDecision)
        ensures
            r == old(self).decide_spec(),
    ;
}

/// A condition that performs once every so many iterations — the shape a
/// restart-boundary stage such as pruning is wrapped in.
pub struct PerformInterval {
    every: u64,
    calls: u64,
}

impl PerformInterval {
    /// Perform on the first call and on every `every`-th call after it.
    pub fn new(every: u64) -> (r: PerformInterval)
        requires
            every > 0,
    {
        PerformInterval { every, calls: 0 }
    }
}

impl SkipCondition for PerformInterval {
    closed spec fn decide_spec(&self) -> SkippableStageDecision {
        if self.calls == 0 {
            SkippableStageDecision::Perform
        } else {
            SkippableStageDecision::Skip
        }
    }

    fn decide(&mut self, state: &FuzzState) -> (r: SkippableStageDecision) {
        let due = self.calls == 0;
        self.calls = if self.calls == u64::MAX || self.calls + 1 >= self.every {
            0
        } else {
            self.calls + 1
        };
        SkippableStageDecision::from(due)
    }
}

/// A stage wrapper that runs its stage only when a condition holds of the
/// state.
pub struct SkippableStage<CD, ST> {
    wrapped_stage: ST,
    condition: CD,
}

impl<CD: SkipCondition, ST> SkippableStage<CD, ST> {
    /// The wrapped stage.
    pub closed spec fn wrapped_spec(&self) -> ST {
        self.wrapped_stage
    }

    /// The condition deciding each iteration.
    pub closed spec fn condition_spec(&self) -> CD {
        self.condition
    }

    /// Wrap a stage under a condition.
    pub fn new(wrapped_stage: ST, condition: CD) -> (r: SkippableStage<CD, ST>)
        ensures
            r.wrapped_spec() == wrapped_stage,
            r.condition_spec() == condition,
    {
        SkippableStage { wrapped_stage, condition }
    }
}

impl<CD: SkipCondition, ST: Stage> Stage for SkippableStage<CD, ST> {
    /// Run the wrapped stage exactly when the condition says Perform; a
    /// skipped iteration advances only the condition and touches nothing
    /// else.
    fn perform<E: Executor>(
        &mut self,
        fuzzer: &mut StdFuzzer,
        executor: &mut E,
        state: &mut FuzzState,
        seed_id: SeedId,
    ) -> (r: Result<(), Error>)
        ensures
            (old(self).condition_spec().decide_spec() == SkippableStageDecision::Skip ==> (
            r is Ok && *final(state) == *old(state) && *final(fuzzer) == *old(fuzzer)
                && final(self).wrapped_spec() == old(self).wrapped_spec())),
    {
        let decision = self.condition.decide(state);
        if decision == SkippableStageDecision::Perform {
            self.wrapped_stage.perform(fuzzer, executor, state, seed_id)
        } else {
            Ok(())
        }
    }

    fn should_restart(&mut self, state: &mut FuzzState) -> (r: Result<bool, Error>) {
        self.wrapped_stage.should_restart(state)
    }

    fn clear_progress(&mut self, state: &mut FuzzState) -> (r: Result<(), Error>) {
        self.wrapped_stage.clear_progress(state)
    }
}

/// One iteration of the outer loop: ask the scheduler for a seed, make it
/// the selection, and drive the whole stage pipeline over it.  On success
/// the returned id is the scheduler's pick — the entry the pipeline was
/// handed as the selected seed.
pub fn fuzz_one<E: Executor, ST: StagesTuple>(
    fuzzer: &mut StdFuzzer,
    stages: &mut ST,
    executor: &mut E,
    state: &mut FuzzState,
) -> (r: Result<SeedId, Error>)
    requires
        old(state).wf(),
    ensures
        final(state).wf(),
        old(state).corpus.count_enabled_spec() == 0 ==> (r matches Err(e)
            && e is IllegalState),
        r matches Ok(id) ==> (old(state).corpus.count_enabled_spec() > 0 && id == old(
            state,
        ).corpus.enabled_ids()[old(fuzzer).scheduler.cursor_spec() as int % old(
            state,
        ).corpus.count_enabled_spec()]),
{
    let id = match fuzzer.scheduler.next(&state.corpus) {
        Ok(id) => id,
        Err(e) => {
            return Err(e);
        },
    };
    state.corpus.set_current(Some(id));
    match stages.perform_all(fuzzer, executor, state, id) {
        Ok(u) => u,
        Err(e) => {
            return Err(e);
        },
    };
    Ok(id)
}

} // verus!
