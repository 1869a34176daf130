//! The fuzzer: the evaluation entrypoint that runs a candidate, consults
//! the feedbacks, and decides corpus admission; the add paths that stages
//! use; and the halting decision of the outer loop.

use vstd::prelude::*;
use crate::ExitKind;
use crate::corpus::{CorpusEntry, SeedId, Testcase};
use crate::errors::Error;
use crate::executors::Executor;
use crate::feedbacks::{
    LibfuzzerCrashCauseFeedback, LibfuzzerKeepFeedback, ListFeedback, novel_seq,
};
use crate::scheduler::QueueScheduler;
use crate::state::FuzzState;

verus! {

/// The values this feedback's history has recorded in a state.
pub open spec fn feedback_history(f: &ListFeedback, st: &FuzzState) -> Set<u64> {
    st.metadata.meta_of(f.name_spec()).values()
}

/// How many stored entries contributed novelty when they were admitted.
pub open spec fn contributor_count(s: Seq<CorpusEntry>) -> int
    decreases s.len(),
{
    if s.len() == 0 {
        0
    } else {
        contributor_count(s.drop_last()) + (if s.last().testcase.contributed_novelty {
            1int
        } else {
            0int
        })
    }
}

/// The reference count of the admission feedback's novelty record tracks
/// the number of stored contributors exactly.  Admission raises both by one
/// for a contributing candidate, removal lowers both, and the direct add
/// paths touch neither, so the count reaches zero exactly when no stored
/// entry still contributes novelty — the point at which the record becomes
/// eligible for removal.
pub open spec fn refcnt_tracks_contributors(f: StdFuzzer, st: FuzzState) -> bool {
    st.metadata.has_name(f.feedback.name_spec()) ==> st.metadata.meta_of(
        f.feedback.name_spec(),
    ).refcnt_spec() == contributor_count(st.corpus.all_seq())
}

/// A consistent record is at zero exactly when no stored entry contributes.
pub proof fn lemma_zero_refcnt_means_no_contributors(f: StdFuzzer, st: FuzzState)
    requires
        refcnt_tracks_contributors(f, st),
        st.metadata.has_name(f.feedback.name_spec()),
    ensures
        (st.metadata.meta_of(f.feedback.name_spec()).refcnt_spec() == 0 <==> contributor_count(
            st.corpus.all_seq(),
        ) == 0),
{
}

/// The contributor count is never negative.
proof fn lemma_contributor_count_nonneg(s: Seq<CorpusEntry>)
    ensures
        contributor_count(s) >= 0,
    decreases s.len(),
{
    if s.len() > 0 {
        lemma_contributor_count_nonneg(s.drop_last());
    }
}

/// The contributor count distributes over concatenation.
proof fn lemma_contributor_count_concat(a: Seq<CorpusEntry>, b: Seq<CorpusEntry>)
    ensures
        contributor_count(a + b) == contributor_count(a) + contributor_count(b),
    decreases b.len(),
{
    if b.len() == 0 {
        assert(a + b =~= a);
    } else {
        lemma_contributor_count_concat(a, b.drop_last());
        assert((a + b).drop_last() =~= a + b.drop_last());
        assert((a + b).last() == b.last());
    }
}

/// Appending one entry adds its contribution to the count.
proof fn lemma_contributor_count_push(s: Seq<CorpusEntry>, e: CorpusEntry)
    ensures
        contributor_count(s.push(e)) == contributor_count(s) + (
        if e.testcase.contributed_novelty {
            1int
        } else {
            0int
        }),
{
    assert(s.push(e).drop_last() =~= s);
    assert(s.push(e).last() == e);
}

/// Removing one entry subtracts its contribution from the count.
proof fn lemma_contributor_count_remove(s: Seq<CorpusEntry>, i: int)
    requires
        0 <= i < s.len(),
    ensures
        contributor_count(s.remove(i)) == contributor_count(s) - (
        if s[i].testcase.contributed_novelty {
            1int
        } else {
            0int
        }),
{
    let pre = s.subrange(0, i);
    let post = s.subrange(i + 1, s.len() as int);
    assert(s =~= pre.push(s[i]) + post);
    assert(s.remove(i) =~= pre + post);
    lemma_contributor_count_concat(pre.push(s[i]), post);
    lemma_contributor_count_concat(pre, post);
    lemma_contributor_count_push(pre, s[i]);
}

/// The fuzzer: admission feedback, the out-of-band keep flag, the
/// crash-cause objective and the scheduler.
pub struct StdFuzzer {
    /// The novelty feedback deciding admission.
    pub feedback: ListFeedback,
    /// The keep flag the harness can raise during one execution.
    pub keep_feedback: LibfuzzerKeepFeedback,
    /// The crash-cause objective, recording each execution's exit kind.
    pub objective: LibfuzzerCrashCauseFeedback,
    /// The scheduler.
    pub scheduler: QueueScheduler,
    /// Ghost accounting of evaluation-entrypoint calls.
    pub evals_count: Ghost<nat>,
}

impl StdFuzzer {
    /// How many candidates went through the evaluation entrypoint.
    pub closed spec fn evals(&self) -> nat {
        self.evals_count@
    }

    /// Build a fuzzer around an admission feedback.
    pub fn new(feedback: ListFeedback) -> (r: StdFuzzer)
        ensures
            r.feedback == feedback,
            !r.keep_feedback.keep_spec(),
            r.objective.exit_kind_spec() == ExitKind::Okay,
            r.evals() == 0,
    {
        StdFuzzer {
            feedback,
            keep_feedback: LibfuzzerKeepFeedback::new(),
            objective: LibfuzzerCrashCauseFeedback::new(),
            scheduler: QueueScheduler::new(),
            evals_count: Ghost(0),
        }
    }

    /// Decide admission of one already-executed candidate from its exit
    /// kind and observations.
    ///
    /// The candidate enters the corpus exactly when the keep flag stands or
    /// the observation shows novel values and the feedback may promote; a
    /// candidate that is rejected leaves the corpus and the persisted
    /// novelty history untouched (in never-corpus mode the history is
    /// folded as telemetry regardless of admission).
    pub fn admit_candidate(
        &mut self,
        state: &mut FuzzState,
        input: Vec<u8>,
        kind: ExitKind,
        observed: &Vec<u64>,
    ) -> (r: Result<(bool, Option<SeedId>), Error>)
        requires
            old(state).wf(),
        ensures
            final(state).wf(),
            final(self).evals() == old(self).evals() + 1,
            final(self).objective.exit_kind_spec() == kind,
            final(self).keep_feedback == old(self).keep_feedback,
            final(self).feedback.name_spec() == old(self).feedback.name_spec(),
            final(self).feedback.never_corpus_spec() == old(
                self,
            ).feedback.never_corpus_spec(),
            final(state).max_size == old(state).max_size,
            ((r matches Err(e) && e is NotFound) <==> !old(state).metadata.has_name(
                old(self).feedback.name_spec(),
            )),
            r is Err ==> final(state).corpus == old(state).corpus,
            r matches Err(e) ==> (e is NotFound || e is IllegalState),
            ((r matches Err(e) && e is IllegalState) ==> (old(state).corpus.next_id_spec()
                == u64::MAX || old(state).corpus.count_all_spec() == usize::MAX)),
            r matches Ok((v, opt)) ==> {
                let name = old(self).feedback.name_spec();
                let hist = feedback_history(&old(self).feedback, old(state));
                let nov = novel_seq(hist, observed@);
                let never = old(self).feedback.never_corpus_spec();
                let contributed = !never && nov.len() != 0;
                &&& v == (old(self).keep_feedback.keep_spec() || contributed)
                &&& (v <==> opt is Some)
                &&& final(state).metadata.names() =~= old(state).metadata.names()
                &&& final(state).metadata.meta_of(name).values() == (if never || v {
                    hist.union(nov.to_set())
                } else {
                    hist
                })
                &&& final(state).metadata.meta_of(name).refcnt_spec() == (if v && contributed
                    && old(state).metadata.meta_of(name).refcnt_spec() < i64::MAX {
                    old(state).metadata.meta_of(name).refcnt_spec() + 1
                } else {
                    old(state).metadata.meta_of(name).refcnt_spec()
                })
                &&& (!v ==> final(state).corpus == old(state).corpus)
                &&& (v ==> (opt matches Some(id) && id.0 == old(
                    state,
                ).corpus.next_id_spec() && final(state).corpus.in_enabled(id) && final(state).corpus.count_all_spec() == old(state).corpus.count_all_spec() + 1 && final(state).corpus.enabled_seq() == old(state).corpus.enabled_seq().push(
                    CorpusEntry {
                        id,
                        testcase: Testcase {
                            input,
                            filename: None,
                            crash_cause: None,
                            contributed_novelty: contributed,
                        },
                    },
                ) && final(state).corpus.disabled_seq() == old(state).corpus.disabled_seq()
                    && final(state).corpus.current_spec() == old(state).corpus.current_spec()
                    && final(state).corpus.next_id_spec() == old(state).corpus.next_id_spec()
                    + 1))
            },
            ((r is Ok && refcnt_tracks_contributors(*old(self), *old(state)) && old(
                state,
            ).metadata.meta_of(old(self).feedback.name_spec()).refcnt_spec() < i64::MAX)
                ==> refcnt_tracks_contributors(*final(self), *final(state))),
    {
        self.evals_count = Ghost(self.evals_count@ + 1);
        let _crash_verdict = self.objective.is_interesting(kind);
        let lr = self.feedback.is_interesting(&mut state.metadata, observed, state.clock_ms);
        let (lv, _report) = match lr {
            Ok(p) => p,
            Err(e) => {
                return Err(e);
            },
        };
        let verdict = self.keep_feedback.is_interesting() || lv;
        let never = self.feedback.never_corpus();
        if !verdict {
            return Ok((false, None));
        }
        if state.corpus.next_id() == u64::MAX || state.corpus.count_all() == usize::MAX {
            return Err(Error::illegal_state("the corpus cannot hold another entry"));
        }
        let contributed = lv && !never;
        let mut testcase = Testcase::with_input(input);
        testcase.contributed_novelty = contributed;
        let id = state.corpus.add(testcase);
        match self.feedback.append_metadata(&mut state.metadata) {
            Ok(u) => u,
            Err(_) => {
                proof {
                    assert(false);
                }
                vstd::pervasive::unreached::<()>()
            },
        };
        if contributed {
            match state.metadata.index_of(self.feedback.name_key()) {
                Some(i) => {
                    proof {
                        state.metadata.lemma_name_index(i as int);
                    }
                    if state.metadata.meta_at(i).refcnt() < i64::MAX {
                        state.metadata.inc_refcnt_at(i);
                        proof {
                            state.metadata.lemma_name_index(i as int);
                        }
                    }
                },
                None => {
                    proof {
                        assert(false);
                    }
                },
            }
        }
        match self.scheduler.on_add(id) {
            Ok(u) => u,
            Err(_) => {
                proof {
                    assert(false);
                }
                vstd::pervasive::unreached::<()>()
            },
        };
        proof {
            let en0 = old(state).corpus.enabled_seq();
            let dis0 = old(state).corpus.disabled_seq();
            lemma_contributor_count_concat(en0, dis0);
            lemma_contributor_count_concat(
                state.corpus.enabled_seq(),
                state.corpus.disabled_seq(),
            );
            lemma_contributor_count_push(en0, state.corpus.enabled_seq().last());
        }
        Ok((true, Some(id)))
    }

    /// The evaluation entrypoint: run a candidate through the executor and
    /// decide its admission.
    pub fn evaluate_input<E: Executor>(
        &mut self,
        state: &mut FuzzState,
        executor: &mut E,
        input: Vec<u8>,
    ) -> (r: Result<(bool, Option<SeedId>), Error>)
        requires
            old(state).wf(),
        ensures
            final(state).wf(),
            r is Ok ==> final(self).evals() == old(self).evals() + 1,
            r matches Ok((v, opt)) ==> (v <==> opt is Some),
            r matches Ok((v, opt)) ==> (!v ==> final(state).corpus == old(state).corpus),
            r matches Ok((v, opt)) ==> (v ==> (opt matches Some(id) && final(state).corpus.in_enabled(id) && final(state).corpus.count_all_spec() == old(
                state,
            ).corpus.count_all_spec() + 1 && final(state).corpus.current_spec() == old(
                state,
            ).corpus.current_spec())),
            r is Ok ==> (forall|e: CorpusEntry|
                old(state).corpus.enabled_seq().contains(e)
                    ==> #[trigger] final(state).corpus.enabled_seq().contains(e)),
            r is Ok ==> final(state).corpus.disabled_seq() == old(
                state,
            ).corpus.disabled_seq(),
    {
        let kind = match executor.run_target(&input) {
            Ok(k) => k,
            Err(e) => {
                return Err(e);
            },
        };
        let observed = executor.list_observation();
        let r = self.admit_candidate(state, input, kind, &observed);
        proof {
            let ghost rv = r;
            if rv is Ok {
                let p = rv.unwrap();
                if p.0 {
                    assert(state.corpus.disabled_seq() == old(state).corpus.disabled_seq());
                } else {
                    assert(state.corpus == old(state).corpus);
                }
                assert forall|e: CorpusEntry|
                    old(state).corpus.enabled_seq().contains(e)
                    implies #[trigger] state.corpus.enabled_seq().contains(e) by {
                    let k = choose|k: int|
                        0 <= k < old(state).corpus.enabled_seq().len() && old(
                            state,
                        ).corpus.enabled_seq()[k] == e;
                    assert(state.corpus.enabled_seq()[k] == e);
                    assert(state.corpus.enabled_seq().contains(
                        state.corpus.enabled_seq()[k],
                    ));
                }
            }
        }
        r
    }

    /// Add an input straight to the enabled corpus, notifying the
    /// scheduler.  Used to re-surface entries at safe boundaries; no
    /// feedback is consulted.
    pub fn add_input(&mut self, state: &mut FuzzState, input: Vec<u8>) -> (r: Result<
        SeedId,
        Error,
    >)
        requires
            old(state).wf(),
        ensures
            final(state).wf(),
            *final(self) == *old(self),
            final(state).rand == old(state).rand,
            final(state).max_size == old(state).max_size,
            final(state).clock_ms == old(state).clock_ms,
            r is Ok <==> (old(state).corpus.next_id_spec() < u64::MAX && old(
                state,
            ).corpus.count_all_spec() < usize::MAX),
            r is Err ==> *final(state) == *old(state),
            r matches Err(e) ==> e is IllegalState,
            r matches Ok(id) ==> (forall|y: SeedId|
                final(state).corpus.contains_id(y) == (old(state).corpus.contains_id(y) || y
                    == id)),
            r matches Ok(id) ==> (id.0 == old(state).corpus.next_id_spec() && final(state).corpus.in_enabled(id) && final(state).corpus.enabled_seq() == old(state).corpus.enabled_seq().push(
                CorpusEntry { id, testcase: Testcase {
                    input,
                    filename: None,
                    crash_cause: None,
                    contributed_novelty: false,
                } },
            ) && final(state).corpus.disabled_seq() == old(state).corpus.disabled_seq()
                && final(state).corpus.current_spec() == old(state).corpus.current_spec()
                && final(state).corpus.next_id_spec() == old(state).corpus.next_id_spec() + 1
                && final(state).metadata == old(state).metadata),
            (refcnt_tracks_contributors(*old(self), *old(state))
                ==> refcnt_tracks_contributors(*final(self), *final(state))),
    {
        if state.corpus.next_id() == u64::MAX || state.corpus.count_all() == usize::MAX {
            return Err(Error::illegal_state("the corpus cannot hold another entry"));
        }
        let id = state.corpus.add(Testcase::with_input(input));
        match self.scheduler.on_add(id) {
            Ok(u) => u,
            Err(_) => {
                proof {
                    assert(false);
                }
                vstd::pervasive::unreached::<()>()
            },
        };
        proof {
            let en0 = old(state).corpus.enabled_seq();
            let dis0 = old(state).corpus.disabled_seq();
            lemma_contributor_count_concat(en0, dis0);
            lemma_contributor_count_concat(
                state.corpus.enabled_seq(),
                state.corpus.disabled_seq(),
            );
            lemma_contributor_count_push(en0, state.corpus.enabled_seq().last());
        }
        Ok(id)
    }

    /// Add an input straight to the disabled corpus, bypassing the
    /// feedbacks' admission gate.
    pub fn add_disabled_input(&mut self, state: &mut FuzzState, input: Vec<u8>) -> (r: Result<
        SeedId,
        Error,
    >)
        requires
            old(state).wf(),
        ensures
            final(state).wf(),
            *final(self) == *old(self),
            final(state).rand == old(state).rand,
            final(state).max_size == old(state).max_size,
            final(state).clock_ms == old(state).clock_ms,
            r is Ok <==> (old(state).corpus.next_id_spec() < u64::MAX && old(
                state,
            ).corpus.count_all_spec() < usize::MAX),
            r is Err ==> *final(state) == *old(state),
            r matches Err(e) ==> e is IllegalState,
            r matches Ok(id) ==> (forall|y: SeedId|
                final(state).corpus.contains_id(y) == (old(state).corpus.contains_id(y) || y
                    == id)),
            r matches Ok(id) ==> (id.0 == old(state).corpus.next_id_spec() && final(state).corpus.in_disabled(id) && final(state).corpus.disabled_seq() == old(state).corpus.disabled_seq().push(
                CorpusEntry { id, testcase: Testcase {
                    input,
                    filename: None,
                    crash_cause: None,
                    contributed_novelty: false,
                } },
            ) && final(state).corpus.enabled_seq() == old(state).corpus.enabled_seq()
                && final(state).corpus.current_spec() == old(state).corpus.current_spec()
                && final(state).corpus.next_id_spec() == old(state).corpus.next_id_spec() + 1
                && final(state).metadata == old(state).metadata),
            (refcnt_tracks_contributors(*old(self), *old(state))
                ==> refcnt_tracks_contributors(*final(self), *final(state))),
    {
        if state.corpus.next_id() == u64::MAX || state.corpus.count_all() == usize::MAX {
            return Err(Error::illegal_state("the corpus cannot hold another entry"));
        }
        let id = state.corpus.add_disabled(Testcase::with_input(input));
        proof {
            let en0 = old(state).corpus.enabled_seq();
            let dis0 = old(state).corpus.disabled_seq();
            lemma_contributor_count_concat(en0, dis0);
            lemma_contributor_count_concat(
                state.corpus.enabled_seq(),
                state.corpus.disabled_seq(),
            );
            lemma_contributor_count_push(dis0, state.corpus.disabled_seq().last());
        }
        Ok(id)
    }

    /// Remove an entry through the scheduler-mediated path: the corpus
    /// gives the testcase up, the novelty reference count drops if the
    /// entry contributed novelty, and the scheduler is notified.
    pub fn remove_testcase(&mut self, state: &mut FuzzState, id: SeedId) -> (r: Result<
        Testcase,
        Error,
    >)
        requires
            old(state).wf(),
        ensures
            final(state).wf(),
            final(self).evals() == old(self).evals(),
            final(self).feedback == old(self).feedback,
            final(self).keep_feedback == old(self).keep_feedback,
            final(self).objective == old(self).objective,
            final(self).scheduler.cursor_spec() == old(self).scheduler.cursor_spec(),
            final(state).rand == old(state).rand,
            final(state).max_size == old(state).max_size,
            final(state).clock_ms == old(state).clock_ms,
            r is Ok <==> (old(state).corpus.contains_id(id) && Some(id) != old(
                state,
            ).corpus.current_spec()),
            r is Ok ==> final(self).scheduler.removals() == old(self).scheduler.removals()
                + 1,
            r is Err ==> *final(self) == *old(self) && *final(state) == *old(state),
            r is Err ==> final(state).corpus == old(state).corpus && final(state).metadata
                == old(state).metadata,
            r matches Err(e) ==> (e is IllegalState <==> Some(id) == old(
                state,
            ).corpus.current_spec()),
            r is Ok ==> {
                &&& !final(state).corpus.contains_id(id)
                &&& forall|y: SeedId|
                    y != id ==> #[trigger] final(state).corpus.contains_id(y) == old(
                        state,
                    ).corpus.contains_id(y)
                &&& forall|y: SeedId|
                    y != id ==> #[trigger] final(state).corpus.in_enabled(y) == old(
                        state,
                    ).corpus.in_enabled(y)
                &&& final(state).corpus.count_all_spec() == old(state).corpus.count_all_spec()
                    - 1
                &&& final(state).corpus.current_spec() == old(state).corpus.current_spec()
                &&& final(state).corpus.next_id_spec() == old(state).corpus.next_id_spec()
                &&& final(state).metadata.names() =~= old(state).metadata.names()
                &&& (old(state).corpus.in_enabled(id) ==> final(state).corpus.count_enabled_spec() == old(state).corpus.count_enabled_spec() - 1
                    && final(state).corpus.disabled_seq() == old(state).corpus.disabled_seq())
                &&& (old(state).corpus.in_disabled(id) ==> final(state).corpus.count_disabled_spec() == old(state).corpus.count_disabled_spec() - 1
                    && final(state).corpus.enabled_seq() == old(state).corpus.enabled_seq())
            },
            ((r is Ok && refcnt_tracks_contributors(*old(self), *old(state)))
                ==> refcnt_tracks_contributors(*final(self), *final(state))),
            r matches Ok(tc) ==> exists|i: int|
                0 <= i < old(state).corpus.all_seq().len() && (#[trigger] old(
                    state,
                ).corpus.all_seq()[i]).id == id && old(state).corpus.all_seq()[i].testcase
                    == tc && final(state).corpus.all_seq() == old(
                    state,
                ).corpus.all_seq().remove(i),
            (r is Ok && old(state).corpus.in_enabled(id)) ==> exists|j: int|
                0 <= j < old(state).corpus.enabled_seq().len() && (#[trigger] old(
                    state,
                ).corpus.enabled_seq()[j]).id == id && final(state).corpus.enabled_seq()
                    == old(state).corpus.enabled_seq().remove(j),
            (r is Ok && old(state).corpus.in_disabled(id)) ==> exists|j: int|
                0 <= j < old(state).corpus.disabled_seq().len() && (#[trigger] old(
                    state,
                ).corpus.disabled_seq()[j]).id == id && final(state).corpus.disabled_seq()
                    == old(state).corpus.disabled_seq().remove(j),
    {
        let ghost all0 = old(state).corpus.all_seq();
        let removed = match state.corpus.remove(id) {
            Ok(tc) => tc,
            Err(e) => {
                return Err(e);
            },
        };
        proof {
            let i = choose|i: int|
                0 <= i < all0.len() && (#[trigger] all0[i]).id == id && all0[i].testcase
                    == removed && state.corpus.all_seq() == all0.remove(i);
            lemma_contributor_count_remove(all0, i);
            lemma_contributor_count_nonneg(state.corpus.all_seq());
        }
        if removed.contributed_novelty {
            if let Some(i) = state.metadata.index_of(self.feedback.name_key()) {
                proof {
                    state.metadata.lemma_name_index(i as int);
                }
                state.metadata.dec_refcnt_at(i);
                proof {
                    state.metadata.lemma_name_index(i as int);
                }
            }
        }
        match self.scheduler.on_remove(id, &removed) {
            Ok(u) => u,
            Err(_) => {
                proof {
                    assert(false);
                }
                vstd::pervasive::unreached::<()>()
            },
        };
        Ok(removed)
    }
}

/// Whether the outer loop must halt after a solution of this kind, given
/// the configured ignore rules.
pub fn should_halt(
    kind: ExitKind,
    ignore_crashes: bool,
    ignore_ooms: bool,
    ignore_timeouts: bool,
) -> (r: bool)
    ensures
        r == ((kind == ExitKind::Oom && !ignore_ooms) || (kind == ExitKind::Crash
            && !ignore_crashes) || (kind == ExitKind::Timeout && !ignore_timeouts)),
{
    match kind {
        ExitKind::Oom => !ignore_ooms,
        ExitKind::Crash => !ignore_crashes,
        ExitKind::Timeout => !ignore_timeouts,
        ExitKind::Okay => false,
    }
}

} // verus!
