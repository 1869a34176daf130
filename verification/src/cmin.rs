//! The corpus minimization stage: recompute a minimal covering subset of
//! the enabled corpus and remove everything outside it, through the
//! scheduler-mediated removal path.

use vstd::prelude::*;
use crate::corpus::SeedId;
use crate::errors::Error;
use crate::executors::Executor;
use crate::fuzzer::StdFuzzer;
use crate::minimizer::{
    MinimizeCandidate, cand_ids, compute_retained, lemma_spec_cmin_ids_subset, spec_cmin,
};
use crate::stages::Stage;
use crate::state::FuzzState;

verus! {

/// Whether a sequence of ids holds one id.
fn seed_ids_contain(s: &Vec<SeedId>, id: SeedId) -> (r: bool)
    ensures
        r == s@.contains(id),
{
    let mut i: usize = 0;
    while i < s.len()
        invariant
            i <= s@.len(),
            forall|k: int| 0 <= k < i ==> s@[k] != id,
        decreases s@.len() - i,
    {
        if s[i].0 == id.0 {
            return true;
        }
        i = i + 1;
    }
    proof {
        if s@.contains(id) {
            let k = choose|k: int| 0 <= k < s@.len() && s@[k] == id;
        }
    }
    false
}

/// The surviving enabled ids are exactly the ids of the greedy covering
/// selection over the collected candidates, the selected entry among them.
pub open spec fn minimized_to(
    cands: Seq<MinimizeCandidate>,
    cur: SeedId,
    enabled_after: Seq<SeedId>,
) -> bool {
    exists|cu: int|
        0 <= cu < cands.len() && (#[trigger] cands[cu]).id == cur && (forall|y: SeedId|
            enabled_after.contains(y) == cand_ids(spec_cmin(cands, cu)).contains(y))
}

/// What one minimization pass leaves behind: one candidate was collected
/// per enabled entry, in order — its id the entry's id, its score favouring
/// shorter inputs, its cover exactly what the executor's observation
/// channel handed out for that entry's run — and the enabled partition
/// afterwards holds exactly the ids the greedy covering selection retains.
pub open spec fn cmin_pass_described(
    c0: crate::corpus::Corpus,
    cur: SeedId,
    obs0: Seq<Seq<u64>>,
    obs1: Seq<Seq<u64>>,
    enabled_after: Seq<SeedId>,
) -> bool {
    exists|cands: Seq<MinimizeCandidate>|
        {
            &&& #[trigger] cands.len() == c0.enabled_seq().len()
            &&& obs1.len() == obs0.len() + cands.len()
            &&& (forall|i2: int|
                0 <= i2 < cands.len() ==> ((#[trigger] cands[i2]).id == c0.enabled_ids()[i2]
                    && cands[i2].score == u64::MAX - c0.enabled_seq()[
                    i2
                ].testcase.input@.len() && cands[i2].cover@ == obs1[obs0.len() + i2]))
            &&& minimized_to(cands, cur, enabled_after)
        }
}

/// The corpus minimization stage.
pub struct CMinStage {
}

impl CMinStage {
    /// Build the stage.
    pub fn new() -> (r: Result<CMinStage, Error>)
        ensures
            r is Ok,
    {
        Ok(CMinStage {  })
    }
}

impl Stage for CMinStage {
    /// Re-execute every enabled entry to learn what it covers, compute the
    /// greedy covering subset — which always holds the selected entry — and
    /// remove every enabled entry outside it.
    ///
    /// On success the surviving enabled ids are exactly the greedy covering
    /// selection over the candidates the pass collected, whose covers are
    /// pinned to the executor's observation log; the selected entry stays
    /// selected and stored, no entry joins the enabled partition, and the
    /// disabled partition is untouched.
    fn perform<E: Executor>(
        &mut self,
        fuzzer: &mut StdFuzzer,
        executor: &mut E,
        state: &mut FuzzState,
        seed_id: SeedId,
    ) -> (r: Result<(), Error>)
        ensures
            old(state).corpus.current_spec() is None ==> (r matches Err(e)
                && e is IllegalState),
            r is Ok ==> old(state).corpus.current_spec() is Some,
            final(state).corpus.current_spec() == old(state).corpus.current_spec(),
            final(state).corpus.disabled_seq() == old(state).corpus.disabled_seq(),
            forall|y: SeedId|
                #[trigger] final(state).corpus.in_enabled(y) ==> old(
                    state,
                ).corpus.in_enabled(y),
            r is Ok ==> cmin_pass_described(
                old(state).corpus,
                old(state).corpus.current_spec().unwrap(),
                old(executor).observations_log(),
                final(executor).observations_log(),
                final(state).corpus.enabled_ids(),
            ),
    {
        let cur = match state.corpus.current() {
            Some(c) => c,
            None => {
                return Err(Error::illegal_state("not fuzzing any testcase"));
            },
        };
        let n = state.corpus.count();
        let ghost obs0 = executor.observations_log();
        let mut cands: Vec<MinimizeCandidate> = Vec::new();
        let mut enabled_ids_vec: Vec<SeedId> = Vec::new();
        let mut i: usize = 0;
        proof {
            state.corpus.lemma_wf_parts();
        }
        while i < n
            invariant
                state.wf(),
                n == state.corpus.count_enabled_spec(),
                i <= n,
                state.corpus == old(state).corpus,
                state.corpus.current_spec() == Some(cur),
                obs0 == old(executor).observations_log(),
                enabled_ids_vec@ =~= state.corpus.enabled_ids().subrange(0, i as int),
                cand_ids(cands@) =~= enabled_ids_vec@,
                cands@.len() == i,
                executor.observations_log().len() == obs0.len() + i,
                forall|k: int|
                    0 <= k < i ==> (#[trigger] cands@[k]).cover@
                        == executor.observations_log()[obs0.len() + k],
                forall|k: int|
                    0 <= k < i ==> (#[trigger] cands@[k]).score == u64::MAX
                        - state.corpus.enabled_seq()[k].testcase.input@.len(),
            decreases n - i,
        {
            let id = state.corpus.nth_enabled(i);
            let tc_ref = match state.corpus.get(id) {
                Ok(tc) => tc,
                Err(_) => {
                    proof {
                        assert(false);
                    }
                    vstd::pervasive::unreached::<&crate::corpus::Testcase>()
                },
            };
            proof {
                state.corpus.lemma_wf_parts();
                assert(state.corpus.all_seq()[i as int] == state.corpus.enabled_seq()[
                    i as int
                ]);
                assert(state.corpus.all_ids()[i as int] == state.corpus.all_seq()[
                    i as int
                ].id);
                let gi = choose|gi: int|
                    0 <= gi < state.corpus.all_seq().len() && (
                    #[trigger] state.corpus.all_seq()[gi]).id == id
                        && state.corpus.all_seq()[gi].testcase == *tc_ref;
                assert(state.corpus.all_ids()[gi] == state.corpus.all_seq()[gi].id);
                assert(gi == i as int);
                assert(*tc_ref == state.corpus.enabled_seq()[i as int].testcase);
            }
            let input = tc_ref.input.clone();
            let ghost obs_before = executor.observations_log();
            let ghost cands_before = cands@;
            match executor.run_target(&input) {
                Ok(k) => k,
                Err(e) => {
                    return Err(e);
                },
            };
            let cover = executor.list_observation();
            let score = u64::MAX - (input.len() as u64);
            cands.push(MinimizeCandidate { id, score, cover });
            enabled_ids_vec.push(id);
            proof {
                assert(enabled_ids_vec@ =~= state.corpus.enabled_ids().subrange(
                    0,
                    i as int + 1,
                ));
                assert(cand_ids(cands@) =~= enabled_ids_vec@);
                assert(executor.observations_log() == obs_before.push(cover@));
                assert forall|k: int|
                    0 <= k < i as int + 1 implies (#[trigger] cands@[k]).cover@
                    == executor.observations_log()[obs0.len() + k] by {
                    if k < i as int {
                        assert(cands@[k] == cands_before[k]);
                        assert(executor.observations_log()[obs0.len() + k] == obs_before[
                            obs0.len() + k
                        ]);
                    } else {
                        assert(cands@[k].cover@ == cover@);
                        assert(executor.observations_log()[obs0.len() + k] == cover@);
                    }
                }
                assert forall|k: int|
                    0 <= k < i as int + 1 implies (#[trigger] cands@[k]).score == u64::MAX
                    - state.corpus.enabled_seq()[k].testcase.input@.len() by {
                    if k < i as int {
                        assert(cands@[k] == cands_before[k]);
                    } else {
                        assert(input@.len() == state.corpus.enabled_seq()[
                            k
                        ].testcase.input@.len());
                    }
                }
            }
            i = i + 1;
        }
        proof {
            state.corpus.lemma_wf_parts();
            assert(state.corpus.enabled_ids().subrange(
                0,
                state.corpus.enabled_ids().len() as int,
            ) =~= state.corpus.enabled_ids());
            assert(cand_ids(cands@) == state.corpus.enabled_ids());
        }
        let ghost cands0 = cands@;
        let ghost obs_end = executor.observations_log();
        let retained = match compute_retained(cands, cur) {
            Ok(kept) => kept,
            Err(e) => {
                // the selection can stand in the disabled partition, in
                // which case no covering subset over the enabled entries
                // holds it
                return Err(e);
            },
        };
        proof {
            assert(retained@[0] == cur);
            assert(retained@.contains(cur));
            state.corpus.lemma_wf_parts();
            assert forall|k: int|
                0 <= k < enabled_ids_vec@.len() implies state.corpus.in_enabled(
                #[trigger] enabled_ids_vec@[k],
            ) by {
                assert(state.corpus.enabled_ids()[k] == enabled_ids_vec@[k]);
                assert(state.corpus.enabled_ids().contains(
                    state.corpus.enabled_ids()[k],
                ));
            }
        }
        let mut j: usize = 0;
        while j < enabled_ids_vec.len()
            invariant
                state.wf(),
                state.corpus.current_spec() == Some(cur),
                retained@.contains(cur),
                j <= enabled_ids_vec@.len(),
                enabled_ids_vec@.no_duplicates(),
                enabled_ids_vec@ == old(state).corpus.enabled_ids(),
                executor.observations_log() == obs_end,
                forall|k: int|
                    j <= k < enabled_ids_vec@.len() ==> state.corpus.in_enabled(
                        #[trigger] enabled_ids_vec@[k],
                    ),
                forall|k: int|
                    0 <= k < enabled_ids_vec@.len() && retained@.contains(
                        #[trigger] enabled_ids_vec@[k],
                    ) ==> state.corpus.in_enabled(enabled_ids_vec@[k]),
                forall|k: int|
                    0 <= k < j && !retained@.contains(#[trigger] enabled_ids_vec@[k])
                        ==> !state.corpus.contains_id(enabled_ids_vec@[k]),
                state.corpus.disabled_seq() == old(state).corpus.disabled_seq(),
                forall|y: SeedId|
                    #[trigger] state.corpus.in_enabled(y) ==> old(state).corpus.in_enabled(
                        y,
                    ),
            decreases enabled_ids_vec@.len() - j,
        {
            let id = enabled_ids_vec[j];
            if !seed_ids_contain(&retained, id) {
                proof {
                    state.corpus.lemma_wf_parts();
                    assert(state.corpus.in_enabled(id));
                    assert(id != cur);
                }
                match fuzzer.remove_testcase(state, id) {
                    Ok(tc) => tc,
                    Err(_) => {
                        proof {
                            assert(false);
                        }
                        vstd::pervasive::unreached::<crate::corpus::Testcase>()
                    },
                };
            }
            j = j + 1;
        }
        proof {
            state.corpus.lemma_wf_parts();
            let cu = choose|cu: int|
                {
                    &&& 0 <= cu < cands0.len()
                    &&& (#[trigger] cands0[cu]).id == cur
                    &&& retained@ == cand_ids(spec_cmin(cands0, cu))
                    &&& retained@.len() >= 1
                    &&& retained@[0] == cur
                };
            lemma_spec_cmin_ids_subset(cands0, cu);
            assert forall|y: SeedId|
                state.corpus.enabled_ids().contains(y) == cand_ids(
                    spec_cmin(cands0, cu),
                ).contains(y) by {
                if state.corpus.enabled_ids().contains(y) {
                    assert(state.corpus.in_enabled(y));
                    assert(old(state).corpus.in_enabled(y));
                    let k = choose|k: int|
                        0 <= k < enabled_ids_vec@.len() && enabled_ids_vec@[k] == y;
                    if !retained@.contains(y) {
                        assert(!state.corpus.contains_id(y));
                        assert(false);
                    }
                }
                if cand_ids(spec_cmin(cands0, cu)).contains(y) {
                    assert(retained@.contains(y));
                    assert(cand_ids(cands0).contains(y));
                    let k = choose|k: int|
                        0 <= k < cand_ids(cands0).len() && cand_ids(cands0)[k] == y;
                    assert(enabled_ids_vec@[k] == y);
                    assert(state.corpus.in_enabled(y));
                }
            }
            assert(minimized_to(cands0, cur, state.corpus.enabled_ids()));
            assert(cmin_pass_described(
                old(state).corpus,
                cur,
                obs0,
                executor.observations_log(),
                state.corpus.enabled_ids(),
            ));
        }
        Ok(())
    }

    /// Minimization keeps no persisted progress; a relaunch recomputes it
    /// from scratch, so restarting is unconditionally safe and nothing
    /// changes.
    fn should_restart(&mut self, state: &mut FuzzState) -> (r: Result<bool, Error>)
        ensures
            (r matches Ok(b) && b),
            *final(state) == *old(state),
            *final(self) == *old(self),
    {
        Ok(true)
    }

    /// There is no persisted partial progress to reset.
    fn clear_progress(&mut self, state: &mut FuzzState) -> (r: Result<(), Error>)
        ensures
            r is Ok,
            *final(state) == *old(state),
            *final(self) == *old(self),
    {
        Ok(())
    }
}

} // verus!
