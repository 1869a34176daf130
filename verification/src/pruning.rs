//! Probabilistic corpus pruning: a restart-boundary pass that bounds corpus
//! growth by moving entries between the enabled and disabled partitions at
//! random, never touching the selected seed.

use vstd::prelude::*;
use crate::corpus::{CorpusEntry, SeedId, ids_of};
use crate::errors::Error;
use crate::executors::Executor;
use crate::fuzzer::StdFuzzer;
use crate::rand::{rand_after, spec_next};
use crate::stages::Stage;
use crate::state::FuzzState;

verus! {

/// Whether one drawn value evicts an entry, given the retention chance in
/// percent: an entry is kept when the chance is at least the draw.
pub open spec fn spec_evicts(prob: u64, draw: u64) -> bool {
    prob < draw
}

/// Whether one drawn value evicts an entry.
fn evicts(prob: u64, draw: u64) -> (r: bool)
    ensures
        r == spec_evicts(prob, draw),
{
    prob < draw
}

/// The value the k-th draw of a pruning pass produces, for a generator
/// starting in state `s0`.
pub open spec fn draw_at(s0: u64, k: nat) -> u64 {
    rand_after(s0, k + 1) % 100
}

/// Whether the entry at full-view position `p` survives a pruning pass
/// over `n` entries: the selected entry always does, and any other is
/// retained exactly when its draw does not evict it.  The pass walks the
/// positions downwards, so position `p` sees the `(n-1-p)`-th draw.
pub open spec fn entry_kept(
    e: CorpusEntry,
    cur: SeedId,
    s0: u64,
    prob: u64,
    n: int,
    p: int,
) -> bool {
    e.id == cur || !spec_evicts(prob, draw_at(s0, (n - 1 - p) as nat))
}

/// The inputs of the evicted entries among positions [lo, hi) of one
/// partition standing at full-view offset `off`, in the order the pass
/// collects them: highest position first.
pub open spec fn evicted_inputs(
    s: Seq<CorpusEntry>,
    cur: SeedId,
    s0: u64,
    prob: u64,
    n: int,
    off: int,
    lo: int,
    hi: int,
) -> Seq<Seq<u8>>
    decreases hi - lo,
{
    if lo >= hi {
        Seq::empty()
    } else {
        evicted_inputs(s, cur, s0, prob, n, off, lo + 1, hi) + (if !entry_kept(
            s[lo],
            cur,
            s0,
            prob,
            n,
            off + lo,
        ) {
            seq![s[lo].testcase.input@]
        } else {
            Seq::empty()
        })
    }
}

/// Whether a partition holds an entry carrying the given input bytes under
/// a fresh id: the shape a re-admitted entry takes.
pub open spec fn holds_readded_input(part: Seq<CorpusEntry>, v: Seq<u8>, bound: u64) -> bool {
    exists|e2: int|
        0 <= e2 < part.len() && (#[trigger] part[e2]).testcase.input@ == v && part[e2].id.0
            >= bound
}

/// With retention chance zero, every nonzero draw evicts; with retention
/// chance one hundred, no draw evicts.  Together with the exemption of the
/// selected seed this pins the extreme pruning configurations: full
/// retention moves nothing, zero retention moves everything but the
/// selected seed whose draw is nonzero.
pub proof fn lemma_prune_extremes(draw: u64)
    requires
        draw < 100,
    ensures
        draw >= 1 ==> spec_evicts(0, draw),
        !spec_evicts(100, draw),
{
}

/// An evicted position's input stands among the collected inputs.
proof fn lemma_evicted_inputs_member(
    s: Seq<CorpusEntry>,
    cur: SeedId,
    s0: u64,
    prob: u64,
    n: int,
    off: int,
    lo: int,
    hi: int,
    j: int,
)
    requires
        lo <= j < hi,
        hi <= s.len(),
        0 <= lo,
        !entry_kept(s[j], cur, s0, prob, n, off + j),
    ensures
        evicted_inputs(s, cur, s0, prob, n, off, lo, hi).contains(s[j].testcase.input@),
    decreases hi - lo,
{
    let whole = evicted_inputs(s, cur, s0, prob, n, off, lo, hi);
    let rest = evicted_inputs(s, cur, s0, prob, n, off, lo + 1, hi);
    if j == lo {
        assert(whole == rest + seq![s[lo].testcase.input@]);
        assert(whole[whole.len() - 1] == s[lo].testcase.input@);
        assert(whole.contains(whole[whole.len() - 1]));
    } else {
        lemma_evicted_inputs_member(s, cur, s0, prob, n, off, lo + 1, hi, j);
        let k = choose|k: int| 0 <= k < rest.len() && rest[k] == s[j].testcase.input@;
        assert(whole[k] == rest[k]);
        assert(whole.contains(whole[k]));
    }
}

/// Removing one position keeps every other entry contained.
proof fn lemma_seq_remove_keeps(s: Seq<CorpusEntry>, j: int, x: CorpusEntry)
    requires
        0 <= j < s.len(),
        s.contains(x),
        x != s[j],
    ensures
        s.remove(j).contains(x),
{
    s.remove_ensures(j);
    let k = choose|k: int| 0 <= k < s.len() && s[k] == x;
    if k < j {
        assert(s.remove(j)[k] == x);
        assert(s.remove(j).contains(s.remove(j)[k]));
    } else {
        assert(s.remove(j)[k - 1] == x);
        assert(s.remove(j).contains(s.remove(j)[k - 1]));
    }
}

/// Appending an entry keeps every entry contained.
proof fn lemma_seq_push_keeps(s: Seq<CorpusEntry>, x: CorpusEntry, e: CorpusEntry)
    requires
        s.contains(x),
    ensures
        s.push(e).contains(x),
{
    let k = choose|k: int| 0 <= k < s.len() && s[k] == x;
    assert(s.push(e)[k] == x);
    assert(s.push(e).contains(s.push(e)[k]));
}

/// The stage that probabilistically evicts corpus entries from their
/// partition.  An evicted enabled entry is re-admitted disabled, bypassing
/// the feedbacks; an evicted disabled entry is re-admitted enabled.  It
/// runs only at safe boundaries, just before a deliberate restart.
pub struct CorpusPruning {
    /// The chance of retaining an entry, in percent.
    prob: u64,
}

impl CorpusPruning {
    /// The retention chance in percent.
    pub closed spec fn prob_spec(&self) -> u64 {
        self.prob
    }

    /// A pruning stage retaining each entry with the given chance, in
    /// percent.
    pub fn new(prob: u64) -> (r: CorpusPruning)
        requires
            prob <= 100,
        ensures
            r.prob_spec() == prob,
    {
        CorpusPruning { prob }
    }
}

impl Default for CorpusPruning {
    /// The default retention chance is ten percent.
    fn default() -> (r: CorpusPruning)
        ensures
            r.prob_spec() == 10,
    {
        CorpusPruning { prob: 10 }
    }
}

impl Stage for CorpusPruning {
    /// One pruning pass over the whole corpus, in decreasing index order so
    /// that removal never invalidates an index still to be visited.
    ///
    /// The contract pins the pass to the drawn values: the entry at
    /// position `p` is visited with draw `n-1-p` and switches partition
    /// exactly when that draw evicts it and it is not the selected entry;
    /// a switched entry keeps its input and receives a fresh id, a retained
    /// entry stands untouched in its partition, and the scheduler hears one
    /// removal notification per eviction.  The selected entry always
    /// survives in place, the total count is unchanged, and a failed
    /// precondition changes nothing at all.
    #[verifier::rlimit(100)]
    #[verifier::spinoff_prover]
    fn perform<E: Executor>(
        &mut self,
        fuzzer: &mut StdFuzzer,
        executor: &mut E,
        state: &mut FuzzState,
        seed_id: SeedId,
    ) -> (r: Result<(), Error>)
        ensures
            r is Ok <==> (old(state).corpus.current_spec() is Some && old(
                state,
            ).corpus.next_id_spec() + old(state).corpus.count_all_spec() <= u64::MAX),
            r matches Err(e) ==> (e is IllegalState && *final(state) == *old(state)
                && *final(fuzzer) == *old(fuzzer)),
            r is Ok ==> {
                let c0 = old(state).corpus;
                let cur = c0.current_spec().unwrap();
                let s0 = old(state).rand.state_spec();
                let prob = old(self).prob_spec();
                let n = c0.count_all_spec();
                let n_en = c0.count_enabled_spec();
                let n_dis = c0.count_disabled_spec();
                &&& final(state).corpus.current_spec() == Some(cur)
                &&& final(state).corpus.contains_id(cur)
                &&& final(state).corpus.count_all_spec() == n
                &&& final(state).rand.state_spec() == rand_after(s0, n as nat)
                &&& final(state).max_size == old(state).max_size
                &&& final(state).clock_ms == old(state).clock_ms
                &&& final(fuzzer).scheduler.cursor_spec() == old(
                    fuzzer,
                ).scheduler.cursor_spec()
                &&& final(fuzzer).scheduler.removals() == old(fuzzer).scheduler.removals()
                    + evicted_inputs(c0.enabled_seq(), cur, s0, prob, n, 0, 0, n_en).len()
                    + evicted_inputs(
                    c0.disabled_seq(),
                    cur,
                    s0,
                    prob,
                    n,
                    n_en,
                    0,
                    n_dis,
                ).len()
                &&& (forall|j: int|
                    0 <= j < c0.enabled_seq().len() ==> (if entry_kept(
                        #[trigger] c0.enabled_seq()[j],
                        cur,
                        s0,
                        prob,
                        n,
                        j,
                    ) {
                        final(state).corpus.enabled_seq().contains(c0.enabled_seq()[j])
                    } else {
                        !final(state).corpus.contains_id(c0.enabled_seq()[j].id)
                            && holds_readded_input(
                            final(state).corpus.disabled_seq(),
                            c0.enabled_seq()[j].testcase.input@,
                            c0.next_id_spec(),
                        )
                    }))
                &&& (forall|j: int|
                    0 <= j < c0.disabled_seq().len() ==> (if entry_kept(
                        #[trigger] c0.disabled_seq()[j],
                        cur,
                        s0,
                        prob,
                        n,
                        n_en + j,
                    ) {
                        final(state).corpus.disabled_seq().contains(c0.disabled_seq()[j])
                    } else {
                        !final(state).corpus.contains_id(c0.disabled_seq()[j].id)
                            && holds_readded_input(
                            final(state).corpus.enabled_seq(),
                            c0.disabled_seq()[j].testcase.input@,
                            c0.next_id_spec(),
                        )
                    }))
                &&& (prob == 100 ==> final(state).corpus == c0)
            },
    {
        let ghost c0 = old(state).corpus;
        let ghost en0 = c0.enabled_seq();
        let ghost dis0 = c0.disabled_seq();
        let ghost s0 = old(state).rand.state_spec();
        let ghost prob_g = self.prob;
        let ghost ms0 = old(state).max_size;
        let ghost clk0 = old(state).clock_ms;
        let ghost fuzzer0 = *old(fuzzer);
        let n_all = state.corpus.count_all();
        let n_enabled = state.corpus.count();
        let ghost n = n_all as int;
        let ghost n_en = n_enabled as int;
        let cur = match state.corpus.current() {
            Some(c) => c,
            None => {
                return Err(Error::illegal_state("not fuzzing any testcase"));
            },
        };
        let next0 = state.corpus.next_id();
        if next0 > u64::MAX - (n_all as u64) {
            return Err(Error::illegal_state("the id space cannot cover a pruning pass"));
        }
        proof {
            c0.lemma_wf_parts();
        }
        let mut to_enable: Vec<Vec<u8>> = Vec::new();
        let mut to_disable: Vec<Vec<u8>> = Vec::new();
        let mut i = n_all;
        while i > 0
            invariant
                state.wf(),
                c0.wf(),
                self.prob == prob_g,
                cur == c0.current_spec().unwrap(),
                c0.current_spec() == Some(cur),
                en0 == c0.enabled_seq(),
                dis0 == c0.disabled_seq(),
                n == c0.count_all_spec(),
                n_en == c0.count_enabled_spec(),
                n_all as int == n,
                n_enabled as int == n_en,
                n <= usize::MAX,
                next0 == c0.next_id_spec(),
                next0 + n <= u64::MAX,
                i <= n_all,
                state.corpus.current_spec() == Some(cur),
                state.corpus.next_id_spec() == next0,
                state.corpus.count_all_spec() + to_enable@.len() + to_disable@.len() == n,
                state.corpus.count_all_spec() >= i,
                state.max_size == ms0,
                state.clock_ms == clk0,
                state.rand.state_spec() == rand_after(s0, (n_all - i) as nat),
                fuzzer.scheduler.removals() == fuzzer0.scheduler.removals() + to_enable@.len()
                    + to_disable@.len(),
                fuzzer.scheduler.cursor_spec() == fuzzer0.scheduler.cursor_spec(),
                fuzzer.feedback == fuzzer0.feedback,
                fuzzer.keep_feedback == fuzzer0.keep_feedback,
                fuzzer.objective == fuzzer0.objective,
                fuzzer.evals() == fuzzer0.evals(),
                (i as int >= n_en ==> state.corpus.enabled_seq() == en0),
                (i as int >= n_en ==> state.corpus.disabled_seq().len() >= i as int - n_en
                    && state.corpus.disabled_seq().subrange(0, i as int - n_en)
                    == dis0.subrange(0, i as int - n_en)),
                ((i as int) < n_en ==> state.corpus.enabled_seq().len() >= i as int
                    && state.corpus.enabled_seq().subrange(0, i as int) == en0.subrange(
                    0,
                    i as int,
                )),
                forall|j: int|
                    0 <= j < en0.len() && (j < i as int || entry_kept(
                        #[trigger] en0[j],
                        cur,
                        s0,
                        prob_g,
                        n,
                        j,
                    )) ==> state.corpus.enabled_seq().contains(en0[j]),
                forall|j: int|
                    0 <= j < en0.len() && j >= i as int && !entry_kept(
                        #[trigger] en0[j],
                        cur,
                        s0,
                        prob_g,
                        n,
                        j,
                    ) ==> !state.corpus.contains_id(en0[j].id),
                forall|j: int|
                    0 <= j < dis0.len() && (n_en + j < i as int || entry_kept(
                        #[trigger] dis0[j],
                        cur,
                        s0,
                        prob_g,
                        n,
                        n_en + j,
                    )) ==> state.corpus.disabled_seq().contains(dis0[j]),
                forall|j: int|
                    0 <= j < dis0.len() && n_en + j >= i as int && !entry_kept(
                        #[trigger] dis0[j],
                        cur,
                        s0,
                        prob_g,
                        n,
                        n_en + j,
                    ) ==> !state.corpus.contains_id(dis0[j].id),
                to_disable@.map_values(|v: Vec<u8>| v@) == evicted_inputs(
                    en0,
                    cur,
                    s0,
                    prob_g,
                    n,
                    0,
                    i as int,
                    n_en,
                ),
                to_enable@.map_values(|v: Vec<u8>| v@) == evicted_inputs(
                    dis0,
                    cur,
                    s0,
                    prob_g,
                    n,
                    n_en,
                    (if i as int >= n_en {
                        i as int - n_en
                    } else {
                        0
                    }),
                    dis0.len() as int,
                ),
                (prob_g == 100 ==> state.corpus == c0 && to_enable@.len() == 0
                    && to_disable@.len() == 0),
            decreases i,
        {
            i = i - 1;
            let ghost p = i as int;
            let ghost entry = if p >= n_en {
                dis0[p - n_en]
            } else {
                en0[p]
            };
            proof {
                c0.lemma_wf_parts();
                assert(rand_after(s0, (n_all - i) as nat) == spec_next(
                    rand_after(s0, (n_all - i - 1) as nat),
                ));
            }
            let draw = state.rand.below(100);
            proof {
                assert(draw == draw_at(s0, (n - 1 - p) as nat));
                if p >= n_en {
                    assert(state.corpus.enabled_seq() == en0);
                    assert(state.corpus.disabled_seq().subrange(0, i as int + 1 - n_en)[
                        p - n_en
                    ] == dis0.subrange(0, i as int + 1 - n_en)[p - n_en]);
                    assert(state.corpus.disabled_seq()[p - n_en] == dis0[p - n_en]);
                    assert(state.corpus.all_seq()[p] == state.corpus.disabled_seq()[
                        p - n_en
                    ]);
                } else {
                    if i as int + 1 >= n_en {
                        assert(state.corpus.enabled_seq() == en0);
                    } else {
                        assert(state.corpus.enabled_seq().subrange(0, i as int + 1)[p]
                            == en0.subrange(0, i as int + 1)[p]);
                    }
                    assert(state.corpus.enabled_seq()[p] == en0[p]);
                    assert(state.corpus.all_seq()[p] == state.corpus.enabled_seq()[p]);
                }
                assert(state.corpus.all_seq()[p] == entry);
            }
            if evicts(self.prob, draw) {
                let idx = state.corpus.nth_from_all(i);
                proof {
                    assert(state.corpus.all_ids()[p] == state.corpus.all_seq()[p].id);
                    assert(idx == entry.id);
                }
                // the selected seed is exempt: the loop resumes from it
                // after the restart
                if idx.0 == cur.0 {
                    proof {
                        assert(entry_kept(entry, cur, s0, prob_g, n, p));
                        lemma_processed_kept_contained(state, en0, dis0, p, n_en, i as int);
                    }
                    continue ;
                }
                proof {
                    assert(!entry_kept(entry, cur, s0, prob_g, n, p));
                }
                let ghost corpus_before = state.corpus;
                let removed = match fuzzer.remove_testcase(state, idx) {
                    Ok(tc) => tc,
                    Err(_) => {
                        proof {
                            assert(false);
                        }
                        vstd::pervasive::unreached::<crate::corpus::Testcase>()
                    },
                };
                proof {
                    c0.lemma_wf_parts();
                    corpus_before.lemma_wf_parts();
                    let ri = choose|ri: int|
                        0 <= ri < corpus_before.all_seq().len() && (
                        #[trigger] corpus_before.all_seq()[ri]).id == idx
                            && corpus_before.all_seq()[ri].testcase == removed
                            && state.corpus.all_seq() == corpus_before.all_seq().remove(ri);
                    assert(corpus_before.all_ids()[ri] == corpus_before.all_seq()[ri].id);
                    assert(corpus_before.all_ids()[p] == corpus_before.all_seq()[p].id);
                    assert(ri == p);
                    assert(removed == entry.testcase);
                    if p >= n_en {
                        assert(corpus_before.disabled_ids()[p - n_en]
                            == corpus_before.disabled_seq()[p - n_en].id);
                        assert(corpus_before.disabled_ids().contains(
                            corpus_before.disabled_ids()[p - n_en],
                        ));
                        assert(corpus_before.in_disabled(idx));
                        let rj = choose|rj: int|
                            0 <= rj < corpus_before.disabled_seq().len() && (
                            #[trigger] corpus_before.disabled_seq()[rj]).id == idx
                                && state.corpus.disabled_seq()
                                == corpus_before.disabled_seq().remove(rj);
                        assert(corpus_before.disabled_ids()[rj]
                            == corpus_before.disabled_seq()[rj].id);
                        assert(rj == p - n_en);
                        corpus_before.disabled_seq().remove_ensures(rj);
                        assert(state.corpus.disabled_seq().subrange(0, p - n_en)
                            =~= dis0.subrange(0, p - n_en)) by {
                            assert forall|k: int| 0 <= k < p - n_en implies #[trigger] state.corpus.disabled_seq().subrange(
                                0,
                                p - n_en,
                            )[k] == dis0.subrange(0, p - n_en)[k] by {
                                assert(state.corpus.disabled_seq()[k]
                                    == corpus_before.disabled_seq()[k]);
                                assert(corpus_before.disabled_seq().subrange(
                                    0,
                                    i as int + 1 - n_en,
                                )[k] == dis0.subrange(0, i as int + 1 - n_en)[k]);
                            }
                        }
                        assert forall|j: int|
                            0 <= j < dis0.len() && (n_en + j < i as int || entry_kept(
                                #[trigger] dis0[j],
                                cur,
                                s0,
                                prob_g,
                                n,
                                n_en + j,
                            )) implies state.corpus.disabled_seq().contains(dis0[j]) by {
                            assert(corpus_before.disabled_seq().contains(dis0[j]));
                            assert(j != p - n_en);
                            assert(ids_of(dis0)[j] == dis0[j].id);
                            assert(ids_of(dis0)[p - n_en] == dis0[p - n_en].id);
                            assert(dis0[j].id != entry.id);
                            assert(dis0[j] != corpus_before.disabled_seq()[rj]);
                            lemma_seq_remove_keeps(corpus_before.disabled_seq(), rj, dis0[j]);
                        }
                    } else {
                        assert(corpus_before.enabled_ids()[p]
                            == corpus_before.enabled_seq()[p].id);
                        assert(corpus_before.enabled_ids().contains(
                            corpus_before.enabled_ids()[p],
                        ));
                        assert(corpus_before.in_enabled(idx));
                        let rj = choose|rj: int|
                            0 <= rj < corpus_before.enabled_seq().len() && (
                            #[trigger] corpus_before.enabled_seq()[rj]).id == idx
                                && state.corpus.enabled_seq()
                                == corpus_before.enabled_seq().remove(rj);
                        assert(corpus_before.enabled_ids()[rj]
                            == corpus_before.enabled_seq()[rj].id);
                        assert(rj == p);
                        corpus_before.enabled_seq().remove_ensures(rj);
                        assert(state.corpus.enabled_seq().subrange(0, p) =~= en0.subrange(
                            0,
                            p,
                        )) by {
                            assert forall|k: int| 0 <= k < p implies #[trigger] state.corpus.enabled_seq().subrange(
                                0,
                                p,
                            )[k] == en0.subrange(0, p)[k] by {
                                assert(state.corpus.enabled_seq()[k]
                                    == corpus_before.enabled_seq()[k]);
                                if i as int + 1 >= n_en {
                                    assert(corpus_before.enabled_seq() == en0);
                                } else {
                                    assert(corpus_before.enabled_seq().subrange(
                                        0,
                                        i as int + 1,
                                    )[k] == en0.subrange(0, i as int + 1)[k]);
                                }
                            }
                        }
                        assert forall|j: int|
                            0 <= j < en0.len() && (j < i as int || entry_kept(
                                #[trigger] en0[j],
                                cur,
                                s0,
                                prob_g,
                                n,
                                j,
                            )) implies state.corpus.enabled_seq().contains(en0[j]) by {
                            assert(corpus_before.enabled_seq().contains(en0[j]));
                            assert(j != p);
                            assert(ids_of(en0)[j] == en0[j].id);
                            assert(ids_of(en0)[p] == en0[p].id);
                            assert(en0[j].id != entry.id);
                            assert(en0[j] != corpus_before.enabled_seq()[rj]);
                            lemma_seq_remove_keeps(corpus_before.enabled_seq(), rj, en0[j]);
                        }
                    }
                }
                if i >= n_enabled {
                    let ghost before_vec = to_enable@;
                    to_enable.push(removed.input);
                    proof {
                        assert(evicted_inputs(
                            dis0,
                            cur,
                            s0,
                            prob_g,
                            n,
                            n_en,
                            p - n_en,
                            dis0.len() as int,
                        ) == evicted_inputs(
                            dis0,
                            cur,
                            s0,
                            prob_g,
                            n,
                            n_en,
                            p - n_en + 1,
                            dis0.len() as int,
                        ) + seq![dis0[p - n_en].testcase.input@]);
                        assert(removed.input@ == dis0[p - n_en].testcase.input@);
                        assert(to_enable@.map_values(|v: Vec<u8>| v@)
                            =~= before_vec.map_values(|v: Vec<u8>| v@) + seq![
                            removed.input@
                        ]);
                        assert(to_enable@.map_values(|v: Vec<u8>| v@) =~= evicted_inputs(
                            dis0,
                            cur,
                            s0,
                            prob_g,
                            n,
                            n_en,
                            p - n_en,
                            dis0.len() as int,
                        ));
                    }
                } else {
                    let ghost before_vec = to_disable@;
                    to_disable.push(removed.input);
                    proof {
                        assert(evicted_inputs(en0, cur, s0, prob_g, n, 0, p, n_en)
                            == evicted_inputs(en0, cur, s0, prob_g, n, 0, p + 1, n_en)
                            + seq![en0[p].testcase.input@]);
                        assert(removed.input@ == en0[p].testcase.input@);
                        assert(to_disable@.map_values(|v: Vec<u8>| v@)
                            =~= before_vec.map_values(|v: Vec<u8>| v@) + seq![
                            removed.input@
                        ]);
                        assert(to_disable@.map_values(|v: Vec<u8>| v@) =~= evicted_inputs(
                            en0,
                            cur,
                            s0,
                            prob_g,
                            n,
                            0,
                            p,
                            n_en,
                        ));
                    }
                }
            } else {
                proof {
                    assert(entry_kept(entry, cur, s0, prob_g, n, p));
                    lemma_processed_kept_contained(state, en0, dis0, p, n_en, i as int);
                }
            }
        }
        let ghost rand_end = state.rand.state_spec();
        let ghost removals_end = fuzzer.scheduler.removals();
        let ghost to_enable_full = to_enable@;
        let ghost to_disable_full = to_disable@;
        proof {
            c0.lemma_wf_parts();
            assert(to_enable_full.subrange(0, to_enable_full.len() as int)
                =~= to_enable_full);
            assert(to_disable_full.subrange(0, to_disable_full.len() as int)
                =~= to_disable_full);
            assert forall|j: int| 0 <= j < en0.len() implies (#[trigger] en0[j]).id.0
                < next0 by {
                assert(c0.all_seq()[j] == en0[j]);
            }
            assert forall|j: int| 0 <= j < dis0.len() implies (#[trigger] dis0[j]).id.0
                < next0 by {
                assert(c0.all_seq()[en0.len() + j] == dis0[j]);
            }
        }
        while to_enable.len() > 0
            invariant
                state.wf(),
                c0.wf(),
                cur == c0.current_spec().unwrap(),
                n == c0.count_all_spec(),
                n <= usize::MAX,
                next0 == c0.next_id_spec(),
                next0 + n <= u64::MAX,
                state.corpus.current_spec() == Some(cur),
                state.corpus.next_id_spec() >= next0,
                state.corpus.next_id_spec() + to_enable@.len() + to_disable@.len() <= next0
                    + n,
                state.corpus.count_all_spec() + to_enable@.len() + to_disable@.len() == n,
                state.max_size == ms0,
                state.clock_ms == clk0,
                state.rand.state_spec() == rand_end,
                fuzzer.scheduler.removals() == removals_end,
                fuzzer.scheduler.cursor_spec() == fuzzer0.scheduler.cursor_spec(),
                to_enable@.len() <= to_enable_full.len(),
                to_enable@ == to_enable_full.subrange(0, to_enable@.len() as int),
                to_disable@ == to_disable_full,
                forall|j: int|
                    0 <= j < en0.len() && entry_kept(#[trigger] en0[j], cur, s0, prob_g, n, j)
                        ==> state.corpus.enabled_seq().contains(en0[j]),
                forall|j: int|
                    0 <= j < en0.len() && !entry_kept(#[trigger] en0[j], cur, s0, prob_g, n, j)
                        ==> !state.corpus.contains_id(en0[j].id),
                forall|j: int|
                    0 <= j < dis0.len() && entry_kept(
                        #[trigger] dis0[j],
                        cur,
                        s0,
                        prob_g,
                        n,
                        n_en + j,
                    ) ==> state.corpus.disabled_seq().contains(dis0[j]),
                forall|j: int|
                    0 <= j < dis0.len() && !entry_kept(
                        #[trigger] dis0[j],
                        cur,
                        s0,
                        prob_g,
                        n,
                        n_en + j,
                    ) ==> !state.corpus.contains_id(dis0[j].id),
                forall|j: int|
                    0 <= j < en0.len() ==> (#[trigger] en0[j]).id.0 < next0,
                forall|j: int|
                    0 <= j < dis0.len() ==> (#[trigger] dis0[j]).id.0 < next0,
                forall|k: int|
                    to_enable@.len() <= k < to_enable_full.len() ==> holds_readded_input(
                        state.corpus.enabled_seq(),
                        (#[trigger] to_enable_full[k])@,
                        next0,
                    ),
                (prob_g == 100 ==> state.corpus == c0 && to_enable@.len() == 0
                    && to_disable@.len() == 0),
            decreases to_enable@.len(),
        {
            let ghost en_before = state.corpus.enabled_seq();
            let input = match to_enable.pop() {
                Some(v) => v,
                None => {
                    proof {
                        assert(false);
                    }
                    vstd::pervasive::unreached::<Vec<u8>>()
                },
            };
            proof {
                let nl = to_enable@.len() as int;
                assert(to_enable_full.subrange(0, nl + 1)[nl] == to_enable_full[nl]);
                assert(input == to_enable_full[nl]);
                assert(to_enable@ =~= to_enable_full.subrange(0, nl));
            }
            match fuzzer.add_input(state, input) {
                Ok(id) => {
                    proof {
                        let en_after = state.corpus.enabled_seq();
                        assert(en_after == en_before.push(en_after.last()));
                        assert(en_after.last().testcase.input@ == to_enable_full[
                            to_enable@.len() as int
                        ]@);
                        assert(en_after.last().id.0 >= next0);
                        assert forall|j: int|
                            0 <= j < en0.len() && entry_kept(
                                #[trigger] en0[j],
                                cur,
                                s0,
                                prob_g,
                                n,
                                j,
                            ) implies en_after.contains(en0[j]) by {
                            lemma_seq_push_keeps(en_before, en0[j], en_after.last());
                        }
                        assert forall|j: int|
                            0 <= j < en0.len() && !entry_kept(
                                #[trigger] en0[j],
                                cur,
                                s0,
                                prob_g,
                                n,
                                j,
                            ) implies !state.corpus.contains_id(en0[j].id) by {
                            assert(en0[j].id != id);
                        }
                        assert forall|j: int|
                            0 <= j < dis0.len() && !entry_kept(
                                #[trigger] dis0[j],
                                cur,
                                s0,
                                prob_g,
                                n,
                                n_en + j,
                            ) implies !state.corpus.contains_id(dis0[j].id) by {
                            assert(dis0[j].id != id);
                        }
                        assert forall|k: int|
                            to_enable@.len() <= k < to_enable_full.len() implies holds_readded_input(
                            en_after,
                            (#[trigger] to_enable_full[k])@,
                            next0,
                        ) by {
                            if k == to_enable@.len() {
                                assert(en_after[en_after.len() - 1].testcase.input@
                                    == to_enable_full[k]@);
                                assert(en_after[en_after.len() - 1].id.0 >= next0);
                            } else {
                                assert(holds_readded_input(
                                    en_before,
                                    to_enable_full[k]@,
                                    next0,
                                ));
                                let e2 = choose|e2: int|
                                    0 <= e2 < en_before.len() && (#[trigger] en_before[e2]).testcase.input@
                                        == to_enable_full[k]@ && en_before[e2].id.0
                                        >= next0;
                                assert(en_after[e2] == en_before[e2]);
                                assert(en_after[e2].testcase.input@ == to_enable_full[k]@);
                            }
                        }
                    }
                    id
                },
                Err(_) => {
                    proof {
                        assert(false);
                    }
                    vstd::pervasive::unreached::<SeedId>()
                },
            };
        }

        while to_disable.len() > 0
            invariant
                state.wf(),
                c0.wf(),
                cur == c0.current_spec().unwrap(),
                n == c0.count_all_spec(),
                n <= usize::MAX,
                next0 == c0.next_id_spec(),
                next0 + n <= u64::MAX,
                state.corpus.current_spec() == Some(cur),
                state.corpus.next_id_spec() >= next0,
                state.corpus.next_id_spec() + to_disable@.len() <= next0 + n,
                state.corpus.count_all_spec() + to_disable@.len() == n,
                state.max_size == ms0,
                state.clock_ms == clk0,
                state.rand.state_spec() == rand_end,
                fuzzer.scheduler.removals() == removals_end,
                fuzzer.scheduler.cursor_spec() == fuzzer0.scheduler.cursor_spec(),
                to_disable@.len() <= to_disable_full.len(),
                to_disable@ == to_disable_full.subrange(0, to_disable@.len() as int),
                forall|j: int|
                    0 <= j < en0.len() && entry_kept(#[trigger] en0[j], cur, s0, prob_g, n, j)
                        ==> state.corpus.enabled_seq().contains(en0[j]),
                forall|j: int|
                    0 <= j < en0.len() && !entry_kept(#[trigger] en0[j], cur, s0, prob_g, n, j)
                        ==> !state.corpus.contains_id(en0[j].id),
                forall|j: int|
                    0 <= j < dis0.len() && entry_kept(
                        #[trigger] dis0[j],
                        cur,
                        s0,
                        prob_g,
                        n,
                        n_en + j,
                    ) ==> state.corpus.disabled_seq().contains(dis0[j]),
                forall|j: int|
                    0 <= j < dis0.len() && !entry_kept(
                        #[trigger] dis0[j],
                        cur,
                        s0,
                        prob_g,
                        n,
                        n_en + j,
                    ) ==> !state.corpus.contains_id(dis0[j].id),
                forall|j: int|
                    0 <= j < en0.len() ==> (#[trigger] en0[j]).id.0 < next0,
                forall|j: int|
                    0 <= j < dis0.len() ==> (#[trigger] dis0[j]).id.0 < next0,
                forall|k: int|
                    0 <= k < to_enable_full.len() ==> holds_readded_input(
                        state.corpus.enabled_seq(),
                        (#[trigger] to_enable_full[k])@,
                        next0,
                    ),
                forall|k: int|
                    to_disable@.len() <= k < to_disable_full.len() ==> holds_readded_input(
                        state.corpus.disabled_seq(),
                        (#[trigger] to_disable_full[k])@,
                        next0,
                    ),
                (prob_g == 100 ==> state.corpus == c0 && to_disable@.len() == 0),
            decreases to_disable@.len(),
        {
            let ghost dis_before = state.corpus.disabled_seq();
            let ghost en_keep = state.corpus.enabled_seq();
            let input = match to_disable.pop() {
                Some(v) => v,
                None => {
                    proof {
                        assert(false);
                    }
                    vstd::pervasive::unreached::<Vec<u8>>()
                },
            };
            proof {
                let nl = to_disable@.len() as int;
                assert(to_disable_full.subrange(0, nl + 1)[nl] == to_disable_full[nl]);
                assert(input == to_disable_full[nl]);
                assert(to_disable@ =~= to_disable_full.subrange(0, nl));
            }
            match fuzzer.add_disabled_input(state, input) {
                Ok(id) => {
                    proof {
                        let dis_after = state.corpus.disabled_seq();
                        assert(dis_after == dis_before.push(dis_after.last()));
                        assert(dis_after.last().testcase.input@ == to_disable_full[
                            to_disable@.len() as int
                        ]@);
                        assert(dis_after.last().id.0 >= next0);
                        assert forall|j: int|
                            0 <= j < dis0.len() && entry_kept(
                                #[trigger] dis0[j],
                                cur,
                                s0,
                                prob_g,
                                n,
                                n_en + j,
                            ) implies dis_after.contains(dis0[j]) by {
                            lemma_seq_push_keeps(dis_before, dis0[j], dis_after.last());
                        }
                        assert forall|j: int|
                            0 <= j < en0.len() && !entry_kept(
                                #[trigger] en0[j],
                                cur,
                                s0,
                                prob_g,
                                n,
                                j,
                            ) implies !state.corpus.contains_id(en0[j].id) by {
                            assert(en0[j].id != id);
                        }
                        assert forall|j: int|
                            0 <= j < dis0.len() && !entry_kept(
                                #[trigger] dis0[j],
                                cur,
                                s0,
                                prob_g,
                                n,
                                n_en + j,
                            ) implies !state.corpus.contains_id(dis0[j].id) by {
                            assert(dis0[j].id != id);
                        }
                        assert(state.corpus.enabled_seq() == en_keep);
                        assert forall|k: int|
                            to_disable@.len() <= k < to_disable_full.len() implies holds_readded_input(
                            dis_after,
                            (#[trigger] to_disable_full[k])@,
                            next0,
                        ) by {
                            if k == to_disable@.len() {
                                assert(dis_after[dis_after.len() - 1].testcase.input@
                                    == to_disable_full[k]@);
                                assert(dis_after[dis_after.len() - 1].id.0 >= next0);
                            } else {
                                assert(holds_readded_input(
                                    dis_before,
                                    to_disable_full[k]@,
                                    next0,
                                ));
                                let e2 = choose|e2: int|
                                    0 <= e2 < dis_before.len() && (#[trigger] dis_before[e2]).testcase.input@
                                        == to_disable_full[k]@ && dis_before[e2].id.0
                                        >= next0;
                                assert(dis_after[e2] == dis_before[e2]);
                                assert(dis_after[e2].testcase.input@ == to_disable_full[k]@);
                            }
                        }
                    }
                    id
                },
                Err(_) => {
                    proof {
                        assert(false);
                    }
                    vstd::pervasive::unreached::<SeedId>()
                },
            };
        }
        proof {
            assert(to_enable_full.map_values(|v: Vec<u8>| v@) == evicted_inputs(
                dis0,
                cur,
                s0,
                prob_g,
                n,
                n_en,
                0,
                dis0.len() as int,
            ));
            assert(to_disable_full.map_values(|v: Vec<u8>| v@) == evicted_inputs(
                en0,
                cur,
                s0,
                prob_g,
                n,
                0,
                0,
                n_en,
            ));
            let dviews = to_disable_full.map_values(|v: Vec<u8>| v@);
            let eviews = to_enable_full.map_values(|v: Vec<u8>| v@);
            assert forall|j: int|
                0 <= j < en0.len() && !entry_kept(#[trigger] en0[j], cur, s0, prob_g, n, j)
                implies holds_readded_input(
                state.corpus.disabled_seq(),
                en0[j].testcase.input@,
                next0,
            ) by {
                lemma_evicted_inputs_member(en0, cur, s0, prob_g, n, 0, 0, n_en, j);
                assert(dviews.contains(en0[j].testcase.input@));
                let k = choose|k: int| 0 <= k < dviews.len() && dviews[k] == en0[j].testcase.input@;
                assert(to_disable_full[k]@ == dviews[k]);
                assert(holds_readded_input(
                    state.corpus.disabled_seq(),
                    to_disable_full[k]@,
                    next0,
                ));
            }
            assert forall|j: int|
                0 <= j < dis0.len() && !entry_kept(
                    #[trigger] dis0[j],
                    cur,
                    s0,
                    prob_g,
                    n,
                    n_en + j,
                ) implies holds_readded_input(
                state.corpus.enabled_seq(),
                dis0[j].testcase.input@,
                next0,
            ) by {
                lemma_evicted_inputs_member(dis0, cur, s0, prob_g, n, n_en, 0, dis0.len() as int, j);
                assert(eviews.contains(dis0[j].testcase.input@));
                let k = choose|k: int| 0 <= k < eviews.len() && eviews[k] == dis0[j].testcase.input@;
                assert(to_enable_full[k]@ == eviews[k]);
                assert(holds_readded_input(
                    state.corpus.enabled_seq(),
                    to_enable_full[k]@,
                    next0,
                ));
            }
        }
        Ok(())
    }

    /// Pruning never touches the target, so a kill-and-relaunch needs no
    /// cleanup: restarting is unconditionally safe and nothing changes.
    fn should_restart(&mut self, state: &mut FuzzState) -> (r: Result<bool, Error>)
        ensures
            (r matches Ok(b) && b),
            *final(state) == *old(state),
            *final(self) == *old(self),
    {
        Ok(true)
    }

    /// There is no persisted partial progress to reset.
    fn clear_progress(&mut self, state: &mut FuzzState) -> (r: Result<(), Error>)
        ensures
            r is Ok,
            *final(state) == *old(state),
            *final(self) == *old(self),
    {
        Ok(())
    }
}

/// A processed position whose entry stays keeps standing in its partition:
/// the partition still holds the entry the position carried.
proof fn lemma_processed_kept_contained(
    state: &FuzzState,
    en0: Seq<CorpusEntry>,
    dis0: Seq<CorpusEntry>,
    p: int,
    n_en: int,
    i: int,
)
    requires
        p == i,
        0 <= p,
        p >= n_en ==> (p - n_en < dis0.len() && state.corpus.disabled_seq().len() > p - n_en
            && state.corpus.disabled_seq()[p - n_en] == dis0[p - n_en]),
        p < n_en ==> (p < en0.len() && state.corpus.enabled_seq().len() > p
            && state.corpus.enabled_seq()[p] == en0[p]),
    ensures
        p >= n_en ==> state.corpus.disabled_seq().contains(dis0[p - n_en]),
        p < n_en ==> state.corpus.enabled_seq().contains(en0[p]),
{
    if p >= n_en {
        assert(state.corpus.disabled_seq().contains(state.corpus.disabled_seq()[p - n_en]));
    } else {
        assert(state.corpus.enabled_seq().contains(state.corpus.enabled_seq()[p]));
    }
}

} // verus!
