//! Feedbacks: the policy components that judge whether one execution's
//! observations justify corpus admission, and the crash-cause classifier
//! that names solutions.

use vstd::prelude::*;
use crate::ExitKind;
use crate::errors::Error;
use crate::corpus::Testcase;
use crate::novelty::sat_add_u64;
use crate::store::NamedMetadataStore;

verus! {

/// How much wall-clock time must pass between two aggregate reports of a
/// telemetry channel, in milliseconds.
pub const PROGRESS_UPDATE_INTERVAL_MS: u64 = 15000;

/// The values of one observation that a persisted history has not seen.
pub open spec fn novel_values(hist: Set<u64>, observed: Seq<u64>) -> Set<u64> {
    observed.to_set().difference(hist)
}

/// The novel values of one observation, each once, in observation order.
pub open spec fn novel_seq(hist: Set<u64>, observed: Seq<u64>) -> Seq<u64>
    decreases observed.len(),
{
    if observed.len() == 0 {
        Seq::empty()
    } else {
        let pre = novel_seq(hist, observed.drop_last());
        let v = observed.last();
        if hist.contains(v) || pre.contains(v) {
            pre
        } else {
            pre.push(v)
        }
    }
}

/// The novel sequence holds exactly the observed values outside the history,
/// each once.
pub proof fn lemma_novel_seq(hist: Set<u64>, observed: Seq<u64>)
    ensures
        novel_seq(hist, observed).no_duplicates(),
        forall|x: u64| #[trigger] novel_seq(hist, observed).contains(x) == (observed.contains(
            x,
        ) && !hist.contains(x)),
    decreases observed.len(),
{
    if observed.len() == 0 {
    } else {
        let dl = observed.drop_last();
        let v = observed.last();
        let pre = novel_seq(hist, dl);
        lemma_novel_seq(hist, dl);
        assert(observed =~= dl.push(v));
        lemma_push_contains_u64(dl, v);
        if !(hist.contains(v) || pre.contains(v)) {
            lemma_push_contains_u64(pre, v);
            lemma_push_no_dup_u64(pre, v);
        }
    }
}

/// Appending one element adds exactly it to the members of a sequence.
proof fn lemma_push_contains_u64(s: Seq<u64>, v: u64)
    ensures
        forall|x: u64| #[trigger] s.push(v).contains(x) == (s.contains(x) || x == v),
{
    assert forall|x: u64| #[trigger] s.push(v).contains(x) == (s.contains(x) || x == v) by {
        if s.push(v).contains(x) {
            let j = choose|j: int| 0 <= j < s.push(v).len() && s.push(v)[j] == x;
            if j < s.len() {
                assert(s.contains(s[j]));
            }
        }
        if s.contains(x) {
            let j = choose|j: int| 0 <= j < s.len() && s[j] == x;
            assert(s.push(v)[j] == x);
        }
        if x == v {
            assert(s.push(v)[s.len() as int] == v);
        }
    }
}

/// Appending a fresh element keeps a sequence duplicate-free.
proof fn lemma_push_no_dup_u64(s: Seq<u64>, v: u64)
    requires
        s.no_duplicates(),
        !s.contains(v),
    ensures
        s.push(v).no_duplicates(),
{
    assert forall|i: int, j: int|
        0 <= i < s.push(v).len() && 0 <= j < s.push(v).len() && i != j implies s.push(v)[i]
        != s.push(v)[j] by {
        if i == s.len() {
            assert(s.contains(s[j]));
        } else if j == s.len() {
            assert(s.contains(s[i]));
        }
    }
}

/// Whether enough wall-clock time has passed since the last report.
pub open spec fn progress_due(last: Option<u64>, now: u64) -> bool {
    match last {
        Some(t) => now - t > PROGRESS_UPDATE_INTERVAL_MS,
        None => false,
    }
}

/// Whether a sequence holds a value.
fn vec_contains_u64(s: &Vec<u64>, v: u64) -> (r: bool)
    ensures
        r == s@.contains(v),
{
    let mut i: usize = 0;
    while i < s.len()
        invariant
            i <= s@.len(),
            forall|k: int| 0 <= k < i ==> s@[k] != v,
        decreases s@.len() - i,
    {
        if s[i] == v {
            return true;
        }
        i = i + 1;
    }
    proof {
        if s@.contains(v) {
            let k = choose|k: int| 0 <= k < s@.len() && s@[k] == v;
        }
    }
    false
}

/// Fold a batch of values into the record at one store position: every value
/// becomes part of the record's set, and the running counter grows by the
/// number of values that were genuinely new.
fn fold_novelty(novelty: &Vec<u64>, store: &mut NamedMetadataStore, idx: usize)
    requires
        old(store).wf(),
        idx < old(store).entries_seq().len(),
    ensures
        final(store).wf(),
        final(store).entries_seq().len() == old(store).entries_seq().len(),
        final(store).names() =~= old(store).names(),
        forall|k: int|
            0 <= k < old(store).entries_seq().len() && k != idx
                ==> #[trigger] final(store).entries_seq()[k] == old(store).entries_seq()[k],
        final(store).entries_seq()[idx as int].name == old(store).entries_seq()[
            idx as int
        ].name,
        final(store).entries_seq()[idx as int].meta.values() == old(store).entries_seq()[
            idx as int
        ].meta.values().union(novelty@.to_set()),
        final(store).entries_seq()[idx as int].meta.counter_spec() == sat_add_u64(
            old(store).entries_seq()[idx as int].meta.counter_spec(),
            novelty@.to_set().difference(
                old(store).entries_seq()[idx as int].meta.values(),
            ).len() as int,
        ),
        final(store).entries_seq()[idx as int].meta.refcnt_spec() == old(
            store,
        ).entries_seq()[idx as int].meta.refcnt_spec(),
{
    let ghost store0 = *store;
    let ghost values0 = store0.entries_seq()[idx as int].meta.values();
    let ghost counter0 = store0.entries_seq()[idx as int].meta.counter_spec();
    let mut j: usize = 0;
    let ghost mut dnew: Set<u64> = Set::empty();
    proof {
        store0.entries_seq()[idx as int].meta.lemma_counter_in_range();
        assert(novelty@.take(0).to_set() =~= Set::<u64>::empty());
        assert(values0.union(novelty@.take(0).to_set()) =~= values0);
        assert(novelty@.take(0).to_set().difference(values0) =~= Set::<u64>::empty());
        assert(Set::<u64>::empty().len() == 0);
    }
    while j < novelty.len()
        invariant
            store.wf(),
            j <= novelty@.len(),
            idx < store.entries_seq().len(),
            store.entries_seq().len() == store0.entries_seq().len(),
            values0 == store0.entries_seq()[idx as int].meta.values(),
            counter0 == store0.entries_seq()[idx as int].meta.counter_spec(),
            0 <= counter0 <= u64::MAX,
            store.names() =~= store0.names(),
            forall|k: int|
                0 <= k < store0.entries_seq().len() && k != idx
                    ==> #[trigger] store.entries_seq()[k] == store0.entries_seq()[k],
            store.entries_seq()[idx as int].name == store0.entries_seq()[idx as int].name,
            store.entries_seq()[idx as int].meta.values() == values0.union(
                novelty@.take(j as int).to_set(),
            ),
            dnew == novelty@.take(j as int).to_set().difference(values0),
            dnew.finite(),
            store.entries_seq()[idx as int].meta.counter_spec() == sat_add_u64(
                counter0,
                dnew.len() as int,
            ),
            store.entries_seq()[idx as int].meta.refcnt_spec() == store0.entries_seq()[
                idx as int
            ].meta.refcnt_spec(),
        decreases novelty@.len() - j,
    {
        let v = novelty[j];
        let ghost tkj = novelty@.take(j as int);
        proof {
            assert(novelty@.take(j as int + 1) =~= tkj.push(v));
            lemma_push_contains_u64(tkj, v);
            assert forall|x: u64| #[trigger] novelty@.take(j as int + 1).to_set().contains(x)
                == (tkj.to_set().contains(x) || x == v) by {}
        }
        if !store.meta_at(idx).contains(v) {
            store.record_novel_at(idx, v);
            proof {
                assert(!dnew.contains(v));
                dnew = dnew.insert(v);
                assert(novelty@.take(j as int + 1).to_set().difference(values0) =~= dnew);
                assert(store.entries_seq()[idx as int].meta.values() =~= values0.union(
                    novelty@.take(j as int + 1).to_set(),
                ));
            }
        } else {
            proof {
                assert(novelty@.take(j as int + 1).to_set().difference(values0) =~= dnew);
                assert(store.entries_seq()[idx as int].meta.values() =~= values0.union(
                    novelty@.take(j as int + 1).to_set(),
                ));
            }
        }
        j = j + 1;
    }
    proof {
        assert(novelty@.take(novelty@.len() as int) =~= novelty@);
    }
}

/// Consider an execution interesting when its named observation channel
/// shows values never observed before.
pub struct ListFeedback {
    name: String,
    observer_name: String,
    novelty: Vec<u64>,
    never_corpus: bool,
    last_progress: Option<u64>,
}

impl ListFeedback {
    /// The name of this feedback, which keys its persisted metadata.
    pub closed spec fn name_spec(&self) -> Seq<char> {
        self.name@
    }

    /// The name of the observation channel this feedback reads.
    pub closed spec fn observer_name_spec(&self) -> Seq<char> {
        self.observer_name@
    }

    /// The novel values that the last judged execution showed.
    pub closed spec fn novelty_seq(&self) -> Seq<u64> {
        self.novelty@
    }

    /// Whether this feedback never promotes inputs to the corpus.
    pub closed spec fn never_corpus_spec(&self) -> bool {
        self.never_corpus
    }

    /// When the channel was last reported, if ever.
    pub closed spec fn last_progress_spec(&self) -> Option<u64> {
        self.last_progress
    }

    /// Build a feedback reading the named observation channel.
    pub fn new(observer_name: &str) -> (r: ListFeedback)
        ensures
            r.name_spec() == observer_name@,
            r.observer_name_spec() == observer_name@,
            r.novelty_seq() == Seq::<u64>::empty(),
            !r.never_corpus_spec(),
            r.last_progress_spec() is None,
    {
        ListFeedback {
            name: observer_name.to_owned(),
            observer_name: observer_name.to_owned(),
            novelty: Vec::new(),
            never_corpus: false,
            last_progress: None,
        }
    }

    /// The name of this feedback.
    pub fn name(&self) -> (r: &str)
        ensures
            r@ == self.name_spec(),
    {
        self.name.as_str()
    }

    /// The name of this feedback, as the store's key type.
    pub(crate) fn name_key(&self) -> (r: &String)
        ensures
            r@ == self.name_spec(),
    {
        &self.name
    }

    /// Whether this feedback is in never-corpus mode.
    pub fn never_corpus(&self) -> (r: bool)
        ensures
            r == self.never_corpus_spec(),
    {
        self.never_corpus
    }

    /// Never save a corpus entry on account of this feedback: novel values
    /// are folded into metadata immediately and the verdict is forced to
    /// false, so the channel serves telemetry only.
    pub fn set_never_corpus(&mut self)
        ensures
            final(self).never_corpus_spec(),
            final(self).name_spec() == old(self).name_spec(),
            final(self).observer_name_spec() == old(self).observer_name_spec(),
            final(self).novelty_seq() == old(self).novelty_seq(),
            final(self).last_progress_spec() == old(self).last_progress_spec(),
    {
        self.never_corpus = true;
    }

    /// Install this feedback's fresh metadata record into the store.
    pub fn init_state(&mut self, store: &mut NamedMetadataStore) -> (r: Result<(), Error>)
        requires
            old(store).wf(),
            old(store).entries_seq().len() < usize::MAX,
        ensures
            r is Ok,
            final(store).wf(),
            *final(self) == *old(self),
            final(store).has_name(old(self).name_spec()),
            final(store).meta_of(old(self).name_spec()).values() == Set::<u64>::empty(),
            final(store).meta_of(old(self).name_spec()).refcnt_spec() == 0,
    {
        let i = store.set_default(&self.name);
        proof {
            store.lemma_name_index(i as int);
        }
        Ok(())
    }

    /// Whether enough time has passed to report the channel again; arms the
    /// clock on the first call.
    fn update_progress(&mut self, now_ms: u64) -> (r: bool)
        ensures
            r == progress_due(old(self).last_progress_spec(), now_ms),
            final(self).last_progress_spec() == if old(self).last_progress_spec() is None
                || r {
                Some(now_ms)
            } else {
                old(self).last_progress_spec()
            },
            final(self).name_spec() == old(self).name_spec(),
            final(self).observer_name_spec() == old(self).observer_name_spec(),
            final(self).novelty_seq() == old(self).novelty_seq(),
            final(self).never_corpus_spec() == old(self).never_corpus_spec(),
    {
        match self.last_progress {
            None => {
                self.last_progress = Some(now_ms);
                false
            },
            Some(t) => {
                let elapsed = if now_ms >= t {
                    now_ms - t
                } else {
                    0
                };
                if elapsed > PROGRESS_UPDATE_INTERVAL_MS {
                    self.last_progress = Some(now_ms);
                    true
                } else {
                    false
                }
            },
        }
    }

    /// Judge one execution from the values its observation channel exposed.
    ///
    /// The verdict is true exactly when the channel shows values its
    /// persisted history has not seen — unless this feedback is in
    /// never-corpus mode, in which case the novel values are folded into the
    /// history immediately, the verdict is forced to false, and the running
    /// counter is handed out for a rate-limited aggregate report.
    ///
    /// In the default mode the history is left untouched: nothing is
    /// persisted for a candidate that may still be rejected.
    pub fn is_interesting(
        &mut self,
        store: &mut NamedMetadataStore,
        observed: &Vec<u64>,
        now_ms: u64,
    ) -> (r: Result<(bool, Option<u64>), Error>)
        requires
            old(store).wf(),
        ensures
            final(store).wf(),
            r is Ok <==> old(store).has_name(old(self).name_spec()),
            r is Err ==> *final(store) == *old(store) && *final(self) == *old(self),
            r matches Err(e) ==> e is NotFound,
            final(self).name_spec() == old(self).name_spec(),
            final(self).observer_name_spec() == old(self).observer_name_spec(),
            final(self).never_corpus_spec() == old(self).never_corpus_spec(),
            r matches Ok((interesting, report)) ==> {
                let hist = old(store).meta_of(old(self).name_spec()).values();
                let nov = novel_seq(hist, observed@);
                &&& final(self).novelty_seq() == nov
                &&& (!old(self).never_corpus_spec() ==> {
                    &&& interesting == (nov.len() != 0)
                    &&& *final(store) == *old(store)
                    &&& report is None
                    &&& final(self).last_progress_spec() == old(self).last_progress_spec()
                })
                &&& (old(self).never_corpus_spec() ==> {
                    &&& !interesting
                    &&& final(store).names() =~= old(store).names()
                    &&& final(store).meta_of(old(self).name_spec()).values()
                        == hist.union(nov.to_set())
                    &&& final(store).meta_of(old(self).name_spec()).counter_spec()
                        == sat_add_u64(
                        old(store).meta_of(old(self).name_spec()).counter_spec(),
                        nov.len() as int,
                    )
                    &&& final(store).meta_of(old(self).name_spec()).refcnt_spec() == old(
                        store,
                    ).meta_of(old(self).name_spec()).refcnt_spec()
                    &&& forall|k: int|
                        0 <= k < old(store).entries_seq().len() && k != old(
                            store,
                        ).name_index(old(self).name_spec())
                            ==> #[trigger] final(store).entries_seq()[k] == old(
                            store,
                        ).entries_seq()[k]
                    &&& report == (if progress_due(old(self).last_progress_spec(), now_ms) {
                        Some(
                            final(store).meta_of(old(self).name_spec()).counter_spec() as u64,
                        )
                    } else {
                        None::<u64>
                    })
                })
            },
    {
        let ghost store0 = *store;
        let ghost self0 = *self;
        let idx = match store.index_of(&self.name) {
            Some(i) => i,
            None => {
                return Err(Error::not_found("no novelty metadata under this feedback name"));
            },
        };
        proof {
            store0.lemma_name_index(idx as int);
        }
        let ghost hist = store0.entries_seq()[idx as int].meta.values();
        self.novelty.clear();
        let mut k: usize = 0;
        while k < observed.len()
            invariant
                store.wf(),
                *store == store0,
                idx < store.entries_seq().len(),
                hist == store.entries_seq()[idx as int].meta.values(),
                k <= observed@.len(),
                self.novelty@ == novel_seq(hist, observed@.take(k as int)),
                self.name == self0.name,
                self.observer_name == self0.observer_name,
                self.never_corpus == self0.never_corpus,
                self.last_progress == self0.last_progress,
            decreases observed@.len() - k,
        {
            let v = observed[k];
            proof {
                let tk = observed@.take(k as int);
                let tk1 = observed@.take(k as int + 1);
                assert(tk1.drop_last() =~= tk);
                assert(tk1.last() == observed@[k as int]);
            }
            if !store.meta_at(idx).contains(v) && !vec_contains_u64(&self.novelty, v) {
                self.novelty.push(v);
            }
            k = k + 1;
        }
        proof {
            assert(observed@.take(observed@.len() as int) =~= observed@);
        }
        let ghost nov = novel_seq(hist, observed@);
        let mut interesting = self.novelty.len() > 0;
        proof {
            if self.novelty@.len() == 0 {
                assert(nov.len() == 0);
            }
        }
        let mut report: Option<u64> = None;
        if interesting && self.never_corpus {
            proof {
                lemma_novel_seq(hist, observed@);
            }
            fold_novelty(&self.novelty, store, idx);
            proof {
                assert(nov.to_set().difference(hist) =~= nov.to_set());
                nov.unique_seq_to_set();
            }
            interesting = false;
        }
        if self.never_corpus {
            let due = self.update_progress(now_ms);
            if due {
                let seen = store.meta_at(idx).counter();
                report = Some(seen);
            }
        }
        proof {
            store.lemma_name_index(idx as int);
            store0.lemma_name_index(idx as int);
            store0.entries_seq()[idx as int].meta.lemma_counter_in_range();
            if self.never_corpus && nov.len() == 0 {
                lemma_novel_seq(hist, observed@);
                assert(hist.union(nov.to_set()) =~= hist);
                nov.unique_seq_to_set();
            }
            assert(self.novelty@ == nov);
            assert(store0.meta_of(self0.name@).values() == hist);
            assert(store0.name_index(self0.name@) == idx);
            if !self.never_corpus {
                assert(*store == store0);
                assert(interesting == (nov.len() != 0));
                assert(report is None);
            } else {
                assert(!interesting);
                assert(store.entries_seq()[idx as int].meta.values() == hist.union(
                    nov.to_set(),
                ));
                assert(store.meta_of(self0.name@).values() == hist.union(nov.to_set()));
                assert(store.meta_of(self0.name@).counter_spec() == sat_add_u64(
                    store0.meta_of(self0.name@).counter_spec(),
                    nov.len() as int,
                ));
                assert(report == (if progress_due(self0.last_progress, now_ms) {
                    Some(store.meta_of(self0.name@).counter_spec() as u64)
                } else {
                    None::<u64>
                }));
            }
        }
        Ok((interesting, report))
    }

    /// Fold the novelty of the last judged execution into the persisted
    /// history.  Called only once the candidate is confirmed added to the
    /// corpus, so rejected candidates leave no trace; in never-corpus mode
    /// the fold already happened and this is a no-op.
    pub fn append_metadata(&mut self, store: &mut NamedMetadataStore) -> (r: Result<
        (),
        Error,
    >)
        requires
            old(store).wf(),
        ensures
            final(store).wf(),
            *final(self) == *old(self),
            r is Ok <==> (old(self).never_corpus_spec() || old(store).has_name(
                old(self).name_spec(),
            )),
            r matches Err(e) ==> e is NotFound && *final(store) == *old(store),
            old(self).never_corpus_spec() ==> *final(store) == *old(store),
            (!old(self).never_corpus_spec() && r is Ok) ==> {
                let name = old(self).name_spec();
                let hist = old(store).meta_of(name).values();
                &&& final(store).names() =~= old(store).names()
                &&& final(store).meta_of(name).values() == hist.union(
                    old(self).novelty_seq().to_set(),
                )
                &&& final(store).meta_of(name).counter_spec() == sat_add_u64(
                    old(store).meta_of(name).counter_spec(),
                    old(self).novelty_seq().to_set().difference(hist).len() as int,
                )
                &&& final(store).meta_of(name).refcnt_spec() == old(store).meta_of(
                    name,
                ).refcnt_spec()
                &&& forall|k: int|
                    0 <= k < old(store).entries_seq().len() && k != old(store).name_index(name)
                        ==> #[trigger] final(store).entries_seq()[k] == old(
                        store,
                    ).entries_seq()[k]
            },
    {
        if self.never_corpus {
            return Ok(());
        }
        let ghost store0 = *store;
        let idx = match store.index_of(&self.name) {
            Some(i) => i,
            None => {
                return Err(Error::not_found("no novelty metadata under this feedback name"));
            },
        };
        proof {
            store0.lemma_name_index(idx as int);
        }
        fold_novelty(&self.novelty, store, idx);
        proof {
            store.lemma_name_index(idx as int);
        }
        Ok(())
    }
}

/// The crash classification attached to a solution testcase.
#[derive(Clone, Copy, Debug)]
pub struct LibfuzzerCrashCauseMetadata {
    kind: ExitKind,
}

impl LibfuzzerCrashCauseMetadata {
    /// The classified exit kind.
    pub closed spec fn kind_spec(&self) -> ExitKind {
        self.kind
    }

    /// Build a record for one exit kind.
    pub fn with_kind(kind: ExitKind) -> (r: LibfuzzerCrashCauseMetadata)
        ensures
            r.kind_spec() == kind,
    {
        LibfuzzerCrashCauseMetadata { kind }
    }

    /// The classified exit kind.
    pub fn kind(&self) -> (r: ExitKind)
        ensures
            r == self.kind_spec(),
    {
        self.kind
    }
}

/// Relies on `String::push_str`: appends the suffix's characters.
#[verifier::external_body]
fn string_push_str(s: &mut String, t: &str)
    ensures
        final(s)@ == old(s)@ + t@,
{
    s.push_str(t)
}

/// The concatenation of a prefix and a name.
fn prefixed(prefix: &str, rest: &str) -> (r: String)
    ensures
        r@ == prefix@ + rest@,
{
    let mut s = prefix.to_owned();
    string_push_str(&mut s, rest);
    s
}

/// A feedback wired to an out-of-band keep flag that the harness sets while
/// the target runs.
pub struct LibfuzzerKeepFeedback {
    keep: bool,
}

impl LibfuzzerKeepFeedback {
    /// Whether the harness asked to keep the last input.
    pub closed spec fn keep_spec(&self) -> bool {
        self.keep
    }

    /// Build the feedback, with the flag down.
    pub fn new() -> (r: LibfuzzerKeepFeedback)
        ensures
            !r.keep_spec(),
    {
        LibfuzzerKeepFeedback { keep: false }
    }

    /// The keep flag.
    pub fn keep(&self) -> (r: bool)
        ensures
            r == self.keep_spec(),
    {
        self.keep
    }

    /// Raise or lower the keep flag; the harness does this from within one
    /// execution.
    pub fn set_keep(&mut self, keep: bool)
        ensures
            final(self).keep_spec() == keep,
    {
        self.keep = keep;
    }

    /// The interestingness judgment mirrors the keep flag.
    pub fn is_interesting(&self) -> (r: bool)
        ensures
            r == self.keep_spec(),
    {
        self.keep
    }
}

/// A feedback observing only the exit kind of each execution.  It never
/// makes an admission decision itself; once a testcase is confirmed to be a
/// solution it attaches the crash classification and renames the solution's
/// display file.
pub struct LibfuzzerCrashCauseFeedback {
    exit_kind: ExitKind,
}

impl LibfuzzerCrashCauseFeedback {
    /// The exit kind of the last observed execution.
    pub closed spec fn exit_kind_spec(&self) -> ExitKind {
        self.exit_kind
    }

    /// Build the feedback; before any execution the recorded kind is Okay.
    pub fn new() -> (r: LibfuzzerCrashCauseFeedback)
        ensures
            r.exit_kind_spec() == ExitKind::Okay,
    {
        LibfuzzerCrashCauseFeedback { exit_kind: ExitKind::Okay }
    }

    /// Record the exit kind; the verdict is always not-interesting.
    pub fn is_interesting(&mut self, exit_kind: ExitKind) -> (r: bool)
        ensures
            !r,
            final(self).exit_kind_spec() == exit_kind,
    {
        self.exit_kind = exit_kind;
        false
    }

    /// Attach the crash classification to a confirmed solution and prefix
    /// its display filename.
    ///
    /// The classification is applied at most once per testcase: one that
    /// already carries a crash cause — and with it its classification
    /// prefix — is left exactly as it stands.
    ///
    /// An out-of-memory condition independently confirmed by the execution
    /// environment overrides the generic crash classification; it is handed
    /// in as a boolean because its determination lies outside this engine.
    pub fn append_metadata(&mut self, testcase: &mut Testcase, oom_confirmed: bool)
        ensures
            *final(self) == *old(self),
            old(testcase).crash_cause is Some ==> *final(testcase) == *old(testcase),
            final(testcase).input == old(testcase).input,
            final(testcase).contributed_novelty == old(testcase).contributed_novelty,
            old(testcase).crash_cause is None ==> (final(testcase).crash_cause matches Some(
                m,
            ) && m.kind_spec() == classified_kind(old(self).exit_kind_spec(), oom_confirmed)),
            old(testcase).crash_cause is None ==> (match old(testcase).filename {
                Some(f) => (final(testcase).filename matches Some(g) && g@
                    == classified_prefix(old(self).exit_kind_spec(), oom_confirmed) + f@),
                None => final(testcase).filename is None,
            }),
    {
        if testcase.crash_cause.is_some() {
            return ;
        }
        let kind = match self.exit_kind {
            ExitKind::Crash | ExitKind::Oom => {
                if oom_confirmed {
                    ExitKind::Oom
                } else {
                    ExitKind::Crash
                }
            },
            ExitKind::Timeout => ExitKind::Timeout,
            ExitKind::Okay => ExitKind::Okay,
        };
        let new_name: Option<String> = match &testcase.filename {
            Some(f) => {
                let renamed = match self.exit_kind {
                    ExitKind::Crash | ExitKind::Oom => {
                        if oom_confirmed {
                            prefixed("oom-", f.as_str())
                        } else {
                            prefixed("crash-", f.as_str())
                        }
                    },
                    ExitKind::Timeout => prefixed("timeout-", f.as_str()),
                    ExitKind::Okay => prefixed("", f.as_str()),
                };
                Some(renamed)
            },
            None => None,
        };
        testcase.filename = new_name;
        testcase.crash_cause = Some(LibfuzzerCrashCauseMetadata { kind });
    }
}

/// The exit kind a solution is classified under: a confirmed out-of-memory
/// condition wins over a generic crash.
pub open spec fn classified_kind(kind: ExitKind, oom_confirmed: bool) -> ExitKind {
    match kind {
        ExitKind::Crash => if oom_confirmed {
            ExitKind::Oom
        } else {
            ExitKind::Crash
        },
        ExitKind::Oom => if oom_confirmed {
            ExitKind::Oom
        } else {
            ExitKind::Crash
        },
        ExitKind::Timeout => ExitKind::Timeout,
        ExitKind::Okay => ExitKind::Okay,
    }
}

/// The filename prefix a solution receives under each classification.
pub open spec fn classified_prefix(kind: ExitKind, oom_confirmed: bool) -> Seq<char> {
    match kind {
        ExitKind::Crash => if oom_confirmed {
            "oom-"@
        } else {
            "crash-"@
        },
        ExitKind::Oom => if oom_confirmed {
            "oom-"@
        } else {
            "crash-"@
        },
        ExitKind::Timeout => "timeout-"@,
        ExitKind::Okay => ""@,
    }
}

} // verus!
