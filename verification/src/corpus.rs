//! The corpus: an ordered store of seeds addressed by stable identifiers,
//! partitioned into enabled and disabled entries.

use vstd::prelude::*;
use crate::errors::Error;
use crate::feedbacks::LibfuzzerCrashCauseMetadata;

verus! {

/// A stable, monotonically issued identifier of a corpus entry.  An id stays
/// distinct from every id issued later, so references held across removal
/// never collide with a new entry.
#[derive(Clone, Copy, Debug, PartialEq, Eq, Structural, Hash)]
pub struct SeedId(pub u64);

/// One input stored in the corpus, with its associated metadata.
#[derive(Debug)]
pub struct Testcase {
    /// The input payload.
    pub input: Vec<u8>,
    /// An optional display filename.
    pub filename: Option<String>,
    /// The crash classification attached when this entry became a solution.
    pub crash_cause: Option<LibfuzzerCrashCauseMetadata>,
    /// Whether this entry contributed novel values to the novelty metadata
    /// when it was admitted.
    pub contributed_novelty: bool,
}

impl Testcase {
    /// A plain testcase holding an input and nothing else.
    pub fn with_input(input: Vec<u8>) -> (r: Testcase)
        ensures
            r.input == input,
            r.filename is None,
            r.crash_cause is None,
            !r.contributed_novelty,
    {
        Testcase { input, filename: None, crash_cause: None, contributed_novelty: false }
    }
}

/// A corpus entry: a testcase under its stable id.
#[derive(Debug)]
pub struct CorpusEntry {
    /// The stable id of this entry.
    pub id: SeedId,
    /// The stored testcase.
    pub testcase: Testcase,
}

/// The ids of a sequence of entries, in order.
pub open spec fn ids_of(s: Seq<CorpusEntry>) -> Seq<SeedId> {
    s.map_values(|e: CorpusEntry| e.id)
}

/// The store of seeds.  Entries are kept in two ordered partitions; the
/// enabled partition is indexed before the disabled one, so position `i` of
/// the full view is enabled entry `i` when `i` is below the enabled count and
/// a disabled entry otherwise.
pub struct Corpus {
    enabled: Vec<CorpusEntry>,
    disabled: Vec<CorpusEntry>,
    next_id: u64,
    current: Option<SeedId>,
}

impl Corpus {
    /// The enabled partition, in order.
    pub closed spec fn enabled_seq(&self) -> Seq<CorpusEntry> {
        self.enabled@
    }

    /// The disabled partition, in order.
    pub closed spec fn disabled_seq(&self) -> Seq<CorpusEntry> {
        self.disabled@
    }

    /// The id that the next added entry will receive.
    pub closed spec fn next_id_spec(&self) -> u64 {
        self.next_id
    }

    /// The currently selected entry, if any.
    pub closed spec fn current_spec(&self) -> Option<SeedId> {
        self.current
    }

    /// The full view: enabled entries first, then disabled ones.
    pub open spec fn all_seq(&self) -> Seq<CorpusEntry> {
        self.enabled_seq() + self.disabled_seq()
    }

    /// The ids of the enabled partition.
    pub open spec fn enabled_ids(&self) -> Seq<SeedId> {
        ids_of(self.enabled_seq())
    }

    /// The ids of the disabled partition.
    pub open spec fn disabled_ids(&self) -> Seq<SeedId> {
        ids_of(self.disabled_seq())
    }

    /// The ids of every entry.
    pub open spec fn all_ids(&self) -> Seq<SeedId> {
        ids_of(self.all_seq())
    }

    /// Whether an entry with this id is stored, in either partition.
    pub open spec fn contains_id(&self, id: SeedId) -> bool {
        self.all_ids().contains(id)
    }

    /// Whether an entry with this id is stored and enabled.
    pub open spec fn in_enabled(&self, id: SeedId) -> bool {
        self.enabled_ids().contains(id)
    }

    /// Whether an entry with this id is stored and disabled.
    pub open spec fn in_disabled(&self, id: SeedId) -> bool {
        self.disabled_ids().contains(id)
    }

    /// The number of enabled entries.
    pub open spec fn count_enabled_spec(&self) -> int {
        self.enabled_seq().len() as int
    }

    /// The number of disabled entries.
    pub open spec fn count_disabled_spec(&self) -> int {
        self.disabled_seq().len() as int
    }

    /// The number of entries altogether.
    pub open spec fn count_all_spec(&self) -> int {
        self.all_seq().len() as int
    }

    /// Well-formedness: ids are unique and below the next id to issue, the
    /// current selection (if set) is stored, and the partition sizes fit the
    /// machine.
    pub open spec fn wf(&self) -> bool {
        &&& self.all_ids().no_duplicates()
        &&& forall|i: int|
            0 <= i < self.all_seq().len() ==> (#[trigger] self.all_seq()[i]).id.0
                < self.next_id_spec()
        &&& match self.current_spec() {
            Some(c) => self.contains_id(c),
            None => true,
        }
        &&& self.count_all_spec() <= usize::MAX
    }

    /// An empty corpus.
    pub fn new() -> (r: Corpus)
        ensures
            r.wf(),
            r.enabled_seq() == Seq::<CorpusEntry>::empty(),
            r.disabled_seq() == Seq::<CorpusEntry>::empty(),
            r.current_spec() is None,
            r.next_id_spec() == 0,
    {
        Corpus { enabled: Vec::new(), disabled: Vec::new(), next_id: 0, current: None }
    }

    /// The number of enabled entries.
    pub fn count(&self) -> (r: usize)
        ensures
            r == self.count_enabled_spec(),
    {
        self.enabled.len()
    }

    /// The number of disabled entries.
    pub fn count_disabled(&self) -> (r: usize)
        ensures
            r == self.count_disabled_spec(),
    {
        self.disabled.len()
    }

    /// The number of entries altogether: the enabled plus the disabled.
    pub fn count_all(&self) -> (r: usize)
        requires
            self.wf(),
        ensures
            r == self.count_all_spec(),
            r == self.count_enabled_spec() + self.count_disabled_spec(),
    {
        self.enabled.len() + self.disabled.len()
    }

    /// The id that the next added entry will receive.
    pub fn next_id(&self) -> (r: u64)
        ensures
            r == self.next_id_spec(),
    {
        self.next_id
    }

    /// The currently selected entry, if any.
    pub fn current(&self) -> (r: Option<SeedId>)
        ensures
            r == self.current_spec(),
    {
        self.current
    }

    /// Select an entry, or clear the selection.
    pub fn set_current(&mut self, id: Option<SeedId>)
        requires
            old(self).wf(),
            id matches Some(c) ==> old(self).contains_id(c),
        ensures
            final(self).wf(),
            final(self).current_spec() == id,
            final(self).enabled_seq() == old(self).enabled_seq(),
            final(self).disabled_seq() == old(self).disabled_seq(),
            final(self).next_id_spec() == old(self).next_id_spec(),
    {
        self.current = id;
    }

    /// Add a testcase to the enabled partition, issuing the next id.
    pub fn add(&mut self, testcase: Testcase) -> (r: SeedId)
        requires
            old(self).wf(),
            old(self).next_id_spec() < u64::MAX,
            old(self).count_all_spec() < usize::MAX,
        ensures
            final(self).wf(),
            r.0 == old(self).next_id_spec(),
            !old(self).contains_id(r),
            final(self).enabled_seq() == old(self).enabled_seq().push(
                CorpusEntry { id: r, testcase },
            ),
            final(self).disabled_seq() == old(self).disabled_seq(),
            final(self).current_spec() == old(self).current_spec(),
            final(self).next_id_spec() == old(self).next_id_spec() + 1,
            final(self).in_enabled(r),
            forall|x: SeedId| final(self).contains_id(x) == (old(self).contains_id(x) || x == r),
    {
        let id = SeedId(self.next_id);
        proof {
            lemma_fresh_id_not_contained(self, id);
        }
        self.next_id = self.next_id + 1;
        self.enabled.push(CorpusEntry { id, testcase });
        proof {
            let e = CorpusEntry { id, testcase };
            let en0 = old(self).enabled_seq();
            let dis0 = old(self).disabled_seq();
            lemma_ids_concat(en0, dis0);
            lemma_ids_push(en0, e);
            lemma_ids_concat(en0.push(e), dis0);
            lemma_mid_insert(ids_of(en0), ids_of(dis0), id);
            assert(self.all_ids() =~= ids_of(en0).push(id) + ids_of(dis0));
            assert(old(self).all_ids() =~= ids_of(en0) + ids_of(dis0));
            assert(ids_of(en0).push(id)[en0.len() as int] == id);
            assert(self.enabled_ids() =~= ids_of(en0).push(id));
            assert(self.in_enabled(id));
            let ns = self.all_seq();
            let os = en0 + dis0;
            assert forall|i: int| 0 <= i < ns.len() implies (#[trigger] ns[i]).id.0
                < self.next_id_spec() by {
                if i < en0.len() {
                    assert(ns[i] == en0[i]);
                    assert(os[i] == en0[i]);
                    assert(old(self).all_seq()[i].id.0 < old(self).next_id_spec());
                } else if i == en0.len() {
                    assert(ns[i] == e);
                } else {
                    assert(ns[i] == dis0[i - en0.len() - 1]);
                    assert(os[i - 1] == dis0[i - 1 - en0.len()]);
                    assert(old(self).all_seq()[i - 1].id.0 < old(self).next_id_spec());
                }
            }
        }
        id
    }

    /// Add a testcase to the disabled partition, issuing the next id.
    pub fn add_disabled(&mut self, testcase: Testcase) -> (r: SeedId)
        requires
            old(self).wf(),
            old(self).next_id_spec() < u64::MAX,
            old(self).count_all_spec() < usize::MAX,
        ensures
            final(self).wf(),
            r.0 == old(self).next_id_spec(),
            !old(self).contains_id(r),
            final(self).disabled_seq() == old(self).disabled_seq().push(
                CorpusEntry { id: r, testcase },
            ),
            final(self).enabled_seq() == old(self).enabled_seq(),
            final(self).current_spec() == old(self).current_spec(),
            final(self).next_id_spec() == old(self).next_id_spec() + 1,
            final(self).in_disabled(r),
            forall|x: SeedId| final(self).contains_id(x) == (old(self).contains_id(x) || x == r),
    {
        let id = SeedId(self.next_id);
        proof {
            lemma_fresh_id_not_contained(self, id);
        }
        self.next_id = self.next_id + 1;
        self.disabled.push(CorpusEntry { id, testcase });
        proof {
            let e = CorpusEntry { id, testcase };
            let en0 = old(self).enabled_seq();
            let dis0 = old(self).disabled_seq();
            lemma_ids_concat(en0, dis0);
            lemma_ids_push(dis0, e);
            lemma_ids_concat(en0, dis0.push(e));
            lemma_end_insert(ids_of(en0), ids_of(dis0), id);
            assert(self.all_ids() =~= ids_of(en0) + ids_of(dis0).push(id));
            assert(old(self).all_ids() =~= ids_of(en0) + ids_of(dis0));
            assert(ids_of(dis0).push(id)[dis0.len() as int] == id);
            assert(self.disabled_ids() =~= ids_of(dis0).push(id));
            assert(self.in_disabled(id));
            let ns = self.all_seq();
            let os = en0 + dis0;
            assert forall|i: int| 0 <= i < ns.len() implies (#[trigger] ns[i]).id.0
                < self.next_id_spec() by {
                if i < en0.len() {
                    assert(ns[i] == en0[i]);
                    assert(os[i] == en0[i]);
                    assert(old(self).all_seq()[i].id.0 < old(self).next_id_spec());
                } else if i < os.len() {
                    assert(ns[i] == dis0[i - en0.len()]);
                    assert(os[i] == dis0[i - en0.len()]);
                    assert(old(self).all_seq()[i].id.0 < old(self).next_id_spec());
                } else {
                    assert(ns[i] == e);
                }
            }
        }
        id
    }
    /// The position of an enabled entry, if the id is enabled.
    fn find_enabled_index(&self, id: SeedId) -> (r: Option<usize>)
        ensures
            match r {
                Some(j) => j < self.enabled_seq().len() && self.enabled_seq()[j as int].id
                    == id,
                None => !self.in_enabled(id),
            },
    {
        let mut j: usize = 0;
        while j < self.enabled.len()
            invariant
                j <= self.enabled_seq().len(),
                forall|k: int| 0 <= k < j ==> (#[trigger] self.enabled_seq()[k]).id != id,
            decreases self.enabled_seq().len() - j,
        {
            if self.enabled[j].id.0 == id.0 {
                return Some(j);
            }
            j = j + 1;
        }
        proof {
            if self.in_enabled(id) {
                let k = choose|k: int|
                    0 <= k < self.enabled_ids().len() && self.enabled_ids()[k] == id;
                assert(self.enabled_seq()[k].id == id);
            }
        }
        None
    }

    /// The position of a disabled entry, if the id is disabled.
    fn find_disabled_index(&self, id: SeedId) -> (r: Option<usize>)
        ensures
            match r {
                Some(j) => j < self.disabled_seq().len() && self.disabled_seq()[j as int].id
                    == id,
                None => !self.in_disabled(id),
            },
    {
        let mut j: usize = 0;
        while j < self.disabled.len()
            invariant
                j <= self.disabled_seq().len(),
                forall|k: int| 0 <= k < j ==> (#[trigger] self.disabled_seq()[k]).id != id,
            decreases self.disabled_seq().len() - j,
        {
            if self.disabled[j].id.0 == id.0 {
                return Some(j);
            }
            j = j + 1;
        }
        proof {
            if self.in_disabled(id) {
                let k = choose|k: int|
                    0 <= k < self.disabled_ids().len() && self.disabled_ids()[k] == id;
                assert(self.disabled_seq()[k].id == id);
            }
        }
        None
    }

    /// The id of the entry at one position of the full view: enabled entries
    /// come first, disabled ones after them.
    pub fn nth_from_all(&self, i: usize) -> (r: SeedId)
        requires
            self.wf(),
            i < self.count_all_spec(),
        ensures
            r == self.all_ids()[i as int],
            self.contains_id(r),
    {
        let r = if i < self.enabled.len() {
            self.enabled[i].id
        } else {
            self.disabled[i - self.enabled.len()].id
        };
        proof {
            if i < self.enabled_seq().len() {
                assert(self.all_seq()[i as int] == self.enabled_seq()[i as int]);
            } else {
                assert(self.all_seq()[i as int] == self.disabled_seq()[
                    i - self.enabled_seq().len()
                ]);
            }
            assert(self.all_ids().contains(self.all_ids()[i as int]));
        }
        r
    }

    /// The id of the enabled entry at one position.
    pub fn nth_enabled(&self, i: usize) -> (r: SeedId)
        requires
            self.wf(),
            i < self.count_enabled_spec(),
        ensures
            r == self.enabled_ids()[i as int],
            self.in_enabled(r),
            self.contains_id(r),
    {
        let r = self.enabled[i].id;
        proof {
            assert(self.enabled_ids().contains(self.enabled_ids()[i as int]));
            assert(self.all_seq()[i as int] == self.enabled_seq()[i as int]);
            assert(self.all_ids().contains(self.all_ids()[i as int]));
        }
        r
    }

    /// Read the testcase stored under an id.
    pub fn get(&self, id: SeedId) -> (r: Result<&Testcase, Error>)
        requires
            self.wf(),
        ensures
            r is Ok <==> self.contains_id(id),
            r matches Ok(tc) ==> exists|i: int|
                0 <= i < self.all_seq().len() && (#[trigger] self.all_seq()[i]).id == id
                    && self.all_seq()[i].testcase == *tc,
            r matches Err(e) ==> e is NotFound,
    {
        if let Some(j) = self.find_enabled_index(id) {
            proof {
                assert(self.all_seq()[j as int] == self.enabled_seq()[j as int]);
                assert(self.all_ids()[j as int] == id);
                assert(self.all_ids().contains(id));
            }
            return Ok(&self.enabled[j].testcase);
        }
        if let Some(j) = self.find_disabled_index(id) {
            proof {
                let i = j + self.enabled_seq().len();
                assert(self.all_seq()[i as int] == self.disabled_seq()[j as int]);
                assert(self.all_ids()[i as int] == id);
                assert(self.all_ids().contains(id));
            }
            return Ok(&self.disabled[j].testcase);
        }
        proof {
            if self.contains_id(id) {
                let i = choose|i: int|
                    0 <= i < self.all_ids().len() && self.all_ids()[i] == id;
                if i < self.enabled_seq().len() {
                    assert(self.all_seq()[i] == self.enabled_seq()[i]);
                    assert(self.enabled_ids()[i] == id);
                    assert(self.enabled_ids().contains(id));
                } else {
                    assert(self.all_seq()[i] == self.disabled_seq()[
                        i - self.enabled_seq().len()
                    ]);
                    assert(self.disabled_ids()[i - self.enabled_seq().len()] == id);
                    assert(self.disabled_ids().contains(id));
                }
            }
        }
        Err(Error::not_found("no corpus entry under this id"))
    }

    /// Remove the entry stored under an id and hand its testcase back.
    ///
    /// The currently selected entry is never removed: asking for it is an
    /// `IllegalState` error, so every removal path in the engine keeps the
    /// in-flight selection intact.  Removal is Scheduler-mediated: stages go
    /// through [`crate::scheduler::QueueScheduler::on_remove`] after calling
    /// this.
    pub fn remove(&mut self, id: SeedId) -> (r: Result<Testcase, Error>)
        requires
            old(self).wf(),
        ensures
            final(self).wf(),
            final(self).next_id_spec() == old(self).next_id_spec(),
            final(self).current_spec() == old(self).current_spec(),
            r is Ok <==> (old(self).contains_id(id) && Some(id) != old(self).current_spec()),
            r is Err ==> *final(self) == *old(self),
            r matches Err(e) ==> (e is IllegalState <==> Some(id) == old(
                self,
            ).current_spec()),
            r is Ok ==> {
                &&& !final(self).contains_id(id)
                &&& forall|y: SeedId|
                    y != id ==> #[trigger] final(self).contains_id(y) == old(
                        self,
                    ).contains_id(y)
                &&& forall|y: SeedId|
                    y != id ==> #[trigger] final(self).in_enabled(y) == old(self).in_enabled(
                        y,
                    )
                &&& forall|y: SeedId|
                    y != id ==> #[trigger] final(self).in_disabled(y) == old(
                        self,
                    ).in_disabled(y)
                &&& final(self).count_all_spec() == old(self).count_all_spec() - 1
                &&& (old(self).in_enabled(id) ==> final(self).count_enabled_spec() == old(
                    self,
                ).count_enabled_spec() - 1 && final(self).disabled_seq() == old(
                    self,
                ).disabled_seq())
                &&& (old(self).in_disabled(id) ==> final(self).count_disabled_spec() == old(
                    self,
                ).count_disabled_spec() - 1 && final(self).enabled_seq() == old(
                    self,
                ).enabled_seq())
            },
            r matches Ok(tc) ==> exists|i: int|
                0 <= i < old(self).all_seq().len() && (#[trigger] old(self).all_seq()[i]).id
                    == id && old(self).all_seq()[i].testcase == tc && final(self).all_seq()
                    == old(self).all_seq().remove(i),
            (r is Ok && old(self).in_enabled(id)) ==> exists|j: int|
                0 <= j < old(self).enabled_seq().len() && (#[trigger] old(
                    self,
                ).enabled_seq()[j]).id == id && final(self).enabled_seq() == old(
                    self,
                ).enabled_seq().remove(j),
            (r is Ok && old(self).in_disabled(id)) ==> exists|j: int|
                0 <= j < old(self).disabled_seq().len() && (#[trigger] old(
                    self,
                ).disabled_seq()[j]).id == id && final(self).disabled_seq() == old(
                    self,
                ).disabled_seq().remove(j),
    {
        if let Some(c) = self.current {
            if c.0 == id.0 {
                return Err(Error::illegal_state("cannot remove the selected entry"));
            }
        }
        if let Some(j) = self.find_enabled_index(id) {
            let entry = self.enabled.remove(j);
            proof {
                let ji = j as int;
                let en0 = old(self).enabled_seq();
                let dis0 = old(self).disabled_seq();
                lemma_ids_concat(en0, dis0);
                lemma_ids_concat(en0.remove(ji), dis0);
                en0.remove_ensures(ji);
                (en0 + dis0).remove_ensures(ji);
                ids_of(en0).remove_ensures(ji);
                (ids_of(en0) + ids_of(dis0)).remove_ensures(ji);
                lemma_remove_in_first(en0, dis0, ji);
                lemma_ids_remove(en0, ji);
                assert(old(self).enabled_ids()[ji] == id);
                assert(old(self).all_ids()[ji] == id);
                assert(self.all_seq() =~= (en0 + dis0).remove(ji));
                assert(self.all_ids() =~= ids_of((en0 + dis0).remove(ji)));
                lemma_ids_remove(en0 + dis0, ji);
                assert(self.all_ids() =~= old(self).all_ids().remove(ji));
                assert(self.enabled_ids() =~= old(self).enabled_ids().remove(ji));
                lemma_concat_no_dup_parts(ids_of(en0), ids_of(dis0));
                lemma_remove_at(old(self).all_ids(), ji);
                lemma_remove_at(old(self).enabled_ids(), ji);
                lemma_entries_preserved_by_remove(old(self), self, ji, old(self).next_id_spec());
                assert(old(self).all_seq()[ji] == en0[ji]);
                assert(old(self).all_seq()[ji].id == id);
                assert(!old(self).in_disabled(id)) by {
                    if old(self).in_disabled(id) {
                        let k = choose|k: int|
                            0 <= k < ids_of(dis0).len() && ids_of(dis0)[k] == id;
                        assert((en0 + dis0)[en0.len() + k] == dis0[k]);
                        assert(old(self).all_ids()[en0.len() + k] == id);
                    }
                }
            }
            return Ok(entry.testcase);
        }
        if let Some(j) = self.find_disabled_index(id) {
            let entry = self.disabled.remove(j);
            proof {
                let ji = j as int;
                let en0 = old(self).enabled_seq();
                let dis0 = old(self).disabled_seq();
                let full = en0.len() as int + ji;
                lemma_ids_concat(en0, dis0);
                lemma_ids_concat(en0, dis0.remove(ji));
                dis0.remove_ensures(ji);
                (en0 + dis0).remove_ensures(full);
                ids_of(dis0).remove_ensures(ji);
                (ids_of(en0) + ids_of(dis0)).remove_ensures(full);
                lemma_remove_in_second(en0, dis0, ji);
                lemma_ids_remove(dis0, ji);
                assert(old(self).disabled_ids()[ji] == id);
                assert((en0 + dis0)[full] == dis0[ji]);
                assert(old(self).all_ids()[full] == id);
                assert(self.all_seq() =~= (en0 + dis0).remove(full));
                assert(self.all_ids() =~= ids_of((en0 + dis0).remove(full)));
                lemma_ids_remove(en0 + dis0, full);
                assert(self.all_ids() =~= old(self).all_ids().remove(full));
                assert(self.disabled_ids() =~= old(self).disabled_ids().remove(ji));
                lemma_concat_no_dup_parts(ids_of(en0), ids_of(dis0));
                lemma_remove_at(old(self).all_ids(), full);
                lemma_remove_at(old(self).disabled_ids(), ji);
                lemma_entries_preserved_by_remove(old(self), self, full, old(self).next_id_spec());
                assert(old(self).all_seq()[full].id == id);
                assert(!old(self).in_enabled(id)) by {
                    if old(self).in_enabled(id) {
                        let k = choose|k: int|
                            0 <= k < ids_of(en0).len() && ids_of(en0)[k] == id;
                        assert((en0 + dis0)[k] == en0[k]);
                        assert(old(self).all_ids()[k] == id);
                    }
                }
            }
            return Ok(entry.testcase);
        }
        proof {
            if self.contains_id(id) {
                lemma_ids_concat(self.enabled_seq(), self.disabled_seq());
                let i = choose|i: int|
                    0 <= i < self.all_ids().len() && self.all_ids()[i] == id;
                if i < self.enabled_seq().len() {
                    assert(self.enabled_ids()[i] == id);
                    assert(self.enabled_ids().contains(id));
                } else {
                    assert(self.disabled_ids()[i - self.enabled_seq().len()] == id);
                    assert(self.disabled_ids().contains(id));
                }
            }
        }
        Err(Error::not_found("no corpus entry under this id"))
    }

    /// What well-formedness gives about the two partitions: ids are unique
    /// within each, an id lives in at most one, and partition membership
    /// implies membership.
    pub proof fn lemma_wf_parts(&self)
        requires
            self.wf(),
        ensures
            self.enabled_ids().no_duplicates(),
            self.disabled_ids().no_duplicates(),
            forall|y: SeedId| #[trigger] self.in_enabled(y) ==> self.contains_id(y),
            forall|y: SeedId| #[trigger] self.in_disabled(y) ==> self.contains_id(y),
            forall|y: SeedId| #[trigger] self.in_enabled(y) ==> !self.in_disabled(y),
            forall|y: SeedId| #[trigger] self.contains_id(y) ==> (self.in_enabled(y)
                || self.in_disabled(y)),
    {
        let en = self.enabled_seq();
        let dis = self.disabled_seq();
        lemma_ids_concat(en, dis);
        lemma_concat_no_dup_parts(ids_of(en), ids_of(dis));
        assert forall|y: SeedId| #[trigger] self.contains_id(y) implies (self.in_enabled(y)
            || self.in_disabled(y)) by {
            let i = choose|i: int| 0 <= i < self.all_ids().len() && self.all_ids()[i] == y;
            if i < en.len() {
                assert(self.enabled_ids()[i] == (ids_of(en) + ids_of(dis))[i]);
                assert(self.enabled_ids().contains(self.enabled_ids()[i]));
            } else {
                assert(self.disabled_ids()[i - en.len()] == (ids_of(en) + ids_of(dis))[i]);
                assert(self.disabled_ids().contains(self.disabled_ids()[i - en.len()]));
            }
        }
        assert forall|y: SeedId| #[trigger] self.in_enabled(y) implies self.contains_id(y)
            && !self.in_disabled(y) by {
            let i = choose|i: int|
                0 <= i < self.enabled_ids().len() && self.enabled_ids()[i] == y;
            assert(self.all_ids()[i] == (ids_of(en) + ids_of(dis))[i]);
            assert(self.all_ids().contains(self.all_ids()[i]));
            if self.in_disabled(y) {
                let j = choose|j: int|
                    0 <= j < self.disabled_ids().len() && self.disabled_ids()[j] == y;
                assert(self.all_ids()[en.len() + j] == (ids_of(en) + ids_of(dis))[en.len()
                    + j]);
            }
        }
        assert forall|y: SeedId| #[trigger] self.in_disabled(y) implies self.contains_id(
            y,
        ) by {
            let j = choose|j: int|
                0 <= j < self.disabled_ids().len() && self.disabled_ids()[j] == y;
            assert(self.all_ids()[en.len() + j] == (ids_of(en) + ids_of(dis))[en.len() + j]);
            assert(self.all_ids().contains(self.all_ids()[en.len() + j]));
        }
    }
}

/// Every corpus satisfies: the total count is the enabled count plus the
/// disabled count.
pub proof fn lemma_corpus_counts(c: &Corpus)
    ensures
        c.count_all_spec() == c.count_enabled_spec() + c.count_disabled_spec(),
{
}

/// The id about to be issued is not held by any stored entry.
proof fn lemma_fresh_id_not_contained(c: &Corpus, id: SeedId)
    requires
        c.wf(),
        id.0 == c.next_id_spec(),
    ensures
        !c.contains_id(id),
{
    if c.contains_id(id) {
        let i = choose|i: int|
            0 <= i < c.all_ids().len() && c.all_ids()[i] == id;
        assert(c.all_seq()[i].id.0 < c.next_id_spec());
    }
}

/// Removing a position of the first of two concatenated sequences is a
/// removal from the whole.
proof fn lemma_remove_in_first(a: Seq<CorpusEntry>, b: Seq<CorpusEntry>, j: int)
    requires
        0 <= j < a.len(),
    ensures
        a.remove(j) + b =~= (a + b).remove(j),
{
    a.remove_ensures(j);
    (a + b).remove_ensures(j);
    let lhs = a.remove(j) + b;
    let rhs = (a + b).remove(j);
    assert forall|i: int| 0 <= i < lhs.len() implies lhs[i] == rhs[i] by {
        if i < j {
            assert(lhs[i] == a.remove(j)[i]);
            assert(rhs[i] == (a + b)[i]);
            assert((a + b)[i] == a[i]);
        } else if i < a.len() - 1 {
            assert(lhs[i] == a.remove(j)[i]);
            assert(rhs[i] == (a + b)[i + 1]);
            assert((a + b)[i + 1] == a[i + 1]);
        } else {
            assert(lhs[i] == b[i - (a.len() - 1)]);
            assert(rhs[i] == (a + b)[i + 1]);
            assert((a + b)[i + 1] == b[i + 1 - a.len()]);
        }
    }
}

/// Removing a position of the second of two concatenated sequences is a
/// removal from the whole.
proof fn lemma_remove_in_second(a: Seq<CorpusEntry>, b: Seq<CorpusEntry>, j: int)
    requires
        0 <= j < b.len(),
    ensures
        a + b.remove(j) =~= (a + b).remove(a.len() + j),
{
    b.remove_ensures(j);
    (a + b).remove_ensures(a.len() + j);
    let lhs = a + b.remove(j);
    let rhs = (a + b).remove(a.len() + j);
    assert forall|i: int| 0 <= i < lhs.len() implies lhs[i] == rhs[i] by {
        if i < a.len() {
            assert(lhs[i] == a[i]);
            assert(rhs[i] == (a + b)[i]);
            assert((a + b)[i] == a[i]);
        } else if i < a.len() + j {
            assert(lhs[i] == b.remove(j)[i - a.len()]);
            assert(b.remove(j)[i - a.len()] == b[i - a.len()]);
            assert(rhs[i] == (a + b)[i]);
            assert((a + b)[i] == b[i - a.len()]);
        } else {
            assert(lhs[i] == b.remove(j)[i - a.len()]);
            assert(b.remove(j)[i - a.len()] == b[i - a.len() + 1]);
            assert(rhs[i] == (a + b)[i + 1]);
            assert((a + b)[i + 1] == b[i + 1 - a.len()]);
        }
    }
}

/// Mapping entries to their ids commutes with removing one position.
proof fn lemma_ids_remove(s: Seq<CorpusEntry>, j: int)
    requires
        0 <= j < s.len(),
    ensures
        ids_of(s.remove(j)) =~= ids_of(s).remove(j),
{
    s.remove_ensures(j);
    ids_of(s).remove_ensures(j);
    let lhs = ids_of(s.remove(j));
    let rhs = ids_of(s).remove(j);
    assert forall|i: int| 0 <= i < lhs.len() implies lhs[i] == rhs[i] by {
        if i < j {
            assert(s.remove(j)[i] == s[i]);
            assert(rhs[i] == ids_of(s)[i]);
        } else {
            assert(s.remove(j)[i] == s[i + 1]);
            assert(rhs[i] == ids_of(s)[i + 1]);
        }
    }
}

/// Two concatenated sequences without duplicates have none in either part.
proof fn lemma_concat_no_dup_parts(a: Seq<SeedId>, b: Seq<SeedId>)
    requires
        (a + b).no_duplicates(),
    ensures
        a.no_duplicates(),
        b.no_duplicates(),
{
    assert forall|i: int, j: int|
        0 <= i < a.len() && 0 <= j < a.len() && i != j implies a[i] != a[j] by {
        assert((a + b)[i] == a[i]);
        assert((a + b)[j] == a[j]);
    }
    assert forall|i: int, j: int|
        0 <= i < b.len() && 0 <= j < b.len() && i != j implies b[i] != b[j] by {
        assert((a + b)[a.len() + i] == b[i]);
        assert((a + b)[a.len() + j] == b[j]);
    }
}

/// Removing one position of a duplicate-free sequence removes exactly that
/// element.
proof fn lemma_remove_at(s: Seq<SeedId>, k: int)
    requires
        s.no_duplicates(),
        0 <= k < s.len(),
    ensures
        s.remove(k).no_duplicates(),
        !s.remove(k).contains(s[k]),
        forall|y: SeedId| y != s[k] ==> #[trigger] s.remove(k).contains(y) == s.contains(y),
{
    s.remove_ensures(k);
    let ns = s.remove(k);
    assert forall|i: int, j: int|
        0 <= i < ns.len() && 0 <= j < ns.len() && i != j implies ns[i] != ns[j] by {
        let mi: int = if i < k { i } else { i + 1 };
        let mj: int = if j < k { j } else { j + 1 };
        assert(ns[i] == s[mi]);
        assert(ns[j] == s[mj]);
    }
    if ns.contains(s[k]) {
        let i = choose|i: int| 0 <= i < ns.len() && ns[i] == s[k];
        let mi: int = if i < k { i } else { i + 1 };
        assert(s[mi] == s[k]);
    }
    assert forall|y: SeedId| y != s[k] implies #[trigger] ns.contains(y) == s.contains(y) by {
        if ns.contains(y) {
            let i = choose|i: int| 0 <= i < ns.len() && ns[i] == y;
            let mi: int = if i < k { i } else { i + 1 };
            assert(s[mi] == y);
            assert(s.contains(s[mi]));
        }
        if s.contains(y) {
            let m = choose|m: int| 0 <= m < s.len() && s[m] == y;
            if m < k {
                assert(ns[m] == y);
                assert(ns.contains(ns[m]));
            } else {
                assert(m > k);
                assert(ns[m - 1] == y);
                assert(ns.contains(ns[m - 1]));
            }
        }
    }
}

/// After a removal, every remaining id stays below the bound that every
/// stored id already satisfied.
proof fn lemma_entries_preserved_by_remove(c0: &Corpus, c1: &Corpus, k: int, bound: u64)
    requires
        0 <= k < c0.all_seq().len(),
        c1.all_seq() == c0.all_seq().remove(k),
        forall|i: int|
            0 <= i < c0.all_seq().len() ==> (#[trigger] c0.all_seq()[i]).id.0 < bound,
    ensures
        forall|i: int|
            0 <= i < c1.all_seq().len() ==> (#[trigger] c1.all_seq()[i]).id.0 < bound,
{
    c0.all_seq().remove_ensures(k);
    assert forall|i: int| 0 <= i < c1.all_seq().len() implies (#[trigger] c1.all_seq()[i]).id.0
        < bound by {
        if i < k {
            assert(c1.all_seq()[i] == c0.all_seq()[i]);
        } else {
            assert(c1.all_seq()[i] == c0.all_seq()[i + 1]);
        }
    }
}

/// Mapping entries to their ids commutes with appending one entry.
proof fn lemma_ids_push(s: Seq<CorpusEntry>, e: CorpusEntry)
    ensures
        ids_of(s.push(e)) =~= ids_of(s).push(e.id),
{
}

/// Mapping entries to their ids commutes with concatenation.
proof fn lemma_ids_concat(a: Seq<CorpusEntry>, b: Seq<CorpusEntry>)
    ensures
        ids_of(a + b) =~= ids_of(a) + ids_of(b),
{
    assert forall|i: int| 0 <= i < (a + b).len() implies ids_of(a + b)[i] == (ids_of(a) + ids_of(
        b,
    ))[i] by {
        if i < a.len() {
            assert((a + b)[i] == a[i]);
        } else {
            assert((a + b)[i] == b[i - a.len()]);
        }
    }
}

/// Inserting a fresh id at the end of the first of two concatenated id
/// sequences keeps the whole unique, and adds exactly that id.
proof fn lemma_mid_insert(a: Seq<SeedId>, b: Seq<SeedId>, x: SeedId)
    requires
        (a + b).no_duplicates(),
        !(a + b).contains(x),
    ensures
        (a.push(x) + b).no_duplicates(),
        forall|y: SeedId| #[trigger] (a.push(x) + b).contains(y) == ((a + b).contains(y) || y
            == x),
{
    let os = a + b;
    let ns = a.push(x) + b;
    assert(ns.len() == os.len() + 1);
    assert forall|i: int| 0 <= i < ns.len() implies #[trigger] ns[i] == (if i < a.len() {
        os[i]
    } else if i == a.len() {
        x
    } else {
        os[i - 1]
    }) by {
        if i < a.len() {
            assert(ns[i] == a.push(x)[i]);
            assert(os[i] == a[i]);
        } else if i == a.len() {
            assert(ns[i] == a.push(x)[i]);
        } else {
            assert(ns[i] == b[i - a.len() - 1]);
            assert(os[i - 1] == b[i - 1 - a.len()]);
        }
    }
    assert forall|i: int| 0 <= i < os.len() implies os.contains(#[trigger] os[i]) by {}
    assert forall|i: int, j: int|
        0 <= i < ns.len() && 0 <= j < ns.len() && i != j implies ns[i] != ns[j] by {
        if i == a.len() {
            if j < a.len() {
                assert(os.contains(os[j]));
            } else {
                assert(os.contains(os[j - 1]));
            }
        } else if j == a.len() {
            if i < a.len() {
                assert(os.contains(os[i]));
            } else {
                assert(os.contains(os[i - 1]));
            }
        }
    }
    assert forall|y: SeedId| #[trigger] ns.contains(y) == (os.contains(y) || y == x) by {
        if ns.contains(y) {
            let i = choose|i: int| 0 <= i < ns.len() && ns[i] == y;
            if i < a.len() {
                assert(os.contains(os[i]));
            } else if i > a.len() {
                assert(os.contains(os[i - 1]));
            }
        }
        if os.contains(y) {
            let i = choose|i: int| 0 <= i < os.len() && os[i] == y;
            if i < a.len() {
                assert(ns[i] == y);
            } else {
                assert(ns[i + 1] == y);
            }
        }
        if y == x {
            assert(ns[a.len() as int] == x);
        }
    }
}

/// Appending a fresh id to the second of two concatenated id sequences keeps
/// the whole unique, and adds exactly that id.
proof fn lemma_end_insert(a: Seq<SeedId>, b: Seq<SeedId>, x: SeedId)
    requires
        (a + b).no_duplicates(),
        !(a + b).contains(x),
    ensures
        (a + b.push(x)) =~= (a + b).push(x),
        (a + b.push(x)).no_duplicates(),
        forall|y: SeedId| #[trigger] (a + b.push(x)).contains(y) == ((a + b).contains(y) || y
            == x),
{
    let os = a + b;
    let ns = a + b.push(x);
    assert forall|i: int| 0 <= i < ns.len() implies ns[i] == os.push(x)[i] by {
        if i < a.len() {
            assert(ns[i] == a[i]);
            assert(os[i] == a[i]);
        } else if i < os.len() {
            assert(ns[i] == b.push(x)[i - a.len()]);
            assert(os[i] == b[i - a.len()]);
        } else {
            assert(ns[i] == b.push(x)[i - a.len()]);
        }
    }
    assert(ns =~= os.push(x));
    assert forall|i: int| 0 <= i < os.len() implies os.contains(#[trigger] os[i]) by {}
    assert forall|i: int, j: int|
        0 <= i < ns.len() && 0 <= j < ns.len() && i != j implies ns[i] != ns[j] by {
        if i == os.len() {
            assert(os.contains(os[j]));
        } else if j == os.len() {
            assert(os.contains(os[i]));
        }
    }
    assert forall|y: SeedId| #[trigger] ns.contains(y) == (os.contains(y) || y == x) by {
        if ns.contains(y) {
            let i = choose|i: int| 0 <= i < ns.len() && ns[i] == y;
            if i < os.len() {
                assert(os.contains(os[i]));
            }
        }
        if os.contains(y) {
            let i = choose|i: int| 0 <= i < os.len() && os[i] == y;
            assert(ns[i] == y);
        }
        if y == x {
            assert(ns[os.len() as int] == x);
        }
    }
}

} // verus!
