//! The metadata store: typed, named side-tables attached to the global
//! state, here holding one novelty record per channel name.

use vstd::prelude::*;
use crate::novelty::{ListFeedbackMetadata, sat_add_u64};

verus! {

/// One named record.
pub struct NamedEntry {
    /// The channel name this record belongs to.
    pub name: String,
    /// The record itself.
    pub meta: ListFeedbackMetadata,
}

/// A registry of novelty records addressed by channel name.
pub struct NamedMetadataStore {
    entries: Vec<NamedEntry>,
}

impl NamedMetadataStore {
    /// The stored records, in insertion order.
    pub closed spec fn entries_seq(&self) -> Seq<NamedEntry> {
        self.entries@
    }

    /// The stored names, in insertion order.
    pub open spec fn names(&self) -> Seq<Seq<char>> {
        self.entries_seq().map_values(|e: NamedEntry| e.name@)
    }

    /// Whether a record is stored under this name.
    pub open spec fn has_name(&self, name: Seq<char>) -> bool {
        self.names().contains(name)
    }

    /// The position of a stored name.  Meaningful only when the name is
    /// stored; well-formedness makes the position unique.
    pub open spec fn name_index(&self, name: Seq<char>) -> int {
        choose|i: int| 0 <= i < self.names().len() && self.names()[i] == name
    }

    /// The record stored under a name.  Meaningful only when the name is
    /// stored.
    pub open spec fn meta_of(&self, name: Seq<char>) -> ListFeedbackMetadata {
        self.entries_seq()[self.name_index(name)].meta
    }

    /// Well-formedness: names are unique and every record is well-formed.
    pub open spec fn wf(&self) -> bool {
        &&& self.names().no_duplicates()
        &&& forall|i: int|
            0 <= i < self.entries_seq().len() ==> (#[trigger] self.entries_seq()[i]).meta.wf()
    }

    /// An empty store.
    pub fn new() -> (r: NamedMetadataStore)
        ensures
            r.wf(),
            r.entries_seq() == Seq::<NamedEntry>::empty(),
    {
        NamedMetadataStore { entries: Vec::new() }
    }

    /// The number of stored records.
    pub fn len(&self) -> (r: usize)
        ensures
            r == self.entries_seq().len(),
    {
        self.entries.len()
    }

    /// The first position of a name, if stored.
    pub fn index_of(&self, name: &String) -> (r: Option<usize>)
        ensures
            match r {
                Some(i) => i < self.entries_seq().len() && self.entries_seq()[i as int].name@
                    == name@,
                None => !self.has_name(name@),
            },
    {
        let mut i: usize = 0;
        while i < self.entries.len()
            invariant
                i <= self.entries_seq().len(),
                forall|k: int| 0 <= k < i ==> (#[trigger] self.entries_seq()[k]).name@
                    != name@,
            decreases self.entries_seq().len() - i,
        {
            if self.entries[i].name == *name {
                return Some(i);
            }
            i = i + 1;
        }
        proof {
            if self.has_name(name@) {
                let k = choose|k: int|
                    0 <= k < self.names().len() && self.names()[k] == name@;
                assert(self.entries_seq()[k].name@ == name@);
            }
        }
        None
    }

    /// Read the record at a position.
    pub fn meta_at(&self, i: usize) -> (r: &ListFeedbackMetadata)
        requires
            i < self.entries_seq().len(),
        ensures
            *r == self.entries_seq()[i as int].meta,
    {
        &self.entries[i].meta
    }

    /// Replace the record at a position.
    pub fn set_meta_at(&mut self, i: usize, meta: ListFeedbackMetadata)
        requires
            old(self).wf(),
            i < old(self).entries_seq().len(),
            meta.wf(),
        ensures
            final(self).wf(),
            final(self).entries_seq().len() == old(self).entries_seq().len(),
            final(self).entries_seq()[i as int].name == old(self).entries_seq()[
                i as int
            ].name,
            final(self).entries_seq()[i as int].meta == meta,
            forall|k: int|
                0 <= k < old(self).entries_seq().len() && k != i
                    ==> #[trigger] final(self).entries_seq()[k] == old(self).entries_seq()[k],
            final(self).names() =~= old(self).names(),
    {
        let name = self.entries[i].name.clone();
        proof {
            assert(self.entries@[i as int].name@ == name@);
        }
        self.entries.set(i, NamedEntry { name, meta });
        proof {
            assert forall|k: int| 0 <= k < self.names().len() implies self.names()[k] == old(
                self,
            ).names()[k] by {
                if k != i {
                    assert(self.entries_seq()[k] == old(self).entries_seq()[k]);
                }
            }
        }
    }

    /// In a well-formed store, the entry holding a name stands at the
    /// position `name_index` denotes.
    pub proof fn lemma_name_index(&self, i: int)
        requires
            self.wf(),
            0 <= i < self.entries_seq().len(),
        ensures
            self.has_name(self.entries_seq()[i].name@),
            self.name_index(self.entries_seq()[i].name@) == i,
            self.meta_of(self.entries_seq()[i].name@) == self.entries_seq()[i].meta,
    {
        let name = self.entries_seq()[i].name@;
        assert(self.names()[i] == name);
        assert(self.names().contains(name));
        let j = self.name_index(name);
        assert(self.names()[j] == name);
        if i != j {
            assert(false);
        }
    }

    /// Record a novel value in the record at a position.
    pub fn record_novel_at(&mut self, i: usize, v: u64)
        requires
            old(self).wf(),
            i < old(self).entries_seq().len(),
            !old(self).entries_seq()[i as int].meta.values().contains(v),
        ensures
            final(self).wf(),
            final(self).entries_seq().len() == old(self).entries_seq().len(),
            final(self).names() =~= old(self).names(),
            final(self).entries_seq()[i as int].name == old(self).entries_seq()[
                i as int
            ].name,
            final(self).entries_seq()[i as int].meta.values() == old(self).entries_seq()[
                i as int
            ].meta.values().insert(v),
            final(self).entries_seq()[i as int].meta.counter_spec() == sat_add_u64(
                old(self).entries_seq()[i as int].meta.counter_spec(),
                1,
            ),
            final(self).entries_seq()[i as int].meta.refcnt_spec() == old(
                self,
            ).entries_seq()[i as int].meta.refcnt_spec(),
            forall|k: int|
                0 <= k < old(self).entries_seq().len() && k != i
                    ==> #[trigger] final(self).entries_seq()[k] == old(self).entries_seq()[k],
    {
        let m = &mut self.entries[i].meta;
        m.record_novel(v);
        proof {
            assert forall|k: int| 0 <= k < self.names().len() implies self.names()[k] == old(
                self,
            ).names()[k] by {
                if k != i {
                    assert(self.entries_seq()[k] == old(self).entries_seq()[k]);
                } else {
                    assert(self.entries_seq()[k].name == old(self).entries_seq()[k].name);
                }
            }
        }
    }

    /// Raise the reference count of the record at a position.
    pub fn inc_refcnt_at(&mut self, i: usize)
        requires
            old(self).wf(),
            i < old(self).entries_seq().len(),
            old(self).entries_seq()[i as int].meta.refcnt_spec() < i64::MAX,
        ensures
            final(self).wf(),
            final(self).entries_seq().len() == old(self).entries_seq().len(),
            final(self).names() =~= old(self).names(),
            final(self).entries_seq()[i as int].name == old(self).entries_seq()[
                i as int
            ].name,
            final(self).entries_seq()[i as int].meta.refcnt_spec() == old(
                self,
            ).entries_seq()[i as int].meta.refcnt_spec() + 1,
            final(self).entries_seq()[i as int].meta.values() == old(self).entries_seq()[
                i as int
            ].meta.values(),
            final(self).entries_seq()[i as int].meta.counter_spec() == old(
                self,
            ).entries_seq()[i as int].meta.counter_spec(),
            forall|k: int|
                0 <= k < old(self).entries_seq().len() && k != i
                    ==> #[trigger] final(self).entries_seq()[k] == old(self).entries_seq()[k],
    {
        let m = &mut self.entries[i].meta;
        m.inc_refcnt();
        proof {
            assert forall|k: int| 0 <= k < self.names().len() implies self.names()[k] == old(
                self,
            ).names()[k] by {
                if k != i {
                    assert(self.entries_seq()[k] == old(self).entries_seq()[k]);
                } else {
                    assert(self.entries_seq()[k].name == old(self).entries_seq()[k].name);
                }
            }
        }
    }

    /// Lower the reference count of the record at a position, stopping at
    /// zero.
    pub fn dec_refcnt_at(&mut self, i: usize)
        requires
            old(self).wf(),
            i < old(self).entries_seq().len(),
        ensures
            final(self).wf(),
            final(self).entries_seq().len() == old(self).entries_seq().len(),
            final(self).names() =~= old(self).names(),
            final(self).entries_seq()[i as int].name == old(self).entries_seq()[
                i as int
            ].name,
            final(self).entries_seq()[i as int].meta.refcnt_spec() == if old(
                self,
            ).entries_seq()[i as int].meta.refcnt_spec() > 0 {
                old(self).entries_seq()[i as int].meta.refcnt_spec() - 1
            } else {
                0
            },
            final(self).entries_seq()[i as int].meta.values() == old(self).entries_seq()[
                i as int
            ].meta.values(),
            final(self).entries_seq()[i as int].meta.counter_spec() == old(
                self,
            ).entries_seq()[i as int].meta.counter_spec(),
            forall|k: int|
                0 <= k < old(self).entries_seq().len() && k != i
                    ==> #[trigger] final(self).entries_seq()[k] == old(self).entries_seq()[k],
    {
        let m = &mut self.entries[i].meta;
        m.dec_refcnt();
        proof {
            assert forall|k: int| 0 <= k < self.names().len() implies self.names()[k] == old(
                self,
            ).names()[k] by {
                if k != i {
                    assert(self.entries_seq()[k] == old(self).entries_seq()[k]);
                } else {
                    assert(self.entries_seq()[k].name == old(self).entries_seq()[k].name);
                }
            }
        }
    }

    /// Install a fresh default record under a name: replace the stored one,
    /// or add a new entry when the name is new.
    pub fn set_default(&mut self, name: &String) -> (i: usize)
        requires
            old(self).wf(),
            old(self).entries_seq().len() < usize::MAX,
        ensures
            final(self).wf(),
            i < final(self).entries_seq().len(),
            final(self).entries_seq()[i as int].name@ == name@,
            final(self).entries_seq()[i as int].meta.values() == Set::<u64>::empty(),
            final(self).entries_seq()[i as int].meta.refcnt_spec() == 0,
            final(self).has_name(name@),
            forall|k: int|
                0 <= k < final(self).entries_seq().len() && k != i
                    ==> #[trigger] final(self).entries_seq()[k] == old(self).entries_seq()[k],
            final(self).entries_seq().len() == if old(self).has_name(name@) {
                old(self).entries_seq().len() as int
            } else {
                old(self).entries_seq().len() as int + 1
            },
    {
        if let Some(i) = self.index_of(name) {
            proof {
                assert(old(self).names()[i as int] == name@);
                assert(old(self).names().contains(name@));
            }
            self.set_meta_at(i, ListFeedbackMetadata::new());
            proof {
                assert(self.names()[i as int] == name@);
                assert(self.names().contains(name@));
            }
            return i;
        }
        let i = self.entries.len();
        self.entries.push(NamedEntry { name: name.clone(), meta: ListFeedbackMetadata::new() });
        proof {
            let ns0 = old(self).names();
            assert forall|k: int| 0 <= k < ns0.len() implies self.names()[k] == ns0[k] by {
                assert(self.entries_seq()[k] == old(self).entries_seq()[k]);
            }
            assert(self.names() =~= ns0.push(name@));
            assert forall|p: int, q: int|
                0 <= p < self.names().len() && 0 <= q < self.names().len() && p != q implies self
                .names()[p] != self.names()[q] by {
                if p == ns0.len() {
                    assert(ns0.contains(ns0[q]));
                } else if q == ns0.len() {
                    assert(ns0.contains(ns0[p]));
                }
            }
            assert(self.names()[i as int] == name@);
            assert(self.names().contains(name@));
        }
        i
    }
}

} // verus!
