//! Reference-counted novelty metadata: the per-name, process-wide record of
//! all previously observed values of an observation channel.

use vstd::prelude::*;
use hashbrown::HashSet;
use crate::errors::Error;

verus! {

/// The set of observed values backing one metadata record.
///
/// The values live in a `hashbrown::HashSet`, which Verus cannot look into;
/// the set is therefore held behind this opaque struct, and everything the
/// contracts need to say about its contents goes through
/// [`novelty_set_values`].
#[verifier::external_body]
pub struct NoveltySet {
    inner: HashSet<u64>,
}

/// The mathematical contents of a [`NoveltySet`].
pub uninterp spec fn novelty_set_values(s: NoveltySet) -> Set<u64>;

/// Addition on the running counter, saturating at the largest representable
/// value: the counter is telemetry and must never make an admission path
/// fail.
pub open spec fn sat_add_u64(a: int, b: int) -> int {
    if a + b <= u64::MAX {
        a + b
    } else {
        u64::MAX as int
    }
}

impl NoveltySet {
    /// Relies on `hashbrown::HashSet::new`: builds an empty set.
    #[verifier::external_body]
    pub(crate) fn new() -> (r: NoveltySet)
        ensures
            novelty_set_values(r) == Set::<u64>::empty(),
            novelty_set_values(r).finite(),
    {
        NoveltySet { inner: HashSet::new() }
    }

    /// Relies on `hashbrown::HashSet::contains`: membership test.
    #[verifier::external_body]
    pub(crate) fn contains(&self, v: u64) -> (r: bool)
        ensures
            r == novelty_set_values(*self).contains(v),
    {
        self.inner.contains(&v)
    }

    /// Relies on `hashbrown::HashSet::insert`: adds a value; the result says
    /// whether the value was new.
    #[verifier::external_body]
    pub(crate) fn insert(&mut self, v: u64) -> (r: bool)
        ensures
            novelty_set_values(*final(self)) == novelty_set_values(*old(self)).insert(v),
            novelty_set_values(*old(self)).finite() ==> novelty_set_values(
                *final(self),
            ).finite(),
            r == !novelty_set_values(*old(self)).contains(v),
    {
        self.inner.insert(v)
    }

    /// Relies on `hashbrown::HashSet::clear`: removes every value.
    #[verifier::external_body]
    pub(crate) fn clear(&mut self)
        ensures
            novelty_set_values(*final(self)) == Set::<u64>::empty(),
            novelty_set_values(*final(self)).finite(),
    {
        self.inner.clear()
    }

    /// Relies on `hashbrown::HashSet::iter`: hands the stored values out as a
    /// vector, each exactly once, in no promised order.
    #[verifier::external_body]
    pub(crate) fn to_vec(&self) -> (r: Vec<u64>)
        ensures
            r@.to_set() == novelty_set_values(*self),
            r@.no_duplicates(),
    {
        let mut out: Vec<u64> = Vec::new();
        for v in self.inner.iter() {
            out.push(*v);
        }
        out
    }
}

/// The metadata remembering past observed values of one channel, with a
/// reference count tying it to the corpus entries that still rely on it.
pub struct ListFeedbackMetadata {
    /// The previously observed set of values.
    set: NoveltySet,
    /// How many retained corpus entries still contribute novelty recorded
    /// here.  Never negative; when it reaches zero the record is eligible
    /// for removal.
    tcref: i64,
    /// How many values were ever recorded.
    counter: u64,
}

impl ListFeedbackMetadata {
    /// The recorded values, as a mathematical set.
    pub closed spec fn values(&self) -> Set<u64> {
        novelty_set_values(self.set)
    }

    /// The reference count.
    pub closed spec fn refcnt_spec(&self) -> int {
        self.tcref as int
    }

    /// The running count of recorded values.
    pub closed spec fn counter_spec(&self) -> int {
        self.counter as int
    }

    /// Well-formedness: the value set is finite and the reference count is
    /// not negative.
    pub closed spec fn wf(&self) -> bool {
        &&& self.values().finite()
        &&& self.tcref >= 0
    }

    /// A fresh record: nothing observed, no references.
    pub fn new() -> (r: ListFeedbackMetadata)
        ensures
            r.wf(),
            r.values() == Set::<u64>::empty(),
            r.refcnt_spec() == 0,
            r.counter_spec() == 0,
    {
        ListFeedbackMetadata { set: NoveltySet::new(), tcref: 0, counter: 0 }
    }

    /// Forget every recorded value, keeping the reference count and the
    /// running counter.
    pub fn reset(&mut self) -> (r: Result<(), Error>)
        requires
            old(self).wf(),
        ensures
            r is Ok,
            final(self).values() == Set::<u64>::empty(),
            final(self).wf(),
            final(self).refcnt_spec() == old(self).refcnt_spec(),
            final(self).counter_spec() == old(self).counter_spec(),
    {
        self.set.clear();
        Ok(())
    }

    /// Whether a value was recorded before.
    pub fn contains(&self, v: u64) -> (r: bool)
        ensures
            r == self.values().contains(v),
    {
        self.set.contains(v)
    }

    /// Record one value that was not recorded before.
    pub fn record_novel(&mut self, v: u64)
        requires
            old(self).wf(),
            !old(self).values().contains(v),
        ensures
            final(self).wf(),
            final(self).values() == old(self).values().insert(v),
            final(self).refcnt_spec() == old(self).refcnt_spec(),
            final(self).counter_spec() == sat_add_u64(old(self).counter_spec(), 1),
    {
        self.set.insert(v);
        if self.counter < u64::MAX {
            self.counter = self.counter + 1;
        }
    }

    /// The recorded values, each once, in no promised order.
    pub fn values_vec(&self) -> (r: Vec<u64>)
        ensures
            r@.to_set() == self.values(),
            r@.no_duplicates(),
    {
        self.set.to_vec()
    }

    /// The reference count.
    pub fn refcnt(&self) -> (r: i64)
        ensures
            r == self.refcnt_spec(),
    {
        self.tcref
    }

    /// The running counter is a machine word.
    pub proof fn lemma_counter_in_range(&self)
        ensures
            0 <= self.counter_spec() <= u64::MAX,
    {
    }

    /// The running count of recorded values.
    pub fn counter(&self) -> (r: u64)
        ensures
            r == self.counter_spec(),
    {
        self.counter
    }

    /// Count one more corpus entry relying on this record.
    pub fn inc_refcnt(&mut self)
        requires
            old(self).wf(),
            old(self).refcnt_spec() < i64::MAX,
        ensures
            final(self).wf(),
            final(self).refcnt_spec() == old(self).refcnt_spec() + 1,
            final(self).values() == old(self).values(),
            final(self).counter_spec() == old(self).counter_spec(),
    {
        self.tcref = self.tcref + 1;
    }

    /// Count one fewer corpus entry relying on this record.  Checked
    /// defensively: a count already at zero stays at zero rather than going
    /// negative.
    pub fn dec_refcnt(&mut self)
        requires
            old(self).wf(),
        ensures
            final(self).wf(),
            final(self).refcnt_spec() == if old(self).refcnt_spec() > 0 {
                old(self).refcnt_spec() - 1
            } else {
                0
            },
            final(self).values() == old(self).values(),
            final(self).counter_spec() == old(self).counter_spec(),
    {
        if self.tcref > 0 {
            self.tcref = self.tcref - 1;
        }
    }
}

/// The reference count of a well-formed metadata record is never negative.
pub proof fn lemma_refcnt_never_negative(m: &ListFeedbackMetadata)
    requires
        m.wf(),
    ensures
        m.refcnt_spec() >= 0,
{
}

} // verus!
