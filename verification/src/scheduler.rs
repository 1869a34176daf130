//! The scheduler: next-seed selection and removal notification.  The policy
//! here is a plain queue; the notification entry points are the single place
//! through which stages report corpus changes.

use vstd::prelude::*;
use crate::corpus::{Corpus, SeedId, Testcase};
use crate::errors::Error;

verus! {

/// A queue scheduler: it cycles through the enabled corpus in order.
pub struct QueueScheduler {
    cursor: usize,
    removals: Ghost<nat>,
}

impl QueueScheduler {
    /// The position of the queue: how many selections were handed out.
    pub closed spec fn cursor_spec(&self) -> usize {
        self.cursor
    }

    /// How many removal notifications this scheduler received.
    pub closed spec fn removals(&self) -> nat {
        self.removals@
    }

    /// A scheduler starting at the head of the queue.
    pub fn new() -> (r: QueueScheduler)
        ensures
            r.cursor_spec() == 0,
            r.removals() == 0,
    {
        QueueScheduler { cursor: 0, removals: Ghost(0) }
    }

    /// The next seed to fuzz: the enabled entries in order, round and
    /// round, as long as one exists.
    pub fn next(&mut self, corpus: &Corpus) -> (r: Result<SeedId, Error>)
        requires
            corpus.wf(),
        ensures
            r is Ok <==> corpus.count_enabled_spec() > 0,
            r matches Ok(id) ==> corpus.in_enabled(id) && corpus.contains_id(id) && id
                == corpus.enabled_ids()[old(self).cursor_spec() as int % corpus.count_enabled_spec()],
            r is Ok ==> final(self).cursor_spec() == (if old(self).cursor_spec()
                == usize::MAX {
                0
            } else {
                (old(self).cursor_spec() + 1) as usize
            }),
            r is Err ==> *final(self) == *old(self),
            r matches Err(e) ==> e is IllegalState,
            final(self).removals() == old(self).removals(),
    {
        let n = corpus.count();
        if n == 0 {
            return Err(Error::illegal_state("the corpus has no enabled entries"));
        }
        let i = self.cursor % n;
        self.cursor = if self.cursor == usize::MAX {
            0
        } else {
            self.cursor + 1
        };
        Ok(corpus.nth_enabled(i))
    }

    /// Notification that an entry was admitted.  The queue policy keeps no
    /// weight tables, so nothing changes.
    pub fn on_add(&mut self, id: SeedId) -> (r: Result<(), Error>)
        ensures
            r is Ok,
            *final(self) == *old(self),
    {
        Ok(())
    }

    /// Notification that an entry was removed through the scheduler-mediated
    /// removal path, with the removed testcase for any derived bookkeeping.
    /// The queue policy keeps no weight tables; the notification is counted.
    pub fn on_remove(&mut self, id: SeedId, removed: &Testcase) -> (r: Result<(), Error>)
        ensures
            r is Ok,
            final(self).removals() == old(self).removals() + 1,
            final(self).cursor_spec() == old(self).cursor_spec(),
    {
        self.removals = Ghost(self.removals@ + 1);
        Ok(())
    }
}

} // verus!
