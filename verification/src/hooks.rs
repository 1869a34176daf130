//! Executor hooks: per-execution bookkeeping around the target run.

use vstd::prelude::*;

verus! {

/// A hook recording where the input buffer of the current execution lies,
/// as a half-open address span.  The embedding publishes the span to the
/// instrumentation; this engine computes and remembers it.
pub struct MemacHook {
    span: Option<(u64, u64)>,
}

impl MemacHook {
    /// The recorded input buffer span, if an execution is in flight.
    pub closed spec fn span_spec(&self) -> Option<(u64, u64)> {
        self.span
    }

    /// Build the hook, with no span recorded.
    pub fn new() -> (r: MemacHook)
        ensures
            r.span_spec() is None,
    {
        MemacHook { span: None }
    }

    /// Reset the recorded span at initialization.
    pub fn init(&mut self)
        ensures
            final(self).span_spec() is None,
    {
        self.span = None;
    }

    /// Before one execution: record the span of the input buffer from its
    /// base address and length.
    pub fn pre_exec(&mut self, base: u64, len: u64)
        requires
            base + len <= u64::MAX,
        ensures
            final(self).span_spec() == Some((base, (base + len) as u64)),
    {
        self.span = Some((base, base + len));
    }

    /// After one execution: nothing to clean up.
    pub fn post_exec(&mut self)
        ensures
            final(self).span_spec() == old(self).span_spec(),
    {
    }

    /// The recorded span.
    pub fn span(&self) -> (r: Option<(u64, u64)>)
        ensures
            r == self.span_spec(),
    {
        self.span
    }
}

impl Default for MemacHook {
    /// The default hook records nothing.
    fn default() -> (r: MemacHook)
        ensures
            r.span_spec() is None,
    {
        MemacHook::new()
    }
}

} // verus!
