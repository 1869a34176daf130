//! The execute-once boundary, and composition over it.

use vstd::prelude::*;
use crate::ExitKind;
use crate::errors::Error;

verus! {

/// One execute-once unit.  Implementations run the target in whatever way
/// the embedding provides; this engine sees only the exit kind and the named
/// observation channel.
///
/// `resets()` counts the calls of the per-iteration reset hook; running the
/// target never changes it, so wrappers can account for resets exactly.
pub trait Executor: Sized {
    /// How many times the post-run reset hook ran.
    open spec fn resets(&self) -> nat {
        0
    }

    /// The runs of the target so far: each input handed over, with the
    /// exit kind it produced, or nothing for a failed run.
    open spec fn run_log(&self) -> Seq<(Seq<u8>, Option<ExitKind>)> {
        Seq::empty()
    }

    /// Run the target once on an input.
    fn run_target(&mut self, input: &Vec<u8>) -> (r: Result<ExitKind, Error>)
        ensures
            final(self).resets() == old(self).resets(),
            final(self).observations_log() == old(self).observations_log(),
            final(self).run_log() == old(self).run_log().push(
                (input@, match r {
                    Ok(k) => Some(k),
                    Err(_) => None::<ExitKind>,
                }),
            ),
    ;

    /// The observations handed out so far through the list-shaped channel.
    open spec fn observations_log(&self) -> Seq<Seq<u64>> {
        Seq::empty()
    }

    /// The per-iteration reset hook for this unit's instrumentation state.
    fn post_run_reset(&mut self)
        ensures
            final(self).resets() == old(self).resets() + 1,
            final(self).run_log() == old(self).run_log(),
            final(self).observations_log() == old(self).observations_log(),
    ;

    /// Read the list-shaped observation channel of the last run.  What comes
    /// out is the instrumentation's to decide; the log pins that exactly
    /// this value was handed out.
    fn list_observation(&mut self) -> (r: Vec<u64>)
        ensures
            final(self).resets() == old(self).resets(),
            final(self).run_log() == old(self).run_log(),
            final(self).observations_log() == old(self).observations_log().push(r@),
    ;
}

/// A combinator wrapping a primary and a secondary executor.  Running the
/// target goes to the primary alone; both reset hooks run afterwards, the
/// primary's first, whether or not the run succeeded.  This keeps any
/// per-iteration instrumentation state owned by the secondary in step with
/// the primary's iteration count.
pub struct CombinedExecutor<A, B> {
    primary: A,
    secondary: B,
    reset_count: Ghost<nat>,
    run_history: Ghost<Seq<(Seq<u8>, Option<ExitKind>)>>,
    observed: Ghost<Seq<Seq<u64>>>,
}

impl<A: Executor, B: Executor> CombinedExecutor<A, B> {
    /// Wrap the given executors.
    pub fn new(primary: A, secondary: B) -> (r: CombinedExecutor<A, B>)
        ensures
            r.primary_spec() == primary,
            r.secondary_spec() == secondary,
    {
        CombinedExecutor {
            primary,
            secondary,
            reset_count: Ghost(0),
            run_history: Ghost(Seq::empty()),
            observed: Ghost(Seq::empty()),
        }
    }

    /// The wrapped primary executor.
    pub closed spec fn primary_spec(&self) -> A {
        self.primary
    }

    /// The wrapped secondary executor.
    pub closed spec fn secondary_spec(&self) -> B {
        self.secondary
    }

    /// Reach the wrapped primary executor.
    pub fn primary(&mut self) -> (r: &mut A)
        ensures
            *r == old(self).primary_spec(),
            final(self).primary_spec() == *final(r),
            final(self).secondary_spec() == old(self).secondary_spec(),
    {
        &mut self.primary
    }

    /// Reach the wrapped secondary executor.
    pub fn secondary(&mut self) -> (r: &mut B)
        ensures
            *r == old(self).secondary_spec(),
            final(self).secondary_spec() == *final(r),
            final(self).primary_spec() == old(self).primary_spec(),
    {
        &mut self.secondary
    }
}

impl<A: Executor, B: Executor> Executor for CombinedExecutor<A, B> {
    /// The combinator's own reset hook is separate from the hooks of its
    /// members, which `run_target` drives itself.
    closed spec fn resets(&self) -> nat {
        self.reset_count@
    }

    closed spec fn run_log(&self) -> Seq<(Seq<u8>, Option<ExitKind>)> {
        self.run_history@
    }

    closed spec fn observations_log(&self) -> Seq<Seq<u64>> {
        self.observed@
    }

    /// Run the primary, then invoke both reset hooks unconditionally, the
    /// primary's first — for any outcome of the run, each hook runs exactly
    /// once.  The returned value is the primary's run result, and the
    /// secondary never runs the target: only its reset hook fires.
    fn run_target(&mut self, input: &Vec<u8>) -> (r: Result<ExitKind, Error>)
        ensures
            final(self).primary_spec().resets() == old(self).primary_spec().resets() + 1,
            final(self).secondary_spec().resets() == old(self).secondary_spec().resets()
                + 1,
            final(self).primary_spec().run_log() == old(self).primary_spec().run_log().push(
                (input@, match r {
                    Ok(k) => Some(k),
                    Err(_) => None::<ExitKind>,
                }),
            ),
            final(self).secondary_spec().run_log() == old(self).secondary_spec().run_log(),
            final(self).secondary_spec().observations_log() == old(
                self,
            ).secondary_spec().observations_log(),
    {
        let ret = self.primary.run_target(input);
        self.primary.post_run_reset();
        self.secondary.post_run_reset();
        let ghost outcome: Option<ExitKind> = match ret {
            Ok(k) => Some(k),
            Err(_) => None,
        };
        self.run_history = Ghost(self.run_history@.push((input@, outcome)));
        ret
    }

    fn post_run_reset(&mut self) {
        self.reset_count = Ghost(self.reset_count@ + 1);
    }

    /// Observations come from the primary, which ran the target.
    fn list_observation(&mut self) -> (r: Vec<u64>) {
        let r = self.primary.list_observation();
        self.observed = Ghost(self.observed@.push(r@));
        r
    }
}

} // verus!
