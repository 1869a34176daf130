//! Mutators: stateful input transformers whose eventual Skipped verdict
//! bounds every mutational loop.

use vstd::prelude::*;
use crate::MutationResult;
use crate::corpus::SeedId;
use crate::errors::Error;
use crate::state::FuzzState;

verus! {

/// A stateful mutator.
///
/// `verdicts()` is the log of verdicts this mutator has returned and
/// `posts()` counts its post-evaluation hook calls; together they let a
/// mutational stage account for its work exactly.  `skip_bound()` makes
/// termination a contract: once the attempt counter reaches it, the mutator
/// no longer reports Mutated.
pub trait Mutator: Sized {
    /// The verdicts returned so far, oldest first.
    open spec fn verdicts(&self) -> Seq<MutationResult> {
        Seq::empty()
    }

    /// How many times the post-evaluation hook ran.
    open spec fn posts(&self) -> nat {
        0
    }

    /// An attempt count from which this mutator always declines.
    open spec fn skip_bound(&self) -> u64 {
        0
    }

    /// The candidate inputs this mutator received, oldest first.
    open spec fn received(&self) -> Seq<Seq<u8>> {
        Seq::empty()
    }

    /// The candidate inputs this mutator handed back on success, oldest
    /// first.
    open spec fn outputs(&self) -> Seq<Seq<u8>> {
        Seq::empty()
    }

    /// Transform one candidate input.  A mutator works on the candidate
    /// alone: the corpus, the metadata and the size limit come out as they
    /// went in.
    fn mutate(&mut self, state: &mut FuzzState, input: &mut Vec<u8>, stage_idx: u64) -> (r:
        Result<MutationResult, Error>)
        requires
            old(state).wf(),
        ensures
            final(state).wf(),
            final(state).corpus == old(state).corpus,
            final(state).metadata == old(state).metadata,
            final(state).max_size == old(state).max_size,
            final(self).skip_bound() == old(self).skip_bound(),
            final(self).posts() == old(self).posts(),
            final(self).received() == old(self).received().push(old(input)@),
            (r matches Ok(v) ==> final(self).verdicts() == old(self).verdicts().push(v)),
            (r matches Ok(v) ==> final(self).outputs() == old(self).outputs().push(
                final(input)@,
            )),
            (r is Err ==> final(self).verdicts() == old(self).verdicts() && final(self).outputs() == old(self).outputs()),
            (stage_idx >= old(self).skip_bound() ==> !(r matches Ok(
                MutationResult::Mutated,
            ))),
    ;

    /// The post-evaluation hook, told which corpus entry (if any) the
    /// evaluated candidate became.
    fn post_exec(&mut self, state: &mut FuzzState, stage_idx: u64, new_id: Option<SeedId>) -> (r:
        Result<(), Error>)
        requires
            old(state).wf(),
        ensures
            final(state).wf(),
            final(state).corpus == old(state).corpus,
            final(state).metadata == old(state).metadata,
            final(state).max_size == old(state).max_size,
            final(self).skip_bound() == old(self).skip_bound(),
            final(self).posts() == old(self).posts() + 1,
            final(self).verdicts() == old(self).verdicts(),
            final(self).received() == old(self).received(),
            final(self).outputs() == old(self).outputs(),
    ;
}

/// A bounded havoc mutator: it flips one random byte per attempt and
/// declines once the attempt counter reaches its round budget.
pub struct FlipMutator {
    rounds: u64,
    history: Ghost<Seq<MutationResult>>,
    post_calls: Ghost<nat>,
    received_log: Ghost<Seq<Seq<u8>>>,
    output_log: Ghost<Seq<Seq<u8>>>,
}

impl FlipMutator {
    /// A mutator that mutates for the given number of rounds per seed.
    pub fn new(rounds: u64) -> (r: FlipMutator)
        ensures
            r.skip_bound() == rounds,
            r.verdicts() == Seq::<MutationResult>::empty(),
            r.posts() == 0,
    {
        FlipMutator {
            rounds,
            history: Ghost(Seq::empty()),
            post_calls: Ghost(0),
            received_log: Ghost(Seq::empty()),
            output_log: Ghost(Seq::empty()),
        }
    }
}

impl Mutator for FlipMutator {
    closed spec fn verdicts(&self) -> Seq<MutationResult> {
        self.history@
    }

    closed spec fn posts(&self) -> nat {
        self.post_calls@
    }

    closed spec fn skip_bound(&self) -> u64 {
        self.rounds
    }

    closed spec fn received(&self) -> Seq<Seq<u8>> {
        self.received_log@
    }

    closed spec fn outputs(&self) -> Seq<Seq<u8>> {
        self.output_log@
    }

    /// Flip one random byte, or decline on an exhausted budget or an empty
    /// input.
    fn mutate(&mut self, state: &mut FuzzState, input: &mut Vec<u8>, stage_idx: u64) -> (r:
        Result<MutationResult, Error>)
        ensures
            (r matches Ok(v) ==> v == if stage_idx < old(self).skip_bound() && old(
                input,
            ).len() > 0 {
                MutationResult::Mutated
            } else {
                MutationResult::Skipped
            }),
            r is Ok,
            final(input).len() == old(input).len(),
    {
        self.received_log = Ghost(self.received_log@.push(input@));
        if stage_idx >= self.rounds || input.len() == 0 {
            self.history = Ghost(self.history@.push(MutationResult::Skipped));
            self.output_log = Ghost(self.output_log@.push(input@));
            return Ok(MutationResult::Skipped);
        }
        let len = input.len();
        let pos = state.rand.below(len as u64) as usize;
        let bit = state.rand.below(8) as u8;
        let b = input[pos];
        input.set(pos, b ^ (1u8 << bit));
        self.history = Ghost(self.history@.push(MutationResult::Mutated));
        self.output_log = Ghost(self.output_log@.push(input@));
        Ok(MutationResult::Mutated)
    }

    /// This mutator keeps no cross-attempt state; the hook only counts.
    fn post_exec(&mut self, state: &mut FuzzState, stage_idx: u64, new_id: Option<SeedId>) -> (r:
        Result<(), Error>)
        ensures
            r is Ok,
    {
        self.post_calls = Ghost(self.post_calls@ + 1);
        Ok(())
    }
}

} // verus!
