//! The mutator bridge: lets a legacy single-global-slot foreign mutation
//! callback drive the high-level mutator, with explicit install/restore of
//! the slot and try-acquire semantics against reentrancy.
//!
//! The foreign entry points themselves live outside this engine.  The
//! embedding installs a proxy into the slot, hands the padded buffer to the
//! foreign code — which may call [`LLVMFuzzerMutate`] back any number of
//! times — and then resolves the outcome.  A borrow conflict or an
//! oversized foreign result degrades to a Skipped mutation; the boundary
//! never panics.

use vstd::prelude::*;
use crate::MutationResult;
use crate::errors::Error;
use crate::rand::spec_next;
use crate::mutators::Mutator;
use crate::state::FuzzState;

verus! {

/// A byte-for-byte copy of a buffer.
pub(crate) fn clone_bytes(src: &Vec<u8>) -> (r: Vec<u8>)
    ensures
        r@ == src@,
{
    let mut out: Vec<u8> = Vec::new();
    let mut i: usize = 0;
    while i < src.len()
        invariant
            i <= src@.len(),
            out@ == src@.subrange(0, i as int),
        decreases src@.len() - i,
    {
        out.push(src[i]);
        proof {
            assert(out@ =~= src@.subrange(0, i as int + 1));
        }
        i = i + 1;
    }
    proof {
        assert(src@.subrange(0, src@.len() as int) =~= src@);
    }
    out
}

/// What one bridged call hands the mutation engine: the mutator, a cell for
/// the high-level result (the foreign ABI has no channel for typed errors),
/// and the attempt counter of the enclosing stage.
pub struct MutatorProxy<M> {
    mutator: M,
    result: Option<Result<MutationResult, Error>>,
    stage_idx: u64,
}

impl<M: Mutator> MutatorProxy<M> {
    /// The carried mutator.
    pub closed spec fn mutator_spec(&self) -> M {
        self.mutator
    }

    /// The result cell: still unset, or the outcome of the bridged call.
    pub closed spec fn result_spec(&self) -> Option<Result<MutationResult, Error>> {
        self.result
    }

    /// The attempt counter handed to the mutator.
    pub closed spec fn stage_idx_spec(&self) -> u64 {
        self.stage_idx
    }

    /// Wrap a mutator for one bridged call; the result cell starts unset.
    pub fn new(mutator: M, stage_idx: u64) -> (r: MutatorProxy<M>)
        ensures
            r.mutator_spec() == mutator,
            r.result_spec() is None,
            r.stage_idx_spec() == stage_idx,
    {
        MutatorProxy { mutator, result: None, stage_idx }
    }
}

/// The single global slot through which the foreign callback reaches the
/// mutation engine, with an exclusive-access flag guarding against
/// reentrancy.  The embedding holds one slot per thread and installs a
/// proxy for the duration of one foreign call, restoring the previous
/// contents afterwards.
pub struct MutatorSlot<M> {
    installed: Option<MutatorProxy<M>>,
    busy: bool,
}

impl<M: Mutator> MutatorSlot<M> {
    /// The installed proxy, if any.
    pub closed spec fn installed_spec(&self) -> Option<MutatorProxy<M>> {
        self.installed
    }

    /// Whether the slot is borrowed by a call in flight.
    pub closed spec fn busy_spec(&self) -> bool {
        self.busy
    }

    /// An empty, unborrowed slot.
    pub fn empty() -> (r: MutatorSlot<M>)
        ensures
            r.installed_spec() is None,
            !r.busy_spec(),
    {
        MutatorSlot { installed: None, busy: false }
    }

    /// Install a proxy, handing back the previous contents so that nested
    /// installs restore them afterwards.
    pub fn install(&mut self, proxy: MutatorProxy<M>) -> (prev: Option<MutatorProxy<M>>)
        ensures
            final(self).installed_spec() == Some(proxy),
            final(self).busy_spec() == old(self).busy_spec(),
            prev == old(self).installed_spec(),
    {
        let prev = self.installed.take();
        self.installed = Some(proxy);
        prev
    }

    /// Put previous contents back.
    pub fn restore(&mut self, prev: Option<MutatorProxy<M>>)
        ensures
            final(self).installed_spec() == prev,
            final(self).busy_spec() == old(self).busy_spec(),
    {
        self.installed = prev;
    }

    /// Try to borrow the installed proxy exclusively: a slot that is empty
    /// or already borrowed yields nothing, and a successful borrow marks
    /// the slot busy until [`MutatorSlot::restore_entry`].
    pub fn try_borrow_entry(&mut self) -> (r: Option<MutatorProxy<M>>)
        ensures
            (old(self).busy_spec() || old(self).installed_spec() is None) ==> (r is None
                && *final(self) == *old(self)),
            (!old(self).busy_spec() && old(self).installed_spec() is Some) ==> (r == old(
                self,
            ).installed_spec() && final(self).busy_spec() && final(self).installed_spec()
                is None),
    {
        if self.busy {
            return None;
        }
        match self.installed.take() {
            Some(p) => {
                self.busy = true;
                Some(p)
            },
            None => None,
        }
    }

    /// End an exclusive borrow, putting the proxy back.
    pub fn restore_entry(&mut self, proxy: MutatorProxy<M>)
        ensures
            final(self).installed_spec() == Some(proxy),
            !final(self).busy_spec(),
    {
        self.installed = Some(proxy);
        self.busy = false;
    }

    /// End an exclusive borrow, installing arbitrary previous contents.
    pub fn end_borrow(&mut self, prev: Option<MutatorProxy<M>>)
        ensures
            final(self).installed_spec() == prev,
            !final(self).busy_spec(),
    {
        self.installed = prev;
        self.busy = false;
    }
}

/// The foreign-facing mutation entry point, on the modeled slot: copy the
/// candidate bytes, run the installed mutator under a temporary max-size
/// override, and copy the result back only if it fits the cap.
///
/// A reentrant call — the slot is busy — or a call with nothing installed
/// reports zero bytes written and changes nothing; the failure travels
/// through the proxy's result cell, never as a panic.  On any path the
/// state's size limit is restored and no more than `max_size` bytes are
/// reported.
#[allow(non_snake_case)]
pub fn LLVMFuzzerMutate<M: Mutator>(
    slot: &mut MutatorSlot<M>,
    state: &mut FuzzState,
    data: &mut Vec<u8>,
    size: usize,
    max_size: usize,
) -> (n: usize)
    requires
        old(state).wf(),
        size <= old(data).len(),
        max_size <= old(data).len(),
    ensures
        final(state).wf(),
        final(state).max_size == old(state).max_size,
        n <= max_size,
        final(data).len() == old(data).len(),
        (old(slot).busy_spec() || old(slot).installed_spec() is None) ==> (n == 0 && *final(data) == *old(data) && *final(slot) == *old(slot) && *final(state) == *old(state)),
        (!old(slot).busy_spec() && old(slot).installed_spec() is Some) ==> {
            let p0 = old(slot).installed_spec().unwrap();
            &&& final(slot).installed_spec() is Some
            &&& final(slot).busy_spec() == old(slot).busy_spec()
            &&& {
                let p1 = final(slot).installed_spec().unwrap();
                &&& p1.stage_idx_spec() == p0.stage_idx_spec()
                &&& p1.result_spec() is Some
                &&& p1.mutator_spec().received() == p0.mutator_spec().received().push(
                    old(data)@.subrange(0, size as int),
                )
                &&& (p1.result_spec() matches Some(Ok(v)) ==> {
                    &&& p1.mutator_spec().verdicts() == p0.mutator_spec().verdicts().push(v)
                    &&& p1.mutator_spec().outputs() == p0.mutator_spec().outputs().push(
                        final(data)@.subrange(0, n as int),
                    )
                    &&& n as int == p1.mutator_spec().outputs().last().len()
                    &&& final(data)@.subrange(n as int, final(data)@.len() as int) == old(
                        data,
                    )@.subrange(n as int, old(data)@.len() as int)
                })
                &&& (p1.result_spec() matches Some(Err(e)) ==> {
                    &&& n == 0
                    &&& *final(data) == *old(data)
                    &&& ((p1.mutator_spec().outputs() == p0.mutator_spec().outputs()
                        && p1.mutator_spec().verdicts() == p0.mutator_spec().verdicts()) || (
                    p1.mutator_spec().outputs().len() == p0.mutator_spec().outputs().len()
                        + 1 && p1.mutator_spec().outputs().last().len() > max_size
                        && p1.mutator_spec().verdicts().len() == p0.mutator_spec().verdicts().len()
                        + 1 && e is IllegalState))
                })
            }
        },
{
    let mut proxy = match slot.try_borrow_entry() {
        Some(p) => p,
        None => {
            return 0;
        },
    };
    let old_max = state.max_size;
    state.max_size = max_size;
    let mut candidate: Vec<u8> = Vec::new();
    let mut i: usize = 0;
    while i < size
        invariant
            i <= size,
            size <= data@.len(),
            candidate@ == data@.subrange(0, i as int),
        decreases size - i,
    {
        candidate.push(data[i]);
        proof {
            assert(candidate@ =~= data@.subrange(0, i as int + 1));
        }
        i = i + 1;
    }
    let res = proxy.mutator.mutate(state, &mut candidate, proxy.stage_idx);
    state.max_size = old_max;
    let n = match res {
        Ok(v) => {
            proxy.result = Some(Ok(v));
            if candidate.len() <= max_size {
                let out_len = candidate.len();
                let ghost data1 = data@;
                let mut j: usize = 0;
                while j < out_len
                    invariant
                        j <= out_len,
                        out_len <= max_size,
                        max_size <= data@.len(),
                        out_len == candidate@.len(),
                        data@.len() == data1.len(),
                        forall|k: int| 0 <= k < j ==> data@[k] == candidate@[k],
                        forall|k: int| j <= k < data@.len() ==> data@[k] == data1[k],
                    decreases out_len - j,
                {
                    let b = candidate[j];
                    data.set(j, b);
                    j = j + 1;
                }
                proof {
                    assert(data@.subrange(0, out_len as int) =~= candidate@);
                    assert(data@.subrange(out_len as int, data@.len() as int)
                        =~= data1.subrange(out_len as int, data1.len() as int));
                }
                out_len
            } else {
                proxy.result = Some(
                    Err(Error::illegal_state("the mutation result was too long")),
                );
                0
            }
        },
        Err(e) => {
            proxy.result = Some(Err(e));
            0
        },
    };
    slot.restore_entry(proxy);
    n
}

/// A prepared bridged mutation: the padded buffer the foreign code mutates
/// in place, its filled prefix length, the 32-bit seed, and the previous
/// slot contents to restore.
pub struct BridgePrep<M> {
    /// The buffer handed to the foreign entry point, `max_size` long.
    pub buffer: Vec<u8>,
    /// How many leading bytes hold the candidate input.
    pub size: usize,
    /// The seed for the foreign mutator, drawn from the engine's random
    /// source.
    pub seed: u32,
    /// The slot contents to restore when the call resolves.
    pub saved: Option<MutatorProxy<M>>,
}

impl<M: Mutator> BridgePrep<M> {
    /// The slot contents to restore when the call resolves.
    pub open spec fn saved_spec(&self) -> Option<MutatorProxy<M>> {
        self.saved
    }
}

/// The high-level mutator bridged over the foreign custom-mutator ABI; the
/// const parameter selects the crossover variant.
pub struct LLVMCustomMutator<M, const CROSSOVER: bool> {
    mutator: Option<M>,
}

impl<M: Mutator, const CROSSOVER: bool> LLVMCustomMutator<M, CROSSOVER> {
    /// Whether the mutator is home, rather than installed in the slot.
    pub closed spec fn has_mutator(&self) -> bool {
        self.mutator is Some
    }

    /// The held mutator.
    pub closed spec fn mutator_spec(&self) -> M {
        self.mutator.unwrap()
    }

    /// Begin one bridged call: pad the input to the state's size limit,
    /// draw the foreign seed, and install the mutator into the slot,
    /// remembering the previous contents.
    pub fn begin_mutate(
        &mut self,
        slot: &mut MutatorSlot<M>,
        state: &mut FuzzState,
        input: &Vec<u8>,
        stage_idx: u64,
    ) -> (r: BridgePrep<M>)
        requires
            old(self).has_mutator(),
            old(state).wf(),
            input@.len() <= old(state).max_size,
        ensures
            final(state).wf(),
            final(state).max_size == old(state).max_size,
            !final(self).has_mutator(),
            final(slot).installed_spec() matches Some(p) && p.mutator_spec() == old(
                self,
            ).mutator_spec() && p.result_spec() is None && p.stage_idx_spec() == stage_idx,
            final(slot).busy_spec() == old(slot).busy_spec(),
            r.saved_spec() == old(slot).installed_spec(),
            r.buffer@.len() == old(state).max_size,
            r.size == input@.len(),
            r.buffer@.subrange(0, r.size as int) == input@,
    {
        let seed = state.rand.next_u32();
        let mut buffer = clone_bytes(input);
        let target = state.max_size;
        while buffer.len() < target
            invariant
                buffer@.len() <= target,
                buffer@.subrange(0, input@.len() as int) == input@,
                input@.len() <= buffer@.len(),
            decreases target - buffer@.len(),
        {
            buffer.push(0);
            proof {
                assert(buffer@.subrange(0, input@.len() as int) =~= buffer@.drop_last(
                ).subrange(0, input@.len() as int));
            }
        }
        let size = input.len();
        let mutator = match self.mutator.take() {
            Some(m) => m,
            None => {
                proof {
                    assert(false);
                }
                vstd::pervasive::unreached::<M>()
            },
        };
        let proxy = MutatorProxy::new(mutator, stage_idx);
        let saved = slot.install(proxy);
        proof {
            assert(buffer@.subrange(0, size as int) == input@);
        }
        BridgePrep { buffer, size, seed, saved }
    }

    /// Resolve one bridged call after the foreign entry point returned:
    /// recover the mutator, restore the previous slot contents, and
    /// interpret the result cell.  An unset cell or a recorded failure —
    /// a borrow conflict, an oversized result — resolves to Skipped with
    /// the input untouched; only a recorded success hands the mutated
    /// buffer back, truncated to the foreign length.
    pub fn finish_mutate(
        &mut self,
        slot: &mut MutatorSlot<M>,
        input: &mut Vec<u8>,
        prep: BridgePrep<M>,
        new_size: usize,
    ) -> (r: Result<MutationResult, Error>)
        requires
            new_size <= prep.buffer@.len(),
        ensures
            (old(slot).busy_spec() || old(slot).installed_spec() is None) ==> (r matches Err(
                e,
            ) && e is IllegalState && *final(input) == *old(input) && *final(self) == *old(
                self,
            )),
            (!old(slot).busy_spec() && old(slot).installed_spec() is Some) ==> {
                let p = old(slot).installed_spec().unwrap();
                &&& final(self).has_mutator()
                &&& final(self).mutator_spec() == p.mutator_spec()
                &&& final(slot).installed_spec() == prep.saved_spec()
                &&& final(slot).busy_spec() == old(slot).busy_spec()
                &&& ((p.result_spec() is None || p.result_spec() matches Some(Err(_)))
                    ==> (r matches Ok(MutationResult::Skipped) && *final(input) == *old(
                    input,
                )))
                &&& (p.result_spec() matches Some(Ok(_)) ==> (r matches Ok(
                    MutationResult::Mutated,
                ) && final(input)@ == prep.buffer@.subrange(0, new_size as int)))
            },
    {
        let proxy = match slot.try_borrow_entry() {
            Some(p) => p,
            None => {
                return Err(
                    Error::illegal_state("the mutator slot lost its entry mid-call"),
                );
            },
        };
        let MutatorProxy { mutator, result, stage_idx: _ } = proxy;
        self.mutator = Some(mutator);
        slot.end_borrow(prep.saved);
        match result {
            Some(Ok(_)) => {
                let mut buffer = prep.buffer;
                buffer.truncate(new_size);
                *input = buffer;
                Ok(MutationResult::Mutated)
            },
            _ => Ok(MutationResult::Skipped),
        }
    }
}

impl<M: Mutator> LLVMCustomMutator<M, false> {
    /// Build the bridged mutator, refusing when the target defines no
    /// custom mutator entry point; the presence flag comes from the
    /// embedding.
    pub fn mutate(mutator: M, has_custom: bool) -> (r: Result<
        LLVMCustomMutator<M, false>,
        Error,
    >)
        ensures
            r is Ok <==> has_custom,
            r matches Ok(m) ==> m.has_mutator() && m.mutator_spec() == mutator,
            r matches Err(e) ==> e is IllegalState,
    {
        if has_custom {
            Ok(LLVMCustomMutator { mutator: Some(mutator) })
        } else {
            Err(
                Error::illegal_state(
                    "refusing to bridge a custom mutator the target does not define",
                ),
            )
        }
    }
}

impl<M: Mutator> LLVMCustomMutator<M, true> {
    /// Build the bridged crossover, refusing when the target defines no
    /// custom crossover entry point; the presence flag comes from the
    /// embedding.
    pub fn crossover(mutator: M, has_custom: bool) -> (r: Result<
        LLVMCustomMutator<M, true>,
        Error,
    >)
        ensures
            r is Ok <==> has_custom,
            r matches Ok(m) ==> m.has_mutator() && m.mutator_spec() == mutator,
            r matches Err(e) ==> e is IllegalState,
    {
        if has_custom {
            Ok(LLVMCustomMutator { mutator: Some(mutator) })
        } else {
            Err(
                Error::illegal_state(
                    "refusing to bridge a custom crossover the target does not define",
                ),
            )
        }
    }

    /// Begin one bridged crossover: pick a second, different testcase
    /// uniformly at random from the enabled corpus — skipping the attempt
    /// when the draw lands on the selected entry — and prepare both buffers
    /// for the foreign crossover entry point.
    pub fn begin_crossover(
        &mut self,
        slot: &mut MutatorSlot<M>,
        state: &mut FuzzState,
        input: &Vec<u8>,
        stage_idx: u64,
    ) -> (r: Result<Option<CrossoverPrep<M>>, Error>)
        requires
            old(self).has_mutator(),
            old(state).wf(),
        ensures
            final(state).wf(),
            final(state).max_size == old(state).max_size,
            r matches Err(e) ==> e is IllegalState && final(self).has_mutator() && *final(slot) == *old(slot),
            (r is Err <==> old(state).corpus.count_enabled_spec() == 0),
            r matches Ok(Some(prep)) ==> {
                &&& !final(self).has_mutator()
                &&& final(slot).installed_spec() matches Some(p) && p.mutator_spec() == old(
                    self,
                ).mutator_spec() && p.result_spec() is None && p.stage_idx_spec()
                    == stage_idx
                &&& final(slot).busy_spec() == old(slot).busy_spec()
                &&& prep.saved_spec() == old(slot).installed_spec()
                &&& prep.out@.len() == old(state).max_size
            },
            r matches Ok(None) ==> (final(self).has_mutator() && *final(slot) == *old(
                slot,
            )),
            (old(state).corpus.count_enabled_spec() > 0 ==> {
                let pick = old(state).corpus.enabled_ids()[(spec_next(
                    old(state).rand.state_spec(),
                ) % (old(state).corpus.count_enabled_spec() as u64)) as int];
                &&& ((r matches Ok(o) && o is None) <==> Some(pick) == old(
                    state,
                ).corpus.current_spec())
                &&& (r matches Ok(Some(prep)) ==> (exists|gi: int|
                    0 <= gi < old(state).corpus.all_seq().len() && (#[trigger] old(
                        state,
                    ).corpus.all_seq()[gi]).id == pick && prep.other@ == old(
                        state,
                    ).corpus.all_seq()[gi].testcase.input@))
            }),
    {
        let n_enabled = state.corpus.count();
        if n_enabled == 0 {
            return Err(Error::illegal_state("the corpus has no enabled entries"));
        }
        let pick = state.rand.below(n_enabled as u64) as usize;
        let other_id = state.corpus.nth_enabled(pick);
        if let Some(cur) = state.corpus.current() {
            if other_id.0 == cur.0 {
                // splicing with the entry being fuzzed is pointless
                return Ok(None);
            }
        }
        let other = match state.corpus.get(other_id) {
            Ok(tc) => clone_bytes(&tc.input),
            Err(_) => {
                proof {
                    assert(false);
                }
                vstd::pervasive::unreached::<Vec<u8>>()
            },
        };
        let seed = state.rand.next_u32();
        let target = state.max_size;
        let mut out: Vec<u8> = Vec::new();
        while out.len() < target
            invariant
                out@.len() <= target,
            decreases target - out@.len(),
        {
            out.push(0);
        }
        let mutator = match self.mutator.take() {
            Some(m) => m,
            None => {
                proof {
                    assert(false);
                }
                vstd::pervasive::unreached::<M>()
            },
        };
        let proxy = MutatorProxy::new(mutator, stage_idx);
        let saved = slot.install(proxy);
        Ok(Some(CrossoverPrep { other, out, seed, saved }))
    }

    /// Resolve one bridged crossover, exactly as [`Self::finish_mutate`]
    /// resolves a bridged mutation, over the crossover's output buffer.
    pub fn finish_crossover(
        &mut self,
        slot: &mut MutatorSlot<M>,
        input: &mut Vec<u8>,
        prep: CrossoverPrep<M>,
        new_size: usize,
    ) -> (r: Result<MutationResult, Error>)
        requires
            new_size <= prep.out@.len(),
        ensures
            (old(slot).busy_spec() || old(slot).installed_spec() is None) ==> (r matches Err(
                e,
            ) && e is IllegalState && *final(input) == *old(input) && *final(self) == *old(
                self,
            )),
            (!old(slot).busy_spec() && old(slot).installed_spec() is Some) ==> {
                let p = old(slot).installed_spec().unwrap();
                &&& final(self).has_mutator()
                &&& final(self).mutator_spec() == p.mutator_spec()
                &&& final(slot).installed_spec() == prep.saved_spec()
                &&& final(slot).busy_spec() == old(slot).busy_spec()
                &&& ((p.result_spec() is None || p.result_spec() matches Some(Err(_)))
                    ==> (r matches Ok(MutationResult::Skipped) && *final(input) == *old(
                    input,
                )))
                &&& (p.result_spec() matches Some(Ok(_)) ==> (r matches Ok(
                    MutationResult::Mutated,
                ) && final(input)@ == prep.out@.subrange(0, new_size as int)))
            },
    {
        let proxy = match slot.try_borrow_entry() {
            Some(p) => p,
            None => {
                return Err(
                    Error::illegal_state("the mutator slot lost its entry mid-call"),
                );
            },
        };
        let MutatorProxy { mutator, result, stage_idx: _ } = proxy;
        self.mutator = Some(mutator);
        slot.end_borrow(prep.saved);
        match result {
            Some(Ok(_)) => {
                let mut buffer = prep.out;
                buffer.truncate(new_size);
                *input = buffer;
                Ok(MutationResult::Mutated)
            },
            _ => Ok(MutationResult::Skipped),
        }
    }
}

/// A prepared bridged crossover: the second input, the output buffer, the
/// seed, and the previous slot contents.
pub struct CrossoverPrep<M> {
    /// The bytes of the second, randomly drawn testcase.
    pub other: Vec<u8>,
    /// The output buffer handed to the foreign crossover entry point.
    pub out: Vec<u8>,
    /// The seed for the foreign crossover.
    pub seed: u32,
    /// The slot contents to restore when the call resolves.
    pub saved: Option<MutatorProxy<M>>,
}

impl<M: Mutator> CrossoverPrep<M> {
    /// The slot contents to restore when the call resolves.
    pub open spec fn saved_spec(&self) -> Option<MutatorProxy<M>> {
        self.saved
    }
}

} // verus!
