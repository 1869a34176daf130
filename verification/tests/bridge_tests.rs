//! The mutator bridge: the normal bridged call, reentrancy, the oversized
//! result, and the crossover variant.

use fuzz_core::{
    Error, FlipMutator, FuzzState, LLVMCustomMutator, LLVMFuzzerMutate, MutationResult,
    Mutator, MutatorProxy, MutatorSlot, SeedId, Testcase,
};

fn state_with_max(max: usize) -> FuzzState {
    FuzzState::new(41, max)
}

#[test]
fn a_normal_bridged_call_mutates_through_the_slot() {
    let mut state = state_with_max(8);
    let mut slot: MutatorSlot<FlipMutator> = MutatorSlot::empty();
    let mut bridged: LLVMCustomMutator<FlipMutator, false> =
        LLVMCustomMutator::mutate(FlipMutator::new(4), true).unwrap();
    let input = vec![1u8, 2, 3];
    let mut prep = bridged.begin_mutate(&mut slot, &mut state, &input, 0);
    assert_eq!(prep.buffer.len(), 8);
    assert_eq!(prep.size, 3);
    assert_eq!(&prep.buffer[..3], &[1, 2, 3]);
    // the foreign mutator calls back into the engine
    let n = LLVMFuzzerMutate(&mut slot, &mut state, &mut prep.buffer, prep.size, 8);
    assert_eq!(n, 3);
    let mut out = input.clone();
    let res = bridged.finish_mutate(&mut slot, &mut out, prep, n).unwrap();
    assert_eq!(res, MutationResult::Mutated);
    assert_eq!(out.len(), 3);
    // exactly one byte was flipped
    let flipped = out.iter().zip([1u8, 2, 3].iter()).filter(|(a, b)| a != b).count();
    assert_eq!(flipped, 1);
    // the temporary size override was undone
    assert_eq!(state.max_size, 8);
}

#[test]
fn a_reentrant_call_reports_zero_and_resolves_to_skipped() {
    let mut state = state_with_max(8);
    let mut slot: MutatorSlot<FlipMutator> = MutatorSlot::empty();
    let mut bridged: LLVMCustomMutator<FlipMutator, false> =
        LLVMCustomMutator::mutate(FlipMutator::new(4), true).unwrap();
    let input = vec![7u8, 8, 9];
    let mut prep = bridged.begin_mutate(&mut slot, &mut state, &input, 0);
    // simulate the outer foreign call being in flight: the entry is
    // exclusively borrowed when the inner call arrives
    let borrowed = slot.try_borrow_entry().unwrap();
    let before = prep.buffer.clone();
    let n = LLVMFuzzerMutate(&mut slot, &mut state, &mut prep.buffer, prep.size, 8);
    assert_eq!(n, 0);
    assert_eq!(prep.buffer, before);
    slot.restore_entry(borrowed);
    // the result cell was never set, so the high-level result is Skipped
    // and the input is untouched
    let mut out = input.clone();
    let res = bridged.finish_mutate(&mut slot, &mut out, prep, 0).unwrap();
    assert_eq!(res, MutationResult::Skipped);
    assert_eq!(out, vec![7, 8, 9]);
}

#[test]
fn a_call_with_an_empty_slot_reports_zero() {
    let mut state = state_with_max(8);
    let mut slot: MutatorSlot<FlipMutator> = MutatorSlot::empty();
    let mut data = vec![1u8, 2, 3, 0, 0, 0, 0, 0];
    let n = LLVMFuzzerMutate(&mut slot, &mut state, &mut data, 3, 8);
    assert_eq!(n, 0);
    assert_eq!(data, vec![1, 2, 3, 0, 0, 0, 0, 0]);
}

/// A mutator growing the candidate beyond any cap, to exercise the
/// oversized-result path.
struct GrowingMutator;

impl Mutator for GrowingMutator {
    fn mutate(
        &mut self,
        state: &mut FuzzState,
        input: &mut Vec<u8>,
        _stage_idx: u64,
    ) -> Result<MutationResult, Error> {
        *input = vec![0xFF; state.max_size + 1];
        Ok(MutationResult::Mutated)
    }

    fn post_exec(
        &mut self,
        _state: &mut FuzzState,
        _stage_idx: u64,
        _new_id: Option<SeedId>,
    ) -> Result<(), Error> {
        Ok(())
    }
}

#[test]
fn an_oversized_result_degrades_to_skipped() {
    let mut state = state_with_max(8);
    let mut slot: MutatorSlot<GrowingMutator> = MutatorSlot::empty();
    let mut bridged: LLVMCustomMutator<GrowingMutator, false> =
        LLVMCustomMutator::mutate(GrowingMutator, true).unwrap();
    let input = vec![1u8, 2];
    let mut prep = bridged.begin_mutate(&mut slot, &mut state, &input, 0);
    let n = LLVMFuzzerMutate(&mut slot, &mut state, &mut prep.buffer, prep.size, 8);
    // the mutation result did not fit the cap: zero bytes written
    assert_eq!(n, 0);
    let mut out = input.clone();
    let res = bridged.finish_mutate(&mut slot, &mut out, prep, n).unwrap();
    assert_eq!(res, MutationResult::Skipped);
    assert_eq!(out, vec![1, 2]);
}

#[test]
fn nested_installs_restore_the_previous_entry() {
    let mut state = state_with_max(8);
    let mut slot: MutatorSlot<FlipMutator> = MutatorSlot::empty();
    // a proxy already sits in the slot
    let prev = MutatorProxy::new(FlipMutator::new(1), 9);
    slot.install(prev);
    let mut bridged: LLVMCustomMutator<FlipMutator, false> =
        LLVMCustomMutator::mutate(FlipMutator::new(4), true).unwrap();
    let input = vec![5u8];
    let prep = bridged.begin_mutate(&mut slot, &mut state, &input, 0);
    let mut out = input.clone();
    bridged.finish_mutate(&mut slot, &mut out, prep, 0).unwrap();
    // the earlier entry is back: a borrow succeeds
    assert!(slot.try_borrow_entry().is_some());
}

#[test]
fn a_missing_custom_entry_point_refuses_the_bridge() {
    let err = match LLVMCustomMutator::<FlipMutator, false>::mutate(FlipMutator::new(1), false) {
        Err(e) => e,
        Ok(_) => panic!("a missing entry point must be refused"),
    };
    assert!(err.is_illegal_state());
    let err = match LLVMCustomMutator::<FlipMutator, true>::crossover(FlipMutator::new(1), false) {
        Err(e) => e,
        Ok(_) => panic!("a missing entry point must be refused"),
    };
    assert!(err.is_illegal_state());
}

#[test]
fn crossover_skips_when_the_draw_lands_on_the_selection() {
    let mut state = state_with_max(8);
    let mut slot: MutatorSlot<FlipMutator> = MutatorSlot::empty();
    let mut bridged: LLVMCustomMutator<FlipMutator, true> =
        LLVMCustomMutator::crossover(FlipMutator::new(2), true).unwrap();
    // one enabled entry, which is also the selection: every draw lands on it
    let id = state.corpus.add(Testcase::with_input(vec![1, 2]));
    state.corpus.set_current(Some(id));
    let input = vec![9u8];
    let r = bridged.begin_crossover(&mut slot, &mut state, &input, 0).unwrap();
    assert!(r.is_none());
}

#[test]
fn crossover_prepares_both_buffers() {
    let mut state = state_with_max(8);
    let mut slot: MutatorSlot<FlipMutator> = MutatorSlot::empty();
    let mut bridged: LLVMCustomMutator<FlipMutator, true> =
        LLVMCustomMutator::crossover(FlipMutator::new(2), true).unwrap();
    state.corpus.add(Testcase::with_input(vec![1, 2]));
    state.corpus.add(Testcase::with_input(vec![3, 4]));
    // no selection: any draw yields a partner
    let input = vec![9u8];
    let prep = bridged
        .begin_crossover(&mut slot, &mut state, &input, 0)
        .unwrap()
        .expect("a partner should be drawn");
    assert_eq!(prep.out.len(), 8);
    assert!(prep.other == vec![1, 2] || prep.other == vec![3, 4]);
    // resolve with two bytes of foreign output
    let mut out_buf = prep.out.clone();
    out_buf[0] = 0xAB;
    out_buf[1] = 0xCD;
    let mut prep = prep;
    prep.out = out_buf;
    let mut input = vec![9u8];
    // no inner call happened: the result cell is unset, so Skipped
    let res = bridged.finish_crossover(&mut slot, &mut input, prep, 2).unwrap();
    assert_eq!(res, MutationResult::Skipped);
    assert_eq!(input, vec![9]);
}

#[test]
fn crossover_needs_enabled_entries() {
    let mut state = state_with_max(8);
    let mut slot: MutatorSlot<FlipMutator> = MutatorSlot::empty();
    let mut bridged: LLVMCustomMutator<FlipMutator, true> =
        LLVMCustomMutator::crossover(FlipMutator::new(2), true).unwrap();
    let err = match bridged.begin_crossover(&mut slot, &mut state, &vec![1], 0) {
        Err(e) => e,
        Ok(_) => panic!("an empty corpus must be refused"),
    };
    assert!(err.is_illegal_state());
}
