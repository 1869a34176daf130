//! The per-process fuzzing state: corpus, random source, size limit, clock
//! and named metadata.

use vstd::prelude::*;
use crate::corpus::Corpus;
use crate::rand::StdRand;
use crate::store::NamedMetadataStore;

verus! {

/// Everything one fuzzing process owns.
pub struct FuzzState {
    /// The store of seeds.
    pub corpus: Corpus,
    /// The random source.
    pub rand: StdRand,
    /// The largest size a mutated input may take.
    pub max_size: usize,
    /// Wall-clock milliseconds, advanced by the embedding; used only for
    /// rate-limited telemetry.
    pub clock_ms: u64,
    /// The named novelty metadata.
    pub metadata: NamedMetadataStore,
}

impl FuzzState {
    /// Well-formedness of all owned components.
    pub open spec fn wf(&self) -> bool {
        &&& self.corpus.wf()
        &&& self.metadata.wf()
    }

    /// A fresh state with an empty corpus.
    pub fn new(seed: u64, max_size: usize) -> (r: FuzzState)
        ensures
            r.wf(),
            r.corpus.count_all_spec() == 0,
            r.corpus.current_spec() is None,
            r.max_size == max_size,
            r.metadata.entries_seq().len() == 0,
    {
        FuzzState {
            corpus: Corpus::new(),
            rand: StdRand::with_seed(seed),
            max_size,
            clock_ms: 0,
            metadata: NamedMetadataStore::new(),
        }
    }
}

} // verus!
