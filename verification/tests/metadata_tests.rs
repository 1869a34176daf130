//! Novelty metadata, the named store, the random source, errors, and the
//! executor hook.

use fuzz_core::{
    Error, ListFeedbackMetadata, MemacHook, NamedMetadataStore, StdRand,
};

#[test]
fn recorded_values_are_remembered_until_reset() {
    let mut m = ListFeedbackMetadata::new();
    assert!(!m.contains(7));
    m.record_novel(7);
    m.record_novel(9);
    assert!(m.contains(7));
    assert!(m.contains(9));
    assert!(!m.contains(8));
    assert_eq!(m.counter(), 2);
    m.reset().unwrap();
    assert!(!m.contains(7));
    // the running counter survives a reset
    assert_eq!(m.counter(), 2);
}

#[test]
fn the_recorded_values_come_back_out() {
    let mut m = ListFeedbackMetadata::new();
    m.record_novel(3);
    m.record_novel(1);
    let mut values = m.values_vec();
    values.sort();
    assert_eq!(values, vec![1, 3]);
}

#[test]
fn the_refcount_never_goes_negative() {
    let mut m = ListFeedbackMetadata::new();
    assert_eq!(m.refcnt(), 0);
    m.dec_refcnt();
    assert_eq!(m.refcnt(), 0);
    m.inc_refcnt();
    m.inc_refcnt();
    assert_eq!(m.refcnt(), 2);
    m.dec_refcnt();
    m.dec_refcnt();
    m.dec_refcnt();
    assert_eq!(m.refcnt(), 0);
}

#[test]
fn the_store_addresses_records_by_name() {
    let mut store = NamedMetadataStore::new();
    let edges = "edges".to_string();
    let allocs = "allocs".to_string();
    assert_eq!(store.index_of(&edges), None);
    let i = store.set_default(&edges);
    let j = store.set_default(&allocs);
    assert_ne!(i, j);
    assert_eq!(store.len(), 2);
    assert_eq!(store.index_of(&edges), Some(i));
    assert_eq!(store.index_of(&allocs), Some(j));
    // reinstalling an existing name replaces its record in place
    store.record_novel_at(i, 4);
    assert!(store.meta_at(i).contains(4));
    let i2 = store.set_default(&edges);
    assert_eq!(i2, i);
    assert_eq!(store.len(), 2);
    assert!(!store.meta_at(i).contains(4));
}

#[test]
fn draws_stay_below_the_bound() {
    let mut r = StdRand::with_seed(99);
    for bound in [1u64, 2, 7, 100] {
        for _ in 0..50 {
            assert!(r.below(bound) < bound);
        }
    }
    // a zero seed still produces a working generator
    let mut z = StdRand::with_seed(0);
    assert!(z.below(10) < 10);
}

#[test]
fn error_kinds_are_distinguishable() {
    let a = Error::illegal_state("x");
    let b = Error::not_found("y");
    let c = Error::shutting_down();
    assert!(a.is_illegal_state() && !a.is_not_found() && !a.is_shutting_down());
    assert!(b.is_not_found() && !b.is_illegal_state());
    assert!(c.is_shutting_down() && !c.is_illegal_state());
}

#[test]
fn the_hook_records_the_input_span() {
    let mut h = MemacHook::new();
    assert_eq!(h.span(), None);
    h.pre_exec(0x1000, 16);
    assert_eq!(h.span(), Some((0x1000, 0x1010)));
    h.post_exec();
    assert_eq!(h.span(), Some((0x1000, 0x1010)));
    h.init();
    assert_eq!(h.span(), None);
    let d = MemacHook::default();
    assert_eq!(d.span(), None);
}
