//! The corpus: counts, partitions, stable ids, and the selection guard.

use fuzz_core::{Corpus, SeedId, Testcase};

fn tc(bytes: &[u8]) -> Testcase {
    Testcase::with_input(bytes.to_vec())
}

#[test]
fn counts_add_up_after_adds() {
    let mut c = Corpus::new();
    assert_eq!(c.count_all(), 0);
    c.add(tc(b"a"));
    c.add(tc(b"b"));
    c.add_disabled(tc(b"c"));
    assert_eq!(c.count(), 2);
    assert_eq!(c.count_disabled(), 1);
    assert_eq!(c.count_all(), c.count() + c.count_disabled());
}

#[test]
fn counts_add_up_after_remove() {
    let mut c = Corpus::new();
    let a = c.add(tc(b"a"));
    let _b = c.add(tc(b"b"));
    let _d = c.add_disabled(tc(b"d"));
    let removed = c.remove(a).unwrap();
    assert_eq!(removed.input, b"a".to_vec());
    assert_eq!(c.count(), 1);
    assert_eq!(c.count_disabled(), 1);
    assert_eq!(c.count_all(), c.count() + c.count_disabled());
}

#[test]
fn ids_are_issued_monotonically() {
    let mut c = Corpus::new();
    let a = c.add(tc(b"a"));
    let b = c.add_disabled(tc(b"b"));
    let d = c.add(tc(b"d"));
    assert_eq!(a, SeedId(0));
    assert_eq!(b, SeedId(1));
    assert_eq!(d, SeedId(2));
    // an id is never reused, even across removal
    c.remove(d).unwrap();
    let e = c.add(tc(b"e"));
    assert_eq!(e, SeedId(3));
}

#[test]
fn full_view_indexes_enabled_before_disabled() {
    let mut c = Corpus::new();
    let a = c.add(tc(b"a"));
    let b = c.add_disabled(tc(b"b"));
    let d = c.add(tc(b"d"));
    assert_eq!(c.nth_from_all(0), a);
    assert_eq!(c.nth_from_all(1), d);
    assert_eq!(c.nth_from_all(2), b);
    assert_eq!(c.nth_enabled(0), a);
    assert_eq!(c.nth_enabled(1), d);
}

#[test]
fn selected_entry_cannot_be_removed() {
    let mut c = Corpus::new();
    let a = c.add(tc(b"a"));
    let _b = c.add(tc(b"b"));
    c.set_current(Some(a));
    let err = c.remove(a).unwrap_err();
    assert!(err.is_illegal_state());
    assert_eq!(c.count_all(), 2);
    assert_eq!(c.current(), Some(a));
}

#[test]
fn removing_a_missing_id_is_not_found() {
    let mut c = Corpus::new();
    c.add(tc(b"a"));
    let err = c.remove(SeedId(77)).unwrap_err();
    assert!(err.is_not_found());
}

#[test]
fn get_reads_the_stored_testcase() {
    let mut c = Corpus::new();
    let a = c.add(tc(b"abc"));
    let b = c.add_disabled(tc(b"xyz"));
    assert_eq!(c.get(a).unwrap().input, b"abc".to_vec());
    assert_eq!(c.get(b).unwrap().input, b"xyz".to_vec());
    assert!(c.get(SeedId(9)).unwrap_err().is_not_found());
}
