use std::collections::BTreeMap;
use turso_dst::stats::Stats;

#[test]
fn counters_begin_at_zero_and_are_raised() {
    let mut s = Stats::new();
    assert_eq!(s.count("tx-committed"), 0);
    s.bump("tx-committed");
    s.bump("tx-busy");
    s.bump("tx-committed");
    s.raise("tx-busy", 5);
    assert_eq!(s.count("tx-committed"), 2);
    assert_eq!(s.count("tx-busy"), 6);
    assert_eq!(s.entries.len(), 2);
}

#[test]
fn counters_are_taken_together() {
    let mut a = Stats::new();
    a.raise("x", 1);
    a.raise("y", 2);
    let mut b = Stats::new();
    b.raise("y", 40);
    b.raise("z", 3);
    assert!(a.can_absorb(&b));
    a.absorb(&b);
    assert_eq!((a.count("x"), a.count("y"), a.count("z")), (1, 42, 3));
    assert_eq!(b.count("y"), 40);
}

#[test]
fn full_counters_are_seen() {
    let mut a = Stats::new();
    a.raise("x", u64::MAX - 2);
    assert!(a.can_raise("x", 2));
    assert!(!a.can_raise("x", 3));
    assert!(a.can_raise("y", u64::MAX));
    assert!(a.has_spare(2));
    assert!(!a.has_spare(3));
    let mut b = Stats::new();
    b.raise("x", 3);
    assert!(!a.can_absorb(&b));
}

#[test]
fn a_copy_counts_on_its_own() {
    let mut a = Stats::new();
    a.bump("x");
    let mut b = a.clone();
    b.bump("x");
    assert_eq!((a.count("x"), b.count("x")), (1, 2));
}

#[test]
fn counters_are_shown_by_name() {
    let mut s = Stats::new();
    assert_eq!(s.show(), "{}");
    let names = [
        "tx-busy", "insert", "tx", "insert-dup", "b\"g", "zeta", "\u{e9}t\u{e9}", "Z", "tx-aborted",
    ];
    let mut want: BTreeMap<&str, u64> = BTreeMap::new();
    for (i, name) in names.into_iter().enumerate() {
        s.raise(name, i as u64);
        want.insert(name, i as u64);
        assert_eq!(s.show(), format!("{want:?}"));
    }
}
