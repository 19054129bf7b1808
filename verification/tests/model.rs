use turso_dst::model::{History, SyncMode};
use turso_dst::table::{digest_model, put_row, Model};

fn rows(n: i64) -> Model {
    let mut m = Model::new();
    for i in 1..=n {
        put_row(&mut m, i, i * 10, String::from("v"));
    }
    m
}

fn accepts(h: &History, crashed: bool, m: &Model) -> bool {
    let d = digest_model(m);
    h.acceptable(crashed).iter().any(|s| s.digest == d)
}

#[test]
fn fresh_oracle_accepts_what_it_was_opened_on() {
    let h = History::new(rows(2), SyncMode::Normal);
    assert_eq!(h.snaps.len(), 1);
    assert_eq!(h.last().what, "open");
    assert_eq!(h.last().rows, 2);
    assert!(accepts(&h, true, &rows(2)));
    assert!(!accepts(&h, true, &rows(1)));
}

#[test]
fn full_commit_is_durable() {
    let mut h = History::new(rows(0), SyncMode::Full);
    h.commit_attempt(rows(1), true, "e0t0");
    h.commit_attempt(rows(2), true, "e0t1");
    assert_eq!(h.floor, 2);
    assert!(accepts(&h, true, &rows(2)));
    assert!(!accepts(&h, true, &rows(1)));
    assert!(!accepts(&h, false, &rows(1)));
}

#[test]
fn normal_commit_may_be_lost_to_a_crash_only() {
    let mut h = History::new(rows(0), SyncMode::Normal);
    h.commit_attempt(rows(1), true, "e0t0");
    h.commit_attempt(rows(2), true, "e0t1");
    for n in 0..=2 {
        assert!(accepts(&h, true, &rows(n)));
    }
    assert!(accepts(&h, false, &rows(2)));
    assert!(!accepts(&h, false, &rows(1)));
}

#[test]
fn checkpoint_raises_the_floor_under_normal() {
    let mut h = History::new(rows(0), SyncMode::Normal);
    h.commit_attempt(rows(1), true, "e0t0");
    h.checkpoint_ok();
    h.commit_attempt(rows(2), true, "e0t1");
    assert!(!accepts(&h, true, &rows(0)));
    assert!(accepts(&h, true, &rows(1)));
    assert!(accepts(&h, true, &rows(2)));
    let mut full = History::new(rows(0), SyncMode::Full);
    full.checkpoint_ok();
    assert_eq!(full.floor, 0);
}

#[test]
fn uncertain_commit_allows_both_states() {
    let mut h = History::new(rows(1), SyncMode::Full);
    h.commit_attempt_uncertain(rows(2), "e0t3?");
    assert_eq!(h.last().what, "e0t3?:applied");
    assert_eq!(h.shadow.as_ref().unwrap().what, "e0t3?:pre");
    for crashed in [false, true] {
        assert!(accepts(&h, crashed, &rows(1)));
        assert!(accepts(&h, crashed, &rows(2)));
        assert!(!accepts(&h, crashed, &rows(3)));
    }
    h.commit_attempt(rows(3), true, "e0t4");
    assert!(h.shadow.is_none());
    assert!(!accepts(&h, false, &rows(1)));
}

#[test]
fn live_state_settles_an_uncertain_commit() {
    let mut h = History::new(rows(1), SyncMode::Full);
    h.commit_attempt_uncertain(rows(2), "x");
    assert!(h.resolve_live(rows(2)));
    assert_eq!(h.snaps.len(), 2);
    assert!(h.resolve_live(rows(1)));
    assert_eq!(h.last().what, "x:pre:live");
    assert_eq!(*h.model, rows(1));
    assert!(accepts(&h, true, &rows(2)));
    assert!(!h.resolve_live(rows(5)));
    assert_eq!(*h.model, rows(1));
}

#[test]
fn clean_reopen_adopts_and_crash_resets() {
    let mut h = History::new(rows(0), SyncMode::Full);
    h.commit_attempt(rows(1), true, "a");
    h.commit_attempt_uncertain(rows(2), "b");
    h.adopt(rows(1));
    assert!(h.shadow.is_none());
    assert_eq!(h.last().what, "reopen");
    assert_eq!(h.floor, 1);
    let before = h.snaps.len();
    h.adopt(rows(1));
    assert_eq!(h.snaps.len(), before);
    h.reset_from(rows(3));
    assert_eq!((h.snaps.len(), h.floor), (1, 0));
    assert!(h.last().certain);
    assert_eq!(*h.model, rows(3));
}
