use turso_dst::checkpoint::{can_settle, draw_mode, settle, CheckpointEvent, Mode};
use turso_dst::model::{History, SyncMode};
use turso_dst::prng::Prng;
use turso_dst::table::{put_row, Model};
use turso_dst::workload::Workload;

fn one_row() -> Model {
    let mut m = Model::new();
    put_row(&mut m, 1, 1, String::from("v"));
    m
}

fn oracle() -> History {
    let mut h = History::new(Model::new(), SyncMode::Normal);
    h.commit_attempt(one_row(), true, "e0t0");
    h
}

#[test]
fn every_mode_is_drawn() {
    let mut rng = Prng(5);
    let drawn: Vec<Mode> = (0..40).map(|_| draw_mode(&mut rng)).collect();
    for mode in [Mode::Passive, Mode::Full, Mode::Restart, Mode::Truncate] {
        assert!(drawn.contains(&mode));
    }
    let mut a = Prng(5);
    let mut b = Prng(5);
    let want = [Mode::Passive, Mode::Full, Mode::Restart, Mode::Truncate][a.range(0, 3) as usize];
    assert_eq!(draw_mode(&mut b), want);
    assert_eq!(a.0, b.0);
}

#[test]
fn checkpoint_that_was_done() {
    let (mut wl, mut h) = (Workload::new(1), oracle());
    let ev = CheckpointEvent::Done { max_frame: 9, total_backfilled: 4, backfilled: 4 };
    assert!(can_settle(&wl, &ev));
    let out = settle(Mode::Passive, ev, &mut wl, &mut h);
    assert_eq!(
        out.note.unwrap(),
        "note: checkpoint passive: max_frame=9 total_backfilled=4 backfilled=4"
    );
    assert_eq!((out.moved_frames, out.left_frames, out.busy), (Some(true), Some(true), false));
    assert!(out.violations.is_empty());
    assert_eq!(h.floor, 1);
    assert_eq!(wl.stats.count("checkpoint-ok"), 1);
    let ev = CheckpointEvent::Done { max_frame: 9, total_backfilled: 4, backfilled: 0 };
    let out = settle(Mode::Full, ev, &mut wl, &mut h);
    assert_eq!((out.moved_frames, out.left_frames), (Some(false), Some(false)));
}

#[test]
fn failed_checkpoint_promises_nothing() {
    for ev in [
        CheckpointEvent::Busy,
        CheckpointEvent::Failed(String::from("disk full")),
        CheckpointEvent::Panicked(String::from("boom")),
    ] {
        let (mut wl, mut h) = (Workload::new(1), oracle());
        settle(Mode::Restart, ev, &mut wl, &mut h);
        assert_eq!(h.floor, 0);
        assert_eq!(h.acceptable(true).len(), 2);
    }
}

#[test]
fn outcomes_are_told_apart() {
    let (mut wl, mut h) = (Workload::new(1), oracle());
    let out = settle(Mode::Truncate, CheckpointEvent::Busy, &mut wl, &mut h);
    assert!(out.busy && out.note.is_none());
    let out = settle(
        Mode::Truncate,
        CheckpointEvent::Failed(String::from("disk full")),
        &mut wl,
        &mut h,
    );
    assert_eq!(out.note.unwrap(), "note: checkpoint truncate error: disk full");
    let out = settle(
        Mode::Full,
        CheckpointEvent::Panicked(String::from("boom")),
        &mut wl,
        &mut h,
    );
    assert_eq!(out.violations[0].label, "panic-in-checkpoint");
    assert_eq!(out.violations[0].detail, "boom");
    assert_eq!(
        (wl.stats.count("checkpoint-busy"), wl.stats.count("checkpoint-error")),
        (1, 1)
    );
    assert_eq!(wl.stats.entries.len(), 2);
    assert_eq!(Mode::Full.start_note(), "note: checkpoint full start");
}
