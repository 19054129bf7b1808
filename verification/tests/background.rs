use turso_dst::background::{BgAction, BgEvent, BgPhase, BgRun, MAX_ROUNDS};
use turso_dst::exec::Fail;
use turso_dst::report::Violation;

/// Runs the work to its end; tells its counters and what it reported.
fn work(seed: u64, stop_after: u64, moving: bool) -> (BgRun, Vec<Violation>, Vec<String>) {
    let mut run = BgRun::start(seed);
    let mut ev = BgEvent::Connected(true);
    let mut violations = vec![];
    let mut sqls = vec![];
    let mut polls = 0;
    let mut looks = 0;
    let mut checkpoints = 0;
    for _ in 0..20000 {
        let (next, turn) = run.resume(ev);
        run = next;
        violations.extend(turn.violations);
        ev = match turn.action {
            BgAction::Connect => BgEvent::Connected(true),
            BgAction::Exec(sql) => {
                sqls.push(sql);
                BgEvent::Sql(true)
            }
            BgAction::ReadDigest => {
                looks += 1;
                BgEvent::Digest(Ok((if moving { looks } else { 1 }, 2)))
            }
            BgAction::Checkpoint(_) => {
                checkpoints += 1;
                BgEvent::Checkpointed { done: checkpoints % 2 == 0, busy: true }
            }
            BgAction::Sleep(ms) => {
                assert!(ms <= 5);
                BgEvent::Slept
            }
            BgAction::Poll => {
                polls += 1;
                BgEvent::Stop(polls > stop_after)
            }
            BgAction::Close => BgEvent::Closed,
            BgAction::Finish => return (run, violations, sqls),
        };
    }
    panic!("the work does not end")
}

#[test]
fn work_ends_after_its_rounds() {
    let (run, violations, sqls) = work(1, u64::MAX, false);
    assert_eq!(run.rounds, MAX_ROUNDS);
    assert!(violations.is_empty());
    assert_eq!(sqls[0], "PRAGMA data_sync_retry=ON");
    let total: u64 = run.stats.entries.iter().map(|e| e.1).sum();
    assert_eq!(total, MAX_ROUNDS);
    for k in ["bg-read-tx", "bg-count", "bg-checkpoint-ok", "bg-checkpoint-busy"] {
        assert!(run.stats.count(k) > 0);
    }
}

#[test]
fn work_stops_when_told() {
    let (run, _, _) = work(1, 3, false);
    assert_eq!(run.rounds, 3);
    let (run, _, sqls) = work(1, 0, false);
    assert_eq!(run.rounds, 0);
    assert_eq!(sqls.len(), 1);
}

#[test]
fn moved_snapshot_is_reported_by_the_background() {
    let (run, violations, _) = work(1, u64::MAX, true);
    assert_eq!(violations.len() as u64, run.stats.count("bg-read-tx"));
    assert_eq!(violations[0].label, "snapshot-isolation-violated-bg");
    assert_eq!(violations[0].detail, "bg reader saw rows=2 then rows=2 in one read tx");
}

#[test]
fn connection_that_fails() {
    let (run, turn) = BgRun::start(1).resume(BgEvent::Connected(false));
    assert!(matches!(turn.action, BgAction::Finish));
    assert_eq!(run.phase, BgPhase::Over);
    assert_eq!(run.stats.count("bg-connect-failed"), 1);
}

#[test]
fn failures_are_ignored() {
    let mut run = BgRun::start(4);
    let mut ev = BgEvent::Connected(true);
    let mut errors = 0;
    loop {
        let (next, turn) = run.resume(ev);
        run = next;
        assert!(turn.violations.is_empty());
        ev = match turn.action {
            BgAction::Exec(sql) => BgEvent::Sql(sql == "BEGIN"),
            BgAction::ReadDigest => BgEvent::Digest(Err(Fail::Busy)),
            BgAction::Checkpoint(_) => {
                errors += 1;
                BgEvent::Checkpointed { done: false, busy: false }
            }
            BgAction::Sleep(_) => BgEvent::Slept,
            BgAction::Poll => BgEvent::Stop(false),
            BgAction::Close => BgEvent::Closed,
            BgAction::Connect => BgEvent::Connected(true),
            BgAction::Finish => break,
        };
    }
    assert_eq!(run.stats.count("bg-checkpoint-error"), errors);
    assert_eq!(run.stats.count("bg-read-tx"), 0);
    assert_eq!(run.stats.count("bg-count"), 0);
}
