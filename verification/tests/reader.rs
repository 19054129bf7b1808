use turso_dst::exec::Fail;
use turso_dst::reader::{check_window, ReaderAction, ReaderEvent, ReaderPhase, ReaderWindow};

#[test]
fn window_is_opened() {
    let (phase, action) = ReaderPhase::Start.resume(ReaderEvent::Start);
    assert!(matches!(action, ReaderAction::Exec(sql) if sql == "BEGIN"));
    let (phase, action) = phase.resume(ReaderEvent::Sql(Ok(vec![])));
    assert!(matches!(action, ReaderAction::ReadDigest));
    let (phase, action) = phase.resume(ReaderEvent::Digest(Ok((77, 3))));
    assert_eq!(phase, ReaderPhase::Over);
    let want = ReaderWindow { digest: 77, rows: 3 };
    assert!(matches!(action, ReaderAction::Finish(Some(w)) if w == want));
}

#[test]
fn window_that_cannot_be_opened() {
    let (phase, _) = ReaderPhase::Start.resume(ReaderEvent::Start);
    let (end, action) = phase.resume(ReaderEvent::Sql(Err(Fail::Busy)));
    assert_eq!(end, ReaderPhase::Over);
    assert!(matches!(action, ReaderAction::Finish(None)));
    let (phase, _) = phase.resume(ReaderEvent::Sql(Ok(vec![])));
    let (phase, action) = phase.resume(ReaderEvent::Digest(Err(Fail::Stuck)));
    assert!(matches!(action, ReaderAction::Exec(sql) if sql == "ROLLBACK"));
    let (end, action) = phase.resume(ReaderEvent::Sql(Err(Fail::Busy)));
    assert_eq!(end, ReaderPhase::Over);
    assert!(matches!(action, ReaderAction::Finish(None)));
}

#[test]
fn moved_snapshot_is_reported() {
    let w = ReaderWindow { digest: 1, rows: 4 };
    let out = check_window(&w, Ok((1, 4)), true);
    assert!(out.violations.is_empty() && out.note.is_none());
    assert_eq!(out.held_across_commit, Some(true));
    assert_eq!(out.end, "COMMIT");
    let out = check_window(&w, Ok((2, 5)), false);
    assert_eq!(out.violations[0].label, "snapshot-isolation-violated");
    assert_eq!(out.violations[0].detail, "reader saw rows=4 then rows=5 within one read tx");
    assert_eq!(out.held_across_commit, Some(false));
    let out = check_window(&w, Err(Fail::Busy), false);
    assert_eq!(out.note.unwrap(), "note: reader re-read failed: Busy");
    assert_eq!(out.held_across_commit, None);
    assert_eq!(out.end, "COMMIT");
}
