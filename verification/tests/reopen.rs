use turso_dst::exec::Fail;
use turso_dst::model::{History, SyncMode};
use turso_dst::reopen::{
    ReopenAction, ReopenEvent, ReopenRun, CHECK_ATTEMPTS, READ_ATTEMPTS, RETRY_MS,
};
use turso_dst::report::Violation;
use turso_dst::table::{put_row, Model};

fn rows(n: i64) -> Model {
    let mut m = Model::new();
    for i in 1..=n {
        put_row(&mut m, i, i, String::from("v"));
    }
    m
}

fn no_table() -> Fail {
    Fail::Error(String::from("no such table: kv"))
}

fn io_error() -> Fail {
    Fail::Error(String::from("disk I/O"))
}

struct Told {
    fine: bool,
    violations: Vec<Violation>,
    lines: Vec<String>,
    lost: Option<bool>,
    waits: u64,
}

fn check(
    hist: &mut History,
    crashed: bool,
    dirsynced: bool,
    read: &dyn Fn() -> Result<Model, Fail>,
    integrity: &dyn Fn() -> Result<Vec<Vec<String>>, Fail>,
) -> Told {
    let mut run = ReopenRun::start(crashed, dirsynced);
    let mut ev = ReopenEvent::Start;
    let mut told = Told { fine: false, violations: vec![], lines: vec![], lost: None, waits: 0 };
    loop {
        assert!(run.can_resume(hist, &ev));
        let (next, turn) = run.resume(hist, ev);
        run = next;
        told.violations.extend(turn.violations);
        told.lines.extend(turn.lines);
        told.lost = told.lost.or(turn.lost_commits);
        ev = match turn.action {
            ReopenAction::ReadModel => ReopenEvent::Read(read()),
            ReopenAction::CheckIntegrity => ReopenEvent::Checked(integrity()),
            ReopenAction::Wait(ms) => {
                assert_eq!(ms, RETRY_MS);
                told.waits += 1;
                ReopenEvent::Waited
            }
            ReopenAction::FileLengths => ReopenEvent::Lengths(Some(8192), None),
            ReopenAction::Finish(fine) => {
                told.fine = fine;
                return told;
            }
        };
    }
}

fn sound() -> Result<Vec<Vec<String>>, Fail> {
    Ok(vec![vec![String::from("ok")]])
}

#[test]
fn clean_reopen_of_the_last_state() {
    let mut h = History::new(rows(1), SyncMode::Full);
    h.commit_attempt(rows(2), true, "e0t0");
    let told = check(&mut h, false, true, &|| Ok(rows(2)), &sound);
    assert!(told.fine && told.violations.is_empty() && told.lines.is_empty());
    assert_eq!(told.lost, Some(false));
    assert_eq!(*h.model, rows(2));
}

#[test]
fn lost_durable_commit_is_reported() {
    let mut h = History::new(rows(1), SyncMode::Full);
    h.commit_attempt(rows(2), true, "e0t0");
    let digest = h.last().digest;
    let told = check(&mut h, true, true, &|| Ok(rows(1)), &sound);
    assert!(told.fine);
    assert_eq!(told.violations.len(), 1);
    assert_eq!(told.violations[0].label, "durability-violated-after-crash");
    let seen = History::new(rows(1), SyncMode::Full).last().digest;
    assert_eq!(
        told.violations[0].detail,
        format!(
            "observed rows=1 digest={seen:x}; acceptable: [e0t0 rows=2 certain=true {digest:x}]"
        )
    );
    assert_eq!(told.lines.len(), 5);
    assert_eq!(told.lines[4], "TURSO_DST_DIFF files: db_len=Some(8192) wal_len=None");
    assert_eq!(told.lost, None);
    assert_eq!(*h.model, rows(1));
    assert_eq!(h.snaps.len(), 1);
}

#[test]
fn labels_tell_what_was_broken() {
    let mut h = History::new(rows(1), SyncMode::Normal);
    let told = check(&mut h, true, true, &|| Ok(rows(5)), &sound);
    assert_eq!(told.violations[0].label, "prefix-consistency-violated-after-crash");
    let mut h = History::new(rows(1), SyncMode::Normal);
    let told = check(&mut h, false, true, &|| Ok(rows(5)), &sound);
    assert_eq!(told.violations[0].label, "committed-state-lost-on-reopen");
}

#[test]
fn crash_may_lose_commits_under_normal() {
    let mut h = History::new(rows(1), SyncMode::Normal);
    h.commit_attempt(rows(2), true, "a");
    let told = check(&mut h, true, true, &|| Ok(rows(1)), &sound);
    assert!(told.violations.is_empty());
    assert_eq!(told.lost, Some(true));
    assert_eq!(*h.model, rows(1));
}

#[test]
fn missing_table_is_reported_at_once() {
    let mut h = History::new(rows(1), SyncMode::Full);
    let told = check(&mut h, true, false, &|| Err(no_table()), &sound);
    assert!(!told.fine);
    assert_eq!(told.waits, 0);
    assert_eq!(told.violations[0].label, "db-lost-after-crash-without-dirsync");
    assert_eq!(
        told.violations[0].detail,
        "Error(\"no such table: kv\") (crashed=true dirsynced=false db_len=Some(8192) wal_len=None)"
    );
    assert_eq!(*h.model, rows(1));
    let told = check(&mut h, true, true, &|| Err(no_table()), &sound);
    assert_eq!(told.violations[0].label, "schema-lost-after-reopen");
    let told = check(&mut h, false, false, &|| Err(no_table()), &sound);
    assert_eq!(told.violations[0].label, "schema-lost-after-reopen");
}

#[test]
fn unreadable_table_is_tried_again() {
    let mut h = History::new(rows(1), SyncMode::Full);
    let told = check(&mut h, false, true, &|| Err(io_error()), &sound);
    assert!(!told.fine);
    assert_eq!(told.waits, READ_ATTEMPTS);
    assert_eq!(told.violations[0].label, "post-open-read-failed");
}

#[test]
fn integrity_is_checked_and_tried_again() {
    let mut h = History::new(rows(1), SyncMode::Full);
    let told = check(&mut h, false, true, &|| Ok(rows(1)), &|| {
        Ok(vec![vec![String::from("page 3 is corrupt")]])
    });
    assert!(told.fine);
    assert_eq!(told.violations[0].label, "integrity-check-failed-after-reopen");
    assert_eq!(told.violations[0].detail, "page 3 is corrupt");
    let told = check(&mut h, false, true, &|| Ok(rows(1)), &|| Err(io_error()));
    assert!(told.fine);
    assert_eq!(told.waits, CHECK_ATTEMPTS);
    assert_eq!(told.violations[0].label, "post-open-integrity-check-failed");
    assert_eq!(told.violations[0].detail, "Error(\"disk I/O\")");
}
