use turso_dst::exec::Fail;
use turso_dst::setup::{
    SetupAction, SetupEvent, SetupRun, CREATE_ATTEMPTS, DIRSYNC_ATTEMPTS, MKDIR_ATTEMPTS,
};

/// The end of a setup: the last action, what was said and what was done.
fn bring_up(
    mut run: SetupRun,
    answer: &mut dyn FnMut(&SetupAction) -> Option<SetupEvent>,
) -> (SetupRun, SetupAction, Vec<String>, Vec<String>) {
    let mut ev = SetupEvent::Start;
    let mut lines = vec![];
    let mut done = vec![];
    for _ in 0..10000 {
        let (next, turn) = run.resume(ev);
        run = next;
        lines.extend(turn.lines);
        ev = match answer(&turn.action) {
            Some(ev) => ev,
            None => match &turn.action {
                SetupAction::Exec(_) => SetupEvent::Sql(Ok(vec![])),
                SetupAction::Truncate => SetupEvent::Truncated(None),
                SetupAction::Probe => SetupEvent::Went(false),
                SetupAction::Exit(_) | SetupAction::Ready => return (run, turn.action, lines, done),
                _ => SetupEvent::Went(true),
            },
        };
        done.push(format!("{:?}", turn.action));
    }
    panic!("setup does not end")
}

#[test]
fn setup_without_faults() {
    let run = SetupRun::start(true, true, true);
    let (run, end, lines, done) = bring_up(run, &mut |_| None);
    assert!(matches!(end, SetupAction::Ready));
    assert!(run.dirsynced);
    assert_eq!(lines, vec!["TURSO_DST_SETUP dirsynced=true"]);
    assert_eq!(
        done,
        vec![
            "MakeDir",
            "Arm",
            "Open",
            "Probe",
            "Exec(\"PRAGMA synchronous=FULL\")",
            "Exec(\"CREATE TABLE IF NOT EXISTS kv(id INTEGER PRIMARY KEY, n INTEGER, v TEXT)\")",
            "Exec(\"CREATE INDEX IF NOT EXISTS kv_n ON kv(n)\")",
            "Truncate",
            "SyncDir",
            "Probe",
            "Exec(\"PRAGMA synchronous=NORMAL\")",
            "Arm",
        ]
    );
}

#[test]
fn setup_without_index_and_dirsync() {
    let run = SetupRun::start(false, false, false);
    let (run, end, lines, done) = bring_up(run, &mut |_| None);
    assert!(matches!(end, SetupAction::Ready));
    assert!(!run.dirsynced);
    assert_eq!(lines, vec!["TURSO_DST_SETUP dirsynced=false"]);
    assert!(!done.iter().any(|d| d.contains("INDEX") || d == "SyncDir" || d.contains("NORMAL")));
}

#[test]
fn directory_that_cannot_be_created() {
    let mut tries = 0;
    let (_, end, lines, _) = bring_up(SetupRun::start(false, false, true), &mut |a| match a {
        SetupAction::MakeDir => {
            tries += 1;
            Some(SetupEvent::Went(false))
        }
        _ => None,
    });
    assert_eq!(tries, MKDIR_ATTEMPTS);
    assert!(matches!(end, SetupAction::Exit(3)));
    assert_eq!(lines, vec!["TURSO_DST_SETUP_FAILED mkdir"]);
}

#[test]
fn table_that_cannot_be_created() {
    let mut tries = 0;
    let (_, end, lines, _) = bring_up(SetupRun::start(false, false, true), &mut |a| match a {
        SetupAction::Exec(sql) if sql.starts_with("CREATE TABLE") => {
            tries += 1;
            Some(SetupEvent::Sql(Err(Fail::Busy)))
        }
        _ => None,
    });
    assert_eq!(tries, CREATE_ATTEMPTS);
    assert!(matches!(end, SetupAction::Exit(3)));
    assert_eq!(lines.len() as u64, CREATE_ATTEMPTS + 1);
    assert_eq!(lines[0], "note: setup create failed: Some(Busy)");
    assert_eq!(lines.last().unwrap(), "TURSO_DST_SETUP_FAILED create-table");
}

#[test]
fn database_that_cannot_be_opened() {
    let (_, end, lines, _) = bring_up(SetupRun::start(false, false, true), &mut |a| match a {
        SetupAction::Open => Some(SetupEvent::Went(false)),
        _ => None,
    });
    assert!(matches!(end, SetupAction::Exit(1)));
    assert!(lines.is_empty());
}

#[test]
fn power_cut_in_setup_starts_over() {
    let mut probes = 0;
    let (_, end, lines, done) = bring_up(SetupRun::start(false, false, true), &mut |a| match a {
        SetupAction::Probe => {
            probes += 1;
            Some(SetupEvent::Went(probes == 2 || probes == 3))
        }
        SetupAction::Truncate => Some(SetupEvent::Truncated(Some(String::from("busy")))),
        _ => None,
    });
    assert!(matches!(end, SetupAction::Ready));
    assert_eq!(
        lines,
        vec![
            "note: setup checkpoint skipped: busy",
            "note: setup hit a power cut; redoing setup",
            "note: setup checkpoint skipped: busy",
            "TURSO_DST_SETUP dirsynced=true",
        ]
    );
    assert_eq!(done.iter().filter(|d| *d == "DropCrashed").count(), 1);
    assert_eq!(done.iter().filter(|d| *d == "Arm").count(), 3);
}

#[test]
fn power_cuts_without_end_fail_setup() {
    let mut probes = 0;
    let (_, end, lines, _) = bring_up(SetupRun::start(false, false, false), &mut |a| match a {
        SetupAction::Probe => {
            probes += 1;
            Some(SetupEvent::Went(probes > 1))
        }
        _ => None,
    });
    assert!(matches!(end, SetupAction::Exit(3)));
    assert_eq!(lines.len() as u64, CREATE_ATTEMPTS + 1);
    assert_eq!(lines.last().unwrap(), "TURSO_DST_SETUP_FAILED create-table");
}

#[test]
fn directory_that_cannot_be_synced() {
    let mut tries = 0;
    let (run, end, _, _) = bring_up(SetupRun::start(false, false, true), &mut |a| match a {
        SetupAction::SyncDir => {
            tries += 1;
            Some(SetupEvent::Went(false))
        }
        _ => None,
    });
    assert!(matches!(end, SetupAction::Ready));
    assert_eq!(tries, DIRSYNC_ATTEMPTS);
    assert!(!run.dirsynced);
}
