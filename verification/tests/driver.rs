use turso_dst::checkpoint::CheckpointEvent;
use turso_dst::config::Config;
use turso_dst::driver::{Action, Driver, Event, Phase};
use turso_dst::exec::Fail;
use turso_dst::log::{Cover, Saying};
use turso_dst::model::SyncMode;
use turso_dst::prng::Prng;
use turso_dst::reader::ReaderWindow;
use turso_dst::reopen::{ReopenAction, ReopenEvent, ReopenRun};
use turso_dst::stats::Stats;
use turso_dst::table::{digest_model, put_row, row_count, Model};
use turso_dst::tx::{TxAction, TxEvent, TxOutcome, TxPhase, TxRun};
use turso_dst::workload::{Expect, Workload};

fn right_rows(expect: Expect, m: &Model) -> Result<Vec<Vec<String>>, Fail> {
    let sum: i64 = m.values().map(|(n, _)| *n).sum();
    match expect {
        Expect::Success => Ok(vec![]),
        Expect::Constraint => Err(Fail::Constraint(String::from("UNIQUE"))),
        Expect::Count => Ok(vec![vec![row_count(m).to_string(), sum.to_string()]]),
    }
}

/// A transaction on an engine that keeps its promises.
fn run_tx(wl: &mut Workload, base: Model, mid: bool, big: u64) -> (TxOutcome, bool) {
    let mut tx = TxRun::start(base, mid, big);
    let mut ev = TxEvent::Start;
    loop {
        let (next, turn) = tx.resume(wl, ev);
        tx = next;
        assert!(turn.violations.is_empty());
        if let TxAction::Finish(outcome, crashed) = turn.action {
            return (outcome, crashed);
        }
        ev = match &tx.phase {
            TxPhase::Cut => TxEvent::PowerCut,
            TxPhase::ReadBack => TxEvent::Digest(Ok((digest_model(&tx.cur), row_count(&tx.cur)))),
            TxPhase::Statement { expect, .. } => TxEvent::Sql(right_rows(*expect, &tx.cur)),
            TxPhase::Autocommit { expect, .. } => TxEvent::Sql(right_rows(*expect, &tx.base)),
            _ => TxEvent::Sql(Ok(vec![])),
        };
    }
}

fn check_reopened(driver: &mut Driver, crashed: bool, db: &Model) -> (bool, usize) {
    let mut run = ReopenRun::start(crashed, true);
    let mut ev = ReopenEvent::Start;
    let mut broken = 0;
    loop {
        let (next, turn) = run.resume(&mut driver.hist, ev);
        run = next;
        broken += turn.violations.len();
        ev = match turn.action {
            ReopenAction::ReadModel => ReopenEvent::Read(Ok(db.clone())),
            ReopenAction::CheckIntegrity => {
                ReopenEvent::Checked(Ok(vec![vec![String::from("ok")]]))
            }
            ReopenAction::Wait(_) => ReopenEvent::Waited,
            ReopenAction::FileLengths => ReopenEvent::Lengths(None, None),
            ReopenAction::Finish(fine) => return (fine, broken),
        };
    }
}

/// A run on an engine that keeps its promises.
fn run(cfg: Config, seed: u64) -> (Driver, Vec<Saying>) {
    let mut driver = Driver::start(cfg, seed);
    let mut db = Model::new();
    let mut window = Model::new();
    let mut said = vec![];
    let mut ev = Event::Start;
    for _ in 0..100_000 {
        assert!(driver.can_resume(&ev));
        let (next, turn) = driver.resume(ev);
        driver = next;
        said.extend(turn.log.said);
        ev = match turn.action {
            Action::SpawnBg(_) => Event::Done,
            Action::ReadReader => Event::Digest(Ok((digest_model(&window), row_count(&window)))),
            Action::ExecReader(sql) => {
                assert_eq!(sql, "COMMIT");
                Event::Done
            }
            Action::OpenWindow => {
                window = db.clone();
                Event::Window(Some(ReaderWindow {
                    digest: digest_model(&db),
                    rows: row_count(&db),
                }))
            }
            Action::PowerCut => Event::Went(true),
            Action::ReadModel => Event::Read(Ok(db.clone())),
            Action::Wait(_) => Event::Done,
            Action::FileLengths => Event::Lengths(None, None),
            Action::RunTx(mid) => {
                let base = (*driver.hist.model).clone();
                let big = driver.cfg.big_value_permille;
                let (outcome, crashed) = run_tx(&mut driver.wl, base, mid, big);
                if let TxOutcome::Committed(m) = &outcome {
                    db = m.clone();
                }
                Event::Tx(outcome, crashed)
            }
            Action::Probe => Event::Went(false),
            Action::Checkpoint(_) => Event::Checkpointed(CheckpointEvent::Done {
                max_frame: 3,
                total_backfilled: 3,
                backfilled: 1,
            }),
            Action::CheckIntegrity => Event::Sql(Ok(vec![vec![String::from("ok")]])),
            Action::JoinBg => {
                let mut s = Stats::new();
                s.raise("bg-count", 2);
                Event::Joined(Some(s))
            }
            Action::CloseDb | Action::DropDb(_) | Action::Arm => Event::Done,
            Action::Open => Event::Went(true),
            Action::CheckReopened(crashed) => {
                let (fine, broken) = check_reopened(&mut driver, crashed, &db);
                assert_eq!(broken, 0);
                Event::Went(fine)
            }
            Action::Finish => return (driver, said),
        };
    }
    panic!("the run does not end")
}

fn lines(said: &[Saying]) -> Vec<&str> {
    said.iter()
        .filter_map(|s| match s {
            Saying::Line(l) => Some(l.as_str()),
            _ => None,
        })
        .collect()
}

#[test]
fn faithful_engine_is_never_accused_in_a_run() {
    let mut reached = vec![];
    for seed in 0..60 {
        let mut rng = Prng(seed);
        let cfg = Config::derive(&mut rng);
        let (driver, said) = run(cfg, rng.next());
        assert_eq!(driver.epochs_done, cfg.epochs);
        assert!(matches!(driver.phase, Phase::Over));
        for s in said {
            match s {
                Saying::Broken(v) => panic!("{v:?}"),
                Saying::Reached(c, true) => reached.push(c),
                _ => {}
            }
        }
    }
    for c in [
        Cover::GuestPowerCutBetweenTx,
        Cover::GuestPowerCutQuiet,
        Cover::RecoveredAfterPowerCut,
        Cover::ReaderHeldSnapshotAcrossCommit,
        Cover::CheckpointBackfilledFrames,
        Cover::BgThreadRan,
    ] {
        assert!(reached.contains(&c), "{c:?}");
    }
}

#[test]
fn a_run_is_a_function_of_its_seed() {
    let cfg = Config::derive(&mut Prng(9));
    let (a, said_a) = run(cfg, 77);
    let (b, said_b) = run(cfg, 77);
    assert_eq!(a.hist.last().digest, b.hist.last().digest);
    assert_eq!(lines(&said_a), lines(&said_b));
    assert_eq!(a.wl.stats.entries, b.wl.stats.entries);
}

/// A quiet shape: nothing but transactions.
fn quiet(epochs: u64, txs: u64) -> Config {
    let mut cfg = Config::derive(&mut Prng(0));
    cfg.sync_mode = SyncMode::Full;
    cfg.epochs = epochs;
    cfg.txs_per_epoch = txs;
    cfg.reader_window_permille = 0;
    cfg.checkpoint_permille = 0;
    cfg.integrity_permille = 0;
    cfg.crash_permille = 0;
    cfg.mid_tx_crash_permille = 0;
    cfg.bg_thread_permille = 0;
    cfg
}

fn rows(n: i64) -> Model {
    let mut m = Model::new();
    for i in 1..=n {
        put_row(&mut m, i, i, String::from("v"));
    }
    m
}

/// Brings a quiet run to its first transaction.
fn to_first_tx(cfg: Config) -> Driver {
    let (driver, turn) = Driver::start(cfg, 1).resume(Event::Start);
    assert!(matches!(turn.action, Action::RunTx(false)));
    match &turn.log.said[..] {
        [Saying::Line(l)] => assert_eq!(l, "note: e0 t0 tx start (rows=0)"),
        _ => panic!("nothing said"),
    }
    driver
}

fn broken(said: &[Saying]) -> Vec<(String, String)> {
    said.iter()
        .filter_map(|s| match s {
            Saying::Broken(v) => Some((v.label.clone(), v.detail.clone())),
            _ => None,
        })
        .collect()
}

#[test]
fn commit_is_heard() {
    let driver = to_first_tx(quiet(1, 3));
    let (driver, turn) = driver.resume(Event::Tx(TxOutcome::Committed(rows(2)), false));
    assert!(matches!(turn.action, Action::Probe));
    let (driver, turn) = driver.resume(Event::Went(false));
    assert_eq!(lines(&turn.log.said)[0], "note: e0 t0 committed rows=2");
    assert_eq!(*driver.hist.model, rows(2));
    assert_eq!(driver.hist.last().what, "e0t0");
    assert_eq!(driver.hist.floor, 1);
    assert_eq!(driver.wl.stats.count("tx-committed"), 1);
    assert!(driver.saw_commit);
}

#[test]
fn commit_before_an_engine_crash_is_heard() {
    let driver = to_first_tx(quiet(1, 3));
    let (driver, _) = driver.resume(Event::Tx(TxOutcome::Committed(rows(2)), false));
    let (driver, turn) = driver.resume(Event::Went(true));
    assert!(matches!(
        turn.log.said[..],
        [Saying::Reached(Cover::EnginePowerCutDetected, true)]
    ));
    assert!(matches!(turn.action, Action::DropDb(true)));
    assert_eq!(*driver.hist.model, rows(2));
    assert_eq!((driver.crashed, driver.crashes, driver.epochs_done), (true, 1, 1));
    let (driver, turn) = driver.resume(Event::Done);
    assert!(matches!(turn.action, Action::Open));
    let (_, turn) = driver.resume(Event::Went(true));
    assert!(matches!(turn.action, Action::CheckReopened(true)));
}

#[test]
fn uncertain_commit_before_an_engine_crash_keeps_both_states() {
    let driver = to_first_tx(quiet(1, 3));
    let (driver, _) = driver.resume(Event::Tx(TxOutcome::Uncertain(rows(2)), false));
    let (driver, _) = driver.resume(Event::Went(true));
    assert_eq!(driver.hist.last().what, "e0t0!:applied");
    assert_eq!(driver.hist.shadow.as_ref().unwrap().rows, 0);
}

#[test]
fn uncertain_commit_is_resolved_live() {
    let driver = to_first_tx(quiet(1, 3));
    let (driver, _) = driver.resume(Event::Tx(TxOutcome::Uncertain(rows(2)), false));
    let (driver, turn) = driver.resume(Event::Went(false));
    assert!(matches!(turn.action, Action::ReadModel));
    assert!(matches!(
        turn.log.said[..],
        [Saying::Reached(Cover::CommitOutcomeUncertain, true)]
    ));
    let (driver, turn) = driver.resume(Event::Read(Ok(rows(0))));
    assert!(matches!(
        turn.log.said[..2],
        [
            Saying::Reached(Cover::UncertainCommitWasApplied, false),
            Saying::Reached(Cover::UncertainCommitWasNotApplied, true)
        ]
    ));
    assert_eq!(*driver.hist.model, rows(0));
}

#[test]
fn uncertain_commit_that_left_neither_state() {
    let driver = to_first_tx(quiet(1, 3));
    let (driver, _) = driver.resume(Event::Tx(TxOutcome::Uncertain(rows(2)), false));
    let (driver, _) = driver.resume(Event::Went(false));
    let (driver, turn) = driver.resume(Event::Read(Ok(rows(7))));
    assert_eq!(
        broken(&turn.log.said),
        vec![(
            String::from("uncertain-commit-left-neither-state"),
            String::from("live rows=7 pre rows=0 post rows=2")
        )]
    );
    assert_eq!(*driver.hist.model, rows(7));
}

#[test]
fn unresolved_commit_is_read_again_and_then_reopened() {
    let driver = to_first_tx(quiet(1, 3));
    let (driver, _) = driver.resume(Event::Tx(TxOutcome::Uncertain(rows(2)), false));
    let (driver, _) = driver.resume(Event::Went(false));
    let (mut driver, mut turn) = driver.resume(Event::Read(Err(Fail::Busy)));
    assert_eq!(
        lines(&turn.log.said)[0],
        "note: live read after uncertain commit failed: Busy"
    );
    assert_eq!(driver.failures, 1);
    let mut waits = 0;
    loop {
        let ev = match turn.action {
            Action::ReadModel => Event::Read(Err(Fail::Busy)),
            Action::Wait(ms) => {
                assert_eq!(ms, 10);
                waits += 1;
                Event::Done
            }
            _ => break,
        };
        let (d, t) = driver.resume(ev);
        driver = d;
        turn = t;
    }
    assert_eq!(waits, 12);
    assert!(matches!(turn.action, Action::Probe));
    assert_eq!(driver.wl.stats.count("forced-reopen-unresolved-commit"), 1);
}

#[test]
fn stuck_statement_ends_the_run() {
    let driver = to_first_tx(quiet(1, 3));
    let why = String::from("BEGIN: Stuck");
    let (driver, _) = driver.resume(Event::Tx(TxOutcome::Aborted(why), false));
    let (driver, turn) = driver.resume(Event::Went(false));
    assert!(matches!(turn.action, Action::Finish));
    assert_eq!(lines(&turn.log.said), vec!["note: tx aborted: BEGIN: Stuck"]);
    assert_eq!(broken(&turn.log.said)[0].0, "statement-stuck");
    assert_eq!(driver.epochs_done, 0);
}

#[test]
fn panic_in_a_statement_is_reported() {
    let driver = to_first_tx(quiet(1, 3));
    let why = String::from("x: Panic(\"boom\")");
    let (driver, _) = driver.resume(Event::Tx(TxOutcome::Aborted(why), false));
    let (driver, turn) = driver.resume(Event::Went(false));
    assert_eq!(
        broken(&turn.log.said),
        vec![(String::from("panic-in-statement"), String::from("x: Panic(\"boom\")"))]
    );
    assert_eq!(driver.failures, 1);
}

#[test]
fn failures_in_a_row_force_a_reopen() {
    let mut driver = to_first_tx(quiet(1, 20));
    let mut aborted = 0;
    loop {
        let why = String::from("io");
        let (d, _) = driver.resume(Event::Tx(TxOutcome::Aborted(why), false));
        let (d, turn) = d.resume(Event::Went(false));
        driver = d;
        aborted += 1;
        match turn.action {
            Action::RunTx(_) => {}
            Action::ReadModel => {
                let live = (*driver.hist.model).clone();
                let (d, turn) = driver.resume(Event::Read(Ok(live)));
                driver = d;
                assert!(matches!(turn.action, Action::RunTx(_)));
            }
            _ => break,
        }
    }
    assert_eq!(aborted, 6);
    assert_eq!(driver.failures, 0);
    assert_eq!(driver.wl.stats.count("forced-reopen"), 1);
    assert_eq!(driver.wl.stats.count("tx-aborted"), 6);
}

#[test]
fn busy_writer_waits() {
    let driver = to_first_tx(quiet(1, 3));
    let (driver, _) = driver.resume(Event::Tx(TxOutcome::Busy, false));
    let (driver, turn) = driver.resume(Event::Went(false));
    assert!(matches!(turn.action, Action::Wait(5)));
    assert!(matches!(turn.log.said[..], [Saying::Reached(Cover::WriterSawBusy, true)]));
    assert_eq!(driver.wl.stats.count("tx-busy"), 1);
}

#[test]
fn mid_transaction_power_cut_is_remembered() {
    let driver = to_first_tx(quiet(1, 3));
    let (driver, turn) = driver.resume(Event::Tx(TxOutcome::RolledBack, true));
    assert!(matches!(turn.action, Action::DropDb(true)));
    assert!(driver.crashed);
    let (driver, _) = driver.resume(Event::Done);
    let (driver, turn) = driver.resume(Event::Went(true));
    assert!(matches!(turn.action, Action::CheckReopened(true)));
    let (driver, turn) = driver.resume(Event::Went(true));
    assert!(matches!(turn.action, Action::Arm));
    let (driver, turn) = driver.resume(Event::Done);
    assert!(matches!(
        turn.log.said[..],
        [Saying::Reached(Cover::RecoveredAfterPowerCut, true)]
    ));
    assert!(matches!(turn.action, Action::Finish));
    assert_eq!(driver.crashes, 1);
}

#[test]
fn planned_cut_that_is_not_made_drops_without_closing() {
    let mut cfg = quiet(1, 4);
    cfg.crash_permille = 1000;
    let mut met = 0;
    for seed in 0..30 {
        let mut driver = Driver::start(cfg, seed);
        let mut ev = Event::Start;
        let mut missed = false;
        loop {
            let before = driver.wl.rng.0;
            let (next, turn) = driver.resume(ev);
            driver = next;
            ev = match turn.action {
                Action::RunTx(_) => Event::Tx(TxOutcome::RolledBack, false),
                Action::Probe => Event::Went(false),
                Action::ReadModel => Event::Read(Ok(Model::new())),
                Action::PowerCut => {
                    missed = missed || matches!(driver.phase, Phase::CutBetween);
                    Event::Went(false)
                }
                Action::CloseDb => {
                    assert!(!missed);
                    break;
                }
                Action::DropDb(crashed) => {
                    assert!(!crashed);
                    if missed {
                        assert_eq!(driver.wl.rng.0, before);
                        assert_eq!((driver.crashed, driver.cut_missed), (false, true));
                        assert_eq!(driver.wl.stats.count("drop-without-close"), 0);
                        met += 1;
                    }
                    break;
                }
                other => panic!("{other:?}"),
            };
        }
    }
    assert!(met > 10);
}

#[test]
fn corrupt_table_is_reported_without_a_diff() {
    let mut odd = Model::new();
    put_row(&mut odd, 1, 1, String::from("aaaaa\u{e9}"));
    let driver = to_first_tx(quiet(1, 3));
    let (driver, _) = driver.resume(Event::Tx(TxOutcome::Uncertain(rows(2)), false));
    let (driver, _) = driver.resume(Event::Went(false));
    let ev = Event::Read(Ok(odd));
    assert!(driver.can_resume(&ev));
    let (_, turn) = driver.resume(ev);
    assert_eq!(broken(&turn.log.said)[0].0, "uncertain-commit-left-neither-state");
}

#[test]
fn database_that_is_lost_ends_the_run() {
    let driver = to_first_tx(quiet(4, 3));
    let (driver, _) = driver.resume(Event::Tx(TxOutcome::RolledBack, true));
    let (driver, _) = driver.resume(Event::Done);
    let (driver, turn) = driver.resume(Event::Went(false));
    assert!(matches!(turn.action, Action::Finish));
    assert_eq!(driver.epochs_done, 1);
}

#[test]
fn live_mismatch_is_reported() {
    let mut found = false;
    for seed in 0..40 {
        let (driver, _) = Driver::start(quiet(1, 3), seed).resume(Event::Start);
        let (driver, _) = driver.resume(Event::Tx(TxOutcome::RolledBack, false));
        let (driver, turn) = driver.resume(Event::Went(false));
        if let Action::ReadModel = turn.action {
            found = true;
            let digest = digest_model(&rows(1));
            let (driver, turn) = driver.resume(Event::Read(Ok(rows(1))));
            assert!(matches!(turn.action, Action::FileLengths));
            assert_eq!(
                broken(&turn.log.said),
                vec![(
                    String::from("committed-state-mismatch"),
                    format!(
                        "live rows=1 digest={digest:x} expected cbf29ce484222325 rows=0"
                    )
                )]
            );
            assert_eq!(turn.log.said.len(), 5);
            let (_, turn) = driver.resume(Event::Lengths(Some(1), Some(2)));
            assert_eq!(
                lines(&turn.log.said)[0],
                "TURSO_DST_DIFF files: db_len=Some(1) wal_len=Some(2)"
            );
        }
    }
    assert!(found);
}

#[test]
fn bg_thread_that_cannot_be_joined() {
    let mut cfg = quiet(1, 1);
    cfg.bg_thread_permille = 1000;
    let (driver, turn) = Driver::start(cfg, 1).resume(Event::Start);
    assert!(matches!(turn.action, Action::SpawnBg(_)));
    assert_eq!(driver.wl.stats.count("bg-thread-spawned"), 1);
    let (driver, _) = driver.resume(Event::Done);
    let (driver, turn) = driver.resume(Event::Tx(TxOutcome::RolledBack, true));
    assert!(matches!(turn.action, Action::JoinBg));
    let (_, turn) = driver.resume(Event::Joined(None));
    assert_eq!(broken(&turn.log.said)[0].0, "bg-thread-join-failed");
}

#[test]
fn full_counters_leave_no_room() {
    let mut driver = to_first_tx(quiet(1, 3));
    driver.crashes = u64::MAX;
    assert!(!driver.can_resume(&Event::Tx(TxOutcome::RolledBack, true)));
}
