use turso_dst::exec::Fail;
use turso_dst::report::Violation;
use turso_dst::table::{digest_model, put_row, row_count, Model};
use turso_dst::tx::{TxAction, TxEvent, TxOutcome, TxPhase, TxRun};
use turso_dst::workload::{Expect, Workload};

fn counted(m: &Model) -> Vec<Vec<String>> {
    let sum: i64 = m.values().map(|(n, _)| *n).sum();
    vec![vec![row_count(m).to_string(), sum.to_string()]]
}

fn right_rows(expect: Expect, m: &Model) -> Result<Vec<Vec<String>>, Fail> {
    match expect {
        Expect::Success => Ok(vec![]),
        Expect::Constraint => Err(Fail::Constraint(String::from("UNIQUE"))),
        Expect::Count => Ok(counted(m)),
    }
}

/// What an engine answers that keeps its promises.
fn faithful(tx: &TxRun) -> TxEvent {
    match &tx.phase {
        TxPhase::Cut => TxEvent::PowerCut,
        TxPhase::ReadBack => TxEvent::Digest(Ok((digest_model(&tx.cur), row_count(&tx.cur)))),
        TxPhase::Statement { expect, .. } => TxEvent::Sql(right_rows(*expect, &tx.cur)),
        TxPhase::Autocommit { expect, .. } => TxEvent::Sql(right_rows(*expect, &tx.base)),
        _ => TxEvent::Sql(Ok(vec![])),
    }
}

struct Told {
    outcome: TxOutcome,
    crashed: bool,
    violations: Vec<Violation>,
    notes: Vec<String>,
    sqls: Vec<String>,
}

/// Runs an attempt; `answer` may answer in the engine's place.
fn attempt(
    wl: &mut Workload,
    base: Model,
    mid: bool,
    answer: &dyn Fn(&TxRun, &str) -> Option<TxEvent>,
) -> Told {
    let mut tx = TxRun::start(base, mid, 10);
    let mut ev = TxEvent::Start;
    let mut violations = vec![];
    let mut notes = vec![];
    let mut sqls = vec![];
    for _ in 0..67 {
        assert!(tx.can_resume(wl, &ev));
        let (next, turn) = tx.resume(wl, ev);
        tx = next;
        violations.extend(turn.violations);
        notes.extend(turn.note);
        let sql = match turn.action {
            TxAction::Finish(outcome, crashed) => {
                return Told { outcome, crashed, violations, notes, sqls };
            }
            TxAction::Exec(sql) => sql,
            _ => String::new(),
        };
        ev = answer(&tx, &sql).unwrap_or_else(|| faithful(&tx));
        sqls.push(sql);
    }
    panic!("the attempt does not end")
}

fn start() -> Model {
    let mut m = Model::new();
    for i in 1..=5 {
        put_row(&mut m, i, i, format!("v{i}"));
    }
    m
}

fn workload(seed: u64) -> Workload {
    let mut wl = Workload::new(seed);
    wl.next_id = 5;
    wl
}

#[test]
fn faithful_engine_is_never_accused_in_a_transaction() {
    let mut seen = [0u32; 3];
    for seed in 0..300 {
        let mut wl = workload(seed);
        let told = attempt(&mut wl, start(), false, &|_, _| None);
        assert!(told.violations.is_empty());
        assert!(!told.crashed);
        match told.outcome {
            TxOutcome::Committed(_) => seen[0] += 1,
            TxOutcome::RolledBack => seen[1] += 1,
            _ => panic!("neither committed nor rolled back"),
        }
        if wl.stats.count("rollback-to") > 0 {
            seen[2] += 1;
        }
    }
    assert!(seen.iter().all(|n| *n > 0));
}

#[test]
fn power_cut_ends_as_rolled_back() {
    let mut cuts = 0;
    for seed in 0..100 {
        let mut wl = workload(seed);
        let told = attempt(&mut wl, start(), true, &|tx, _| match tx.phase {
            TxPhase::Abandon { .. } => Some(TxEvent::Sql(Err(Fail::Error(String::from("dead"))))),
            _ => None,
        });
        if told.crashed {
            cuts += 1;
            assert!(matches!(told.outcome, TxOutcome::RolledBack));
            assert_eq!(wl.stats.count("crash-mid-tx"), 1);
            assert_eq!(told.sqls.last().unwrap(), "ROLLBACK");
        }
    }
    assert!(cuts > 0);
}

#[test]
fn failed_commit_is_uncertain() {
    let mut found = false;
    for seed in 0..50 {
        let mut wl = workload(seed);
        let told = attempt(&mut wl, start(), false, &|_, sql| {
            (sql == "COMMIT").then_some(TxEvent::Sql(Err(Fail::Error(String::from("io")))))
        });
        if told.sqls.iter().any(|s| s == "COMMIT") {
            found = true;
            assert!(matches!(told.outcome, TxOutcome::Uncertain(_)));
            assert_eq!(told.notes, vec!["note: COMMIT error: Error(\"io\")"]);
            assert_eq!(told.sqls.last().unwrap(), "ROLLBACK");
            assert_eq!(wl.stats.count("commit-error"), 1);
        }
    }
    assert!(found);
}

#[test]
fn busy_commit_is_busy() {
    let mut found = false;
    for seed in 0..50 {
        let mut wl = workload(seed);
        let told = attempt(&mut wl, start(), false, &|_, sql| {
            (sql == "COMMIT").then_some(TxEvent::Sql(Err(Fail::Busy)))
        });
        if told.sqls.iter().any(|s| s == "COMMIT") {
            found = true;
            assert!(matches!(told.outcome, TxOutcome::Busy));
        }
    }
    assert!(found);
}

#[test]
fn begin_that_fails_ends_the_attempt() {
    for seed in 0..50 {
        let mut wl = workload(seed);
        let told = attempt(&mut wl, start(), false, &|_, sql| {
            (sql == "BEGIN").then_some(TxEvent::Sql(Err(Fail::Stuck)))
        });
        if told.sqls[0] == "BEGIN" {
            assert_eq!(told.sqls.len(), 1);
            assert!(matches!(told.outcome, TxOutcome::Aborted(why) if why == "begin: Stuck"));
        }
    }
}

#[test]
fn failed_autocommit_write_is_uncertain() {
    let mut found = [false; 2];
    for seed in 0..100 {
        let mut wl = workload(seed);
        let told = attempt(&mut wl, start(), false, &|tx, _| match tx.phase {
            TxPhase::Autocommit { .. } => Some(TxEvent::Sql(Err(Fail::Error(String::from("io"))))),
            _ => None,
        });
        if told.sqls[0] != "BEGIN" {
            assert_eq!(wl.stats.count("autocommit-error"), 1);
            if told.sqls[0].starts_with("SELECT") {
                found[0] = true;
                assert!(matches!(told.outcome, TxOutcome::Aborted(why) if why == "Error(\"io\")"));
            } else if let TxOutcome::Uncertain(_) = told.outcome {
                found[1] = true;
                assert_eq!(told.notes, vec!["note: autocommit error: Error(\"io\")"]);
            }
        }
    }
    assert!(found[0] && found[1]);
}

#[test]
fn lost_write_is_reported() {
    let mut found = false;
    for seed in 0..50 {
        let told = attempt(&mut workload(seed), start(), false, &|tx, _| match tx.phase {
            TxPhase::ReadBack => Some(TxEvent::Digest(Ok((!digest_model(&tx.cur), 3)))),
            _ => None,
        });
        for v in &told.violations {
            found = true;
            assert_eq!(v.label, "read-your-writes-violated");
            assert!(v.detail.starts_with("in-tx digest mismatch rows_db=3 rows_model="));
        }
    }
    assert!(found);
}

#[test]
fn constraints_must_be_enforced() {
    let mut found = [false; 2];
    for seed in 0..200 {
        let told = attempt(&mut workload(seed), start(), false, &|tx, _| match &tx.phase {
            TxPhase::Statement { expect: Expect::Constraint, .. } => {
                Some(TxEvent::Sql(Ok(vec![])))
            }
            TxPhase::Statement { expect: Expect::Success, .. } => {
                Some(TxEvent::Sql(Err(Fail::Constraint(String::from("C")))))
            }
            _ => None,
        });
        for v in &told.violations {
            if v.label == "constraint-not-enforced" {
                found[0] = true;
                assert!(v.detail.starts_with("INSERT INTO kv VALUES("));
            } else {
                found[1] = true;
                assert_eq!(v.label, "unexpected-constraint-error");
                assert!(v.detail.ends_with(": C"));
            }
        }
    }
    assert!(found[0] && found[1]);
}

#[test]
fn failed_statement_changes_nothing() {
    let mut found = false;
    for seed in 0..50 {
        let mut wl = workload(seed);
        let told = attempt(&mut wl, start(), false, &|tx, _| match &tx.phase {
            TxPhase::Statement { expect: Expect::Constraint, .. } => None,
            TxPhase::Statement { .. } => {
                Some(TxEvent::Sql(Err(Fail::Constraint(String::from("C")))))
            }
            TxPhase::Autocommit { .. } => Some(TxEvent::Sql(Err(Fail::Busy))),
            _ => None,
        });
        if let TxOutcome::Committed(m) = told.outcome {
            found = true;
            assert_eq!(m, start());
        }
    }
    assert!(found);
}

#[test]
fn savepoint_brings_the_table_back() {
    let mut found = false;
    for seed in 0..400 {
        let mut wl = workload(seed);
        let mut tx = TxRun::start(start(), false, 0);
        let mut ev = TxEvent::Start;
        let mut saved: Vec<Model> = vec![];
        loop {
            let rolling = matches!(tx.phase, TxPhase::RollbackTo { .. });
            let marking = matches!(tx.phase, TxPhase::Savepoint { .. });
            let cur = tx.cur.clone();
            let depth = tx.savepoints.len();
            let (next, turn) = tx.resume(&mut wl, ev);
            tx = next;
            if marking {
                assert_eq!(tx.savepoints.len(), depth + 1);
                assert_eq!(tx.savepoints[depth].0, format!("sp{depth}"));
                saved.push(cur);
            } else if rolling {
                found = true;
                assert_eq!(tx.cur, saved.pop().unwrap());
            } else if matches!(tx.phase, TxPhase::Release) {
                saved.pop();
            }
            if let TxAction::Finish(..) = turn.action {
                break;
            }
            ev = faithful(&tx);
        }
    }
    assert!(found);
}

#[test]
fn statement_that_gets_stuck_aborts() {
    let mut found = false;
    for seed in 0..20 {
        let told = attempt(&mut workload(seed), start(), false, &|tx, _| match &tx.phase {
            TxPhase::Statement { .. } => Some(TxEvent::Sql(Err(Fail::Stuck))),
            _ => None,
        });
        if let TxOutcome::Aborted(why) = told.outcome {
            found = true;
            assert!(why.ends_with(": Stuck"));
            assert!(why.chars().count() <= 60 + ": Stuck".len());
        }
    }
    assert!(found);
}
