use turso_dst::detio::OpKind;
use turso_dst::exec::Fail;
use turso_dst::log::Saying;
use turso_dst::outcome::{unknown_scenario, Verdict};
use turso_dst::scenario::{count, sql, step, Action, Event, Scenario};
use turso_dst::script::{script, Caption, Filling, Op, Query, Want};

fn s(t: &str) -> String {
    t.to_string()
}

const NAMES: [&str; 15] = [
    "commit-write-fail",
    "commit-write-fail-warm",
    "commit-sync-fail",
    "commit-sync-fail-2",
    "commit-header-write-fail",
    "autocommit-header-write-fail",
    "read-fail-then-count",
    "rollback-then-read-fail",
    "recovery-read-fail",
    "rollback-inflight-spill",
    "rollback-inflight-spill-drained",
    "checkpoint-fail-then-crash",
    "ckpt-crash-sweep",
    "savepoint-read-fail",
    "open-short-read",
];

/// An engine that keeps its promises, as far as a scenario looks at it.
#[derive(Default)]
struct Engine {
    committed: u64,
    in_tx: Option<u64>,
    armed: bool,
    fail_open: bool,
    /// Loses everything at the next open.
    forgetful: bool,
}

impl Engine {
    fn run(&mut self, q: &str) -> Result<Vec<Vec<String>>, Fail> {
        let seen = self.in_tx.unwrap_or(self.committed);
        if q.starts_with("SELECT count") {
            return Ok(vec![vec![seen.to_string(), s("0")]]);
        }
        if q == "PRAGMA integrity_check" {
            return Ok(vec![vec![s("ok")]]);
        }
        let hit = self.armed
            && (q == "COMMIT" || q.starts_with("SELECT id") || q.starts_with("UPDATE")
                || (q.starts_with("INSERT") && self.in_tx.is_none()));
        if hit {
            self.armed = false;
            self.in_tx = None;
            return Err(Fail::Error(s("injected")));
        }
        if q == "BEGIN" {
            self.in_tx = Some(self.committed);
        } else if q == "COMMIT" {
            self.committed = self.in_tx.take().unwrap();
        } else if q == "ROLLBACK" {
            if self.in_tx.take().is_none() {
                return Err(Fail::Error(s("no transaction is active")));
            }
        } else if q.starts_with("INSERT") {
            match &mut self.in_tx {
                Some(n) => *n += 1,
                None => self.committed += 1,
            }
        } else if q.starts_with("CREATE TABLE") {
            self.committed = 0;
        }
        Ok(vec![])
    }
}

struct Told {
    lines: Vec<String>,
    broken: Vec<(String, String)>,
    actions: Vec<String>,
}

fn play(name: &str, only: Option<String>, engine: &mut Engine) -> Told {
    let mut run = Scenario::start(name, &only).unwrap();
    let mut told = Told { lines: vec![], broken: vec![], actions: vec![] };
    for _ in 0..5000 {
        let action = run.action();
        told.actions.push(format!("{action:?}"));
        let ev = match action {
            Action::Finish => return told,
            Action::Open { .. } => {
                if engine.forgetful {
                    engine.committed = 0;
                }
                Event::Done
            }
            Action::TryOpen { .. } => {
                engine.armed = false;
                Event::Opened(engine.fail_open.then_some(s("short")))
            }
            Action::Drop(_) => {
                engine.in_tx = None;
                Event::Done
            }
            Action::Must(q) => {
                engine.run(&q).unwrap();
                Event::Done
            }
            Action::Ask(q) => Event::Answer(engine.run(&q)),
            Action::AutoCommit => Event::Flag(engine.in_tx.is_none()),
            Action::Injected => Event::Number(1),
            Action::Pending => Event::Number(0),
            Action::ArmedCuts => Event::Number(0),
            Action::ArmFail(..) => {
                engine.armed = true;
                Event::Done
            }
            Action::Disarm => {
                engine.armed = false;
                Event::Done
            }
            Action::Truncate => {
                engine.armed = false;
                Event::Truncated(Ok(4))
            }
            Action::PowerCut => Event::Flag(true),
            _ => Event::Done,
        };
        assert!(run.can_settle(&ev));
        let (next, log) = run.settle(ev);
        run = next;
        for said in log.said {
            match said {
                Saying::Line(l) => told.lines.push(l),
                Saying::Broken(v) => told.broken.push((v.label, v.detail)),
                _ => panic!("a scenario covers nothing"),
            }
        }
    }
    panic!("the scenario does not end")
}

#[test]
fn faithful_engine_passes_every_scenario() {
    for name in NAMES {
        for fail_open in [false, true] {
            let mut engine = Engine { fail_open, ..Engine::default() };
            let told = play(name, None, &mut engine);
            assert!(told.broken.is_empty(), "{name}: {:?}", told.broken);
            assert!(!told.lines.is_empty());
            assert!(told.lines.iter().all(|l| l.starts_with(&format!("scenario[{name}]: "))));
        }
    }
}

#[test]
fn unknown_names_have_no_script() {
    assert!(Scenario::start("no-such", &None).is_none());
    assert!(script("", &None).is_none());
    match unknown_scenario("no-such") {
        Verdict::Failed { line, code } => {
            assert_eq!(line, "scenario: unknown scenario no-such");
            assert_eq!(code, 2);
        }
        _ => panic!("passed"),
    }
}

#[test]
fn failed_commit_is_followed() {
    let told = play("commit-write-fail", None, &mut Engine::default());
    assert!(told.actions.contains(&s("ArmFail(Pwritev, 0)")));
    assert_eq!(
        told.lines,
        vec![
            "scenario[commit-write-fail]: BEGIN -> ok rows=0   (expect ok)",
            "scenario[commit-write-fail]: INSERT 5 -> ok rows=0   (expect ok)",
            "scenario[commit-write-fail]: COMMIT -> ERR Error(\"injected\")",
            "scenario[commit-write-fail]: auto_commit after COMMIT = true",
            "scenario[commit-write-fail]: injected failures so far = 1",
            "scenario[commit-write-fail]: count right after failed COMMIT (same conn) -> \
             ok [\"4\", \"0\"]   (expect ok [\"4\")",
            "scenario[commit-write-fail]: ROLLBACK -> ERR Error(\"no transaction is active\")",
            "scenario[commit-write-fail]: count after ROLLBACK -> \
             ok [\"4\", \"0\"]   (expect ok [\"4\")",
            "scenario[commit-write-fail]: BEGIN (new tx) -> ok rows=0   (expect ok)",
            "scenario[commit-write-fail]: count in new tx -> \
             ok [\"4\", \"0\"]   (expect ok [\"4\")",
            "scenario[commit-write-fail]: COMMIT (new tx) -> ok rows=0   (expect ok)",
            "scenario[commit-write-fail]: INSERT 6 autocommit -> ok rows=0   (expect ok)",
            "scenario[commit-write-fail]: count after INSERT 6 -> \
             ok [\"5\", \"0\"]   (expect ok [\"5\")",
            "scenario[commit-write-fail]: integrity_check -> ok rows=1   (expect ok rows=1)",
            "scenario[commit-write-fail]: count after reopen -> \
             ok [\"5\", \"0\"]   (expect ok [\"5\")",
        ]
    );
}

#[test]
fn setup_of_a_scenario() {
    let told = play("autocommit-header-write-fail", None, &mut Engine::default());
    assert_eq!(
        told.actions[..6],
        [
            s("MakeDir(\"/turso-dst\")"),
            s("Open { dir: \"/turso-dst\", configured: true }"),
            s("Must(\"PRAGMA synchronous=FULL\")"),
            s("Must(\"PRAGMA cache_size=2000\")"),
            s("Must(\"CREATE TABLE kv(id INTEGER PRIMARY KEY, n INTEGER, v TEXT)\")"),
            s("Must(\"INSERT INTO kv VALUES(1, 1, 'row1')\")"),
        ]
    );
    let armed = told.actions.iter().position(|a| a == "ArmFail(Pwrite, 0)").unwrap();
    assert_eq!(told.actions[armed + 1], "Ask(\"INSERT INTO kv VALUES(5, 5, 'row5')\")");
}

#[test]
fn fault_that_does_not_hit_ends_the_scenario() {
    let mut run = Scenario::start("commit-sync-fail-2", &None).unwrap();
    let mut engine = Engine::default();
    let mut last = vec![];
    loop {
        let ev = match run.action() {
            Action::Finish => break,
            Action::Must(q) => {
                engine.run(&q).unwrap();
                Event::Done
            }
            Action::Ask(q) => Event::Answer(engine.run(&q)),
            Action::AutoCommit => Event::Flag(true),
            Action::Injected => Event::Number(0),
            Action::ArmFail(kind, k) => {
                assert_eq!((kind, k), (OpKind::Sync, 1));
                Event::Done
            }
            _ => Event::Done,
        };
        let (next, log) = run.settle(ev);
        run = next;
        last = log.said;
    }
    let want = "scenario[commit-sync-fail-2]: count after ok COMMIT -> \
                ok [\"5\", \"0\"]   (expect ok [\"5\")";
    assert!(matches!(&last[..], [Saying::Line(l)] if l == want));
}

#[test]
fn sweep_is_narrowed_to_one_placement() {
    let all = script("ckpt-crash-sweep", &None).unwrap();
    let one = script("ckpt-crash-sweep", &Some(s("sync:1"))).unwrap();
    let none = script("ckpt-crash-sweep", &Some(s("sync:9"))).unwrap();
    assert_eq!(all.len(), 30 * one.len());
    assert!(none.is_empty());
    let told = play("ckpt-crash-sweep", Some(s("sync:1")), &mut Engine::default());
    assert!(told.actions.contains(&s("ArmCrash(Sync, 1)")));
    assert!(told.actions.contains(&s("MakeDir(\"/turso-dst/cc-sync-1\")")));
    assert_eq!(
        told.lines,
        vec![
            "scenario[ckpt-crash-sweep]: crash after sync#1: cut=true checkpoint -> \
             ok backfilled=4; after reopen ok [\"16\", \"0\"]"
        ]
    );
    let failed = script("checkpoint-fail-then-crash", &None).unwrap();
    let first = script("checkpoint-fail-then-crash", &Some(s("pread:0"))).unwrap();
    assert_eq!(failed.len(), 18 * first.len());
}

#[test]
fn lost_rows_are_reported() {
    let mut engine = Engine { forgetful: true, ..Engine::default() };
    let told = play("ckpt-crash-sweep", Some(s("pread:0")), &mut engine);
    assert_eq!(
        told.broken,
        vec![(
            s("scenario-ckpt-crash-sweep"),
            s("crash after pread#0 in TRUNCATE checkpoint: after reopen ok [\"0\", \"0\"]")
        )]
    );
    assert!(told.lines[0].ends_with("   <-- DATA LOSS"));
    let mut engine = Engine { forgetful: true, ..Engine::default() };
    let told = play("checkpoint-fail-then-crash", Some(s("sync:2")), &mut engine);
    assert_eq!(
        told.lines,
        vec![
            "scenario[checkpoint-fail-then-crash]: sync#2: checkpoint -> ok backfilled=4; \
             INSERT 9 -> ok rows=0; live ok [\"9\", \"0\"]; power_cut=true; \
             after reopen ok [\"0\", \"0\"]   <-- DATA LOSS"
        ]
    );
    assert_eq!(
        told.broken[0].1,
        "sync#2: checkpoint ok backfilled=4; after crash+reopen ok [\"0\", \"0\"]"
    );
}

#[test]
fn database_that_opens_empty_is_reported() {
    let mut engine = Engine { forgetful: true, ..Engine::default() };
    let told = play("open-short-read", None, &mut engine);
    assert_eq!(told.broken.len(), 5);
    assert_eq!(told.broken[3].0, "scenario-open-short-read");
    assert_eq!(
        told.broken[3].1,
        "short pread#3 at open: opened with ok [\"8\", \"0\"]; after insert+reopen ok [\"0\", \"0\"]"
    );
}

#[test]
fn open_errors_are_shown() {
    let mut engine = Engine { fail_open: true, ..Engine::default() };
    let told = play("open-short-read", None, &mut engine);
    assert_eq!(told.lines[0], "scenario[open-short-read]: short pread#0 at open -> open ERR short");
    assert_eq!(told.lines.len(), 10);
    let mut engine = Engine { fail_open: true, ..Engine::default() };
    let told = play("recovery-read-fail", None, &mut engine);
    assert!(told.lines.contains(&s(
        "scenario[recovery-read-fail]: reopen with pread#5 failing -> open ERR Some(short)"
    )));
    assert!(told.lines.contains(&s(
        "scenario[recovery-read-fail]: count after failed open (k=5) + clean reopen -> \
         ok [\"8\", \"0\"]   (expect ok [\"8\")"
    )));
}

#[test]
fn savepoint_rounds_tell_the_two_cases_apart() {
    let told = play("savepoint-read-fail", None, &mut Engine::default());
    assert!(told.lines.contains(&s(
        "scenario[savepoint-read-fail]: k=2 UPDATE -> ERR Error(\"injected\"); INSERT -> ok rows=0"
    )));
    assert!(told.lines.contains(&s(
        "scenario[savepoint-read-fail]: k=2 UPDATE_err=true autocommit_after_update=true \
         ROLLBACK -> ERR Error(\"no transaction is active\")"
    )));
    assert!(told.lines.contains(&s(
        "scenario[savepoint-read-fail]: k=2 count after ROLLBACK -> ok [\"5\", \"0\"]   \
         (expect ok [\"5\")"
    )));
}

#[test]
fn check_reports_exactly_the_unexpected() {
    let log = step("n", "what", "ok rows=1", "ok");
    assert!(matches!(
        &log.said[..],
        [Saying::Line(l)] if l == "scenario[n]: what -> ok rows=1   (expect ok)"
    ));
    let log = step("n", "what", "ERR Busy", "ok");
    assert_eq!(log.said.len(), 2);
    match (&log.said[0], &log.said[1]) {
        (Saying::Line(l), Saying::Broken(v)) => {
            assert_eq!(l, "scenario[n]: what -> ERR Busy   (expect ok)  <-- MISMATCH");
            assert_eq!(v.label, "scenario-n");
            assert_eq!(v.detail, "what: got ERR Busy, expected ok");
        }
        _ => panic!("not reported"),
    }
}

#[test]
fn answers_are_shown() {
    let rows = Ok(vec![vec![s("5"), s("15")]]);
    assert_eq!(count(&rows), "ok [\"5\", \"15\"]");
    assert_eq!(sql(&Query::Plain("BEGIN"), &rows), "ok rows=1");
    assert_eq!(count(&Err(Fail::Stuck)), "ERR Stuck");
    assert_eq!(sql(&Query::Plain("BEGIN"), &Err(Fail::Busy)), "ERR Busy");
}

#[test]
fn pieces_of_a_script_are_written() {
    let c = Caption { pre: "k=", num: Some(3), post: " BEGIN" };
    assert_eq!(c.write(), "k=3 BEGIN");
    assert_eq!(Filling::Row(7).write(), "row7");
    assert_eq!(Filling::Word("after").write(), "after");
    assert_eq!(Filling::Repeat('z', 4).write(), "zzzz");
    let q = Query::Insert { id: 2, n: -1, v: Filling::Word("w") };
    assert_eq!(q.write(), "INSERT INTO kv VALUES(2, -1, 'w')");
    assert_eq!(Query::Cache(2).write(), "PRAGMA cache_size=2");
    assert_eq!(Query::Count.write(), "SELECT count(*), coalesce(sum(n),0) FROM kv");
    assert_eq!(Want::Fine.write(), "ok");
    assert_eq!(Want::OneRow.write(), "ok rows=1");
    assert_eq!(Want::Rows(16).write(), "ok [\"16\"");
}

#[test]
fn events_of_another_kind_are_not_settled() {
    let run = Scenario::start("open-short-read", &None).unwrap();
    assert!(matches!(run.script[0], Op::Enter(_)));
    assert!(run.can_settle(&Event::Done));
    let ops = script("commit-write-fail", &None).unwrap();
    let at = ops.iter().position(|o| matches!(o, Op::Check { .. })).unwrap();
    let mut run = Scenario::start("commit-write-fail", &None).unwrap();
    run.pc = at;
    assert!(!run.can_settle(&Event::Done));
    assert!(run.can_settle(&Event::Answer(Ok(vec![]))));
    run.pc = ops.len();
    assert!(!run.can_settle(&Event::Done));
}
