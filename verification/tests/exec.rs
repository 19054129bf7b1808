use turso_dst::exec::{
    classify, panic_msg, show_statement, EngineError, ExecAction, ExecRun, Fail, StepEvent,
    STEP_BUDGET,
};

fn s(t: &str) -> String {
    t.to_string()
}

#[test]
fn errors_are_classified() {
    assert!(matches!(classify(EngineError::Busy), Fail::Busy));
    assert!(matches!(classify(EngineError::BusySnapshot), Fail::Busy));
    assert!(matches!(classify(EngineError::Constraint(s("c"))), Fail::Constraint(m) if m == "c"));
    assert!(matches!(classify(EngineError::Other(s("disk"))), Fail::Error(m) if m == "disk"));
}

#[test]
fn failures_are_worded_as_debug_does() {
    for f in [
        Fail::Busy,
        Fail::Constraint(s("UNIQUE \"id\"")),
        Fail::Error(s("a\\b")),
        Fail::Stuck,
        Fail::Panic(s("boom")),
    ] {
        assert_eq!(f.wording(), format!("{f:?}"));
        assert_eq!(f.worded("begin: "), format!("begin: {f:?}"));
    }
}

#[test]
fn panics_have_messages() {
    assert_eq!(panic_msg(Some(s("boom"))), "boom");
    assert_eq!(panic_msg(None), "non-string panic");
}

#[test]
fn rows_are_collected_until_the_end() {
    let mut run = ExecRun::start();
    assert!(matches!(run.on_step(StepEvent::Row(vec![s("1")])), ExecAction::Step));
    assert!(matches!(run.on_step(StepEvent::Pending), ExecAction::PollIo));
    assert!(matches!(run.on_polled(Ok(())), ExecAction::Step));
    assert!(matches!(run.on_step(StepEvent::Row(vec![s("2")])), ExecAction::Step));
    match run.on_step(StepEvent::Done) {
        ExecAction::Finish(Ok(rows)) => assert_eq!(rows, vec![vec![s("1")], vec![s("2")]]),
        _ => panic!("not finished"),
    }
}

#[test]
fn a_statement_that_never_ends_is_stuck() {
    let mut run = ExecRun::start();
    for _ in 0..STEP_BUDGET {
        assert!(matches!(run.on_step(StepEvent::Pending), ExecAction::PollIo));
    }
    assert!(matches!(run.on_step(StepEvent::Pending), ExecAction::Finish(Err(Fail::Stuck))));
}

#[test]
fn every_way_to_fail_ends_a_statement() {
    let end = |ev: StepEvent| match ExecRun::start().on_step(ev) {
        ExecAction::Finish(Err(e)) => e.wording(),
        _ => panic!("not failed"),
    };
    assert_eq!(end(StepEvent::Interrupt), "Error(\"interrupt\")");
    assert_eq!(end(StepEvent::Busy), "Busy");
    assert_eq!(end(StepEvent::Failed(EngineError::Constraint(s("x")))), "Constraint(\"x\")");
    match ExecRun::start().on_polled(Err(EngineError::Other(s("io")))) {
        ExecAction::Finish(Err(e)) => assert_eq!(e.wording(), "Error(\"io\")"),
        _ => panic!("not failed"),
    }
}

#[test]
fn statements_are_shown() {
    let rows = vec![vec![s("5"), s("15")]];
    assert_eq!(
        show_statement("SELECT 1", &Ok(rows)),
        "sql: SELECT 1 -> ok rows=1 [[\"5\", \"15\"]]"
    );
    assert_eq!(show_statement("BEGIN", &Ok(vec![])), "sql: BEGIN -> ok rows=0 []");
    let two = vec![vec![s("a")], vec![]];
    assert_eq!(show_statement("x", &Ok(two)), "sql: x -> ok rows=2 [[\"a\"], []]");
    let three = vec![vec![], vec![], vec![]];
    assert_eq!(show_statement("x", &Ok(three)), "sql: x -> ok rows=3");
    let long = "y".repeat(100);
    assert_eq!(
        show_statement(&long, &Err(Fail::Busy)),
        format!("sql: {} -> ERR Busy", "y".repeat(90))
    );
}
