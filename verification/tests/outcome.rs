use turso_dst::log::{Cover, Saying};
use turso_dst::model::{History, SyncMode};
use turso_dst::outcome::{finish, judge_run, say_stats, IoCounts, Verdict};
use turso_dst::report::{close_note, panicked, violation, PanicPlace};
use turso_dst::stats::Stats;
use turso_dst::table::Model;

#[test]
fn run_passes_exactly_where_nothing_was_broken() {
    let h = History::new(Model::new(), SyncMode::Full);
    match judge_run(0, h.last(), 3, 2) {
        Verdict::Passed { label, detail, line } => {
            assert_eq!(label, "turso-dst-outcome");
            assert_eq!(detail, "digest=cbf29ce484222325 rows=0 epochs=3 crashes=2");
            assert_eq!(line, "TURSO_DST_OK digest=cbf29ce484222325 rows=0 epochs=3 crashes=2");
        }
        _ => panic!("failed"),
    }
    match judge_run(4, h.last(), 3, 2) {
        Verdict::Failed { line, code } => {
            assert_eq!(line, "TURSO_DST_VIOLATIONS count=4");
            assert_eq!(code, 1);
        }
        _ => panic!("passed"),
    }
}

#[test]
fn scenario_passes_exactly_where_nothing_was_broken() {
    match finish("open-short-read", 0) {
        Verdict::Passed { label, detail, line } => {
            assert_eq!((label.as_str(), detail.as_str()), ("scenario", "open-short-read"));
            assert_eq!(line, "TURSO_DST_SCENARIO open-short-read OK");
        }
        _ => panic!("failed"),
    }
    match finish("open-short-read", 2) {
        Verdict::Failed { line, code } => {
            assert_eq!(line, "TURSO_DST_SCENARIO open-short-read FAILED violations=2");
            assert_eq!(code, 1);
        }
        _ => panic!("passed"),
    }
}

#[test]
fn stats_are_said() {
    let io = IoCounts { deferred: 5, reordered: 0 };
    let mut counters = Stats::new();
    counters.raise("update", 1);
    counters.raise("insert", 3);
    let log = say_stats(2, 1, io, &counters);
    assert!(matches!(log.said[0], Saying::Reached(Cover::IoCompletionsDeferred, true)));
    assert!(matches!(log.said[1], Saying::Reached(Cover::IoCompletionsReordered, false)));
    let want = "TURSO_DST_STATS epochs=2 crashes=1 deferred_ops=5 reordered_steps=0 \
                {\"insert\": 3, \"update\": 1}";
    assert!(matches!(&log.said[2], Saying::Line(l) if l == want));
}

#[test]
fn panics_are_reported_by_place() {
    let label = |place| panicked(place, String::from("m")).label;
    assert_eq!(label(PanicPlace::BgThread), "panic-in-bg-thread");
    assert_eq!(label(PanicPlace::DropAfterCrash), "panic-in-drop-after-crash");
    assert_eq!(label(PanicPlace::Drop), "panic-in-drop");
    assert_eq!(label(PanicPlace::Close), "panic-in-close");
    assert_eq!(panicked(PanicPlace::Drop, String::from("m")).detail, "m");
}

#[test]
fn corners_have_names() {
    assert_eq!(Cover::OpenRetried.label(), "open-retried");
    assert_eq!(Cover::EnginePowerCutDetected.label(), "engine-internal-power-cut-detected");
    assert_eq!(Cover::IoCompletionsReordered.label(), "io-completions-reordered");
}

#[test]
fn reports_are_put_into_words() {
    let v = violation("statement-stuck", String::from("x: Stuck"));
    assert_eq!(v.line(), "TURSO_DST_VIOLATION label=statement-stuck detail=x: Stuck");
    assert_eq!(close_note(false, "gone"), "note: close error gone");
    assert_eq!(close_note(true, "gone"), "note: reader close error gone");
}
