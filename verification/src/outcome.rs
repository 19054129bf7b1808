//! What a run comes to in the end.

use crate::log::{Cover, Log, SayingView};
use crate::model::Snap;
use crate::model::SnapView;
use crate::stats;
use crate::stats::{Counts, Stats};
use crate::text;
use crate::text::{join2, push_hex, push_unsigned};
use vstd::prelude::*;
use vstd::string::*;

verus! {

/// What the I/O layer has counted.
#[derive(Clone, Copy, Debug)]
pub struct IoCounts {
    pub deferred: u64,
    pub reordered: u64,
}

/// The line that counts what a run has done.
pub open spec fn stats_line(
    epochs: u64,
    crashes: u64,
    io: IoCounts,
    counters: Counts,
) -> Seq<char> {
    "TURSO_DST_STATS epochs="@ + text::decimal(epochs as int) + " crashes="@ + text::decimal(
        crashes as int,
    ) + " deferred_ops="@ + text::decimal(io.deferred as int) + " reordered_steps="@
        + text::decimal(io.reordered as int) + " "@ + stats::shown(counters)
}

/// Says what a run has done.
pub fn say_stats(epochs: u64, crashes: u64, io: IoCounts, counters: &Stats) -> (log: Log)
    requires
        counters.wf(),
    ensures
        log@ == seq![
            SayingView::Reached(Cover::IoCompletionsDeferred, io.deferred > 0),
            SayingView::Reached(Cover::IoCompletionsReordered, io.reordered > 0),
            SayingView::Line(stats_line(epochs, crashes, io, counters@)),
        ],
{
    let mut log = Log::new();
    log.reached(Cover::IoCompletionsDeferred, io.deferred > 0);
    log.reached(Cover::IoCompletionsReordered, io.reordered > 0);
    let mut line = "TURSO_DST_STATS epochs=".to_owned();
    push_unsigned(&mut line, epochs);
    line.append(" crashes=");
    push_unsigned(&mut line, crashes);
    line.append(" deferred_ops=");
    push_unsigned(&mut line, io.deferred);
    line.append(" reordered_steps=");
    push_unsigned(&mut line, io.reordered);
    line.append(" ");
    let shown = counters.show();
    line.append(shown.as_str());
    log.line(line);
    proof {
        assert(log@ =~= seq![
            SayingView::Reached(Cover::IoCompletionsDeferred, io.deferred > 0),
            SayingView::Reached(Cover::IoCompletionsReordered, io.reordered > 0),
            SayingView::Line(stats_line(epochs, crashes, io, counters@)),
        ]);
    }
    log
}

/// What a run or a scenario has come to.
#[derive(Debug)]
pub enum Verdict {
    /// Something was broken: say the line and exit with the code.
    Failed { line: String, code: i32 },
    /// Nothing was broken: report the detail under the label, and say the line.
    Passed { label: String, detail: String, line: String },
}

/// What a run or a scenario has come to, as a mathematical value.
pub enum VerdictView {
    Failed { line: Seq<char>, code: i32 },
    Passed { label: Seq<char>, detail: Seq<char>, line: Seq<char> },
}

impl View for Verdict {
    type V = VerdictView;

    open spec fn view(&self) -> VerdictView {
        match self {
            Verdict::Failed { line, code } => VerdictView::Failed { line: line@, code: *code },
            Verdict::Passed { label, detail, line } => VerdictView::Passed {
                label: label@,
                detail: detail@,
                line: line@,
            },
        }
    }
}

/// The outcome of a run by which two runs of one seed are compared.
pub open spec fn outcome_text(last: SnapView, epochs: u64, crashes: u64) -> Seq<char> {
    "digest="@ + text::hexadecimal(last.digest as nat) + " rows="@ + text::decimal(
        last.rows as int,
    ) + " epochs="@ + text::decimal(epochs as int) + " crashes="@ + text::decimal(crashes as int)
}

/// What a run has come to: it has failed exactly where something was broken.
pub open spec fn run_verdict(
    violations: u64,
    last: SnapView,
    epochs: u64,
    crashes: u64,
) -> VerdictView {
    if violations > 0 {
        VerdictView::Failed {
            line: "TURSO_DST_VIOLATIONS count="@ + text::decimal(violations as int),
            code: 1,
        }
    } else {
        VerdictView::Passed {
            label: "turso-dst-outcome"@,
            detail: outcome_text(last, epochs, crashes),
            line: "TURSO_DST_OK "@ + outcome_text(last, epochs, crashes),
        }
    }
}

/// Tells what a run has come to.
pub fn judge_run(violations: u64, last: &Snap, epochs: u64, crashes: u64) -> (v: Verdict)
    ensures
        v@ == run_verdict(violations, last@, epochs, crashes),
{
    if violations > 0 {
        let mut line = "TURSO_DST_VIOLATIONS count=".to_owned();
        push_unsigned(&mut line, violations);
        return Verdict::Failed { line, code: 1 };
    }
    let mut detail = "digest=".to_owned();
    push_hex(&mut detail, last.digest);
    detail.append(" rows=");
    push_unsigned(&mut detail, last.rows as u64);
    detail.append(" epochs=");
    push_unsigned(&mut detail, epochs);
    detail.append(" crashes=");
    push_unsigned(&mut detail, crashes);
    let line = join2("TURSO_DST_OK ", detail.as_str());
    Verdict::Passed { label: "turso-dst-outcome".to_owned(), detail, line }
}

/// What a scenario has come to.
pub open spec fn scenario_verdict(name: Seq<char>, violations: u64) -> VerdictView {
    if violations > 0 {
        VerdictView::Failed {
            line: "TURSO_DST_SCENARIO "@ + name + " FAILED violations="@ + text::decimal(
                violations as int,
            ),
            code: 1,
        }
    } else {
        VerdictView::Passed {
            label: "scenario"@,
            detail: name,
            line: "TURSO_DST_SCENARIO "@ + name + " OK"@,
        }
    }
}

/// Tells what a scenario has come to.
pub fn finish(name: &str, violations: u64) -> (v: Verdict)
    ensures
        v@ == scenario_verdict(name@, violations),
{
    let mut line = "TURSO_DST_SCENARIO ".to_owned();
    line.append(name);
    if violations > 0 {
        line.append(" FAILED violations=");
        push_unsigned(&mut line, violations);
        Verdict::Failed { line, code: 1 }
    } else {
        line.append(" OK");
        Verdict::Passed { label: "scenario".to_owned(), detail: name.to_owned(), line }
    }
}

/// What is said of a name that no scenario has.
pub open spec fn unknown_verdict(name: Seq<char>) -> VerdictView {
    VerdictView::Failed { line: "scenario: unknown scenario "@ + name, code: 2 }
}

/// Tells that no scenario has a name.
pub fn unknown_scenario(name: &str) -> (v: Verdict)
    ensures
        v@ == unknown_verdict(name@),
{
    Verdict::Failed { line: join2("scenario: unknown scenario ", name), code: 2 }
}

/// A run or a scenario passes exactly where nothing was broken in it.
pub proof fn law_passes_exactly_where_nothing_was_broken(
    violations: u64,
    last: SnapView,
    epochs: u64,
    crashes: u64,
    name: Seq<char>,
)
    ensures
        run_verdict(violations, last, epochs, crashes) is Passed <==> violations == 0,
        scenario_verdict(name, violations) is Passed <==> violations == 0,
{
}

/// What a run that has broken nothing reports is the state it ended in and how
/// far it came, so that two runs of one seed can be compared; one that has
/// broken something fails with how often.
pub proof fn law_outcome_names_the_last_state(
    violations: u64,
    last: SnapView,
    epochs: u64,
    crashes: u64,
)
    ensures
        ({
            let state = "digest="@ + text::hexadecimal(last.digest as nat) + " rows="@
                + text::decimal(last.rows as int) + " epochs="@ + text::decimal(epochs as int)
                + " crashes="@ + text::decimal(crashes as int);
            run_verdict(violations, last, epochs, crashes) == (if violations > 0 {
                VerdictView::Failed {
                    line: "TURSO_DST_VIOLATIONS count="@ + text::decimal(violations as int),
                    code: 1,
                }
            } else {
                VerdictView::Passed {
                    label: "turso-dst-outcome"@,
                    detail: state,
                    line: "TURSO_DST_OK "@ + state,
                }
            })
        }),
{
}

/// What a scenario reports: its name, and whether or how often it has broken
/// something. A name that no scenario has fails with another code.
pub proof fn law_scenario_is_named(name: Seq<char>, violations: u64)
    ensures
        violations > 0 ==> scenario_verdict(name, violations) == (VerdictView::Failed {
            line: "TURSO_DST_SCENARIO "@ + name + " FAILED violations="@ + text::decimal(
                violations as int,
            ),
            code: 1,
        }),
        violations == 0 ==> scenario_verdict(name, violations) == (VerdictView::Passed {
            label: "scenario"@,
            detail: name,
            line: "TURSO_DST_SCENARIO "@ + name + " OK"@,
        }),
        unknown_verdict(name) == (VerdictView::Failed {
            line: "scenario: unknown scenario "@ + name,
            code: 2,
        }),
{
}

/// The line on what a run has done names each count after its own word.
pub proof fn law_counts_are_named(epochs: u64, crashes: u64, io: IoCounts, counters: Counts)
    ensures
        stats_line(epochs, crashes, io, counters) == "TURSO_DST_STATS epochs="@ + text::decimal(
            epochs as int,
        ) + " crashes="@ + text::decimal(crashes as int) + " deferred_ops="@ + text::decimal(
            io.deferred as int,
        ) + " reordered_steps="@ + text::decimal(io.reordered as int) + " "@ + stats::shown(
            counters,
        ),
{
}

} // verus!
