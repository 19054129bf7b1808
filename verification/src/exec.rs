//! Running one SQL statement to completion, and how it can fail.

use crate::text;
use crate::text::{join2, push_quoted, push_quoted_list, push_unsigned, take_chars};
use vstd::prelude::*;
use vstd::string::*;

verus! {

/// How often a statement may ask for I/O before it is declared stuck.
pub const STEP_BUDGET: u64 = 400_000;

/// An error of the engine, as far as it is told apart.
#[derive(Debug)]
pub enum EngineError {
    Busy,
    BusySnapshot,
    /// A constraint violation, with the engine's message.
    Constraint(String),
    /// Any other error, as the engine words it.
    Other(String),
}

/// Why a statement did not complete.
#[derive(Debug)]
pub enum Fail {
    /// The engine was busy, or its snapshot was stale.
    Busy,
    /// A constraint violation (expected by the workload for duplicate keys).
    Constraint(String),
    /// Any other engine error (I/O, corrupt, internal, ...).
    Error(String),
    /// The statement exceeded its budget.
    Stuck,
    /// The statement panicked (caught).
    Panic(String),
}

/// Why a statement did not complete, as a mathematical value.
pub enum FailView {
    Busy,
    Constraint(Seq<char>),
    Error(Seq<char>),
    Stuck,
    Panic(Seq<char>),
}

impl View for Fail {
    type V = FailView;

    open spec fn view(&self) -> FailView {
        match self {
            Fail::Busy => FailView::Busy,
            Fail::Constraint(s) => FailView::Constraint(s@),
            Fail::Error(s) => FailView::Error(s@),
            Fail::Stuck => FailView::Stuck,
            Fail::Panic(s) => FailView::Panic(s@),
        }
    }
}

impl FailView {
    /// The failure as `{:?}` writes it.
    pub open spec fn wording(self) -> Seq<char> {
        match self {
            FailView::Busy => "Busy"@,
            FailView::Constraint(s) => "Constraint("@ + text::quoted(s) + ")"@,
            FailView::Error(s) => "Error("@ + text::quoted(s) + ")"@,
            FailView::Stuck => "Stuck"@,
            FailView::Panic(s) => "Panic("@ + text::quoted(s) + ")"@,
        }
    }
}

fn named_text(name: &str, s: &str) -> (out: String)
    ensures
        out@ == name@ + text::quoted(s@) + ")"@,
{
    let mut out = name.to_owned();
    push_quoted(&mut out, s);
    out.append(")");
    out
}

impl Fail {
    /// The failure as `{:?}` writes it.
    pub fn wording(&self) -> (out: String)
        ensures
            out@ == self@.wording(),
    {
        match self {
            Fail::Busy => "Busy".to_owned(),
            Fail::Constraint(s) => named_text("Constraint(", s.as_str()),
            Fail::Error(s) => named_text("Error(", s.as_str()),
            Fail::Stuck => "Stuck".to_owned(),
            Fail::Panic(s) => named_text("Panic(", s.as_str()),
        }
    }

    /// The failure as `{:?}` writes it, behind a word on what failed.
    pub fn worded(&self, prefix: &str) -> (out: String)
        ensures
            out@ == prefix@ + self@.wording(),
    {
        let w = self.wording();
        join2(prefix, w.as_str())
    }
}

/// What an engine error counts as.
pub open spec fn classified(e: EngineError) -> FailView {
    match e {
        EngineError::Busy | EngineError::BusySnapshot => FailView::Busy,
        EngineError::Constraint(s) => FailView::Constraint(s@),
        EngineError::Other(s) => FailView::Error(s@),
    }
}

/// Tells what an engine error counts as.
pub fn classify(e: EngineError) -> (fail: Fail)
    ensures
        fail@ == classified(e),
{
    match e {
        EngineError::Busy => Fail::Busy,
        EngineError::BusySnapshot => Fail::Busy,
        EngineError::Constraint(s) => Fail::Constraint(s),
        EngineError::Other(s) => Fail::Error(s),
    }
}

/// The message of a panic: its payload where that is text.
pub fn panic_msg(payload: Option<String>) -> (msg: String)
    ensures
        msg@ == (match payload {
            Some(s) => s@,
            None => "non-string panic"@,
        }),
{
    match payload {
        Some(s) => s,
        None => "non-string panic".to_owned(),
    }
}

/// Rows of text, as mathematical values.
pub type Cells = Seq<Seq<Seq<char>>>;

/// Rows of text, as mathematical values.
pub open spec fn cells(rows: Seq<Vec<String>>) -> Cells {
    rows.map_values(|r: Vec<String>| text::texts(r@))
}

/// What a statement gave, as a mathematical value.
pub open spec fn result_view(r: Result<Vec<Vec<String>>, Fail>) -> Result<Cells, FailView> {
    match r {
        Ok(rows) => Ok(cells(rows@)),
        Err(e) => Err(e@),
    }
}

/// What a step of a statement gave.
pub enum StepEvent {
    Done,
    /// A row, each of its values as text.
    Row(Vec<String>),
    /// I/O, a yield or a sleep: the statement cannot go on yet.
    Pending,
    Interrupt,
    Busy,
    Failed(EngineError),
}

/// What is to be done next for a statement.
pub enum ExecAction {
    /// Step the statement.
    Step,
    /// Drive the I/O layer one step, then tell how that went.
    PollIo,
    /// The statement is over.
    Finish(Result<Vec<Vec<String>>, Fail>),
}

/// What is to be done next for a statement, as a mathematical value.
pub enum ExecActionView {
    Step,
    PollIo,
    Finish(Result<Cells, FailView>),
}

impl View for ExecAction {
    type V = ExecActionView;

    open spec fn view(&self) -> ExecActionView {
        match self {
            ExecAction::Step => ExecActionView::Step,
            ExecAction::PollIo => ExecActionView::PollIo,
            ExecAction::Finish(r) => ExecActionView::Finish(result_view(*r)),
        }
    }
}

/// A statement that is being run.
pub struct ExecRun {
    /// The rows it has given so far.
    pub rows: Vec<Vec<String>>,
    /// How often it has asked for I/O.
    pub steps: u64,
}

impl ExecRun {
    /// Whether the budget has not been overrun.
    pub open spec fn running(self) -> bool {
        self.steps <= STEP_BUDGET
    }

    /// A statement that has not been stepped yet.
    pub fn start() -> (run: ExecRun)
        ensures
            run.rows@.len() == 0,
            run.steps == 0,
            run.running(),
    {
        ExecRun { rows: Vec::new(), steps: 0 }
    }

    /// What a step of the statement gave.
    pub fn on_step(&mut self, event: StepEvent) -> (action: ExecAction)
        requires
            old(self).running(),
        ensures
            match event {
                StepEvent::Done => {
                    action@ == ExecActionView::Finish(Ok(cells(old(self).rows@)))
                },
                StepEvent::Row(row) => {
                    &&& action@ == ExecActionView::Step
                    &&& final(self).rows@ == old(self).rows@.push(row)
                    &&& final(self).steps == old(self).steps
                },
                StepEvent::Pending => {
                    &&& final(self).rows@ == old(self).rows@
                    &&& final(self).steps == old(self).steps + 1
                    &&& action@ == (if old(self).steps < STEP_BUDGET {
                        ExecActionView::PollIo
                    } else {
                        ExecActionView::Finish(Err(FailView::Stuck))
                    })
                    &&& action@ is PollIo <==> old(self).steps < 400_000
                },
                StepEvent::Interrupt => action@ == ExecActionView::Finish(
                    Err(FailView::Error("interrupt"@)),
                ),
                StepEvent::Busy => action@ == ExecActionView::Finish(Err(FailView::Busy)),
                StepEvent::Failed(e) => action@ == ExecActionView::Finish(Err(classified(e))),
            },
            !(action is Finish) ==> final(self).running(),
    {
        match event {
            StepEvent::Done => {
                let mut rows: Vec<Vec<String>> = Vec::new();
                std::mem::swap(&mut rows, &mut self.rows);
                ExecAction::Finish(Ok(rows))
            },
            StepEvent::Row(row) => {
                self.rows.push(row);
                ExecAction::Step
            },
            StepEvent::Pending => {
                self.steps = self.steps + 1;
                if self.steps > STEP_BUDGET {
                    ExecAction::Finish(Err(Fail::Stuck))
                } else {
                    ExecAction::PollIo
                }
            },
            StepEvent::Interrupt => ExecAction::Finish(Err(Fail::Error("interrupt".to_owned()))),
            StepEvent::Busy => ExecAction::Finish(Err(Fail::Busy)),
            StepEvent::Failed(e) => ExecAction::Finish(Err(classify(e))),
        }
    }

    /// How driving the I/O layer went.
    pub fn on_polled(&self, polled: Result<(), EngineError>) -> (action: ExecAction)
        ensures
            action@ == (match polled {
                Ok(_) => ExecActionView::Step,
                Err(e) => ExecActionView::Finish(Err(classified(e))),
            }),
    {
        match polled {
            Ok(_) => ExecAction::Step,
            Err(e) => ExecAction::Finish(Err(classify(e))),
        }
    }
}

/// Rows of text as `{:?}` writes them, up to the closing bracket.
pub open spec fn shown_rows(rows: Seq<Vec<String>>) -> Seq<char>
    decreases rows.len(),
{
    if rows.len() == 0 {
        Seq::empty()
    } else if rows.len() == 1 {
        text::quoted_list(rows[0]@)
    } else {
        shown_rows(rows.drop_last()) + ", "@ + text::quoted_list(rows.last()@)
    }
}

fn push_rows(out: &mut String, rows: &Vec<Vec<String>>)
    ensures
        final(out)@ == old(out)@ + "["@ + shown_rows(rows@) + "]"@,
{
    out.append("[");
    let mut i: usize = 0;
    proof {
        assert(out@ + shown_rows(rows@.take(0)) =~= out@);
    }
    while i < rows.len()
        invariant
            i <= rows.len(),
            out@ == old(out)@ + "["@ + shown_rows(rows@.take(i as int)),
        decreases rows.len() - i,
    {
        proof {
            assert(rows@.take(i + 1).drop_last() =~= rows@.take(i as int));
        }
        if i > 0 {
            out.append(", ");
        }
        push_quoted_list(out, &rows[i]);
        i += 1;
        proof {
            assert(out@ =~= old(out)@ + "["@ + shown_rows(rows@.take(i as int)));
        }
    }
    out.append("]");
    proof {
        assert(rows@.take(i as int) =~= rows@);
    }
}

/// How much of a statement its line shows.
pub const SHOWN_CHARS: usize = 90;

/// The line on a statement that was run; rows are shown where there are at most
/// two.
pub open spec fn statement_line(sql: Seq<char>, r: Result<Vec<Vec<String>>, Fail>) -> Seq<char> {
    "sql: "@ + text::first_chars(sql, SHOWN_CHARS as nat) + (match r {
        Ok(rows) => " -> ok rows="@ + text::decimal(rows@.len() as int) + (if rows@.len() <= 2 {
            " ["@ + shown_rows(rows@) + "]"@
        } else {
            Seq::empty()
        }),
        Err(e) => " -> ERR "@ + e@.wording(),
    })
}

/// Shows a statement that was run, and what it gave.
pub fn show_statement(sql: &str, r: &Result<Vec<Vec<String>>, Fail>) -> (line: String)
    ensures
        line@ == statement_line(sql@, *r),
{
    let short = take_chars(sql, SHOWN_CHARS);
    let mut line = join2("sql: ", short.as_str());
    match r {
        Ok(rows) => {
            line.append(" -> ok rows=");
            push_unsigned(&mut line, rows.len() as u64);
            if rows.len() <= 2 {
                line.append(" ");
                push_rows(&mut line, rows);
            }
            proof {
                reveal_strlit(" ");
                reveal_strlit("[");
                reveal_strlit(" [");
                assert(" "@ + "["@ =~= " ["@);
                assert(line@ =~= statement_line(sql@, *r));
            }
        },
        Err(e) => {
            line.append(" -> ERR ");
            let w = e.wording();
            line.append(w.as_str());
            proof {
                assert(line@ =~= statement_line(sql@, *r));
            }
        },
    }
    line
}

/// What an engine error counts as: both ways of being busy are one failure, a
/// broken constraint keeps its message, and so does any other error.
pub proof fn law_errors_are_told_apart(s: String)
    ensures
        classified(EngineError::Busy) == FailView::Busy,
        classified(EngineError::BusySnapshot) == FailView::Busy,
        classified(EngineError::Constraint(s)) == FailView::Constraint(s@),
        classified(EngineError::Other(s)) == FailView::Error(s@),
{
}

/// Rows are shown one after the other, with a comma between each two.
pub proof fn law_rows_are_shown_in_order(rows: Seq<Vec<String>>, row: Vec<String>)
    ensures
        shown_rows(Seq::<Vec<String>>::empty()) == Seq::<char>::empty(),
        shown_rows(seq![row]) == text::quoted_list(row@),
        rows.len() > 0 ==> shown_rows(rows.push(row)) == shown_rows(rows) + ", "@
            + text::quoted_list(row@),
{
    assert(rows.push(row).drop_last() =~= rows);
}

/// The line on a statement shows its first ninety characters, and of what it
/// gave the number of rows, and the rows where there are at most two.
pub proof fn law_statement_is_shown(sql: Seq<char>, rows: Vec<Vec<String>>, e: Fail)
    ensures
        ({
            let good: Result<Vec<Vec<String>>, Fail> = Ok(rows);
            let head = "sql: "@ + text::first_chars(sql, 90);
            statement_line(sql, good) == head + (" -> ok rows="@ + text::decimal(
                rows@.len() as int,
            ) + (if rows@.len() <= 2 {
                " ["@ + shown_rows(rows@) + "]"@
            } else {
                Seq::empty()
            }))
        }),
        ({
            let bad: Result<Vec<Vec<String>>, Fail> = Err(e);
            statement_line(sql, bad) == "sql: "@ + text::first_chars(sql, 90) + (" -> ERR "@
                + e@.wording())
        }),
{
}

} // verus!
