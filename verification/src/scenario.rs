//! Running the script of a focused scenario, operation by operation. Every
//! expectation that is not met is reported; the lines that begin with
//! `scenario` are the protocol for a human reader.

use crate::detio::OpKind;
use crate::exec::Fail;
use crate::log::{Log, SayingView};
use crate::report::{violation, ViolationView};
use crate::script;
use crate::script::{Caption, Figure, Op, Place, Query, Slot, Want};
use crate::text;
use crate::text::{flag_word, has_prefix, join2, push_quoted_list, push_unsigned};
use vstd::prelude::*;
use vstd::string::*;

verus! {

/// What is to be done for an operation.
#[derive(Debug)]
pub enum Action {
    /// Nothing.
    Pass,
    /// Create a directory, which must succeed.
    MakeDir(String),
    /// Sync a directory, as far as that succeeds.
    SyncDir(String),
    /// Open the database of a directory, which must succeed; where `configured`
    /// is set, its connections are set up as in a run.
    Open { dir: String, configured: bool },
    /// Try to open the database of a directory; where `synced` is set, full
    /// synchronization is asked for too, and must succeed as well.
    TryOpen { dir: String, configured: bool, synced: bool },
    /// Drop every handle; the flag tells whether the power was cut.
    Drop(bool),
    /// Run a statement, which must succeed.
    Must(String),
    /// Run a statement.
    Ask(String),
    /// Tell whether the connection is outside a transaction.
    AutoCommit,
    /// Tell how many failures were injected.
    Injected,
    /// Tell how many I/O operations are deferred.
    Pending,
    /// Tell how many power cuts are still armed.
    ArmedCuts,
    /// Arm a failure.
    ArmFail(OpKind, u32),
    /// Arm a power cut.
    ArmCrash(OpKind, u32),
    /// Arm a short read.
    ArmShort(u32, usize),
    /// Forget what is armed.
    Disarm,
    /// Set how often I/O is deferred.
    Defer(u64),
    /// Perform every deferred operation.
    Drain,
    /// Run a checkpoint that truncates the log, which must succeed.
    MustTruncate,
    /// Run a checkpoint that truncates the log.
    Truncate,
    /// Cut the power.
    PowerCut,
    /// The scenario is over.
    Finish,
}

/// What is to be done for an operation, as a mathematical value.
pub enum ActionView {
    Pass,
    MakeDir(Seq<char>),
    SyncDir(Seq<char>),
    Open { dir: Seq<char>, configured: bool },
    TryOpen { dir: Seq<char>, configured: bool, synced: bool },
    Drop(bool),
    Must(Seq<char>),
    Ask(Seq<char>),
    AutoCommit,
    Injected,
    Pending,
    ArmedCuts,
    ArmFail(OpKind, u32),
    ArmCrash(OpKind, u32),
    ArmShort(u32, usize),
    Disarm,
    Defer(u64),
    Drain,
    MustTruncate,
    Truncate,
    PowerCut,
    Finish,
}

impl View for Action {
    type V = ActionView;

    open spec fn view(&self) -> ActionView {
        match self {
            Action::Pass => ActionView::Pass,
            Action::MakeDir(dir) => ActionView::MakeDir(dir@),
            Action::SyncDir(dir) => ActionView::SyncDir(dir@),
            Action::Open { dir, configured } => ActionView::Open {
                dir: dir@,
                configured: *configured,
            },
            Action::TryOpen { dir, configured, synced } => ActionView::TryOpen {
                dir: dir@,
                configured: *configured,
                synced: *synced,
            },
            Action::Drop(crashed) => ActionView::Drop(*crashed),
            Action::Must(sql) => ActionView::Must(sql@),
            Action::Ask(sql) => ActionView::Ask(sql@),
            Action::AutoCommit => ActionView::AutoCommit,
            Action::Injected => ActionView::Injected,
            Action::Pending => ActionView::Pending,
            Action::ArmedCuts => ActionView::ArmedCuts,
            Action::ArmFail(kind, k) => ActionView::ArmFail(*kind, *k),
            Action::ArmCrash(kind, k) => ActionView::ArmCrash(*kind, *k),
            Action::ArmShort(k, bytes) => ActionView::ArmShort(*k, *bytes),
            Action::Disarm => ActionView::Disarm,
            Action::Defer(permille) => ActionView::Defer(*permille),
            Action::Drain => ActionView::Drain,
            Action::MustTruncate => ActionView::MustTruncate,
            Action::Truncate => ActionView::Truncate,
            Action::PowerCut => ActionView::PowerCut,
            Action::Finish => ActionView::Finish,
        }
    }
}

/// What came of an action.
pub enum Event {
    /// It is done.
    Done,
    /// What a statement gave.
    Answer(Result<Vec<Vec<String>>, Fail>),
    /// How opening the database failed, if it did.
    Opened(Option<String>),
    /// A flag.
    Flag(bool),
    /// A number.
    Number(u64),
    /// How many frames a checkpoint has moved, or how it failed.
    Truncated(Result<u64, String>),
}

/// The answer to a statement, as it is shown.
pub open spec fn answer_text(query: Query, r: Result<Vec<Vec<String>>, Fail>) -> Seq<char> {
    match r {
        Ok(rows) => if query is Count {
            "ok "@ + text::quoted_list(rows@[0]@)
        } else {
            "ok rows="@ + text::decimal(rows@.len() as int)
        },
        Err(e) => "ERR "@ + e@.wording(),
    }
}

/// Whether there is a row to show where one is shown.
pub open spec fn answerable(query: Query, r: Result<Vec<Vec<String>>, Fail>) -> bool {
    query is Count ==> (r matches Ok(rows) ==> rows@.len() > 0)
}

/// Shows the answer to the statement that counts the rows.
pub fn count(r: &Result<Vec<Vec<String>>, Fail>) -> (out: String)
    requires
        answerable(Query::Count, *r),
    ensures
        out@ == answer_text(Query::Count, *r),
{
    match r {
        Ok(rows) => {
            let mut out = "ok ".to_owned();
            push_quoted_list(&mut out, &rows[0]);
            out
        },
        Err(e) => e.worded("ERR "),
    }
}

/// Shows the answer to any other statement.
pub fn sql(query: &Query, r: &Result<Vec<Vec<String>>, Fail>) -> (out: String)
    requires
        !(query is Count),
    ensures
        out@ == answer_text(*query, *r),
{
    match r {
        Ok(rows) => {
            let mut out = "ok rows=".to_owned();
            push_unsigned(&mut out, rows.len() as u64);
            out
        },
        Err(e) => e.worded("ERR "),
    }
}

fn show_answer(query: &Query, r: &Result<Vec<Vec<String>>, Fail>) -> (out: String)
    requires
        answerable(*query, *r),
    ensures
        out@ == answer_text(*query, *r),
{
    match query {
        Query::Count => count(r),
        _ => sql(query, r),
    }
}

/// The beginning of every line of a scenario.
pub open spec fn head(name: Seq<char>) -> Seq<char> {
    "scenario["@ + name + "]: "@
}

fn begin_line(name: &str) -> (out: String)
    ensures
        out@ == head(name@),
{
    let mut out = "scenario[".to_owned();
    out.append(name);
    out.append("]: ");
    out
}

/// What is reported of a broken expectation of a scenario.
pub open spec fn broken(name: Seq<char>, detail: Seq<char>) -> SayingView {
    SayingView::Broken(ViolationView { label: "scenario-"@ + name, detail })
}

fn report_broken(log: &mut Log, name: &str, detail: String)
    ensures
        final(log)@ == old(log)@.push(broken(name@, detail@)),
{
    let label = join2("scenario-", name);
    log.broken(violation(label.as_str(), detail));
}

/// What a check says: what was got and what was expected, and where these do
/// not agree, that an expectation is broken.
pub open spec fn check_said(
    name: Seq<char>,
    what: Seq<char>,
    got: Seq<char>,
    want: Seq<char>,
) -> Seq<SayingView> {
    let line = head(name) + what + " -> "@ + got + "   (expect "@ + want + ")"@;
    if text::begins_with(got, want) {
        seq![SayingView::Line(line)]
    } else {
        seq![
            SayingView::Line(line + "  <-- MISMATCH"@),
            broken(name, what + ": got "@ + got + ", expected "@ + want),
        ]
    }
}

/// Holds an answer against what it is expected to begin with.
pub fn step(name: &str, what: &str, got: &str, want: &str) -> (log: Log)
    ensures
        log@ == check_said(name@, what@, got@, want@),
{
    let fine: bool = has_prefix(got, want);
    let mut line = begin_line(name);
    line.append(what);
    line.append(" -> ");
    line.append(got);
    line.append("   (expect ");
    line.append(want);
    line.append(")");
    let mut log = Log::new();
    if fine {
        log.line(line);
    } else {
        line.append("  <-- MISMATCH");
        log.line(line);
        let mut detail = what.to_owned();
        detail.append(": got ");
        detail.append(got);
        detail.append(", expected ");
        detail.append(want);
        report_broken(&mut log, name, detail);
    }
    proof {
        assert(log@ =~= check_said(name@, what@, got@, want@));
    }
    log
}

/// The directory under which everything is kept.
pub open spec fn root() -> Seq<char> {
    "/turso-dst"@
}

/// A place's directory.
pub open spec fn dir_of(place: Place) -> Seq<char> {
    match place {
        Place::Main => root(),
        Place::Placement { tag, kind, k } => root() + "/"@ + tag@ + "-"@ + kind.name()@ + "-"@
            + text::decimal(k as int),
        Place::Round { tag, k } => root() + "/"@ + tag@ + "-"@ + text::decimal(k as int),
    }
}

fn write_dir(place: &Place) -> (out: String)
    ensures
        out@ == dir_of(*place),
{
    let mut out = "/turso-dst".to_owned();
    match place {
        Place::Main => {},
        Place::Placement { tag, kind, k } => {
            out.append("/");
            out.append(tag);
            out.append("-");
            out.append(kind.label());
            out.append("-");
            push_unsigned(&mut out, *k as u64);
        },
        Place::Round { tag, k } => {
            out.append("/");
            out.append(tag);
            out.append("-");
            push_unsigned(&mut out, *k as u64);
        },
    }
    out
}

/// What a scenario remembers.
pub struct Notes {
    pub first: String,
    pub second: String,
    pub third: String,
    pub last: String,
    /// What came of the checkpoint.
    pub checkpoint: String,
    /// Whether the power was cut.
    pub cut: bool,
    /// Whether the connection was outside a transaction.
    pub auto_commit: bool,
    /// How opening the database failed, if it did.
    pub open_error: Option<String>,
}

/// What a scenario remembers, as a mathematical value.
#[verifier::ext_equal]
pub struct NotesView {
    pub first: Seq<char>,
    pub second: Seq<char>,
    pub third: Seq<char>,
    pub last: Seq<char>,
    pub checkpoint: Seq<char>,
    pub cut: bool,
    pub auto_commit: bool,
    pub open_error: Option<Seq<char>>,
}

impl View for Notes {
    type V = NotesView;

    open spec fn view(&self) -> NotesView {
        NotesView {
            first: self.first@,
            second: self.second@,
            third: self.third@,
            last: self.last@,
            checkpoint: self.checkpoint@,
            cut: self.cut,
            auto_commit: self.auto_commit,
            open_error: text::maybe_text(self.open_error),
        }
    }
}

impl NotesView {
    /// Nothing remembered yet.
    pub open spec fn blank() -> Self {
        NotesView {
            first: ""@,
            second: ""@,
            third: ""@,
            last: ""@,
            checkpoint: ""@,
            cut: false,
            auto_commit: false,
            open_error: None,
        }
    }

    /// With an answer kept.
    pub open spec fn kept(self, slot: Slot, answer: Seq<char>) -> Self {
        match slot {
            Slot::First => NotesView { first: answer, ..self },
            Slot::Second => NotesView { second: answer, ..self },
            Slot::Third => NotesView { third: answer, ..self },
            Slot::Last => NotesView { last: answer, ..self },
        }
    }
}

impl Notes {
    /// Nothing remembered yet.
    pub fn new() -> (notes: Notes)
        ensures
            notes@ == NotesView::blank(),
    {
        Notes {
            first: "".to_owned(),
            second: "".to_owned(),
            third: "".to_owned(),
            last: "".to_owned(),
            checkpoint: "".to_owned(),
            cut: false,
            auto_commit: false,
            open_error: None,
        }
    }

    fn keep(&mut self, slot: Slot, answer: String)
        ensures
            final(self)@ == old(self)@.kept(slot, answer@),
    {
        match slot {
            Slot::First => {
                self.first = answer;
            },
            Slot::Second => {
                self.second = answer;
            },
            Slot::Third => {
                self.third = answer;
            },
            Slot::Last => {
                self.last = answer;
            },
        }
    }
}

/// What is added to a line where rows were lost.
pub open spec fn loss_mark(kept: bool) -> Seq<char> {
    if kept {
        ""@
    } else {
        "   <-- DATA LOSS"@
    }
}

fn loss_word(kept: bool) -> (w: &'static str)
    ensures
        w@ == loss_mark(kept),
{
    if kept {
        ""
    } else {
        "   <-- DATA LOSS"
    }
}

/// A placement as it is named in a report.
pub open spec fn placement_text(kind: OpKind, k: u32) -> Seq<char> {
    kind.name()@ + "#"@ + text::decimal(k as int)
}

fn push_placement(out: &mut String, kind: OpKind, k: u32)
    ensures
        final(out)@ == old(out)@ + placement_text(kind, k),
{
    out.append(kind.label());
    out.append("#");
    push_unsigned(out, k as u64);
    proof {
        assert(out@ =~= old(out)@ + placement_text(kind, k));
    }
}

/// After a failed checkpoint, a commit and a power cut: the eight rows that
/// were committed before must be there; the ninth may be.
pub open spec fn failed_checkpoint_said(
    name: Seq<char>,
    n: NotesView,
    kind: OpKind,
    k: u32,
) -> Seq<SayingView> {
    let kept = text::begins_with(n.last, Want::Rows(8).text()) || text::begins_with(
        n.last,
        Want::Rows(9).text(),
    );
    let line = SayingView::Line(
        head(name) + placement_text(kind, k) + ": checkpoint -> "@ + n.checkpoint
            + "; INSERT 9 -> "@ + n.second + "; live "@ + n.third + "; power_cut="@
            + text::flag_text(n.cut) + "; after reopen "@ + n.last + loss_mark(kept),
    );
    if kept {
        seq![line]
    } else {
        seq![
            line,
            broken(
                name,
                placement_text(kind, k) + ": checkpoint "@ + n.checkpoint
                    + "; after crash+reopen "@ + n.last,
            ),
        ]
    }
}

fn starts_with_rows(answer: &str, n: u64) -> (yes: bool)
    ensures
        yes == text::begins_with(answer@, Want::Rows(n).text()),
{
    let want = Want::Rows(n).write();
    has_prefix(answer, want.as_str())
}

fn judge_failed_checkpoint(name: &str, n: &Notes, kind: OpKind, k: u32) -> (log: Log)
    ensures
        log@ == failed_checkpoint_said(name@, n@, kind, k),
{
    let kept: bool = starts_with_rows(n.last.as_str(), 8) || starts_with_rows(n.last.as_str(), 9);
    let mut line = begin_line(name);
    push_placement(&mut line, kind, k);
    line.append(": checkpoint -> ");
    line.append(n.checkpoint.as_str());
    line.append("; INSERT 9 -> ");
    line.append(n.second.as_str());
    line.append("; live ");
    line.append(n.third.as_str());
    line.append("; power_cut=");
    line.append(flag_word(n.cut));
    line.append("; after reopen ");
    line.append(n.last.as_str());
    line.append(loss_word(kept));
    let mut log = Log::new();
    log.line(line);
    if !kept {
        let mut detail = String::new();
        push_placement(&mut detail, kind, k);
        proof {
            assert(detail@ =~= placement_text(kind, k));
        }
        detail.append(": checkpoint ");
        detail.append(n.checkpoint.as_str());
        detail.append("; after crash+reopen ");
        detail.append(n.last.as_str());
        report_broken(&mut log, name, detail);
    }
    proof {
        assert(log@ =~= failed_checkpoint_said(name@, n@, kind, k));
    }
    log
}

/// After a power cut inside a checkpoint: all sixteen rows must be there.
pub open spec fn crashed_checkpoint_said(
    name: Seq<char>,
    n: NotesView,
    kind: OpKind,
    k: u32,
) -> Seq<SayingView> {
    let kept = text::begins_with(n.last, Want::Rows(16).text());
    let line = SayingView::Line(
        head(name) + "crash after "@ + placement_text(kind, k) + ": cut="@ + text::flag_text(n.cut)
            + " checkpoint -> "@ + n.checkpoint + "; after reopen "@ + n.last + loss_mark(kept),
    );
    if n.cut && !kept {
        seq![
            line,
            broken(
                name,
                "crash after "@ + placement_text(kind, k)
                    + " in TRUNCATE checkpoint: after reopen "@ + n.last,
            ),
        ]
    } else {
        seq![line]
    }
}

fn judge_crashed_checkpoint(name: &str, n: &Notes, kind: OpKind, k: u32) -> (log: Log)
    ensures
        log@ == crashed_checkpoint_said(name@, n@, kind, k),
{
    let kept: bool = starts_with_rows(n.last.as_str(), 16);
    let mut line = begin_line(name);
    line.append("crash after ");
    push_placement(&mut line, kind, k);
    line.append(": cut=");
    line.append(flag_word(n.cut));
    line.append(" checkpoint -> ");
    line.append(n.checkpoint.as_str());
    line.append("; after reopen ");
    line.append(n.last.as_str());
    line.append(loss_word(kept));
    let mut log = Log::new();
    log.line(line);
    if n.cut && !kept {
        let mut detail = "crash after ".to_owned();
        push_placement(&mut detail, kind, k);
        detail.append(" in TRUNCATE checkpoint: after reopen ");
        detail.append(n.last.as_str());
        report_broken(&mut log, name, detail);
    }
    proof {
        assert(log@ =~= crashed_checkpoint_said(name@, n@, kind, k));
    }
    log
}

/// After a short read at open, an insert and a clean reopen: nine rows must be
/// there, or eight where the insert had failed.
pub open spec fn short_read_said(name: Seq<char>, n: NotesView, k: u32) -> Seq<SayingView> {
    let kept = text::begins_with(n.last, Want::Rows(9).text()) || (text::begins_with(
        n.last,
        Want::Rows(8).text(),
    ) && !text::begins_with(n.second, Want::Fine.text()));
    let line = SayingView::Line(
        head(name) + "k="@ + text::decimal(k as int) + " count after clean reopen -> "@ + n.last
            + loss_mark(kept),
    );
    if kept {
        seq![line]
    } else {
        seq![
            line,
            broken(
                name,
                "short pread#"@ + text::decimal(k as int) + " at open: opened with "@ + n.third
                    + "; after insert+reopen "@ + n.last,
            ),
        ]
    }
}

fn judge_short_read(name: &str, n: &Notes, k: u32) -> (log: Log)
    ensures
        log@ == short_read_said(name@, n@, k),
{
    let kept: bool = starts_with_rows(n.last.as_str(), 9) || (starts_with_rows(
        n.last.as_str(),
        8,
    ) && !has_prefix(n.second.as_str(), "ok"));
    let mut line = begin_line(name);
    line.append("k=");
    push_unsigned(&mut line, k as u64);
    line.append(" count after clean reopen -> ");
    line.append(n.last.as_str());
    line.append(loss_word(kept));
    let mut log = Log::new();
    log.line(line);
    if !kept {
        let mut detail = "short pread#".to_owned();
        push_unsigned(&mut detail, k as u64);
        detail.append(" at open: opened with ");
        detail.append(n.third.as_str());
        detail.append("; after insert+reopen ");
        detail.append(n.last.as_str());
        report_broken(&mut log, name, detail);
    }
    proof {
        assert(log@ =~= short_read_said(name@, n@, k));
    }
    log
}

/// A scenario that is being run.
pub struct Scenario {
    pub name: String,
    pub script: Vec<Op>,
    /// The operation that is being performed.
    pub pc: usize,
    pub place: Place,
    pub notes: Notes,
}

/// A scenario that is being run, as a mathematical value.
#[verifier::ext_equal]
pub struct ScenarioView {
    pub name: Seq<char>,
    pub script: Seq<Op>,
    pub pc: int,
    pub place: Place,
    pub notes: NotesView,
}

impl View for Scenario {
    type V = ScenarioView;

    open spec fn view(&self) -> ScenarioView {
        ScenarioView {
            name: self.name@,
            script: self.script@,
            pc: self.pc as int,
            place: self.place,
            notes: self.notes@,
        }
    }
}

/// What an operation has led to, as a mathematical value.
#[verifier::ext_equal]
pub struct Settled {
    pub run: ScenarioView,
    pub said: Seq<SayingView>,
}

impl ScenarioView {
    /// Whether every operation has been performed.
    pub open spec fn over(self) -> bool {
        self.pc >= self.script.len()
    }

    /// Whether the first answer is a success.
    pub open spec fn fine(self) -> bool {
        text::begins_with(self.notes.first, Want::Fine.text())
    }

    /// What is to be done for an operation.
    pub open spec fn action_of(self, op: Op) -> ActionView {
        match op {
            Op::Enter(place) => ActionView::MakeDir(dir_of(place)),
            Op::SyncDir => ActionView::SyncDir(dir_of(self.place)),
            Op::Open => ActionView::Open {
                dir: dir_of(self.place),
                configured: self.place is Main,
            },
            Op::TryOpen { synced } => ActionView::TryOpen {
                dir: dir_of(self.place),
                configured: self.place is Main,
                synced,
            },
            Op::Drop(crashed) => ActionView::Drop(crashed),
            Op::DropAsCut => ActionView::Drop(self.notes.cut),
            Op::Must(query) => ActionView::Must(query.sql()),
            Op::Check { query, .. } => ActionView::Ask(query.sql()),
            Op::Show { query, .. } => ActionView::Ask(query.sql()),
            Op::Keep { query, .. } => ActionView::Ask(query.sql()),
            Op::ShowFailed { query, .. } => ActionView::Ask(query.sql()),
            Op::ShowFigure { figure, .. } => match figure {
                Figure::AutoCommit => ActionView::AutoCommit,
                Figure::Injected => ActionView::Injected,
                Figure::Pending => ActionView::Pending,
            },
            Op::KeepAutoCommit => ActionView::AutoCommit,
            Op::KeepCut => ActionView::ArmedCuts,
            Op::ArmFail { kind, k } => ActionView::ArmFail(kind, k),
            Op::ArmCrash { kind, k } => ActionView::ArmCrash(kind, k),
            Op::ArmShort { k, bytes } => ActionView::ArmShort(k, bytes),
            Op::Disarm => ActionView::Disarm,
            Op::Defer(permille) => ActionView::Defer(permille),
            Op::Drain => ActionView::Drain,
            Op::MustTruncate => ActionView::MustTruncate,
            Op::Truncate => ActionView::Truncate,
            Op::PowerCut => ActionView::PowerCut,
            Op::EndIfFine { query, .. } => if self.fine() {
                ActionView::Ask(query.sql())
            } else {
                ActionView::Pass
            },
            Op::CheckRolledBack { .. } => ActionView::Ask(Query::Count.sql()),
            _ => ActionView::Pass,
        }
    }

    /// What is to be done next.
    pub open spec fn action(self) -> ActionView {
        if self.over() {
            ActionView::Finish
        } else {
            self.action_of(self.script[self.pc])
        }
    }

    /// Whether an event is of the kind that an operation leads to.
    pub open spec fn awaits(self, ev: Event) -> bool {
        &&& !self.over()
        &&& match self.script[self.pc] {
            Op::Check { query, .. } => ev is Answer && answerable(query, ev->Answer_0),
            Op::Show { query, .. } => ev is Answer && answerable(query, ev->Answer_0),
            Op::Keep { query, .. } => ev is Answer && answerable(query, ev->Answer_0),
            Op::ShowFailed { query, .. } => ev is Answer && answerable(query, ev->Answer_0),
            Op::EndIfFine { query, .. } => self.fine() ==> ev is Answer && answerable(
                query,
                ev->Answer_0,
            ),
            Op::CheckRolledBack { .. } => ev is Answer && answerable(Query::Count, ev->Answer_0),
            Op::ShowFigure { figure, .. } => if figure == Figure::AutoCommit {
                ev is Flag
            } else {
                ev is Number
            },
            Op::KeepAutoCommit => ev is Flag,
            Op::KeepCut => ev is Number,
            Op::PowerCut => ev is Flag,
            Op::Truncate => ev is Truncated,
            Op::TryOpen { .. } => ev is Opened,
            _ => true,
        }
    }

    /// The next operation but `n`.
    pub open spec fn skip(self, n: int) -> Self {
        let to = self.pc + 1 + n;
        ScenarioView {
            pc: if to <= self.script.len() {
                to
            } else {
                self.script.len() as int
            },
            ..self
        }
    }

    /// The next operation, and what has been said.
    pub open spec fn says(self, said: Seq<SayingView>) -> Settled {
        Settled { run: self.skip(0), said }
    }

    /// The next operation, with something else remembered.
    pub open spec fn notes_down(self, notes: NotesView, said: Seq<SayingView>) -> Settled {
        (ScenarioView { notes, ..self }).says(said)
    }

    /// A line of the scenario.
    pub open spec fn line(self, rest: Seq<char>) -> Seq<SayingView> {
        seq![SayingView::Line(head(self.name) + rest)]
    }

    /// What a figure is shown as.
    pub open spec fn figure_text(figure: Figure, ev: Event) -> Seq<char> {
        match figure {
            Figure::AutoCommit => text::flag_text(ev->Flag_0),
            _ => text::decimal(ev->Number_0 as int),
        }
    }

    /// What came of a checkpoint, as it is shown.
    pub open spec fn truncated_text(r: Result<u64, String>) -> Seq<char> {
        match r {
            Ok(n) => "ok backfilled="@ + text::decimal(n as int),
            Err(e) => "ERR "@ + e@,
        }
    }

    /// How opening the database failed, as it is shown.
    pub open spec fn error_text(self) -> Seq<char> {
        match self.notes.open_error {
            Some(e) => e,
            None => Seq::empty(),
        }
    }

    /// The turn on what came of an operation.
    #[verifier::opaque]
    pub open spec fn settle(self, ev: Event) -> Settled {
        let n = self.notes;
        let nothing = Seq::<SayingView>::empty();
        match self.script[self.pc] {
            Op::Enter(place) => (ScenarioView { place, ..self }).says(nothing),
            Op::TryOpen { .. } => self.notes_down(
                NotesView { open_error: text::maybe_text(ev->Opened_0), ..n },
                nothing,
            ),
            Op::Check { caption, query, want } => self.says(
                check_said(
                    self.name,
                    caption.text(),
                    answer_text(query, ev->Answer_0),
                    want.text(),
                ),
            ),
            Op::Show { caption, query, slot } => {
                let got = answer_text(query, ev->Answer_0);
                self.notes_down(n.kept(slot, got), self.line(caption.text() + got))
            },
            Op::Keep { query, slot } => self.notes_down(
                n.kept(slot, answer_text(query, ev->Answer_0)),
                nothing,
            ),
            Op::ShowFailed { caption, query } => {
                let got = answer_text(query, ev->Answer_0);
                self.says(
                    if text::begins_with(got, Want::Fine.text()) {
                        nothing
                    } else {
                        self.line(caption.text() + got)
                    },
                )
            },
            Op::ShowFigure { caption, figure } => self.says(
                self.line(caption.text() + ScenarioView::figure_text(figure, ev)),
            ),
            Op::KeepAutoCommit => self.notes_down(
                NotesView { auto_commit: ev->Flag_0, ..n },
                nothing,
            ),
            Op::KeepCut => self.notes_down(NotesView { cut: ev->Number_0 == 0, ..n }, nothing),
            Op::PowerCut => self.notes_down(NotesView { cut: ev->Flag_0, ..n }, nothing),
            Op::Truncate => self.notes_down(
                NotesView { checkpoint: ScenarioView::truncated_text(ev->Truncated_0), ..n },
                nothing,
            ),
            Op::EndIfFine { caption, query, want } => if self.fine() {
                Settled {
                    run: ScenarioView { pc: self.script.len() as int, ..self },
                    said: check_said(
                        self.name,
                        caption.text(),
                        answer_text(query, ev->Answer_0),
                        want.text(),
                    ),
                }
            } else {
                self.says(nothing)
            },
            Op::SkipIfOpened(m) => Settled {
                run: if n.open_error is None {
                    self.skip(m as int)
                } else {
                    self.skip(0)
                },
                said: nothing,
            },
            Op::Skip(m) => Settled { run: self.skip(m as int), said: nothing },
            Op::ShowRecoveryError { k } => self.says(
                self.line(
                    "reopen with pread#"@ + text::decimal(k as int)
                        + " failing -> open ERR Some("@ + self.error_text() + ")"@,
                ),
            ),
            Op::ShowShortError { k } => self.says(
                self.line(
                    "short pread#"@ + text::decimal(k as int) + " at open -> open ERR "@
                        + self.error_text(),
                ),
            ),
            Op::ShowUpdate { k } => self.says(
                self.line(
                    "k="@ + text::decimal(k as int) + " UPDATE -> "@ + n.first + "; INSERT -> "@
                        + n.second,
                ),
            ),
            Op::ShowRollback { k } => self.says(
                self.line(
                    "k="@ + text::decimal(k as int) + " UPDATE_err="@ + text::flag_text(
                        text::begins_with(n.first, "ERR"@),
                    ) + " autocommit_after_update="@ + text::flag_text(n.auto_commit)
                        + " ROLLBACK -> "@ + n.third,
                ),
            ),
            Op::CheckRolledBack { k } => self.says(
                check_said(
                    self.name,
                    "k="@ + text::decimal(k as int) + " count after ROLLBACK"@,
                    answer_text(Query::Count, ev->Answer_0),
                    if text::begins_with(n.first, "ERR"@) {
                        Want::Rows(5).text()
                    } else {
                        Want::Rows(4).text()
                    },
                ),
            ),
            Op::JudgeFailedCheckpoint { kind, k } => self.says(
                failed_checkpoint_said(self.name, n, kind, k),
            ),
            Op::JudgeCrashedCheckpoint { kind, k } => self.says(
                crashed_checkpoint_said(self.name, n, kind, k),
            ),
            Op::JudgeShortRead { k } => self.says(short_read_said(self.name, n, k)),
            _ => self.says(nothing),
        }
    }
}

impl Scenario {
    /// The scenario of a name, if there is one; `only` narrows a sweep to one
    /// placement.
    pub fn start(name: &str, only: &Option<String>) -> (out: Option<Scenario>)
        ensures
            match script::script_of(name@, text::maybe_text(*only)) {
                Some(ops) => out is Some && out->0@ == (ScenarioView {
                    name: name@,
                    script: ops,
                    pc: 0,
                    place: Place::Main,
                    notes: NotesView::blank(),
                }),
                None => out is None,
            },
    {
        match script::script(name, only) {
            Some(ops) => Some(
                Scenario {
                    name: name.to_owned(),
                    script: ops,
                    pc: 0,
                    place: Place::Main,
                    notes: Notes::new(),
                },
            ),
            None => None,
        }
    }

    /// Tells what is to be done next.
    pub fn action(&self) -> (action: Action)
        ensures
            action@ == self@.action(),
    {
        if self.pc >= self.script.len() {
            return Action::Finish;
        }
        let configured: bool = match self.place {
            Place::Main => true,
            _ => false,
        };
        match self.script[self.pc] {
            Op::Enter(place) => Action::MakeDir(write_dir(&place)),
            Op::SyncDir => Action::SyncDir(write_dir(&self.place)),
            Op::Open => Action::Open { dir: write_dir(&self.place), configured },
            Op::TryOpen { synced } => Action::TryOpen {
                dir: write_dir(&self.place),
                configured,
                synced,
            },
            Op::Drop(crashed) => Action::Drop(crashed),
            Op::DropAsCut => Action::Drop(self.notes.cut),
            Op::Must(query) => Action::Must(query.write()),
            Op::Check { query, .. } => Action::Ask(query.write()),
            Op::Show { query, .. } => Action::Ask(query.write()),
            Op::Keep { query, .. } => Action::Ask(query.write()),
            Op::ShowFailed { query, .. } => Action::Ask(query.write()),
            Op::ShowFigure { figure, .. } => match figure {
                Figure::AutoCommit => Action::AutoCommit,
                Figure::Injected => Action::Injected,
                Figure::Pending => Action::Pending,
            },
            Op::KeepAutoCommit => Action::AutoCommit,
            Op::KeepCut => Action::ArmedCuts,
            Op::ArmFail { kind, k } => Action::ArmFail(kind, k),
            Op::ArmCrash { kind, k } => Action::ArmCrash(kind, k),
            Op::ArmShort { k, bytes } => Action::ArmShort(k, bytes),
            Op::Disarm => Action::Disarm,
            Op::Defer(permille) => Action::Defer(permille),
            Op::Drain => Action::Drain,
            Op::MustTruncate => Action::MustTruncate,
            Op::Truncate => Action::Truncate,
            Op::PowerCut => Action::PowerCut,
            Op::EndIfFine { query, .. } => {
                if has_prefix(self.notes.first.as_str(), "ok") {
                    Action::Ask(query.write())
                } else {
                    Action::Pass
                }
            },
            Op::CheckRolledBack { .. } => Action::Ask(Query::Count.write()),
            _ => Action::Pass,
        }
    }

    /// Tells whether an event is of the kind that the operation leads to, with
    /// a row where one is shown.
    pub fn can_settle(&self, ev: &Event) -> (yes: bool)
        ensures
            yes == self@.awaits(*ev),
    {
        if self.pc >= self.script.len() {
            return false;
        }
        match self.script[self.pc] {
            Op::Check { query, .. } => can_answer(&query, ev),
            Op::Show { query, .. } => can_answer(&query, ev),
            Op::Keep { query, .. } => can_answer(&query, ev),
            Op::ShowFailed { query, .. } => can_answer(&query, ev),
            Op::EndIfFine { query, .. } => {
                !has_prefix(self.notes.first.as_str(), "ok") || can_answer(&query, ev)
            },
            Op::CheckRolledBack { .. } => can_answer(&Query::Count, ev),
            Op::ShowFigure { figure, .. } => match ev {
                Event::Flag(_) => figure == Figure::AutoCommit,
                Event::Number(_) => figure != Figure::AutoCommit,
                _ => false,
            },
            Op::KeepAutoCommit => match ev {
                Event::Flag(_) => true,
                _ => false,
            },
            Op::PowerCut => match ev {
                Event::Flag(_) => true,
                _ => false,
            },
            Op::KeepCut => match ev {
                Event::Number(_) => true,
                _ => false,
            },
            Op::Truncate => match ev {
                Event::Truncated(_) => true,
                _ => false,
            },
            Op::TryOpen { .. } => match ev {
                Event::Opened(_) => true,
                _ => false,
            },
            _ => true,
        }
    }
}

impl Scenario {
    fn skip(self, n: usize) -> (run: Scenario)
        requires
            self.pc < self.script.len(),
        ensures
            run@ == self@.skip(n as int),
    {
        let left: usize = self.script.len() - self.pc - 1;
        let pc: usize = if n <= left {
            self.pc + 1 + n
        } else {
            self.script.len()
        };
        Scenario { pc, ..self }
    }

    fn line(&self, rest: &str) -> (log: Log)
        ensures
            log@ == self@.line(rest@),
    {
        let mut line = begin_line(self.name.as_str());
        line.append(rest);
        let mut log = Log::new();
        log.line(line);
        proof {
            assert(log@ =~= self@.line(rest@));
        }
        log
    }

    fn check(&self, what: &str, query: &Query, r: &Result<Vec<Vec<String>>, Fail>, want: &Want) -> (log:
        Log)
        requires
            answerable(*query, *r),
        ensures
            log@ == check_said(self.name@, what@, answer_text(*query, *r), want.text()),
    {
        let got = show_answer(query, r);
        let expected = want.write();
        step(self.name.as_str(), what, got.as_str(), expected.as_str())
    }

    fn settle_answer(self, op: Op, r: Result<Vec<Vec<String>>, Fail>) -> (out: (Scenario, Log))
        requires
            self.pc < self.script.len(),
            op == self@.script[self@.pc],
            op is Check || op is Show || op is Keep || op is ShowFailed || op is CheckRolledBack,
            self@.awaits(Event::Answer(r)),
        ensures
            out.0@ == self@.settle(Event::Answer(r)).run,
            out.1@ == self@.settle(Event::Answer(r)).said,
    {
        proof {
            reveal(ScenarioView::settle);
        }
        match op {
            Op::Check { caption, query, want } => {
                let what = caption.write();
                let log = self.check(what.as_str(), &query, &r, &want);
                (self.skip(0), log)
            },
            Op::Show { caption, query, slot } => {
                let got = show_answer(&query, &r);
                let mut rest = caption.write();
                rest.append(got.as_str());
                let log = self.line(rest.as_str());
                let mut run = self;
                run.notes.keep(slot, got);
                (run.skip(0), log)
            },
            Op::Keep { query, slot } => {
                let got = show_answer(&query, &r);
                let mut run = self;
                run.notes.keep(slot, got);
                (run.skip(0), Log::new())
            },
            Op::ShowFailed { caption, query } => {
                let got = show_answer(&query, &r);
                let log = if has_prefix(got.as_str(), "ok") {
                    Log::new()
                } else {
                    let mut rest = caption.write();
                    rest.append(got.as_str());
                    self.line(rest.as_str())
                };
                (self.skip(0), log)
            },
            Op::CheckRolledBack { k } => {
                let mut what = "k=".to_owned();
                push_unsigned(&mut what, k as u64);
                what.append(" count after ROLLBACK");
                let want = if has_prefix(self.notes.first.as_str(), "ERR") {
                    Want::Rows(5)
                } else {
                    Want::Rows(4)
                };
                let log = self.check(what.as_str(), &Query::Count, &r, &want);
                (self.skip(0), log)
            },
            _ => (self.skip(0), Log::new()),
        }
    }

    fn settle_words(self, op: Op, Ghost(ev): Ghost<Event>) -> (out: (Scenario, Log))
        requires
            self.pc < self.script.len(),
            op == self@.script[self@.pc],
            op is ShowRecoveryError || op is ShowShortError || op is ShowUpdate
                || op is ShowRollback || op is JudgeFailedCheckpoint
                || op is JudgeCrashedCheckpoint || op is JudgeShortRead,
        ensures
            out.0@ == self@.settle(ev).run,
            out.1@ == self@.settle(ev).said,
    {
        proof {
            reveal(ScenarioView::settle);
        }
        let log = match op {
            Op::ShowRecoveryError { k } => {
                let mut rest = "reopen with pread#".to_owned();
                push_unsigned(&mut rest, k as u64);
                rest.append(" failing -> open ERR Some(");
                match &self.notes.open_error {
                    Some(e) => rest.append(e.as_str()),
                    None => {},
                }
                rest.append(")");
                proof {
                    assert(rest@ =~= "reopen with pread#"@ + text::decimal(k as int)
                        + " failing -> open ERR Some("@ + self@.error_text() + ")"@);
                }
                self.line(rest.as_str())
            },
            Op::ShowShortError { k } => {
                let mut rest = "short pread#".to_owned();
                push_unsigned(&mut rest, k as u64);
                rest.append(" at open -> open ERR ");
                match &self.notes.open_error {
                    Some(e) => rest.append(e.as_str()),
                    None => {},
                }
                proof {
                    assert(rest@ =~= "short pread#"@ + text::decimal(k as int)
                        + " at open -> open ERR "@ + self@.error_text());
                }
                self.line(rest.as_str())
            },
            Op::ShowUpdate { k } => {
                let mut rest = "k=".to_owned();
                push_unsigned(&mut rest, k as u64);
                rest.append(" UPDATE -> ");
                rest.append(self.notes.first.as_str());
                rest.append("; INSERT -> ");
                rest.append(self.notes.second.as_str());
                self.line(rest.as_str())
            },
            Op::ShowRollback { k } => {
                let mut rest = "k=".to_owned();
                push_unsigned(&mut rest, k as u64);
                rest.append(" UPDATE_err=");
                rest.append(flag_word(has_prefix(self.notes.first.as_str(), "ERR")));
                rest.append(" autocommit_after_update=");
                rest.append(flag_word(self.notes.auto_commit));
                rest.append(" ROLLBACK -> ");
                rest.append(self.notes.third.as_str());
                self.line(rest.as_str())
            },
            Op::JudgeFailedCheckpoint { kind, k } => {
                judge_failed_checkpoint(self.name.as_str(), &self.notes, kind, k)
            },
            Op::JudgeCrashedCheckpoint { kind, k } => {
                judge_crashed_checkpoint(self.name.as_str(), &self.notes, kind, k)
            },
            Op::JudgeShortRead { k } => judge_short_read(self.name.as_str(), &self.notes, k),
            _ => Log::new(),
        };
        (self.skip(0), log)
    }

    fn settle_end(self, op: Op, ev: Event) -> (out: (Scenario, Log))
        requires
            self.pc < self.script.len(),
            op == self@.script[self@.pc],
            op is EndIfFine,
            self@.awaits(ev),
        ensures
            out.0@ == self@.settle(ev).run,
            out.1@ == self@.settle(ev).said,
    {
        proof {
            reveal(ScenarioView::settle);
        }
        if !has_prefix(self.notes.first.as_str(), "ok") {
            return (self.skip(0), Log::new());
        }
        match (op, ev) {
            (Op::EndIfFine { caption, query, want }, Event::Answer(r)) => {
                let what = caption.write();
                let log = self.check(what.as_str(), &query, &r, &want);
                let pc: usize = self.script.len();
                (Scenario { pc, ..self }, log)
            },
            _ => (self.skip(0), Log::new()),
        }
    }

    fn settle_figure(self, caption: Caption, figure: Figure, ev: Event) -> (out: (Scenario, Log))
        requires
            self.pc < self.script.len(),
            self@.script[self@.pc] == (Op::ShowFigure { caption, figure }),
            self@.awaits(ev),
        ensures
            out.0@ == self@.settle(ev).run,
            out.1@ == self@.settle(ev).said,
    {
        proof {
            reveal(ScenarioView::settle);
        }
        let mut rest = caption.write();
        match ev {
            Event::Flag(b) => rest.append(flag_word(b)),
            Event::Number(n) => push_unsigned(&mut rest, n),
            _ => {},
        }
        let log = self.line(rest.as_str());
        (self.skip(0), log)
    }

    fn settle_notes(self, op: Op, ev: Event) -> (out: (Scenario, Log))
        requires
            self.pc < self.script.len(),
            op == self@.script[self@.pc],
            op is TryOpen || op is KeepAutoCommit || op is KeepCut || op is PowerCut
                || op is Truncate,
            self@.awaits(ev),
        ensures
            out.0@ == self@.settle(ev).run,
            out.1@ == self@.settle(ev).said,
    {
        proof {
            reveal(ScenarioView::settle);
        }
        let mut run = self;
        match (op, ev) {
            (Op::TryOpen { .. }, Event::Opened(e)) => {
                run.notes.open_error = e;
            },
            (Op::KeepAutoCommit, Event::Flag(b)) => {
                run.notes.auto_commit = b;
            },
            (Op::KeepCut, Event::Number(n)) => {
                run.notes.cut = n == 0;
            },
            (Op::PowerCut, Event::Flag(b)) => {
                run.notes.cut = b;
            },
            (_, Event::Truncated(Ok(n))) => {
                let mut shown = "ok backfilled=".to_owned();
                push_unsigned(&mut shown, n);
                run.notes.checkpoint = shown;
            },
            (_, Event::Truncated(Err(e))) => {
                run.notes.checkpoint = join2("ERR ", e.as_str());
            },
            _ => {},
        }
        (run.skip(0), Log::new())
    }

    /// Takes note of what came of the operation, and goes on to the next one.
    pub fn settle(self, ev: Event) -> (out: (Scenario, Log))
        requires
            self@.awaits(ev),
        ensures
            out.0@ == self@.settle(ev).run,
            out.1@ == self@.settle(ev).said,
    {
        let op: Op = self.script[self.pc];
        match op {
            Op::Check { .. } | Op::Show { .. } | Op::Keep { .. } | Op::ShowFailed { .. }
            | Op::CheckRolledBack { .. } => match ev {
                Event::Answer(r) => self.settle_answer(op, r),
                _ => (self.skip(0), Log::new()),
            },
            Op::EndIfFine { .. } => self.settle_end(op, ev),
            Op::ShowFigure { caption, figure } => self.settle_figure(caption, figure, ev),
            Op::TryOpen { .. } | Op::KeepAutoCommit | Op::KeepCut | Op::PowerCut
            | Op::Truncate => self.settle_notes(op, ev),
            Op::ShowRecoveryError { .. } | Op::ShowShortError { .. } | Op::ShowUpdate { .. }
            | Op::ShowRollback { .. } | Op::JudgeFailedCheckpoint { .. }
            | Op::JudgeCrashedCheckpoint { .. } | Op::JudgeShortRead { .. } => {
                self.settle_words(op, Ghost(ev))
            },
            _ => self.settle_plain(op, Ghost(ev)),
        }
    }

    fn settle_plain(self, op: Op, Ghost(ev): Ghost<Event>) -> (out: (Scenario, Log))
        requires
            self.pc < self.script.len(),
            op == self@.script[self@.pc],
            !(op is Check || op is Show || op is Keep || op is ShowFailed || op is CheckRolledBack),
            !(op is EndIfFine || op is ShowFigure),
            !(op is TryOpen || op is KeepAutoCommit || op is KeepCut || op is PowerCut
                || op is Truncate),
            !(op is ShowRecoveryError || op is ShowShortError || op is ShowUpdate
                || op is ShowRollback || op is JudgeFailedCheckpoint
                || op is JudgeCrashedCheckpoint || op is JudgeShortRead),
        ensures
            out.0@ == self@.settle(ev).run,
            out.1@ == self@.settle(ev).said,
    {
        proof {
            reveal(ScenarioView::settle);
        }
        match op {
            Op::Enter(place) => {
                let run = Scenario { place, ..self };
                (run.skip(0), Log::new())
            },
            Op::SkipIfOpened(n) => {
                let opened: bool = match &self.notes.open_error {
                    Some(_) => false,
                    None => true,
                };
                if opened {
                    (self.skip(n), Log::new())
                } else {
                    (self.skip(0), Log::new())
                }
            },
            Op::Skip(n) => (self.skip(n), Log::new()),
            _ => (self.skip(0), Log::new()),
        }
    }
}

fn can_answer(query: &Query, ev: &Event) -> (yes: bool)
    ensures
        yes == (ev is Answer && answerable(*query, ev->Answer_0)),
{
    match (query, ev) {
        (Query::Count, Event::Answer(Ok(rows))) => rows.len() > 0,
        (_, Event::Answer(_)) => true,
        _ => false,
    }
}

/// Every operation leads to a later one, and none beyond the end: a scenario
/// ends.
pub proof fn law_every_operation_leads_on(run: ScenarioView, ev: Event)
    requires
        run.awaits(ev),
    ensures
        run.pc < run.settle(ev).run.pc <= run.script.len(),
        run.settle(ev).run.script == run.script,
        run.settle(ev).run.name == run.name,
{
    reveal(ScenarioView::settle);
}

/// A check reports a broken expectation exactly where the answer does not begin
/// as expected.
pub proof fn law_check_reports_exactly_the_unexpected(
    name: Seq<char>,
    what: Seq<char>,
    got: Seq<char>,
    want: Seq<char>,
)
    ensures
        check_said(name, what, got, want).len() == 1 <==> text::begins_with(got, want),
        !text::begins_with(got, want) ==> check_said(name, what, got, want)[1] is Broken,
{
}

/// A sweep reports a placement exactly where rows were lost (in the second
/// sweep: to a power cut that was made).
pub proof fn law_lost_rows_are_reported(name: Seq<char>, n: NotesView, kind: OpKind, k: u32)
    ensures
        failed_checkpoint_said(name, n, kind, k).len() == 2 <==> !text::begins_with(
            n.last,
            Want::Rows(8).text(),
        ) && !text::begins_with(n.last, Want::Rows(9).text()),
        crashed_checkpoint_said(name, n, kind, k).len() == 2 <==> n.cut && !text::begins_with(
            n.last,
            Want::Rows(16).text(),
        ),
{
}

} // verus!
