//! Holding a reopened database against the oracle.
//!
//! The check is a state machine: each turn says what is to be done next, and
//! the caller hands back what came of it.

use crate::diff;
use crate::diff::{describe_diff, files_line, push_lengths};
use crate::exec;
use crate::exec::{Cells, Fail, FailView};
use crate::model;
use crate::model::{History, HistoryView, Snap, SnapView, SyncMode};
use crate::report;
use crate::report::{listed, no_violation, one_violation, Violation, ViolationView};
use crate::rows;
use crate::rows::check_integrity;
use crate::table;
use crate::table::{digest_model, row_count, Model, Table};
use crate::text;
use crate::text::{flag_word, has_text, join_text, push_hex, push_unsigned};
use vstd::prelude::*;
use vstd::string::*;

verus! {

/// How often the table is read before the read counts as failed.
pub const READ_ATTEMPTS: u64 = 30;

/// How often the integrity check is run before it counts as failed.
pub const CHECK_ATTEMPTS: u64 = 20;

/// How long to wait before another attempt, in milliseconds.
pub const RETRY_MS: u64 = 20;

/// What the check is waiting for.
pub enum ReopenPhase {
    /// To begin.
    Start,
    /// The table; so many attempts are left, this one included.
    Reading { left: u64 },
    /// The end of a pause; so many attempts to read are left.
    ReadPause { left: u64 },
    /// The lengths of the files, after the table could not be read.
    Unreadable,
    /// The lengths of the files, after an unacceptable state was shown.
    Differing { observed: Model },
    /// The integrity check; so many attempts are left, this one included.
    Checking { observed: Model, left: u64 },
    /// The end of a pause; so many integrity checks are left.
    CheckPause { observed: Model, left: u64 },
    /// Nothing more.
    Over,
}

/// What the check is waiting for, as a mathematical value.
pub enum ReopenPhaseView {
    Start,
    Reading { left: u64 },
    ReadPause { left: u64 },
    Unreadable,
    Differing { observed: Table },
    Checking { observed: Table, left: u64 },
    CheckPause { observed: Table, left: u64 },
    Over,
}

impl View for ReopenPhase {
    type V = ReopenPhaseView;

    open spec fn view(&self) -> ReopenPhaseView {
        match self {
            ReopenPhase::Start => ReopenPhaseView::Start,
            ReopenPhase::Reading { left } => ReopenPhaseView::Reading { left: *left },
            ReopenPhase::ReadPause { left } => ReopenPhaseView::ReadPause { left: *left },
            ReopenPhase::Unreadable => ReopenPhaseView::Unreadable,
            ReopenPhase::Differing { observed } => ReopenPhaseView::Differing {
                observed: table::table(*observed),
            },
            ReopenPhase::Checking { observed, left } => ReopenPhaseView::Checking {
                observed: table::table(*observed),
                left: *left,
            },
            ReopenPhase::CheckPause { observed, left } => ReopenPhaseView::CheckPause {
                observed: table::table(*observed),
                left: *left,
            },
            ReopenPhase::Over => ReopenPhaseView::Over,
        }
    }
}

/// What came of an action.
pub enum ReopenEvent {
    /// The check is to begin.
    Start,
    /// The table that the writing connection shows.
    Read(Result<Model, Fail>),
    /// What the integrity check gave.
    Checked(Result<Vec<Vec<String>>, Fail>),
    /// The pause is over.
    Waited,
    /// The lengths of the database and of its log, where they exist.
    Lengths(Option<u64>, Option<u64>),
}

/// What came of an action, as a mathematical value.
pub enum ReopenEventView {
    Start,
    Read(Result<Table, FailView>),
    Checked(Result<Cells, FailView>),
    Waited,
    Lengths(Option<u64>, Option<u64>),
}

/// What reading the table gave, as a mathematical value.
pub open spec fn read_view(r: Result<Model, Fail>) -> Result<Table, FailView> {
    match r {
        Ok(m) => Ok(table::table(m)),
        Err(e) => Err(e@),
    }
}

impl View for ReopenEvent {
    type V = ReopenEventView;

    open spec fn view(&self) -> ReopenEventView {
        match self {
            ReopenEvent::Start => ReopenEventView::Start,
            ReopenEvent::Read(r) => ReopenEventView::Read(read_view(*r)),
            ReopenEvent::Checked(r) => ReopenEventView::Checked(exec::result_view(*r)),
            ReopenEvent::Waited => ReopenEventView::Waited,
            ReopenEvent::Lengths(db, wal) => ReopenEventView::Lengths(*db, *wal),
        }
    }
}

/// What is to be done next.
#[derive(Clone, Copy)]
pub enum ReopenAction {
    /// Read the table on the writing connection.
    ReadModel,
    /// Run the integrity check on the writing connection.
    CheckIntegrity,
    /// Wait so many milliseconds.
    Wait(u64),
    /// Look up the lengths of the files.
    FileLengths,
    /// The check is over; the flag tells whether the table could be read.
    Finish(bool),
}

/// One turn of the check.
pub struct ReopenTurn {
    pub action: ReopenAction,
    pub violations: Vec<Violation>,
    /// Lines for the log.
    pub lines: Vec<String>,
    /// Where the state is acceptable: whether a crash has lost commits.
    pub lost_commits: Option<bool>,
}

/// The check of a reopened database.
pub struct ReopenRun {
    pub phase: ReopenPhase,
    /// Whether the power was cut before the reopen.
    pub crashed: bool,
    /// Whether the directory entries were made durable.
    pub dirsynced: bool,
    /// How the last failure was worded.
    pub last_err: String,
}

/// The check of a reopened database, as a mathematical value.
#[verifier::ext_equal]
pub struct ReopenView {
    pub phase: ReopenPhaseView,
    pub crashed: bool,
    pub dirsynced: bool,
    pub last_err: Seq<char>,
}

impl View for ReopenRun {
    type V = ReopenView;

    open spec fn view(&self) -> ReopenView {
        ReopenView {
            phase: self.phase@,
            crashed: self.crashed,
            dirsynced: self.dirsynced,
            last_err: self.last_err@,
        }
    }
}

/// One turn of the check, as a mathematical value.
#[verifier::ext_equal]
pub struct ReopenStep {
    pub run: ReopenView,
    pub hist: HistoryView,
    pub action: ReopenAction,
    pub violations: Seq<ViolationView>,
    pub lines: Seq<Seq<char>>,
    pub lost_commits: Option<bool>,
    /// Whether every value that is shown can be cut where it is shown.
    pub fits: bool,
}

/// What a turn is, apart from whether its values can be shown.
pub open spec fn is_turn(
    step: ReopenStep,
    run: ReopenView,
    hist: HistoryView,
    turn: ReopenTurn,
) -> bool {
    &&& run == step.run
    &&& hist == step.hist
    &&& turn.action == step.action
    &&& report::violation_views(turn.violations@) == step.violations
    &&& text::texts(turn.lines@) == step.lines
    &&& turn.lost_commits == step.lost_commits
}

/// An acceptable state, as a report names it.
pub open spec fn candidate_text(s: SnapView) -> Seq<char> {
    "["@ + s.what + " rows="@ + text::decimal(s.rows as int) + " certain="@ + text::flag_text(s.certain)
        + " "@ + text::hexadecimal(s.digest as nat) + "]"@
}

/// Acceptable states, as a report names them.
pub open spec fn candidates_text(snaps: Seq<SnapView>) -> Seq<char> {
    text::joined(snaps.map_values(|s: SnapView| candidate_text(s)), " "@)
}

/// The label under which an unacceptable state is reported.
pub open spec fn lost_label(crashed: bool, sync_mode: SyncMode) -> Seq<char> {
    if !crashed {
        "committed-state-lost-on-reopen"@
    } else if sync_mode == SyncMode::Full {
        "durability-violated-after-crash"@
    } else {
        "prefix-consistency-violated-after-crash"@
    }
}

/// What is reported of a state that is not acceptable.
pub open spec fn lost_verdict(h: HistoryView, crashed: bool, t: Table) -> ViolationView {
    ViolationView {
        label: lost_label(crashed, h.sync_mode),
        detail: "observed rows="@ + text::decimal(t.len() as int) + " digest="@
            + text::hexadecimal(table::table_digest(t) as nat) + "; acceptable: "@
            + candidates_text(h.acceptable(crashed)),
    }
}

/// Whether the state is an acceptable one before the last: the crash has lost
/// commits.
pub open spec fn loses_commits(h: HistoryView, crashed: bool, t: Table) -> bool {
    crashed && exists|i: int|
        0 <= i < h.acceptable(crashed).len() - 1 && (#[trigger] h.acceptable(crashed)[i]).digest
            == table::table_digest(t)
}

impl ReopenView {
    /// A turn that asks for something.
    pub open spec fn ask(
        self,
        phase: ReopenPhaseView,
        h: HistoryView,
        action: ReopenAction,
    ) -> ReopenStep {
        ReopenStep {
            run: ReopenView { phase, ..self },
            hist: h,
            action,
            violations: Seq::empty(),
            lines: Seq::empty(),
            lost_commits: None,
            fits: true,
        }
    }

    /// What is reported of a table that could not be read: lost where the
    /// engine says that there is none.
    pub open spec fn unreadable_verdict(self, db: Option<u64>, wal: Option<u64>) -> ViolationView {
        let lost = text::holds(self.last_err, "no such table"@);
        ViolationView {
            label: if lost && self.crashed && !self.dirsynced {
                "db-lost-after-crash-without-dirsync"@
            } else if lost {
                "schema-lost-after-reopen"@
            } else {
                "post-open-read-failed"@
            },
            detail: self.last_err + " (crashed="@ + text::flag_text(self.crashed) + " dirsynced="@
                + text::flag_text(self.dirsynced) + " "@ + diff::lengths_text(db, wal) + ")"@,
        }
    }

    /// The turn on what reading the table gave.
    pub open spec fn on_read(
        self,
        h: HistoryView,
        r: Result<Table, FailView>,
        left: u64,
    ) -> ReopenStep {
        match r {
            Ok(t) => if h.accepts(self.crashed, t) {
                ReopenStep {
                    lost_commits: Some(loses_commits(h, self.crashed, t)),
                    ..self.ask(
                        ReopenPhaseView::Checking { observed: t, left: CHECK_ATTEMPTS },
                        h,
                        ReopenAction::CheckIntegrity,
                    )
                }
            } else {
                ReopenStep {
                    violations: seq![lost_verdict(h, self.crashed, t)],
                    lines: diff::diff_lines(h, t),
                    fits: diff::showable(t) && diff::showable(h.table),
                    ..self.ask(
                        ReopenPhaseView::Differing { observed: t },
                        h,
                        ReopenAction::FileLengths,
                    )
                }
            },
            Err(e) => {
                let on = ReopenView { last_err: e.wording(), ..self };
                if text::holds(e.wording(), "no such table"@) {
                    on.ask(ReopenPhaseView::Unreadable, h, ReopenAction::FileLengths)
                } else {
                    on.ask(
                        ReopenPhaseView::ReadPause { left: (left - 1) as u64 },
                        h,
                        ReopenAction::Wait(RETRY_MS),
                    )
                }
            },
        }
    }

    /// The oracle once the check is over.
    pub open spec fn settled(self, h: HistoryView, t: Table) -> HistoryView {
        if self.crashed {
            h.reset(t)
        } else {
            h.adopted(t)
        }
    }

    /// The last turn.
    pub open spec fn finish(
        self,
        h: HistoryView,
        t: Table,
        violations: Seq<ViolationView>,
    ) -> ReopenStep {
        ReopenStep {
            violations,
            ..self.ask(ReopenPhaseView::Over, self.settled(h, t), ReopenAction::Finish(true))
        }
    }

    /// The turn on what the integrity check gave.
    pub open spec fn on_checked(
        self,
        h: HistoryView,
        r: Result<Cells, FailView>,
        t: Table,
        left: u64,
    ) -> ReopenStep {
        match r {
            Ok(shown) => self.finish(
                h,
                t,
                report::found(
                    rows::integrity_verdict(shown, "integrity-check-failed-after-reopen"@),
                ),
            ),
            Err(e) => (ReopenView { last_err: e.wording(), ..self }).ask(
                ReopenPhaseView::CheckPause { observed: t, left: (left - 1) as u64 },
                h,
                ReopenAction::Wait(RETRY_MS),
            ),
        }
    }

    /// Whether an attempt is left where one is being made.
    pub open spec fn wf(self) -> bool {
        match self.phase {
            ReopenPhaseView::Reading { left } => 0 < left <= READ_ATTEMPTS,
            ReopenPhaseView::ReadPause { left } => left < READ_ATTEMPTS,
            ReopenPhaseView::Checking { left, .. } => 0 < left <= CHECK_ATTEMPTS,
            ReopenPhaseView::CheckPause { left, .. } => left < CHECK_ATTEMPTS,
            _ => true,
        }
    }

    /// Whether an event is of the kind that the check is waiting for.
    pub open spec fn awaits(self, ev: ReopenEventView) -> bool {
        match self.phase {
            ReopenPhaseView::Start => ev is Start,
            ReopenPhaseView::Reading { .. } => ev is Read,
            ReopenPhaseView::ReadPause { .. } => ev is Waited,
            ReopenPhaseView::Unreadable => ev is Lengths,
            ReopenPhaseView::Differing { .. } => ev is Lengths,
            ReopenPhaseView::Checking { .. } => ev is Checked,
            ReopenPhaseView::CheckPause { .. } => ev is Waited,
            ReopenPhaseView::Over => false,
        }
    }

    /// The turn on an event. Every turn sets the phase anew.
    pub open spec fn step(self, h: HistoryView, ev: ReopenEventView) -> ReopenStep {
        let run = ReopenView { phase: ReopenPhaseView::Over, ..self };
        match self.phase {
            ReopenPhaseView::Start => run.ask(
                ReopenPhaseView::Reading { left: READ_ATTEMPTS },
                h,
                ReopenAction::ReadModel,
            ),
            ReopenPhaseView::Reading { left } => run.on_read(h, ev->Read_0, left),
            ReopenPhaseView::ReadPause { left } => if left == 0 {
                run.ask(ReopenPhaseView::Unreadable, h, ReopenAction::FileLengths)
            } else {
                run.ask(ReopenPhaseView::Reading { left }, h, ReopenAction::ReadModel)
            },
            ReopenPhaseView::Unreadable => ReopenStep {
                violations: seq![run.unreadable_verdict(ev->Lengths_0, ev->Lengths_1)],
                ..run.ask(ReopenPhaseView::Over, h, ReopenAction::Finish(false))
            },
            ReopenPhaseView::Differing { observed } => ReopenStep {
                lines: seq![
                    "TURSO_DST_DIFF files: "@ + diff::lengths_text(ev->Lengths_0, ev->Lengths_1),
                ],
                ..run.ask(
                    ReopenPhaseView::Checking { observed, left: CHECK_ATTEMPTS },
                    h,
                    ReopenAction::CheckIntegrity,
                )
            },
            ReopenPhaseView::Checking { observed, left } => run.on_checked(
                h,
                ev->Checked_0,
                observed,
                left,
            ),
            ReopenPhaseView::CheckPause { observed, left } => if left == 0 {
                run.finish(
                    h,
                    observed,
                    seq![
                        ViolationView {
                            label: "post-open-integrity-check-failed"@,
                            detail: self.last_err,
                        },
                    ],
                )
            } else {
                run.ask(
                    ReopenPhaseView::Checking { observed, left },
                    h,
                    ReopenAction::CheckIntegrity,
                )
            },
            ReopenPhaseView::Over => run.ask(
                ReopenPhaseView::Over,
                h,
                ReopenAction::Finish(false),
            ),
        }
    }
}

fn write_candidate(s: &Snap) -> (out: String)
    ensures
        out@ == candidate_text(s@),
{
    let mut out = "[".to_owned();
    out.append(s.what.as_str());
    out.append(" rows=");
    push_unsigned(&mut out, s.rows as u64);
    out.append(" certain=");
    out.append(flag_word(s.certain));
    out.append(" ");
    push_hex(&mut out, s.digest);
    out.append("]");
    out
}

fn write_candidates(snaps: &Vec<Snap>) -> (out: String)
    ensures
        out@ == candidates_text(model::snap_views(snaps@)),
{
    let ghost views = model::snap_views(snaps@);
    let ghost shown = views.map_values(|s: SnapView| candidate_text(s));
    let mut parts: Vec<String> = Vec::new();
    let mut i: usize = 0;
    while i < snaps.len()
        invariant
            i <= snaps.len(),
            views == model::snap_views(snaps@),
            shown == views.map_values(|s: SnapView| candidate_text(s)),
            text::texts(parts@) == shown.take(i as int),
        decreases snaps.len() - i,
    {
        let ghost so_far = text::texts(parts@);
        let part = write_candidate(&snaps[i]);
        parts.push(part);
        i += 1;
        proof {
            assert(views[i - 1] == snaps@[i - 1]@);
            assert(text::texts(parts@) =~= so_far.push(shown[i - 1]));
            assert(shown.take(i as int) =~= shown.take(i - 1).push(shown[i - 1]));
        }
    }
    proof {
        assert(shown.take(i as int) =~= shown);
    }
    join_text(&parts, " ")
}

fn report_lost(hist: &History, crashed: bool, observed: &Model, acceptable: &Vec<Snap>) -> (list:
    Vec<Violation>)
    requires
        model::snap_views(acceptable@) == hist@.acceptable(crashed),
    ensures
        report::violation_views(list@) == seq![
            lost_verdict(hist@, crashed, table::table(*observed)),
        ],
{
    let label: &'static str = if !crashed {
        "committed-state-lost-on-reopen"
    } else if hist.sync_mode == SyncMode::Full {
        "durability-violated-after-crash"
    } else {
        "prefix-consistency-violated-after-crash"
    };
    let mut detail = "observed rows=".to_owned();
    push_unsigned(&mut detail, row_count(observed) as u64);
    detail.append(" digest=");
    push_hex(&mut detail, digest_model(observed));
    detail.append("; acceptable: ");
    let candidates = write_candidates(acceptable);
    detail.append(candidates.as_str());
    one_violation(label, detail)
}

/// The first of some states that has a digest.
fn find_digest(snaps: &Vec<Snap>, d: u64) -> (at: Option<usize>)
    ensures
        match at {
            Some(i) => i < snaps.len() && snaps@[i as int].digest == d && forall|j: int|
                0 <= j < i ==> (#[trigger] snaps@[j]).digest != d,
            None => forall|j: int| 0 <= j < snaps.len() ==> (#[trigger] snaps@[j]).digest != d,
        },
{
    let mut i: usize = 0;
    while i < snaps.len()
        invariant
            i <= snaps.len(),
            forall|j: int| 0 <= j < i ==> (#[trigger] snaps@[j]).digest != d,
        decreases snaps.len() - i,
    {
        if snaps[i].digest == d {
            return Some(i);
        }
        i += 1;
    }
    None
}

impl ReopenRun {
    /// A check that has not begun.
    pub fn start(crashed: bool, dirsynced: bool) -> (run: ReopenRun)
        ensures
            run@ == (ReopenView {
                phase: ReopenPhaseView::Start,
                crashed,
                dirsynced,
                last_err: ""@,
            }),
            run@.wf(),
    {
        ReopenRun { phase: ReopenPhase::Start, crashed, dirsynced, last_err: "".to_owned() }
    }

    fn ask(self, phase: ReopenPhase, action: ReopenAction, Ghost(h): Ghost<HistoryView>) -> (out: (
        ReopenRun,
        ReopenTurn,
    ))
        ensures
            is_turn(self@.ask(phase@, h, action), out.0@, h, out.1),
    {
        let lines: Vec<String> = Vec::new();
        proof {
            assert(text::texts(lines@) =~= Seq::<Seq<char>>::empty());
        }
        (
            ReopenRun { phase, ..self },
            ReopenTurn { action, violations: no_violation(), lines, lost_commits: None },
        )
    }

    fn on_read(self, hist: &History, r: Result<Model, Fail>, left: u64) -> (out: (
        ReopenRun,
        ReopenTurn,
    ))
        requires
            hist@.wf(),
            left > 0,
            self@.on_read(hist@, read_view(r), left).fits,
        ensures
            is_turn(self@.on_read(hist@, read_view(r), left), out.0@, hist@, out.1),
    {
        match r {
            Ok(observed) => {
                let d: u64 = digest_model(&observed);
                let acceptable = hist.acceptable(self.crashed);
                let ghost views = hist@.acceptable(self.crashed);
                proof {
                    assert forall|j: int| 0 <= j < acceptable@.len() implies (#[trigger] views[j])
                        == acceptable@[j]@ by {}
                }
                match find_digest(&acceptable, d) {
                    None => {
                        proof {
                            assert(!hist@.accepts(self.crashed, table::table(observed)));
                        }
                        let violations = report_lost(hist, self.crashed, &observed, &acceptable);
                        let lines = describe_diff(&observed, hist);
                        let (run, turn) = self.ask(
                            ReopenPhase::Differing { observed },
                            ReopenAction::FileLengths,
                            Ghost(hist@),
                        );
                        (run, ReopenTurn { violations, lines, ..turn })
                    },
                    Some(i) => {
                        proof {
                            let t = table::table(observed);
                            assert(views[i as int].digest == d);
                            assert(hist@.accepts(self.crashed, t));
                            if loses_commits(hist@, self.crashed, t) {
                                let j = choose|j: int|
                                    0 <= j < views.len() - 1 && (#[trigger] views[j]).digest == d;
                                assert(acceptable@[j].digest == d);
                            }
                        }
                        let lost: bool = self.crashed && i + 1 < acceptable.len();
                        let (run, turn) = self.ask(
                            ReopenPhase::Checking { observed, left: CHECK_ATTEMPTS },
                            ReopenAction::CheckIntegrity,
                            Ghost(hist@),
                        );
                        (run, ReopenTurn { lost_commits: Some(lost), ..turn })
                    },
                }
            },
            Err(e) => {
                let last_err = e.wording();
                let lost: bool = has_text(last_err.as_str(), "no such table");
                let run = ReopenRun { last_err, ..self };
                if lost {
                    run.ask(ReopenPhase::Unreadable, ReopenAction::FileLengths, Ghost(hist@))
                } else {
                    run.ask(
                        ReopenPhase::ReadPause { left: left - 1 },
                        ReopenAction::Wait(RETRY_MS),
                        Ghost(hist@),
                    )
                }
            },
        }
    }

    fn report_unreadable(&self, db: Option<u64>, wal: Option<u64>) -> (list: Vec<Violation>)
        ensures
            report::violation_views(list@) == seq![self@.unreadable_verdict(db, wal)],
    {
        let lost: bool = has_text(self.last_err.as_str(), "no such table");
        let label: &'static str = if lost && self.crashed && !self.dirsynced {
            "db-lost-after-crash-without-dirsync"
        } else if lost {
            "schema-lost-after-reopen"
        } else {
            "post-open-read-failed"
        };
        let mut detail = self.last_err.clone();
        detail.append(" (crashed=");
        detail.append(flag_word(self.crashed));
        detail.append(" dirsynced=");
        detail.append(flag_word(self.dirsynced));
        detail.append(" ");
        push_lengths(&mut detail, db, wal);
        detail.append(")");
        one_violation(label, detail)
    }

    fn finish(self, hist: &mut History, observed: Model, violations: Vec<Violation>) -> (out: (
        ReopenRun,
        ReopenTurn,
    ))
        requires
            old(hist)@.wf(),
        ensures
            is_turn(
                self@.finish(
                    old(hist)@,
                    table::table(observed),
                    report::violation_views(violations@),
                ),
                out.0@,
                final(hist)@,
                out.1,
            ),
            final(hist)@.wf(),
    {
        if self.crashed {
            hist.reset_from(observed);
        } else {
            hist.adopt(observed);
        }
        let (run, turn) = self.ask(ReopenPhase::Over, ReopenAction::Finish(true), Ghost(hist@));
        (run, ReopenTurn { violations, ..turn })
    }

    /// Whether the next turn can show what it has to show.
    pub fn can_resume(&self, hist: &History, event: &ReopenEvent) -> (yes: bool)
        requires
            hist@.wf(),
            self@.awaits(event@),
        ensures
            yes == self@.step(hist@, event@).fits,
    {
        match (&self.phase, event) {
            (ReopenPhase::Reading { left: _ }, ReopenEvent::Read(Ok(observed))) => {
                let d: u64 = digest_model(observed);
                let acceptable = hist.acceptable(self.crashed);
                let ghost views = hist@.acceptable(self.crashed);
                proof {
                    assert forall|j: int| 0 <= j < acceptable@.len() implies (#[trigger] views[j])
                        == acceptable@[j]@ by {}
                }
                match find_digest(&acceptable, d) {
                    Some(i) => {
                        proof {
                            assert(views[i as int].digest == d);
                        }
                        true
                    },
                    None => diff::can_show(observed) && diff::can_show(&hist.model),
                }
            },
            _ => true,
        }
    }

    /// Takes the next turn of the check, on what came of the last one.
    pub fn resume(self, hist: &mut History, event: ReopenEvent) -> (out: (ReopenRun, ReopenTurn))
        requires
            old(hist)@.wf(),
            self@.wf(),
            self@.awaits(event@),
            self@.step(old(hist)@, event@).fits,
        ensures
            is_turn(self@.step(old(hist)@, event@), out.0@, final(hist)@, out.1),
            out.0@.wf(),
            final(hist)@.wf(),
    {
        let ReopenRun { phase, crashed, dirsynced, last_err } = self;
        let run = ReopenRun { phase: ReopenPhase::Over, crashed, dirsynced, last_err };
        match (phase, event) {
            (ReopenPhase::Start, _) => {
                run.ask(
                    ReopenPhase::Reading { left: READ_ATTEMPTS },
                    ReopenAction::ReadModel,
                    Ghost(hist@),
                )
            },
            (ReopenPhase::Reading { left }, ReopenEvent::Read(r)) => run.on_read(hist, r, left),
            (ReopenPhase::ReadPause { left }, _) => {
                if left == 0 {
                    run.ask(ReopenPhase::Unreadable, ReopenAction::FileLengths, Ghost(hist@))
                } else {
                    run.ask(ReopenPhase::Reading { left }, ReopenAction::ReadModel, Ghost(hist@))
                }
            },
            (ReopenPhase::Unreadable, ReopenEvent::Lengths(db, wal)) => {
                let violations = run.report_unreadable(db, wal);
                let (run, turn) = run.ask(
                    ReopenPhase::Over,
                    ReopenAction::Finish(false),
                    Ghost(hist@),
                );
                (run, ReopenTurn { violations, ..turn })
            },
            (ReopenPhase::Differing { observed }, ReopenEvent::Lengths(db, wal)) => {
                let mut lines: Vec<String> = Vec::new();
                let line = files_line(db, wal);
                lines.push(line);
                proof {
                    assert(text::texts(lines@) =~= seq![line@]);
                }
                let (run, turn) = run.ask(
                    ReopenPhase::Checking { observed, left: CHECK_ATTEMPTS },
                    ReopenAction::CheckIntegrity,
                    Ghost(hist@),
                );
                (run, ReopenTurn { lines, ..turn })
            },
            (ReopenPhase::Checking { observed, left }, ReopenEvent::Checked(r)) => match r {
                Ok(shown) => {
                    let found = listed(
                        check_integrity(&shown, "integrity-check-failed-after-reopen"),
                    );
                    run.finish(hist, observed, found)
                },
                Err(e) => {
                    let last_err = e.wording();
                    let run = ReopenRun { last_err, ..run };
                    run.ask(
                        ReopenPhase::CheckPause { observed, left: left - 1 },
                        ReopenAction::Wait(RETRY_MS),
                        Ghost(hist@),
                    )
                },
            },
            (ReopenPhase::CheckPause { observed, left }, _) => {
                if left == 0 {
                    let found = one_violation(
                        "post-open-integrity-check-failed",
                        run.last_err.clone(),
                    );
                    run.finish(hist, observed, found)
                } else {
                    run.ask(
                        ReopenPhase::Checking { observed, left },
                        ReopenAction::CheckIntegrity,
                        Ghost(hist@),
                    )
                }
            },
            _ => run.ask(ReopenPhase::Over, ReopenAction::Finish(false), Ghost(hist@)),
        }
    }
}

impl ReopenView {
    /// A bound on the turns that are left.
    pub open spec fn turns_left(self) -> int {
        let checks = 2 * CHECK_ATTEMPTS + 1;
        match self.phase {
            ReopenPhaseView::Start => checks + 2 * READ_ATTEMPTS + 4,
            ReopenPhaseView::Reading { left } => checks + 2 * left + 3,
            ReopenPhaseView::ReadPause { left } => checks + 2 * left + 4,
            ReopenPhaseView::Unreadable => 1,
            ReopenPhaseView::Differing { .. } => checks + 1,
            ReopenPhaseView::Checking { left, .. } => 2 * left + 1,
            ReopenPhaseView::CheckPause { left, .. } => 2 * left + 2,
            ReopenPhaseView::Over => 0,
        }
    }
}

/// Every turn brings the end of the check closer.
pub proof fn law_every_turn_brings_the_end_closer(
    run: ReopenView,
    h: HistoryView,
    ev: ReopenEventView,
)
    requires
        run.wf(),
        run.awaits(ev),
    ensures
        0 <= run.step(h, ev).run.turns_left() < run.turns_left(),
        run.step(h, ev).run.turns_left() == 0 <==> run.step(h, ev).action is Finish,
{
}

/// What a reopened database shows is reported exactly where it is not one of
/// the acceptable states, and then under the label that says what was broken.
pub proof fn law_unacceptable_state_is_reported(run: ReopenView, h: HistoryView, t: Table)
    requires
        run.phase is Reading,
    ensures
        ({
            let step = run.step(h, ReopenEventView::Read(Ok(t)));
            &&& h.accepts(run.crashed, t) <==> step.violations.len() == 0
            &&& !h.accepts(run.crashed, t) ==> step.violations.len() == 1
                && step.violations[0].label == lost_label(run.crashed, h.sync_mode)
        }),
{
}

/// Under `SyncMode::Full` a commit that was reported as done survives a power
/// cut: a reopened database that shows anything with another digest is
/// reported as a broken durability.
pub proof fn law_lost_durable_commit_is_reported(
    run: ReopenView,
    h: HistoryView,
    committed: Table,
    what: Seq<char>,
    t: Table,
)
    requires
        h.wf(),
        h.sync_mode == SyncMode::Full,
        run.phase is Reading,
        run.crashed,
        table::table_digest(t) != table::table_digest(committed),
    ensures
        run.step(
            h.committed(committed, true, what),
            ReopenEventView::Read(Ok(t)),
        ).violations.len() == 1,
        run.step(
            h.committed(committed, true, what),
            ReopenEventView::Read(Ok(t)),
        ).violations[0].label == "durability-violated-after-crash"@,
{
    let after = h.committed(committed, true, what);
    assert(after.acceptable(true) =~= seq![model::snap_of(committed, true, what)]);
    law_unacceptable_state_is_reported(run, after, t);
}

/// When the check ends well, the oracle holds what is in the database, and
/// would accept it again; when it ends badly, the oracle is as it was.
pub proof fn law_oracle_takes_what_is_there(run: ReopenView, h: HistoryView, ev: ReopenEventView)
    requires
        h.wf(),
        run.awaits(ev),
        run.step(h, ev).action is Finish,
    ensures
        ({
            let after = run.step(h, ev).hist;
            &&& after.wf()
            &&& run.step(h, ev).action == ReopenAction::Finish(false) ==> after == h
            &&& run.phase matches ReopenPhaseView::Checking { observed, .. } ==> after.table
                == observed && after.accepts(true, observed) && after.accepts(false, observed)
            &&& run.phase matches ReopenPhaseView::CheckPause { observed, .. } ==> after.table
                == observed && after.accepts(true, observed) && after.accepts(false, observed)
        }),
{
    let after = run.step(h, ev).hist;
    let d = table::table_digest(after.table);
    assert(after.acceptable(false)[0].digest == d);
    let path = after.acceptable(true);
    assert(path[after.snaps.len() - 1 - after.floor].digest == d);
}

} // verus!
