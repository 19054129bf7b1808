//! Snapshot isolation of a reading connection: it opens a read transaction,
//! remembers what it sees, lets the writer commit, and must still see the same
//! until it ends the transaction.

use crate::exec::{Fail, FailView};
use crate::report;
use crate::report::{no_violation, one_violation, Violation, ViolationView};
use crate::text;
use crate::text::push_unsigned;
use vstd::prelude::*;
use vstd::string::*;

verus! {

/// What a read transaction saw when it was opened.
#[derive(Clone, Copy, Debug, PartialEq, Eq, Structural)]
pub struct ReaderWindow {
    pub digest: u64,
    pub rows: usize,
}

/// What is being waited for while a read transaction is opened.
#[derive(Clone, Copy, Debug, PartialEq, Eq, Structural)]
pub enum ReaderPhase {
    /// To begin.
    Start,
    /// The outcome of `BEGIN`.
    Begin,
    /// What the connection shows.
    Read,
    /// The end of a `ROLLBACK` whose outcome does not matter.
    Rollback,
    /// Nothing more.
    Over,
}

/// What came of an action.
pub enum ReaderEvent {
    /// The window is to be opened.
    Start,
    /// What a statement gave.
    Sql(Result<Vec<Vec<String>>, Fail>),
    /// The digest and the number of rows that the connection shows.
    Digest(Result<(u64, usize), Fail>),
}

/// What is to be done next.
pub enum ReaderAction {
    /// Run a statement on the reading connection.
    Exec(String),
    /// Read the table on the reading connection and digest it.
    ReadDigest,
    /// The window is open, or could not be opened.
    Finish(Option<ReaderWindow>),
}

/// What is to be done next, as a mathematical value.
pub enum ReaderActionView {
    Exec(Seq<char>),
    ReadDigest,
    Finish(Option<ReaderWindow>),
}

impl View for ReaderAction {
    type V = ReaderActionView;

    open spec fn view(&self) -> ReaderActionView {
        match self {
            ReaderAction::Exec(sql) => ReaderActionView::Exec(sql@),
            ReaderAction::ReadDigest => ReaderActionView::ReadDigest,
            ReaderAction::Finish(w) => ReaderActionView::Finish(*w),
        }
    }
}

impl ReaderPhase {
    /// Whether an event is of the kind that is being waited for.
    pub open spec fn awaits(self, ev: ReaderEvent) -> bool {
        match self {
            ReaderPhase::Start => ev is Start,
            ReaderPhase::Begin => ev is Sql,
            ReaderPhase::Read => ev is Digest,
            ReaderPhase::Rollback => ev is Sql,
            ReaderPhase::Over => false,
        }
    }

    /// What happens on an event.
    pub open spec fn step(self, ev: ReaderEvent) -> (ReaderPhase, ReaderActionView) {
        match self {
            ReaderPhase::Start => (ReaderPhase::Begin, ReaderActionView::Exec("BEGIN"@)),
            ReaderPhase::Begin => if ev->Sql_0 is Ok {
                (ReaderPhase::Read, ReaderActionView::ReadDigest)
            } else {
                (ReaderPhase::Over, ReaderActionView::Finish(None))
            },
            ReaderPhase::Read => match ev->Digest_0 {
                Ok((digest, rows)) => (
                    ReaderPhase::Over,
                    ReaderActionView::Finish(Some(ReaderWindow { digest, rows })),
                ),
                Err(_) => (ReaderPhase::Rollback, ReaderActionView::Exec("ROLLBACK"@)),
            },
            _ => (ReaderPhase::Over, ReaderActionView::Finish(None)),
        }
    }

    /// Takes the next turn of opening a window, on what came of the last one.
    pub fn resume(self, ev: ReaderEvent) -> (out: (ReaderPhase, ReaderAction))
        requires
            self.awaits(ev),
        ensures
            out.0 == self.step(ev).0,
            out.1@ == self.step(ev).1,
    {
        match (self, ev) {
            (ReaderPhase::Start, _) => (
                ReaderPhase::Begin,
                ReaderAction::Exec("BEGIN".to_owned()),
            ),
            (ReaderPhase::Begin, ReaderEvent::Sql(Ok(_))) => (
                ReaderPhase::Read,
                ReaderAction::ReadDigest,
            ),
            (ReaderPhase::Read, ReaderEvent::Digest(Ok((digest, rows)))) => (
                ReaderPhase::Over,
                ReaderAction::Finish(Some(ReaderWindow { digest, rows })),
            ),
            (ReaderPhase::Read, ReaderEvent::Digest(Err(_))) => (
                ReaderPhase::Rollback,
                ReaderAction::Exec("ROLLBACK".to_owned()),
            ),
            _ => (ReaderPhase::Over, ReaderAction::Finish(None)),
        }
    }
}

/// What a second look through a window has shown.
pub struct WindowCheck {
    pub violations: Vec<Violation>,
    /// A line for the log.
    pub note: Option<String>,
    /// Where the table could be read: whether the writer had committed
    /// meanwhile.
    pub held_across_commit: Option<bool>,
    /// The statement that ends the read transaction, whatever comes of it.
    pub end: String,
}

/// What a second look through a window has shown, as a mathematical value.
#[verifier::ext_equal]
pub struct WindowCheckView {
    pub violations: Seq<ViolationView>,
    pub note: Option<Seq<char>>,
    pub held_across_commit: Option<bool>,
    pub end: Seq<char>,
}

impl View for WindowCheck {
    type V = WindowCheckView;

    open spec fn view(&self) -> WindowCheckView {
        WindowCheckView {
            violations: report::violation_views(self.violations@),
            note: text::maybe_text(self.note),
            held_across_commit: self.held_across_commit,
            end: self.end@,
        }
    }
}

/// What reading a digest gave, as a mathematical value.
pub open spec fn digest_view(r: Result<(u64, usize), Fail>) -> Result<(u64, usize), FailView> {
    match r {
        Ok(d) => Ok(d),
        Err(e) => Err(e@),
    }
}

/// What a second look through a window shows.
pub open spec fn window_verdict(
    w: ReaderWindow,
    r: Result<(u64, usize), FailView>,
    writer_committed: bool,
) -> WindowCheckView {
    match r {
        Ok((digest, n)) => WindowCheckView {
            violations: if digest != w.digest {
                seq![
                    ViolationView {
                        label: "snapshot-isolation-violated"@,
                        detail: "reader saw rows="@ + text::decimal(w.rows as int)
                            + " then rows="@ + text::decimal(n as int) + " within one read tx"@,
                    },
                ]
            } else {
                Seq::empty()
            },
            note: None,
            held_across_commit: Some(writer_committed),
            end: "COMMIT"@,
        },
        Err(e) => WindowCheckView {
            violations: Seq::empty(),
            note: Some("note: reader re-read failed: "@ + e.wording()),
            held_across_commit: None,
            end: "COMMIT"@,
        },
    }
}

/// Holds a second look through a window against the first.
pub fn check_window(
    w: &ReaderWindow,
    r: Result<(u64, usize), Fail>,
    writer_committed: bool,
) -> (out: WindowCheck)
    ensures
        out@ == window_verdict(*w, digest_view(r), writer_committed),
{
    match r {
        Ok((digest, n)) => {
            let violations = if digest != w.digest {
                let mut detail = "reader saw rows=".to_owned();
                push_unsigned(&mut detail, w.rows as u64);
                detail.append(" then rows=");
                push_unsigned(&mut detail, n as u64);
                detail.append(" within one read tx");
                one_violation("snapshot-isolation-violated", detail)
            } else {
                no_violation()
            };
            WindowCheck {
                violations,
                note: None,
                held_across_commit: Some(writer_committed),
                end: "COMMIT".to_owned(),
            }
        },
        Err(e) => {
            let note = e.worded("note: reader re-read failed: ");
            WindowCheck {
                violations: no_violation(),
                note: Some(note),
                held_across_commit: None,
                end: "COMMIT".to_owned(),
            }
        },
    }
}

/// A read transaction is reported exactly where its second look has another
/// digest than its first.
pub proof fn law_moved_snapshot_is_reported(
    w: ReaderWindow,
    digest: u64,
    n: usize,
    writer_committed: bool,
)
    ensures
        window_verdict(w, Ok((digest, n)), writer_committed).violations.len() == 0 <==> digest
            == w.digest,
{
}

/// A read transaction is opened by `BEGIN` and one look at the table; where the
/// look fails, the transaction is rolled back and there is no window, and where
/// `BEGIN` fails, there is none either.
pub proof fn law_window_is_opened(
    r: Result<Vec<Vec<String>>, Fail>,
    d: Result<(u64, usize), Fail>,
)
    ensures
        ReaderPhase::Start.step(ReaderEvent::Start) == (
            ReaderPhase::Begin,
            ReaderActionView::Exec("BEGIN"@),
        ),
        r is Ok ==> ReaderPhase::Begin.step(ReaderEvent::Sql(r)) == (
            ReaderPhase::Read,
            ReaderActionView::ReadDigest,
        ),
        r is Err ==> ReaderPhase::Begin.step(ReaderEvent::Sql(r)) == (
            ReaderPhase::Over,
            ReaderActionView::Finish(None),
        ),
        d matches Ok((digest, rows)) ==> ReaderPhase::Read.step(ReaderEvent::Digest(d)) == (
            ReaderPhase::Over,
            ReaderActionView::Finish(Some(ReaderWindow { digest, rows })),
        ),
        d is Err ==> ReaderPhase::Read.step(ReaderEvent::Digest(d)) == (
            ReaderPhase::Rollback,
            ReaderActionView::Exec("ROLLBACK"@),
        ),
        ReaderPhase::Rollback.step(ReaderEvent::Sql(r)) == (
            ReaderPhase::Over,
            ReaderActionView::Finish(None),
        ),
{
}

/// A second look tells whether the writer has committed meanwhile, and reports
/// another digest with both numbers of rows; one that fails is only noted. Both
/// end the transaction.
pub proof fn law_second_look_is_held_against_the_first(
    w: ReaderWindow,
    r: Result<(u64, usize), FailView>,
    writer_committed: bool,
)
    ensures
        ({
            let v = window_verdict(w, r, writer_committed);
            &&& v.end == "COMMIT"@
            &&& match r {
                Ok((digest, n)) => {
                    &&& v.held_across_commit == Some(writer_committed)
                    &&& v.note is None
                    &&& digest == w.digest ==> v.violations.len() == 0
                    &&& digest != w.digest ==> v.violations == seq![
                        ViolationView {
                            label: "snapshot-isolation-violated"@,
                            detail: "reader saw rows="@ + text::decimal(w.rows as int)
                                + " then rows="@ + text::decimal(n as int)
                                + " within one read tx"@,
                        },
                    ]
                },
                Err(e) => {
                    &&& v.held_across_commit is None
                    &&& v.note == Some("note: reader re-read failed: "@ + e.wording())
                    &&& v.violations.len() == 0
                },
            }
        }),
{
}

} // verus!
