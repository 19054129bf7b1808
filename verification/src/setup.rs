//! Bringing up the database that a run works on, through injected faults and
//! power cuts: these are not part of what is being tested yet.

use crate::exec;
use crate::exec::{Cells, Fail, FailView};
use crate::text;
use crate::text::{join2, join3};
use vstd::prelude::*;
use vstd::string::*;

verus! {

/// How often the directory is created before setup fails.
pub const MKDIR_ATTEMPTS: u64 = 50;

/// How long to wait before it is created again, in milliseconds.
pub const MKDIR_RETRY_MS: u64 = 10;

/// How often the table is created before setup fails.
pub const CREATE_ATTEMPTS: u64 = 40;

/// How long to wait before it is created again, in milliseconds.
pub const CREATE_RETRY_MS: u64 = 20;

/// How often the directory is synced before it stays unsynced.
pub const DIRSYNC_ATTEMPTS: u64 = 20;

/// How long to wait before it is synced again, in milliseconds.
pub const DIRSYNC_RETRY_MS: u64 = 10;

/// What setup is waiting for. `left` counts the rounds that are left after
/// the current one, `tries` the attempts.
#[derive(Clone, Copy, Debug, PartialEq, Eq, Structural)]
pub enum SetupPhase {
    /// To begin.
    Start,
    /// Whether the directory could be created.
    Mkdir { tries: u64 },
    /// The end of a pause before the directory is created again.
    MkdirPause { tries: u64 },
    /// The end of arming the sentinel for the first time. This is done before
    /// the first open, so that a power cut anywhere in setup is seen.
    FirstArm,
    /// Whether the database could be opened.
    FirstOpen,
    /// Whether the power was cut.
    Probe { left: u64 },
    /// The end of dropping the dead handles.
    Drop { left: u64 },
    /// Whether the database could be opened again.
    Reopen { left: u64 },
    /// The end of arming the sentinel again.
    Rearm { left: u64 },
    /// The end of the statement that asks for full synchronization. The schema
    /// is committed under it, so that it is durable before the configured mode
    /// takes over.
    Full { left: u64 },
    /// The outcome of creating the table.
    Create { left: u64 },
    /// The end of creating the index.
    Index { left: u64 },
    /// The outcome of the checkpoint.
    Truncate { left: u64 },
    /// Whether the directory could be synced.
    DirSync { left: u64, tries: u64 },
    /// The end of a pause before the directory is synced again.
    DirPause { left: u64, tries: u64 },
    /// Whether the power was cut meanwhile.
    Recheck { left: u64 },
    /// The end of a pause before the next round.
    Pause { left: u64 },
    /// The end of the statement that asks for normal synchronization.
    Normal,
    /// The end of arming the sentinel for the run.
    LastArm,
    /// Nothing more.
    Over,
}

/// What came of an action.
pub enum SetupEvent {
    /// Setup is to begin.
    Start,
    /// Whether an attempt succeeded, or whether the power was cut; of no
    /// meaning after a pause, a drop or an arming.
    Went(bool),
    /// What a statement gave.
    Sql(Result<Vec<Vec<String>>, Fail>),
    /// The error of the checkpoint, as the engine words it, if it failed.
    Truncated(Option<String>),
}

/// What came of an action, as a mathematical value.
pub enum SetupEventView {
    Start,
    Went(bool),
    Sql(Result<Cells, FailView>),
    Truncated(Option<Seq<char>>),
}

impl View for SetupEvent {
    type V = SetupEventView;

    open spec fn view(&self) -> SetupEventView {
        match self {
            SetupEvent::Start => SetupEventView::Start,
            SetupEvent::Went(b) => SetupEventView::Went(*b),
            SetupEvent::Sql(r) => SetupEventView::Sql(exec::result_view(*r)),
            SetupEvent::Truncated(Some(e)) => SetupEventView::Truncated(Some(e@)),
            SetupEvent::Truncated(None) => SetupEventView::Truncated(None),
        }
    }
}

/// What is to be done next.
#[derive(Debug)]
pub enum SetupAction {
    /// Create the directory.
    MakeDir,
    /// Arm the sentinel.
    Arm,
    /// Open the database.
    Open,
    /// Ask the sentinel whether the power was cut.
    Probe,
    /// Drop the dead handles.
    DropCrashed,
    /// Run a statement on the writing connection.
    Exec(String),
    /// Run a checkpoint that truncates the log.
    Truncate,
    /// Sync the directory.
    SyncDir,
    /// Wait so many milliseconds.
    Wait(u64),
    /// Give up, with this exit code.
    Exit(i32),
    /// The database is up: enable the crash points and begin the run.
    Ready,
}

/// What is to be done next, as a mathematical value.
pub enum SetupActionView {
    MakeDir,
    Arm,
    Open,
    Probe,
    DropCrashed,
    Exec(Seq<char>),
    Truncate,
    SyncDir,
    Wait(u64),
    Exit(i32),
    Ready,
}

impl View for SetupAction {
    type V = SetupActionView;

    open spec fn view(&self) -> SetupActionView {
        match self {
            SetupAction::MakeDir => SetupActionView::MakeDir,
            SetupAction::Arm => SetupActionView::Arm,
            SetupAction::Open => SetupActionView::Open,
            SetupAction::Probe => SetupActionView::Probe,
            SetupAction::DropCrashed => SetupActionView::DropCrashed,
            SetupAction::Exec(sql) => SetupActionView::Exec(sql@),
            SetupAction::Truncate => SetupActionView::Truncate,
            SetupAction::SyncDir => SetupActionView::SyncDir,
            SetupAction::Wait(ms) => SetupActionView::Wait(*ms),
            SetupAction::Exit(code) => SetupActionView::Exit(*code),
            SetupAction::Ready => SetupActionView::Ready,
        }
    }
}

/// One turn of setup.
pub struct SetupTurn {
    pub action: SetupAction,
    /// Lines for the log.
    pub lines: Vec<String>,
}

/// Setup of a run.
#[derive(Clone, Copy, Debug, PartialEq, Eq, Structural)]
pub struct SetupRun {
    pub phase: SetupPhase,
    pub with_index: bool,
    /// Whether the run works under normal synchronization.
    pub normal: bool,
    /// Whether the directory entries are to be made durable.
    pub want_dirsync: bool,
    /// Whether they are.
    pub dirsynced: bool,
}

/// One turn of setup, as a mathematical value.
#[verifier::ext_equal]
pub struct SetupStep {
    pub run: SetupRun,
    pub action: SetupActionView,
    pub lines: Seq<Seq<char>>,
}

/// What a turn is.
pub open spec fn is_turn(step: SetupStep, run: SetupRun, turn: SetupTurn) -> bool {
    &&& run == step.run
    &&& turn.action@ == step.action
    &&& text::texts(turn.lines@) == step.lines
}

impl SetupRun {
    /// A turn that asks for something.
    pub open spec fn asks(self, phase: SetupPhase, action: SetupActionView) -> SetupStep {
        SetupStep { run: SetupRun { phase, ..self }, action, lines: Seq::empty() }
    }

    /// A turn that says something and asks for something.
    pub open spec fn says(
        self,
        phase: SetupPhase,
        action: SetupActionView,
        line: Seq<char>,
    ) -> SetupStep {
        SetupStep { lines: seq![line], ..self.asks(phase, action) }
    }

    /// The beginning of a round, or the end where none is left.
    pub open spec fn round(self, left: u64) -> SetupStep {
        if left == 0 {
            self.says(
                SetupPhase::Over,
                SetupActionView::Exit(3),
                "TURSO_DST_SETUP_FAILED create-table"@,
            )
        } else {
            self.asks(SetupPhase::Probe { left: (left - 1) as u64 }, SetupActionView::Probe)
        }
    }

    /// After the checkpoint: the directory entries are made durable, where that
    /// is wanted.
    pub open spec fn after_truncate(self, left: u64, err: Option<Seq<char>>) -> SetupStep {
        let step = if self.want_dirsync {
            (SetupRun { dirsynced: false, ..self }).asks(
                SetupPhase::DirSync { left, tries: (DIRSYNC_ATTEMPTS - 1) as u64 },
                SetupActionView::SyncDir,
            )
        } else {
            self.asks(SetupPhase::Recheck { left }, SetupActionView::Probe)
        };
        SetupStep {
            lines: match err {
                Some(e) => seq!["note: setup checkpoint skipped: "@ + e],
                None => Seq::empty(),
            },
            ..step
        }
    }

    /// Whether an event is of the kind that is being waited for.
    pub open spec fn awaits(self, ev: SetupEventView) -> bool {
        match self.phase {
            SetupPhase::Start => ev is Start,
            SetupPhase::Full { .. } => ev is Sql,
            SetupPhase::Create { .. } => ev is Sql,
            SetupPhase::Index { .. } => ev is Sql,
            SetupPhase::Normal => ev is Sql,
            SetupPhase::Truncate { .. } => ev is Truncated,
            SetupPhase::Over => false,
            _ => ev is Went,
        }
    }

    /// The turn on an event.
    pub open spec fn step(self, ev: SetupEventView) -> SetupStep {
        match self.phase {
            SetupPhase::Start => self.asks(
                SetupPhase::Mkdir { tries: (MKDIR_ATTEMPTS - 1) as u64 },
                SetupActionView::MakeDir,
            ),
            SetupPhase::Mkdir { tries } => if ev->Went_0 {
                self.asks(SetupPhase::FirstArm, SetupActionView::Arm)
            } else {
                self.asks(SetupPhase::MkdirPause { tries }, SetupActionView::Wait(MKDIR_RETRY_MS))
            },
            SetupPhase::MkdirPause { tries } => if tries == 0 {
                self.says(
                    SetupPhase::Over,
                    SetupActionView::Exit(3),
                    "TURSO_DST_SETUP_FAILED mkdir"@,
                )
            } else {
                self.asks(
                    SetupPhase::Mkdir { tries: (tries - 1) as u64 },
                    SetupActionView::MakeDir,
                )
            },
            SetupPhase::FirstArm => self.asks(SetupPhase::FirstOpen, SetupActionView::Open),
            SetupPhase::FirstOpen => if ev->Went_0 {
                self.round(CREATE_ATTEMPTS)
            } else {
                self.asks(SetupPhase::Over, SetupActionView::Exit(1))
            },
            SetupPhase::Probe { left } => if ev->Went_0 {
                self.asks(SetupPhase::Drop { left }, SetupActionView::DropCrashed)
            } else {
                self.asks(
                    SetupPhase::Full { left },
                    SetupActionView::Exec("PRAGMA synchronous=FULL"@),
                )
            },
            SetupPhase::Drop { left } => self.asks(
                SetupPhase::Reopen { left },
                SetupActionView::Open,
            ),
            SetupPhase::Reopen { left } => if ev->Went_0 {
                self.asks(SetupPhase::Rearm { left }, SetupActionView::Arm)
            } else {
                self.asks(SetupPhase::Over, SetupActionView::Exit(1))
            },
            SetupPhase::Rearm { left } => self.asks(
                SetupPhase::Full { left },
                SetupActionView::Exec("PRAGMA synchronous=FULL"@),
            ),
            SetupPhase::Full { left } => self.asks(
                SetupPhase::Create { left },
                SetupActionView::Exec(
                    "CREATE TABLE IF NOT EXISTS kv(id INTEGER PRIMARY KEY, n INTEGER, v TEXT)"@,
                ),
            ),
            SetupPhase::Create { left } => match ev->Sql_0 {
                Ok(_) => if self.with_index {
                    self.asks(
                        SetupPhase::Index { left },
                        SetupActionView::Exec("CREATE INDEX IF NOT EXISTS kv_n ON kv(n)"@),
                    )
                } else {
                    self.asks(SetupPhase::Truncate { left }, SetupActionView::Truncate)
                },
                Err(e) => self.says(
                    SetupPhase::Pause { left },
                    SetupActionView::Wait(CREATE_RETRY_MS),
                    "note: setup create failed: Some("@ + e.wording() + ")"@,
                ),
            },
            SetupPhase::Index { left } => self.asks(
                SetupPhase::Truncate { left },
                SetupActionView::Truncate,
            ),
            SetupPhase::Truncate { left } => self.after_truncate(left, ev->Truncated_0),
            SetupPhase::DirSync { left, tries } => if ev->Went_0 {
                (SetupRun { dirsynced: true, ..self }).asks(
                    SetupPhase::Recheck { left },
                    SetupActionView::Probe,
                )
            } else {
                self.asks(
                    SetupPhase::DirPause { left, tries },
                    SetupActionView::Wait(DIRSYNC_RETRY_MS),
                )
            },
            SetupPhase::DirPause { left, tries } => if tries == 0 {
                self.asks(SetupPhase::Recheck { left }, SetupActionView::Probe)
            } else {
                self.asks(
                    SetupPhase::DirSync { left, tries: (tries - 1) as u64 },
                    SetupActionView::SyncDir,
                )
            },
            SetupPhase::Recheck { left } => if ev->Went_0 {
                SetupStep {
                    lines: seq!["note: setup hit a power cut; redoing setup"@] + self.round(
                        left,
                    ).lines,
                    ..self.round(left)
                }
            } else if self.normal {
                self.asks(
                    SetupPhase::Normal,
                    SetupActionView::Exec("PRAGMA synchronous=NORMAL"@),
                )
            } else {
                self.asks(SetupPhase::LastArm, SetupActionView::Arm)
            },
            SetupPhase::Pause { left } => self.round(left),
            SetupPhase::Normal => self.asks(SetupPhase::LastArm, SetupActionView::Arm),
            SetupPhase::LastArm => self.says(
                SetupPhase::Over,
                SetupActionView::Ready,
                if self.dirsynced {
                    "TURSO_DST_SETUP dirsynced=true"@
                } else {
                    "TURSO_DST_SETUP dirsynced=false"@
                },
            ),
            SetupPhase::Over => self.asks(SetupPhase::Over, SetupActionView::Ready),
        }
    }
}

fn no_line() -> (lines: Vec<String>)
    ensures
        text::texts(lines@) == Seq::<Seq<char>>::empty(),
{
    let lines: Vec<String> = Vec::new();
    proof {
        assert(text::texts(lines@) =~= Seq::<Seq<char>>::empty());
    }
    lines
}

fn one_line(line: String) -> (lines: Vec<String>)
    ensures
        text::texts(lines@) == seq![line@],
{
    let mut lines: Vec<String> = Vec::new();
    lines.push(line);
    proof {
        assert(text::texts(lines@) =~= seq![line@]);
    }
    lines
}

impl SetupRun {
    /// Setup that has not begun.
    pub fn start(with_index: bool, normal: bool, want_dirsync: bool) -> (run: SetupRun)
        ensures
            run == (SetupRun {
                phase: SetupPhase::Start,
                with_index,
                normal,
                want_dirsync,
                dirsynced: false,
            }),
            run.wf(),
    {
        SetupRun { phase: SetupPhase::Start, with_index, normal, want_dirsync, dirsynced: false }
    }

    fn ask(self, phase: SetupPhase, action: SetupAction) -> (out: (SetupRun, SetupTurn))
        ensures
            is_turn(self.asks(phase, action@), out.0, out.1),
    {
        (SetupRun { phase, ..self }, SetupTurn { action, lines: no_line() })
    }

    fn say(self, phase: SetupPhase, action: SetupAction, line: &str) -> (out: (
        SetupRun,
        SetupTurn,
    ))
        ensures
            is_turn(self.says(phase, action@, line@), out.0, out.1),
    {
        let lines = one_line(line.to_owned());
        (SetupRun { phase, ..self }, SetupTurn { action, lines })
    }

    fn next_round(self, left: u64) -> (out: (SetupRun, SetupTurn))
        ensures
            is_turn(self.round(left), out.0, out.1),
    {
        if left == 0 {
            self.say(
                SetupPhase::Over,
                SetupAction::Exit(3),
                "TURSO_DST_SETUP_FAILED create-table",
            )
        } else {
            self.ask(SetupPhase::Probe { left: left - 1 }, SetupAction::Probe)
        }
    }

    fn truncated(self, left: u64, err: Option<String>) -> (out: (SetupRun, SetupTurn))
        ensures
            is_turn(
                self.after_truncate(left, text::maybe_text(err)),
                out.0,
                out.1,
            ),
    {
        let lines = match err {
            Some(e) => one_line(join2("note: setup checkpoint skipped: ", e.as_str())),
            None => no_line(),
        };
        let (run, turn) = if self.want_dirsync {
            let run = SetupRun { dirsynced: false, ..self };
            run.ask(
                SetupPhase::DirSync { left, tries: DIRSYNC_ATTEMPTS - 1 },
                SetupAction::SyncDir,
            )
        } else {
            self.ask(SetupPhase::Recheck { left }, SetupAction::Probe)
        };
        (run, SetupTurn { lines, ..turn })
    }

    fn rechecked(self, left: u64, crashed: bool) -> (out: (SetupRun, SetupTurn))
        requires
            self.phase == (SetupPhase::Recheck { left }),
        ensures
            is_turn(self.step(SetupEventView::Went(crashed)), out.0, out.1),
    {
        if crashed {
            let ghost rest = self.round(left).lines;
            let (run, turn) = self.next_round(left);
            let mut lines = one_line("note: setup hit a power cut; redoing setup".to_owned());
            let mut more = turn.lines;
            let ghost said = text::texts(lines@);
            let ghost added = text::texts(more@);
            lines.append(&mut more);
            proof {
                assert(text::texts(lines@) =~= said + added);
            }
            (run, SetupTurn { lines, action: turn.action })
        } else if self.normal {
            self.ask(
                SetupPhase::Normal,
                SetupAction::Exec("PRAGMA synchronous=NORMAL".to_owned()),
            )
        } else {
            self.ask(SetupPhase::LastArm, SetupAction::Arm)
        }
    }

    fn created(self, left: u64, r: Result<Vec<Vec<String>>, Fail>) -> (out: (SetupRun, SetupTurn))
        requires
            self.phase == (SetupPhase::Create { left }),
        ensures
            is_turn(self.step(SetupEventView::Sql(exec::result_view(r))), out.0, out.1),
    {
        match r {
            Ok(_) => {
                if self.with_index {
                    self.ask(
                        SetupPhase::Index { left },
                        SetupAction::Exec("CREATE INDEX IF NOT EXISTS kv_n ON kv(n)".to_owned()),
                    )
                } else {
                    self.ask(SetupPhase::Truncate { left }, SetupAction::Truncate)
                }
            },
            Err(e) => {
                let why = e.wording();
                let line = join3("note: setup create failed: Some(", why.as_str(), ")");
                self.say(
                    SetupPhase::Pause { left },
                    SetupAction::Wait(CREATE_RETRY_MS),
                    line.as_str(),
                )
            },
        }
    }

    /// Takes the next turn of setup, on what came of the last one.
    pub fn resume(self, ev: SetupEvent) -> (out: (SetupRun, SetupTurn))
        requires
            self.wf(),
            self.awaits(ev@),
        ensures
            is_turn(self.step(ev@), out.0, out.1),
            out.0.wf(),
    {
        match (self.phase, ev) {
            (SetupPhase::Start, _) => {
                self.ask(SetupPhase::Mkdir { tries: MKDIR_ATTEMPTS - 1 }, SetupAction::MakeDir)
            },
            (SetupPhase::Mkdir { tries }, SetupEvent::Went(made)) => {
                if made {
                    self.ask(SetupPhase::FirstArm, SetupAction::Arm)
                } else {
                    self.ask(
                        SetupPhase::MkdirPause { tries },
                        SetupAction::Wait(MKDIR_RETRY_MS),
                    )
                }
            },
            (SetupPhase::MkdirPause { tries }, _) => {
                if tries == 0 {
                    self.say(
                        SetupPhase::Over,
                        SetupAction::Exit(3),
                        "TURSO_DST_SETUP_FAILED mkdir",
                    )
                } else {
                    self.ask(SetupPhase::Mkdir { tries: tries - 1 }, SetupAction::MakeDir)
                }
            },
            (SetupPhase::FirstArm, _) => self.ask(SetupPhase::FirstOpen, SetupAction::Open),
            (SetupPhase::FirstOpen, SetupEvent::Went(opened)) => {
                if opened {
                    self.next_round(CREATE_ATTEMPTS)
                } else {
                    self.ask(SetupPhase::Over, SetupAction::Exit(1))
                }
            },
            (SetupPhase::Probe { left }, SetupEvent::Went(crashed)) => {
                if crashed {
                    self.ask(SetupPhase::Drop { left }, SetupAction::DropCrashed)
                } else {
                    self.ask(
                        SetupPhase::Full { left },
                        SetupAction::Exec("PRAGMA synchronous=FULL".to_owned()),
                    )
                }
            },
            (SetupPhase::Drop { left }, _) => {
                self.ask(SetupPhase::Reopen { left }, SetupAction::Open)
            },
            (SetupPhase::Reopen { left }, SetupEvent::Went(opened)) => {
                if opened {
                    self.ask(SetupPhase::Rearm { left }, SetupAction::Arm)
                } else {
                    self.ask(SetupPhase::Over, SetupAction::Exit(1))
                }
            },
            (SetupPhase::Rearm { left }, _) => {
                self.ask(
                    SetupPhase::Full { left },
                    SetupAction::Exec("PRAGMA synchronous=FULL".to_owned()),
                )
            },
            (SetupPhase::Full { left }, _) => {
                self.ask(
                    SetupPhase::Create { left },
                    SetupAction::Exec(
                        "CREATE TABLE IF NOT EXISTS kv(id INTEGER PRIMARY KEY, n INTEGER, v TEXT)".to_owned(),
                    ),
                )
            },
            (SetupPhase::Create { left }, SetupEvent::Sql(r)) => self.created(left, r),
            (SetupPhase::Index { left }, _) => {
                self.ask(SetupPhase::Truncate { left }, SetupAction::Truncate)
            },
            (SetupPhase::Truncate { left }, SetupEvent::Truncated(err)) => {
                self.truncated(left, err)
            },
            (SetupPhase::DirSync { left, tries }, SetupEvent::Went(synced)) => {
                if synced {
                    let run = SetupRun { dirsynced: true, ..self };
                    run.ask(SetupPhase::Recheck { left }, SetupAction::Probe)
                } else {
                    self.ask(
                        SetupPhase::DirPause { left, tries },
                        SetupAction::Wait(DIRSYNC_RETRY_MS),
                    )
                }
            },
            (SetupPhase::DirPause { left, tries }, _) => {
                if tries == 0 {
                    self.ask(SetupPhase::Recheck { left }, SetupAction::Probe)
                } else {
                    self.ask(
                        SetupPhase::DirSync { left, tries: tries - 1 },
                        SetupAction::SyncDir,
                    )
                }
            },
            (SetupPhase::Recheck { left }, SetupEvent::Went(crashed)) => {
                self.rechecked(left, crashed)
            },
            (SetupPhase::Pause { left }, _) => self.next_round(left),
            (SetupPhase::Normal, _) => self.ask(SetupPhase::LastArm, SetupAction::Arm),
            (SetupPhase::LastArm, _) => {
                self.say(
                    SetupPhase::Over,
                    SetupAction::Ready,
                    if self.dirsynced {
                        "TURSO_DST_SETUP dirsynced=true"
                    } else {
                        "TURSO_DST_SETUP dirsynced=false"
                    },
                )
            },
            _ => self.ask(SetupPhase::Over, SetupAction::Ready),
        }
    }

    /// Whether the rounds and attempts that are left are among those there are.
    pub open spec fn wf(self) -> bool {
        match self.phase {
            SetupPhase::Mkdir { tries } => tries < MKDIR_ATTEMPTS,
            SetupPhase::MkdirPause { tries } => tries < MKDIR_ATTEMPTS,
            SetupPhase::Probe { left } => left < CREATE_ATTEMPTS,
            SetupPhase::Drop { left } => left < CREATE_ATTEMPTS,
            SetupPhase::Reopen { left } => left < CREATE_ATTEMPTS,
            SetupPhase::Rearm { left } => left < CREATE_ATTEMPTS,
            SetupPhase::Full { left } => left < CREATE_ATTEMPTS,
            SetupPhase::Create { left } => left < CREATE_ATTEMPTS,
            SetupPhase::Index { left } => left < CREATE_ATTEMPTS,
            SetupPhase::Truncate { left } => left < CREATE_ATTEMPTS,
            SetupPhase::DirSync { left, tries } => left < CREATE_ATTEMPTS && tries
                < DIRSYNC_ATTEMPTS,
            SetupPhase::DirPause { left, tries } => left < CREATE_ATTEMPTS && tries
                < DIRSYNC_ATTEMPTS,
            SetupPhase::Recheck { left } => left < CREATE_ATTEMPTS,
            SetupPhase::Pause { left } => left < CREATE_ATTEMPTS,
            _ => true,
        }
    }

    /// A bound on the turns that are left.
    pub open spec fn turns_left(self) -> int {
        let round = 2 * DIRSYNC_ATTEMPTS + 10;
        let rounds = 4 + round * CREATE_ATTEMPTS;
        match self.phase {
            SetupPhase::Start => rounds + 2 * MKDIR_ATTEMPTS + 3,
            SetupPhase::Mkdir { tries } => rounds + 2 * tries + 4,
            SetupPhase::MkdirPause { tries } => rounds + 2 * tries + 3,
            SetupPhase::FirstArm => rounds + 2,
            SetupPhase::FirstOpen => rounds + 1,
            SetupPhase::Probe { left } => 4 + round * left + round,
            SetupPhase::Drop { left } => 4 + round * left + round - 1,
            SetupPhase::Reopen { left } => 4 + round * left + round - 2,
            SetupPhase::Rearm { left } => 4 + round * left + round - 3,
            SetupPhase::Full { left } => 4 + round * left + round - 4,
            SetupPhase::Create { left } => 4 + round * left + round - 5,
            SetupPhase::Index { left } => 4 + round * left + round - 6,
            SetupPhase::Truncate { left } => 4 + round * left + round - 7,
            SetupPhase::DirSync { left, tries } => 4 + round * left + 2 * tries + 3,
            SetupPhase::DirPause { left, tries } => 4 + round * left + 2 * tries + 2,
            SetupPhase::Recheck { left } => 4 + round * left + 1,
            SetupPhase::Pause { left } => 4 + round * left + 1,
            SetupPhase::Normal => 2,
            SetupPhase::LastArm => 1,
            SetupPhase::Over => 0,
        }
    }
}

/// Every turn brings the end of setup closer.
pub proof fn law_every_turn_brings_the_end_closer(run: SetupRun, ev: SetupEventView)
    requires
        run.wf(),
        run.awaits(ev),
    ensures
        0 <= run.step(ev).run.turns_left() < run.turns_left(),
        run.step(ev).run.turns_left() == 0 <==> run.step(ev).run.phase is Over,
{
}

/// Setup ends well only after the table was created, no power cut was seen
/// after that, and the sentinel was armed again; with normal synchronization
/// only where that was asked for.
pub proof fn law_ready_only_on_a_schema_that_no_cut_has_hit(run: SetupRun, ev: SetupEventView)
    requires
        run.awaits(ev),
    ensures
        run.step(ev).action is Ready ==> run.phase is LastArm,
        run.step(ev).run.phase is LastArm ==> run.step(ev).action is Arm && (run.phase is Normal
            || (run.phase is Recheck && ev == SetupEventView::Went(false) && !run.normal)),
        run.step(ev).run.phase is Normal ==> run.normal && run.phase is Recheck && ev
            == SetupEventView::Went(false),
        run.step(ev).run.phase is Recheck ==> run.phase is Truncate || run.phase is DirSync
            || run.phase is DirPause,
        run.step(ev).run.phase is Truncate ==> run.phase is Index || (run.phase is Create
            && ev->Sql_0 is Ok),
        run.step(ev).run.phase is Index ==> run.phase is Create && ev->Sql_0 is Ok,
{
}

/// Whether the directory entries count as durable is what the last attempt to
/// sync the directory said.
pub proof fn law_dirsynced_is_what_the_last_sync_said(run: SetupRun, ev: SetupEventView)
    requires
        run.awaits(ev),
    ensures
        run.phase is DirSync && ev == SetupEventView::Went(true) ==> run.step(ev).run.dirsynced,
        run.phase is Truncate && run.want_dirsync ==> !run.step(ev).run.dirsynced,
        !(run.phase is DirSync) && !(run.phase is Truncate) ==> run.step(ev).run.dirsynced
            == run.dirsynced,
        run.phase is DirSync && ev == SetupEventView::Went(false) ==> run.step(ev).run.dirsynced
            == run.dirsynced,
{
}

/// The directory is created up to fifty times, ten milliseconds apart; then
/// setup gives up with a line and a code of its own.
pub proof fn law_directory_is_tried_again(run: SetupRun, went: bool, tries: u64)
    ensures
        run.phase is Start ==> {
            let step = run.step(SetupEventView::Start);
            &&& step.run == (SetupRun { phase: SetupPhase::Mkdir { tries: 49 }, ..run })
            &&& step.action is MakeDir
            &&& step.lines.len() == 0
        },
        run.phase == (SetupPhase::Mkdir { tries }) ==> {
            let step = run.step(SetupEventView::Went(went));
            &&& went ==> step.run.phase is FirstArm && step.action is Arm
            &&& !went ==> step.run.phase == (SetupPhase::MkdirPause { tries }) && step.action
                == SetupActionView::Wait(10)
            &&& step.lines.len() == 0
        },
        run.phase == (SetupPhase::MkdirPause { tries }) ==> {
            let step = run.step(SetupEventView::Went(went));
            &&& tries > 0 ==> step.run.phase == (SetupPhase::Mkdir { tries: (tries - 1) as u64 })
                && step.action is MakeDir && step.lines.len() == 0
            &&& tries == 0 ==> step.run.phase is Over && step.action == SetupActionView::Exit(3)
                && step.lines == seq!["TURSO_DST_SETUP_FAILED mkdir"@]
        },
{
}

/// The sentinel is armed before the first open; where the database cannot be
/// opened setup ends at once, else it has forty rounds to create the table.
pub proof fn law_database_is_opened_under_the_sentinel(run: SetupRun, went: bool)
    ensures
        run.phase is FirstArm ==> {
            let step = run.step(SetupEventView::Went(went));
            step.run.phase is FirstOpen && step.action is Open && step.lines.len() == 0
        },
        run.phase is FirstOpen ==> {
            let step = run.step(SetupEventView::Went(went));
            &&& step.lines.len() == 0
            &&& went ==> step.run.phase == (SetupPhase::Probe { left: 39 }) && step.action is Probe
            &&& !went ==> step.run.phase is Over && step.action == SetupActionView::Exit(1)
        },
{
}

/// What a round does: after a power cut the dead handles are dropped, the
/// database is opened and the sentinel armed again; then full synchronisation,
/// the table, the index where there is one, and a checkpoint. A table that could
/// not be created is noted, and there is another round after a pause, or the end
/// where none is left.
pub proof fn law_what_a_setup_round_does(
    run: SetupRun,
    left: u64,
    went: bool,
    r: Result<Cells, FailView>,
)
    ensures
        ({
            let full = SetupActionView::Exec("PRAGMA synchronous=FULL"@);
            &&& run.phase == (SetupPhase::Probe { left }) ==> {
                let step = run.step(SetupEventView::Went(went));
                &&& step.lines.len() == 0
                &&& went ==> step.run.phase == (SetupPhase::Drop { left })
                    && step.action is DropCrashed
                &&& !went ==> step.run.phase == (SetupPhase::Full { left }) && step.action == full
            }
            &&& run.phase == (SetupPhase::Drop { left }) ==> {
                let step = run.step(SetupEventView::Went(went));
                &&& step.run.phase == (SetupPhase::Reopen { left })
                &&& step.action is Open
            }
            &&& run.phase == (SetupPhase::Reopen { left }) ==> {
                let step = run.step(SetupEventView::Went(went));
                &&& went ==> step.run.phase == (SetupPhase::Rearm { left }) && step.action is Arm
                &&& !went ==> step.run.phase is Over && step.action == SetupActionView::Exit(1)
            }
            &&& run.phase == (SetupPhase::Rearm { left }) ==> {
                let step = run.step(SetupEventView::Went(went));
                &&& step.run.phase == (SetupPhase::Full { left })
                &&& step.action == full
            }
            &&& run.phase == (SetupPhase::Full { left }) ==> {
                let step = run.step(SetupEventView::Sql(r));
                &&& step.run.phase == (SetupPhase::Create { left })
                &&& step.action == SetupActionView::Exec(
                    "CREATE TABLE IF NOT EXISTS kv(id INTEGER PRIMARY KEY, n INTEGER, v TEXT)"@,
                )
            }
            &&& run.phase == (SetupPhase::Create { left }) ==> {
                let step = run.step(SetupEventView::Sql(r));
                match r {
                    Ok(_) => {
                        &&& step.lines.len() == 0
                        &&& run.with_index ==> step.run.phase == (SetupPhase::Index { left })
                            && step.action == SetupActionView::Exec(
                            "CREATE INDEX IF NOT EXISTS kv_n ON kv(n)"@,
                        )
                        &&& !run.with_index ==> step.run.phase == (SetupPhase::Truncate { left })
                            && step.action is Truncate
                    },
                    Err(e) => {
                        &&& step.run.phase == (SetupPhase::Pause { left })
                        &&& step.action == SetupActionView::Wait(20)
                        &&& step.lines == seq![
                            "note: setup create failed: Some("@ + e.wording() + ")"@,
                        ]
                    },
                }
            }
            &&& run.phase == (SetupPhase::Index { left }) ==> {
                let step = run.step(SetupEventView::Sql(r));
                step.run.phase == (SetupPhase::Truncate { left }) && step.action is Truncate
            }
            &&& run.phase == (SetupPhase::Pause { left }) ==> {
                let step = run.step(SetupEventView::Went(went));
                &&& left > 0 ==> step.run.phase == (SetupPhase::Probe { left: (left - 1) as u64 })
                    && step.action is Probe && step.lines.len() == 0
                &&& left == 0 ==> step.run.phase is Over && step.action == SetupActionView::Exit(3)
                    && step.lines == seq!["TURSO_DST_SETUP_FAILED create-table"@]
            }
        }),
{
}

/// After the checkpoint, which may fail with a note, the directory is synced up
/// to twenty times, ten milliseconds apart, where that is wanted; then setup
/// looks once more for a power cut.
pub proof fn law_directory_is_synced_where_wanted(
    run: SetupRun,
    left: u64,
    tries: u64,
    went: bool,
    err: Option<Seq<char>>,
)
    ensures
        run.phase == (SetupPhase::Truncate { left }) ==> {
            let step = run.step(SetupEventView::Truncated(err));
            &&& run.want_dirsync ==> step.run.phase == (SetupPhase::DirSync { left, tries: 19 })
                && step.action is SyncDir
            &&& !run.want_dirsync ==> step.run.phase == (SetupPhase::Recheck { left })
                && step.action is Probe
            &&& match err {
                Some(e) => step.lines == seq!["note: setup checkpoint skipped: "@ + e],
                None => step.lines.len() == 0,
            }
        },
        run.phase == (SetupPhase::DirSync { left, tries }) ==> {
            let step = run.step(SetupEventView::Went(went));
            &&& went ==> step.run.phase == (SetupPhase::Recheck { left }) && step.action is Probe
            &&& !went ==> step.run.phase == (SetupPhase::DirPause { left, tries }) && step.action
                == SetupActionView::Wait(10)
        },
        run.phase == (SetupPhase::DirPause { left, tries }) ==> {
            let step = run.step(SetupEventView::Went(went));
            &&& tries == 0 ==> step.run.phase == (SetupPhase::Recheck { left })
                && step.action is Probe
            &&& tries > 0 ==> step.run.phase == (SetupPhase::DirSync {
                left,
                tries: (tries - 1) as u64,
            }) && step.action is SyncDir
        },
{
}

/// How setup ends: a power cut that was seen last costs a round; without one the
/// synchronisation of the run is set, the sentinel is armed, and the last line
/// tells whether the directory entries are durable.
pub proof fn law_setup_ends(run: SetupRun, left: u64, went: bool, r: Result<Cells, FailView>)
    ensures
        run.phase == (SetupPhase::Recheck { left }) ==> {
            let step = run.step(SetupEventView::Went(went));
            &&& went && left > 0 ==> {
                &&& step.run.phase == SetupPhase::Probe { left: (left - 1) as u64 }
                &&& step.action is Probe
                &&& step.lines == seq!["note: setup hit a power cut; redoing setup"@]
            }
            &&& went && left == 0 ==> {
                &&& step.run.phase is Over
                &&& step.action == SetupActionView::Exit(3)
                &&& step.lines == seq![
                    "note: setup hit a power cut; redoing setup"@,
                    "TURSO_DST_SETUP_FAILED create-table"@,
                ]
            }
            &&& !went && run.normal ==> {
                &&& step.run.phase is Normal
                &&& step.action == SetupActionView::Exec("PRAGMA synchronous=NORMAL"@)
            }
            &&& !went && !run.normal ==> step.run.phase is LastArm && step.action is Arm
        },
        run.phase is Normal ==> {
            let step = run.step(SetupEventView::Sql(r));
            step.run.phase is LastArm && step.action is Arm
        },
        run.phase is LastArm ==> {
            let step = run.step(SetupEventView::Went(went));
            &&& step.run.phase is Over
            &&& step.action is Ready
            &&& step.lines == seq![
                "TURSO_DST_SETUP dirsynced="@ + (if run.dirsynced {
                    "true"@
                } else {
                    "false"@
                }),
            ]
        },
{
    reveal_strlit("TURSO_DST_SETUP dirsynced=");
    reveal_strlit("TURSO_DST_SETUP dirsynced=true");
    reveal_strlit("TURSO_DST_SETUP dirsynced=false");
    reveal_strlit("true");
    reveal_strlit("false");
    assert("TURSO_DST_SETUP dirsynced="@ + "true"@ =~= "TURSO_DST_SETUP dirsynced=true"@);
    assert("TURSO_DST_SETUP dirsynced="@ + "false"@ =~= "TURSO_DST_SETUP dirsynced=false"@);
    if run.phase == (SetupPhase::Recheck { left }) && went && left == 0 {
        assert(run.step(SetupEventView::Went(went)).lines =~= seq![
            "note: setup hit a power cut; redoing setup"@,
            "TURSO_DST_SETUP_FAILED create-table"@,
        ]);
    }
    if run.phase == (SetupPhase::Recheck { left }) && went && left > 0 {
        assert(run.step(SetupEventView::Went(went)).lines =~= seq![
            "note: setup hit a power cut; redoing setup"@,
        ]);
    }
}

/// No turn of setup changes what the run asked for.
pub proof fn law_setup_keeps_what_was_asked_for(run: SetupRun, ev: SetupEventView)
    ensures
        run.step(ev).run.with_index == run.with_index,
        run.step(ev).run.normal == run.normal,
        run.step(ev).run.want_dirsync == run.want_dirsync,
{
}

} // verus!
