//! The run itself: epochs of transactions, with reader windows, checkpoints,
//! integrity checks and power cuts between them, and a restart after each.
//!
//! The run is a state machine. Each turn says what is to be done next; the
//! caller does it and hands back what came of it.

use crate::checkpoint;
use crate::checkpoint::{draw_mode, settle, CheckpointEvent, Mode};
use crate::config::Config;
use crate::diff;
use crate::diff::{can_show, describe_diff, files_line};
use crate::exec;
use crate::exec::{Cells, Fail, FailView};
use crate::log;
use crate::log::{Cover, Log, SayingView};
use crate::model::{History, HistoryView};
use crate::prng;
use crate::reader;
use crate::reader::{check_window, ReaderWindow};
use crate::reopen;
use crate::report;
use crate::report::{listed, violation, ViolationView};
use crate::rows;
use crate::rows::check_integrity;
use crate::stats;
use crate::stats::{Counts, Stats};
use crate::table;
use crate::table::{digest_model, row_count, Model, Table};
use crate::text;
use crate::text::{has_text, join2, push_hex, push_unsigned};
use crate::tx::{OutcomeView, TxOutcome};
use crate::workload::{WorkView, Workload};
use vstd::prelude::*;
use vstd::string::*;

verus! {

/// How often the live table is read before an uncertain commit stays open.
pub const RESOLVE_ATTEMPTS: u64 = 12;

/// How long to wait before it is read again, in milliseconds.
pub const RESOLVE_RETRY_MS: u64 = 10;

/// How long to wait when the engine is busy, in milliseconds.
pub const BUSY_MS: u64 = 5;

/// After how many failures in a row the database is opened anew.
pub const MAX_FAILURES: u32 = 6;

/// What the run is waiting for.
pub enum Phase {
    /// To begin.
    Start,
    /// The background thread.
    Spawn,
    /// A second look through the reader window; `end` tells whether the epoch
    /// is ending.
    WindowRead { window: ReaderWindow, end: bool },
    /// The end of the read transaction.
    WindowEnd { end: bool },
    /// A new reader window.
    WindowOpen,
    /// The power cut between two transactions.
    CutBetween,
    /// The live table, to settle an uncertain commit.
    Resolve { left: u64 },
    /// The end of a pause before it is read again.
    ResolvePause { left: u64 },
    /// The lengths of the files, after an uncertain commit has left neither
    /// state.
    ResolveDiff,
    /// The outcome of a transaction.
    Tx,
    /// Whether the power was cut inside the transaction.
    TxProbe { outcome: TxOutcome },
    /// The live table, right after an uncertain commit.
    LiveRead { pre_rows: usize },
    /// The end of a pause after the engine was busy.
    BusyPause,
    /// The live table, for the periodic check.
    Periodic,
    /// The lengths of the files, after a periodic check has failed.
    PeriodicDiff,
    /// The outcome of a checkpoint.
    Checkpoint { mode: Mode },
    /// Whether the power was cut inside the checkpoint.
    CheckpointProbe,
    /// The outcome of an integrity check.
    Integrity,
    /// The end of the background thread.
    Join,
    /// Whether the power was cut meanwhile.
    EndProbe,
    /// The power cut at a quiet point.
    CutQuiet,
    /// The end of dropping the handles.
    Dropped,
    /// Whether the database could be opened.
    Open,
    /// Whether what it holds could be read.
    Reopen,
    /// The end of arming the sentinel.
    Arm,
    /// Nothing more.
    Over,
}

/// What the run is waiting for, as a mathematical value.
pub enum PhaseView {
    Start,
    Spawn,
    WindowRead { window: ReaderWindow, end: bool },
    WindowEnd { end: bool },
    WindowOpen,
    CutBetween,
    Resolve { left: u64 },
    ResolvePause { left: u64 },
    ResolveDiff,
    Tx,
    TxProbe { outcome: OutcomeView },
    LiveRead { pre_rows: usize },
    BusyPause,
    Periodic,
    PeriodicDiff,
    Checkpoint { mode: Mode },
    CheckpointProbe,
    Integrity,
    Join,
    EndProbe,
    CutQuiet,
    Dropped,
    Open,
    Reopen,
    Arm,
    Over,
}

impl View for Phase {
    type V = PhaseView;

    open spec fn view(&self) -> PhaseView {
        match self {
            Phase::Start => PhaseView::Start,
            Phase::Spawn => PhaseView::Spawn,
            Phase::WindowRead { window, end } => PhaseView::WindowRead {
                window: *window,
                end: *end,
            },
            Phase::WindowEnd { end } => PhaseView::WindowEnd { end: *end },
            Phase::WindowOpen => PhaseView::WindowOpen,
            Phase::CutBetween => PhaseView::CutBetween,
            Phase::Resolve { left } => PhaseView::Resolve { left: *left },
            Phase::ResolvePause { left } => PhaseView::ResolvePause { left: *left },
            Phase::ResolveDiff => PhaseView::ResolveDiff,
            Phase::Tx => PhaseView::Tx,
            Phase::TxProbe { outcome } => PhaseView::TxProbe { outcome: outcome@ },
            Phase::LiveRead { pre_rows } => PhaseView::LiveRead { pre_rows: *pre_rows },
            Phase::BusyPause => PhaseView::BusyPause,
            Phase::Periodic => PhaseView::Periodic,
            Phase::PeriodicDiff => PhaseView::PeriodicDiff,
            Phase::Checkpoint { mode } => PhaseView::Checkpoint { mode: *mode },
            Phase::CheckpointProbe => PhaseView::CheckpointProbe,
            Phase::Integrity => PhaseView::Integrity,
            Phase::Join => PhaseView::Join,
            Phase::EndProbe => PhaseView::EndProbe,
            Phase::CutQuiet => PhaseView::CutQuiet,
            Phase::Dropped => PhaseView::Dropped,
            Phase::Open => PhaseView::Open,
            Phase::Reopen => PhaseView::Reopen,
            Phase::Arm => PhaseView::Arm,
            Phase::Over => PhaseView::Over,
        }
    }
}

/// What came of an action.
pub enum Event {
    /// The run is to begin.
    Start,
    /// An action that has no outcome is done.
    Done,
    /// Whether the power was cut, the database could be opened, or what it
    /// holds could be read.
    Went(bool),
    /// A reader window, if it could be opened.
    Window(Option<ReaderWindow>),
    /// The digest and the number of rows that the reading connection shows.
    Digest(Result<(u64, usize), Fail>),
    /// The table that the writing connection shows.
    Read(Result<Model, Fail>),
    /// The outcome of a transaction, and whether the power was cut in it.
    Tx(TxOutcome, bool),
    /// The outcome of a checkpoint.
    Checkpointed(CheckpointEvent),
    /// What a statement gave.
    Sql(Result<Vec<Vec<String>>, Fail>),
    /// What the background thread has counted, if it could be joined.
    Joined(Option<Stats>),
    /// The lengths of the database and of its log, where they exist.
    Lengths(Option<u64>, Option<u64>),
}

/// What came of an action, as a mathematical value.
pub enum EventView {
    Start,
    Done,
    Went(bool),
    Window(Option<ReaderWindow>),
    Digest(Result<(u64, usize), FailView>),
    Read(Result<Table, FailView>),
    Tx(OutcomeView, bool),
    Checkpointed(CheckpointEvent),
    Sql(Result<Cells, FailView>),
    Joined(Option<Counts>),
    Lengths(Option<u64>, Option<u64>),
}

impl View for Event {
    type V = EventView;

    open spec fn view(&self) -> EventView {
        match self {
            Event::Start => EventView::Start,
            Event::Done => EventView::Done,
            Event::Went(b) => EventView::Went(*b),
            Event::Window(w) => EventView::Window(*w),
            Event::Digest(r) => EventView::Digest(reader::digest_view(*r)),
            Event::Read(r) => EventView::Read(reopen::read_view(*r)),
            Event::Tx(outcome, crashed) => EventView::Tx(outcome@, *crashed),
            Event::Checkpointed(ev) => EventView::Checkpointed(*ev),
            Event::Sql(r) => EventView::Sql(exec::result_view(*r)),
            Event::Joined(Some(s)) => EventView::Joined(Some(s@)),
            Event::Joined(None) => EventView::Joined(None),
            Event::Lengths(db, wal) => EventView::Lengths(*db, *wal),
        }
    }
}

impl Event {
    /// Whether the counters that come with an event are in order.
    pub open spec fn wf(self) -> bool {
        self matches Event::Joined(Some(s)) ==> s.wf()
    }
}

/// What is to be done next.
#[derive(Debug)]
pub enum Action {
    /// Start the background thread at a seed.
    SpawnBg(u64),
    /// Read the table on the reading connection and digest it.
    ReadReader,
    /// Run a statement on the reading connection, whatever comes of it.
    ExecReader(String),
    /// Open a reader window.
    OpenWindow,
    /// Cut the power.
    PowerCut,
    /// Read the table on the writing connection.
    ReadModel,
    /// Wait so many milliseconds.
    Wait(u64),
    /// Look up the lengths of the files.
    FileLengths,
    /// Run a transaction on the oracle's table; the flag tells whether the
    /// power is to be cut in its middle.
    RunTx(bool),
    /// Ask the sentinel whether the power was cut.
    Probe,
    /// Run a checkpoint.
    Checkpoint(Mode),
    /// Run the integrity check on the writing connection.
    CheckIntegrity,
    /// Stop the background thread and wait for it.
    JoinBg,
    /// Close the connections, then drop every handle.
    CloseDb,
    /// Drop every handle; the flag tells whether the power was cut.
    DropDb(bool),
    /// Open the database.
    Open,
    /// Hold the reopened database against the oracle; the flag tells whether
    /// the power was cut.
    CheckReopened(bool),
    /// Arm the sentinel.
    Arm,
    /// The run is over.
    Finish,
}

/// What is to be done next, as a mathematical value.
pub enum ActionView {
    SpawnBg(u64),
    ReadReader,
    ExecReader(Seq<char>),
    OpenWindow,
    PowerCut,
    ReadModel,
    Wait(u64),
    FileLengths,
    RunTx(bool),
    Probe,
    Checkpoint(Mode),
    CheckIntegrity,
    JoinBg,
    CloseDb,
    DropDb(bool),
    Open,
    CheckReopened(bool),
    Arm,
    Finish,
}

impl View for Action {
    type V = ActionView;

    open spec fn view(&self) -> ActionView {
        match self {
            Action::SpawnBg(seed) => ActionView::SpawnBg(*seed),
            Action::ReadReader => ActionView::ReadReader,
            Action::ExecReader(sql) => ActionView::ExecReader(sql@),
            Action::OpenWindow => ActionView::OpenWindow,
            Action::PowerCut => ActionView::PowerCut,
            Action::ReadModel => ActionView::ReadModel,
            Action::Wait(ms) => ActionView::Wait(*ms),
            Action::FileLengths => ActionView::FileLengths,
            Action::RunTx(mid) => ActionView::RunTx(*mid),
            Action::Probe => ActionView::Probe,
            Action::Checkpoint(mode) => ActionView::Checkpoint(*mode),
            Action::CheckIntegrity => ActionView::CheckIntegrity,
            Action::JoinBg => ActionView::JoinBg,
            Action::CloseDb => ActionView::CloseDb,
            Action::DropDb(crashed) => ActionView::DropDb(*crashed),
            Action::Open => ActionView::Open,
            Action::CheckReopened(crashed) => ActionView::CheckReopened(*crashed),
            Action::Arm => ActionView::Arm,
            Action::Finish => ActionView::Finish,
        }
    }
}

/// One turn of the run: what is to be done, and what there is to say.
pub struct Turn {
    pub action: Action,
    pub log: Log,
}

/// A run.
pub struct Driver {
    pub phase: Phase,
    pub cfg: Config,
    pub hist: History,
    pub wl: Workload,
    pub epoch: u64,
    /// The transaction of the epoch.
    pub t: u64,
    /// Whether the power was cut in this epoch.
    pub crashed: bool,
    /// Whether the power was to be cut in this epoch and could not be.
    pub cut_missed: bool,
    pub window: Option<ReaderWindow>,
    /// Whether the writer has committed since the reader window was opened.
    pub saw_commit: bool,
    /// Whether the background thread runs.
    pub bg: bool,
    /// Before which transaction the power is cut, if it is.
    pub crash_at: Option<u64>,
    pub epochs_done: u64,
    pub crashes: u64,
    /// How many transactions have failed in a row.
    pub failures: u32,
}

/// A run, as a mathematical value.
#[verifier::ext_equal]
pub struct DriverView {
    pub phase: PhaseView,
    pub cfg: Config,
    pub hist: HistoryView,
    pub work: WorkView,
    pub epoch: u64,
    pub t: u64,
    pub crashed: bool,
    pub cut_missed: bool,
    pub window: Option<ReaderWindow>,
    pub saw_commit: bool,
    pub bg: bool,
    pub crash_at: Option<u64>,
    pub epochs_done: u64,
    pub crashes: u64,
    pub failures: u32,
}

impl View for Driver {
    type V = DriverView;

    open spec fn view(&self) -> DriverView {
        DriverView {
            phase: self.phase@,
            cfg: self.cfg,
            hist: self.hist@,
            work: self.wl@,
            epoch: self.epoch,
            t: self.t,
            crashed: self.crashed,
            cut_missed: self.cut_missed,
            window: self.window,
            saw_commit: self.saw_commit,
            bg: self.bg,
            crash_at: self.crash_at,
            epochs_done: self.epochs_done,
            crashes: self.crashes,
            failures: self.failures,
        }
    }
}

/// Things said.
pub type Said = Seq<SayingView>;

/// One turn of the run, as a mathematical value.
#[verifier::ext_equal]
pub struct Step {
    pub run: DriverView,
    pub action: ActionView,
    pub said: Said,
    /// Whether every counter stays within 64 bits, and every value that is
    /// shown can be cut where it is shown.
    pub fits: bool,
}

impl Step {
    /// The turn, with one more thing that it needs in order to fit.
    pub open spec fn need(self, what: bool) -> Step {
        Step { fits: self.fits && what, ..self }
    }
}

/// The name of a commit: its epoch and its transaction.
pub open spec fn tx_name(epoch: u64, t: u64) -> Seq<char> {
    "e"@ + text::decimal(epoch as int) + "t"@ + text::decimal(t as int)
}

/// Epoch and transaction as a line begins with them.
pub open spec fn tx_line(epoch: u64, t: u64) -> Seq<char> {
    "note: e"@ + text::decimal(epoch as int) + " t"@ + text::decimal(t as int)
}

/// What is said where an uncertain commit has left neither state, right after
/// it.
pub open spec fn neither_after(h: HistoryView, live: Table, pre_rows: usize) -> SayingView {
    SayingView::Broken(
        ViolationView {
            label: "uncertain-commit-left-neither-state"@,
            detail: "live rows="@ + text::decimal(live.len() as int) + " pre rows="@
                + text::decimal(pre_rows as int) + " post rows="@ + text::decimal(
                h.snaps.last().rows as int,
            ),
        },
    )
}

/// What is said where an uncertain commit has left neither state, later on.
pub open spec fn neither_later(h: HistoryView, live: Table) -> SayingView {
    SayingView::Broken(
        ViolationView {
            label: "uncertain-commit-left-neither-state"@,
            detail: "live rows="@ + text::decimal(live.len() as int) + " last rows="@
                + text::decimal(h.snaps.last().rows as int),
        },
    )
}

/// What is said where a live table is not the committed one.
pub open spec fn mismatch(h: HistoryView, live: Table) -> SayingView {
    SayingView::Broken(
        ViolationView {
            label: "committed-state-mismatch"@,
            detail: "live rows="@ + text::decimal(live.len() as int) + " digest="@
                + text::hexadecimal(table::table_digest(live) as nat) + " expected "@
                + text::hexadecimal(h.snaps.last().digest as nat) + " rows="@ + text::decimal(
                h.snaps.last().rows as int,
            ),
        },
    )
}

/// The line on the lengths of the files.
pub open spec fn files_said(db: Option<u64>, wal: Option<u64>) -> SayingView {
    SayingView::Line("TURSO_DST_DIFF files: "@ + diff::lengths_text(db, wal))
}

impl DriverView {
    /// A turn that asks for something.
    pub open spec fn ask(self, phase: PhaseView, action: ActionView, said: Said) -> Step {
        Step { run: DriverView { phase, ..self }, action, said, fits: true }
    }

    /// The run with one more thing of a kind counted.
    pub open spec fn bumped(self, k: Seq<char>) -> Self {
        DriverView { work: self.work.bumped(k), ..self }
    }

    /// Whether one more thing of a kind can be counted.
    pub open spec fn room(self, k: Seq<char>) -> bool {
        stats::has_room(self.work.stats, k, 1)
    }

    /// The run with one draw taken.
    pub open spec fn drawn(self) -> Self {
        DriverView { work: self.work.drawn(), ..self }
    }

    /// Whether a draw hits.
    pub open spec fn hits(self, permille: u64) -> bool {
        prng::prng_hit(self.work.rng, permille)
    }

    /// The run with a power cut accounted for.
    pub open spec fn with_crash(self) -> Self {
        DriverView { crashed: true, crashes: (self.crashes + 1) as u64, ..self }
    }

    /// The beginning of an epoch, or the end of the run.
    #[verifier::opaque]
    pub open spec fn begin_epoch(self, said: Said) -> Step {
        let fresh = DriverView {
            crashed: false,
            cut_missed: false,
            window: None,
            saw_commit: false,
            ..self
        };
        if self.epoch >= self.cfg.epochs {
            self.ask(PhaseView::Over, ActionView::Finish, said)
        } else if self.hits(self.cfg.bg_thread_permille) {
            let on = fresh.drawn().bumped("bg-thread-spawned"@);
            (DriverView { bg: true, ..on.drawn() }).ask(
                PhaseView::Spawn,
                ActionView::SpawnBg(prng::prng_draw(on.work.rng)),
                said,
            ).need(self.room("bg-thread-spawned"@))
        } else {
            (DriverView { bg: false, ..fresh.drawn() }).plan_crash(said)
        }
    }

    /// Whether and where the power is cut between two transactions.
    #[verifier::opaque]
    pub open spec fn plan_crash(self, said: Said) -> Step {
        if self.hits(self.cfg.crash_permille) {
            let on = self.drawn();
            (DriverView {
                crash_at: Some(prng::prng_pick(on.work.rng, 0, self.cfg.txs_per_epoch)),
                t: 0,
                ..on.drawn()
            }).tx_head(said)
        } else {
            (DriverView { crash_at: None, t: 0, ..self.drawn() }).tx_head(said)
        }
    }

    /// The beginning of a transaction, or the end of the epoch: an open reader
    /// window is ended first.
    #[verifier::opaque]
    pub open spec fn tx_head(self, said: Said) -> Step {
        if self.t >= self.cfg.txs_per_epoch {
            self.end_epoch(said)
        } else {
            match self.window {
                Some(window) => (DriverView { window: None, ..self }).ask(
                    PhaseView::WindowRead { window, end: false },
                    ActionView::ReadReader,
                    said,
                ),
                None => self.window_chance(said),
            }
        }
    }

    /// Sometimes a new reader window is opened.
    #[verifier::opaque]
    pub open spec fn window_chance(self, said: Said) -> Step {
        if self.hits(self.cfg.reader_window_permille) {
            self.drawn().ask(PhaseView::WindowOpen, ActionView::OpenWindow, said)
        } else {
            self.drawn().crash_check(said)
        }
    }

    /// The power is cut where it is due.
    #[verifier::opaque]
    pub open spec fn crash_check(self, said: Said) -> Step {
        if self.crash_at == Some(self.t) {
            self.bumped("crash-between-tx"@).ask(
                PhaseView::CutBetween,
                ActionView::PowerCut,
                said,
            ).need(self.room("crash-between-tx"@))
        } else {
            self.settle_shadow(said)
        }
    }

    /// An uncertain commit is settled before the next transaction is built on
    /// top of it.
    #[verifier::opaque]
    pub open spec fn settle_shadow(self, said: Said) -> Step {
        if self.hist.shadow is Some {
            self.ask(
                PhaseView::Resolve { left: RESOLVE_ATTEMPTS },
                ActionView::ReadModel,
                said,
            )
        } else {
            self.start_tx(said)
        }
    }

    /// A transaction; the last one of an epoch without a planned power cut is
    /// sometimes cut in its middle.
    #[verifier::opaque]
    pub open spec fn start_tx(self, said: Said) -> Step {
        let mid = self.hits(self.cfg.mid_tx_crash_permille) && self.crash_at is None && self.t + 1
            == self.cfg.txs_per_epoch;
        self.drawn().ask(
            PhaseView::Tx,
            ActionView::RunTx(mid),
            said.push(
                SayingView::Line(
                    tx_line(self.epoch, self.t) + " tx start (rows="@ + text::decimal(
                        self.hist.table.len() as int,
                    ) + ")"@,
                ),
            ),
        )
    }

    /// What happens after a transaction: where the engine makes no progress the
    /// database is opened anew, else the live table is sometimes checked.
    #[verifier::opaque]
    pub open spec fn progress(self, said: Said) -> Step {
        if self.failures >= MAX_FAILURES {
            (DriverView { failures: 0, ..self.bumped("forced-reopen"@) }).end_epoch(said).need(
                self.room("forced-reopen"@),
            )
        } else if self.hits(250) {
            self.drawn().ask(PhaseView::Periodic, ActionView::ReadModel, said)
        } else {
            self.drawn().checkpoint_chance(said)
        }
    }

    /// Sometimes there is a checkpoint.
    #[verifier::opaque]
    pub open spec fn checkpoint_chance(self, said: Said) -> Step {
        let on = self.drawn();
        let mode = checkpoint::mode_drawn(on.work.rng);
        if self.hits(self.cfg.checkpoint_permille) {
            on.drawn().ask(
                PhaseView::Checkpoint { mode },
                ActionView::Checkpoint(mode),
                said.push(SayingView::Line("note: checkpoint "@ + mode.name() + " start"@)),
            )
        } else {
            on.integrity_chance(said)
        }
    }

    /// Sometimes there is an integrity check.
    #[verifier::opaque]
    pub open spec fn integrity_chance(self, said: Said) -> Step {
        if self.hits(self.cfg.integrity_permille) {
            self.drawn().ask(PhaseView::Integrity, ActionView::CheckIntegrity, said)
        } else {
            self.drawn().next_tx(said)
        }
    }

    /// The next transaction.
    #[verifier::opaque]
    pub open spec fn next_tx(self, said: Said) -> Step {
        (DriverView { t: (self.t + 1) as u64, ..self }).tx_head(said)
    }

    /// The end of an epoch: the background thread is joined first.
    #[verifier::opaque]
    pub open spec fn end_epoch(self, said: Said) -> Step {
        if self.bg {
            (DriverView { bg: false, ..self }).ask(PhaseView::Join, ActionView::JoinBg, said)
        } else {
            self.end_probe(said)
        }
    }

    /// A power cut that the background thread made is accounted for.
    #[verifier::opaque]
    pub open spec fn end_probe(self, said: Said) -> Step {
        if self.crashed {
            self.end_window(said)
        } else {
            self.ask(PhaseView::EndProbe, ActionView::Probe, said)
        }
    }

    /// An open reader window is ended, unless the power was cut.
    #[verifier::opaque]
    pub open spec fn end_window(self, said: Said) -> Step {
        let closed = DriverView { window: None, ..self };
        match self.window {
            Some(window) => if self.crashed {
                closed.restart(said)
            } else {
                closed.ask(
                    PhaseView::WindowRead { window, end: true },
                    ActionView::ReadReader,
                    said,
                )
            },
            None => closed.restart(said),
        }
    }

    /// The restart: after a power cut the handles are dropped, and so they are
    /// where the power was to be cut and could not be; else they are closed,
    /// dropped, or lost to a power cut at a quiet point.
    #[verifier::opaque]
    pub open spec fn restart(self, said: Said) -> Step {
        let on = DriverView { epochs_done: (self.epochs_done + 1) as u64, ..self };
        let fits = self.epochs_done < u64::MAX;
        let n = prng::prng_pick(self.work.rng, 0, 2);
        if self.crashed {
            on.ask(PhaseView::Dropped, ActionView::DropDb(true), said).need(fits)
        } else if self.cut_missed {
            on.ask(PhaseView::Dropped, ActionView::DropDb(false), said).need(fits)
        } else if n == 0 {
            on.drawn().bumped("clean-close"@).ask(
                PhaseView::Dropped,
                ActionView::CloseDb,
                said,
            ).need(fits && self.room("clean-close"@))
        } else if n == 1 {
            on.drawn().bumped("drop-without-close"@).ask(
                PhaseView::Dropped,
                ActionView::DropDb(false),
                said,
            ).need(fits && self.room("drop-without-close"@))
        } else {
            on.drawn().bumped("crash-at-quiet-point"@).ask(
                PhaseView::CutQuiet,
                ActionView::PowerCut,
                said,
            ).need(fits && self.room("crash-at-quiet-point"@))
        }
    }

    /// A second look through the reader window.
    #[verifier::opaque]
    pub open spec fn on_window_read(
        self,
        window: ReaderWindow,
        end: bool,
        r: Result<(u64, usize), FailView>,
    ) -> Step {
        let verdict = reader::window_verdict(window, r, self.saw_commit);
        self.ask(
            PhaseView::WindowEnd { end },
            ActionView::ExecReader(verdict.end),
            log::broken_said(verdict.violations) + log::reached_said(
                Cover::ReaderHeldSnapshotAcrossCommit,
                verdict.held_across_commit,
            ) + log::note_said(verdict.note),
        )
    }

    /// The live table, read to settle an uncertain commit.
    #[verifier::opaque]
    pub open spec fn on_resolve(self, r: Result<Table, FailView>, left: u64) -> Step {
        match r {
            Ok(live) => if self.hist.live(live) {
                (DriverView { hist: self.hist.resolved(live), ..self }).start_tx(Seq::empty())
            } else {
                (DriverView { hist: self.hist.reset(live), ..self }).ask(
                    PhaseView::ResolveDiff,
                    ActionView::FileLengths,
                    seq![neither_later(self.hist, live)] + log::lines_said(
                        diff::diff_lines(self.hist, live),
                    ),
                ).need(diff::showable(live) && diff::showable(self.hist.table))
            },
            Err(_) => self.ask(
                PhaseView::ResolvePause { left: (left - 1) as u64 },
                ActionView::Wait(RESOLVE_RETRY_MS),
                Seq::empty(),
            ),
        }
    }

    /// After a pause: the live table is read again, or the process restarts (a
    /// reopen is held against both candidates).
    #[verifier::opaque]
    pub open spec fn on_resolve_pause(self, left: u64) -> Step {
        if left == 0 {
            self.bumped("forced-reopen-unresolved-commit"@).end_epoch(Seq::empty()).need(
                self.room("forced-reopen-unresolved-commit"@),
            )
        } else {
            self.ask(PhaseView::Resolve { left }, ActionView::ReadModel, Seq::empty())
        }
    }

    /// The oracle after a transaction in which the engine has cut the power: a
    /// commit that was reported as done is on the observed path; one whose
    /// outcome is uncertain may or may not be.
    pub open spec fn heard_crash(self, outcome: OutcomeView) -> HistoryView {
        match outcome {
            OutcomeView::Committed(t) => self.hist.committed(
                t,
                true,
                tx_name(self.epoch, self.t),
            ),
            OutcomeView::Uncertain(t) => self.hist.committed_uncertain(
                t,
                tx_name(self.epoch, self.t) + "!"@,
            ),
            _ => self.hist,
        }
    }

    /// The outcome of a transaction in which the engine has cut the power.
    #[verifier::opaque]
    pub open spec fn on_engine_crash(self, outcome: OutcomeView) -> Step {
        (DriverView {
            hist: self.heard_crash(outcome),
            ..self.bumped("crash-detected-in-engine"@).with_crash()
        }).end_epoch(seq![SayingView::Reached(Cover::EnginePowerCutDetected, true)]).need(
            self.room("crash-detected-in-engine"@) && self.crashes < u64::MAX,
        )
    }

    /// A transaction that was abandoned.
    #[verifier::opaque]
    pub open spec fn on_aborted(self, why: Seq<char>) -> Step {
        let on = DriverView {
            failures: (self.failures + 1) as u32,
            ..self.bumped("tx-aborted"@)
        };
        let said = seq![SayingView::Line("note: tx aborted: "@ + why)];
        let step = if text::holds(why, "Stuck"@) {
            on.ask(
                PhaseView::Over,
                ActionView::Finish,
                said.push(
                    SayingView::Broken(ViolationView { label: "statement-stuck"@, detail: why }),
                ),
            )
        } else if text::holds(why, "Panic"@) {
            on.progress(
                said.push(
                    SayingView::Broken(
                        ViolationView { label: "panic-in-statement"@, detail: why },
                    ),
                ),
            )
        } else {
            on.progress(said)
        };
        step.need(self.room("tx-aborted"@))
    }

    /// The outcome of a transaction.
    #[verifier::opaque]
    pub open spec fn on_outcome(self, outcome: OutcomeView) -> Step {
        match outcome {
            OutcomeView::Committed(t) => (DriverView {
                failures: 0,
                hist: self.hist.committed(t, true, tx_name(self.epoch, self.t)),
                saw_commit: true,
                ..self.bumped("tx-committed"@)
            }).progress(
                seq![
                    SayingView::Line(
                        tx_line(self.epoch, self.t) + " committed rows="@ + text::decimal(
                            t.len() as int,
                        ),
                    ),
                ],
            ).need(self.room("tx-committed"@)),
            OutcomeView::RolledBack => (DriverView {
                failures: 0,
                ..self.bumped("tx-rolled-back"@)
            }).progress(Seq::empty()).need(self.room("tx-rolled-back"@)),
            OutcomeView::Uncertain(t) => (DriverView {
                hist: self.hist.committed_uncertain(t, tx_name(self.epoch, self.t) + "?"@),
                ..self.bumped("tx-uncertain"@)
            }).ask(
                PhaseView::LiveRead { pre_rows: self.hist.table.len() as usize },
                ActionView::ReadModel,
                seq![SayingView::Reached(Cover::CommitOutcomeUncertain, true)],
            ).need(self.room("tx-uncertain"@)),
            OutcomeView::Aborted(why) => self.on_aborted(why),
            OutcomeView::Busy => self.bumped("tx-busy"@).ask(
                PhaseView::BusyPause,
                ActionView::Wait(BUSY_MS),
                seq![SayingView::Reached(Cover::WriterSawBusy, true)],
            ).need(self.room("tx-busy"@)),
        }
    }

    /// The live table, read right after an uncertain commit.
    #[verifier::opaque]
    pub open spec fn on_live_read(self, r: Result<Table, FailView>, pre_rows: usize) -> Step {
        match r {
            Ok(live) => {
                let applied = table::table_digest(live) == self.hist.snaps.last().digest;
                if self.hist.live(live) {
                    (DriverView { hist: self.hist.resolved(live), ..self }).progress(
                        seq![
                            SayingView::Reached(Cover::UncertainCommitWasApplied, applied),
                            SayingView::Reached(Cover::UncertainCommitWasNotApplied, !applied),
                        ],
                    )
                } else {
                    (DriverView { hist: self.hist.reset(live), ..self }).progress(
                        seq![neither_after(self.hist, live, pre_rows)],
                    )
                }
            },
            Err(e) => (DriverView { failures: (self.failures + 1) as u32, ..self }).progress(
                seq![
                    SayingView::Line(
                        "note: live read after uncertain commit failed: "@ + e.wording(),
                    ),
                ],
            ),
        }
    }

    /// The live table, read for the periodic check.
    #[verifier::opaque]
    pub open spec fn on_periodic(self, r: Result<Table, FailView>) -> Step {
        match r {
            Ok(live) => if self.hist.live(live) {
                (DriverView { hist: self.hist.resolved(live), ..self }).checkpoint_chance(
                    Seq::empty(),
                )
            } else {
                self.ask(
                    PhaseView::PeriodicDiff,
                    ActionView::FileLengths,
                    seq![mismatch(self.hist, live)] + log::lines_said(
                        diff::diff_lines(self.hist, live),
                    ),
                ).need(diff::showable(live) && diff::showable(self.hist.table))
            },
            Err(e) => self.checkpoint_chance(
                seq![SayingView::Line("note: periodic read failed: "@ + e.wording())],
            ),
        }
    }

    /// The outcome of a checkpoint.
    #[verifier::opaque]
    pub open spec fn on_checkpoint(self, mode: Mode, ev: CheckpointEvent) -> Step {
        let seen = checkpoint::settled(mode, ev);
        (DriverView {
            work: checkpoint::counted(self.work, ev),
            hist: checkpoint::heard(self.hist, ev),
            ..self
        }).ask(
            PhaseView::CheckpointProbe,
            ActionView::Probe,
            log::broken_said(seen.violations) + log::reached_said(
                Cover::CheckpointBackfilledFrames,
                seen.moved_frames,
            ) + log::reached_said(Cover::PassiveCheckpointPartial, seen.left_frames)
                + log::reached_said(
                Cover::CheckpointBusy,
                if seen.busy {
                    Some(true)
                } else {
                    None
                },
            ) + log::note_said(seen.note),
        ).need(checkpoint::can_count(self.work, ev))
    }

    /// What an integrity check gave.
    #[verifier::opaque]
    pub open spec fn on_integrity(self, r: Result<Cells, FailView>) -> Step {
        match r {
            Ok(shown) => self.next_tx(
                log::broken_said(
                    report::found(rows::integrity_verdict(shown, "integrity-check-failed"@)),
                ),
            ),
            Err(e) => self.next_tx(
                seq![SayingView::Line("note: integrity_check failed to run: "@ + e.wording())],
            ),
        }
    }

    /// What the background thread has counted.
    #[verifier::opaque]
    pub open spec fn on_joined(self, counted: Option<Counts>) -> Step {
        match counted {
            Some(c) => (DriverView {
                work: WorkView { stats: stats::merged(self.work.stats, c), ..self.work },
                ..self
            }).end_probe(seq![SayingView::Reached(Cover::BgThreadRan, true)]).need(
                stats::can_merge(self.work.stats, c),
            ),
            None => self.end_probe(
                seq![
                    SayingView::Broken(
                        ViolationView { label: "bg-thread-join-failed"@, detail: ""@ },
                    ),
                ],
            ),
        }
    }

    /// The run in another phase.
    pub open spec fn at(self, phase: PhaseView) -> Self {
        DriverView { phase, ..self }
    }

    /// Whether an event is of the kind that the run is waiting for.
    pub open spec fn awaits(self, ev: EventView) -> bool {
        match self.phase {
            PhaseView::Start => ev is Start,
            PhaseView::Spawn => ev is Done,
            PhaseView::WindowRead { .. } => ev is Digest,
            PhaseView::WindowEnd { .. } => ev is Done,
            PhaseView::WindowOpen => ev is Window,
            PhaseView::CutBetween => ev is Went,
            PhaseView::Resolve { .. } => ev is Read,
            PhaseView::ResolvePause { .. } => ev is Done,
            PhaseView::ResolveDiff => ev is Lengths,
            PhaseView::Tx => ev is Tx,
            PhaseView::TxProbe { .. } => ev is Went,
            PhaseView::LiveRead { .. } => ev is Read,
            PhaseView::BusyPause => ev is Done,
            PhaseView::Periodic => ev is Read,
            PhaseView::PeriodicDiff => ev is Lengths,
            PhaseView::Checkpoint { .. } => ev is Checkpointed,
            PhaseView::CheckpointProbe => ev is Went,
            PhaseView::Integrity => ev is Sql,
            PhaseView::Join => ev is Joined,
            PhaseView::EndProbe => ev is Went,
            PhaseView::CutQuiet => ev is Went,
            PhaseView::Dropped => ev is Done,
            PhaseView::Open => ev is Went,
            PhaseView::Reopen => ev is Went,
            PhaseView::Arm => ev is Done,
            PhaseView::Over => false,
        }
    }

    /// The turn on an event. Every turn sets the phase anew.
    pub open spec fn step(self, ev: EventView) -> Step {
        let run = DriverView { phase: PhaseView::Over, ..self };
        match self.phase {
            PhaseView::Start => run.begin_epoch(Seq::empty()),
            PhaseView::Spawn => run.plan_crash(Seq::empty()),
            PhaseView::WindowRead { window, end } => run.on_window_read(
                window,
                end,
                ev->Digest_0,
            ),
            PhaseView::WindowEnd { end } => if end {
                run.restart(Seq::empty())
            } else {
                (DriverView { saw_commit: false, ..run }).window_chance(Seq::empty())
            },
            PhaseView::WindowOpen => (DriverView {
                window: ev->Window_0,
                ..run
            }).crash_check(Seq::empty()),
            PhaseView::CutBetween => (DriverView {
                crashed: ev->Went_0,
                cut_missed: !ev->Went_0,
                crashes: (run.crashes + 1) as u64,
                ..run
            }).end_epoch(
                seq![SayingView::Reached(Cover::GuestPowerCutBetweenTx, ev->Went_0)],
            ).need(run.crashes < u64::MAX),
            PhaseView::Resolve { left } => run.on_resolve(ev->Read_0, left),
            PhaseView::ResolvePause { left } => run.on_resolve_pause(left),
            PhaseView::ResolveDiff => run.start_tx(
                seq![files_said(ev->Lengths_0, ev->Lengths_1)],
            ),
            PhaseView::Tx => if ev->Tx_1 {
                run.with_crash().end_epoch(Seq::empty()).need(run.crashes < u64::MAX)
            } else {
                run.ask(
                    PhaseView::TxProbe { outcome: ev->Tx_0 },
                    ActionView::Probe,
                    Seq::empty(),
                )
            },
            PhaseView::TxProbe { outcome } => if ev->Went_0 {
                run.on_engine_crash(outcome)
            } else {
                run.on_outcome(outcome)
            },
            PhaseView::LiveRead { pre_rows } => run.on_live_read(ev->Read_0, pre_rows),
            PhaseView::BusyPause => run.progress(Seq::empty()),
            PhaseView::Periodic => run.on_periodic(ev->Read_0),
            PhaseView::PeriodicDiff => run.checkpoint_chance(
                seq![files_said(ev->Lengths_0, ev->Lengths_1)],
            ),
            PhaseView::Checkpoint { mode } => run.on_checkpoint(mode, ev->Checkpointed_0),
            PhaseView::CheckpointProbe => if ev->Went_0 {
                run.bumped("crash-detected-in-checkpoint"@).with_crash().end_epoch(
                    seq![SayingView::Reached(Cover::EnginePowerCutInCheckpoint, true)],
                ).need(run.room("crash-detected-in-checkpoint"@) && run.crashes < u64::MAX)
            } else {
                run.integrity_chance(Seq::empty())
            },
            PhaseView::Integrity => run.on_integrity(ev->Sql_0),
            PhaseView::Join => run.on_joined(ev->Joined_0),
            PhaseView::EndProbe => if ev->Went_0 {
                run.bumped("crash-detected-at-epoch-end"@).with_crash().end_window(
                    Seq::empty(),
                ).need(run.room("crash-detected-at-epoch-end"@) && run.crashes < u64::MAX)
            } else {
                run.end_window(Seq::empty())
            },
            PhaseView::CutQuiet => {
                let said = seq![SayingView::Reached(Cover::GuestPowerCutQuiet, ev->Went_0)];
                if ev->Went_0 {
                    run.with_crash().ask(
                        PhaseView::Dropped,
                        ActionView::DropDb(true),
                        said,
                    ).need(run.crashes < u64::MAX)
                } else {
                    run.ask(PhaseView::Dropped, ActionView::DropDb(false), said)
                }
            },
            PhaseView::Dropped => run.ask(PhaseView::Open, ActionView::Open, Seq::empty()),
            PhaseView::Open => if ev->Went_0 {
                run.ask(
                    PhaseView::Reopen,
                    ActionView::CheckReopened(run.crashed),
                    Seq::empty(),
                )
            } else {
                run.ask(PhaseView::Over, ActionView::Finish, Seq::empty())
            },
            PhaseView::Reopen => if ev->Went_0 {
                run.ask(PhaseView::Arm, ActionView::Arm, Seq::empty())
            } else {
                run.ask(PhaseView::Over, ActionView::Finish, Seq::empty())
            },
            PhaseView::Arm => (DriverView { epoch: (run.epoch + 1) as u64, ..run }).begin_epoch(
                seq![SayingView::Reached(Cover::RecoveredAfterPowerCut, run.crashed)],
            ),
            PhaseView::Over => run.ask(PhaseView::Over, ActionView::Finish, Seq::empty()),
        }
    }

    /// Whether the run is between the beginning and the end of a transaction.
    pub open spec fn in_tx_loop(self) -> bool {
        match self.phase {
            PhaseView::WindowRead { end, .. } => !end,
            PhaseView::WindowEnd { end } => !end,
            PhaseView::WindowOpen => true,
            PhaseView::CutBetween => true,
            PhaseView::Resolve { .. } => true,
            PhaseView::ResolvePause { .. } => true,
            PhaseView::ResolveDiff => true,
            PhaseView::Tx => true,
            PhaseView::TxProbe { .. } => true,
            PhaseView::LiveRead { .. } => true,
            PhaseView::BusyPause => true,
            PhaseView::Periodic => true,
            PhaseView::PeriodicDiff => true,
            PhaseView::Checkpoint { .. } => true,
            PhaseView::CheckpointProbe => true,
            PhaseView::Integrity => true,
            _ => false,
        }
    }

    /// Whether the parts of a run fit together.
    pub open spec fn wf(self) -> bool {
        &&& self.hist.wf()
        &&& self.cfg.txs_per_epoch < u64::MAX
        &&& !(self.phase is Over) ==> self.failures < MAX_FAILURES
        &&& self.in_tx_loop() ==> self.t < self.cfg.txs_per_epoch
        &&& !(self.phase is Over) && !(self.phase is Start) ==> self.epoch < self.cfg.epochs
        &&& self.phase matches PhaseView::Resolve { left } ==> 0 < left <= RESOLVE_ATTEMPTS
        &&& self.phase matches PhaseView::ResolvePause { left } ==> left < RESOLVE_ATTEMPTS
    }
}

/// Whether the run is on its way to a transaction.
pub open spec fn before_tx(phase: PhaseView) -> bool {
    ||| phase is Start
    ||| phase is Spawn
    ||| phase is WindowRead
    ||| phase is WindowEnd
    ||| phase is WindowOpen
    ||| phase is CutBetween
    ||| phase is Resolve
    ||| phase is ResolvePause
    ||| phase is ResolveDiff
}

/// Whether the run is in a transaction or in what follows it.
pub open spec fn about_tx(phase: PhaseView) -> bool {
    ||| phase is Tx
    ||| phase is TxProbe
    ||| phase is LiveRead
    ||| phase is BusyPause
    ||| phase is Periodic
    ||| phase is PeriodicDiff
    ||| phase is Checkpoint
    ||| phase is CheckpointProbe
    ||| phase is Integrity
}

/// Whether the run is at the end of an epoch.
pub open spec fn about_restart(phase: PhaseView) -> bool {
    ||| phase is Join
    ||| phase is EndProbe
    ||| phase is CutQuiet
    ||| phase is Dropped
    ||| phase is Open
    ||| phase is Reopen
    ||| phase is Arm
}

/// What a turn is, apart from whether it fits.
pub open spec fn is_turn(step: Step, run: Driver, turn: Turn) -> bool {
    &&& run.wl.wf()
    &&& run.hist@.wf()
    &&& run@ == step.run
    &&& turn.action@ == step.action
    &&& turn.log@ == step.said
}

fn name_tx(epoch: u64, t: u64, mark: &str) -> (out: String)
    ensures
        out@ == tx_name(epoch, t) + mark@,
{
    let mut out = "e".to_owned();
    push_unsigned(&mut out, epoch);
    out.append("t");
    push_unsigned(&mut out, t);
    out.append(mark);
    out
}

fn begin_line(epoch: u64, t: u64) -> (out: String)
    ensures
        out@ == tx_line(epoch, t),
{
    let mut out = "note: e".to_owned();
    push_unsigned(&mut out, epoch);
    out.append(" t");
    push_unsigned(&mut out, t);
    out
}

impl Driver {
    /// Whether the parts of a run are in order.
    pub open spec fn wf(self) -> bool {
        self.wl.wf() && self@.wf()
    }

    /// A run on an empty table.
    pub fn start(cfg: Config, seed: u64) -> (run: Driver)
        requires
            cfg.txs_per_epoch < u64::MAX,
        ensures
            run.wf(),
            run@ == (DriverView {
                phase: PhaseView::Start,
                cfg,
                hist: HistoryView::opened(Map::empty(), cfg.sync_mode),
                work: WorkView { rng: seed, next_id: 0, stats: Map::empty() },
                epoch: 0,
                t: 0,
                crashed: false,
                cut_missed: false,
                window: None,
                saw_commit: false,
                bg: false,
                crash_at: None,
                epochs_done: 0,
                crashes: 0,
                failures: 0,
            }),
    {
        let empty = Model::new();
        proof {
            broadcast use vstd::std_specs::btree::group_btree_axioms;

            assert(table::table(empty) =~= Map::empty());
        }
        Driver {
            phase: Phase::Start,
            cfg,
            hist: History::new(empty, cfg.sync_mode),
            wl: Workload::new(seed),
            epoch: 0,
            t: 0,
            crashed: false,
            cut_missed: false,
            window: None,
            saw_commit: false,
            bg: false,
            crash_at: None,
            epochs_done: 0,
            crashes: 0,
            failures: 0,
        }
    }

    fn ask(self, phase: Phase, action: Action, log: Log) -> (out: (Driver, Turn))
        requires
            self.wl.wf(),
            self.hist@.wf(),
        ensures
            is_turn(self@.ask(phase@, action@, log@), out.0, out.1),
    {
        (Driver { phase, ..self }, Turn { action, log })
    }

    fn bumped(self, k: &'static str) -> (run: Driver)
        requires
            self.wl.wf(),
            self@.room(k@),
        ensures
            run.wl.wf(),
            run@ == self@.bumped(k@),
    {
        let mut run = self;
        run.wl.bump(k);
        run
    }

    fn begin_epoch(self, log: Log) -> (out: (Driver, Turn))
        requires
            self.wl.wf(),
            self.hist@.wf(),
            self.cfg.txs_per_epoch < u64::MAX,
            self@.begin_epoch(log@).fits,
        ensures
            is_turn(self@.begin_epoch(log@), out.0, out.1),
    {
        proof {
            reveal(DriverView::begin_epoch);
        }
        if self.epoch >= self.cfg.epochs {
            return self.ask(Phase::Over, Action::Finish, log);
        }
        let mut run = Driver {
            crashed: false,
            cut_missed: false,
            window: None,
            saw_commit: false,
            ..self
        };
        if run.wl.rng.chance(run.cfg.bg_thread_permille) {
            let mut run = run.bumped("bg-thread-spawned");
            run.bg = true;
            let seed: u64 = run.wl.rng.next();
            run.ask(Phase::Spawn, Action::SpawnBg(seed), log)
        } else {
            run.bg = false;
            run.plan_crash(log)
        }
    }

    fn plan_crash(self, log: Log) -> (out: (Driver, Turn))
        requires
            self.wl.wf(),
            self.hist@.wf(),
            self.cfg.txs_per_epoch < u64::MAX,
            self@.plan_crash(log@).fits,
        ensures
            is_turn(self@.plan_crash(log@), out.0, out.1),
    {
        proof {
            reveal(DriverView::plan_crash);
        }
        let mut run = self;
        run.t = 0;
        if run.wl.rng.chance(run.cfg.crash_permille) {
            let at: u64 = run.wl.rng.range(0, run.cfg.txs_per_epoch);
            run.crash_at = Some(at);
        } else {
            run.crash_at = None;
        }
        run.tx_head(log)
    }

    fn tx_head(self, log: Log) -> (out: (Driver, Turn))
        requires
            self.wl.wf(),
            self.hist@.wf(),
            self@.tx_head(log@).fits,
        ensures
            is_turn(self@.tx_head(log@), out.0, out.1),
    {
        proof {
            reveal(DriverView::tx_head);
        }
        if self.t >= self.cfg.txs_per_epoch {
            return self.end_epoch(log);
        }
        match self.window {
            Some(window) => {
                let run = Driver { window: None, ..self };
                run.ask(Phase::WindowRead { window, end: false }, Action::ReadReader, log)
            },
            None => self.window_chance(log),
        }
    }

    fn window_chance(self, log: Log) -> (out: (Driver, Turn))
        requires
            self.wl.wf(),
            self.hist@.wf(),
            self.t < self.cfg.txs_per_epoch,
            self@.window_chance(log@).fits,
        ensures
            is_turn(self@.window_chance(log@), out.0, out.1),
    {
        proof {
            reveal(DriverView::window_chance);
        }
        let mut run = self;
        if run.wl.rng.chance(run.cfg.reader_window_permille) {
            run.ask(Phase::WindowOpen, Action::OpenWindow, log)
        } else {
            run.crash_check(log)
        }
    }

    fn crash_check(self, log: Log) -> (out: (Driver, Turn))
        requires
            self.wl.wf(),
            self.hist@.wf(),
            self.t < self.cfg.txs_per_epoch,
            self@.crash_check(log@).fits,
        ensures
            is_turn(self@.crash_check(log@), out.0, out.1),
    {
        proof {
            reveal(DriverView::crash_check);
        }
        let due: bool = match self.crash_at {
            Some(at) => at == self.t,
            None => false,
        };
        if due {
            let run = self.bumped("crash-between-tx");
            run.ask(Phase::CutBetween, Action::PowerCut, log)
        } else {
            self.settle_shadow(log)
        }
    }

    fn settle_shadow(self, log: Log) -> (out: (Driver, Turn))
        requires
            self.wl.wf(),
            self.hist@.wf(),
            self.t < self.cfg.txs_per_epoch,
        ensures
            is_turn(self@.settle_shadow(log@), out.0, out.1),
    {
        proof {
            reveal(DriverView::settle_shadow);
        }
        let open: bool = match &self.hist.shadow {
            Some(_) => true,
            None => false,
        };
        if open {
            self.ask(Phase::Resolve { left: RESOLVE_ATTEMPTS }, Action::ReadModel, log)
        } else {
            self.start_tx(log)
        }
    }

    fn start_tx(self, log: Log) -> (out: (Driver, Turn))
        requires
            self.wl.wf(),
            self.hist@.wf(),
            self.t < self.cfg.txs_per_epoch,
        ensures
            is_turn(self@.start_tx(log@), out.0, out.1),
    {
        proof {
            reveal(DriverView::start_tx);
        }
        let mut run = self;
        let drawn: bool = run.wl.rng.chance(run.cfg.mid_tx_crash_permille);
        let planned: bool = match run.crash_at {
            Some(_) => true,
            None => false,
        };
        let mid: bool = drawn && !planned && run.t + 1 == run.cfg.txs_per_epoch;
        let mut line = begin_line(run.epoch, run.t);
        line.append(" tx start (rows=");
        push_unsigned(&mut line, row_count(&run.hist.model) as u64);
        line.append(")");
        let mut log = log;
        log.line(line);
        run.ask(Phase::Tx, Action::RunTx(mid), log)
    }

    fn progress(self, log: Log) -> (out: (Driver, Turn))
        requires
            self.wl.wf(),
            self.hist@.wf(),
            self.t < self.cfg.txs_per_epoch,
            self@.progress(log@).fits,
        ensures
            is_turn(self@.progress(log@), out.0, out.1),
    {
        proof {
            reveal(DriverView::progress);
        }
        if self.failures >= MAX_FAILURES {
            let mut run = self.bumped("forced-reopen");
            run.failures = 0;
            return run.end_epoch(log);
        }
        let mut run = self;
        if run.wl.rng.chance(250) {
            run.ask(Phase::Periodic, Action::ReadModel, log)
        } else {
            run.checkpoint_chance(log)
        }
    }

    fn checkpoint_chance(self, log: Log) -> (out: (Driver, Turn))
        requires
            self.wl.wf(),
            self.hist@.wf(),
            self.t < self.cfg.txs_per_epoch,
            self@.checkpoint_chance(log@).fits,
        ensures
            is_turn(self@.checkpoint_chance(log@), out.0, out.1),
    {
        proof {
            reveal(DriverView::checkpoint_chance);
        }
        let mut run = self;
        if run.wl.rng.chance(run.cfg.checkpoint_permille) {
            let mode = draw_mode(&mut run.wl.rng);
            let mut log = log;
            log.line(mode.start_note());
            run.ask(Phase::Checkpoint { mode }, Action::Checkpoint(mode), log)
        } else {
            run.integrity_chance(log)
        }
    }

    fn integrity_chance(self, log: Log) -> (out: (Driver, Turn))
        requires
            self.wl.wf(),
            self.hist@.wf(),
            self.t < self.cfg.txs_per_epoch,
            self@.integrity_chance(log@).fits,
        ensures
            is_turn(self@.integrity_chance(log@), out.0, out.1),
    {
        proof {
            reveal(DriverView::integrity_chance);
        }
        let mut run = self;
        if run.wl.rng.chance(run.cfg.integrity_permille) {
            run.ask(Phase::Integrity, Action::CheckIntegrity, log)
        } else {
            run.next_tx(log)
        }
    }

    fn next_tx(self, log: Log) -> (out: (Driver, Turn))
        requires
            self.wl.wf(),
            self.hist@.wf(),
            self.t < self.cfg.txs_per_epoch,
            self@.next_tx(log@).fits,
        ensures
            is_turn(self@.next_tx(log@), out.0, out.1),
    {
        proof {
            reveal(DriverView::next_tx);
        }
        let mut run = self;
        run.t = run.t + 1;
        run.tx_head(log)
    }

    fn end_epoch(self, log: Log) -> (out: (Driver, Turn))
        requires
            self.wl.wf(),
            self.hist@.wf(),
            self@.end_epoch(log@).fits,
        ensures
            is_turn(self@.end_epoch(log@), out.0, out.1),
    {
        proof {
            reveal(DriverView::end_epoch);
        }
        if self.bg {
            let run = Driver { bg: false, ..self };
            run.ask(Phase::Join, Action::JoinBg, log)
        } else {
            self.end_probe(log)
        }
    }

    fn end_probe(self, log: Log) -> (out: (Driver, Turn))
        requires
            self.wl.wf(),
            self.hist@.wf(),
            self@.end_probe(log@).fits,
        ensures
            is_turn(self@.end_probe(log@), out.0, out.1),
    {
        proof {
            reveal(DriverView::end_probe);
        }
        if self.crashed {
            self.end_window(log)
        } else {
            self.ask(Phase::EndProbe, Action::Probe, log)
        }
    }

    fn end_window(self, log: Log) -> (out: (Driver, Turn))
        requires
            self.wl.wf(),
            self.hist@.wf(),
            self@.end_window(log@).fits,
        ensures
            is_turn(self@.end_window(log@), out.0, out.1),
    {
        proof {
            reveal(DriverView::end_window);
        }
        let window = self.window;
        let run = Driver { window: None, ..self };
        match window {
            Some(window) => {
                if run.crashed {
                    run.restart(log)
                } else {
                    run.ask(Phase::WindowRead { window, end: true }, Action::ReadReader, log)
                }
            },
            None => run.restart(log),
        }
    }

    fn restart(self, log: Log) -> (out: (Driver, Turn))
        requires
            self.wl.wf(),
            self.hist@.wf(),
            self@.restart(log@).fits,
        ensures
            is_turn(self@.restart(log@), out.0, out.1),
    {
        proof {
            reveal(DriverView::restart);
        }
        let mut run = self;
        run.epochs_done = run.epochs_done + 1;
        if run.crashed {
            return run.ask(Phase::Dropped, Action::DropDb(true), log);
        }
        if run.cut_missed {
            return run.ask(Phase::Dropped, Action::DropDb(false), log);
        }
        match run.wl.rng.range(0, 2) {
            0 => {
                let run = run.bumped("clean-close");
                run.ask(Phase::Dropped, Action::CloseDb, log)
            },
            1 => {
                let run = run.bumped("drop-without-close");
                run.ask(Phase::Dropped, Action::DropDb(false), log)
            },
            _ => {
                let run = run.bumped("crash-at-quiet-point");
                run.ask(Phase::CutQuiet, Action::PowerCut, log)
            },
        }
    }

    fn on_window_read(self, window: ReaderWindow, end: bool, r: Result<(u64, usize), Fail>) -> (out: (
        Driver,
        Turn,
    ))
        requires
            self.wl.wf(),
            self.hist@.wf(),
        ensures
            is_turn(
                self@.on_window_read(window, end, reader::digest_view(r)),
                out.0,
                out.1,
            ),
    {
        proof {
            reveal(DriverView::on_window_read);
        }
        let check = check_window(&window, r, self.saw_commit);
        let mut log = Log::new();
        log.all_broken(&check.violations);
        log.may_reach(Cover::ReaderHeldSnapshotAcrossCommit, check.held_across_commit);
        log.note(check.note);
        proof {
            let v = reader::window_verdict(window, reader::digest_view(r), self.saw_commit);
            assert(log@ =~= log::broken_said(v.violations) + log::reached_said(
                Cover::ReaderHeldSnapshotAcrossCommit,
                v.held_across_commit,
            ) + log::note_said(v.note));
        }
        self.ask(Phase::WindowEnd { end }, Action::ExecReader(check.end), log)
    }

    fn on_resolve(self, r: Result<Model, Fail>, left: u64) -> (out: (Driver, Turn))
        requires
            self.wl.wf(),
            self.hist@.wf(),
            self.t < self.cfg.txs_per_epoch,
            left > 0,
            self@.on_resolve(reopen::read_view(r), left).fits,
        ensures
            is_turn(self@.on_resolve(reopen::read_view(r), left), out.0, out.1),
    {
        proof {
            reveal(DriverView::on_resolve);
        }
        match r {
            Ok(live) => {
                let mut run = self;
                let mut log = Log::new();
                if run.hist.resolve_live(live.clone()) {
                    run.start_tx(log)
                } else {
                    let mut detail = "live rows=".to_owned();
                    push_unsigned(&mut detail, row_count(&live) as u64);
                    detail.append(" last rows=");
                    push_unsigned(&mut detail, run.hist.last().rows as u64);
                    log.broken(violation("uncertain-commit-left-neither-state", detail));
                    let lines = describe_diff(&live, &run.hist);
                    log.lines(&lines);
                    proof {
                        assert(log@ =~= seq![neither_later(self.hist@, table::table(live))]
                            + log::lines_said(
                            diff::diff_lines(self.hist@, table::table(live)),
                        ));
                    }
                    run.hist.reset_from(live);
                    run.ask(Phase::ResolveDiff, Action::FileLengths, log)
                }
            },
            Err(_) => {
                self.ask(
                    Phase::ResolvePause { left: left - 1 },
                    Action::Wait(RESOLVE_RETRY_MS),
                    Log::new(),
                )
            },
        }
    }

    fn on_resolve_pause(self, left: u64) -> (out: (Driver, Turn))
        requires
            self.wl.wf(),
            self.hist@.wf(),
            self@.on_resolve_pause(left).fits,
        ensures
            is_turn(self@.on_resolve_pause(left), out.0, out.1),
    {
        proof {
            reveal(DriverView::on_resolve_pause);
        }
        if left == 0 {
            let run = self.bumped("forced-reopen-unresolved-commit");
            run.end_epoch(Log::new())
        } else {
            self.ask(Phase::Resolve { left }, Action::ReadModel, Log::new())
        }
    }

    fn on_engine_crash(self, outcome: TxOutcome) -> (out: (Driver, Turn))
        requires
            self.wl.wf(),
            self.hist@.wf(),
            self@.on_engine_crash(outcome@).fits,
        ensures
            is_turn(self@.on_engine_crash(outcome@), out.0, out.1),
    {
        proof {
            reveal(DriverView::on_engine_crash);
        }
        let mut log = Log::new();
        log.reached(Cover::EnginePowerCutDetected, true);
        let mut run = self.bumped("crash-detected-in-engine");
        match outcome {
            TxOutcome::Committed(m) => {
                let name = name_tx(run.epoch, run.t, "");
                proof {
                    reveal_strlit("");
                    assert(name@ =~= tx_name(run.epoch, run.t));
                }
                run.hist.commit_attempt(m, true, name.as_str());
            },
            TxOutcome::Uncertain(m) => {
                let name = name_tx(run.epoch, run.t, "!");
                run.hist.commit_attempt_uncertain(m, name.as_str());
            },
            _ => {},
        }
        run.crashed = true;
        run.crashes = run.crashes + 1;
        proof {
            assert(log@ =~= seq![SayingView::Reached(Cover::EnginePowerCutDetected, true)]);
        }
        run.end_epoch(log)
    }

    fn on_aborted(self, why: String) -> (out: (Driver, Turn))
        requires
            self.wl.wf(),
            self.hist@.wf(),
            self.t < self.cfg.txs_per_epoch,
            self.failures < MAX_FAILURES,
            self@.on_aborted(why@).fits,
        ensures
            is_turn(self@.on_aborted(why@), out.0, out.1),
    {
        proof {
            reveal(DriverView::on_aborted);
        }
        let mut run = self.bumped("tx-aborted");
        run.failures = run.failures + 1;
        let mut log = Log::new();
        log.line(join2("note: tx aborted: ", why.as_str()));
        proof {
            assert(log@ =~= seq![SayingView::Line("note: tx aborted: "@ + why@)]);
        }
        if has_text(why.as_str(), "Stuck") {
            log.broken(violation("statement-stuck", why));
            return run.ask(Phase::Over, Action::Finish, log);
        }
        if has_text(why.as_str(), "Panic") {
            log.broken(violation("panic-in-statement", why));
        }
        run.progress(log)
    }

    fn on_committed(self, m: Model) -> (out: (Driver, Turn))
        requires
            self.wl.wf(),
            self.hist@.wf(),
            self.t < self.cfg.txs_per_epoch,
            self@.on_outcome(OutcomeView::Committed(table::table(m))).fits,
        ensures
            is_turn(
                self@.on_outcome(OutcomeView::Committed(table::table(m))),
                out.0,
                out.1,
            ),
    {
        proof {
            reveal(DriverView::on_outcome);
        }
        let mut run = self.bumped("tx-committed");
        run.failures = 0;
        run.saw_commit = true;
        let mut line = begin_line(run.epoch, run.t);
        line.append(" committed rows=");
        push_unsigned(&mut line, row_count(&m) as u64);
        let mut log = Log::new();
        log.line(line);
        let name = name_tx(run.epoch, run.t, "");
        proof {
            reveal_strlit("");
            assert(name@ =~= tx_name(run.epoch, run.t));
            assert(log@ =~= seq![SayingView::Line(line@)]);
        }
        run.hist.commit_attempt(m, true, name.as_str());
        run.progress(log)
    }

    fn on_uncertain(self, m: Model) -> (out: (Driver, Turn))
        requires
            self.wl.wf(),
            self.hist@.wf(),
            self@.on_outcome(OutcomeView::Uncertain(table::table(m))).fits,
        ensures
            is_turn(
                self@.on_outcome(OutcomeView::Uncertain(table::table(m))),
                out.0,
                out.1,
            ),
    {
        proof {
            reveal(DriverView::on_outcome);
        }
        let mut run = self.bumped("tx-uncertain");
        let mut log = Log::new();
        log.reached(Cover::CommitOutcomeUncertain, true);
        let pre_rows: usize = row_count(&run.hist.model);
        let name = name_tx(run.epoch, run.t, "?");
        run.hist.commit_attempt_uncertain(m, name.as_str());
        proof {
            assert(log@ =~= seq![SayingView::Reached(Cover::CommitOutcomeUncertain, true)]);
        }
        run.ask(Phase::LiveRead { pre_rows }, Action::ReadModel, log)
    }

    fn on_outcome(self, outcome: TxOutcome) -> (out: (Driver, Turn))
        requires
            self.wl.wf(),
            self.hist@.wf(),
            self.t < self.cfg.txs_per_epoch,
            self.failures < MAX_FAILURES,
            self@.on_outcome(outcome@).fits,
        ensures
            is_turn(self@.on_outcome(outcome@), out.0, out.1),
    {
        proof {
            reveal(DriverView::on_outcome);
        }
        match outcome {
            TxOutcome::Committed(m) => self.on_committed(m),
            TxOutcome::RolledBack => {
                let mut run = self.bumped("tx-rolled-back");
                run.failures = 0;
                run.progress(Log::new())
            },
            TxOutcome::Uncertain(m) => self.on_uncertain(m),
            TxOutcome::Aborted(why) => self.on_aborted(why),
            TxOutcome::Busy => {
                let run = self.bumped("tx-busy");
                let mut log = Log::new();
                log.reached(Cover::WriterSawBusy, true);
                proof {
                    assert(log@ =~= seq![SayingView::Reached(Cover::WriterSawBusy, true)]);
                }
                run.ask(Phase::BusyPause, Action::Wait(BUSY_MS), log)
            },
        }
    }

    fn on_live_read(self, r: Result<Model, Fail>, pre_rows: usize) -> (out: (Driver, Turn))
        requires
            self.wl.wf(),
            self.hist@.wf(),
            self.t < self.cfg.txs_per_epoch,
            self.failures < MAX_FAILURES,
            self@.on_live_read(reopen::read_view(r), pre_rows).fits,
        ensures
            is_turn(self@.on_live_read(reopen::read_view(r), pre_rows), out.0, out.1),
    {
        proof {
            reveal(DriverView::on_live_read);
        }
        let mut run = self;
        let mut log = Log::new();
        match r {
            Ok(live) => {
                let applied: bool = digest_model(&live) == run.hist.last().digest;
                if run.hist.resolve_live(live.clone()) {
                    log.reached(Cover::UncertainCommitWasApplied, applied);
                    log.reached(Cover::UncertainCommitWasNotApplied, !applied);
                    proof {
                        assert(log@ =~= seq![
                            SayingView::Reached(Cover::UncertainCommitWasApplied, applied),
                            SayingView::Reached(Cover::UncertainCommitWasNotApplied, !applied),
                        ]);
                    }
                } else {
                    let mut detail = "live rows=".to_owned();
                    push_unsigned(&mut detail, row_count(&live) as u64);
                    detail.append(" pre rows=");
                    push_unsigned(&mut detail, pre_rows as u64);
                    detail.append(" post rows=");
                    push_unsigned(&mut detail, run.hist.last().rows as u64);
                    log.broken(violation("uncertain-commit-left-neither-state", detail));
                    proof {
                        assert(log@ =~= seq![
                            neither_after(self.hist@, table::table(live), pre_rows),
                        ]);
                    }
                    run.hist.reset_from(live);
                }
            },
            Err(e) => {
                log.line(e.worded("note: live read after uncertain commit failed: "));
                run.failures = run.failures + 1;
                proof {
                    assert(log@ =~= seq![
                        SayingView::Line(
                            "note: live read after uncertain commit failed: "@ + e@.wording(),
                        ),
                    ]);
                }
            },
        }
        run.progress(log)
    }

    fn on_periodic(self, r: Result<Model, Fail>) -> (out: (Driver, Turn))
        requires
            self.wl.wf(),
            self.hist@.wf(),
            self.t < self.cfg.txs_per_epoch,
            self@.on_periodic(reopen::read_view(r)).fits,
        ensures
            is_turn(self@.on_periodic(reopen::read_view(r)), out.0, out.1),
    {
        proof {
            reveal(DriverView::on_periodic);
        }
        let mut log = Log::new();
        match r {
            Ok(live) => {
                let mut run = self;
                if run.hist.resolve_live(live.clone()) {
                    return run.checkpoint_chance(log);
                }
                let mut detail = "live rows=".to_owned();
                push_unsigned(&mut detail, row_count(&live) as u64);
                detail.append(" digest=");
                push_hex(&mut detail, digest_model(&live));
                detail.append(" expected ");
                push_hex(&mut detail, run.hist.last().digest);
                detail.append(" rows=");
                push_unsigned(&mut detail, run.hist.last().rows as u64);
                log.broken(violation("committed-state-mismatch", detail));
                let lines = describe_diff(&live, &run.hist);
                log.lines(&lines);
                proof {
                    assert(log@ =~= seq![mismatch(self.hist@, table::table(live))]
                        + log::lines_said(diff::diff_lines(self.hist@, table::table(live))));
                }
                run.ask(Phase::PeriodicDiff, Action::FileLengths, log)
            },
            Err(e) => {
                log.line(e.worded("note: periodic read failed: "));
                proof {
                    assert(log@ =~= seq![
                        SayingView::Line("note: periodic read failed: "@ + e@.wording()),
                    ]);
                }
                self.checkpoint_chance(log)
            },
        }
    }

    fn on_checkpoint(self, mode: Mode, ev: CheckpointEvent) -> (out: (Driver, Turn))
        requires
            self.wl.wf(),
            self.hist@.wf(),
            self@.on_checkpoint(mode, ev).fits,
        ensures
            is_turn(self@.on_checkpoint(mode, ev), out.0, out.1),
    {
        proof {
            reveal(DriverView::on_checkpoint);
        }
        let mut run = self;
        let seen = settle(mode, ev, &mut run.wl, &mut run.hist);
        let busy: Option<bool> = if seen.busy {
            Some(true)
        } else {
            None
        };
        let mut log = Log::new();
        log.all_broken(&seen.violations);
        log.may_reach(Cover::CheckpointBackfilledFrames, seen.moved_frames);
        log.may_reach(Cover::PassiveCheckpointPartial, seen.left_frames);
        log.may_reach(Cover::CheckpointBusy, busy);
        log.note(seen.note);
        proof {
            let v = checkpoint::settled(mode, ev);
            assert(log@ =~= log::broken_said(v.violations) + log::reached_said(
                Cover::CheckpointBackfilledFrames,
                v.moved_frames,
            ) + log::reached_said(Cover::PassiveCheckpointPartial, v.left_frames)
                + log::reached_said(Cover::CheckpointBusy, busy) + log::note_said(v.note));
        }
        run.ask(Phase::CheckpointProbe, Action::Probe, log)
    }

    fn on_integrity(self, r: Result<Vec<Vec<String>>, Fail>) -> (out: (Driver, Turn))
        requires
            self.wl.wf(),
            self.hist@.wf(),
            self.t < self.cfg.txs_per_epoch,
            self@.on_integrity(exec::result_view(r)).fits,
        ensures
            is_turn(self@.on_integrity(exec::result_view(r)), out.0, out.1),
    {
        proof {
            reveal(DriverView::on_integrity);
        }
        let mut log = Log::new();
        match r {
            Ok(shown) => {
                let found = listed(check_integrity(&shown, "integrity-check-failed"));
                log.all_broken(&found);
                proof {
                    let v = report::found(
                        rows::integrity_verdict(
                            exec::cells(shown@),
                            "integrity-check-failed"@,
                        ),
                    );
                    assert(log@ =~= log::broken_said(v));
                }
            },
            Err(e) => {
                log.line(e.worded("note: integrity_check failed to run: "));
                proof {
                    assert(log@ =~= seq![
                        SayingView::Line("note: integrity_check failed to run: "@ + e@.wording()),
                    ]);
                }
            },
        }
        self.next_tx(log)
    }

    fn on_joined(self, counted: Option<Stats>) -> (out: (Driver, Turn))
        requires
            self.wl.wf(),
            self.hist@.wf(),
            Event::Joined(counted).wf(),
            self@.on_joined(Event::Joined(counted)@->Joined_0).fits,
        ensures
            is_turn(self@.on_joined(Event::Joined(counted)@->Joined_0), out.0, out.1),
    {
        proof {
            reveal(DriverView::on_joined);
        }
        let mut run = self;
        let mut log = Log::new();
        match counted {
            Some(c) => {
                run.wl.stats.absorb(&c);
                log.reached(Cover::BgThreadRan, true);
                proof {
                    assert(log@ =~= seq![SayingView::Reached(Cover::BgThreadRan, true)]);
                }
            },
            None => {
                log.broken(violation("bg-thread-join-failed", "".to_owned()));
                proof {
                    assert(log@ =~= seq![
                        SayingView::Broken(
                            ViolationView { label: "bg-thread-join-failed"@, detail: ""@ },
                        ),
                    ]);
                }
            },
        }
        run.end_probe(log)
    }

    fn one_reached(c: Cover, yes: bool) -> (log: Log)
        ensures
            log@ == seq![SayingView::Reached(c, yes)],
    {
        let mut log = Log::new();
        log.reached(c, yes);
        proof {
            assert(log@ =~= seq![SayingView::Reached(c, yes)]);
        }
        log
    }

    fn files_log(db: Option<u64>, wal: Option<u64>) -> (log: Log)
        ensures
            log@ == seq![files_said(db, wal)],
    {
        let mut log = Log::new();
        log.line(files_line(db, wal));
        proof {
            assert(log@ =~= seq![files_said(db, wal)]);
        }
        log
    }

    fn crash(self) -> (run: Driver)
        requires
            self.wl.wf(),
            self.crashes < u64::MAX,
        ensures
            run.wl.wf(),
            run@ == self@.with_crash(),
    {
        let mut run = self;
        run.crashed = true;
        run.crashes = run.crashes + 1;
        run
    }

    fn resume_before_tx(self, phase: Phase, ev: Event) -> (out: (Driver, Turn))
        requires
            self.wl.wf(),
            self.phase is Over,
            ev.wf(),
            self@.at(phase@).wf(),
            self@.at(phase@).awaits(ev@),
            self@.at(phase@).step(ev@).fits,
            before_tx(phase@),
        ensures
            is_turn(self@.at(phase@).step(ev@), out.0, out.1),
    {
        let run = self;
        match (phase, ev) {
            (Phase::Start, _) => run.begin_epoch(Log::new()),
            (Phase::Spawn, _) => run.plan_crash(Log::new()),
            (Phase::WindowRead { window, end }, Event::Digest(r)) => {
                run.on_window_read(window, end, r)
            },
            (Phase::WindowEnd { end }, _) => {
                if end {
                    run.restart(Log::new())
                } else {
                    let run = Driver { saw_commit: false, ..run };
                    run.window_chance(Log::new())
                }
            },
            (Phase::WindowOpen, Event::Window(window)) => {
                let run = Driver { window, ..run };
                run.crash_check(Log::new())
            },
            (Phase::CutBetween, Event::Went(cut)) => {
                let run = Driver {
                    crashed: cut,
                    cut_missed: !cut,
                    crashes: run.crashes + 1,
                    ..run
                };
                run.end_epoch(Driver::one_reached(Cover::GuestPowerCutBetweenTx, cut))
            },
            (Phase::Resolve { left }, Event::Read(r)) => run.on_resolve(r, left),
            (Phase::ResolvePause { left }, _) => run.on_resolve_pause(left),
            (Phase::ResolveDiff, Event::Lengths(db, wal)) => {
                run.start_tx(Driver::files_log(db, wal))
            },
            _ => run.ask(Phase::Over, Action::Finish, Log::new()),
        }
    }

    fn resume_tx(self, phase: Phase, ev: Event) -> (out: (Driver, Turn))
        requires
            self.wl.wf(),
            self.phase is Over,
            ev.wf(),
            self@.at(phase@).wf(),
            self@.at(phase@).awaits(ev@),
            self@.at(phase@).step(ev@).fits,
            about_tx(phase@),
        ensures
            is_turn(self@.at(phase@).step(ev@), out.0, out.1),
    {
        let run = self;
        match (phase, ev) {
            (Phase::Tx, Event::Tx(outcome, cut)) => {
                if cut {
                    let run = run.crash();
                    run.end_epoch(Log::new())
                } else {
                    run.ask(Phase::TxProbe { outcome }, Action::Probe, Log::new())
                }
            },
            (Phase::TxProbe { outcome }, Event::Went(cut)) => {
                if cut {
                    run.on_engine_crash(outcome)
                } else {
                    run.on_outcome(outcome)
                }
            },
            (Phase::LiveRead { pre_rows }, Event::Read(r)) => run.on_live_read(r, pre_rows),
            (Phase::BusyPause, _) => run.progress(Log::new()),
            (Phase::Periodic, Event::Read(r)) => run.on_periodic(r),
            (Phase::PeriodicDiff, Event::Lengths(db, wal)) => {
                run.checkpoint_chance(Driver::files_log(db, wal))
            },
            (Phase::Checkpoint { mode }, Event::Checkpointed(done)) => {
                run.on_checkpoint(mode, done)
            },
            (Phase::CheckpointProbe, Event::Went(cut)) => {
                if cut {
                    let run = run.bumped("crash-detected-in-checkpoint").crash();
                    run.end_epoch(Driver::one_reached(Cover::EnginePowerCutInCheckpoint, true))
                } else {
                    run.integrity_chance(Log::new())
                }
            },
            (Phase::Integrity, Event::Sql(r)) => run.on_integrity(r),
            _ => run.ask(Phase::Over, Action::Finish, Log::new()),
        }
    }

    fn resume_end(self, phase: Phase, ev: Event) -> (out: (Driver, Turn))
        requires
            self.wl.wf(),
            self.phase is Over,
            ev.wf(),
            self@.at(phase@).wf(),
            self@.at(phase@).awaits(ev@),
            self@.at(phase@).step(ev@).fits,
            about_restart(phase@),
        ensures
            is_turn(self@.at(phase@).step(ev@), out.0, out.1),
    {
        let run = self;
        match (phase, ev) {
            (Phase::Join, Event::Joined(counted)) => run.on_joined(counted),
            (Phase::EndProbe, Event::Went(cut)) => {
                if cut {
                    let run = run.bumped("crash-detected-at-epoch-end").crash();
                    run.end_window(Log::new())
                } else {
                    run.end_window(Log::new())
                }
            },
            (Phase::CutQuiet, Event::Went(cut)) => {
                let log = Driver::one_reached(Cover::GuestPowerCutQuiet, cut);
                if cut {
                    let run = run.crash();
                    run.ask(Phase::Dropped, Action::DropDb(true), log)
                } else {
                    run.ask(Phase::Dropped, Action::DropDb(false), log)
                }
            },
            (Phase::Dropped, _) => run.ask(Phase::Open, Action::Open, Log::new()),
            (Phase::Open, Event::Went(opened)) => {
                if opened {
                    let crashed = run.crashed;
                    run.ask(Phase::Reopen, Action::CheckReopened(crashed), Log::new())
                } else {
                    run.ask(Phase::Over, Action::Finish, Log::new())
                }
            },
            (Phase::Reopen, Event::Went(read)) => {
                if read {
                    run.ask(Phase::Arm, Action::Arm, Log::new())
                } else {
                    run.ask(Phase::Over, Action::Finish, Log::new())
                }
            },
            (Phase::Arm, _) => {
                let crashed = run.crashed;
                let run = Driver { epoch: run.epoch + 1, ..run };
                run.begin_epoch(Driver::one_reached(Cover::RecoveredAfterPowerCut, crashed))
            },
            _ => run.ask(Phase::Over, Action::Finish, Log::new()),
        }
    }

    /// Takes the next turn of the run, on what came of the last one.
    pub fn resume(self, ev: Event) -> (out: (Driver, Turn))
        requires
            self.wf(),
            ev.wf(),
            self@.awaits(ev@),
            self@.step(ev@).fits,
        ensures
            is_turn(self@.step(ev@), out.0, out.1),
            out.0.wf(),
    {
        proof {
            lemma_step_keeps_wf(self@, ev@);
        }
        let Driver {
            phase,
            cfg,
            hist,
            wl,
            epoch,
            t,
            crashed,
            cut_missed,
            window,
            saw_commit,
            bg,
            crash_at,
            epochs_done,
            crashes,
            failures,
        } = self;
        let run = Driver {
            phase: Phase::Over,
            cfg,
            hist,
            wl,
            epoch,
            t,
            crashed,
            cut_missed,
            window,
            saw_commit,
            bg,
            crash_at,
            epochs_done,
            crashes,
            failures,
        };
        let stage: u8 = match &phase {
            Phase::Start => 0,
            Phase::Spawn => 0,
            Phase::WindowRead { .. } => 0,
            Phase::WindowEnd { .. } => 0,
            Phase::WindowOpen => 0,
            Phase::CutBetween => 0,
            Phase::Resolve { .. } => 0,
            Phase::ResolvePause { .. } => 0,
            Phase::ResolveDiff => 0,
            Phase::Join => 2,
            Phase::EndProbe => 2,
            Phase::CutQuiet => 2,
            Phase::Dropped => 2,
            Phase::Open => 2,
            Phase::Reopen => 2,
            Phase::Arm => 2,
            _ => 1,
        };
        proof {
            assert(run@.at(phase@) == self@);
        }
        if stage == 0 {
            run.resume_before_tx(phase, ev)
        } else if stage == 1 {
            run.resume_tx(phase, ev)
        } else {
            run.resume_end(phase, ev)
        }
    }
}

impl DriverView {
    /// What holds of a run throughout an epoch.
    pub open spec fn sound(self) -> bool {
        &&& self.hist.wf()
        &&& self.cfg.txs_per_epoch < u64::MAX
        &&& self.failures < MAX_FAILURES
        &&& self.epoch < self.cfg.epochs
    }
}

proof fn lemma_end_keeps_wf(run: DriverView, said: Said)
    requires
        run.sound(),
    ensures
        run.restart(said).run.wf(),
        run.end_window(said).run.wf(),
        run.end_probe(said).run.wf(),
        run.end_epoch(said).run.wf(),
{
    reveal(DriverView::restart);
    reveal(DriverView::end_window);
    reveal(DriverView::end_probe);
    reveal(DriverView::end_epoch);
}

proof fn lemma_start_keeps_wf(run: DriverView, said: Said)
    requires
        run.sound(),
        run.t < run.cfg.txs_per_epoch,
    ensures
        run.start_tx(said).run.wf(),
        run.settle_shadow(said).run.wf(),
        run.crash_check(said).run.wf(),
        run.window_chance(said).run.wf(),
{
    reveal(DriverView::start_tx);
    reveal(DriverView::settle_shadow);
    reveal(DriverView::crash_check);
    reveal(DriverView::window_chance);
}

proof fn lemma_head_keeps_wf(run: DriverView, said: Said)
    requires
        run.sound(),
    ensures
        run.tx_head(said).run.wf(),
{
    reveal(DriverView::tx_head);
    if run.t >= run.cfg.txs_per_epoch {
        lemma_end_keeps_wf(run, said);
    } else {
        lemma_start_keeps_wf(run, said);
    }
}

proof fn lemma_next_keeps_wf(run: DriverView, said: Said)
    requires
        run.sound(),
        run.t < run.cfg.txs_per_epoch,
    ensures
        run.next_tx(said).run.wf(),
        run.integrity_chance(said).run.wf(),
        run.checkpoint_chance(said).run.wf(),
{
    reveal(DriverView::next_tx);
    reveal(DriverView::integrity_chance);
    reveal(DriverView::checkpoint_chance);
    let on = run.drawn();
    let twice = on.drawn();
    lemma_head_keeps_wf(DriverView { t: (run.t + 1) as u64, ..run }, said);
    lemma_head_keeps_wf(DriverView { t: (on.t + 1) as u64, ..on }, said);
    lemma_head_keeps_wf(DriverView { t: (twice.t + 1) as u64, ..twice }, said);
}

proof fn lemma_progress_keeps_wf(run: DriverView, said: Said)
    requires
        run.hist.wf(),
        run.cfg.txs_per_epoch < u64::MAX,
        run.epoch < run.cfg.epochs,
        run.t < run.cfg.txs_per_epoch,
        run.failures <= MAX_FAILURES,
    ensures
        run.progress(said).run.wf(),
{
    reveal(DriverView::progress);
    if run.failures >= MAX_FAILURES {
        lemma_end_keeps_wf(
            DriverView { failures: 0, ..run.bumped("forced-reopen"@) },
            said,
        );
    } else {
        lemma_next_keeps_wf(run.drawn(), said);
    }
}

proof fn lemma_begin_keeps_wf(run: DriverView, said: Said)
    requires
        run.hist.wf(),
        run.cfg.txs_per_epoch < u64::MAX,
        run.failures < MAX_FAILURES,
    ensures
        run.begin_epoch(said).run.wf(),
        run.epoch < run.cfg.epochs ==> run.plan_crash(said).run.wf(),
{
    reveal(DriverView::begin_epoch);
    reveal(DriverView::plan_crash);
    if run.epoch < run.cfg.epochs {
        let fresh = DriverView {
        crashed: false,
        cut_missed: false,
        window: None,
        saw_commit: false,
        ..run
    };
        let quiet = DriverView { bg: false, ..fresh.drawn() };
        let on = run.drawn();
        let later = quiet.drawn();
        lemma_head_keeps_wf(
            DriverView {
                crash_at: Some(prng::prng_pick(on.work.rng, 0, run.cfg.txs_per_epoch)),
                t: 0,
                ..on.drawn()
            },
            said,
        );
        lemma_head_keeps_wf(DriverView { crash_at: None, t: 0, ..on }, said);
        lemma_head_keeps_wf(
            DriverView {
                crash_at: Some(prng::prng_pick(later.work.rng, 0, run.cfg.txs_per_epoch)),
                t: 0,
                ..later.drawn()
            },
            said,
        );
        lemma_head_keeps_wf(DriverView { crash_at: None, t: 0, ..later }, said);
    }
}

proof fn lemma_outcome_keeps_wf(run: DriverView, outcome: OutcomeView)
    requires
        run.sound(),
        run.t < run.cfg.txs_per_epoch,
    ensures
        run.on_outcome(outcome).run.wf(),
        run.on_engine_crash(outcome).run.wf(),
{
    reveal(DriverView::on_outcome);
    reveal(DriverView::on_engine_crash);
    lemma_end_keeps_wf(
        DriverView {
            hist: run.heard_crash(outcome),
            ..run.bumped("crash-detected-in-engine"@).with_crash()
        },
        seq![SayingView::Reached(Cover::EnginePowerCutDetected, true)],
    );
    match outcome {
        OutcomeView::Committed(t) => {
            lemma_progress_keeps_wf(
                DriverView {
                    failures: 0,
                    hist: run.hist.committed(t, true, tx_name(run.epoch, run.t)),
                    saw_commit: true,
                    ..run.bumped("tx-committed"@)
                },
                seq![
                    SayingView::Line(
                        tx_line(run.epoch, run.t) + " committed rows="@ + text::decimal(
                            t.len() as int,
                        ),
                    ),
                ],
            );
        },
        OutcomeView::RolledBack => {
            lemma_progress_keeps_wf(
                DriverView { failures: 0, ..run.bumped("tx-rolled-back"@) },
                Seq::empty(),
            );
        },
        OutcomeView::Aborted(why) => {
            reveal(DriverView::on_aborted);
            let on = DriverView { failures: (run.failures + 1) as u32, ..run.bumped("tx-aborted"@) };
            let said = seq![SayingView::Line("note: tx aborted: "@ + why)];
            lemma_progress_keeps_wf(on, said);
            lemma_progress_keeps_wf(
                on,
                said.push(
                    SayingView::Broken(
                        ViolationView { label: "panic-in-statement"@, detail: why },
                    ),
                ),
            );
        },
        _ => {},
    }
}

proof fn lemma_read_keeps_wf(run: DriverView, r: Result<Table, FailView>, left: u64, rows: usize)
    requires
        run.sound(),
        run.t < run.cfg.txs_per_epoch,
    ensures
        0 < left <= RESOLVE_ATTEMPTS ==> run.on_resolve(r, left).run.wf(),
        run.on_live_read(r, rows).run.wf(),
        run.on_periodic(r).run.wf(),
{
    reveal(DriverView::on_resolve);
    reveal(DriverView::on_live_read);
    reveal(DriverView::on_periodic);
    match r {
        Ok(live) => {
            let applied = table::table_digest(live) == run.hist.snaps.last().digest;
            let resolved = DriverView { hist: run.hist.resolved(live), ..run };
            lemma_start_keeps_wf(resolved, Seq::empty());
            lemma_progress_keeps_wf(
                resolved,
                seq![
                    SayingView::Reached(Cover::UncertainCommitWasApplied, applied),
                    SayingView::Reached(Cover::UncertainCommitWasNotApplied, !applied),
                ],
            );
            lemma_progress_keeps_wf(
                DriverView { hist: run.hist.reset(live), ..run },
                seq![neither_after(run.hist, live, rows)],
            );
            lemma_next_keeps_wf(resolved, Seq::empty());
        },
        Err(e) => {
            lemma_progress_keeps_wf(
                DriverView { failures: (run.failures + 1) as u32, ..run },
                seq![
                    SayingView::Line(
                        "note: live read after uncertain commit failed: "@ + e.wording(),
                    ),
                ],
            );
            lemma_next_keeps_wf(
                run,
                seq![SayingView::Line("note: periodic read failed: "@ + e.wording())],
            );
        },
    }
}

proof fn lemma_step_keeps_wf(run: DriverView, ev: EventView)
    requires
        run.wf(),
        run.awaits(ev),
    ensures
        run.step(ev).run.wf(),
{
    let bare = run.at(PhaseView::Over);
    match run.phase {
        PhaseView::Start => lemma_begin_keeps_wf(bare, Seq::empty()),
        PhaseView::Spawn => lemma_begin_keeps_wf(bare, Seq::empty()),
        PhaseView::WindowRead { .. } => reveal(DriverView::on_window_read),
        PhaseView::WindowEnd { end } => {
            lemma_end_keeps_wf(bare, Seq::empty());
            if !end {
                lemma_start_keeps_wf(DriverView { saw_commit: false, ..bare }, Seq::empty());
            }
        },
        PhaseView::WindowOpen => lemma_start_keeps_wf(
            DriverView { window: ev->Window_0, ..bare },
            Seq::empty(),
        ),
        PhaseView::CutBetween => lemma_end_keeps_wf(
            DriverView {
                crashed: ev->Went_0,
                cut_missed: !ev->Went_0,
                crashes: (bare.crashes + 1) as u64,
                ..bare
            },
            seq![SayingView::Reached(Cover::GuestPowerCutBetweenTx, ev->Went_0)],
        ),
        PhaseView::Resolve { left } => lemma_read_keeps_wf(bare, ev->Read_0, left, 0),
        PhaseView::ResolvePause { .. } => {
            reveal(DriverView::on_resolve_pause);
            lemma_end_keeps_wf(
                bare.bumped("forced-reopen-unresolved-commit"@),
                Seq::empty(),
            );
        },
        PhaseView::ResolveDiff => lemma_start_keeps_wf(
            bare,
            seq![files_said(ev->Lengths_0, ev->Lengths_1)],
        ),
        PhaseView::Tx => lemma_end_keeps_wf(bare.with_crash(), Seq::empty()),
        PhaseView::TxProbe { outcome } => lemma_outcome_keeps_wf(bare, outcome),
        PhaseView::LiveRead { pre_rows } => lemma_read_keeps_wf(bare, ev->Read_0, 0, pre_rows),
        PhaseView::BusyPause => lemma_progress_keeps_wf(bare, Seq::empty()),
        PhaseView::Periodic => lemma_read_keeps_wf(bare, ev->Read_0, 0, 0),
        PhaseView::PeriodicDiff => lemma_next_keeps_wf(
            bare,
            seq![files_said(ev->Lengths_0, ev->Lengths_1)],
        ),
        PhaseView::Checkpoint { .. } => reveal(DriverView::on_checkpoint),
        PhaseView::CheckpointProbe => {
            lemma_end_keeps_wf(
                bare.bumped("crash-detected-in-checkpoint"@).with_crash(),
                seq![SayingView::Reached(Cover::EnginePowerCutInCheckpoint, true)],
            );
            lemma_next_keeps_wf(bare, Seq::empty());
        },
        PhaseView::Integrity => {
            reveal(DriverView::on_integrity);
            lemma_next_keeps_wf(
                bare,
                match ev->Sql_0 {
                    Ok(shown) => log::broken_said(
                        report::found(
                            rows::integrity_verdict(shown, "integrity-check-failed"@),
                        ),
                    ),
                    Err(e) => seq![
                        SayingView::Line("note: integrity_check failed to run: "@ + e.wording()),
                    ],
                },
            );
        },
        PhaseView::Join => {
            reveal(DriverView::on_joined);
            match ev->Joined_0 {
                Some(c) => lemma_end_keeps_wf(
                    DriverView {
                        work: WorkView {
                            stats: stats::merged(bare.work.stats, c),
                            ..bare.work
                        },
                        ..bare
                    },
                    seq![SayingView::Reached(Cover::BgThreadRan, true)],
                ),
                None => lemma_end_keeps_wf(
                    bare,
                    seq![
                        SayingView::Broken(
                            ViolationView { label: "bg-thread-join-failed"@, detail: ""@ },
                        ),
                    ],
                ),
            }
        },
        PhaseView::EndProbe => {
            lemma_end_keeps_wf(
                bare.bumped("crash-detected-at-epoch-end"@).with_crash(),
                Seq::empty(),
            );
            lemma_end_keeps_wf(bare, Seq::empty());
        },
        PhaseView::Arm => lemma_begin_keeps_wf(
            DriverView { epoch: (bare.epoch + 1) as u64, ..bare },
            seq![SayingView::Reached(Cover::RecoveredAfterPowerCut, bare.crashed)],
        ),
        _ => {},
    }
}

/// How often a turn raises a counter at most.
pub const RAISES_PER_TURN: u64 = 4;

impl DriverView {
    /// Whether every counter can be raised `n` times.
    pub open spec fn spare(self, n: int) -> bool {
        &&& stats::spare(self.work.stats, n)
        &&& self.crashes < u64::MAX
        &&& self.epochs_done < u64::MAX
    }

    /// Whether a live table that is read now is shown beside the oracle's.
    pub open spec fn shows_diff(self, live: Table) -> bool {
        (self.phase is Resolve || self.phase is Periodic) && !self.hist.live(live)
    }

    /// Whether a turn on an event fits whatever is drawn in it.
    pub open spec fn roomy(self, ev: EventView) -> bool {
        &&& self.spare(RAISES_PER_TURN as int)
        &&& self.crashes + 1 < u64::MAX
        &&& ev matches EventView::Read(Ok(live)) ==> self.shows_diff(live) ==> diff::showable(live)
            && diff::showable(self.hist.table)
        &&& ev matches EventView::Joined(Some(c)) ==> stats::can_merge(self.work.stats, c)
            && stats::spare(stats::merged(self.work.stats, c), RAISES_PER_TURN as int)
    }
}

proof fn lemma_end_fits(run: DriverView, said: Said, n: int)
    requires
        run.spare(n),
        n >= 1,
    ensures
        run.restart(said).fits,
        run.end_window(said).fits,
        run.end_probe(said).fits,
        run.end_epoch(said).fits,
{
    reveal(DriverView::restart);
    reveal(DriverView::end_window);
    reveal(DriverView::end_probe);
    reveal(DriverView::end_epoch);
    stats::lemma_spare(run.work.stats, n, "clean-close"@);
    stats::lemma_spare(run.work.stats, n, "drop-without-close"@);
    stats::lemma_spare(run.work.stats, n, "crash-at-quiet-point"@);
}

proof fn lemma_start_fits(run: DriverView, said: Said, n: int)
    requires
        run.spare(n),
        n >= 1,
    ensures
        run.start_tx(said).fits,
        run.settle_shadow(said).fits,
        run.crash_check(said).fits,
        run.window_chance(said).fits,
{
    reveal(DriverView::start_tx);
    reveal(DriverView::settle_shadow);
    reveal(DriverView::crash_check);
    reveal(DriverView::window_chance);
    stats::lemma_spare(run.work.stats, n, "crash-between-tx"@);
}

proof fn lemma_head_fits(run: DriverView, said: Said, n: int)
    requires
        run.spare(n),
        n >= 1,
    ensures
        run.tx_head(said).fits,
{
    reveal(DriverView::tx_head);
    lemma_end_fits(run, said, n);
    lemma_start_fits(run, said, n);
}

proof fn lemma_next_fits(run: DriverView, said: Said, n: int)
    requires
        run.spare(n),
        n >= 1,
    ensures
        run.next_tx(said).fits,
        run.integrity_chance(said).fits,
        run.checkpoint_chance(said).fits,
{
    reveal(DriverView::next_tx);
    reveal(DriverView::integrity_chance);
    reveal(DriverView::checkpoint_chance);
    let on = run.drawn();
    let twice = on.drawn();
    lemma_head_fits(DriverView { t: (run.t + 1) as u64, ..run }, said, n);
    lemma_head_fits(DriverView { t: (on.t + 1) as u64, ..on }, said, n);
    lemma_head_fits(DriverView { t: (twice.t + 1) as u64, ..twice }, said, n);
}

proof fn lemma_progress_fits(run: DriverView, said: Said, n: int)
    requires
        run.spare(n),
        n >= 2,
    ensures
        run.progress(said).fits,
{
    reveal(DriverView::progress);
    stats::lemma_spare(run.work.stats, n, "forced-reopen"@);
    lemma_end_fits(
        DriverView { failures: 0, ..run.bumped("forced-reopen"@) },
        said,
        n - 1,
    );
    lemma_next_fits(run.drawn(), said, n);
}

proof fn lemma_begin_fits(run: DriverView, said: Said, n: int)
    requires
        run.spare(n),
        n >= 1,
    ensures
        run.begin_epoch(said).fits,
        run.plan_crash(said).fits,
{
    reveal(DriverView::begin_epoch);
    reveal(DriverView::plan_crash);
    stats::lemma_spare(run.work.stats, n, "bg-thread-spawned"@);
    let fresh = DriverView {
        crashed: false,
        cut_missed: false,
        window: None,
        saw_commit: false,
        ..run
    };
    let quiet = DriverView { bg: false, ..fresh.drawn() };
    let on = run.drawn();
    let later = quiet.drawn();
    lemma_head_fits(
        DriverView {
            crash_at: Some(prng::prng_pick(on.work.rng, 0, run.cfg.txs_per_epoch)),
            t: 0,
            ..on.drawn()
        },
        said,
        n,
    );
    lemma_head_fits(DriverView { crash_at: None, t: 0, ..on }, said, n);
    lemma_head_fits(
        DriverView {
            crash_at: Some(prng::prng_pick(later.work.rng, 0, run.cfg.txs_per_epoch)),
            t: 0,
            ..later.drawn()
        },
        said,
        n,
    );
    lemma_head_fits(DriverView { crash_at: None, t: 0, ..later }, said, n);
}

proof fn lemma_outcome_fits(run: DriverView, outcome: OutcomeView, n: int)
    requires
        run.spare(n),
        run.crashes + 1 < u64::MAX,
        n >= 3,
    ensures
        run.on_outcome(outcome).fits,
        run.on_engine_crash(outcome).fits,
{
    reveal(DriverView::on_outcome);
    reveal(DriverView::on_engine_crash);
    reveal(DriverView::on_aborted);
    let c = run.work.stats;
    stats::lemma_spare(c, n, "crash-detected-in-engine"@);
    stats::lemma_spare(c, n, "tx-committed"@);
    stats::lemma_spare(c, n, "tx-rolled-back"@);
    stats::lemma_spare(c, n, "tx-uncertain"@);
    stats::lemma_spare(c, n, "tx-aborted"@);
    stats::lemma_spare(c, n, "tx-busy"@);
    lemma_end_fits(
        DriverView {
            hist: run.heard_crash(outcome),
            ..run.bumped("crash-detected-in-engine"@).with_crash()
        },
        seq![SayingView::Reached(Cover::EnginePowerCutDetected, true)],
        n - 1,
    );
    match outcome {
        OutcomeView::Committed(t) => {
            lemma_progress_fits(
                DriverView {
                    failures: 0,
                    hist: run.hist.committed(t, true, tx_name(run.epoch, run.t)),
                    saw_commit: true,
                    ..run.bumped("tx-committed"@)
                },
                seq![
                    SayingView::Line(
                        tx_line(run.epoch, run.t) + " committed rows="@ + text::decimal(
                            t.len() as int,
                        ),
                    ),
                ],
                n - 1,
            );
        },
        OutcomeView::RolledBack => {
            lemma_progress_fits(
                DriverView { failures: 0, ..run.bumped("tx-rolled-back"@) },
                Seq::empty(),
                n - 1,
            );
        },
        OutcomeView::Aborted(why) => {
            let on = DriverView { failures: (run.failures + 1) as u32, ..run.bumped("tx-aborted"@) };
            let said = seq![SayingView::Line("note: tx aborted: "@ + why)];
            lemma_progress_fits(on, said, n - 1);
            lemma_progress_fits(
                on,
                said.push(
                    SayingView::Broken(
                        ViolationView { label: "panic-in-statement"@, detail: why },
                    ),
                ),
                n - 1,
            );
        },
        _ => {},
    }
}

proof fn lemma_read_fits(
    run: DriverView,
    r: Result<Table, FailView>,
    left: u64,
    rows: usize,
    n: int,
)
    requires
        run.spare(n),
        n >= 2,
    ensures
        (r matches Ok(live) ==> run.hist.live(live) || diff::showable(live) && diff::showable(
            run.hist.table,
        )) ==> run.on_resolve(r, left).fits && run.on_periodic(r).fits,
        run.on_live_read(r, rows).fits,
{
    reveal(DriverView::on_resolve);
    reveal(DriverView::on_live_read);
    reveal(DriverView::on_periodic);
    match r {
        Ok(live) => {
            let applied = table::table_digest(live) == run.hist.snaps.last().digest;
            let resolved = DriverView { hist: run.hist.resolved(live), ..run };
            lemma_start_fits(resolved, Seq::empty(), n);
            lemma_progress_fits(
                resolved,
                seq![
                    SayingView::Reached(Cover::UncertainCommitWasApplied, applied),
                    SayingView::Reached(Cover::UncertainCommitWasNotApplied, !applied),
                ],
                n,
            );
            lemma_progress_fits(
                DriverView { hist: run.hist.reset(live), ..run },
                seq![neither_after(run.hist, live, rows)],
                n,
            );
            lemma_next_fits(resolved, Seq::empty(), n);
        },
        Err(e) => {
            lemma_progress_fits(
                DriverView { failures: (run.failures + 1) as u32, ..run },
                seq![
                    SayingView::Line(
                        "note: live read after uncertain commit failed: "@ + e.wording(),
                    ),
                ],
                n,
            );
            lemma_next_fits(
                run,
                seq![SayingView::Line("note: periodic read failed: "@ + e.wording())],
                n,
            );
        },
    }
}

proof fn lemma_counted_fits(w: WorkView, ev: CheckpointEvent, n: int)
    requires
        stats::spare(w.stats, n),
        n >= 1,
    ensures
        checkpoint::can_count(w, ev),
{
    stats::lemma_spare(w.stats, n, "checkpoint-ok"@);
    stats::lemma_spare(w.stats, n, "checkpoint-busy"@);
    stats::lemma_spare(w.stats, n, "checkpoint-error"@);
}

/// Where there is room, a turn fits whatever is drawn in it.
proof fn lemma_roomy_fits(run: DriverView, ev: EventView)
    requires
        run.awaits(ev),
        run.roomy(ev),
    ensures
        run.step(ev).fits,
{
    let bare = run.at(PhaseView::Over);
    let c = bare.work.stats;
    let n = RAISES_PER_TURN as int;
    match run.phase {
        PhaseView::Start => lemma_begin_fits(bare, Seq::empty(), n),
        PhaseView::Spawn => lemma_begin_fits(bare, Seq::empty(), n),
        PhaseView::WindowRead { .. } => reveal(DriverView::on_window_read),
        PhaseView::WindowEnd { end } => {
            lemma_end_fits(bare, Seq::empty(), n);
            lemma_start_fits(DriverView { saw_commit: false, ..bare }, Seq::empty(), n);
        },
        PhaseView::WindowOpen => lemma_start_fits(
            DriverView { window: ev->Window_0, ..bare },
            Seq::empty(),
            n,
        ),
        PhaseView::CutBetween => lemma_end_fits(
            DriverView {
                crashed: ev->Went_0,
                cut_missed: !ev->Went_0,
                crashes: (bare.crashes + 1) as u64,
                ..bare
            },
            seq![SayingView::Reached(Cover::GuestPowerCutBetweenTx, ev->Went_0)],
            n,
        ),
        PhaseView::Resolve { left } => lemma_read_fits(bare, ev->Read_0, left, 0, n),
        PhaseView::ResolvePause { .. } => {
            reveal(DriverView::on_resolve_pause);
            stats::lemma_spare(c, n, "forced-reopen-unresolved-commit"@);
            lemma_end_fits(
                bare.bumped("forced-reopen-unresolved-commit"@),
                Seq::empty(),
                n - 1,
            );
        },
        PhaseView::ResolveDiff => lemma_start_fits(
            bare,
            seq![files_said(ev->Lengths_0, ev->Lengths_1)],
            n,
        ),
        PhaseView::Tx => lemma_end_fits(bare.with_crash(), Seq::empty(), n),
        PhaseView::TxProbe { outcome } => lemma_outcome_fits(bare, outcome, n),
        PhaseView::LiveRead { pre_rows } => lemma_read_fits(bare, ev->Read_0, 0, pre_rows, n),
        PhaseView::BusyPause => lemma_progress_fits(bare, Seq::empty(), n),
        PhaseView::Periodic => lemma_read_fits(bare, ev->Read_0, 0, 0, n),
        PhaseView::PeriodicDiff => lemma_next_fits(
            bare,
            seq![files_said(ev->Lengths_0, ev->Lengths_1)],
            n,
        ),
        PhaseView::Checkpoint { .. } => {
            reveal(DriverView::on_checkpoint);
            lemma_counted_fits(bare.work, ev->Checkpointed_0, n);
        },
        PhaseView::CheckpointProbe => {
            stats::lemma_spare(c, n, "crash-detected-in-checkpoint"@);
            lemma_end_fits(
                bare.bumped("crash-detected-in-checkpoint"@).with_crash(),
                seq![SayingView::Reached(Cover::EnginePowerCutInCheckpoint, true)],
                n - 1,
            );
            lemma_next_fits(bare, Seq::empty(), n);
        },
        PhaseView::Integrity => {
            reveal(DriverView::on_integrity);
            lemma_next_fits(
                bare,
                match ev->Sql_0 {
                    Ok(shown) => log::broken_said(
                        report::found(
                            rows::integrity_verdict(shown, "integrity-check-failed"@),
                        ),
                    ),
                    Err(e) => seq![
                        SayingView::Line("note: integrity_check failed to run: "@ + e.wording()),
                    ],
                },
                n,
            );
        },
        PhaseView::Join => {
            reveal(DriverView::on_joined);
            match ev->Joined_0 {
                Some(added) => lemma_end_fits(
                    DriverView {
                        work: WorkView { stats: stats::merged(c, added), ..bare.work },
                        ..bare
                    },
                    seq![SayingView::Reached(Cover::BgThreadRan, true)],
                    n,
                ),
                None => lemma_end_fits(
                    bare,
                    seq![
                        SayingView::Broken(
                            ViolationView { label: "bg-thread-join-failed"@, detail: ""@ },
                        ),
                    ],
                    n,
                ),
            }
        },
        PhaseView::EndProbe => {
            stats::lemma_spare(c, n, "crash-detected-at-epoch-end"@);
            lemma_end_fits(
                bare.bumped("crash-detected-at-epoch-end"@).with_crash(),
                Seq::empty(),
                n - 1,
            );
            lemma_end_fits(bare, Seq::empty(), n);
        },
        PhaseView::Arm => lemma_begin_fits(
            DriverView { epoch: (bare.epoch + 1) as u64, ..bare },
            seq![SayingView::Reached(Cover::RecoveredAfterPowerCut, bare.crashed)],
            n,
        ),
        _ => {},
    }
}

impl Driver {
    /// Tells whether there is room for the next turn, whatever is drawn in it.
    pub fn can_resume(&self, ev: &Event) -> (yes: bool)
        requires
            self.wf(),
            ev.wf(),
            self@.awaits(ev@),
        ensures
            yes == self@.roomy(ev@),
            yes ==> self@.step(ev@).fits,
    {
        proof {
            if self@.roomy(ev@) {
                lemma_roomy_fits(self@, ev@);
            }
        }
        let room: bool = self.wl.stats.has_spare(RAISES_PER_TURN) && self.crashes < u64::MAX - 1
            && self.epochs_done < u64::MAX;
        match ev {
            Event::Read(Ok(live)) => {
                let shows: bool = match self.phase {
                    Phase::Resolve { .. } | Phase::Periodic => !self.hist.may_show(live),
                    _ => false,
                };
                room && (!shows || can_show(live) && can_show(&self.hist.model))
            },
            Event::Joined(Some(c)) => {
                if room && self.wl.stats.can_absorb(c) {
                    let mut both = self.wl.stats.clone();
                    both.absorb(c);
                    both.has_spare(RAISES_PER_TURN)
                } else {
                    false
                }
            },
            _ => room,
        }
    }
}

} // verus!
