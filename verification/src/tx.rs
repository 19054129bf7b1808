//! One transaction attempt: which statements it runs, what each outcome means,
//! and what the whole attempt came to.
//!
//! The attempt is a state machine. Each turn says what is to be done next; the
//! caller does it and hands back what came of it.

use crate::exec;
use crate::exec::{Cells, Fail, FailView};
use crate::prng;
use crate::report;
use crate::report::{listed, no_violation, one_violation, Violation, ViolationView};
use crate::rows;
use crate::rows::{can_sum, check_count};
use crate::stats;
use crate::table;
use crate::table::{digest_model, row_count, Model, Table};
use crate::text;
use crate::text::{join2, push_unsigned, take_chars};
use crate::workload::{Expect, WorkView, Workload};
use vstd::prelude::*;
use vstd::string::*;

verus! {

/// Outcome of one transaction attempt.
pub enum TxOutcome {
    Committed(Model),
    RolledBack,
    /// The commit (or the autocommit statement) reported an error: applied or not.
    Uncertain(Model),
    /// An I/O-ish error made the transaction be abandoned (rollback attempted).
    Aborted(String),
    /// The engine said it was busy.
    Busy,
}

/// Outcome of one transaction attempt, as a mathematical value.
pub enum OutcomeView {
    Committed(Table),
    RolledBack,
    Uncertain(Table),
    Aborted(Seq<char>),
    Busy,
}

impl View for TxOutcome {
    type V = OutcomeView;

    open spec fn view(&self) -> OutcomeView {
        match self {
            TxOutcome::Committed(m) => OutcomeView::Committed(table::table(*m)),
            TxOutcome::RolledBack => OutcomeView::RolledBack,
            TxOutcome::Uncertain(m) => OutcomeView::Uncertain(table::table(*m)),
            TxOutcome::Aborted(why) => OutcomeView::Aborted(why@),
            TxOutcome::Busy => OutcomeView::Busy,
        }
    }
}

/// What an attempt is waiting for.
pub enum TxPhase {
    /// To begin.
    Start,
    /// The outcome of a statement outside any transaction.
    Autocommit { sql: String, next: Model, expect: Expect },
    /// The outcome of `BEGIN`.
    Begin,
    /// The power cut.
    Cut,
    /// The outcome of `SAVEPOINT`.
    Savepoint { name: String },
    /// The outcome of `ROLLBACK TO`.
    RollbackTo { name: String, saved: Model },
    /// The outcome of the `RELEASE` that follows it.
    ReleaseRolledBack,
    /// The outcome of a `RELEASE`.
    Release,
    /// The outcome of a statement inside the transaction.
    Statement { sql: String, next: Model, expect: Expect },
    /// The digest of what the transaction sees.
    ReadBack,
    /// The outcome of the final `ROLLBACK`.
    Rollback,
    /// The outcome of `COMMIT`.
    Commit,
    /// The end of a `ROLLBACK` whose outcome does not matter.
    Abandon { outcome: TxOutcome, crashed: bool },
    /// Nothing more.
    Over,
}

/// What an attempt is waiting for, as a mathematical value.
pub enum PhaseView {
    Start,
    Autocommit { sql: Seq<char>, next: Table, expect: Expect },
    Begin,
    Cut,
    Savepoint { name: Seq<char> },
    RollbackTo { name: Seq<char>, saved: Table },
    ReleaseRolledBack,
    Release,
    Statement { sql: Seq<char>, next: Table, expect: Expect },
    ReadBack,
    Rollback,
    Commit,
    Abandon { outcome: OutcomeView, crashed: bool },
    Over,
}

impl View for TxPhase {
    type V = PhaseView;

    open spec fn view(&self) -> PhaseView {
        match self {
            TxPhase::Start => PhaseView::Start,
            TxPhase::Autocommit { sql, next, expect } => PhaseView::Autocommit {
                sql: sql@,
                next: table::table(*next),
                expect: *expect,
            },
            TxPhase::Begin => PhaseView::Begin,
            TxPhase::Cut => PhaseView::Cut,
            TxPhase::Savepoint { name } => PhaseView::Savepoint { name: name@ },
            TxPhase::RollbackTo { name, saved } => PhaseView::RollbackTo {
                name: name@,
                saved: table::table(*saved),
            },
            TxPhase::ReleaseRolledBack => PhaseView::ReleaseRolledBack,
            TxPhase::Release => PhaseView::Release,
            TxPhase::Statement { sql, next, expect } => PhaseView::Statement {
                sql: sql@,
                next: table::table(*next),
                expect: *expect,
            },
            TxPhase::ReadBack => PhaseView::ReadBack,
            TxPhase::Rollback => PhaseView::Rollback,
            TxPhase::Commit => PhaseView::Commit,
            TxPhase::Abandon { outcome, crashed } => PhaseView::Abandon {
                outcome: outcome@,
                crashed: *crashed,
            },
            TxPhase::Over => PhaseView::Over,
        }
    }
}

/// What came of an action.
pub enum TxEvent {
    /// The attempt is to begin.
    Start,
    /// What a statement gave.
    Sql(Result<Vec<Vec<String>>, Fail>),
    /// The digest and the number of rows that the connection shows.
    Digest(Result<(u64, usize), Fail>),
    /// The power was cut.
    PowerCut,
}

/// What came of an action, as a mathematical value.
pub enum EventView {
    Start,
    Sql(Result<Cells, FailView>),
    Digest(Result<(u64, usize), FailView>),
    PowerCut,
}

impl View for TxEvent {
    type V = EventView;

    open spec fn view(&self) -> EventView {
        match self {
            TxEvent::Start => EventView::Start,
            TxEvent::Sql(r) => EventView::Sql(exec::result_view(*r)),
            TxEvent::Digest(Ok(d)) => EventView::Digest(Ok(*d)),
            TxEvent::Digest(Err(e)) => EventView::Digest(Err(e@)),
            TxEvent::PowerCut => EventView::PowerCut,
        }
    }
}

/// What is to be done next.
pub enum TxAction {
    /// Run a statement on the writing connection.
    Exec(String),
    /// Read the table on the writing connection and digest it.
    ReadDigest,
    /// Cut the power.
    PowerCut,
    /// The attempt is over; the flag tells whether the power was cut.
    Finish(TxOutcome, bool),
}

/// What is to be done next, as a mathematical value.
pub enum TxActionView {
    Exec(Seq<char>),
    ReadDigest,
    PowerCut,
    Finish(OutcomeView, bool),
}

impl View for TxAction {
    type V = TxActionView;

    open spec fn view(&self) -> TxActionView {
        match self {
            TxAction::Exec(sql) => TxActionView::Exec(sql@),
            TxAction::ReadDigest => TxActionView::ReadDigest,
            TxAction::PowerCut => TxActionView::PowerCut,
            TxAction::Finish(outcome, crashed) => TxActionView::Finish(outcome@, *crashed),
        }
    }
}

/// One turn of an attempt: what is to be done, and what there is to report.
pub struct TxTurn {
    pub action: TxAction,
    pub violations: Vec<Violation>,
    /// A line for the log.
    pub note: Option<String>,
}

/// A transaction attempt.
pub struct TxRun {
    pub phase: TxPhase,
    /// The table before the attempt.
    pub base: Model,
    /// The table as the transaction sees it.
    pub cur: Model,
    /// Open savepoints, the outermost first, with the table at each.
    pub savepoints: Vec<(String, Model)>,
    /// How many statements have been run.
    pub index: u64,
    /// How many statements there are to run.
    pub nstmts: u64,
    /// Before which statement the power is cut, if it is.
    pub crash_after: Option<u64>,
    /// Whether the power is to be cut in the middle.
    pub crash_mid_tx: bool,
    pub big_value_permille: u64,
}

/// A transaction attempt, as a mathematical value.
#[verifier::ext_equal]
pub struct TxView {
    pub phase: PhaseView,
    pub base: Table,
    pub cur: Table,
    pub savepoints: Seq<(Seq<char>, Table)>,
    pub index: u64,
    pub nstmts: u64,
    pub crash_after: Option<u64>,
    pub crash_mid_tx: bool,
    pub big_value_permille: u64,
}

/// Savepoints as mathematical values.
pub open spec fn savepoint_views(list: Seq<(String, Model)>) -> Seq<(Seq<char>, Table)> {
    list.map_values(|s: (String, Model)| (s.0@, table::table(s.1)))
}

impl View for TxRun {
    type V = TxView;

    open spec fn view(&self) -> TxView {
        TxView {
            phase: self.phase@,
            base: table::table(self.base),
            cur: table::table(self.cur),
            savepoints: savepoint_views(self.savepoints@),
            index: self.index,
            nstmts: self.nstmts,
            crash_after: self.crash_after,
            crash_mid_tx: self.crash_mid_tx,
            big_value_permille: self.big_value_permille,
        }
    }
}

/// One turn of an attempt, as a mathematical value.
#[verifier::ext_equal]
pub struct TxStep {
    pub tx: TxView,
    pub work: WorkView,
    pub action: TxActionView,
    pub violations: Seq<ViolationView>,
    pub note: Option<Seq<char>>,
    /// Whether every counter, key and number stays within 64 bits.
    pub fits: bool,
}

/// What a turn is, apart from whether it stays within 64 bits.
pub open spec fn is_turn(step: TxStep, tx: TxView, work: WorkView, turn: TxTurn) -> bool {
    &&& tx == step.tx
    &&& work == step.work
    &&& turn.action@ == step.action
    &&& report::violation_views(turn.violations@) == step.violations
    &&& text::maybe_text(turn.note) == step.note
}

impl TxView {
    /// A turn that asks for something and goes on waiting.
    pub open spec fn ask(
        self,
        phase: PhaseView,
        work: WorkView,
        action: TxActionView,
        violations: Seq<ViolationView>,
    ) -> TxStep {
        TxStep {
            tx: TxView { phase, ..self },
            work,
            action,
            violations,
            note: None,
            fits: true,
        }
    }

    /// A turn that ends the attempt.
    pub open spec fn finish(
        self,
        work: WorkView,
        outcome: OutcomeView,
        violations: Seq<ViolationView>,
    ) -> TxStep {
        self.ask(PhaseView::Over, work, TxActionView::Finish(outcome, false), violations)
    }

    /// A turn that rolls back, whatever comes of it, and then ends the attempt.
    pub open spec fn abandon(self, work: WorkView, outcome: OutcomeView) -> TxStep {
        self.ask(
            PhaseView::Abandon { outcome, crashed: false },
            work,
            TxActionView::Exec("ROLLBACK"@),
            Seq::empty(),
        )
    }

    /// The turn on a failure of a statement that only frames others: busy ends
    /// the attempt, any other failure rolls it back.
    pub open spec fn framing_failed(
        self,
        work: WorkView,
        what: Seq<char>,
        e: FailView,
    ) -> TxStep {
        if e is Busy {
            self.finish(work, OutcomeView::Busy, Seq::empty())
        } else {
            self.abandon(work, OutcomeView::Aborted(what + e.wording()))
        }
    }

    /// The turn that runs the next statement of the transaction.
    pub open spec fn issue(self, w: WorkView, violations: Seq<ViolationView>) -> TxStep {
        let plan = w.plan(self.cur, self.big_value_permille);
        let sql = plan.sql(w.next_id);
        TxStep {
            fits: w.statement_fits(self.cur, self.big_value_permille),
            ..self.ask(
                PhaseView::Statement {
                    sql,
                    next: plan.effect(self.cur, w.next_id),
                    expect: plan.expect(),
                },
                w.planned(self.cur, self.big_value_permille),
                TxActionView::Exec(sql),
                violations,
            )
        }
    }

    /// The name of the next savepoint.
    pub open spec fn savepoint_name(self) -> Seq<char> {
        "sp"@ + text::decimal(self.savepoints.len() as int)
    }

    /// The turn before the next statement: a power cut where it is due,
    /// sometimes a savepoint or the end of one, else the statement itself.
    pub open spec fn head(self, w: WorkView, violations: Seq<ViolationView>) -> TxStep {
        let w1 = w.drawn();
        let w2 = w1.drawn();
        if self.index >= self.nstmts {
            self.tail(w, violations)
        } else if self.crash_after == Some(self.index) {
            TxStep {
                fits: stats::has_room(w.stats, "crash-mid-tx"@, 1),
                ..self.ask(
                    PhaseView::Cut,
                    w.bumped("crash-mid-tx"@),
                    TxActionView::PowerCut,
                    violations,
                )
            }
        } else if prng::prng_hit(w.rng, 120) {
            let name = self.savepoint_name();
            self.ask(
                PhaseView::Savepoint { name },
                w1,
                TxActionView::Exec("SAVEPOINT "@ + name),
                violations,
            )
        } else if self.savepoints.len() == 0 {
            self.issue(w1, violations)
        } else if prng::prng_hit(w1.rng, 250) {
            let (name, saved) = self.savepoints.last();
            let popped = TxView { savepoints: self.savepoints.drop_last(), ..self };
            if prng::prng_hit(w2.rng, 500) {
                popped.ask(
                    PhaseView::RollbackTo { name, saved },
                    w2.drawn(),
                    TxActionView::Exec("ROLLBACK TO "@ + name),
                    violations,
                )
            } else {
                popped.ask(
                    PhaseView::Release,
                    w2.drawn(),
                    TxActionView::Exec("RELEASE "@ + name),
                    violations,
                )
            }
        } else {
            self.issue(w2, violations)
        }
    }

    /// The turn after the last statement: sometimes the transaction reads its
    /// own writes first.
    pub open spec fn tail(self, w: WorkView, violations: Seq<ViolationView>) -> TxStep {
        if prng::prng_hit(w.rng, 400) {
            self.ask(PhaseView::ReadBack, w.drawn(), TxActionView::ReadDigest, violations)
        } else {
            self.end(w.drawn(), violations)
        }
    }

    /// The turn that commits, or sometimes rolls back.
    pub open spec fn end(self, w: WorkView, violations: Seq<ViolationView>) -> TxStep {
        if prng::prng_hit(w.rng, 100) {
            self.ask(
                PhaseView::Rollback,
                w.drawn(),
                TxActionView::Exec("ROLLBACK"@),
                violations,
            )
        } else {
            self.ask(PhaseView::Commit, w.drawn(), TxActionView::Exec("COMMIT"@), violations)
        }
    }

    /// The first turn.
    pub open spec fn on_start(self, w: WorkView) -> TxStep {
        let w1 = w.drawn();
        if prng::prng_hit(w.rng, 300) {
            let plan = w1.plan(self.base, self.big_value_permille);
            let sql = plan.sql(w1.next_id);
            TxStep {
                fits: w1.statement_fits(self.base, self.big_value_permille),
                ..self.ask(
                    PhaseView::Autocommit {
                        sql,
                        next: plan.effect(self.base, w1.next_id),
                        expect: plan.expect(),
                    },
                    w1.planned(self.base, self.big_value_permille),
                    TxActionView::Exec(sql),
                    Seq::empty(),
                )
            }
        } else {
            self.ask(PhaseView::Begin, w1, TxActionView::Exec("BEGIN"@), Seq::empty())
        }
    }

    /// The turn on the outcome of a statement outside any transaction. Such a
    /// statement that fails is an uncertain commit.
    pub open spec fn on_autocommit(
        self,
        w: WorkView,
        r: Result<Cells, FailView>,
        sql: Seq<char>,
        next: Table,
        expect: Expect,
    ) -> TxStep {
        match r {
            Ok(shown) => match expect {
                Expect::Count => TxStep {
                    fits: rows::sum_fits(self.base),
                    ..self.finish(
                        w,
                        OutcomeView::Committed(self.base),
                        report::found(rows::count_verdict(shown, self.base, "autocommit"@)),
                    )
                },
                Expect::Success => self.finish(w, OutcomeView::Committed(next), Seq::empty()),
                Expect::Constraint => self.finish(
                    w,
                    OutcomeView::Committed(self.base),
                    seq![ViolationView { label: "constraint-not-enforced"@, detail: sql }],
                ),
            },
            Err(e) => if e is Constraint && expect == Expect::Constraint {
                self.finish(w, OutcomeView::Committed(self.base), Seq::empty())
            } else if e is Busy {
                self.finish(w, OutcomeView::Busy, Seq::empty())
            } else {
                let w1 = w.bumped("autocommit-error"@);
                let room = stats::has_room(w.stats, "autocommit-error"@, 1);
                if expect == Expect::Success && !(e is Constraint) {
                    TxStep {
                        note: Some("note: autocommit error: "@ + e.wording()),
                        fits: room,
                        ..self.finish(w1, OutcomeView::Uncertain(next), Seq::empty())
                    }
                } else {
                    TxStep {
                        fits: room,
                        ..self.finish(w1, OutcomeView::Aborted(e.wording()), Seq::empty())
                    }
                }
            },
        }
    }

    /// The turn on the outcome of `BEGIN`.
    pub open spec fn on_begin(self, w: WorkView, r: Result<Cells, FailView>) -> TxStep {
        match r {
            Err(e) => if e is Busy {
                self.finish(w, OutcomeView::Busy, Seq::empty())
            } else {
                self.finish(w, OutcomeView::Aborted("begin: "@ + e.wording()), Seq::empty())
            },
            Ok(_) => {
                let nstmts = prng::prng_pick(w.rng, 1, 15);
                let w1 = w.drawn();
                let begun = TxView {
                    cur: self.base,
                    savepoints: Seq::empty(),
                    index: 0,
                    nstmts,
                    crash_after: if self.crash_mid_tx {
                        Some(prng::prng_pick(w1.rng, 0, (nstmts - 1) as u64))
                    } else {
                        None
                    },
                    ..self
                };
                begun.head(
                    if self.crash_mid_tx {
                        w1.drawn()
                    } else {
                        w1
                    },
                    Seq::empty(),
                )
            },
        }
    }

    /// The turn on the outcome of `SAVEPOINT`.
    pub open spec fn on_savepoint(
        self,
        w: WorkView,
        r: Result<Cells, FailView>,
        name: Seq<char>,
    ) -> TxStep {
        match r {
            Ok(_) => {
                let marked = TxView { savepoints: self.savepoints.push((name, self.cur)), ..self };
                let step = marked.issue(w.bumped("savepoint"@), Seq::empty());
                TxStep { fits: step.fits && stats::has_room(w.stats, "savepoint"@, 1), ..step }
            },
            Err(e) => self.framing_failed(w, "savepoint: "@, e),
        }
    }

    /// The turn on the outcome of `ROLLBACK TO`, which takes the table back to
    /// what it was at the savepoint.
    pub open spec fn on_rollback_to(
        self,
        w: WorkView,
        r: Result<Cells, FailView>,
        name: Seq<char>,
        saved: Table,
    ) -> TxStep {
        match r {
            Ok(_) => TxStep {
                fits: stats::has_room(w.stats, "rollback-to"@, 1),
                ..(TxView { cur: saved, ..self }).ask(
                    PhaseView::ReleaseRolledBack,
                    w.bumped("rollback-to"@),
                    TxActionView::Exec("RELEASE "@ + name),
                    Seq::empty(),
                )
            },
            Err(e) => self.framing_failed(w, "rollback-to: "@, e),
        }
    }

    /// The turn on the outcome of a `RELEASE`.
    pub open spec fn on_release(
        self,
        w: WorkView,
        r: Result<Cells, FailView>,
        counted: bool,
    ) -> TxStep {
        match r {
            Ok(_) => {
                if counted {
                    let step = self.issue(w.bumped("release"@), Seq::empty());
                    TxStep { fits: step.fits && stats::has_room(w.stats, "release"@, 1), ..step }
                } else {
                    self.issue(w, Seq::empty())
                }
            },
            Err(e) => self.framing_failed(w, "release: "@, e),
        }
    }

    /// The turn on the outcome of a statement inside the transaction.
    pub open spec fn on_statement(
        self,
        w: WorkView,
        r: Result<Cells, FailView>,
        sql: Seq<char>,
        next: Table,
        expect: Expect,
    ) -> TxStep {
        let on = TxView { index: (self.index + 1) as u64, ..self };
        match r {
            Ok(shown) => match expect {
                Expect::Count => {
                    let step = on.head(w, report::found(rows::count_verdict(shown, self.cur, "in-tx"@)));
                    TxStep { fits: step.fits && rows::sum_fits(self.cur), ..step }
                },
                Expect::Success => (TxView { cur: next, ..on }).head(w, Seq::empty()),
                Expect::Constraint => on.head(
                    w,
                    seq![ViolationView { label: "constraint-not-enforced"@, detail: sql }],
                ),
            },
            Err(e) => match e {
                FailView::Constraint(msg) => if expect == Expect::Constraint {
                    on.head(w, Seq::empty())
                } else {
                    on.head(
                        w,
                        seq![
                            ViolationView {
                                label: "unexpected-constraint-error"@,
                                detail: text::first_chars(sql, 80) + ": "@ + msg,
                            },
                        ],
                    )
                },
                FailView::Busy => self.abandon(w, OutcomeView::Busy),
                _ => self.abandon(
                    w,
                    OutcomeView::Aborted(text::first_chars(sql, 60) + ": "@ + e.wording()),
                ),
            },
        }
    }

    /// The turn on what the transaction reads of its own writes.
    pub open spec fn on_read_back(
        self,
        w: WorkView,
        r: Result<(u64, usize), FailView>,
    ) -> TxStep {
        match r {
            Ok((digest, n)) => if digest != table::table_digest(self.cur) {
                self.end(
                    w,
                    seq![
                        ViolationView {
                            label: "read-your-writes-violated"@,
                            detail: "in-tx digest mismatch rows_db="@ + text::decimal(n as int)
                                + " rows_model="@ + text::decimal(self.cur.len() as int),
                        },
                    ],
                )
            } else {
                self.end(w, Seq::empty())
            },
            Err(e) => if e is Busy {
                self.end(w, Seq::empty())
            } else {
                self.abandon(w, OutcomeView::Aborted("in-tx read: "@ + e.wording()))
            },
        }
    }

    /// The turn on the outcome of the final `ROLLBACK`.
    pub open spec fn on_rollback(self, w: WorkView, r: Result<Cells, FailView>) -> TxStep {
        match r {
            Ok(_) => self.finish(w, OutcomeView::RolledBack, Seq::empty()),
            Err(e) => if e is Busy {
                self.finish(w, OutcomeView::Busy, Seq::empty())
            } else {
                self.finish(w, OutcomeView::Aborted("rollback: "@ + e.wording()), Seq::empty())
            },
        }
    }

    /// The turn on the outcome of `COMMIT`. One that fails leaves open whether
    /// it was applied.
    pub open spec fn on_commit(self, w: WorkView, r: Result<Cells, FailView>) -> TxStep {
        match r {
            Ok(_) => self.finish(w, OutcomeView::Committed(self.cur), Seq::empty()),
            Err(e) => if e is Busy {
                self.abandon(w, OutcomeView::Busy)
            } else {
                TxStep {
                    note: Some("note: COMMIT error: "@ + e.wording()),
                    fits: stats::has_room(w.stats, "commit-error"@, 1),
                    ..self.abandon(w.bumped("commit-error"@), OutcomeView::Uncertain(self.cur))
                }
            },
        }
    }

    /// Whether the statements already run are among those to run, and what the
    /// attempt may be abandoned for: never as committed, and after a power cut
    /// only as rolled back.
    pub open spec fn wf(self) -> bool {
        &&& self.phase matches PhaseView::Abandon { outcome, crashed } ==> {
            &&& !(outcome is Committed)
            &&& crashed ==> outcome is RolledBack
        }
        &&& self.nstmts <= 15
        &&& self.phase is Statement ==> self.index < self.nstmts
        &&& (self.phase is Savepoint || self.phase is RollbackTo || self.phase is Release
            || self.phase is ReleaseRolledBack) ==> self.index < self.nstmts
    }

    /// Whether an event is of the kind that the attempt is waiting for.
    pub open spec fn awaits(self, ev: EventView) -> bool {
        match self.phase {
            PhaseView::Start => ev is Start,
            PhaseView::Cut => ev is PowerCut,
            PhaseView::ReadBack => ev is Digest,
            PhaseView::Over => false,
            _ => ev is Sql,
        }
    }

    /// The turn on an event. Every turn sets the phase anew.
    pub open spec fn step(self, w: WorkView, ev: EventView) -> TxStep {
        let tx = TxView { phase: PhaseView::Over, ..self };
        match self.phase {
            PhaseView::Start => tx.on_start(w),
            PhaseView::Autocommit { sql, next, expect } => tx.on_autocommit(
                w,
                ev->Sql_0,
                sql,
                next,
                expect,
            ),
            PhaseView::Begin => tx.on_begin(w, ev->Sql_0),
            PhaseView::Cut => tx.ask(
                PhaseView::Abandon { outcome: OutcomeView::RolledBack, crashed: true },
                w,
                TxActionView::Exec("ROLLBACK"@),
                Seq::empty(),
            ),
            PhaseView::Savepoint { name } => tx.on_savepoint(w, ev->Sql_0, name),
            PhaseView::RollbackTo { name, saved } => tx.on_rollback_to(
                w,
                ev->Sql_0,
                name,
                saved,
            ),
            PhaseView::ReleaseRolledBack => tx.on_release(w, ev->Sql_0, false),
            PhaseView::Release => tx.on_release(w, ev->Sql_0, true),
            PhaseView::Statement { sql, next, expect } => tx.on_statement(
                w,
                ev->Sql_0,
                sql,
                next,
                expect,
            ),
            PhaseView::ReadBack => tx.on_read_back(w, ev->Digest_0),
            PhaseView::Rollback => tx.on_rollback(w, ev->Sql_0),
            PhaseView::Commit => tx.on_commit(w, ev->Sql_0),
            PhaseView::Abandon { outcome, crashed } => tx.ask(
                PhaseView::Over,
                w,
                TxActionView::Finish(outcome, crashed),
                Seq::empty(),
            ),
            PhaseView::Over => tx.finish(w, OutcomeView::RolledBack, Seq::empty()),
        }
    }
}

impl TxRun {
    /// An attempt on a table.
    pub fn start(base: Model, crash_mid_tx: bool, big_value_permille: u64) -> (tx: TxRun)
        ensures
            tx@ == (TxView {
                phase: PhaseView::Start,
                base: table::table(base),
                cur: Map::empty(),
                savepoints: Seq::empty(),
                index: 0,
                nstmts: 0,
                crash_after: None,
                crash_mid_tx,
                big_value_permille,
            }),
            tx@.wf(),
    {
        let cur = Model::new();
        let savepoints: Vec<(String, Model)> = Vec::new();
        proof {
            broadcast use vstd::std_specs::btree::group_btree_axioms;

            assert(table::table(cur) =~= Map::empty());
            assert(savepoint_views(savepoints@) =~= Seq::empty());
        }
        TxRun {
            phase: TxPhase::Start,
            base,
            cur,
            savepoints,
            index: 0,
            nstmts: 0,
            crash_after: None,
            crash_mid_tx,
            big_value_permille,
        }
    }

    fn ask(
        self,
        phase: TxPhase,
        action: TxAction,
        violations: Vec<Violation>,
        Ghost(w): Ghost<WorkView>,
    ) -> (out: (TxRun, TxTurn))
        ensures
            is_turn(
                self@.ask(phase@, w, action@, report::violation_views(violations@)),
                out.0@,
                w,
                out.1,
            ),
            out.1.note is None,
    {
        let tx = TxRun { phase, ..self };
        (tx, TxTurn { action, violations, note: None })
    }

    fn finish(
        self,
        outcome: TxOutcome,
        violations: Vec<Violation>,
        Ghost(w): Ghost<WorkView>,
    ) -> (out: (TxRun, TxTurn))
        ensures
            is_turn(
                self@.finish(w, outcome@, report::violation_views(violations@)),
                out.0@,
                w,
                out.1,
            ),
            out.1.note is None,
    {
        self.ask(TxPhase::Over, TxAction::Finish(outcome, false), violations, Ghost(w))
    }

    fn abandon(self, outcome: TxOutcome, Ghost(w): Ghost<WorkView>) -> (out: (TxRun, TxTurn))
        ensures
            is_turn(self@.abandon(w, outcome@), out.0@, w, out.1),
            out.1.note is None,
    {
        self.ask(
            TxPhase::Abandon { outcome, crashed: false },
            TxAction::Exec("ROLLBACK".to_owned()),
            no_violation(),
            Ghost(w),
        )
    }

    fn framing_failed(self, what: &str, e: Fail, Ghost(w): Ghost<WorkView>) -> (out: (
        TxRun,
        TxTurn,
    ))
        ensures
            is_turn(self@.framing_failed(w, what@, e@), out.0@, w, out.1),
    {
        match e {
            Fail::Busy => self.finish(TxOutcome::Busy, no_violation(), Ghost(w)),
            e => {
                let why = e.worded(what);
                self.abandon(TxOutcome::Aborted(why), Ghost(w))
            },
        }
    }

    fn issue(self, wl: &mut Workload, violations: Vec<Violation>) -> (out: (TxRun, TxTurn))
        requires
            old(wl).wf(),
            old(wl)@.statement_fits(self@.cur, self@.big_value_permille),
        ensures
            is_turn(
                self@.issue(old(wl)@, report::violation_views(violations@)),
                out.0@,
                final(wl)@,
                out.1,
            ),
            final(wl).wf(),
    {
        let (sql, next, expect) = wl.statement(&self.cur, self.big_value_permille);
        let text = sql.clone();
        self.ask(
            TxPhase::Statement { sql, next, expect },
            TxAction::Exec(text),
            violations,
            Ghost(wl@),
        )
    }

    fn end(self, wl: &mut Workload, violations: Vec<Violation>) -> (out: (TxRun, TxTurn))
        requires
            old(wl).wf(),
        ensures
            is_turn(
                self@.end(old(wl)@, report::violation_views(violations@)),
                out.0@,
                final(wl)@,
                out.1,
            ),
            final(wl).wf(),
    {
        if wl.rng.chance(100) {
            self.ask(
                TxPhase::Rollback,
                TxAction::Exec("ROLLBACK".to_owned()),
                violations,
                Ghost(wl@),
            )
        } else {
            self.ask(
                TxPhase::Commit,
                TxAction::Exec("COMMIT".to_owned()),
                violations,
                Ghost(wl@),
            )
        }
    }

    fn tail(self, wl: &mut Workload, violations: Vec<Violation>) -> (out: (TxRun, TxTurn))
        requires
            old(wl).wf(),
        ensures
            is_turn(
                self@.tail(old(wl)@, report::violation_views(violations@)),
                out.0@,
                final(wl)@,
                out.1,
            ),
            final(wl).wf(),
    {
        if wl.rng.chance(400) {
            self.ask(TxPhase::ReadBack, TxAction::ReadDigest, violations, Ghost(wl@))
        } else {
            self.end(wl, violations)
        }
    }

    fn head(self, wl: &mut Workload, violations: Vec<Violation>) -> (out: (TxRun, TxTurn))
        requires
            old(wl).wf(),
            self@.head(old(wl)@, report::violation_views(violations@)).fits,
        ensures
            is_turn(
                self@.head(old(wl)@, report::violation_views(violations@)),
                out.0@,
                final(wl)@,
                out.1,
            ),
            final(wl).wf(),
    {
        if self.index >= self.nstmts {
            return self.tail(wl, violations);
        }
        let due: bool = match self.crash_after {
            Some(i) => i == self.index,
            None => false,
        };
        if due {
            wl.bump("crash-mid-tx");
            return self.ask(TxPhase::Cut, TxAction::PowerCut, violations, Ghost(wl@));
        }
        if wl.rng.chance(120) {
            let mut name = "sp".to_owned();
            push_unsigned(&mut name, self.savepoints.len() as u64);
            let sql = join2("SAVEPOINT ", name.as_str());
            return self.ask(
                TxPhase::Savepoint { name },
                TxAction::Exec(sql),
                violations,
                Ghost(wl@),
            );
        }
        if self.savepoints.len() == 0 {
            return self.issue(wl, violations);
        }
        if !wl.rng.chance(250) {
            return self.issue(wl, violations);
        }
        let ghost before = self@;
        let mut tx = self;
        match tx.savepoints.pop() {
            Some((name, saved)) => {
                proof {
                    assert(tx@ =~= (TxView {
                        savepoints: before.savepoints.drop_last(),
                        ..before
                    }));
                }
                if wl.rng.chance(500) {
                    let sql = join2("ROLLBACK TO ", name.as_str());
                    tx.ask(
                        TxPhase::RollbackTo { name, saved },
                        TxAction::Exec(sql),
                        violations,
                        Ghost(wl@),
                    )
                } else {
                    let sql = join2("RELEASE ", name.as_str());
                    tx.ask(TxPhase::Release, TxAction::Exec(sql), violations, Ghost(wl@))
                }
            },
            None => tx.issue(wl, violations),
        }
    }

    fn on_start(self, wl: &mut Workload) -> (out: (TxRun, TxTurn))
        requires
            old(wl).wf(),
            self@.on_start(old(wl)@).fits,
        ensures
            is_turn(self@.on_start(old(wl)@), out.0@, final(wl)@, out.1),
            final(wl).wf(),
    {
        if wl.rng.chance(300) {
            let (sql, next, expect) = wl.statement(&self.base, self.big_value_permille);
            let text = sql.clone();
            self.ask(
                TxPhase::Autocommit { sql, next, expect },
                TxAction::Exec(text),
                no_violation(),
                Ghost(wl@),
            )
        } else {
            self.ask(
                TxPhase::Begin,
                TxAction::Exec("BEGIN".to_owned()),
                no_violation(),
                Ghost(wl@),
            )
        }
    }

    fn on_autocommit(
        self,
        wl: &mut Workload,
        r: Result<Vec<Vec<String>>, Fail>,
        sql: String,
        next: Model,
        expect: Expect,
    ) -> (out: (TxRun, TxTurn))
        requires
            old(wl).wf(),
            self@.on_autocommit(
                old(wl)@,
                exec::result_view(r),
                sql@,
                table::table(next),
                expect,
            ).fits,
        ensures
            is_turn(
                self@.on_autocommit(
                    old(wl)@,
                    exec::result_view(r),
                    sql@,
                    table::table(next),
                    expect,
                ),
                out.0@,
                final(wl)@,
                out.1,
            ),
            final(wl).wf(),
    {
        match r {
            Ok(shown) => match expect {
                Expect::Count => {
                    let found = listed(check_count(&shown, &self.base, "autocommit"));
                    let base = self.base.clone();
                    self.finish(TxOutcome::Committed(base), found, Ghost(wl@))
                },
                Expect::Success => {
                    self.finish(TxOutcome::Committed(next), no_violation(), Ghost(wl@))
                },
                Expect::Constraint => {
                    let found = one_violation("constraint-not-enforced", sql);
                    let base = self.base.clone();
                    self.finish(TxOutcome::Committed(base), found, Ghost(wl@))
                },
            },
            Err(Fail::Busy) => self.finish(TxOutcome::Busy, no_violation(), Ghost(wl@)),
            Err(e) => {
                let constraint: bool = match &e {
                    Fail::Constraint(_) => true,
                    _ => false,
                };
                if constraint && expect == Expect::Constraint {
                    let base = self.base.clone();
                    return self.finish(TxOutcome::Committed(base), no_violation(), Ghost(wl@));
                }
                wl.bump("autocommit-error");
                if expect == Expect::Success && !constraint {
                    let note = e.worded("note: autocommit error: ");
                    let (tx, turn) = self.finish(
                        TxOutcome::Uncertain(next),
                        no_violation(),
                        Ghost(wl@),
                    );
                    (tx, TxTurn { note: Some(note), ..turn })
                } else {
                    let why = e.wording();
                    self.finish(TxOutcome::Aborted(why), no_violation(), Ghost(wl@))
                }
            },
        }
    }

    fn on_begin(self, wl: &mut Workload, r: Result<Vec<Vec<String>>, Fail>) -> (out: (
        TxRun,
        TxTurn,
    ))
        requires
            old(wl).wf(),
            self@.on_begin(old(wl)@, exec::result_view(r)).fits,
        ensures
            is_turn(
                self@.on_begin(old(wl)@, exec::result_view(r)),
                out.0@,
                final(wl)@,
                out.1,
            ),
            final(wl).wf(),
    {
        match r {
            Err(Fail::Busy) => self.finish(TxOutcome::Busy, no_violation(), Ghost(wl@)),
            Err(e) => {
                let why = e.worded("begin: ");
                self.finish(TxOutcome::Aborted(why), no_violation(), Ghost(wl@))
            },
            Ok(_) => {
                let nstmts: u64 = wl.rng.range(1, 15);
                let crash_after: Option<u64> = if self.crash_mid_tx {
                    Some(wl.rng.range(0, nstmts - 1))
                } else {
                    None
                };
                let cur = self.base.clone();
                let tx = TxRun {
                    cur,
                    savepoints: Vec::new(),
                    index: 0,
                    nstmts,
                    crash_after,
                    ..self
                };
                proof {
                    assert(tx@.savepoints =~= Seq::empty());
                }
                let none = no_violation();
                tx.head(wl, none)
            },
        }
    }

    fn on_savepoint(
        self,
        wl: &mut Workload,
        r: Result<Vec<Vec<String>>, Fail>,
        name: String,
    ) -> (out: (TxRun, TxTurn))
        requires
            old(wl).wf(),
            self@.on_savepoint(old(wl)@, exec::result_view(r), name@).fits,
        ensures
            is_turn(
                self@.on_savepoint(old(wl)@, exec::result_view(r), name@),
                out.0@,
                final(wl)@,
                out.1,
            ),
            final(wl).wf(),
    {
        match r {
            Ok(_) => {
                wl.bump("savepoint");
                let ghost before = self@;
                let mut tx = self;
                let cur = tx.cur.clone();
                tx.savepoints.push((name, cur));
                proof {
                    assert(tx@ =~= (TxView {
                        savepoints: before.savepoints.push((name@, before.cur)),
                        ..before
                    }));
                }
                let none = no_violation();
                tx.issue(wl, none)
            },
            Err(e) => self.framing_failed("savepoint: ", e, Ghost(wl@)),
        }
    }

    fn on_rollback_to(
        self,
        wl: &mut Workload,
        r: Result<Vec<Vec<String>>, Fail>,
        name: String,
        saved: Model,
    ) -> (out: (TxRun, TxTurn))
        requires
            old(wl).wf(),
            self@.on_rollback_to(
                old(wl)@,
                exec::result_view(r),
                name@,
                table::table(saved),
            ).fits,
        ensures
            is_turn(
                self@.on_rollback_to(old(wl)@, exec::result_view(r), name@, table::table(saved)),
                out.0@,
                final(wl)@,
                out.1,
            ),
            final(wl).wf(),
    {
        match r {
            Ok(_) => {
                wl.bump("rollback-to");
                let sql = join2("RELEASE ", name.as_str());
                let tx = TxRun { cur: saved, ..self };
                tx.ask(
                    TxPhase::ReleaseRolledBack,
                    TxAction::Exec(sql),
                    no_violation(),
                    Ghost(wl@),
                )
            },
            Err(e) => self.framing_failed("rollback-to: ", e, Ghost(wl@)),
        }
    }

    fn on_release(
        self,
        wl: &mut Workload,
        r: Result<Vec<Vec<String>>, Fail>,
        counted: bool,
    ) -> (out: (TxRun, TxTurn))
        requires
            old(wl).wf(),
            self@.on_release(old(wl)@, exec::result_view(r), counted).fits,
        ensures
            is_turn(
                self@.on_release(old(wl)@, exec::result_view(r), counted),
                out.0@,
                final(wl)@,
                out.1,
            ),
            final(wl).wf(),
    {
        match r {
            Ok(_) => {
                if counted {
                    wl.bump("release");
                }
                let none = no_violation();
                self.issue(wl, none)
            },
            Err(e) => self.framing_failed("release: ", e, Ghost(wl@)),
        }
    }

    fn on_statement(
        self,
        wl: &mut Workload,
        r: Result<Vec<Vec<String>>, Fail>,
        sql: String,
        next: Model,
        expect: Expect,
    ) -> (out: (TxRun, TxTurn))
        requires
            old(wl).wf(),
            self.index < u64::MAX,
            self@.on_statement(
                old(wl)@,
                exec::result_view(r),
                sql@,
                table::table(next),
                expect,
            ).fits,
        ensures
            is_turn(
                self@.on_statement(
                    old(wl)@,
                    exec::result_view(r),
                    sql@,
                    table::table(next),
                    expect,
                ),
                out.0@,
                final(wl)@,
                out.1,
            ),
            final(wl).wf(),
    {
        let index: u64 = self.index + 1;
        match r {
            Ok(shown) => match expect {
                Expect::Count => {
                    let found = listed(check_count(&shown, &self.cur, "in-tx"));
                    let tx = TxRun { index, ..self };
                    tx.head(wl, found)
                },
                Expect::Success => {
                    let tx = TxRun { index, cur: next, ..self };
                    let none = no_violation();
                    tx.head(wl, none)
                },
                Expect::Constraint => {
                    let found = one_violation("constraint-not-enforced", sql);
                    let tx = TxRun { index, ..self };
                    tx.head(wl, found)
                },
            },
            Err(Fail::Constraint(msg)) => {
                let found = if expect == Expect::Constraint {
                    no_violation()
                } else {
                    let mut detail = take_chars(sql.as_str(), 80);
                    detail.append(": ");
                    detail.append(msg.as_str());
                    one_violation("unexpected-constraint-error", detail)
                };
                let tx = TxRun { index, ..self };
                tx.head(wl, found)
            },
            Err(Fail::Busy) => self.abandon(TxOutcome::Busy, Ghost(wl@)),
            Err(e) => {
                let mut what = take_chars(sql.as_str(), 60);
                what.append(": ");
                let why = e.worded(what.as_str());
                self.abandon(TxOutcome::Aborted(why), Ghost(wl@))
            },
        }
    }

    fn on_read_back(self, wl: &mut Workload, r: Result<(u64, usize), Fail>) -> (out: (
        TxRun,
        TxTurn,
    ))
        requires
            old(wl).wf(),
        ensures
            is_turn(
                self@.on_read_back(old(wl)@, (TxEvent::Digest(r))@->Digest_0),
                out.0@,
                final(wl)@,
                out.1,
            ),
            final(wl).wf(),
    {
        match r {
            Ok((digest, n)) => {
                let found = if digest != digest_model(&self.cur) {
                    let mut detail = "in-tx digest mismatch rows_db=".to_owned();
                    push_unsigned(&mut detail, n as u64);
                    detail.append(" rows_model=");
                    push_unsigned(&mut detail, row_count(&self.cur) as u64);
                    one_violation("read-your-writes-violated", detail)
                } else {
                    no_violation()
                };
                self.end(wl, found)
            },
            Err(Fail::Busy) => {
                let none = no_violation();
                self.end(wl, none)
            },
            Err(e) => {
                let why = e.worded("in-tx read: ");
                self.abandon(TxOutcome::Aborted(why), Ghost(wl@))
            },
        }
    }

    fn on_rollback(self, r: Result<Vec<Vec<String>>, Fail>, Ghost(w): Ghost<WorkView>) -> (out: (
        TxRun,
        TxTurn,
    ))
        ensures
            is_turn(self@.on_rollback(w, exec::result_view(r)), out.0@, w, out.1),
    {
        match r {
            Ok(_) => self.finish(TxOutcome::RolledBack, no_violation(), Ghost(w)),
            Err(Fail::Busy) => self.finish(TxOutcome::Busy, no_violation(), Ghost(w)),
            Err(e) => {
                let why = e.worded("rollback: ");
                self.finish(TxOutcome::Aborted(why), no_violation(), Ghost(w))
            },
        }
    }

    fn on_commit(self, wl: &mut Workload, r: Result<Vec<Vec<String>>, Fail>) -> (out: (
        TxRun,
        TxTurn,
    ))
        requires
            old(wl).wf(),
            self@.on_commit(old(wl)@, exec::result_view(r)).fits,
        ensures
            is_turn(
                self@.on_commit(old(wl)@, exec::result_view(r)),
                out.0@,
                final(wl)@,
                out.1,
            ),
            final(wl).wf(),
    {
        match r {
            Ok(_) => {
                let cur = self.cur.clone();
                self.finish(TxOutcome::Committed(cur), no_violation(), Ghost(wl@))
            },
            Err(Fail::Busy) => self.abandon(TxOutcome::Busy, Ghost(wl@)),
            Err(e) => {
                wl.bump("commit-error");
                let note = e.worded("note: COMMIT error: ");
                let cur = self.cur.clone();
                let (tx, turn) = self.abandon(TxOutcome::Uncertain(cur), Ghost(wl@));
                (tx, TxTurn { note: Some(note), ..turn })
            },
        }
    }

    /// Whether the turn before the statement `index` of `nstmts` stays within
    /// 64 bits, with `depth` savepoints open.
    fn head_fits(
        wl: &Workload,
        cur: &Model,
        index: u64,
        nstmts: u64,
        crash_after: Option<u64>,
        depth: usize,
        big_value_permille: u64,
        Ghost(tx): Ghost<TxView>,
    ) -> (yes: bool)
        requires
            wl.wf(),
            tx.cur == table::table(*cur),
            tx.index == index,
            tx.nstmts == nstmts,
            tx.crash_after == crash_after,
            tx.savepoints.len() == depth,
            tx.big_value_permille == big_value_permille,
        ensures
            forall|v: Seq<ViolationView>| yes == (#[trigger] tx.head(wl@, v)).fits,
    {
        if index >= nstmts {
            return true;
        }
        let due: bool = match crash_after {
            Some(i) => i == index,
            None => false,
        };
        if due {
            return wl.can_bump("crash-mid-tx");
        }
        let mut probe = wl.clone();
        if probe.rng.chance(120) {
            return true;
        }
        if depth > 0 && probe.rng.chance(250) {
            return true;
        }
        probe.can_state(cur, big_value_permille)
    }

    /// Whether `can_state` holds once a counter has been bumped.
    fn fits_after_bump(
        wl: &Workload,
        k: &'static str,
        cur: &Model,
        big_value_permille: u64,
    ) -> (yes: bool)
        requires
            wl.wf(),
        ensures
            yes == (stats::has_room(wl@.stats, k@, 1) && wl@.bumped(k@).statement_fits(
                table::table(*cur),
                big_value_permille,
            )),
    {
        if !wl.can_bump(k) {
            return false;
        }
        let mut probe = wl.clone();
        probe.bump(k);
        probe.can_state(cur, big_value_permille)
    }

    /// Whether the next turn stays within 64 bits.
    pub fn can_resume(&self, wl: &Workload, event: &TxEvent) -> (yes: bool)
        requires
            wl.wf(),
            self@.wf(),
            self@.awaits(event@),
        ensures
            yes == self@.step(wl@, event@).fits,
    {
        let ghost tx = TxView { phase: PhaseView::Over, ..self@ };
        match (&self.phase, event) {
            (TxPhase::Start, TxEvent::Start) => {
                let mut probe = wl.clone();
                if probe.rng.chance(300) {
                    probe.can_state(&self.base, self.big_value_permille)
                } else {
                    true
                }
            },
            (TxPhase::Autocommit { sql: _, next: _, expect }, TxEvent::Sql(r)) => match r {
                Ok(_) => match expect {
                    Expect::Count => can_sum(&self.base),
                    _ => true,
                },
                Err(Fail::Busy) => true,
                Err(Fail::Constraint(_)) => {
                    *expect == Expect::Constraint || wl.can_bump("autocommit-error")
                },
                Err(_) => wl.can_bump("autocommit-error"),
            },
            (TxPhase::Begin, TxEvent::Sql(r)) => match r {
                Ok(_) => {
                    let mut probe = wl.clone();
                    let nstmts: u64 = probe.rng.range(1, 15);
                    let crash_after: Option<u64> = if self.crash_mid_tx {
                        Some(probe.rng.range(0, nstmts - 1))
                    } else {
                        None
                    };
                    TxRun::head_fits(
                        &probe,
                        &self.base,
                        0,
                        nstmts,
                        crash_after,
                        0,
                        self.big_value_permille,
                        Ghost(
                            TxView {
                                cur: tx.base,
                                savepoints: Seq::empty(),
                                index: 0,
                                nstmts,
                                crash_after,
                                ..tx
                            },
                        ),
                    )
                },
                Err(_) => true,
            },
            (TxPhase::Savepoint { name: _ }, TxEvent::Sql(r)) => match r {
                Ok(_) => TxRun::fits_after_bump(
                    wl,
                    "savepoint",
                    &self.cur,
                    self.big_value_permille,
                ),
                Err(_) => true,
            },
            (TxPhase::RollbackTo { name: _, saved: _ }, TxEvent::Sql(r)) => match r {
                Ok(_) => wl.can_bump("rollback-to"),
                Err(_) => true,
            },
            (TxPhase::ReleaseRolledBack, TxEvent::Sql(r)) => match r {
                Ok(_) => wl.can_state(&self.cur, self.big_value_permille),
                Err(_) => true,
            },
            (TxPhase::Release, TxEvent::Sql(r)) => match r {
                Ok(_) => TxRun::fits_after_bump(wl, "release", &self.cur, self.big_value_permille),
                Err(_) => true,
            },
            (TxPhase::Statement { sql: _, next, expect }, TxEvent::Sql(r)) => {
                let ghost on = TxView { index: (tx.index + 1) as u64, ..tx };
                let index: u64 = self.index + 1;
                let applied: bool = match r {
                    Ok(_) => *expect == Expect::Success,
                    Err(_) => false,
                };
                let summed: bool = match r {
                    Ok(_) => *expect == Expect::Count,
                    Err(_) => false,
                };
                let abandoned: bool = match r {
                    Ok(_) => false,
                    Err(Fail::Constraint(_)) => false,
                    Err(_) => true,
                };
                if abandoned {
                    true
                } else if applied {
                    TxRun::head_fits(
                        wl,
                        next,
                        index,
                        self.nstmts,
                        self.crash_after,
                        self.savepoints.len(),
                        self.big_value_permille,
                        Ghost(TxView { cur: table::table(*next), ..on }),
                    )
                } else {
                    TxRun::head_fits(
                        wl,
                        &self.cur,
                        index,
                        self.nstmts,
                        self.crash_after,
                        self.savepoints.len(),
                        self.big_value_permille,
                        Ghost(on),
                    ) && (!summed || can_sum(&self.cur))
                }
            },
            (TxPhase::Commit, TxEvent::Sql(r)) => match r {
                Ok(_) => true,
                Err(Fail::Busy) => true,
                Err(_) => wl.can_bump("commit-error"),
            },
            _ => true,
        }
    }

    /// Takes the next turn of the attempt, on what came of the last one.
    pub fn resume(self, wl: &mut Workload, event: TxEvent) -> (out: (TxRun, TxTurn))
        requires
            old(wl).wf(),
            self@.wf(),
            self@.awaits(event@),
            self@.step(old(wl)@, event@).fits,
        ensures
            is_turn(self@.step(old(wl)@, event@), out.0@, final(wl)@, out.1),
            out.0@.wf(),
            final(wl).wf(),
    {
        let ghost before = self@;
        proof {
            lemma_step_keeps_wf(before, wl@, event@);
        }
        let TxRun {
            phase,
            base,
            cur,
            savepoints,
            index,
            nstmts,
            crash_after,
            crash_mid_tx,
            big_value_permille,
        } = self;
        let tx = TxRun {
            phase: TxPhase::Over,
            base,
            cur,
            savepoints,
            index,
            nstmts,
            crash_after,
            crash_mid_tx,
            big_value_permille,
        };
        match (phase, event) {
            (TxPhase::Start, TxEvent::Start) => tx.on_start(wl),
            (TxPhase::Autocommit { sql, next, expect }, TxEvent::Sql(r)) => {
                tx.on_autocommit(wl, r, sql, next, expect)
            },
            (TxPhase::Begin, TxEvent::Sql(r)) => tx.on_begin(wl, r),
            (TxPhase::Savepoint { name }, TxEvent::Sql(r)) => tx.on_savepoint(wl, r, name),
            (TxPhase::RollbackTo { name, saved }, TxEvent::Sql(r)) => {
                tx.on_rollback_to(wl, r, name, saved)
            },
            (TxPhase::ReleaseRolledBack, TxEvent::Sql(r)) => tx.on_release(wl, r, false),
            (TxPhase::Release, TxEvent::Sql(r)) => tx.on_release(wl, r, true),
            (TxPhase::Statement { sql, next, expect }, TxEvent::Sql(r)) => {
                tx.on_statement(wl, r, sql, next, expect)
            },
            (TxPhase::ReadBack, TxEvent::Digest(r)) => tx.on_read_back(wl, r),
            (TxPhase::Rollback, TxEvent::Sql(r)) => tx.on_rollback(r, Ghost(wl@)),
            (TxPhase::Commit, TxEvent::Sql(r)) => tx.on_commit(wl, r),
            (TxPhase::Abandon { outcome, crashed }, _) => {
                tx.ask(
                    TxPhase::Over,
                    TxAction::Finish(outcome, crashed),
                    no_violation(),
                    Ghost(wl@),
                )
            },
            _ => {
                tx.ask(
                    TxPhase::Abandon { outcome: TxOutcome::RolledBack, crashed: true },
                    TxAction::Exec("ROLLBACK".to_owned()),
                    no_violation(),
                    Ghost(wl@),
                )
            },
        }
    }
}

proof fn lemma_step_keeps_wf(tx: TxView, w: WorkView, ev: EventView)
    requires
        tx.wf(),
        tx.awaits(ev),
    ensures
        tx.step(w, ev).tx.wf(),
{
    prng::law_pick_in_range(w.rng, 1, 15);
}

impl TxView {
    /// A bound on the turns that are left.
    pub open spec fn turns_left(self) -> int {
        let ahead = 4 + 4 * (self.nstmts - self.index - 1);
        match self.phase {
            PhaseView::Start => 66,
            PhaseView::Autocommit { .. } => 1,
            PhaseView::Begin => 65,
            PhaseView::Cut => 2,
            PhaseView::Savepoint { .. } => ahead + 2,
            PhaseView::RollbackTo { .. } => ahead + 4,
            PhaseView::ReleaseRolledBack => ahead + 3,
            PhaseView::Release => ahead + 2,
            PhaseView::Statement { .. } => ahead + 1,
            PhaseView::ReadBack => 3,
            PhaseView::Rollback => 1,
            PhaseView::Commit => 2,
            PhaseView::Abandon { .. } => 1,
            PhaseView::Over => 0,
        }
    }

    /// Whether an answer is one that an engine which keeps its promises may
    /// give: a statement that must break a constraint is refused, no other one
    /// is refused on that ground, and a read shows what the transaction has
    /// written.
    pub open spec fn may_answer(self, ev: EventView) -> bool {
        match self.phase {
            PhaseView::Statement { expect, .. } => match ev->Sql_0 {
                Ok(shown) => {
                    &&& expect != Expect::Constraint
                    &&& expect == Expect::Count ==> shown == count_row(self.cur)
                },
                Err(e) => e is Constraint ==> expect == Expect::Constraint,
            },
            PhaseView::Autocommit { expect, .. } => match ev->Sql_0 {
                Ok(shown) => {
                    &&& expect != Expect::Constraint
                    &&& expect == Expect::Count ==> shown == count_row(self.base)
                },
                Err(_) => true,
            },
            PhaseView::ReadBack => match ev->Digest_0 {
                Ok((digest, _)) => digest == table::table_digest(self.cur),
                Err(_) => true,
            },
            _ => true,
        }
    }
}

/// The one row that tells how many rows a table has and what its numbers sum
/// up to.
pub open spec fn count_row(t: Table) -> Cells {
    seq![seq![text::decimal(t.len() as int), text::decimal(rows::table_sum(t))]]
}

proof fn lemma_turns_after_head(tx: TxView, w: WorkView, v: Seq<ViolationView>)
    requires
        tx.index <= tx.nstmts,
    ensures
        0 < tx.head(w, v).tx.turns_left() <= 4 + 4 * (tx.nstmts - tx.index),
        !(tx.head(w, v).action is Finish),
{
}

/// Every turn brings the end of the attempt closer, so an attempt takes a
/// bounded number of turns.
pub proof fn law_every_turn_brings_the_end_closer(tx: TxView, w: WorkView, ev: EventView)
    requires
        tx.wf(),
        tx.awaits(ev),
    ensures
        0 <= tx.step(w, ev).tx.turns_left() < tx.turns_left() <= 66,
        tx.step(w, ev).tx.turns_left() == 0 <==> tx.step(w, ev).action is Finish,
{
    let bare = TxView { phase: PhaseView::Over, ..tx };
    if tx.phase is Begin {
        prng::law_pick_in_range(w.rng, 1, 15);
        if ev->Sql_0 is Ok {
            let nstmts = prng::prng_pick(w.rng, 1, 15);
            let w1 = w.drawn();
            let begun = TxView {
                cur: bare.base,
                savepoints: Seq::empty(),
                index: 0,
                nstmts,
                crash_after: if bare.crash_mid_tx {
                    Some(prng::prng_pick(w1.rng, 0, (nstmts - 1) as u64))
                } else {
                    None
                },
                ..bare
            };
            lemma_turns_after_head(
                begun,
                if bare.crash_mid_tx {
                    w1.drawn()
                } else {
                    w1
                },
                Seq::empty(),
            );
        }
    } else if tx.phase is Statement {
        lemma_turns_after_statement(tx, w, ev);
    } else {
    }
}

proof fn lemma_turns_after_statement(tx: TxView, w: WorkView, ev: EventView)
    requires
        tx.wf(),
        tx.phase is Statement,
        tx.awaits(ev),
    ensures
        0 < tx.step(w, ev).tx.turns_left() < tx.turns_left() <= 66,
        !(tx.step(w, ev).action is Finish),
{
    let bare = TxView { phase: PhaseView::Over, ..tx };
    let on = TxView { index: (bare.index + 1) as u64, ..bare };
    match ev->Sql_0 {
        Ok(shown) => match tx.phase->Statement_expect {
            Expect::Count => {
                lemma_turns_after_head(on, w, report::found(rows::count_verdict(shown, tx.cur, "in-tx"@)));
            },
            Expect::Success => {
                lemma_turns_after_head(
                    TxView { cur: tx.phase->Statement_next, ..on },
                    w,
                    Seq::empty(),
                );
            },
            Expect::Constraint => {
                lemma_turns_after_head(
                    on,
                    w,
                    seq![
                        ViolationView {
                            label: "constraint-not-enforced"@,
                            detail: tx.phase->Statement_sql,
                        },
                    ],
                );
            },
        },
        Err(e) => {
            if e is Constraint {
                lemma_turns_after_head(on, w, Seq::empty());
                lemma_turns_after_head(
                    on,
                    w,
                    seq![
                        ViolationView {
                            label: "unexpected-constraint-error"@,
                            detail: text::first_chars(tx.phase->Statement_sql, 80) + ": "@
                                + e->Constraint_0,
                        },
                    ],
                );
            }
        },
    }
}

/// Whatever comes after a power cut inside a transaction, the attempt ends as
/// rolled back; and it is the only end that tells of a power cut.
pub proof fn law_power_cut_ends_as_rolled_back(tx: TxView, w: WorkView, ev: EventView)
    requires
        tx.wf(),
        tx.awaits(ev),
    ensures
        tx.step(w, ev).action matches TxActionView::Finish(outcome, true) ==> outcome
            == OutcomeView::RolledBack,
        tx.phase is Cut ==> {
            let next = tx.step(w, ev);
            &&& next.tx.phase == PhaseView::Abandon {
                outcome: OutcomeView::RolledBack,
                crashed: true,
            }
            &&& forall|w2: WorkView, ev2: EventView|
                (#[trigger] next.tx.step(w2, ev2)).action == TxActionView::Finish(
                    OutcomeView::RolledBack,
                    true,
                )
        },
{
}

/// An attempt ends as committed only where the engine said so: on a `COMMIT`
/// that succeeded, with what the transaction saw, or outside a transaction on a
/// statement that did what was expected of it (a duplicate key is refused, and
/// then nothing has changed).
pub proof fn law_committed_only_on_the_engines_word(tx: TxView, w: WorkView, ev: EventView)
    requires
        tx.wf(),
        tx.awaits(ev),
    ensures
        tx.step(w, ev).action matches TxActionView::Finish(OutcomeView::Committed(t), _) ==> {
            ||| tx.phase is Commit && ev->Sql_0 is Ok && t == tx.cur
            ||| tx.phase matches PhaseView::Autocommit { next, expect, .. } && {
                if ev->Sql_0 is Ok {
                    t == (if expect == Expect::Success {
                        next
                    } else {
                        tx.base
                    })
                } else {
                    ev->Sql_0->Err_0 is Constraint && expect == Expect::Constraint && t
                        == tx.base
                }
            }
        },
{
}

/// A statement that fails inside a transaction leaves what the transaction sees
/// as it was.
pub proof fn law_failed_statement_changes_nothing(tx: TxView, w: WorkView, ev: EventView)
    requires
        tx.phase is Statement,
        tx.awaits(ev),
        ev->Sql_0 is Err,
    ensures
        tx.step(w, ev).tx.cur == tx.cur,
{
}

/// A savepoint remembers what the transaction sees when it is set, below it the
/// older savepoints stay, and rolling back to it brings that back.
pub proof fn law_savepoint_is_rolled_back_to(tx: TxView, w: WorkView, ev: EventView)
    requires
        tx.wf(),
        tx.awaits(ev),
        ev is Sql && ev->Sql_0 is Ok,
    ensures
        tx.phase matches PhaseView::Savepoint { name } ==> {
            &&& tx.step(w, ev).tx.savepoints == tx.savepoints.push((name, tx.cur))
            &&& tx.step(w, ev).tx.cur == tx.cur
        },
        tx.phase matches PhaseView::RollbackTo { name, saved } ==> {
            &&& tx.step(w, ev).tx.cur == saved
            &&& tx.step(w, ev).tx.savepoints == tx.savepoints
        },
        tx.phase is Statement ==> (tx.step(w, ev).tx.phase matches PhaseView::RollbackTo {
            name,
            saved,
        } ==> {
            &&& tx.savepoints.len() > 0
            &&& tx.savepoints.last() == (name, saved)
            &&& tx.step(w, ev).tx.savepoints == tx.savepoints.drop_last()
        }),
{
}

proof fn lemma_true_count_is_accepted(t: Table, ctx: Seq<char>)
    requires
        rows::sum_fits(t),
        t.len() <= i64::MAX,
    ensures
        rows::count_verdict(count_row(t), t, ctx) is None,
{
    text::law_decimal_reads_back(t.len() as i64);
    text::law_decimal_reads_back(rows::table_sum(t) as i64);
}

/// An engine that keeps its promises is never accused: where the answer is one
/// that it may give, the turn reports nothing.
pub proof fn law_faithful_engine_is_never_accused(tx: TxView, w: WorkView, ev: EventView)
    requires
        tx.wf(),
        tx.awaits(ev),
        tx.step(w, ev).fits,
        tx.base.len() <= i64::MAX,
        tx.cur.len() <= i64::MAX,
        tx.may_answer(ev),
    ensures
        tx.step(w, ev).violations == Seq::<ViolationView>::empty(),
{
    if tx.phase is Statement && tx.phase->Statement_expect == Expect::Count && ev->Sql_0 is Ok {
        lemma_true_count_is_accepted(tx.cur, "in-tx"@);
    }
    if tx.phase is Autocommit && tx.phase->Autocommit_expect == Expect::Count && ev->Sql_0 is Ok {
        lemma_true_count_is_accepted(tx.base, "autocommit"@);
    }
}

/// A transaction that reads back something with another digest than what it
/// has written is reported.
pub proof fn law_lost_write_is_reported(tx: TxView, w: WorkView, digest: u64, n: usize)
    requires
        tx.phase is ReadBack,
        digest != table::table_digest(tx.cur),
    ensures
        tx.step(w, EventView::Digest(Ok((digest, n)))).violations.len() == 1,
        tx.step(w, EventView::Digest(Ok((digest, n)))).violations[0].label
            == "read-your-writes-violated"@,
{
}

} // verus!
