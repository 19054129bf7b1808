//! What a transaction attempt comes to, over all its turns.

use crate::exec::{Cells, FailView};
use crate::prng;
use crate::report::ViolationView;
use crate::rows;
use crate::table;
use crate::table::Table;
use crate::text;
use crate::tx::{EventView, OutcomeView, PhaseView, TxActionView, TxView};
use crate::workload::{Expect, WorkView};
use vstd::prelude::*;

verus! {

/// What a turn does to the table that the transaction sees: `BEGIN` makes it
/// the table before the attempt, a statement that was to succeed and did makes
/// it what the statement leaves, `ROLLBACK TO` makes it what it was at the
/// savepoint, and nothing else changes it. The table before the attempt never
/// changes.
pub proof fn law_table_seen_after_a_turn(tx: TxView, w: WorkView, ev: EventView)
    requires
        tx.awaits(ev),
    ensures
        ({
            let after = tx.step(w, ev).tx;
            let good = ev is Sql && ev->Sql_0 is Ok;
            &&& after.base == tx.base
            &&& after.big_value_permille == tx.big_value_permille
            &&& after.crash_mid_tx == tx.crash_mid_tx
            &&& match tx.phase {
                PhaseView::Begin => after.cur == (if good {
                    tx.base
                } else {
                    tx.cur
                }),
                PhaseView::Statement { next, expect, .. } => after.cur == (if good && expect
                    == Expect::Success {
                    next
                } else {
                    tx.cur
                }),
                PhaseView::RollbackTo { saved, .. } => after.cur == (if good {
                    saved
                } else {
                    tx.cur
                }),
                _ => after.cur == tx.cur,
            }
        }),
{
}

/// What a turn does to the open savepoints: `BEGIN` closes all, a `SAVEPOINT`
/// that succeeded opens one with the table as it is, asking to roll back to the
/// newest or to release it closes that one, and nothing else changes them.
pub proof fn law_savepoints_after_a_turn(tx: TxView, w: WorkView, ev: EventView)
    requires
        tx.awaits(ev),
    ensures
        ({
            let after = tx.step(w, ev).tx;
            let good = ev is Sql && ev->Sql_0 is Ok;
            match tx.phase {
                PhaseView::Begin => after.savepoints == (if good {
                    Seq::empty()
                } else {
                    tx.savepoints
                }) && !(after.phase is RollbackTo) && !(after.phase is Release),
                PhaseView::Savepoint { name } => after.savepoints == (if good {
                    tx.savepoints.push((name, tx.cur))
                } else {
                    tx.savepoints
                }),
                PhaseView::Statement { .. } => match after.phase {
                    PhaseView::RollbackTo { name, saved } => {
                        &&& tx.savepoints.len() > 0
                        &&& after.savepoints == tx.savepoints.drop_last()
                        &&& (name, saved) == tx.savepoints.last()
                        &&& tx.step(w, ev).action == TxActionView::Exec("ROLLBACK TO "@ + name)
                    },
                    PhaseView::Release => {
                        &&& tx.savepoints.len() > 0
                        &&& after.savepoints == tx.savepoints.drop_last()
                        &&& tx.step(w, ev).action == TxActionView::Exec(
                            "RELEASE "@ + tx.savepoints.last().0,
                        )
                    },
                    PhaseView::Savepoint { name } => {
                        &&& after.savepoints == tx.savepoints
                        &&& name == "sp"@ + text::decimal(tx.savepoints.len() as int)
                        &&& tx.step(w, ev).action == TxActionView::Exec("SAVEPOINT "@ + name)
                    },
                    _ => after.savepoints == tx.savepoints,
                },
                _ => after.savepoints == tx.savepoints,
            }
        }),
{
}

/// Whether a phase is that of a statement which was planned on a table.
pub open spec fn is_planned_on(p: PhaseView, w: WorkView, t: Table, big: u64) -> bool {
    let plan = w.plan(t, big);
    let sql = plan.sql(w.next_id);
    let next = plan.effect(t, w.next_id);
    p == PhaseView::Statement { sql, next, expect: plan.expect() } || p == PhaseView::Autocommit {
        sql,
        next,
        expect: plan.expect(),
    }
}

/// A statement that a turn asks for is planned on the table that the
/// transaction then sees, or outside a transaction on the table before the
/// attempt: what it is to leave is its effect on that table. The generator has
/// moved on by what was drawn for it, and the statement is what is run.
pub proof fn law_statement_is_planned_on_the_table_seen(tx: TxView, w: WorkView, ev: EventView)
    requires
        tx.awaits(ev),
    ensures
        ({
            let step = tx.step(w, ev);
            let after = step.tx;
            let big = tx.big_value_permille;
            &&& after.phase matches PhaseView::Statement { sql, .. } ==> {
                &&& step.action == TxActionView::Exec(sql)
                &&& exists|w0: WorkView|
                    {
                        &&& #[trigger] is_planned_on(after.phase, w0, after.cur, big)
                        &&& w0.next_id == w.next_id
                        &&& step.work == w0.planned(after.cur, big)
                    }
            }
            &&& after.phase matches PhaseView::Autocommit { sql, .. } ==> {
                &&& step.action == TxActionView::Exec(sql)
                &&& is_planned_on(after.phase, w.drawn(), tx.base, big)
                &&& step.work == w.drawn().planned(tx.base, big)
            }
        }),
{
    let step = tx.step(w, ev);
    let after = step.tx;
    let big = tx.big_value_permille;
    if after.phase is Statement {
        let bare = TxView { phase: PhaseView::Over, ..tx };
        match tx.phase {
            PhaseView::Savepoint { .. } => {
                assert(is_planned_on(after.phase, w.bumped("savepoint"@), after.cur, big));
            },
            PhaseView::Release => {
                assert(is_planned_on(after.phase, w.bumped("release"@), after.cur, big));
            },
            PhaseView::ReleaseRolledBack => {
                assert(is_planned_on(after.phase, w, after.cur, big));
            },
            PhaseView::Begin => {
                let w1 = if tx.crash_mid_tx {
                    w.drawn().drawn()
                } else {
                    w.drawn()
                };
                assert(is_planned_on(after.phase, w1.drawn(), after.cur, big));
            },
            _ => {
                if tx.savepoints.len() == 0 {
                    assert(is_planned_on(after.phase, w.drawn(), after.cur, big));
                } else {
                    assert(is_planned_on(after.phase, w.drawn().drawn(), after.cur, big));
                }
            },
        }
    }
}

/// One turn: the attempt was waiting for the event, and what it then stands at.
#[verifier::opaque]
pub open spec fn turned(a: (TxView, WorkView), ev: EventView, b: (TxView, WorkView)) -> bool {
    &&& a.0.awaits(ev)
    &&& b == (a.0.step(a.1, ev).tx, a.0.step(a.1, ev).work)
}

/// What a turn ends the attempt with, if it does.
#[verifier::opaque]
pub open spec fn ended(a: (TxView, WorkView), ev: EventView) -> Option<OutcomeView> {
    match a.0.step(a.1, ev).action {
        TxActionView::Finish(outcome, _) => Some(outcome),
        _ => None,
    }
}

/// What an event makes of the table, and of the tables at the open savepoints:
/// what a successful statement leaves, or what a successful rollback to a
/// savepoint brings back.
pub open spec fn replay_turn(p: PhaseView, ev: EventView, t: Table, marks: Seq<Table>) -> (
    Table,
    Seq<Table>,
) {
    if ev is Sql && ev->Sql_0 is Ok {
        match p {
            PhaseView::Autocommit { next, expect, .. } => if expect == Expect::Success {
                (next, marks)
            } else {
                (t, marks)
            },
            PhaseView::Statement { next, expect, .. } => if expect == Expect::Success {
                (next, marks)
            } else {
                (t, marks)
            },
            PhaseView::Savepoint { .. } => (t, marks.push(t)),
            PhaseView::RollbackTo { .. } => (marks.last(), marks.drop_last()),
            PhaseView::Release => (t, marks.drop_last()),
            _ => (t, marks),
        }
    } else {
        (t, marks)
    }
}

/// What an attempt and its run of statements stand at, after each event.
pub struct Trail {
    pub runs: Seq<(TxView, WorkView)>,
    pub events: Seq<EventView>,
}

impl Trail {
    /// Whether the attempt started at the beginning, and each turn is the one on
    /// the event that came.
    pub open spec fn holds_together(self) -> bool {
        &&& self.runs.len() == self.events.len() + 1
        &&& self.runs[0].0.phase is Start
        &&& forall|i: int|
            0 <= i < self.events.len() ==> turned(
                #[trigger] self.runs[i],
                self.events[i],
                self.runs[i + 1],
            )
    }

    /// The table, and the tables at the open savepoints, after the first `n`
    /// events, starting from the table before the attempt.
    pub open spec fn replayed(self, n: int) -> (Table, Seq<Table>)
        decreases n,
    {
        if n <= 0 {
            (self.runs[0].0.base, Seq::empty())
        } else {
            let (t, marks) = self.replayed(n - 1);
            replay_turn(self.runs[n - 1].0.phase, self.events[n - 1], t, marks)
        }
    }
}

/// The tables at open savepoints.
spec fn marked(savepoints: Seq<(Seq<char>, Table)>) -> Seq<Table> {
    savepoints.map_values(|s: (Seq<char>, Table)| s.1)
}

/// How an attempt and the table and marks of a replay go together.
spec fn goes_with(tx: TxView, t: Table, marks: Seq<Table>) -> bool {
    match tx.phase {
        PhaseView::Start | PhaseView::Begin | PhaseView::Autocommit { .. } => {
            &&& t == tx.base
            &&& marks == Seq::<Table>::empty()
        },
        PhaseView::RollbackTo { saved, .. } => {
            &&& t == tx.cur
            &&& marks == marked(tx.savepoints).push(saved)
        },
        PhaseView::Release => {
            &&& t == tx.cur
            &&& marks.len() == tx.savepoints.len() + 1
            &&& marks.drop_last() == marked(tx.savepoints)
        },
        PhaseView::Abandon { outcome, .. } => {
            &&& !(outcome is Committed)
            &&& outcome matches OutcomeView::Uncertain(u) ==> u == t
        },
        PhaseView::Over => true,
        _ => {
            &&& t == tx.cur
            &&& marks == marked(tx.savepoints)
        },
    }
}

/// The phases that can follow each other.
proof fn lemma_phases_in_order(tx: TxView, w: WorkView, ev: EventView)
    requires
        tx.awaits(ev),
    ensures
        ({
            let p = tx.step(w, ev).tx.phase;
            let good = ev is Sql && ev->Sql_0 is Ok;
            &&& !(p is Start)
            &&& p is Begin || p is Autocommit ==> tx.phase is Start
            &&& tx.phase is Start ==> p is Begin || p is Autocommit
            &&& tx.phase is Begin && !good ==> p is Over
            &&& tx.phase is Autocommit || tx.phase is Abandon ==> p is Over
            &&& p is RollbackTo || p is Release ==> tx.phase is Begin || tx.phase is Statement
            &&& p is ReleaseRolledBack ==> tx.phase is RollbackTo && good
            &&& (tx.phase is Savepoint || tx.phase is RollbackTo || tx.phase is Release
                || tx.phase is ReleaseRolledBack) && !good ==> p is Over || p is Abandon
            &&& p matches PhaseView::Abandon { outcome, .. } ==> {
                &&& !(outcome is Committed)
                &&& outcome matches OutcomeView::Uncertain(u) ==> u == tx.cur && tx.phase is Commit
            }
        }),
{
}

proof fn lemma_turn_keeps_up(
    a: (TxView, WorkView),
    ev: EventView,
    b: (TxView, WorkView),
    t: Table,
    marks: Seq<Table>,
)
    requires
        turned(a, ev, b),
        goes_with(a.0, t, marks),
    ensures
        ({
            let next = replay_turn(a.0.phase, ev, t, marks);
            &&& goes_with(b.0, next.0, next.1)
            &&& b.0.base == a.0.base
        }),
{
    let tx = a.0;
    let w = a.1;
    let after = b.0;
    let next = replay_turn(tx.phase, ev, t, marks);
    assert(tx.awaits(ev) && after == tx.step(w, ev).tx) by {
        reveal(turned);
    }
    law_table_seen_after_a_turn(tx, w, ev);
    law_savepoints_after_a_turn(tx, w, ev);
    lemma_phases_in_order(tx, w, ev);
    lemma_marks_keep_up(tx, after, ev, t, marks);
}

/// The same, from what a turn does to the table seen and to the savepoints.
proof fn lemma_marks_keep_up(
    tx: TxView,
    after: TxView,
    ev: EventView,
    t: Table,
    marks: Seq<Table>,
)
    requires
        goes_with(tx, t, marks),
        !(tx.phase is Over),
        after.base == tx.base,
        ({
            let good = ev is Sql && ev->Sql_0 is Ok;
            &&& match tx.phase {
                PhaseView::Begin => after.cur == (if good {
                    tx.base
                } else {
                    tx.cur
                }),
                PhaseView::Statement { next, expect, .. } => after.cur == (if good && expect
                    == Expect::Success {
                    next
                } else {
                    tx.cur
                }),
                PhaseView::RollbackTo { saved, .. } => after.cur == (if good {
                    saved
                } else {
                    tx.cur
                }),
                _ => after.cur == tx.cur,
            }
            &&& match tx.phase {
                PhaseView::Begin => after.savepoints == (if good {
                    Seq::empty()
                } else {
                    tx.savepoints
                }) && !(after.phase is RollbackTo) && !(after.phase is Release),
                PhaseView::Savepoint { name } => after.savepoints == (if good {
                    tx.savepoints.push((name, tx.cur))
                } else {
                    tx.savepoints
                }),
                PhaseView::Statement { .. } => match after.phase {
                    PhaseView::RollbackTo { name, saved } => {
                        &&& tx.savepoints.len() > 0
                        &&& after.savepoints == tx.savepoints.drop_last()
                        &&& (name, saved) == tx.savepoints.last()
                    },
                    PhaseView::Release => {
                        &&& tx.savepoints.len() > 0
                        &&& after.savepoints == tx.savepoints.drop_last()
                    },
                    _ => after.savepoints == tx.savepoints,
                },
                _ => after.savepoints == tx.savepoints,
            }
            &&& !(after.phase is Start)
            &&& after.phase is Begin || after.phase is Autocommit ==> tx.phase is Start
            &&& tx.phase is Start ==> after.phase is Begin || after.phase is Autocommit
            &&& tx.phase is Begin && !good ==> after.phase is Over
            &&& tx.phase is Autocommit || tx.phase is Abandon ==> after.phase is Over
            &&& after.phase is RollbackTo || after.phase is Release ==> tx.phase is Begin
                || tx.phase is Statement
            &&& after.phase is ReleaseRolledBack ==> tx.phase is RollbackTo && good
            &&& (tx.phase is Savepoint || tx.phase is RollbackTo || tx.phase is Release
                || tx.phase is ReleaseRolledBack) && !good ==> after.phase is Over
                || after.phase is Abandon
            &&& after.phase matches PhaseView::Abandon { outcome, .. } ==> {
                &&& !(outcome is Committed)
                &&& outcome matches OutcomeView::Uncertain(u) ==> u == tx.cur && tx.phase is Commit
            }
        }),
    ensures
        ({
            let next = replay_turn(tx.phase, ev, t, marks);
            goes_with(after, next.0, next.1)
        }),
{
    let good = ev is Sql && ev->Sql_0 is Ok;
    if tx.phase is Savepoint && good {
        assert(marked(after.savepoints) =~= marked(tx.savepoints).push(tx.cur));
    }
    if tx.phase is RollbackTo {
        let saved = tx.phase->RollbackTo_saved;
        assert(marked(tx.savepoints).push(saved).drop_last() =~= marked(tx.savepoints));
    }
    if tx.phase is Begin && good {
        assert(marked(after.savepoints) =~= Seq::<Table>::empty());
    }
    if tx.phase is Statement && (after.phase is RollbackTo || after.phase is Release) {
        assert(marked(tx.savepoints).drop_last() =~= marked(tx.savepoints.drop_last()));
        assert(marked(tx.savepoints) =~= marked(tx.savepoints.drop_last()).push(
            tx.savepoints.last().1,
        ));
    }
}

proof fn lemma_end_keeps_up(
    a: (TxView, WorkView),
    ev: EventView,
    b: (TxView, WorkView),
    t: Table,
    marks: Seq<Table>,
)
    requires
        turned(a, ev, b),
        goes_with(a.0, t, marks),
    ensures
        ended(a, ev) matches Some(OutcomeView::Committed(c)) ==> c == replay_turn(
            a.0.phase,
            ev,
            t,
            marks,
        ).0,
        ended(a, ev) matches Some(OutcomeView::Uncertain(c)) ==> {
            ||| c == replay_turn(a.0.phase, ev, t, marks).0
            ||| a.0.phase matches PhaseView::Autocommit { next, .. } && c == next
        },
{
    reveal(turned);
    reveal(ended);
}

proof fn lemma_replay_keeps_up(trail: Trail, n: int)
    requires
        trail.holds_together(),
        0 <= n <= trail.events.len(),
    ensures
        goes_with(trail.runs[n].0, trail.replayed(n).0, trail.replayed(n).1),
        trail.runs[n].0.base == trail.runs[0].0.base,
    decreases n,
{
    if n > 0 {
        lemma_replay_keeps_up(trail, n - 1);
        let (t, marks) = trail.replayed(n - 1);
        assert(turned(trail.runs[n - 1], trail.events[n - 1], trail.runs[n - 1 + 1]));
        lemma_turn_keeps_up(trail.runs[n - 1], trail.events[n - 1], trail.runs[n], t, marks);
    }
}

proof fn lemma_planned_on(a: (TxView, WorkView), ev: EventView, b: (TxView, WorkView))
    requires
        turned(a, ev, b),
        b.0.phase is Statement || b.0.phase is Autocommit,
    ensures
        b.0.phase is Statement ==> exists|w0: WorkView|
            #[trigger] is_planned_on(b.0.phase, w0, b.0.cur, b.0.big_value_permille),
        b.0.phase is Autocommit ==> exists|w0: WorkView|
            #[trigger] is_planned_on(b.0.phase, w0, b.0.base, b.0.big_value_permille),
{
    reveal(turned);
    law_table_seen_after_a_turn(a.0, a.1, ev);
    law_statement_is_planned_on_the_table_seen(a.0, a.1, ev);
}

/// The table of an attempt that ends as committed is the table before it with
/// the effects of the statements that succeeded, in order, and with the
/// rollbacks to savepoints. So is the table of one whose commit failed; one
/// whose only statement failed outside a transaction leaves open whether that
/// statement was applied.
pub proof fn law_committed_is_what_the_statements_did(trail: Trail)
    requires
        trail.holds_together(),
        trail.events.len() > 0,
    ensures
        ({
            let n = trail.events.len() as int;
            let end = ended(trail.runs[n - 1], trail.events[n - 1]);
            &&& end matches Some(OutcomeView::Committed(t)) ==> t == trail.replayed(n).0
            &&& end matches Some(OutcomeView::Uncertain(t)) ==> {
                ||| t == trail.replayed(n).0
                ||| trail.runs[n - 1].0.phase matches PhaseView::Autocommit { next, .. } && t
                    == next
            }
        }),
{
    let n = trail.events.len() as int;
    lemma_replay_keeps_up(trail, n - 1);
    let (t, marks) = trail.replayed(n - 1);
    assert(turned(trail.runs[n - 1], trail.events[n - 1], trail.runs[n - 1 + 1]));
    lemma_end_keeps_up(trail.runs[n - 1], trail.events[n - 1], trail.runs[n], t, marks);
}

/// Each statement of an attempt is planned on the table that the statements
/// before it have made of the table before the attempt: what it is to leave is
/// its effect on that table.
pub proof fn law_each_statement_builds_on_those_before(trail: Trail, i: int)
    requires
        trail.holds_together(),
        0 <= i <= trail.events.len(),
        trail.runs[i].0.phase is Statement || trail.runs[i].0.phase is Autocommit,
    ensures
        exists|w0: WorkView|
            #[trigger] is_planned_on(
                trail.runs[i].0.phase,
                w0,
                trail.replayed(i).0,
                trail.runs[i].0.big_value_permille,
            ),
{
    lemma_replay_keeps_up(trail, i);
    assert(turned(trail.runs[i - 1], trail.events[i - 1], trail.runs[i - 1 + 1]));
    lemma_planned_on(trail.runs[i - 1], trail.events[i - 1], trail.runs[i]);
}

/// What the answer to `COMMIT` makes of an attempt: committed with the table
/// seen; on a busy engine rolled back and busy; on any other failure rolled
/// back, counted and noted, with the commit left open.
pub proof fn law_answer_to_commit(tx: TxView, w: WorkView, r: Result<Cells, FailView>)
    requires
        tx.phase is Commit,
    ensures
        ({
            let step = tx.step(w, EventView::Sql(r));
            &&& step.violations.len() == 0
            &&& match r {
                Ok(_) => {
                    &&& step.action == TxActionView::Finish(OutcomeView::Committed(tx.cur), false)
                    &&& step.work == w
                    &&& step.note is None
                },
                Err(FailView::Busy) => {
                    &&& step.action == TxActionView::Exec("ROLLBACK"@)
                    &&& step.tx.phase == PhaseView::Abandon {
                        outcome: OutcomeView::Busy,
                        crashed: false,
                    }
                    &&& step.work == w
                    &&& step.note is None
                },
                Err(e) => {
                    &&& step.action == TxActionView::Exec("ROLLBACK"@)
                    &&& step.tx.phase == PhaseView::Abandon {
                        outcome: OutcomeView::Uncertain(tx.cur),
                        crashed: false,
                    }
                    &&& step.work == w.bumped("commit-error"@)
                    &&& step.note == Some("note: COMMIT error: "@ + e.wording())
                },
            }
        }),
{
}

/// What the answer to a statement outside any transaction makes of an attempt.
pub proof fn law_answer_to_autocommit(
    tx: TxView,
    w: WorkView,
    r: Result<Cells, FailView>,
    sql: Seq<char>,
    next: Table,
    expect: Expect,
)
    requires
        tx.phase == (PhaseView::Autocommit { sql, next, expect }),
    ensures
        ({
            let step = tx.step(w, EventView::Sql(r));
            let end = |o: OutcomeView| step.action == TxActionView::Finish(o, false);
            let quiet = step.violations.len() == 0;
            let plain = step.work == w && step.note is None;
            match r {
                Ok(shown) => match expect {
                    Expect::Success => end(OutcomeView::Committed(next)) && quiet && plain,
                    Expect::Count => {
                        &&& end(OutcomeView::Committed(tx.base))
                        &&& plain
                        &&& match rows::count_verdict(shown, tx.base, "autocommit"@) {
                            None => quiet,
                            Some(v) => step.violations == seq![v],
                        }
                    },
                    Expect::Constraint => {
                        &&& end(OutcomeView::Committed(tx.base))
                        &&& plain
                        &&& step.violations == seq![
                            ViolationView { label: "constraint-not-enforced"@, detail: sql },
                        ]
                    },
                },
                Err(FailView::Busy) => end(OutcomeView::Busy) && quiet && plain,
                Err(FailView::Constraint(_)) => if expect == Expect::Constraint {
                    end(OutcomeView::Committed(tx.base)) && quiet && plain
                } else {
                    &&& end(OutcomeView::Aborted(r->Err_0.wording()))
                    &&& quiet
                    &&& step.work == w.bumped("autocommit-error"@)
                    &&& step.note is None
                },
                Err(e) => {
                    &&& quiet
                    &&& step.work == w.bumped("autocommit-error"@)
                    &&& if expect == Expect::Success {
                        &&& end(OutcomeView::Uncertain(next))
                        &&& step.note == Some("note: autocommit error: "@ + e.wording())
                    } else {
                        &&& end(OutcomeView::Aborted(e.wording()))
                        &&& step.note is None
                    }
                },
            }
        }),
{
}

/// What a turn does where a statement inside the transaction failed for a
/// reason that is no broken constraint: it rolls back, and the attempt ends as
/// busy or as abandoned with the statement and the reason.
pub proof fn law_failed_statement_gives_up(
    tx: TxView,
    w: WorkView,
    e: FailView,
    sql: Seq<char>,
    next: Table,
    expect: Expect,
)
    requires
        tx.phase == (PhaseView::Statement { sql, next, expect }),
        !(e is Constraint),
    ensures
        ({
            let step = tx.step(w, EventView::Sql(Err(e)));
            &&& step.action == TxActionView::Exec("ROLLBACK"@)
            &&& step.tx.phase == PhaseView::Abandon {
                outcome: if e is Busy {
                    OutcomeView::Busy
                } else {
                    OutcomeView::Aborted(text::first_chars(sql, 60) + ": "@ + e.wording())
                },
                crashed: false,
            }
            &&& step.violations.len() == 0
            &&& step.work == w
        }),
{
}

/// What a turn reports on the answer to a statement inside the transaction.
pub proof fn law_answer_to_a_statement_is_judged(
    tx: TxView,
    w: WorkView,
    r: Result<Cells, FailView>,
    sql: Seq<char>,
    next: Table,
    expect: Expect,
)
    requires
        tx.phase == (PhaseView::Statement { sql, next, expect }),
    ensures
        ({
            let found = tx.step(w, EventView::Sql(r)).violations;
            match r {
                Ok(shown) => match expect {
                    Expect::Success => found.len() == 0,
                    Expect::Count => match rows::count_verdict(shown, tx.cur, "in-tx"@) {
                        None => found.len() == 0,
                        Some(v) => found == seq![v],
                    },
                    Expect::Constraint => found == seq![
                        ViolationView { label: "constraint-not-enforced"@, detail: sql },
                    ],
                },
                Err(FailView::Constraint(msg)) => if expect == Expect::Constraint {
                    found.len() == 0
                } else {
                    found == seq![
                        ViolationView {
                            label: "unexpected-constraint-error"@,
                            detail: text::first_chars(sql, 80) + ": "@ + msg,
                        },
                    ]
                },
                Err(_) => found.len() == 0,
            }
        }),
{
}

/// Where the attempt stands after a statement inside the transaction that was
/// run or refused for its constraint: one statement further, and all else that
/// the draws decide.
pub proof fn law_statements_are_counted_off(
    tx: TxView,
    w: WorkView,
    r: Result<Cells, FailView>,
)
    requires
        tx.phase is Statement,
        tx.index < tx.nstmts,
    ensures
        ({
            let after = tx.step(w, EventView::Sql(r)).tx;
            let goes_on = r is Ok || r->Err_0 is Constraint;
            &&& after.nstmts == tx.nstmts
            &&& after.crash_after == tx.crash_after
            &&& after.index == (if goes_on {
                tx.index + 1
            } else {
                tx.index as int
            })
        }),
{
}

/// What comes after a statement that was run or refused for its constraint: a
/// power cut where it is due; a savepoint, the end of one, or the next
/// statement, as the draws have it; after the last statement a look at what was
/// written, a rollback or a commit.
pub proof fn law_what_follows_a_statement(tx: TxView, w: WorkView, r: Result<Cells, FailView>)
    requires
        tx.phase is Statement,
        tx.index < tx.nstmts,
        r is Ok || r->Err_0 is Constraint,
    ensures
        ({
            let step = tx.step(w, EventView::Sql(r));
            let p = step.tx.phase;
            let rng1 = prng::prng_advance(w.rng);
            let rng2 = prng::prng_advance(rng1);
            let first = prng::prng_draw(w.rng) % 1000;
            let second = prng::prng_draw(rng1) % 1000;
            let third = prng::prng_draw(rng2) % 1000;
            if tx.index + 1 >= tx.nstmts {
                if first < 400 {
                    &&& p is ReadBack
                    &&& step.action == TxActionView::ReadDigest
                    &&& step.work == w.drawn()
                } else if second < 100 {
                    &&& p is Rollback
                    &&& step.action == TxActionView::Exec("ROLLBACK"@)
                    &&& step.work == w.drawn().drawn()
                } else {
                    &&& p is Commit
                    &&& step.action == TxActionView::Exec("COMMIT"@)
                    &&& step.work == w.drawn().drawn()
                }
            } else if tx.crash_after == Some((tx.index + 1) as u64) {
                &&& p is Cut
                &&& step.action == TxActionView::PowerCut
                &&& step.work == w.bumped("crash-mid-tx"@)
            } else if first < 120 {
                &&& p is Savepoint
                &&& step.work == w.drawn()
            } else if tx.savepoints.len() == 0 {
                &&& p is Statement
            } else if second < 250 {
                &&& third < 500 ==> p is RollbackTo
                &&& third >= 500 ==> p is Release
                &&& step.work == w.drawn().drawn().drawn()
            } else {
                &&& p is Statement
            }
        }),
{
}

/// What follows `BEGIN`: as many statements as are drawn, between one and
/// fifteen, and where the power is to be cut in the middle, a cut before one of
/// them, drawn as well. A `BEGIN` that fails ends the attempt.
pub proof fn law_begin_draws_the_statements(tx: TxView, w: WorkView, r: Result<Cells, FailView>)
    requires
        tx.phase is Begin,
    ensures
        ({
            let step = tx.step(w, EventView::Sql(r));
            let after = step.tx;
            let rng1 = prng::prng_advance(w.rng);
            &&& step.violations.len() == 0
            &&& match r {
                Ok(_) => {
                    &&& after.nstmts == 1 + prng::prng_draw(w.rng) as int % 15
                    &&& after.index == 0
                    &&& !tx.crash_mid_tx ==> after.crash_after is None && !(after.phase is Cut)
                    &&& tx.crash_mid_tx ==> {
                        let at = prng::prng_draw(rng1) as int % (after.nstmts as int);
                        &&& after.crash_after is Some
                        &&& after.crash_after->0 == at
                        &&& after.phase is Cut <==> at == 0
                        &&& after.phase is Cut ==> step.action is PowerCut && step.work
                            == w.drawn().drawn().bumped("crash-mid-tx"@)
                    }
                    &&& !(after.phase is Cut) ==> {
                        let rng = if tx.crash_mid_tx {
                            prng::prng_advance(rng1)
                        } else {
                            rng1
                        };
                        if prng::prng_draw(rng) % 1000 < 120 {
                            &&& after.phase == PhaseView::Savepoint { name: "sp"@ + text::decimal(0) }
                            &&& step.action == TxActionView::Exec(
                                "SAVEPOINT "@ + ("sp"@ + text::decimal(0)),
                            )
                        } else {
                            after.phase is Statement
                        }
                    }
                },
                Err(e) => {
                    &&& step.work == w
                    &&& step.action == TxActionView::Finish(
                        if e is Busy {
                            OutcomeView::Busy
                        } else {
                            OutcomeView::Aborted("begin: "@ + e.wording())
                        },
                        false,
                    )
                },
            }
        }),
{
    prng::law_pick_in_range(w.rng, 1, 15);
    let n = prng::prng_pick(w.rng, 1, 15);
    let rng1 = prng::prng_advance(w.rng);
    prng::law_pick_in_range(rng1, 0, (n - 1) as u64);
}

/// The first turn: with three chances in ten a statement outside any
/// transaction, else `BEGIN`.
pub proof fn law_attempt_begins(tx: TxView, w: WorkView)
    requires
        tx.phase is Start,
    ensures
        ({
            let step = tx.step(w, EventView::Start);
            &&& prng::prng_draw(w.rng) % 1000 < 300 <==> step.tx.phase is Autocommit
            &&& prng::prng_draw(w.rng) % 1000 >= 300 ==> {
                &&& step.tx.phase is Begin
                &&& step.action == TxActionView::Exec("BEGIN"@)
                &&& step.work == w.drawn()
            }
            &&& step.violations.len() == 0
        }),
{
}

/// What a turn does on the answer to `SAVEPOINT`, `ROLLBACK TO` or `RELEASE`:
/// where it succeeded it is counted, and the statement follows (after
/// `ROLLBACK TO`, the `RELEASE` first); a busy engine ends the attempt; any
/// other failure rolls it back.
pub proof fn law_answer_to_a_savepoint(tx: TxView, w: WorkView, r: Result<Cells, FailView>)
    requires
        tx.phase is Savepoint || tx.phase is RollbackTo || tx.phase is Release
            || tx.phase is ReleaseRolledBack,
    ensures
        ({
            let step = tx.step(w, EventView::Sql(r));
            let big = tx.big_value_permille;
            &&& step.violations.len() == 0
            &&& step.tx.index == tx.index
            &&& match r {
                Ok(_) => match tx.phase {
                    PhaseView::RollbackTo { name, .. } => {
                        &&& step.tx.phase is ReleaseRolledBack
                        &&& step.action == TxActionView::Exec("RELEASE "@ + name)
                        &&& step.work == w.bumped("rollback-to"@)
                    },
                    PhaseView::Savepoint { .. } => {
                        &&& is_planned_on(step.tx.phase, w.bumped("savepoint"@), tx.cur, big)
                        &&& step.work == w.bumped("savepoint"@).planned(tx.cur, big)
                    },
                    PhaseView::Release => {
                        &&& is_planned_on(step.tx.phase, w.bumped("release"@), tx.cur, big)
                        &&& step.work == w.bumped("release"@).planned(tx.cur, big)
                    },
                    _ => {
                        &&& is_planned_on(step.tx.phase, w, tx.cur, big)
                        &&& step.work == w.planned(tx.cur, big)
                    },
                },
                Err(FailView::Busy) => {
                    &&& step.action == TxActionView::Finish(OutcomeView::Busy, false)
                    &&& step.work == w
                },
                Err(e) => {
                    let what = match tx.phase {
                        PhaseView::Savepoint { .. } => "savepoint: "@,
                        PhaseView::RollbackTo { .. } => "rollback-to: "@,
                        _ => "release: "@,
                    };
                    &&& step.action == TxActionView::Exec("ROLLBACK"@)
                    &&& step.tx.phase == PhaseView::Abandon {
                        outcome: OutcomeView::Aborted(what + e.wording()),
                        crashed: false,
                    }
                    &&& step.work == w
                },
            }
        }),
{
}

/// What a transaction makes of what it reads of its own writes: another digest
/// than that of the table it has made is reported, with both numbers of rows;
/// then, as after a busy engine, it commits or rolls back. Any other failure
/// rolls it back.
pub proof fn law_own_writes_are_read_back(
    tx: TxView,
    w: WorkView,
    r: Result<(u64, usize), FailView>,
)
    requires
        tx.phase is ReadBack,
    ensures
        ({
            let step = tx.step(w, EventView::Digest(r));
            let goes_on = r is Ok || r->Err_0 is Busy;
            &&& goes_on ==> {
                &&& step.work == w.drawn()
                &&& if prng::prng_draw(w.rng) % 1000 < 100 {
                    step.tx.phase is Rollback && step.action == TxActionView::Exec("ROLLBACK"@)
                } else {
                    step.tx.phase is Commit && step.action == TxActionView::Exec("COMMIT"@)
                }
            }
            &&& match r {
                Ok((digest, n)) => if digest == table::table_digest(tx.cur) {
                    step.violations.len() == 0
                } else {
                    step.violations == seq![
                        ViolationView {
                            label: "read-your-writes-violated"@,
                            detail: "in-tx digest mismatch rows_db="@ + text::decimal(n as int)
                                + " rows_model="@ + text::decimal(tx.cur.len() as int),
                        },
                    ]
                },
                Err(e) => {
                    &&& step.violations.len() == 0
                    &&& !(e is Busy) ==> {
                        &&& step.action == TxActionView::Exec("ROLLBACK"@)
                        &&& step.work == w
                        &&& step.tx.phase == PhaseView::Abandon {
                            outcome: OutcomeView::Aborted("in-tx read: "@ + e.wording()),
                            crashed: false,
                        }
                    }
                },
            }
        }),
{
}

/// What the answer to the final `ROLLBACK` makes of an attempt, and how an
/// abandoned attempt ends: with what it was abandoned for, whatever the
/// rollback gave.
pub proof fn law_answer_to_rollback(tx: TxView, w: WorkView, r: Result<Cells, FailView>)
    ensures
        ({
            let step = tx.step(w, EventView::Sql(r));
            &&& tx.phase is Rollback ==> {
                &&& step.violations.len() == 0
                &&& step.work == w
                &&& step.action == TxActionView::Finish(
                    match r {
                        Ok(_) => OutcomeView::RolledBack,
                        Err(FailView::Busy) => OutcomeView::Busy,
                        Err(e) => OutcomeView::Aborted("rollback: "@ + e.wording()),
                    },
                    false,
                )
            }
            &&& tx.phase matches PhaseView::Abandon { outcome, crashed } ==> {
                &&& step.violations.len() == 0
                &&& step.work == w
                &&& step.action == TxActionView::Finish(outcome, crashed)
            }
        }),
{
}

/// What is said of a failure.
pub proof fn law_failures_are_named(s: Seq<char>)
    ensures
        FailView::Busy.wording() == "Busy"@,
        FailView::Stuck.wording() == "Stuck"@,
        FailView::Constraint(s).wording() == "Constraint("@ + text::quoted(s) + ")"@,
        FailView::Error(s).wording() == "Error("@ + text::quoted(s) + ")"@,
        FailView::Panic(s).wording() == "Panic("@ + text::quoted(s) + ")"@,
{
}

/// What an attempt waits for: its start, a statement's answer, a digest where it
/// reads back what it wrote, the power cut; nothing more when it is over.
pub proof fn law_attempt_waits_for(tx: TxView, ev: EventView)
    ensures
        tx.awaits(ev) <==> {
            if tx.phase is Start {
                ev is Start
            } else if tx.phase is Cut {
                ev is PowerCut
            } else if tx.phase is ReadBack {
                ev is Digest
            } else {
                ev is Sql && !(tx.phase is Over)
            }
        },
{
}

/// Whether one more thing of a kind can be counted.
pub open spec fn countable(w: WorkView, k: Seq<char>) -> bool {
    !w.stats.contains_key(k) || w.stats[k] < u64::MAX
}

/// When a turn stays within 64 bits: every counter that it raises has room, the
/// statement that it plans fits, and a sum that it compares can be formed. Any
/// other turn always does.
pub proof fn law_turns_stay_within_64_bits(tx: TxView, w: WorkView, ev: EventView)
    requires
        tx.awaits(ev),
        tx.phase is Statement ==> tx.index < tx.nstmts,
    ensures
        ({
            let step = tx.step(w, ev);
            let big = tx.big_value_permille;
            let cur = step.tx.cur;
            let good = ev is Sql && ev->Sql_0 is Ok;
            let follows = |v: WorkView|
                match step.tx.phase {
                    PhaseView::Cut => countable(v, "crash-mid-tx"@),
                    PhaseView::Statement { .. } => if step.tx.savepoints.len() == 0 {
                        v.drawn().statement_fits(cur, big)
                    } else {
                        v.drawn().drawn().statement_fits(cur, big)
                    },
                    _ => true,
                };
            step.fits <==> match tx.phase {
                PhaseView::Start => step.tx.phase is Autocommit ==> w.drawn().statement_fits(
                    tx.base,
                    big,
                ),
                PhaseView::Autocommit { expect, .. } => match ev->Sql_0 {
                    Ok(_) => expect == Expect::Count ==> rows::sum_fits(tx.base),
                    Err(FailView::Busy) => true,
                    Err(FailView::Constraint(_)) => expect == Expect::Constraint || countable(
                        w,
                        "autocommit-error"@,
                    ),
                    Err(_) => countable(w, "autocommit-error"@),
                },
                PhaseView::Begin => good ==> follows(
                    if tx.crash_mid_tx {
                        w.drawn().drawn()
                    } else {
                        w.drawn()
                    },
                ),
                PhaseView::Savepoint { .. } => good ==> countable(w, "savepoint"@) && w.bumped(
                    "savepoint"@,
                ).statement_fits(tx.cur, big),
                PhaseView::RollbackTo { .. } => good ==> countable(w, "rollback-to"@),
                PhaseView::Release => good ==> countable(w, "release"@) && w.bumped(
                    "release"@,
                ).statement_fits(tx.cur, big),
                PhaseView::ReleaseRolledBack => good ==> w.statement_fits(tx.cur, big),
                PhaseView::Statement { expect, .. } => {
                    &&& good && expect == Expect::Count ==> rows::sum_fits(tx.cur)
                    &&& good || ev->Sql_0->Err_0 is Constraint ==> follows(w)
                },
                PhaseView::Commit => good || ev->Sql_0->Err_0 is Busy || countable(
                    w,
                    "commit-error"@,
                ),
                _ => true,
            }
        }),
{
    prng::law_pick_in_range(w.rng, 1, 15);
}

} // verus!
