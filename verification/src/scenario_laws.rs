//! How the operations of a script are carried out, and what is made of their
//! answers.

use crate::detio::OpKind;
use crate::exec::Fail;
use crate::log::SayingView;
use crate::report::ViolationView;
use crate::scenario;
use crate::scenario::{ActionView, Event, NotesView, ScenarioView};
use crate::script::{Caption, Figure, Filling, Op, Place, Query, Slot, Want};
use crate::text;
use vstd::prelude::*;

verus! {

/// What the pieces of a script are in words.
pub proof fn law_pieces_of_a_script_in_words(
    c: Caption,
    i: i64,
    w: &'static str,
    ch: char,
    len: usize,
    id: i64,
    n: i64,
    v: Filling,
    rows: u64,
)
    ensures
        c.num is None ==> c.text() == c.pre@ + c.post@,
        c.num is Some ==> c.text() == c.pre@ + text::decimal(c.num->0 as int) + c.post@,
        Filling::Row(i).text() == "row"@ + text::decimal(i as int),
        Filling::Word(w).text() == w@,
        Filling::Repeat(ch, len).text().len() == len,
        forall|j: int| 0 <= j < len ==> #[trigger] Filling::Repeat(ch, len).text()[j] == ch,
        Query::Plain(w).sql() == w@,
        Query::Cache(n).sql() == "PRAGMA cache_size="@ + text::decimal(n as int),
        (Query::Insert { id, n, v }).sql() == "INSERT INTO kv VALUES("@ + text::decimal(id as int)
            + ", "@ + text::decimal(n as int) + ", '"@ + v.text() + "')"@,
        Query::Count.sql() == "SELECT count(*), coalesce(sum(n),0) FROM kv"@,
        Want::Fine.text() == "ok"@,
        Want::OneRow.text() == "ok rows=1"@,
        Want::Rows(rows).text() == "ok [\""@ + text::decimal(rows as int) + "\""@,
{
}

/// How an answer is shown: the first row of a count, the number of rows of
/// anything else, or the failure.
pub proof fn law_answers_are_shown(q: Query, rows: Vec<Vec<String>>, e: Fail)
    ensures
        q is Count && rows@.len() > 0 ==> scenario::answer_text(q, Ok(rows)) == "ok "@
            + text::quoted_list(rows@[0]@),
        !(q is Count) ==> scenario::answer_text(q, Ok(rows)) == "ok rows="@ + text::decimal(
            rows@.len() as int,
        ),
        scenario::answer_text(q, Err(e)) == "ERR "@ + e@.wording(),
        scenario::answerable(q, Err(e)),
        scenario::answerable(q, Ok(rows)) <==> !(q is Count) || rows@.len() > 0,
{
}

/// What a check says: both what was got and what was expected; an answer that
/// does not begin as expected is marked and reported under the scenario's name.
pub proof fn law_check_says_both_sides(
    name: Seq<char>,
    what: Seq<char>,
    got: Seq<char>,
    want: Seq<char>,
)
    ensures
        ({
            let said = scenario::check_said(name, what, got, want);
            let line = "scenario["@ + name + "]: "@ + what + " -> "@ + got + "   (expect "@ + want
                + ")"@;
            let fine = want.len() <= got.len() && got.take(want.len() as int) == want;
            &&& fine ==> said == seq![SayingView::Line(line)]
            &&& !fine ==> said == seq![
                SayingView::Line(line + "  <-- MISMATCH"@),
                SayingView::Broken(
                    ViolationView {
                        label: "scenario-"@ + name,
                        detail: what + ": got "@ + got + ", expected "@ + want,
                    },
                ),
            ]
        }),
{
}

/// Where a scenario works: in the main directory, or in one below it that is
/// named for the placement or the round, so that no two of them meet.
pub proof fn law_directories_are_named(tag: &'static str, kind: OpKind, k: u32)
    ensures
        scenario::dir_of(Place::Main) == "/turso-dst"@,
        scenario::dir_of(Place::Placement { tag, kind, k }) == "/turso-dst"@ + "/"@ + tag@ + "-"@
            + kind.name()@ + "-"@ + text::decimal(k as int),
        scenario::dir_of(Place::Round { tag, k }) == "/turso-dst"@ + "/"@ + tag@ + "-"@
            + text::decimal(k as int),
{
}

/// What is done for an operation of a script.
pub proof fn law_operations_are_carried_out(run: ScenarioView)
    requires
        0 <= run.pc,
    ensures
        run.pc >= run.script.len() ==> run.action() is Finish,
        run.pc < run.script.len() ==> {
            let a = run.action();
            let dir = scenario::dir_of(run.place);
            match run.script[run.pc] {
                Op::Enter(place) => a == ActionView::MakeDir(scenario::dir_of(place)),
                Op::SyncDir => a == ActionView::SyncDir(dir),
                Op::Open => a == (ActionView::Open { dir, configured: run.place is Main }),
                Op::TryOpen { synced } => a == (ActionView::TryOpen {
                    dir,
                    configured: run.place is Main,
                    synced,
                }),
                Op::Drop(crashed) => a == ActionView::Drop(crashed),
                Op::DropAsCut => a == ActionView::Drop(run.notes.cut),
                Op::Must(q) => a == ActionView::Must(q.sql()),
                Op::Check { query, .. } => a == ActionView::Ask(query.sql()),
                Op::Show { query, .. } => a == ActionView::Ask(query.sql()),
                Op::Keep { query, .. } => a == ActionView::Ask(query.sql()),
                Op::ShowFailed { query, .. } => a == ActionView::Ask(query.sql()),
                Op::ShowFigure { figure, .. } => {
                    &&& figure == Figure::AutoCommit ==> a is AutoCommit
                    &&& figure == Figure::Injected ==> a is Injected
                    &&& figure == Figure::Pending ==> a is Pending
                },
                Op::KeepAutoCommit => a is AutoCommit,
                Op::KeepCut => a is ArmedCuts,
                Op::ArmFail { kind, k } => a == ActionView::ArmFail(kind, k),
                Op::ArmCrash { kind, k } => a == ActionView::ArmCrash(kind, k),
                Op::ArmShort { k, bytes } => a == ActionView::ArmShort(k, bytes),
                Op::Disarm => a is Disarm,
                Op::Defer(permille) => a == ActionView::Defer(permille),
                Op::Drain => a is Drain,
                Op::MustTruncate => a is MustTruncate,
                Op::Truncate => a is Truncate,
                Op::PowerCut => a is PowerCut,
                Op::EndIfFine { query, .. } => a == (if text::begins_with(
                    run.notes.first,
                    "ok"@,
                ) {
                    ActionView::Ask(query.sql())
                } else {
                    ActionView::Pass
                }),
                Op::CheckRolledBack { .. } => a == ActionView::Ask(
                    "SELECT count(*), coalesce(sum(n),0) FROM kv"@,
                ),
                _ => a is Pass,
            }
        },
{
}

/// An operation leads to the next one; only a skip leads further, and a commit
/// under test that succeeded leads to the end. Only entering a directory changes
/// where the scenario works, and what is kept is kept where it was to be kept.
pub proof fn law_operations_lead_on(run: ScenarioView, ev: Event)
    requires
        0 <= run.pc < run.script.len(),
    ensures
        ({
            let after = run.settle(ev).run;
            let op = run.script[run.pc];
            let last = run.script.len() as int;
            let to = |n: int|
                if run.pc + 1 + n <= last {
                    run.pc + 1 + n
                } else {
                    last
                };
            &&& after.name == run.name
            &&& after.script == run.script
            &&& after.pc == (match op {
                Op::Skip(n) => to(n as int),
                Op::SkipIfOpened(n) => if run.notes.open_error is None {
                    to(n as int)
                } else {
                    run.pc + 1
                },
                Op::EndIfFine { .. } => if text::begins_with(run.notes.first, "ok"@) {
                    last
                } else {
                    run.pc + 1
                },
                _ => run.pc + 1,
            })
            &&& after.place == (match op {
                Op::Enter(place) => place,
                _ => run.place,
            })
        }),
{
    reveal(ScenarioView::settle);
}

/// What is remembered of an operation, and that nothing else is forgotten for
/// it.
pub proof fn law_answers_are_kept(run: ScenarioView, ev: Event)
    requires
        0 <= run.pc < run.script.len(),
    ensures
        ({
            let n = run.notes;
            let after = run.settle(ev).run.notes;
            let kept = |slot: Slot, got: Seq<char>|
                after == (NotesView {
                    first: if slot == Slot::First {
                        got
                    } else {
                        n.first
                    },
                    second: if slot == Slot::Second {
                        got
                    } else {
                        n.second
                    },
                    third: if slot == Slot::Third {
                        got
                    } else {
                        n.third
                    },
                    last: if slot == Slot::Last {
                        got
                    } else {
                        n.last
                    },
                    ..n
                });
            match run.script[run.pc] {
                Op::Show { query, slot, .. } => kept(
                    slot,
                    scenario::answer_text(query, ev->Answer_0),
                ),
                Op::Keep { query, slot } => kept(slot, scenario::answer_text(query, ev->Answer_0)),
                Op::TryOpen { .. } => after == (NotesView {
                    open_error: match ev->Opened_0 {
                        Some(e) => Some(e@),
                        None => None,
                    },
                    ..n
                }),
                Op::KeepAutoCommit => after == (NotesView { auto_commit: ev->Flag_0, ..n }),
                Op::KeepCut => after == (NotesView { cut: ev->Number_0 == 0, ..n }),
                Op::PowerCut => after == (NotesView { cut: ev->Flag_0, ..n }),
                Op::Truncate => after == (NotesView {
                    checkpoint: match ev->Truncated_0 {
                        Ok(m) => "ok backfilled="@ + text::decimal(m as int),
                        Err(e) => "ERR "@ + e@,
                    },
                    ..n
                }),
                _ => after == n,
            }
        }),
{
    reveal(ScenarioView::settle);
}

/// What is said of an operation.
pub proof fn law_operations_are_reported(run: ScenarioView, ev: Event)
    requires
        0 <= run.pc < run.script.len(),
    ensures
        ({
            let said = run.settle(ev).said;
            let n = run.notes;
            let line = |rest: Seq<char>|
                said == seq![SayingView::Line("scenario["@ + run.name + "]: "@ + rest)];
            match run.script[run.pc] {
                Op::Check { caption, query, want } => said == scenario::check_said(
                    run.name,
                    caption.text(),
                    scenario::answer_text(query, ev->Answer_0),
                    want.text(),
                ),
                Op::Show { caption, query, .. } => line(
                    caption.text() + scenario::answer_text(query, ev->Answer_0),
                ),
                Op::ShowFailed { caption, query } => {
                    let got = scenario::answer_text(query, ev->Answer_0);
                    &&& text::begins_with(got, "ok"@) ==> said.len() == 0
                    &&& !text::begins_with(got, "ok"@) ==> line(caption.text() + got)
                },
                Op::ShowFigure { caption, figure } => {
                    &&& figure == Figure::AutoCommit ==> line(
                        caption.text() + (if ev->Flag_0 {
                            "true"@
                        } else {
                            "false"@
                        }),
                    )
                    &&& figure != Figure::AutoCommit ==> line(
                        caption.text() + text::decimal(ev->Number_0 as int),
                    )
                },
                Op::EndIfFine { caption, query, want } => if text::begins_with(n.first, "ok"@) {
                    said == scenario::check_said(
                        run.name,
                        caption.text(),
                        scenario::answer_text(query, ev->Answer_0),
                        want.text(),
                    )
                } else {
                    said.len() == 0
                },
                Op::ShowRecoveryError { k } => line(
                    "reopen with pread#"@ + text::decimal(k as int)
                        + " failing -> open ERR Some("@ + (match n.open_error {
                        Some(e) => e,
                        None => Seq::empty(),
                    }) + ")"@,
                ),
                Op::ShowShortError { k } => line(
                    "short pread#"@ + text::decimal(k as int) + " at open -> open ERR "@ + (
                    match n.open_error {
                        Some(e) => e,
                        None => Seq::empty(),
                    }),
                ),
                Op::ShowUpdate { k } => line(
                    "k="@ + text::decimal(k as int) + " UPDATE -> "@ + n.first + "; INSERT -> "@
                        + n.second,
                ),
                Op::ShowRollback { k } => line(
                    "k="@ + text::decimal(k as int) + " UPDATE_err="@ + (if text::begins_with(
                        n.first,
                        "ERR"@,
                    ) {
                        "true"@
                    } else {
                        "false"@
                    }) + " autocommit_after_update="@ + (if n.auto_commit {
                        "true"@
                    } else {
                        "false"@
                    }) + " ROLLBACK -> "@ + n.third,
                ),
                Op::CheckRolledBack { k } => said == scenario::check_said(
                    run.name,
                    "k="@ + text::decimal(k as int) + " count after ROLLBACK"@,
                    scenario::answer_text(Query::Count, ev->Answer_0),
                    "ok [\""@ + text::decimal(
                        if text::begins_with(n.first, "ERR"@) {
                            5
                        } else {
                            4
                        },
                    ) + "\""@,
                ),
                Op::JudgeFailedCheckpoint { kind, k } => said == scenario::failed_checkpoint_said(
                    run.name,
                    n,
                    kind,
                    k,
                ),
                Op::JudgeCrashedCheckpoint { kind, k } => said
                    == scenario::crashed_checkpoint_said(run.name, n, kind, k),
                Op::JudgeShortRead { k } => said == scenario::short_read_said(run.name, n, k),
                _ => said.len() == 0,
            }
        }),
{
    reveal(ScenarioView::settle);
}

/// Whether an answer counts so many rows.
pub open spec fn counts_rows(answer: Seq<char>, n: int) -> bool {
    text::begins_with(answer, "ok [\""@ + text::decimal(n) + "\""@)
}

/// What is made of a failed checkpoint, a commit and a power cut: unless eight
/// or nine rows are there, rows that were committed are lost, which is marked
/// and reported with the placement.
pub proof fn law_failed_checkpoint_is_judged(name: Seq<char>, n: NotesView, kind: OpKind, k: u32)
    ensures
        ({
            let said = scenario::failed_checkpoint_said(name, n, kind, k);
            let place = kind.name()@ + "#"@ + text::decimal(k as int);
            let kept = counts_rows(n.last, 8) || counts_rows(n.last, 9);
            let line = "scenario["@ + name + "]: "@ + place + ": checkpoint -> "@ + n.checkpoint
                + "; INSERT 9 -> "@ + n.second + "; live "@ + n.third + "; power_cut="@ + (
            if n.cut {
                "true"@
            } else {
                "false"@
            }) + "; after reopen "@ + n.last;
            &&& kept ==> said == seq![SayingView::Line(line + ""@)]
            &&& !kept ==> said == seq![
                SayingView::Line(line + "   <-- DATA LOSS"@),
                SayingView::Broken(
                    ViolationView {
                        label: "scenario-"@ + name,
                        detail: place + ": checkpoint "@ + n.checkpoint
                            + "; after crash+reopen "@ + n.last,
                    },
                ),
            ]
        }),
{
}

/// What is made of a power cut inside a checkpoint: where the power was cut,
/// unless all sixteen rows are there, rows are lost, which is marked and
/// reported with the placement; where it was not cut, it is only shown.
pub proof fn law_crashed_checkpoint_is_judged(name: Seq<char>, n: NotesView, kind: OpKind, k: u32)
    ensures
        ({
            let said = scenario::crashed_checkpoint_said(name, n, kind, k);
            let place = kind.name()@ + "#"@ + text::decimal(k as int);
            let kept = counts_rows(n.last, 16);
            let line = SayingView::Line(
                "scenario["@ + name + "]: "@ + "crash after "@ + place + ": cut="@ + (if n.cut {
                    "true"@
                } else {
                    "false"@
                }) + " checkpoint -> "@ + n.checkpoint + "; after reopen "@ + n.last + (if kept {
                    ""@
                } else {
                    "   <-- DATA LOSS"@
                }),
            );
            &&& kept || !n.cut ==> said == seq![line]
            &&& !kept && n.cut ==> said == seq![
                line,
                SayingView::Broken(
                    ViolationView {
                        label: "scenario-"@ + name,
                        detail: "crash after "@ + place
                            + " in TRUNCATE checkpoint: after reopen "@ + n.last,
                    },
                ),
            ]
        }),
{
}

/// What is made of a short read at open, an insert and a clean reopen: unless
/// nine rows are there, or eight where the insert had failed, rows are lost,
/// which is marked and reported with what the database had opened with.
pub proof fn law_short_read_is_judged(name: Seq<char>, n: NotesView, k: u32)
    ensures
        ({
            let said = scenario::short_read_said(name, n, k);
            let kept = counts_rows(n.last, 9) || (counts_rows(n.last, 8) && !text::begins_with(
                n.second,
                "ok"@,
            ));
            let line = "scenario["@ + name + "]: "@ + "k="@ + text::decimal(k as int)
                + " count after clean reopen -> "@ + n.last;
            &&& kept ==> said == seq![SayingView::Line(line + ""@)]
            &&& !kept ==> said == seq![
                SayingView::Line(line + "   <-- DATA LOSS"@),
                SayingView::Broken(
                    ViolationView {
                        label: "scenario-"@ + name,
                        detail: "short pread#"@ + text::decimal(k as int)
                            + " at open: opened with "@ + n.third + "; after insert+reopen "@
                            + n.last,
                    },
                ),
            ]
        }),
{
}

/// Nothing is remembered at the start.
pub proof fn law_nothing_is_remembered_at_the_start()
    ensures
        ({
            let n = NotesView::blank();
            &&& n.first.len() == 0 && n.second.len() == 0
            &&& n.third.len() == 0 && n.last.len() == 0
            &&& n.checkpoint.len() == 0
            &&& !n.cut && !n.auto_commit && n.open_error is None
        }),
{
    reveal_strlit("");
}

/// What a scenario waits for: an answer that can be shown where a statement is
/// asked, a flag or a number where one is looked up, the outcome of opening or
/// of a checkpoint; anything at all where nothing came of an operation.
pub proof fn law_scenario_waits_for(run: ScenarioView, ev: Event)
    requires
        0 <= run.pc < run.script.len(),
    ensures
        ({
            let op = run.script[run.pc];
            let asked = match op {
                Op::Check { query, .. } => Some(query),
                Op::Show { query, .. } => Some(query),
                Op::Keep { query, .. } => Some(query),
                Op::ShowFailed { query, .. } => Some(query),
                Op::CheckRolledBack { .. } => Some(Query::Count),
                Op::EndIfFine { query, .. } => if text::begins_with(run.notes.first, "ok"@) {
                    Some(query)
                } else {
                    None
                },
                _ => None,
            };
            let flag = op is KeepAutoCommit || op is PowerCut || (op matches Op::ShowFigure {
                figure,
                ..
            } && figure == Figure::AutoCommit);
            let number = op is KeepCut || (op matches Op::ShowFigure { figure, .. } && figure
                != Figure::AutoCommit);
            run.awaits(ev) <==> {
                &&& asked is Some ==> ev is Answer && scenario::answerable(asked->0, ev->Answer_0)
                &&& flag ==> ev is Flag
                &&& number ==> ev is Number
                &&& op is Truncate ==> ev is Truncated
                &&& op is TryOpen ==> ev is Opened
            }
        }),
        !(ScenarioView { pc: run.script.len() as int, ..run }).awaits(ev),
{
}

} // verus!
