//! What the values that the library works on stand for.

use crate::background;
use crate::checkpoint;
use crate::detio;
use crate::diff;
use crate::driver;
use crate::exec;
use crate::exec::{Cells, Fail};
use crate::log;
use crate::model;
use crate::model::HistoryView;
use crate::outcome;
use crate::reader;
use crate::reopen;
use crate::reopen::ReopenView;
use crate::report;
use crate::report::Violation;
use crate::rows;
use crate::scenario;
use crate::setup;
use crate::setup::SetupRun;
use crate::stats;
use crate::table;
use crate::table::Model;
use crate::text;
use crate::tx;
use crate::tx::TxView;
use crate::workload;
use crate::workload::WorkView;
use vstd::prelude::*;

verus! {

/// A model stands for the table with its keys, and under each key both values of
/// its row.
pub proof fn law_models_as_tables(m: Model, k: i64)
    ensures
        table::table(m).contains_key(k) <==> m@.contains_key(k),
        m@.contains_key(k) ==> table::table(m)[k].0 == m@[k].0,
        m@.contains_key(k) ==> table::table(m)[k].1 == m@[k].1@,
{
}

/// Lists stand for the lists of what their items stand for, in the same order.
pub proof fn law_lists_as_values(
    strings: Seq<String>,
    lines: Seq<Vec<String>>,
    list: Seq<Violation>,
    snaps: Seq<model::Snap>,
    found: Seq<(i64, i64, &str)>,
)
    ensures
        text::texts(strings).len() == strings.len(),
        forall|i: int| 0 <= i < strings.len() ==> #[trigger] text::texts(strings)[i] == strings[i]@,
        exec::cells(lines).len() == lines.len(),
        forall|i: int|
            0 <= i < lines.len() ==> #[trigger] exec::cells(lines)[i] == text::texts(lines[i]@),
        report::violation_views(list).len() == list.len(),
        forall|i: int|
            0 <= i < list.len() ==> #[trigger] report::violation_views(list)[i] == list[i]@,
        model::snap_views(snaps).len() == snaps.len(),
        forall|i: int| 0 <= i < snaps.len() ==> #[trigger] model::snap_views(snaps)[i] == snaps[i]@,
        table::row_views(found).len() == found.len(),
        forall|i: int|
            0 <= i < found.len() ==> {
                let row = #[trigger] table::row_views(found)[i];
                row.0 == found[i].0 && row.1 == found[i].1 && row.2 == found[i].2@
            },
{
}

/// Text that may be missing, and what a read or a statement gave, stand for what
/// is there, or for the failure.
pub proof fn law_results_as_values(
    s: String,
    m: Model,
    e: Fail,
    lines: Vec<Vec<String>>,
    d: (u64, usize),
)
    ensures
        text::maybe_text(Some(s)) == Some(s@),
        text::maybe_text(None) is None,
        reopen::read_view(Ok(m)) == Ok::<table::Table, exec::FailView>(table::table(m)),
        reopen::read_view(Err(e)) == Err::<table::Table, exec::FailView>(e@),
        exec::result_view(Ok(lines)) == Ok::<Cells, exec::FailView>(exec::cells(lines@)),
        exec::result_view(Err(e)) == Err::<Cells, exec::FailView>(e@),
        reader::digest_view(Ok(d)) == Ok::<(u64, usize), exec::FailView>(d),
        reader::digest_view(Err(e)) == Err::<(u64, usize), exec::FailView>(e@),
{
}

/// Counters stand for the number under each name.
pub proof fn law_counters_as_values(s: stats::Stats, i: int, k: Seq<char>)
    requires
        forall|a: int, b: int|
            #![trigger s.entries@[a], s.entries@[b]]
            0 <= a < b < s.entries@.len() ==> s.entries@[a].0@ != s.entries@[b].0@,
        0 <= i < s.entries@.len(),
    ensures
        s@.contains_key(s.entries@[i].0@),
        s@[s.entries@[i].0@] == s.entries@[i].1,
        s@.contains_key(k) ==> exists|j: int|
            0 <= j < s.entries@.len() && (#[trigger] s.entries@[j]).0@ == k,
        s.wf(),
{
    let name = s.entries@[i].0@;
    assert(stats::named(s.entries@, name, i));
    let c = choose|c: int| stats::named(s.entries@, name, c);
    assert(c == i);
    if s@.contains_key(k) {
        let j = choose|j: int| stats::named(s.entries@, k, j);
        assert(s.entries@[j].0@ == k);
    }
}

/// The oracle stands for its path, its floor, its shadow, the synchronisation
/// and the table; one that is in order has its floor on the path and the table
/// at its end.
pub proof fn law_oracle_as_value(h: model::History, v: HistoryView)
    ensures
        h@.snaps == model::snap_views(h.snaps@),
        h@.floor == h.floor,
        h.shadow is None ==> h@.shadow is None,
        h.shadow is Some ==> h@.shadow == Some(h.shadow->0@),
        h@.sync_mode == h.sync_mode,
        h@.table == table::table(*h.model),
        v.wf() <==> v.floor < v.snaps.len() && v.snaps.last().digest == table::table_digest(
            v.table,
        ),
{
}

/// The log stands for what was said, in order.
pub proof fn law_log_as_value(l: log::Log)
    ensures
        l@.len() == l.said@.len(),
        forall|i: int| 0 <= i < l.said@.len() ==> #[trigger] l@[i] == l.said@[i]@,
{
}

/// The I/O layer stands for all its parts.
pub proof fn law_layer_as_value<T>(s: detio::DetIoState<T>)
    ensures
        s@.pending == s.pending@,
        s@.rng == s.rng.0,
        s@.defer_permille == s.defer_permille,
        s@.reorder == s.reorder,
        s@.hold_back_permille == s.hold_back_permille,
        s@.deferred_ops == s.deferred_ops,
        s@.reordered_steps == s.reordered_steps,
        s@.steps == s.steps,
        s@.armed == s.armed@,
        s@.armed_crash == s.armed_crash@,
        s@.armed_short == s.armed_short@,
        s@.injected_failures == s.injected_failures,
{
}

/// A turn that is the one of a step agrees with it in everything: where it
/// leaves off, what it asks for, what it reports and what it says.
pub proof fn law_turns_are_their_steps(
    a: (tx::TxStep, TxView, WorkView, tx::TxTurn),
    b: (reopen::ReopenStep, ReopenView, HistoryView, reopen::ReopenTurn),
    c: (setup::SetupStep, SetupRun, setup::SetupTurn),
    d: (background::BgStep, background::BgRun, background::BgTurn),
    e: (driver::Step, driver::Driver, driver::Turn),
)
    ensures
        tx::is_turn(a.0, a.1, a.2, a.3) <==> {
            &&& a.1 == a.0.tx
            &&& a.2 == a.0.work
            &&& a.3.action@ == a.0.action
            &&& report::violation_views(a.3.violations@) == a.0.violations
            &&& text::maybe_text(a.3.note) == a.0.note
        },
        reopen::is_turn(b.0, b.1, b.2, b.3) <==> {
            &&& b.1 == b.0.run
            &&& b.2 == b.0.hist
            &&& b.3.action == b.0.action
            &&& report::violation_views(b.3.violations@) == b.0.violations
            &&& text::texts(b.3.lines@) == b.0.lines
            &&& b.3.lost_commits == b.0.lost_commits
        },
        setup::is_turn(c.0, c.1, c.2) <==> {
            &&& c.1 == c.0.run
            &&& c.2.action@ == c.0.action
            &&& text::texts(c.2.lines@) == c.0.lines
        },
        background::is_turn(d.0, d.1, d.2) ==> {
            &&& d.1@ == d.0.run
            &&& d.2.action@ == d.0.action
            &&& report::violation_views(d.2.violations@) == d.0.violations
        },
        driver::is_turn(e.0, e.1, e.2) ==> {
            &&& e.1@ == e.0.run
            &&& e.2.action@ == e.0.action
            &&& e.2.log@ == e.0.said
        },
{
}

/// The part of a value that a diff shows is its first six bytes, or all of it
/// where it is no longer; it can be shown where it does not end inside a
/// character.
pub proof fn law_values_are_cut(v: Seq<char>)
    ensures
        ({
            let bytes = vstd::utf8::encode_utf8(v);
            let n = if bytes.len() <= 6 {
                bytes.len() as int
            } else {
                6
            };
            &&& diff::stem_ends_well(v) <==> vstd::utf8::is_char_boundary(bytes, n)
            &&& bytes.len() <= 6 ==> diff::stem(v) == v
            &&& diff::stem_ends_well(v) ==> vstd::utf8::encode_utf8(diff::stem(v))
                == bytes.subrange(0, n)
        }),
{
    broadcast use vstd::utf8::group_utf8_lib;

    let bytes = vstd::utf8::encode_utf8(v);
    if bytes.len() <= 6 {
        assert(bytes.subrange(0, bytes.len() as int) =~= bytes);
    }
}

/// A table can be shown where each of its values can be cut.
pub proof fn law_tables_that_can_be_shown(t: table::Table, ks: Seq<i64>)
    requires
        table::lists_keys(ks, t),
    ensures
        diff::showable(t) <==> forall|k: i64| #[trigger]
            t.contains_key(k) ==> diff::stem_ends_well(t[k].1),
{
    table::lemma_keys_of(ks, t);
    let list = table::rows_of(t);
    if diff::showable(t) {
        assert forall|k: i64| #[trigger] t.contains_key(k) implies diff::stem_ends_well(t[k].1) by {
            assert(ks.to_set().contains(k));
            let i = choose|i: int| 0 <= i < ks.len() && ks[i] == k;
            assert(diff::stem_ends_well(list[i].2));
        }
    }
    if forall|k: i64| #[trigger] t.contains_key(k) ==> diff::stem_ends_well(t[k].1) {
        assert forall|i: int| 0 <= i < list.len() implies diff::stem_ends_well(
            (#[trigger] list[i]).2,
        ) by {
            assert(ks.to_set().contains(ks[i]));
            assert(t.contains_key(ks[i]));
        }
    }
}

/// The statements that read the whole table and that check the database.
pub proof fn law_reading_statements()
    ensures
        rows::READ_ALL@ == "SELECT id, n, v FROM kv ORDER BY id"@,
        rows::CHECK_INTEGRITY@ == "PRAGMA integrity_check"@,
{
}

/// Which rows can be read: each has its key, a second column where the key
/// reads as a number, and a third where both do; rows after the first one that
/// is refused are not looked at.
pub proof fn law_rows_that_can_be_read(cells: Cells)
    ensures
        rows::readable(cells) <==> forall|i: int|
            0 <= i < cells.len() && rows::parsed_rows(cells.take(i)) is Ok ==> {
                let row = #[trigger] cells[i];
                &&& row.len() >= 1
                &&& text::parsed(row[0]) is Some ==> row.len() >= 2
                &&& text::parsed(row[0]) is Some && text::parsed(row[1]) is Some ==> row.len() >= 3
            },
{
    if rows::readable(cells) {
        assert forall|i: int|
            0 <= i < cells.len() && rows::parsed_rows(cells.take(i)) is Ok implies {
            let row = #[trigger] cells[i];
            &&& row.len() >= 1
            &&& text::parsed(row[0]) is Some ==> row.len() >= 2
            &&& text::parsed(row[0]) is Some && text::parsed(row[1]) is Some ==> row.len() >= 3
        } by {
            assert(rows::row_readable(cells[i]));
        }
    }
}

/// An action of the background thread stands for itself, its statement as text.
pub proof fn law_background_actions_as_values(v: &background::BgAction)
    ensures
        v@ == (match v {
            background::BgAction::Connect => background::BgActionView::Connect,
            background::BgAction::Exec(sql) => background::BgActionView::Exec(sql@),
            background::BgAction::ReadDigest => background::BgActionView::ReadDigest,
            background::BgAction::Checkpoint(mode) => background::BgActionView::Checkpoint(*mode),
            background::BgAction::Sleep(ms) => background::BgActionView::Sleep(*ms),
            background::BgAction::Poll => background::BgActionView::Poll,
            background::BgAction::Close => background::BgActionView::Close,
            background::BgAction::Finish => background::BgActionView::Finish,
        }),
{
}

/// The background thread's work stands for all its parts.
pub proof fn law_background_work_as_value(v: &background::BgRun)
    ensures
        v@ == (background::BgView { phase: v.phase, rng: v.rng.0, rounds: v.rounds, stats: v.stats@ }),
{
}

/// What a checkpoint has shown stands for all its parts.
pub proof fn law_settled_checkpoint_as_value(v: &checkpoint::Settled)
    ensures
        v@ == (checkpoint::SettledView {
            violations: report::violation_views(v.violations@),
            note: text::maybe_text(v.note),
            moved_frames: v.moved_frames,
            left_frames: v.left_frames,
            busy: v.busy,
        }),
{
}

/// What a run waits for stands for itself.
pub proof fn law_phases_of_a_run_as_values(v: &driver::Phase)
    ensures
        v@ == (match v {
            driver::Phase::Start => driver::PhaseView::Start,
            driver::Phase::Spawn => driver::PhaseView::Spawn,
            driver::Phase::WindowRead { window, end } => driver::PhaseView::WindowRead {
                window: *window,
                end: *end,
            },
            driver::Phase::WindowEnd { end } => driver::PhaseView::WindowEnd { end: *end },
            driver::Phase::WindowOpen => driver::PhaseView::WindowOpen,
            driver::Phase::CutBetween => driver::PhaseView::CutBetween,
            driver::Phase::Resolve { left } => driver::PhaseView::Resolve { left: *left },
            driver::Phase::ResolvePause { left } => driver::PhaseView::ResolvePause { left: *left },
            driver::Phase::ResolveDiff => driver::PhaseView::ResolveDiff,
            driver::Phase::Tx => driver::PhaseView::Tx,
            driver::Phase::TxProbe { outcome } => driver::PhaseView::TxProbe { outcome: outcome@ },
            driver::Phase::LiveRead { pre_rows } => driver::PhaseView::LiveRead { pre_rows: *pre_rows },
            driver::Phase::BusyPause => driver::PhaseView::BusyPause,
            driver::Phase::Periodic => driver::PhaseView::Periodic,
            driver::Phase::PeriodicDiff => driver::PhaseView::PeriodicDiff,
            driver::Phase::Checkpoint { mode } => driver::PhaseView::Checkpoint { mode: *mode },
            driver::Phase::CheckpointProbe => driver::PhaseView::CheckpointProbe,
            driver::Phase::Integrity => driver::PhaseView::Integrity,
            driver::Phase::Join => driver::PhaseView::Join,
            driver::Phase::EndProbe => driver::PhaseView::EndProbe,
            driver::Phase::CutQuiet => driver::PhaseView::CutQuiet,
            driver::Phase::Dropped => driver::PhaseView::Dropped,
            driver::Phase::Open => driver::PhaseView::Open,
            driver::Phase::Reopen => driver::PhaseView::Reopen,
            driver::Phase::Arm => driver::PhaseView::Arm,
            driver::Phase::Over => driver::PhaseView::Over,
        }),
{
}

/// What came of an action of a run stands for itself.
pub proof fn law_events_of_a_run_as_values(v: &driver::Event)
    ensures
        v@ == (match v {
            driver::Event::Start => driver::EventView::Start,
            driver::Event::Done => driver::EventView::Done,
            driver::Event::Went(b) => driver::EventView::Went(*b),
            driver::Event::Window(w) => driver::EventView::Window(*w),
            driver::Event::Digest(r) => driver::EventView::Digest(reader::digest_view(*r)),
            driver::Event::Read(r) => driver::EventView::Read(reopen::read_view(*r)),
            driver::Event::Tx(outcome, crashed) => driver::EventView::Tx(outcome@, *crashed),
            driver::Event::Checkpointed(ev) => driver::EventView::Checkpointed(*ev),
            driver::Event::Sql(r) => driver::EventView::Sql(exec::result_view(*r)),
            driver::Event::Joined(Some(s)) => driver::EventView::Joined(Some(s@)),
            driver::Event::Joined(None) => driver::EventView::Joined(None),
            driver::Event::Lengths(db, wal) => driver::EventView::Lengths(*db, *wal),
        }),
{
}

/// An action of a run stands for itself.
pub proof fn law_actions_of_a_run_as_values(v: &driver::Action)
    ensures
        v@ == (match v {
            driver::Action::SpawnBg(seed) => driver::ActionView::SpawnBg(*seed),
            driver::Action::ReadReader => driver::ActionView::ReadReader,
            driver::Action::ExecReader(sql) => driver::ActionView::ExecReader(sql@),
            driver::Action::OpenWindow => driver::ActionView::OpenWindow,
            driver::Action::PowerCut => driver::ActionView::PowerCut,
            driver::Action::ReadModel => driver::ActionView::ReadModel,
            driver::Action::Wait(ms) => driver::ActionView::Wait(*ms),
            driver::Action::FileLengths => driver::ActionView::FileLengths,
            driver::Action::RunTx(mid) => driver::ActionView::RunTx(*mid),
            driver::Action::Probe => driver::ActionView::Probe,
            driver::Action::Checkpoint(mode) => driver::ActionView::Checkpoint(*mode),
            driver::Action::CheckIntegrity => driver::ActionView::CheckIntegrity,
            driver::Action::JoinBg => driver::ActionView::JoinBg,
            driver::Action::CloseDb => driver::ActionView::CloseDb,
            driver::Action::DropDb(crashed) => driver::ActionView::DropDb(*crashed),
            driver::Action::Open => driver::ActionView::Open,
            driver::Action::CheckReopened(crashed) => driver::ActionView::CheckReopened(*crashed),
            driver::Action::Arm => driver::ActionView::Arm,
            driver::Action::Finish => driver::ActionView::Finish,
        }),
{
}

/// A run stands for all its parts.
pub proof fn law_run_as_value(v: &driver::Driver)
    ensures
        v@ == (driver::DriverView {
            phase: v.phase@,
            cfg: v.cfg,
            hist: v.hist@,
            work: v.wl@,
            epoch: v.epoch,
            t: v.t,
            crashed: v.crashed,
            cut_missed: v.cut_missed,
            window: v.window,
            saw_commit: v.saw_commit,
            bg: v.bg,
            crash_at: v.crash_at,
            epochs_done: v.epochs_done,
            crashes: v.crashes,
            failures: v.failures,
        }),
{
}

/// A failure stands for itself, with its message as text.
pub proof fn law_failures_as_values(v: &exec::Fail)
    ensures
        v@ == (match v {
            exec::Fail::Busy => exec::FailView::Busy,
            exec::Fail::Constraint(s) => exec::FailView::Constraint(s@),
            exec::Fail::Error(s) => exec::FailView::Error(s@),
            exec::Fail::Stuck => exec::FailView::Stuck,
            exec::Fail::Panic(s) => exec::FailView::Panic(s@),
        }),
{
}

/// An action of a statement stands for itself.
pub proof fn law_statement_actions_as_values(v: &exec::ExecAction)
    ensures
        v@ == (match v {
            exec::ExecAction::Step => exec::ExecActionView::Step,
            exec::ExecAction::PollIo => exec::ExecActionView::PollIo,
            exec::ExecAction::Finish(r) => exec::ExecActionView::Finish(exec::result_view(*r)),
        }),
{
}

/// What is said stands for itself.
pub proof fn law_sayings_as_values(v: &log::Saying)
    ensures
        v@ == (match v {
            log::Saying::Line(s) => log::SayingView::Line(s@),
            log::Saying::Broken(v) => log::SayingView::Broken(v@),
            log::Saying::Reached(c, yes) => log::SayingView::Reached(*c, *yes),
        }),
{
}

/// A state on the path stands for all its parts.
pub proof fn law_states_on_the_path_as_values(v: &model::Snap)
    ensures
        v@ == (model::SnapView {
            digest: v.digest,
            certain: v.certain,
            what: v.what@,
            rows: v.rows as nat,
        }),
{
}

/// A verdict stands for itself.
pub proof fn law_verdicts_as_values(v: &outcome::Verdict)
    ensures
        v@ == (match v {
            outcome::Verdict::Failed { line, code } => outcome::VerdictView::Failed { line: line@, code: *code },
            outcome::Verdict::Passed { label, detail, line } => outcome::VerdictView::Passed {
                label: label@,
                detail: detail@,
                line: line@,
            },
        }),
{
}

/// An action of the reading connection stands for itself.
pub proof fn law_reader_actions_as_values(v: &reader::ReaderAction)
    ensures
        v@ == (match v {
            reader::ReaderAction::Exec(sql) => reader::ReaderActionView::Exec(sql@),
            reader::ReaderAction::ReadDigest => reader::ReaderActionView::ReadDigest,
            reader::ReaderAction::Finish(w) => reader::ReaderActionView::Finish(*w),
        }),
{
}

/// What a second look has shown stands for all its parts.
pub proof fn law_window_checks_as_values(v: &reader::WindowCheck)
    ensures
        v@ == (reader::WindowCheckView {
            violations: report::violation_views(v.violations@),
            note: text::maybe_text(v.note),
            held_across_commit: v.held_across_commit,
            end: v.end@,
        }),
{
}

/// What the check of a reopened database waits for stands for itself.
pub proof fn law_phases_of_a_reopen_as_values(v: &reopen::ReopenPhase)
    ensures
        v@ == (match v {
            reopen::ReopenPhase::Start => reopen::ReopenPhaseView::Start,
            reopen::ReopenPhase::Reading { left } => reopen::ReopenPhaseView::Reading { left: *left },
            reopen::ReopenPhase::ReadPause { left } => reopen::ReopenPhaseView::ReadPause { left: *left },
            reopen::ReopenPhase::Unreadable => reopen::ReopenPhaseView::Unreadable,
            reopen::ReopenPhase::Differing { observed } => reopen::ReopenPhaseView::Differing {
                observed: table::table(*observed),
            },
            reopen::ReopenPhase::Checking { observed, left } => reopen::ReopenPhaseView::Checking {
                observed: table::table(*observed),
                left: *left,
            },
            reopen::ReopenPhase::CheckPause { observed, left } => reopen::ReopenPhaseView::CheckPause {
                observed: table::table(*observed),
                left: *left,
            },
            reopen::ReopenPhase::Over => reopen::ReopenPhaseView::Over,
        }),
{
}

/// What came of an action of that check stands for itself.
pub proof fn law_events_of_a_reopen_as_values(v: &reopen::ReopenEvent)
    ensures
        v@ == (match v {
            reopen::ReopenEvent::Start => reopen::ReopenEventView::Start,
            reopen::ReopenEvent::Read(r) => reopen::ReopenEventView::Read(reopen::read_view(*r)),
            reopen::ReopenEvent::Checked(r) => reopen::ReopenEventView::Checked(exec::result_view(*r)),
            reopen::ReopenEvent::Waited => reopen::ReopenEventView::Waited,
            reopen::ReopenEvent::Lengths(db, wal) => reopen::ReopenEventView::Lengths(*db, *wal),
        }),
{
}

/// The check of a reopened database stands for all its parts.
pub proof fn law_reopen_as_value(v: &reopen::ReopenRun)
    ensures
        v@ == (reopen::ReopenView {
            phase: v.phase@,
            crashed: v.crashed,
            dirsynced: v.dirsynced,
            last_err: v.last_err@,
        }),
{
}

/// A broken expectation stands for its label and its detail.
pub proof fn law_broken_expectations_as_values(v: &report::Violation)
    ensures
        v@ == (report::ViolationView { label: v.label@, detail: v.detail@ }),
{
}

/// An action of a scenario stands for itself.
pub proof fn law_actions_of_a_scenario_as_values(v: &scenario::Action)
    ensures
        v@ == (match v {
            scenario::Action::Pass => scenario::ActionView::Pass,
            scenario::Action::MakeDir(dir) => scenario::ActionView::MakeDir(dir@),
            scenario::Action::SyncDir(dir) => scenario::ActionView::SyncDir(dir@),
            scenario::Action::Open { dir, configured } => scenario::ActionView::Open {
                dir: dir@,
                configured: *configured,
            },
            scenario::Action::TryOpen { dir, configured, synced } => scenario::ActionView::TryOpen {
                dir: dir@,
                configured: *configured,
                synced: *synced,
            },
            scenario::Action::Drop(crashed) => scenario::ActionView::Drop(*crashed),
            scenario::Action::Must(sql) => scenario::ActionView::Must(sql@),
            scenario::Action::Ask(sql) => scenario::ActionView::Ask(sql@),
            scenario::Action::AutoCommit => scenario::ActionView::AutoCommit,
            scenario::Action::Injected => scenario::ActionView::Injected,
            scenario::Action::Pending => scenario::ActionView::Pending,
            scenario::Action::ArmedCuts => scenario::ActionView::ArmedCuts,
            scenario::Action::ArmFail(kind, k) => scenario::ActionView::ArmFail(*kind, *k),
            scenario::Action::ArmCrash(kind, k) => scenario::ActionView::ArmCrash(*kind, *k),
            scenario::Action::ArmShort(k, bytes) => scenario::ActionView::ArmShort(*k, *bytes),
            scenario::Action::Disarm => scenario::ActionView::Disarm,
            scenario::Action::Defer(permille) => scenario::ActionView::Defer(*permille),
            scenario::Action::Drain => scenario::ActionView::Drain,
            scenario::Action::MustTruncate => scenario::ActionView::MustTruncate,
            scenario::Action::Truncate => scenario::ActionView::Truncate,
            scenario::Action::PowerCut => scenario::ActionView::PowerCut,
            scenario::Action::Finish => scenario::ActionView::Finish,
        }),
{
}

/// What a scenario remembers stands for all its parts.
pub proof fn law_notes_as_value(v: &scenario::Notes)
    ensures
        v@ == (scenario::NotesView {
            first: v.first@,
            second: v.second@,
            third: v.third@,
            last: v.last@,
            checkpoint: v.checkpoint@,
            cut: v.cut,
            auto_commit: v.auto_commit,
            open_error: text::maybe_text(v.open_error),
        }),
{
}

/// A scenario stands for all its parts.
pub proof fn law_scenario_as_value(v: &scenario::Scenario)
    ensures
        v@ == (scenario::ScenarioView {
            name: v.name@,
            script: v.script@,
            pc: v.pc as int,
            place: v.place,
            notes: v.notes@,
        }),
{
}

/// What came of an action of setup stands for itself.
pub proof fn law_events_of_setup_as_values(v: &setup::SetupEvent)
    ensures
        v@ == (match v {
            setup::SetupEvent::Start => setup::SetupEventView::Start,
            setup::SetupEvent::Went(b) => setup::SetupEventView::Went(*b),
            setup::SetupEvent::Sql(r) => setup::SetupEventView::Sql(exec::result_view(*r)),
            setup::SetupEvent::Truncated(Some(e)) => setup::SetupEventView::Truncated(Some(e@)),
            setup::SetupEvent::Truncated(None) => setup::SetupEventView::Truncated(None),
        }),
{
}

/// An action of setup stands for itself.
pub proof fn law_actions_of_setup_as_values(v: &setup::SetupAction)
    ensures
        v@ == (match v {
            setup::SetupAction::MakeDir => setup::SetupActionView::MakeDir,
            setup::SetupAction::Arm => setup::SetupActionView::Arm,
            setup::SetupAction::Open => setup::SetupActionView::Open,
            setup::SetupAction::Probe => setup::SetupActionView::Probe,
            setup::SetupAction::DropCrashed => setup::SetupActionView::DropCrashed,
            setup::SetupAction::Exec(sql) => setup::SetupActionView::Exec(sql@),
            setup::SetupAction::Truncate => setup::SetupActionView::Truncate,
            setup::SetupAction::SyncDir => setup::SetupActionView::SyncDir,
            setup::SetupAction::Wait(ms) => setup::SetupActionView::Wait(*ms),
            setup::SetupAction::Exit(code) => setup::SetupActionView::Exit(*code),
            setup::SetupAction::Ready => setup::SetupActionView::Ready,
        }),
{
}

/// The outcome of a transaction stands for itself, with its table.
pub proof fn law_outcomes_as_values(v: &tx::TxOutcome)
    ensures
        v@ == (match v {
            tx::TxOutcome::Committed(m) => tx::OutcomeView::Committed(table::table(*m)),
            tx::TxOutcome::RolledBack => tx::OutcomeView::RolledBack,
            tx::TxOutcome::Uncertain(m) => tx::OutcomeView::Uncertain(table::table(*m)),
            tx::TxOutcome::Aborted(why) => tx::OutcomeView::Aborted(why@),
            tx::TxOutcome::Busy => tx::OutcomeView::Busy,
        }),
{
}

/// What a transaction waits for stands for itself.
pub proof fn law_phases_of_a_transaction_as_values(v: &tx::TxPhase)
    ensures
        v@ == (match v {
            tx::TxPhase::Start => tx::PhaseView::Start,
            tx::TxPhase::Autocommit { sql, next, expect } => tx::PhaseView::Autocommit {
                sql: sql@,
                next: table::table(*next),
                expect: *expect,
            },
            tx::TxPhase::Begin => tx::PhaseView::Begin,
            tx::TxPhase::Cut => tx::PhaseView::Cut,
            tx::TxPhase::Savepoint { name } => tx::PhaseView::Savepoint { name: name@ },
            tx::TxPhase::RollbackTo { name, saved } => tx::PhaseView::RollbackTo {
                name: name@,
                saved: table::table(*saved),
            },
            tx::TxPhase::ReleaseRolledBack => tx::PhaseView::ReleaseRolledBack,
            tx::TxPhase::Release => tx::PhaseView::Release,
            tx::TxPhase::Statement { sql, next, expect } => tx::PhaseView::Statement {
                sql: sql@,
                next: table::table(*next),
                expect: *expect,
            },
            tx::TxPhase::ReadBack => tx::PhaseView::ReadBack,
            tx::TxPhase::Rollback => tx::PhaseView::Rollback,
            tx::TxPhase::Commit => tx::PhaseView::Commit,
            tx::TxPhase::Abandon { outcome, crashed } => tx::PhaseView::Abandon {
                outcome: outcome@,
                crashed: *crashed,
            },
            tx::TxPhase::Over => tx::PhaseView::Over,
        }),
{
}

/// What came of an action of a transaction stands for itself.
pub proof fn law_events_of_a_transaction_as_values(v: &tx::TxEvent)
    ensures
        v@ == (match v {
            tx::TxEvent::Start => tx::EventView::Start,
            tx::TxEvent::Sql(r) => tx::EventView::Sql(exec::result_view(*r)),
            tx::TxEvent::Digest(Ok(d)) => tx::EventView::Digest(Ok(*d)),
            tx::TxEvent::Digest(Err(e)) => tx::EventView::Digest(Err(e@)),
            tx::TxEvent::PowerCut => tx::EventView::PowerCut,
        }),
{
}

/// An action of a transaction stands for itself.
pub proof fn law_actions_of_a_transaction_as_values(v: &tx::TxAction)
    ensures
        v@ == (match v {
            tx::TxAction::Exec(sql) => tx::TxActionView::Exec(sql@),
            tx::TxAction::ReadDigest => tx::TxActionView::ReadDigest,
            tx::TxAction::PowerCut => tx::TxActionView::PowerCut,
            tx::TxAction::Finish(outcome, crashed) => tx::TxActionView::Finish(outcome@, *crashed),
        }),
{
}

/// A transaction attempt stands for all its parts.
pub proof fn law_transaction_as_value(v: &tx::TxRun)
    ensures
        v@ == (tx::TxView {
            phase: v.phase@,
            base: table::table(v.base),
            cur: table::table(v.cur),
            savepoints: tx::savepoint_views(v.savepoints@),
            index: v.index,
            nstmts: v.nstmts,
            crash_after: v.crash_after,
            crash_mid_tx: v.crash_mid_tx,
            big_value_permille: v.big_value_permille,
        }),
{
}

/// A planned statement stands for itself, with its value as text.
pub proof fn law_plans_as_values(v: &workload::Plan)
    ensures
        v@ == (match v {
            workload::Plan::Insert { n, v } => workload::PlanView::Insert { n: *n, v: v@ },
            workload::Plan::Duplicate { id, n, v } => workload::PlanView::Duplicate { id: *id, n: *n, v: v@ },
            workload::Plan::Update { id, n, v } => workload::PlanView::Update { id: *id, n: *n, v: v@ },
            workload::Plan::UpdateRange { first, span, by } => workload::PlanView::UpdateRange {
                first: *first,
                span: *span,
                by: *by,
            },
            workload::Plan::Delete { id } => workload::PlanView::Delete { id: *id },
            workload::Plan::DeleteRange { first, span } => workload::PlanView::DeleteRange {
                first: *first,
                span: *span,
            },
            workload::Plan::Count => workload::PlanView::Count,
        }),
{
}

/// A run of statements stands for its generator, its last key and its counters.
pub proof fn law_workload_as_value(v: &workload::Workload)
    ensures
        v@ == (workload::WorkView { rng: v.rng.0, next_id: v.next_id, stats: v.stats@ }),
{
}

/// What the check of a reopened database waits for, by what came.
pub proof fn law_reopen_waits_for(run: ReopenView, ev: reopen::ReopenEventView)
    ensures
        ({
            let p = run.phase;
            run.awaits(ev) <==> {
                ||| ev is Start && p is Start
                ||| ev is Read && p is Reading
                ||| ev is Checked && p is Checking
                ||| ev is Waited && (p is ReadPause || p is CheckPause)
                ||| ev is Lengths && (p is Unreadable || p is Differing)
            }
        }),
{
}

/// What a run waits for, by what came.
pub proof fn law_run_waits_for(run: driver::DriverView, ev: driver::EventView)
    ensures
        ({
            let p = run.phase;
            run.awaits(ev) <==> {
                ||| ev is Start && p is Start
                ||| ev is Done && (p is Spawn || p is WindowEnd || p is ResolvePause
                    || p is BusyPause || p is Dropped || p is Arm)
                ||| ev is Went && (p is CutBetween || p is TxProbe || p is CheckpointProbe
                    || p is EndProbe || p is CutQuiet || p is Open || p is Reopen)
                ||| ev is Window && p is WindowOpen
                ||| ev is Digest && p is WindowRead
                ||| ev is Read && (p is Resolve || p is LiveRead || p is Periodic)
                ||| ev is Tx && p is Tx
                ||| ev is Checkpointed && p is Checkpoint
                ||| ev is Sql && p is Integrity
                ||| ev is Joined && p is Join
                ||| ev is Lengths && (p is ResolveDiff || p is PeriodicDiff)
            }
        }),
{
}

/// What setup waits for, by what came.
pub proof fn law_setup_waits_for(run: SetupRun, ev: setup::SetupEventView)
    ensures
        ({
            let p = run.phase;
            run.awaits(ev) <==> {
                ||| ev is Start && p is Start
                ||| ev is Sql && (p is Full || p is Create || p is Index || p is Normal)
                ||| ev is Truncated && p is Truncate
                ||| ev is Went && (p is Mkdir || p is MkdirPause || p is FirstArm || p is FirstOpen
                    || p is Probe || p is Drop || p is Reopen || p is Rearm || p is DirSync
                    || p is DirPause || p is Recheck || p is Pause || p is LastArm)
            }
        }),
{
}

/// What the background thread and the reading connection wait for, by what came.
pub proof fn law_connections_wait_for(
    run: background::BgView,
    ev: background::BgEvent,
    p: reader::ReaderPhase,
    seen: reader::ReaderEvent,
)
    ensures
        run.awaits(ev) <==> {
            ||| ev is Connected && run.phase is Connect
            ||| ev is Stop && run.phase is Poll
            ||| ev is Sql && (run.phase is Setup || run.phase is Begin || run.phase is Commit
                || run.phase is Count)
            ||| ev is Digest && (run.phase is First || run.phase is Second)
            ||| ev is Checkpointed && run.phase is Checkpoint
            ||| ev is Slept && (run.phase is Between || run.phase is Pause)
            ||| ev is Closed && run.phase is Close
        },
        p.awaits(seen) <==> {
            ||| seen is Start && p is Start
            ||| seen is Sql && (p is Begin || p is Rollback)
            ||| seen is Digest && p is Read
        },
{
}

} // verus!
