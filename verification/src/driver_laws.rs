//! What holds of every run, whatever is drawn in it and whatever the engine
//! answers.

use crate::checkpoint;
use crate::checkpoint::CheckpointEvent;
use crate::driver::{DriverView, EventView, PhaseView, Said, Step};
use crate::driver;
use crate::exec::FailView;
use crate::log;
use crate::log::{Cover, SayingView};
use crate::model::{HistoryView, SyncMode};
use crate::prng;
use crate::reader;
use crate::report;
use crate::report::ViolationView;
use crate::rows;
use crate::stats;
use crate::table;
use crate::table::Table;
use crate::text;
use crate::tx::OutcomeView;
use crate::workload::WorkView;
use vstd::prelude::*;

verus! {

/// How many epochs are left to go through.
pub open spec fn epochs_left(run: DriverView) -> int {
    match run.phase {
        PhaseView::Over => 0,
        PhaseView::Start => if run.epoch < run.cfg.epochs {
            run.cfg.epochs - run.epoch + 1
        } else {
            1
        },
        _ => run.cfg.epochs - run.epoch,
    }
}

/// How many transactions of the epoch are left to go through.
pub open spec fn txs_left(run: DriverView) -> int {
    if run.phase is Spawn {
        run.cfg.txs_per_epoch + 1
    } else if run.in_tx_loop() {
        run.cfg.txs_per_epoch - run.t
    } else {
        0
    }
}

/// How far a phase is from the end of its transaction or of its epoch.
pub open spec fn rank(phase: PhaseView) -> int {
    match phase {
        PhaseView::Start => 0,
        PhaseView::Spawn => 0,
        PhaseView::WindowRead { end, .. } => if end {
            10
        } else {
            60
        },
        PhaseView::WindowEnd { end } => if end {
            9
        } else {
            59
        },
        PhaseView::WindowOpen => 58,
        PhaseView::CutBetween => 57,
        PhaseView::Resolve { left } => 30 + 2 * left,
        PhaseView::ResolvePause { left } => 31 + 2 * left,
        PhaseView::ResolveDiff => 25,
        PhaseView::Tx => 24,
        PhaseView::TxProbe { .. } => 23,
        PhaseView::LiveRead { .. } => 22,
        PhaseView::BusyPause => 22,
        PhaseView::Periodic => 21,
        PhaseView::PeriodicDiff => 20,
        PhaseView::Checkpoint { .. } => 19,
        PhaseView::CheckpointProbe => 18,
        PhaseView::Integrity => 17,
        PhaseView::Join => 12,
        PhaseView::EndProbe => 11,
        PhaseView::CutQuiet => 8,
        PhaseView::Dropped => 7,
        PhaseView::Open => 6,
        PhaseView::Reopen => 5,
        PhaseView::Arm => 4,
        PhaseView::Over => 0,
    }
}

/// Whether one state of a run is closer to its end than another.
pub open spec fn closer(a: DriverView, b: DriverView) -> bool {
    ||| epochs_left(a) < epochs_left(b)
    ||| epochs_left(a) == epochs_left(b) && txs_left(a) < txs_left(b)
    ||| epochs_left(a) == epochs_left(b) && txs_left(a) == txs_left(b) && rank(a.phase) < rank(
        b.phase,
    )
}

/// What a step keeps that only goes on with the run.
spec fn keeps(step: Step, run: DriverView, said: Said) -> bool {
    &&& step.run.epoch == run.epoch
    &&& step.run.cfg == run.cfg
    &&& step.run.hist == run.hist
    &&& step.run.crashed == run.crashed
    &&& log::broken_count(step.said) == log::broken_count(said)
}

/// Whether a step is at the end of the epoch, at most so far from the end.
spec fn ends(step: Step, run: DriverView, said: Said, most: int) -> bool {
    &&& keeps(step, run, said)
    &&& !step.run.in_tx_loop()
    &&& !(step.run.phase is Start) && !(step.run.phase is Spawn) && !(step.run.phase is Over)
    &&& rank(step.run.phase) <= most
    &&& step.run.cut_missed == run.cut_missed
    &&& run.cut_missed ==> drops(step)
}

/// Whether a step that drops the handles does so without closing them first.
pub open spec fn drops(step: Step) -> bool {
    &&& !(step.run.phase is CutQuiet)
    &&& step.run.phase is Dropped ==> step.action == driver::ActionView::DropDb(step.run.crashed)
}

/// Whether a step is in the same transaction, at most so far from its end, or
/// in a later one, or at the end of the epoch.
spec fn goes_on(step: Step, run: DriverView, said: Said, most: int) -> bool {
    &&& keeps(step, run, said)
    &&& !(step.run.phase is Start) && !(step.run.phase is Spawn) && !(step.run.phase is Over)
    &&& step.run.in_tx_loop() ==> run.t <= step.run.t < run.cfg.txs_per_epoch && (step.run.t
        == run.t ==> rank(step.run.phase) <= most)
}

proof fn lemma_line_is_not_broken(said: Said, line: Seq<char>)
    ensures
        log::broken_count(said.push(SayingView::Line(line))) == log::broken_count(said),
{
    assert(said.push(SayingView::Line(line)).drop_last() =~= said);
}

proof fn lemma_end(run: DriverView, said: Said)
    ensures
        ends(run.restart(said), run, said, 8),
        ends(run.end_window(said), run, said, 10),
        ends(run.end_probe(said), run, said, 11),
        ends(run.end_epoch(said), run, said, 12),
{
    reveal(DriverView::restart);
    reveal(DriverView::end_window);
    reveal(DriverView::end_probe);
    reveal(DriverView::end_epoch);
}

proof fn lemma_start(run: DriverView, said: Said)
    requires
        run.t < run.cfg.txs_per_epoch,
    ensures
        goes_on(run.start_tx(said), run, said, 24),
        goes_on(run.settle_shadow(said), run, said, 54),
        goes_on(run.crash_check(said), run, said, 57),
        goes_on(run.window_chance(said), run, said, 58),
{
    reveal(DriverView::start_tx);
    reveal(DriverView::settle_shadow);
    reveal(DriverView::crash_check);
    reveal(DriverView::window_chance);
    let line = driver::tx_line(run.epoch, run.t) + " tx start (rows="@ + text::decimal(
        run.hist.table.len() as int,
    ) + ")"@;
    lemma_line_is_not_broken(said, line);
}

proof fn lemma_head(run: DriverView, said: Said)
    ensures
        goes_on(run.tx_head(said), run, said, 60),
{
    reveal(DriverView::tx_head);
    if run.t >= run.cfg.txs_per_epoch {
        lemma_end(run, said);
    } else {
        lemma_start(run, said);
    }
}

proof fn lemma_next(run: DriverView, said: Said)
    requires
        run.t < run.cfg.txs_per_epoch,
    ensures
        goes_on(run.next_tx(said), run, said, 0),
        goes_on(run.integrity_chance(said), run, said, 17),
        goes_on(run.checkpoint_chance(said), run, said, 19),
{
    reveal(DriverView::next_tx);
    reveal(DriverView::integrity_chance);
    reveal(DriverView::checkpoint_chance);
    let on = run.drawn();
    let twice = on.drawn();
    lemma_head(DriverView { t: (run.t + 1) as u64, ..run }, said);
    lemma_head(DriverView { t: (on.t + 1) as u64, ..on }, said);
    lemma_head(DriverView { t: (twice.t + 1) as u64, ..twice }, said);
    let mode = checkpoint::mode_drawn(on.work.rng);
    lemma_line_is_not_broken(said, "note: checkpoint "@ + mode.name() + " start"@);
}

proof fn lemma_progress(run: DriverView, said: Said)
    requires
        run.t < run.cfg.txs_per_epoch,
    ensures
        goes_on(run.progress(said), run, said, 21),
{
    reveal(DriverView::progress);
    lemma_end(DriverView { failures: 0, ..run.bumped("forced-reopen"@) }, said);
    lemma_next(run.drawn(), said);
}

proof fn lemma_plan(run: DriverView, said: Said)
    ensures
        goes_on(run.plan_crash(said), DriverView { t: 0, ..run }, said, 60),
{
    reveal(DriverView::plan_crash);
    let on = run.drawn();
    lemma_head(
        DriverView {
            crash_at: Some(prng::prng_pick(on.work.rng, 0, run.cfg.txs_per_epoch)),
            t: 0,
            ..on.drawn()
        },
        said,
    );
    lemma_head(DriverView { crash_at: None, t: 0, ..on }, said);
}

/// Where an epoch begins, it is one of the epochs there are, and no power cut
/// is remembered; where none is left, the run is over.
proof fn lemma_begin(run: DriverView, said: Said)
    ensures
        log::broken_count(run.begin_epoch(said).said) == log::broken_count(said),
        run.begin_epoch(said).run.hist == run.hist,
        run.begin_epoch(said).run.cfg == run.cfg,
        run.begin_epoch(said).run.epoch == run.epoch,
        run.epoch >= run.cfg.epochs ==> run.begin_epoch(said).run.phase is Over,
        run.epoch < run.cfg.epochs ==> !(run.begin_epoch(said).run.phase is Over) && !(
        run.begin_epoch(said).run.phase is Start) && !run.begin_epoch(said).run.crashed,
{
    reveal(DriverView::begin_epoch);
    let fresh = DriverView {
        crashed: false,
        cut_missed: false,
        window: None,
        saw_commit: false,
        ..run
    };
    lemma_plan(DriverView { bg: false, ..fresh.drawn() }, said);
}

/// Whether an answer is one that an engine which keeps its promises may give.
pub open spec fn may_answer(run: DriverView, ev: EventView) -> bool {
    match run.phase {
        PhaseView::WindowRead { window, .. } => ev->Digest_0 matches Ok((digest, _))
            ==> digest == window.digest,
        PhaseView::Resolve { .. } => ev->Read_0 matches Ok(live) ==> run.hist.live(live),
        PhaseView::LiveRead { .. } => ev->Read_0 matches Ok(live) ==> run.hist.live(live),
        PhaseView::Periodic => ev->Read_0 matches Ok(live) ==> run.hist.live(live),
        PhaseView::TxProbe { outcome } => outcome matches OutcomeView::Aborted(why) ==> !text::holds(
            why,
            "Stuck"@,
        ) && !text::holds(why, "Panic"@),
        PhaseView::Checkpoint { .. } => !(ev->Checkpointed_0 is Panicked),
        PhaseView::Integrity => ev->Sql_0 matches Ok(shown) ==> rows::integrity_verdict(
            shown,
            "integrity-check-failed"@,
        ) is None,
        PhaseView::Join => ev->Joined_0 is Some,
        _ => true,
    }
}

proof fn lemma_quiet_words()
    ensures
        log::broken_count(Seq::<SayingView>::empty()) == 0,
        forall|s: SayingView| !(s is Broken) ==> #[trigger] log::broken_count(seq![s]) == 0,
{
    reveal_with_fuel(log::broken_count, 2);
    assert forall|s: SayingView| !(s is Broken) implies #[trigger] log::broken_count(seq![s])
        == 0 by {
        assert(seq![s].drop_last() =~= Seq::<SayingView>::empty());
        assert(seq![s].last() == s);
    }
}

proof fn lemma_count_adds(a: Said, b: Said)
    ensures
        log::broken_count(a + b) == log::broken_count(a) + log::broken_count(b),
    decreases b.len(),
{
    if b.len() == 0 {
        assert(a + b =~= a);
    } else {
        lemma_count_adds(a, b.drop_last());
        assert((a + b).drop_last() =~= a + b.drop_last());
    }
}

/// What a transaction's outcome makes of a run.
spec fn after_outcome(step: Step, run: DriverView, hist: HistoryView) -> bool {
    &&& step.run.epoch == run.epoch
    &&& step.run.cfg == run.cfg
    &&& step.run.hist == hist
    &&& step.run.crashed == run.crashed
    &&& !(step.run.phase is Start) && !(step.run.phase is Spawn)
    &&& step.run.in_tx_loop() ==> run.t <= step.run.t < run.cfg.txs_per_epoch && (step.run.t
        == run.t ==> rank(step.run.phase) <= 22)
}

proof fn lemma_outcome(run: DriverView, outcome: OutcomeView)
    requires
        run.t < run.cfg.txs_per_epoch,
    ensures
        after_outcome(
            run.on_outcome(outcome),
            run,
            match outcome {
                OutcomeView::Committed(t) => run.hist.committed(
                    t,
                    true,
                    driver::tx_name(run.epoch, run.t),
                ),
                OutcomeView::Uncertain(t) => run.hist.committed_uncertain(
                    t,
                    driver::tx_name(run.epoch, run.t) + "?"@,
                ),
                _ => run.hist,
            },
        ),
        may_answer(run.at(PhaseView::TxProbe { outcome }), EventView::Went(false))
            ==> log::broken_count(run.on_outcome(outcome).said) == 0,
{
    reveal(DriverView::on_outcome);
    lemma_quiet_words();
    match outcome {
        OutcomeView::Committed(t) => {
            let on = DriverView {
                failures: 0,
                hist: run.hist.committed(t, true, driver::tx_name(run.epoch, run.t)),
                saw_commit: true,
                ..run.bumped("tx-committed"@)
            };
            let line = SayingView::Line(
                driver::tx_line(run.epoch, run.t) + " committed rows="@ + text::decimal(
                    t.len() as int,
                ),
            );
            lemma_progress(on, seq![line]);
        },
        OutcomeView::RolledBack => {
            lemma_progress(
                DriverView { failures: 0, ..run.bumped("tx-rolled-back"@) },
                Seq::empty(),
            );
        },
        OutcomeView::Aborted(why) => {
            reveal(DriverView::on_aborted);
            let on = DriverView { failures: (run.failures + 1) as u32, ..run.bumped("tx-aborted"@) };
            let line = SayingView::Line("note: tx aborted: "@ + why);
            lemma_progress(on, seq![line]);
            lemma_progress(
                on,
                seq![line].push(
                    SayingView::Broken(
                        ViolationView { label: "panic-in-statement"@, detail: why },
                    ),
                ),
            );
        },
        _ => {},
    }
}

proof fn lemma_engine_crash(run: DriverView, outcome: OutcomeView)
    ensures
        ends(
            run.on_engine_crash(outcome),
            DriverView { hist: run.heard_crash(outcome), crashed: true, ..run },
            Seq::empty(),
            12,
        ),
{
    reveal(DriverView::on_engine_crash);
    lemma_quiet_words();
    lemma_end(
        DriverView {
            hist: run.heard_crash(outcome),
            ..run.bumped("crash-detected-in-engine"@).with_crash()
        },
        seq![SayingView::Reached(Cover::EnginePowerCutDetected, true)],
    );
}

proof fn lemma_read(run: DriverView, r: Result<Table, FailView>, left: u64, rows: usize)
    requires
        run.t < run.cfg.txs_per_epoch,
    ensures
        ({
            let a = run.on_resolve(r, left);
            let b = run.on_live_read(r, rows);
            let c = run.on_periodic(r);
            &&& a.run.epoch == run.epoch && b.run.epoch == run.epoch && c.run.epoch == run.epoch
            &&& a.run.cfg == run.cfg && b.run.cfg == run.cfg && c.run.cfg == run.cfg
            &&& a.run.crashed == run.crashed && b.run.crashed == run.crashed && c.run.crashed
                == run.crashed
            &&& !(a.run.phase is Over) && !(b.run.phase is Over) && !(c.run.phase is Over)
            &&& !(a.run.phase is Start) && !(b.run.phase is Start) && !(c.run.phase is Start)
            &&& !(a.run.phase is Spawn) && !(b.run.phase is Spawn) && !(c.run.phase is Spawn)
            &&& a.run.in_tx_loop() && a.run.t == run.t
            &&& 0 < left ==> rank(a.run.phase) < 30 + 2 * left
            &&& b.run.in_tx_loop() ==> run.t <= b.run.t < run.cfg.txs_per_epoch && (b.run.t
                == run.t ==> rank(b.run.phase) <= 21)
            &&& c.run.in_tx_loop() ==> run.t <= c.run.t < run.cfg.txs_per_epoch && (c.run.t
                == run.t ==> rank(c.run.phase) <= 20)
            &&& (r matches Ok(live) ==> run.hist.live(live)) ==> log::broken_count(a.said) == 0
                && log::broken_count(b.said) == 0 && log::broken_count(c.said) == 0
        }),
{
    reveal(DriverView::on_resolve);
    reveal(DriverView::on_live_read);
    reveal(DriverView::on_periodic);
    lemma_quiet_words();
    match r {
        Ok(live) => {
            let applied = table::table_digest(live) == run.hist.snaps.last().digest;
            let resolved = DriverView { hist: run.hist.resolved(live), ..run };
            let a = SayingView::Reached(Cover::UncertainCommitWasApplied, applied);
            let b = SayingView::Reached(Cover::UncertainCommitWasNotApplied, !applied);
            assert(seq![a, b] =~= seq![a] + seq![b]);
            lemma_count_adds(seq![a], seq![b]);
            lemma_start(resolved, Seq::empty());
            reveal(DriverView::start_tx);
            lemma_progress(resolved, seq![a, b]);
            lemma_progress(
                DriverView { hist: run.hist.reset(live), ..run },
                seq![driver::neither_after(run.hist, live, rows)],
            );
            lemma_next(resolved, Seq::empty());
        },
        Err(e) => {
            lemma_progress(
                DriverView { failures: (run.failures + 1) as u32, ..run },
                seq![
                    SayingView::Line(
                        "note: live read after uncertain commit failed: "@ + e.wording(),
                    ),
                ],
            );
            lemma_next(
                run,
                seq![SayingView::Line("note: periodic read failed: "@ + e.wording())],
            );
        },
    }
}

proof fn lemma_found_nothing(list: Seq<ViolationView>)
    requires
        list.len() == 0,
    ensures
        log::broken_said(list) == Seq::<SayingView>::empty(),
{
    assert(log::broken_said(list) =~= Seq::<SayingView>::empty());
}

proof fn lemma_window_is_quiet(
    run: DriverView,
    window: reader::ReaderWindow,
    end: bool,
    r: Result<(u64, usize), FailView>,
)
    requires
        r matches Ok((digest, _)) ==> digest == window.digest,
    ensures
        log::broken_count(run.on_window_read(window, end, r).said) == 0,
{
    reveal(DriverView::on_window_read);
    lemma_quiet_words();
    let v = reader::window_verdict(window, r, run.saw_commit);
    lemma_found_nothing(v.violations);
    let none = Seq::<SayingView>::empty();
    let reached = log::reached_said(Cover::ReaderHeldSnapshotAcrossCommit, v.held_across_commit);
    lemma_count_adds(none, reached);
    lemma_count_adds(none + reached, log::note_said(v.note));
}

proof fn lemma_checkpoint_is_quiet(
    run: DriverView,
    mode: checkpoint::Mode,
    ev: CheckpointEvent,
)
    requires
        !(ev is Panicked),
    ensures
        log::broken_count(run.on_checkpoint(mode, ev).said) == 0,
{
    reveal(DriverView::on_checkpoint);
    lemma_quiet_words();
    let v = checkpoint::settled(mode, ev);
    lemma_found_nothing(v.violations);
    let none = Seq::<SayingView>::empty();
    let a = log::reached_said(Cover::CheckpointBackfilledFrames, v.moved_frames);
    let b = log::reached_said(Cover::PassiveCheckpointPartial, v.left_frames);
    let c = log::reached_said(
        Cover::CheckpointBusy,
        if v.busy {
            Some(true)
        } else {
            None
        },
    );
    lemma_count_adds(none, a);
    lemma_count_adds(none + a, b);
    lemma_count_adds(none + a + b, c);
    lemma_count_adds(none + a + b + c, log::note_said(v.note));
}

/// An engine that keeps its promises is never accused: where the answer is one
/// that it may give, nothing is reported as broken.
pub proof fn law_faithful_engine_is_never_accused(run: DriverView, ev: EventView)
    requires
        run.wf(),
        run.awaits(ev),
        may_answer(run, ev),
    ensures
        log::broken_count(run.step(ev).said) == 0,
{
    let bare = run.at(PhaseView::Over);
    let none = Seq::<SayingView>::empty();
    lemma_quiet_words();
    match run.phase {
        PhaseView::Start => lemma_begin(bare, none),
        PhaseView::Spawn => lemma_plan(bare, none),
        PhaseView::WindowRead { window, end } => lemma_window_is_quiet(
            bare,
            window,
            end,
            ev->Digest_0,
        ),
        PhaseView::WindowEnd { end } => {
            lemma_end(bare, none);
            if !end {
                lemma_start(DriverView { saw_commit: false, ..bare }, none);
            }
        },
        PhaseView::WindowOpen => lemma_start(DriverView { window: ev->Window_0, ..bare }, none),
        PhaseView::CutBetween => lemma_end(
            DriverView {
                crashed: ev->Went_0,
                cut_missed: !ev->Went_0,
                crashes: (bare.crashes + 1) as u64,
                ..bare
            },
            seq![SayingView::Reached(Cover::GuestPowerCutBetweenTx, ev->Went_0)],
        ),
        PhaseView::Resolve { left } => lemma_read(bare, ev->Read_0, left, 0),
        PhaseView::ResolvePause { .. } => {
            reveal(DriverView::on_resolve_pause);
            lemma_end(bare.bumped("forced-reopen-unresolved-commit"@), none);
        },
        PhaseView::ResolveDiff => lemma_start(
            bare,
            seq![driver::files_said(ev->Lengths_0, ev->Lengths_1)],
        ),
        PhaseView::Tx => lemma_end(bare.with_crash(), none),
        PhaseView::TxProbe { outcome } => {
            lemma_engine_crash(bare, outcome);
            lemma_outcome(bare, outcome);
        },
        PhaseView::LiveRead { pre_rows } => lemma_read(bare, ev->Read_0, 0, pre_rows),
        PhaseView::BusyPause => lemma_progress(bare, none),
        PhaseView::Periodic => lemma_read(bare, ev->Read_0, 0, 0),
        PhaseView::PeriodicDiff => lemma_next(
            bare,
            seq![driver::files_said(ev->Lengths_0, ev->Lengths_1)],
        ),
        PhaseView::Checkpoint { mode } => lemma_checkpoint_is_quiet(
            bare,
            mode,
            ev->Checkpointed_0,
        ),
        PhaseView::CheckpointProbe => {
            lemma_end(
                bare.bumped("crash-detected-in-checkpoint"@).with_crash(),
                seq![SayingView::Reached(Cover::EnginePowerCutInCheckpoint, true)],
            );
            lemma_next(bare, none);
        },
        PhaseView::Integrity => {
            reveal(DriverView::on_integrity);
            match ev->Sql_0 {
                Ok(shown) => {
                    let v = report::found(
                        rows::integrity_verdict(shown, "integrity-check-failed"@),
                    );
                    lemma_found_nothing(v);
                    lemma_next(bare, log::broken_said(v));
                },
                Err(e) => lemma_next(
                    bare,
                    seq![
                        SayingView::Line("note: integrity_check failed to run: "@ + e.wording()),
                    ],
                ),
            }
        },
        PhaseView::Join => {
            reveal(DriverView::on_joined);
            let c = ev->Joined_0->0;
            lemma_end(
                DriverView {
                    work: WorkView { stats: stats::merged(bare.work.stats, c), ..bare.work },
                    ..bare
                },
                seq![SayingView::Reached(Cover::BgThreadRan, true)],
            );
        },
        PhaseView::EndProbe => {
            lemma_end(bare.bumped("crash-detected-at-epoch-end"@).with_crash(), none);
            lemma_end(bare, none);
        },
        PhaseView::Arm => lemma_begin(
            DriverView { epoch: (bare.epoch + 1) as u64, ..bare },
            seq![SayingView::Reached(Cover::RecoveredAfterPowerCut, bare.crashed)],
        ),
        _ => {},
    }
}

/// Every turn brings the end of the run closer, and the run ends.
pub proof fn law_every_turn_brings_the_end_closer(run: DriverView, ev: EventView)
    requires
        run.wf(),
        run.awaits(ev),
    ensures
        closer(run.step(ev).run, run),
        epochs_left(run) >= 0,
        txs_left(run) >= 0,
        rank(run.phase) >= 0,
{
    let bare = run.at(PhaseView::Over);
    let none = Seq::<SayingView>::empty();
    match run.phase {
        PhaseView::Start => lemma_begin(bare, none),
        PhaseView::Spawn => lemma_plan(bare, none),
        PhaseView::WindowRead { .. } => reveal(DriverView::on_window_read),
        PhaseView::WindowEnd { end } => {
            lemma_end(bare, none);
            if !end {
                lemma_start(DriverView { saw_commit: false, ..bare }, none);
            }
        },
        PhaseView::WindowOpen => lemma_start(DriverView { window: ev->Window_0, ..bare }, none),
        PhaseView::CutBetween => lemma_end(
            DriverView {
                crashed: ev->Went_0,
                cut_missed: !ev->Went_0,
                crashes: (bare.crashes + 1) as u64,
                ..bare
            },
            seq![SayingView::Reached(Cover::GuestPowerCutBetweenTx, ev->Went_0)],
        ),
        PhaseView::Resolve { left } => lemma_read(bare, ev->Read_0, left, 0),
        PhaseView::ResolvePause { .. } => {
            reveal(DriverView::on_resolve_pause);
            lemma_end(bare.bumped("forced-reopen-unresolved-commit"@), none);
        },
        PhaseView::ResolveDiff => lemma_start(
            bare,
            seq![driver::files_said(ev->Lengths_0, ev->Lengths_1)],
        ),
        PhaseView::Tx => lemma_end(bare.with_crash(), none),
        PhaseView::TxProbe { outcome } => {
            lemma_engine_crash(bare, outcome);
            lemma_outcome(bare, outcome);
        },
        PhaseView::LiveRead { pre_rows } => lemma_read(bare, ev->Read_0, 0, pre_rows),
        PhaseView::BusyPause => lemma_progress(bare, none),
        PhaseView::Periodic => lemma_read(bare, ev->Read_0, 0, 0),
        PhaseView::PeriodicDiff => lemma_next(
            bare,
            seq![driver::files_said(ev->Lengths_0, ev->Lengths_1)],
        ),
        PhaseView::Checkpoint { .. } => reveal(DriverView::on_checkpoint),
        PhaseView::CheckpointProbe => {
            lemma_end(
                bare.bumped("crash-detected-in-checkpoint"@).with_crash(),
                seq![SayingView::Reached(Cover::EnginePowerCutInCheckpoint, true)],
            );
            lemma_next(bare, none);
        },
        PhaseView::Integrity => {
            reveal(DriverView::on_integrity);
            lemma_next(
                bare,
                match ev->Sql_0 {
                    Ok(shown) => log::broken_said(
                        report::found(
                            rows::integrity_verdict(shown, "integrity-check-failed"@),
                        ),
                    ),
                    Err(e) => seq![
                        SayingView::Line("note: integrity_check failed to run: "@ + e.wording()),
                    ],
                },
            );
        },
        PhaseView::Join => {
            reveal(DriverView::on_joined);
            match ev->Joined_0 {
                Some(c) => lemma_end(
                    DriverView {
                        work: WorkView { stats: stats::merged(bare.work.stats, c), ..bare.work },
                        ..bare
                    },
                    seq![SayingView::Reached(Cover::BgThreadRan, true)],
                ),
                None => lemma_end(
                    bare,
                    seq![
                        SayingView::Broken(
                            ViolationView { label: "bg-thread-join-failed"@, detail: ""@ },
                        ),
                    ],
                ),
            }
        },
        PhaseView::EndProbe => {
            lemma_end(bare.bumped("crash-detected-at-epoch-end"@).with_crash(), none);
            lemma_end(bare, none);
        },
        PhaseView::Arm => lemma_begin(
            DriverView { epoch: (bare.epoch + 1) as u64, ..bare },
            seq![SayingView::Reached(Cover::RecoveredAfterPowerCut, bare.crashed)],
        ),
        _ => {},
    }
}

/// Whether a run is on its way to the restart at the end of an epoch.
pub open spec fn ending(phase: PhaseView) -> bool {
    ||| phase is Join
    ||| phase is EndProbe
    ||| phase matches PhaseView::WindowRead { end, .. } && end
    ||| phase matches PhaseView::WindowEnd { end } && end
}

/// Where the power was to be cut between two transactions and could not be, the
/// epoch ends all the same, and at its end the handles are dropped without
/// being closed.
pub proof fn law_missed_cut_drops_without_closing(run: DriverView, ev: EventView)
    requires
        run.wf(),
        run.awaits(ev),
        run.phase is CutBetween && !ev->Went_0 || run.cut_missed && ending(run.phase),
    ensures
        run.step(ev).run.cut_missed,
        ending(run.step(ev).run.phase) || run.step(ev).run.phase is Dropped,
        drops(run.step(ev)),
{
    reveal(DriverView::restart);
    reveal(DriverView::end_window);
    reveal(DriverView::end_probe);
    reveal(DriverView::end_epoch);
    reveal(DriverView::on_window_read);
    reveal(DriverView::on_joined);
}

/// A power cut is remembered until the reopened database has been held against
/// the oracle, and that check is told of it.
pub proof fn law_power_cut_is_remembered(run: DriverView, ev: EventView)
    requires
        run.wf(),
        run.awaits(ev),
    ensures
        run.crashed && !(run.phase is Start) && !(run.phase is Arm) && !(run.phase is CutBetween)
            ==> run.step(ev).run.crashed,
        run.phase is CutBetween ==> run.step(ev).run.crashed == ev->Went_0,
        run.phase is Tx && ev->Tx_1 ==> run.step(ev).run.crashed,
        (run.phase is TxProbe || run.phase is CheckpointProbe || run.phase is EndProbe
            || run.phase is CutQuiet) && ev->Went_0 ==> run.step(ev).run.crashed,
        run.phase is Open && ev->Went_0 ==> run.step(ev).action
            == driver::ActionView::CheckReopened(run.crashed),
{
    let bare = run.at(PhaseView::Over);
    let none = Seq::<SayingView>::empty();
    match run.phase {
        PhaseView::Start => lemma_begin(bare, none),
        PhaseView::Spawn => lemma_plan(bare, none),
        PhaseView::WindowRead { .. } => reveal(DriverView::on_window_read),
        PhaseView::WindowEnd { end } => {
            lemma_end(bare, none);
            if !end {
                lemma_start(DriverView { saw_commit: false, ..bare }, none);
            }
        },
        PhaseView::WindowOpen => lemma_start(DriverView { window: ev->Window_0, ..bare }, none),
        PhaseView::CutBetween => lemma_end(
            DriverView {
                crashed: ev->Went_0,
                cut_missed: !ev->Went_0,
                crashes: (bare.crashes + 1) as u64,
                ..bare
            },
            seq![SayingView::Reached(Cover::GuestPowerCutBetweenTx, ev->Went_0)],
        ),
        PhaseView::Resolve { left } => lemma_read(bare, ev->Read_0, left, 0),
        PhaseView::ResolvePause { .. } => {
            reveal(DriverView::on_resolve_pause);
            lemma_end(bare.bumped("forced-reopen-unresolved-commit"@), none);
        },
        PhaseView::ResolveDiff => lemma_start(
            bare,
            seq![driver::files_said(ev->Lengths_0, ev->Lengths_1)],
        ),
        PhaseView::Tx => lemma_end(bare.with_crash(), none),
        PhaseView::TxProbe { outcome } => {
            lemma_engine_crash(bare, outcome);
            lemma_outcome(bare, outcome);
        },
        PhaseView::LiveRead { pre_rows } => lemma_read(bare, ev->Read_0, 0, pre_rows),
        PhaseView::BusyPause => lemma_progress(bare, none),
        PhaseView::Periodic => lemma_read(bare, ev->Read_0, 0, 0),
        PhaseView::PeriodicDiff => lemma_next(
            bare,
            seq![driver::files_said(ev->Lengths_0, ev->Lengths_1)],
        ),
        PhaseView::Checkpoint { .. } => reveal(DriverView::on_checkpoint),
        PhaseView::CheckpointProbe => {
            lemma_end(
                bare.bumped("crash-detected-in-checkpoint"@).with_crash(),
                seq![SayingView::Reached(Cover::EnginePowerCutInCheckpoint, true)],
            );
            lemma_next(bare, none);
        },
        PhaseView::Integrity => {
            reveal(DriverView::on_integrity);
            lemma_next(
                bare,
                match ev->Sql_0 {
                    Ok(shown) => log::broken_said(
                        report::found(
                            rows::integrity_verdict(shown, "integrity-check-failed"@),
                        ),
                    ),
                    Err(e) => seq![
                        SayingView::Line("note: integrity_check failed to run: "@ + e.wording()),
                    ],
                },
            );
        },
        PhaseView::Join => {
            reveal(DriverView::on_joined);
            match ev->Joined_0 {
                Some(c) => lemma_end(
                    DriverView {
                        work: WorkView { stats: stats::merged(bare.work.stats, c), ..bare.work },
                        ..bare
                    },
                    seq![SayingView::Reached(Cover::BgThreadRan, true)],
                ),
                None => lemma_end(
                    bare,
                    seq![
                        SayingView::Broken(
                            ViolationView { label: "bg-thread-join-failed"@, detail: ""@ },
                        ),
                    ],
                ),
            }
        },
        PhaseView::EndProbe => {
            lemma_end(bare.bumped("crash-detected-at-epoch-end"@).with_crash(), none);
            lemma_end(bare, none);
        },
        PhaseView::Arm => lemma_begin(
            DriverView { epoch: (bare.epoch + 1) as u64, ..bare },
            seq![SayingView::Reached(Cover::RecoveredAfterPowerCut, bare.crashed)],
        ),
        _ => {},
    }
}

/// The oracle hears of every transaction what the engine said of it, whether or
/// not the power was cut in it: a commit that was done is what the table now
/// holds (durably so under `SyncMode::Full`); of one that may or may not have
/// been done the oracle keeps both states; any other outcome leaves it as it
/// was.
pub proof fn law_oracle_hears_every_outcome(run: DriverView, ev: EventView)
    requires
        run.wf(),
        run.awaits(ev),
        run.phase is TxProbe,
    ensures
        ({
            let after = run.step(ev).run.hist;
            match run.phase->outcome {
                OutcomeView::Committed(t) => {
                    &&& after.table == t
                    &&& after.shadow is None
                    &&& after.snaps.last().certain
                    &&& after.snaps.last().digest == table::table_digest(t)
                    &&& run.hist.sync_mode == SyncMode::Full ==> after.floor == after.snaps.len()
                        - 1
                },
                OutcomeView::Uncertain(t) => {
                    &&& after.table == t
                    &&& after.floor == run.hist.floor
                    &&& after.shadow is Some
                    &&& after.shadow->0.digest == run.hist.snaps.last().digest
                    &&& after.live(t) && after.live(run.hist.table)
                },
                _ => after == run.hist,
            }
        }),
{
    let bare = run.at(PhaseView::Over);
    lemma_engine_crash(bare, run.phase->outcome);
    lemma_outcome(bare, run.phase->outcome);
}

} // verus!
