//! The course of a run: what each turn leads to, what it counts, and what it
//! says.

use crate::checkpoint;
use crate::checkpoint::{CheckpointEvent, Mode};
use crate::diff;
use crate::driver::{ActionView, DriverView, EventView, PhaseView, Said};
use crate::exec::{Cells, FailView};
use crate::log;
use crate::log::{Cover, SayingView};
use crate::prng;
use crate::reader;
use crate::reader::ReaderWindow;
use crate::report::ViolationView;
use crate::rows;
use crate::stats;
use crate::stats::Counts;
use crate::table;
use crate::table::Table;
use crate::text;
use crate::tx::OutcomeView;
use crate::workload::WorkView;
use vstd::prelude::*;

verus! {

/// What the small moves of a run change, and that they change nothing else: a
/// count raises one counter, a draw moves the generator on, and a power cut is
/// remembered and counted.
pub proof fn law_small_moves(run: DriverView, k: Seq<char>, permille: u64)
    requires
        run.crashes < u64::MAX,
    ensures
        run.bumped(k) == (DriverView { work: run.work.bumped(k), ..run }),
        run.drawn() == (DriverView {
            work: WorkView { rng: prng::prng_advance(run.work.rng), ..run.work },
            ..run
        }),
        run.hits(permille) <==> prng::prng_draw(run.work.rng) % 1000 < permille,
        run.with_crash().crashed,
        run.with_crash().crashes == run.crashes + 1,
        run.with_crash().hist == run.hist,
        run.with_crash().work == run.work,
        run.with_crash().phase == run.phase,
        run.room(k) <==> !run.work.stats.contains_key(k) || run.work.stats[k] < u64::MAX,
{
}

/// How an epoch begins: after the last one the run is over; else a background
/// thread is started with the configured probability, at a seed of its own, and
/// counted. Nothing of the epoch before is left: no power cut, no window.
pub proof fn law_epoch_begins(run: DriverView, said: Said)
    ensures
        ({
            let step = run.begin_epoch(said);
            let fresh = DriverView {
                crashed: false,
                cut_missed: false,
                window: None,
                saw_commit: false,
                ..run
            };
            if run.epoch >= run.cfg.epochs {
                &&& step.run == (DriverView { phase: PhaseView::Over, ..run })
                &&& step.action is Finish
                &&& step.said == said
            } else if prng::prng_draw(run.work.rng) % 1000 < run.cfg.bg_thread_permille {
                let rng1 = prng::prng_advance(run.work.rng);
                &&& step.run == (DriverView {
                    phase: PhaseView::Spawn,
                    bg: true,
                    work: WorkView {
                        rng: prng::prng_advance(rng1),
                        ..run.work.bumped("bg-thread-spawned"@)
                    },
                    ..fresh
                })
                &&& step.action == ActionView::SpawnBg(prng::prng_draw(rng1))
                &&& step.said == said
                &&& step.fits == run.room("bg-thread-spawned"@)
            } else {
                step == (DriverView { bg: false, ..fresh.drawn() }).plan_crash(said)
            }
        }),
{
    reveal(DriverView::begin_epoch);
}

/// Where the power is cut between two transactions: with the configured
/// probability before one of them or after the last, which one is drawn; the
/// epoch then goes to its first transaction.
pub proof fn law_power_cut_is_planned(run: DriverView, said: Said)
    requires
        run.cfg.txs_per_epoch < u64::MAX - 1,
    ensures
        ({
            let rng1 = prng::prng_advance(run.work.rng);
            let on = run.drawn();
            if prng::prng_draw(run.work.rng) % 1000 < run.cfg.crash_permille {
                let at = prng::prng_draw(rng1) as int % (run.cfg.txs_per_epoch + 1);
                run.plan_crash(said) == (DriverView {
                    crash_at: Some(at as u64),
                    t: 0,
                    ..on.drawn()
                }).tx_head(said)
            } else {
                run.plan_crash(said) == (DriverView { crash_at: None, t: 0, ..on }).tx_head(said)
            }
        }),
{
    reveal(DriverView::plan_crash);
}

/// What comes before a transaction: the epoch ends after the last one; an open
/// reader window is looked through once more and then closed; else, with the
/// configured probability, a new one is opened.
pub proof fn law_windows_come_first(run: DriverView, said: Said)
    ensures
        run.t >= run.cfg.txs_per_epoch ==> run.tx_head(said) == run.end_epoch(said),
        run.t < run.cfg.txs_per_epoch ==> {
            let step = run.tx_head(said);
            match run.window {
                Some(window) => {
                    &&& step.run == (DriverView {
                        phase: PhaseView::WindowRead { window, end: false },
                        window: None,
                        ..run
                    })
                    &&& step.action is ReadReader
                    &&& step.said == said
                },
                None => step == run.window_chance(said),
            }
        },
        ({
            let step = run.window_chance(said);
            if prng::prng_draw(run.work.rng) % 1000 < run.cfg.reader_window_permille {
                &&& step.run == (DriverView { phase: PhaseView::WindowOpen, ..run.drawn() })
                &&& step.action is OpenWindow
                &&& step.said == said
            } else {
                step == run.drawn().crash_check(said)
            }
        }),
{
    reveal(DriverView::tx_head);
    reveal(DriverView::window_chance);
}

/// What comes right before a transaction: the planned power cut where it is due,
/// which is counted; then, where a commit is uncertain, a look at the live table
/// with twelve attempts; then the transaction, which is announced with the
/// number of rows. Only the last one of an epoch without a planned cut may be
/// cut in its middle.
pub proof fn law_transaction_begins(run: DriverView, said: Said)
    requires
        run.t < u64::MAX,
    ensures
        run.crash_at == Some(run.t) ==> {
            let step = run.crash_check(said);
            &&& step.run == (DriverView {
                phase: PhaseView::CutBetween,
                ..run.bumped("crash-between-tx"@)
            })
            &&& step.action is PowerCut
            &&& step.said == said
            &&& step.fits == run.room("crash-between-tx"@)
        },
        run.crash_at != Some(run.t) ==> run.crash_check(said) == run.settle_shadow(said),
        run.hist.shadow is Some ==> {
            let step = run.settle_shadow(said);
            &&& step.run == (DriverView { phase: PhaseView::Resolve { left: 12 }, ..run })
            &&& step.action is ReadModel
            &&& step.said == said
        },
        run.hist.shadow is None ==> run.settle_shadow(said) == run.start_tx(said),
        ({
            let step = run.start_tx(said);
            let mid = prng::prng_draw(run.work.rng) % 1000 < run.cfg.mid_tx_crash_permille
                && run.crash_at is None && run.t + 1 == run.cfg.txs_per_epoch;
            &&& step.run == (DriverView { phase: PhaseView::Tx, ..run.drawn() })
            &&& step.action == ActionView::RunTx(mid)
            &&& step.said == said.push(
                SayingView::Line(
                    "note: e"@ + text::decimal(run.epoch as int) + " t"@ + text::decimal(
                        run.t as int,
                    ) + " tx start (rows="@ + text::decimal(run.hist.table.len() as int) + ")"@,
                ),
            )
        }),
{
    reveal(DriverView::crash_check);
    reveal(DriverView::settle_shadow);
    reveal(DriverView::start_tx);
}

/// What comes after a transaction: after six failures in a row the epoch ends,
/// which is counted, and the count of failures begins anew; else the live table
/// is checked one time in four.
pub proof fn law_progress_is_watched(run: DriverView, said: Said)
    ensures
        run.failures >= 6 ==> {
            let step = run.progress(said);
            let on = (DriverView { failures: 0, ..run.bumped("forced-reopen"@) }).end_epoch(said);
            &&& step.run == on.run
            &&& step.action == on.action
            &&& step.said == on.said
            &&& step.fits == (on.fits && run.room("forced-reopen"@))
        },
        run.failures < 6 ==> {
            let step = run.progress(said);
            if prng::prng_draw(run.work.rng) % 1000 < 250 {
                &&& step.run == (DriverView { phase: PhaseView::Periodic, ..run.drawn() })
                &&& step.action is ReadModel
                &&& step.said == said
            } else {
                step == run.drawn().checkpoint_chance(said)
            }
        },
{
    reveal(DriverView::progress);
}

/// What comes between two transactions: with the configured probabilities a
/// checkpoint of a mode that is drawn and announced, and an integrity check;
/// then the next transaction.
pub proof fn law_checks_between_transactions(run: DriverView, said: Said)
    requires
        run.t < u64::MAX,
    ensures
        ({
            let step = run.checkpoint_chance(said);
            let mode = checkpoint::mode_drawn(prng::prng_advance(run.work.rng));
            if prng::prng_draw(run.work.rng) % 1000 < run.cfg.checkpoint_permille {
                &&& step.run == (DriverView {
                    phase: PhaseView::Checkpoint { mode },
                    ..run.drawn().drawn()
                })
                &&& step.action == ActionView::Checkpoint(mode)
                &&& step.said == said.push(
                    SayingView::Line("note: checkpoint "@ + mode.name() + " start"@),
                )
            } else {
                step == run.drawn().integrity_chance(said)
            }
        }),
        ({
            let step = run.integrity_chance(said);
            if prng::prng_draw(run.work.rng) % 1000 < run.cfg.integrity_permille {
                &&& step.run == (DriverView { phase: PhaseView::Integrity, ..run.drawn() })
                &&& step.action is CheckIntegrity
                &&& step.said == said
            } else {
                step == run.drawn().next_tx(said)
            }
        }),
        run.next_tx(said) == (DriverView { t: (run.t + 1) as u64, ..run }).tx_head(said),
{
    reveal(DriverView::checkpoint_chance);
    reveal(DriverView::integrity_chance);
    reveal(DriverView::next_tx);
}

/// How an epoch ends: the background thread is joined, the sentinel is asked
/// about a power cut unless one is known, and a window that is still open is
/// looked through unless the power was cut.
pub proof fn law_epoch_ends(run: DriverView, said: Said)
    ensures
        ({
            let step = run.end_epoch(said);
            &&& run.bg ==> {
                &&& step.run == (DriverView { phase: PhaseView::Join, bg: false, ..run })
                &&& step.action is JoinBg
                &&& step.said == said
            }
            &&& !run.bg ==> step == run.end_probe(said)
        }),
        ({
            let step = run.end_probe(said);
            &&& run.crashed ==> step == run.end_window(said)
            &&& !run.crashed ==> {
                &&& step.run == (DriverView { phase: PhaseView::EndProbe, ..run })
                &&& step.action is Probe
                &&& step.said == said
            }
        }),
        ({
            let step = run.end_window(said);
            let closed = DriverView { window: None, ..run };
            &&& run.window is None || run.crashed ==> step == closed.restart(said)
            &&& run.window is Some && !run.crashed ==> {
                &&& step.run == (DriverView {
                    phase: PhaseView::WindowRead { window: run.window->0, end: true },
                    ..closed
                })
                &&& step.action is ReadReader
                &&& step.said == said
            }
        }),
{
    reveal(DriverView::end_epoch);
    reveal(DriverView::end_probe);
    reveal(DriverView::end_window);
}

/// How the process restarts: after a power cut the handles are dropped as dead,
/// after a cut that was missed they are dropped; else a draw out of three closes
/// them, drops them, or cuts the power, each counted under its own name. One
/// more epoch is done.
pub proof fn law_process_restarts(run: DriverView, said: Said)
    requires
        run.epochs_done < u64::MAX,
    ensures
        ({
            let step = run.restart(said);
            let on = DriverView { epochs_done: (run.epochs_done + 1) as u64, ..run };
            let n = prng::prng_draw(run.work.rng) % 3;
            &&& step.said == said
            &&& step.fits <==> run.crashed || run.cut_missed || run.room(
                if n == 0 {
                    "clean-close"@
                } else if n == 1 {
                    "drop-without-close"@
                } else {
                    "crash-at-quiet-point"@
                },
            )
            &&& if run.crashed {
                &&& step.run == (DriverView { phase: PhaseView::Dropped, ..on })
                &&& step.action == ActionView::DropDb(true)
            } else if run.cut_missed {
                &&& step.run == (DriverView { phase: PhaseView::Dropped, ..on })
                &&& step.action == ActionView::DropDb(false)
            } else if n == 0 {
                &&& step.run == (DriverView {
                    phase: PhaseView::Dropped,
                    ..on.drawn().bumped("clean-close"@)
                })
                &&& step.action is CloseDb
            } else if n == 1 {
                &&& step.run == (DriverView {
                    phase: PhaseView::Dropped,
                    ..on.drawn().bumped("drop-without-close"@)
                })
                &&& step.action == ActionView::DropDb(false)
            } else {
                &&& step.run == (DriverView {
                    phase: PhaseView::CutQuiet,
                    ..on.drawn().bumped("crash-at-quiet-point"@)
                })
                &&& step.action is PowerCut
            }
        }),
{
    reveal(DriverView::restart);
}

/// What a power cut by the run itself leads to: between two transactions it is
/// counted as a crash whether or not it was made, the epoch ends, and the corner
/// is told; in a transaction it is counted, and the epoch ends; at a quiet point
/// it counts only where it was made.
pub proof fn law_own_power_cuts(run: DriverView, went: bool, outcome: OutcomeView)
    requires
        run.crashes < u64::MAX,
    ensures
        ({
            let bare = DriverView { phase: PhaseView::Over, ..run };
            &&& run.phase is CutBetween ==> {
                let step = run.step(EventView::Went(went));
                let on = (DriverView {
                    crashed: went,
                    cut_missed: !went,
                    crashes: (run.crashes + 1) as u64,
                    ..bare
                }).end_epoch(seq![SayingView::Reached(Cover::GuestPowerCutBetweenTx, went)]);
                step.run == on.run && step.action == on.action && step.said == on.said && step.fits
                    == on.fits
            }
            &&& run.phase is Tx ==> {
                let step = run.step(EventView::Tx(outcome, true));
                let on = bare.with_crash().end_epoch(Seq::empty());
                step.run == on.run && step.action == on.action && step.said == on.said && step.fits
                    == on.fits
            }
            &&& run.phase is CutQuiet ==> {
                let step = run.step(EventView::Went(went));
                &&& step.run == (DriverView {
                    phase: PhaseView::Dropped,
                    crashed: run.crashed || went,
                    crashes: (run.crashes + (if went {
                        1int
                    } else {
                        0
                    })) as u64,
                    ..run
                })
                &&& went ==> step.action == ActionView::DropDb(true)
                &&& !went ==> step.action == ActionView::DropDb(false)
                &&& step.said == seq![SayingView::Reached(Cover::GuestPowerCutQuiet, went)]
                &&& step.fits
            }
        }),
{
}

/// What a power cut that the engine made leads to: in a transaction, in a
/// checkpoint or at the end of an epoch it is counted as a crash and under a
/// name of its own; the epoch ends there.
pub proof fn law_engine_power_cuts(run: DriverView, outcome: OutcomeView)
    requires
        run.crashes < u64::MAX,
    ensures
        ({
            let bare = DriverView { phase: PhaseView::Over, ..run };
            let step = run.step(EventView::Went(true));
            let name = "e"@ + text::decimal(run.epoch as int) + "t"@ + text::decimal(run.t as int);
            &&& run.phase == (PhaseView::TxProbe { outcome }) ==> {
                let on = (DriverView {
                    hist: match outcome {
                        OutcomeView::Committed(t) => run.hist.committed(t, true, name),
                        OutcomeView::Uncertain(t) => run.hist.committed_uncertain(t, name + "!"@),
                        _ => run.hist,
                    },
                    ..bare.bumped("crash-detected-in-engine"@).with_crash()
                }).end_epoch(seq![SayingView::Reached(Cover::EnginePowerCutDetected, true)]);
                step.run == on.run && step.action == on.action && step.said == on.said && step.fits
                    == (on.fits && run.room("crash-detected-in-engine"@))
            }
            &&& run.phase is CheckpointProbe ==> {
                let on = bare.bumped("crash-detected-in-checkpoint"@).with_crash().end_epoch(
                    seq![SayingView::Reached(Cover::EnginePowerCutInCheckpoint, true)],
                );
                step.run == on.run && step.action == on.action && step.said == on.said && step.fits
                    == (on.fits && run.room("crash-detected-in-checkpoint"@))
            }
            &&& run.phase is EndProbe ==> {
                let on = bare.bumped("crash-detected-at-epoch-end"@).with_crash().end_window(
                    Seq::empty(),
                );
                step.run == on.run && step.action == on.action && step.said == on.said && step.fits
                    == (on.fits && run.room("crash-detected-at-epoch-end"@))
            }
        }),
{
    reveal(DriverView::on_engine_crash);
}

/// What follows where the engine made no power cut.
pub proof fn law_without_an_engine_power_cut(run: DriverView, outcome: OutcomeView)
    ensures
        ({
            let bare = DriverView { phase: PhaseView::Over, ..run };
            let step = run.step(EventView::Went(false));
            &&& run.phase == (PhaseView::TxProbe { outcome }) ==> step == bare.on_outcome(outcome)
            &&& run.phase is CheckpointProbe ==> step == bare.integrity_chance(Seq::empty())
            &&& run.phase is EndProbe ==> step == bare.end_window(Seq::empty())
            &&& run.phase is Tx ==> {
                let told = run.step(EventView::Tx(outcome, false));
                &&& told.run == (DriverView { phase: PhaseView::TxProbe { outcome }, ..run })
                &&& told.action is Probe
                &&& told.said.len() == 0
            }
        }),
{
}

/// What an outcome of a transaction leads to: each is counted under its own
/// name, and the oracle hears of a commit under the name of its transaction. A
/// commit or a rollback ends a row of failures; a commit is seen by an open
/// window.
pub proof fn law_outcomes_are_counted(run: DriverView, outcome: OutcomeView)
    ensures
        ({
            let step = run.on_outcome(outcome);
            let name = "e"@ + text::decimal(run.epoch as int) + "t"@ + text::decimal(run.t as int);
            match outcome {
                OutcomeView::Committed(t) => {
                    let on = (DriverView {
                        failures: 0,
                        hist: run.hist.committed(t, true, name),
                        saw_commit: true,
                        ..run.bumped("tx-committed"@)
                    }).progress(
                        seq![
                            SayingView::Line(
                                "note: e"@ + text::decimal(run.epoch as int) + " t"@
                                    + text::decimal(run.t as int) + " committed rows="@
                                    + text::decimal(t.len() as int),
                            ),
                        ],
                    );
                    step.run == on.run && step.action == on.action && step.said == on.said
                        && step.fits == (on.fits && run.room("tx-committed"@))
                },
                OutcomeView::RolledBack => {
                    let on = (DriverView {
                        failures: 0,
                        ..run.bumped("tx-rolled-back"@)
                    }).progress(Seq::empty());
                    step.run == on.run && step.action == on.action && step.said == on.said
                        && step.fits == (on.fits && run.room("tx-rolled-back"@))
                },
                OutcomeView::Uncertain(t) => {
                    &&& step.run == (DriverView {
                        phase: PhaseView::LiveRead { pre_rows: run.hist.table.len() as usize },
                        hist: run.hist.committed_uncertain(t, name + "?"@),
                        ..run.bumped("tx-uncertain"@)
                    })
                    &&& step.action is ReadModel
                    &&& step.said == seq![SayingView::Reached(Cover::CommitOutcomeUncertain, true)]
                    &&& step.fits == run.room("tx-uncertain"@)
                },
                OutcomeView::Busy => {
                    &&& step.run == (DriverView {
                        phase: PhaseView::BusyPause,
                        ..run.bumped("tx-busy"@)
                    })
                    &&& step.action == ActionView::Wait(5)
                    &&& step.said == seq![SayingView::Reached(Cover::WriterSawBusy, true)]
                    &&& step.fits == run.room("tx-busy"@)
                },
                OutcomeView::Aborted(why) => step == run.on_aborted(why),
            }
        }),
{
    reveal(DriverView::on_outcome);
}

/// What an abandoned transaction leads to: it is counted, noted, and one more
/// failure in a row. A statement that is stuck ends the run, and one that
/// panicked is reported.
pub proof fn law_abandoned_transaction(run: DriverView, why: Seq<char>)
    requires
        run.failures < u32::MAX,
    ensures
        ({
            let step = run.on_aborted(why);
            let failed = DriverView {
                failures: (run.failures + 1) as u32,
                ..run.bumped("tx-aborted"@)
            };
            let note = SayingView::Line("note: tx aborted: "@ + why);
            if text::holds(why, "Stuck"@) {
                &&& step.run == (DriverView { phase: PhaseView::Over, ..failed })
                &&& step.action is Finish
                &&& step.said == seq![
                    note,
                    SayingView::Broken(ViolationView { label: "statement-stuck"@, detail: why }),
                ]
                &&& step.fits == run.room("tx-aborted"@)
            } else {
                let on = failed.progress(
                    if text::holds(why, "Panic"@) {
                        seq![
                            note,
                            SayingView::Broken(
                                ViolationView { label: "panic-in-statement"@, detail: why },
                            ),
                        ]
                    } else {
                        seq![note]
                    },
                );
                step.run == on.run && step.action == on.action && step.said == on.said && step.fits
                    == (on.fits && run.room("tx-aborted"@))
            }
        }),
{
    reveal(DriverView::on_aborted);
    let note = SayingView::Line("note: tx aborted: "@ + why);
    assert(seq![note].push(
        SayingView::Broken(ViolationView { label: "statement-stuck"@, detail: why }),
    ) =~= seq![
        note,
        SayingView::Broken(ViolationView { label: "statement-stuck"@, detail: why }),
    ]);
    assert(seq![note].push(
        SayingView::Broken(ViolationView { label: "panic-in-statement"@, detail: why }),
    ) =~= seq![
        note,
        SayingView::Broken(ViolationView { label: "panic-in-statement"@, detail: why }),
    ]);
}

/// How an uncertain commit is settled before the next transaction: what the live
/// connection shows is taken where it is one of both states; anything else is
/// reported with the numbers of rows, and the oracle begins anew from it. A read
/// that fails is tried again ten milliseconds later, and after the last attempt
/// the epoch ends, which is counted.
pub proof fn law_uncertain_commit_is_settled(
    run: DriverView,
    r: Result<Table, FailView>,
    left: u64,
)
    requires
        run.phase == (PhaseView::Resolve { left }),
        0 < left,
    ensures
        ({
            let step = run.step(EventView::Read(r));
            let bare = DriverView { phase: PhaseView::Over, ..run };
            match r {
                Ok(live) => if run.hist.live(live) {
                    step == (DriverView { hist: run.hist.resolved(live), ..bare }).start_tx(
                        Seq::empty(),
                    )
                } else {
                    &&& step.run == (DriverView {
                        phase: PhaseView::ResolveDiff,
                        hist: run.hist.reset(live),
                        ..run
                    })
                    &&& step.action is FileLengths
                    &&& step.said == seq![
                        SayingView::Broken(
                            ViolationView {
                                label: "uncertain-commit-left-neither-state"@,
                                detail: "live rows="@ + text::decimal(live.len() as int)
                                    + " last rows="@ + text::decimal(
                                    run.hist.snaps.last().rows as int,
                                ),
                            },
                        ),
                    ] + log::lines_said(diff::diff_lines(run.hist, live))
                    &&& step.fits == (diff::showable(live) && diff::showable(run.hist.table))
                },
                Err(_) => {
                    &&& step.run == (DriverView {
                        phase: PhaseView::ResolvePause { left: (left - 1) as u64 },
                        ..run
                    })
                    &&& step.action == ActionView::Wait(10)
                    &&& step.said.len() == 0
                },
            }
        }),
{
    reveal(DriverView::on_resolve);
}

/// What follows a pause in settling an uncertain commit.
pub proof fn law_settling_is_given_up(run: DriverView, left: u64)
    requires
        run.phase == (PhaseView::ResolvePause { left }),
    ensures
        ({
            let step = run.step(EventView::Done);
            let bare = DriverView { phase: PhaseView::Over, ..run };
            &&& left > 0 ==> {
                &&& step.run == (DriverView { phase: PhaseView::Resolve { left }, ..run })
                &&& step.action is ReadModel
                &&& step.said.len() == 0
            }
            &&& left == 0 ==> {
                let on = bare.bumped("forced-reopen-unresolved-commit"@).end_epoch(Seq::empty());
                step.run == on.run && step.action == on.action && step.said == on.said && step.fits
                    == (on.fits && run.room("forced-reopen-unresolved-commit"@))
            }
        }),
{
    reveal(DriverView::on_resolve_pause);
}

/// What a look right after an uncertain commit leads to: which of both states is
/// there is told, and taken; anything else is reported with all three numbers of
/// rows, and the oracle begins anew from it. A look that fails is one more
/// failure in a row.
pub proof fn law_look_after_an_uncertain_commit(
    run: DriverView,
    r: Result<Table, FailView>,
    pre_rows: usize,
)
    requires
        run.phase == (PhaseView::LiveRead { pre_rows }),
        run.failures < u32::MAX,
    ensures
        ({
            let step = run.step(EventView::Read(r));
            let bare = DriverView { phase: PhaseView::Over, ..run };
            match r {
                Ok(live) => {
                    let applied = table::table_digest(live) == run.hist.snaps.last().digest;
                    if run.hist.live(live) {
                        step == (DriverView { hist: run.hist.resolved(live), ..bare }).progress(
                            seq![
                                SayingView::Reached(Cover::UncertainCommitWasApplied, applied),
                                SayingView::Reached(Cover::UncertainCommitWasNotApplied, !applied),
                            ],
                        )
                    } else {
                        step == (DriverView { hist: run.hist.reset(live), ..bare }).progress(
                            seq![
                                SayingView::Broken(
                                    ViolationView {
                                        label: "uncertain-commit-left-neither-state"@,
                                        detail: "live rows="@ + text::decimal(live.len() as int)
                                            + " pre rows="@ + text::decimal(pre_rows as int)
                                            + " post rows="@ + text::decimal(
                                            run.hist.snaps.last().rows as int,
                                        ),
                                    },
                                ),
                            ],
                        )
                    }
                },
                Err(e) => step == (DriverView {
                    failures: (run.failures + 1) as u32,
                    ..bare
                }).progress(
                    seq![
                        SayingView::Line(
                            "note: live read after uncertain commit failed: "@ + e.wording(),
                        ),
                    ],
                ),
            }
        }),
{
    reveal(DriverView::on_live_read);
}

/// What the periodic look leads to: a state that may be there is taken; any
/// other is reported with both digests and both numbers of rows, and shown
/// beside the oracle's, which stays as it is.
pub proof fn law_periodic_look(run: DriverView, r: Result<Table, FailView>)
    requires
        run.phase is Periodic,
    ensures
        ({
            let step = run.step(EventView::Read(r));
            let bare = DriverView { phase: PhaseView::Over, ..run };
            match r {
                Ok(live) => if run.hist.live(live) {
                    step == (DriverView {
                        hist: run.hist.resolved(live),
                        ..bare
                    }).checkpoint_chance(Seq::empty())
                } else {
                    &&& step.run == (DriverView { phase: PhaseView::PeriodicDiff, ..run })
                    &&& step.action is FileLengths
                    &&& step.said == seq![
                        SayingView::Broken(
                            ViolationView {
                                label: "committed-state-mismatch"@,
                                detail: "live rows="@ + text::decimal(live.len() as int)
                                    + " digest="@ + text::hexadecimal(
                                    table::table_digest(live) as nat,
                                ) + " expected "@ + text::hexadecimal(
                                    run.hist.snaps.last().digest as nat,
                                ) + " rows="@ + text::decimal(run.hist.snaps.last().rows as int),
                            },
                        ),
                    ] + log::lines_said(diff::diff_lines(run.hist, live))
                    &&& step.fits == (diff::showable(live) && diff::showable(run.hist.table))
                },
                Err(e) => step == bare.checkpoint_chance(
                    seq![SayingView::Line("note: periodic read failed: "@ + e.wording())],
                ),
            }
        }),
{
    reveal(DriverView::on_periodic);
}

/// The lengths of the files are shown after a look that has failed, and the run
/// goes on where it was.
pub proof fn law_lengths_follow_a_failed_look(run: DriverView, db: Option<u64>, wal: Option<u64>)
    ensures
        ({
            let step = run.step(EventView::Lengths(db, wal));
            let bare = DriverView { phase: PhaseView::Over, ..run };
            let line = SayingView::Line("TURSO_DST_DIFF files: "@ + diff::lengths_text(db, wal));
            &&& run.phase is ResolveDiff ==> step == bare.start_tx(seq![line])
            &&& run.phase is PeriodicDiff ==> step == bare.checkpoint_chance(seq![line])
        }),
{
}

/// What the outcome of a checkpoint leads to: the oracle hears of it, it is
/// counted, what it has shown is told in order, and the sentinel is asked about
/// a power cut.
pub proof fn law_checkpoint_is_taken_in(run: DriverView, mode: Mode, ev: CheckpointEvent)
    requires
        run.phase == (PhaseView::Checkpoint { mode }),
    ensures
        ({
            let step = run.step(EventView::Checkpointed(ev));
            let seen = checkpoint::settled(mode, ev);
            &&& step.run == (DriverView {
                phase: PhaseView::CheckpointProbe,
                work: checkpoint::counted(run.work, ev),
                hist: checkpoint::heard(run.hist, ev),
                ..run
            })
            &&& step.action is Probe
            &&& step.fits == checkpoint::can_count(run.work, ev)
            &&& match ev {
                CheckpointEvent::Done { .. } => step.said == seq![
                    SayingView::Reached(
                        Cover::CheckpointBackfilledFrames,
                        seen.moved_frames->0,
                    ),
                    SayingView::Reached(Cover::PassiveCheckpointPartial, seen.left_frames->0),
                    SayingView::Line(seen.note->0),
                ]
                ,
                CheckpointEvent::Busy => step.said == seq![
                    SayingView::Reached(Cover::CheckpointBusy, true),
                ],
                CheckpointEvent::Failed(_) => step.said == seq![SayingView::Line(seen.note->0)],
                CheckpointEvent::Panicked(_) => step.said == seq![
                    SayingView::Broken(seen.violations[0]),
                ],
            }
        }),
{
    reveal(DriverView::on_checkpoint);
    let said = run.step(EventView::Checkpointed(ev)).said;
    let seen = checkpoint::settled(mode, ev);
    match ev {
        CheckpointEvent::Done { .. } => {
            assert(said =~= seq![
                SayingView::Reached(Cover::CheckpointBackfilledFrames, seen.moved_frames->0),
                SayingView::Reached(Cover::PassiveCheckpointPartial, seen.left_frames->0),
                SayingView::Line(seen.note->0),
            ]);
        },
        CheckpointEvent::Busy => {
            assert(said =~= seq![SayingView::Reached(Cover::CheckpointBusy, true)]);
        },
        CheckpointEvent::Failed(_) => {
            assert(said =~= seq![SayingView::Line(seen.note->0)]);
        },
        CheckpointEvent::Panicked(_) => {
            assert(said =~= seq![SayingView::Broken(seen.violations[0])]);
        },
    }
}

/// What an integrity check leads to: anything but a clean result is reported,
/// one that could not run is noted, and the next transaction follows.
pub proof fn law_integrity_check_is_taken_in(run: DriverView, r: Result<Cells, FailView>)
    requires
        run.phase is Integrity,
    ensures
        ({
            let step = run.step(EventView::Sql(r));
            let bare = DriverView { phase: PhaseView::Over, ..run };
            match r {
                Ok(shown) => match rows::integrity_verdict(shown, "integrity-check-failed"@) {
                    None => step == bare.next_tx(Seq::empty()),
                    Some(v) => step == bare.next_tx(seq![SayingView::Broken(v)]),
                },
                Err(e) => step == bare.next_tx(
                    seq![
                        SayingView::Line("note: integrity_check failed to run: "@ + e.wording()),
                    ],
                ),
            }
        }),
{
    reveal(DriverView::on_integrity);
    if r is Ok {
        match rows::integrity_verdict(r->Ok_0, "integrity-check-failed"@) {
            None => {
                assert(log::broken_said(Seq::empty()) =~= Seq::<SayingView>::empty());
            },
            Some(v) => {
                assert(log::broken_said(seq![v]) =~= seq![SayingView::Broken(v)]);
            },
        }
    }
}

/// What joining the background thread leads to: its counters are added to those
/// of the run, and that it ran is told; a thread that could not be joined is
/// reported.
pub proof fn law_background_thread_is_joined(run: DriverView, counted: Option<Counts>)
    requires
        run.phase is Join,
    ensures
        ({
            let step = run.step(EventView::Joined(counted));
            let bare = DriverView { phase: PhaseView::Over, ..run };
            match counted {
                Some(c) => {
                    let on = (DriverView {
                        work: WorkView { stats: stats::merged(run.work.stats, c), ..run.work },
                        ..bare
                    }).end_probe(seq![SayingView::Reached(Cover::BgThreadRan, true)]);
                    step.run == on.run && step.action == on.action && step.said == on.said
                        && step.fits == (on.fits && stats::can_merge(run.work.stats, c))
                },
                None => step == bare.end_probe(
                    seq![
                        SayingView::Broken(
                            ViolationView { label: "bg-thread-join-failed"@, detail: ""@ },
                        ),
                    ],
                ),
            }
        }),
{
    reveal(DriverView::on_joined);
}

/// How the reader window is used: what it shows at the second look is judged
/// with word of whether the writer has committed, the read transaction is ended,
/// and a window is opened only where one was asked for.
pub proof fn law_reader_window_is_used(
    run: DriverView,
    window: ReaderWindow,
    end: bool,
    r: Result<(u64, usize), FailView>,
    opened: Option<ReaderWindow>,
)
    ensures
        ({
            let bare = DriverView { phase: PhaseView::Over, ..run };
            &&& run.phase == (PhaseView::WindowRead { window, end }) ==> {
                let step = run.step(EventView::Digest(r));
                &&& step.run == (DriverView { phase: PhaseView::WindowEnd { end }, ..run })
                &&& step.action == ActionView::ExecReader("COMMIT"@)
                &&& match r {
                    Ok((digest, n)) => step.said == (if digest == window.digest {
                        seq![
                            SayingView::Reached(
                                Cover::ReaderHeldSnapshotAcrossCommit,
                                run.saw_commit,
                            ),
                        ]
                    } else {
                        seq![
                            SayingView::Broken(
                                reader::window_verdict(window, r, run.saw_commit).violations[0],
                            ),
                            SayingView::Reached(
                                Cover::ReaderHeldSnapshotAcrossCommit,
                                run.saw_commit,
                            ),
                        ]
                    }),
                    Err(e) => step.said == seq![
                        SayingView::Line("note: reader re-read failed: "@ + e.wording()),
                    ],
                }
            }
            &&& run.phase == (PhaseView::WindowEnd { end }) ==> {
                let step = run.step(EventView::Done);
                &&& end ==> step == bare.restart(Seq::empty())
                &&& !end ==> step == (DriverView { saw_commit: false, ..bare }).window_chance(
                    Seq::empty(),
                )
            }
            &&& run.phase is WindowOpen ==> run.step(EventView::Window(opened)) == (DriverView {
                window: opened,
                ..bare
            }).crash_check(Seq::empty())
        }),
{
    reveal(DriverView::on_window_read);
    if run.phase == (PhaseView::WindowRead { window, end }) {
        let said = run.step(EventView::Digest(r)).said;
        let v = reader::window_verdict(window, r, run.saw_commit);
        match r {
            Ok((digest, n)) => {
                if digest == window.digest {
                    assert(said =~= seq![
                        SayingView::Reached(Cover::ReaderHeldSnapshotAcrossCommit, run.saw_commit),
                    ]);
                } else {
                    assert(said =~= seq![
                        SayingView::Broken(v.violations[0]),
                        SayingView::Reached(Cover::ReaderHeldSnapshotAcrossCommit, run.saw_commit),
                    ]);
                }
            },
            Err(e) => {
                assert(said =~= seq![
                    SayingView::Line("note: reader re-read failed: "@ + e.wording()),
                ]);
            },
        }
    }
}

/// How the database comes back: it is opened, held against the oracle with word
/// of whether the power was cut, and the sentinel is armed; then the next epoch
/// begins, and whether the database has recovered from a power cut is told.
/// Where it cannot be opened or read, the run is over.
pub proof fn law_database_comes_back(run: DriverView, went: bool)
    requires
        run.epoch < u64::MAX,
    ensures
        ({
            let bare = DriverView { phase: PhaseView::Over, ..run };
            &&& run.phase is Start ==> run.step(EventView::Start) == bare.begin_epoch(Seq::empty())
            &&& run.phase is Spawn ==> run.step(EventView::Done) == bare.plan_crash(Seq::empty())
            &&& run.phase is BusyPause ==> run.step(EventView::Done) == bare.progress(Seq::empty())
            &&& run.phase is Dropped ==> {
                let step = run.step(EventView::Done);
                &&& step.run == (DriverView { phase: PhaseView::Open, ..run })
                &&& step.action is Open
                &&& step.said.len() == 0
            }
            &&& run.phase is Open ==> {
                let step = run.step(EventView::Went(went));
                &&& step.said.len() == 0
                &&& went ==> step.run == (DriverView { phase: PhaseView::Reopen, ..run })
                    && step.action == ActionView::CheckReopened(run.crashed)
                &&& !went ==> step.run == bare && step.action is Finish
            }
            &&& run.phase is Reopen ==> {
                let step = run.step(EventView::Went(went));
                &&& step.said.len() == 0
                &&& went ==> step.run == (DriverView { phase: PhaseView::Arm, ..run })
                    && step.action is Arm
                &&& !went ==> step.run == bare && step.action is Finish
            }
            &&& run.phase is Arm ==> run.step(EventView::Done) == (DriverView {
                epoch: (run.epoch + 1) as u64,
                ..bare
            }).begin_epoch(
                seq![SayingView::Reached(Cover::RecoveredAfterPowerCut, run.crashed)],
            )
        }),
{
}

/// A turn that only asks for something can always be made: nothing is counted
/// in it.
pub proof fn law_plain_turns_can_always_be_made(run: DriverView, said: Said, ev: EventView)
    requires
        run.awaits(ev),
    ensures
        run.start_tx(said).fits,
        run.epoch >= run.cfg.epochs ==> run.begin_epoch(said).fits,
        run.t < run.cfg.txs_per_epoch && run.window is Some ==> run.tx_head(said).fits,
        run.hits(run.cfg.reader_window_permille) ==> run.window_chance(said).fits,
        run.hist.shadow is Some ==> run.settle_shadow(said).fits,
        run.failures < 6 && run.hits(250) ==> run.progress(said).fits,
        run.hits(run.cfg.checkpoint_permille) ==> run.checkpoint_chance(said).fits,
        run.hits(run.cfg.integrity_permille) ==> run.integrity_chance(said).fits,
        run.bg ==> run.end_epoch(said).fits,
        !run.crashed ==> run.end_probe(said).fits,
        run.window is Some && !run.crashed ==> run.end_window(said).fits,
        run.phase is WindowRead || run.phase is Dropped || run.phase is Open || run.phase is Reopen
            ==> run.step(ev).fits,
        run.phase is Tx && !ev->Tx_1 ==> run.step(ev).fits,
        run.phase is Resolve && ev->Read_0 is Err ==> run.step(ev).fits,
{
    reveal(DriverView::start_tx);
    reveal(DriverView::begin_epoch);
    reveal(DriverView::tx_head);
    reveal(DriverView::window_chance);
    reveal(DriverView::settle_shadow);
    reveal(DriverView::progress);
    reveal(DriverView::checkpoint_chance);
    reveal(DriverView::integrity_chance);
    reveal(DriverView::end_epoch);
    reveal(DriverView::end_probe);
    reveal(DriverView::end_window);
    reveal(DriverView::on_window_read);
    reveal(DriverView::on_resolve);
}

} // verus!
