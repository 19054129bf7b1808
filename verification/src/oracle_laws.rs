//! What the oracle lets a database show, event by event, and what the check of
//! a reopened database makes of it.

use crate::diff;
use crate::exec::{Cells, FailView};
use crate::model::{HistoryView, SnapView, SyncMode};
use crate::reopen;
use crate::reopen::{ReopenAction, ReopenEventView, ReopenPhaseView, ReopenView};
use crate::report::ViolationView;
use crate::rows;
use crate::table;
use crate::table::Table;
use crate::text;
use vstd::prelude::*;

verus! {

/// A state has a digest at or after the floor of the observed path.
pub open spec fn on_path(h: HistoryView, d: u64) -> bool {
    exists|i: int| h.floor <= i < h.snaps.len() && (#[trigger] h.snaps[i]).digest == d
}

proof fn lemma_accepted(h: HistoryView, u: Table)
    requires
        h.floor < h.snaps.len(),
    ensures
        ({
            let d = table::table_digest(u);
            let shadowed = h.shadow is Some && h.shadow->0.digest == d;
            &&& h.accepts(true, u) <==> on_path(h, d) || shadowed
            &&& h.accepts(false, u) <==> h.snaps.last().digest == d || shadowed
        }),
{
    let d = table::table_digest(u);
    let a = h.acceptable(true);
    let b = h.acceptable(false);
    let n = h.snaps.len() - h.floor;
    if h.accepts(true, u) {
        let i = choose|i: int| 0 <= i < a.len() && (#[trigger] a[i]).digest == d;
        if i < n {
            assert(h.snaps[h.floor + i].digest == d);
        }
    }
    if on_path(h, d) {
        let i = choose|i: int|
            h.floor <= i < h.snaps.len() && (#[trigger] h.snaps[i]).digest == d;
        assert(a[i - h.floor].digest == d);
    }
    if h.shadow is Some {
        assert(a[n] == h.shadow->0);
        assert(b[1] == h.shadow->0);
    }
    assert(b[0] == h.snaps.last());
    if h.accepts(false, u) {
        let i = choose|i: int| 0 <= i < b.len() && (#[trigger] b[i]).digest == d;
        assert(i == 0 || i == 1);
    }
}

/// What a reopened database may show: after a power cut the states from the
/// floor on, else the last state, and either way the shadow where there is one.
/// A live connection may show what a clean reopen may show.
pub proof fn law_what_may_be_shown(h: HistoryView, u: Table)
    requires
        h.floor < h.snaps.len(),
    ensures
        ({
            let d = table::table_digest(u);
            let shadowed = h.shadow is Some && h.shadow->0.digest == d;
            &&& h.accepts(true, u) <==> on_path(h, d) || shadowed
            &&& h.accepts(false, u) <==> h.snaps.last().digest == d || shadowed
            &&& h.live(u) <==> h.accepts(false, u)
        }),
{
    lemma_accepted(h, u);
}

/// A database that was just opened may show only what it was opened on.
pub proof fn law_opened_on_one_state(t: Table, u: Table, sync_mode: SyncMode, crashed: bool)
    ensures
        ({
            let h = HistoryView::opened(t, sync_mode);
            &&& h.accepts(crashed, u) <==> table::table_digest(u) == table::table_digest(t)
            &&& h.table == t
            &&& h.sync_mode == sync_mode
            &&& h.snaps == seq![
                SnapView {
                    digest: table::table_digest(t),
                    certain: true,
                    what: "open"@,
                    rows: t.len(),
                },
            ]
        }),
{
    let h = HistoryView::opened(t, sync_mode);
    lemma_accepted(h, u);
    assert(h.snaps[0].digest == table::table_digest(t));
}

/// What a commit attempt that left a table visible lets a database show. With
/// full synchronisation one that was reported as done leaves that table alone;
/// any other leaves the states from the floor on as well, after a power cut.
/// The shadow of an earlier attempt is gone.
pub proof fn law_commit_lets_show(
    h: HistoryView,
    t: Table,
    certain: bool,
    what: Seq<char>,
    u: Table,
)
    requires
        h.floor < h.snaps.len(),
    ensures
        ({
            let c = h.committed(t, certain, what);
            let d = table::table_digest(u);
            let new = d == table::table_digest(t);
            &&& c.accepts(false, u) <==> new
            &&& c.live(u) <==> new
            &&& c.accepts(true, u) <==> new || (!(certain && h.sync_mode == SyncMode::Full)
                && on_path(h, d))
            &&& c.table == t
            &&& c.sync_mode == h.sync_mode
            &&& c.snaps == h.snaps.push(
                SnapView { digest: table::table_digest(t), certain, what, rows: t.len() },
            )
        }),
{
    let c = h.committed(t, certain, what);
    let d = table::table_digest(u);
    lemma_accepted(c, u);
    let n = h.snaps.len() as int;
    assert(c.snaps[n].digest == table::table_digest(t));
    if on_path(c, d) {
        let i = choose|i: int|
            c.floor <= i < c.snaps.len() && (#[trigger] c.snaps[i]).digest == d;
        if i < n {
            assert(h.snaps[i].digest == d);
        }
    }
    if on_path(h, d) {
        let i = choose|i: int|
            h.floor <= i < h.snaps.len() && (#[trigger] h.snaps[i]).digest == d;
        assert(c.snaps[i].digest == d);
    }
}

/// What a commit attempt of unknown outcome lets a database show: the state it
/// was to lead to and the one before it, and after a power cut the states from
/// the floor on; it makes nothing durable, whatever the synchronisation.
pub proof fn law_uncertain_commit_lets_show(h: HistoryView, t: Table, what: Seq<char>, u: Table)
    requires
        h.floor < h.snaps.len(),
    ensures
        ({
            let c = h.committed_uncertain(t, what);
            let d = table::table_digest(u);
            let new = d == table::table_digest(t);
            let old_one = d == h.snaps.last().digest;
            &&& c.accepts(false, u) <==> new || old_one
            &&& c.live(u) <==> new || old_one
            &&& c.accepts(true, u) <==> new || on_path(h, d)
            &&& c.floor == h.floor
            &&& c.table == t
            &&& c.sync_mode == h.sync_mode
            &&& c.snaps == h.snaps.push(
                SnapView {
                    digest: table::table_digest(t),
                    certain: false,
                    what: what + ":applied"@,
                    rows: t.len(),
                },
            )
            &&& c.shadow == Some(
                SnapView {
                    digest: h.snaps.last().digest,
                    certain: false,
                    what: what + ":pre"@,
                    rows: h.snaps.last().rows,
                },
            )
        }),
{
    let c = h.committed_uncertain(t, what);
    let d = table::table_digest(u);
    lemma_accepted(c, u);
    let n = h.snaps.len() as int;
    assert(c.snaps[n].digest == table::table_digest(t));
    if on_path(c, d) {
        let i = choose|i: int|
            c.floor <= i < c.snaps.len() && (#[trigger] c.snaps[i]).digest == d;
        if i < n {
            assert(h.snaps[i].digest == d);
        }
    }
    if on_path(h, d) {
        let i = choose|i: int|
            h.floor <= i < h.snaps.len() && (#[trigger] h.snaps[i]).digest == d;
        assert(c.snaps[i].digest == d);
    }
    assert(h.snaps[n - 1] == h.snaps.last());
}

/// A checkpoint that succeeded lets a power cut show what a clean reopen may
/// show and no more, where synchronisation is not full; where it is full, it
/// changes nothing. It never changes what a clean reopen may show.
pub proof fn law_checkpoint_lets_show(h: HistoryView, u: Table)
    requires
        h.floor < h.snaps.len(),
    ensures
        h.checkpointed().accepts(false, u) <==> h.accepts(false, u),
        h.checkpointed().accepts(true, u) <==> (if h.sync_mode == SyncMode::Normal {
            h.accepts(false, u)
        } else {
            h.accepts(true, u)
        }),
        h.checkpointed().snaps == h.snaps,
        h.checkpointed().shadow == h.shadow,
        h.checkpointed().table == h.table,
        h.checkpointed().sync_mode == h.sync_mode,
{
    let c = h.checkpointed();
    let d = table::table_digest(u);
    lemma_accepted(h, u);
    lemma_accepted(c, u);
    if h.sync_mode == SyncMode::Normal {
        assert(c.snaps[c.snaps.len() - 1] == c.snaps.last());
    }
}

/// What a clean reopen that showed a table lets the database show from then on:
/// that table, and after a power cut still the states from the floor on.
pub proof fn law_clean_reopen_lets_show(h: HistoryView, t: Table, u: Table)
    requires
        h.floor < h.snaps.len(),
    ensures
        ({
            let c = h.adopted(t);
            let d = table::table_digest(u);
            let new = d == table::table_digest(t);
            &&& c.accepts(false, u) <==> new
            &&& c.live(u) <==> new
            &&& c.accepts(true, u) <==> new || on_path(h, d)
            &&& c.floor == h.floor
            &&& c.table == t
            &&& c.sync_mode == h.sync_mode
            &&& c.shadow is None
            &&& table::table_digest(t) == h.snaps.last().digest ==> c.snaps == h.snaps
            &&& table::table_digest(t) != h.snaps.last().digest ==> c.snaps == h.snaps.push(
                SnapView {
                    digest: table::table_digest(t),
                    certain: false,
                    what: "reopen"@,
                    rows: t.len(),
                },
            )
        }),
{
    let c = h.adopted(t);
    let d = table::table_digest(u);
    lemma_accepted(c, u);
    let n = h.snaps.len() as int;
    assert(c.snaps[c.snaps.len() - 1].digest == table::table_digest(t));
    if on_path(c, d) {
        let i = choose|i: int|
            c.floor <= i < c.snaps.len() && (#[trigger] c.snaps[i]).digest == d;
        if i < n {
            assert(h.snaps[i].digest == d);
        }
    }
    if on_path(h, d) {
        let i = choose|i: int|
            h.floor <= i < h.snaps.len() && (#[trigger] h.snaps[i]).digest == d;
        assert(c.snaps[i].digest == d);
    }
}

/// The state recovered from a power cut is all that a database may show from
/// then on, whatever the synchronisation.
pub proof fn law_recovery_lets_show(h: HistoryView, t: Table, u: Table, crashed: bool)
    ensures
        h.reset(t).accepts(crashed, u) <==> table::table_digest(u) == table::table_digest(t),
        h.reset(t).live(u) <==> table::table_digest(u) == table::table_digest(t),
        h.reset(t).table == t,
        h.reset(t).sync_mode == h.sync_mode,
        h.reset(t).snaps == seq![
            SnapView {
                digest: table::table_digest(t),
                certain: true,
                what: "reopen"@,
                rows: t.len(),
            },
        ],
{
    let c = h.reset(t);
    lemma_accepted(c, u);
    assert(c.snaps[0].digest == table::table_digest(t));
}

/// What a live connection shows settles an uncertain commit without losing the
/// other state: both stay legal, and the one shown is the last of the path. What
/// it may not show changes nothing.
pub proof fn law_live_state_is_settled(h: HistoryView, t: Table, u: Table)
    requires
        h.floor < h.snaps.len(),
    ensures
        ({
            let c = h.resolved(t);
            let d = table::table_digest(t);
            &&& c.live(u) <==> h.live(u)
            &&& c.floor == h.floor
            &&& c.sync_mode == h.sync_mode
            &&& !h.live(t) || d == h.snaps.last().digest ==> c == h
            &&& h.live(t) && d != h.snaps.last().digest ==> {
                &&& c.table == t
                &&& c.shadow == Some(h.snaps.last())
                &&& c.snaps == h.snaps.push(
                    SnapView {
                        digest: d,
                        certain: false,
                        what: h.shadow->0.what + ":live"@,
                        rows: t.len(),
                    },
                )
            }
        }),
{
}

/// When the check of a reopen that followed a power cut ends with the table it
/// has read, that table is all that the database may show from then on, with
/// full synchronisation and without: each list of acceptable states holds one
/// state, and that has the table's digest.
pub proof fn law_check_after_a_cut_leaves_one_state(
    run: ReopenView,
    h: HistoryView,
    ev: ReopenEventView,
    observed: Table,
)
    requires
        run.crashed,
        run.awaits(ev),
        run.step(h, ev).action == ReopenAction::Finish(true),
        match run.phase {
            ReopenPhaseView::Checking { observed: t, .. } => t == observed,
            ReopenPhaseView::CheckPause { observed: t, .. } => t == observed,
            _ => false,
        },
    ensures
        ({
            let after = run.step(h, ev).hist;
            &&& after.acceptable(true).len() == 1
            &&& after.acceptable(false).len() == 1
            &&& after.acceptable(true)[0].digest == table::table_digest(observed)
            &&& after.acceptable(false)[0].digest == table::table_digest(observed)
            &&& after.acceptable(true)[0].certain
            &&& after.table == observed
            &&& after.sync_mode == h.sync_mode
        }),
{
    let after = run.step(h, ev).hist;
    assert(after.acceptable(true) =~= after.snaps);
    assert(after.acceptable(false) =~= after.snaps);
}

/// When the check of a reopen without a power cut ends with the table it has
/// read, a clean reopen may show only that table from then on, and a power cut
/// may still take the database back to each state from the floor on.
pub proof fn law_check_without_a_cut_keeps_the_floor(
    run: ReopenView,
    h: HistoryView,
    ev: ReopenEventView,
    observed: Table,
    u: Table,
)
    requires
        !run.crashed,
        h.floor < h.snaps.len(),
        run.awaits(ev),
        run.step(h, ev).action == ReopenAction::Finish(true),
        match run.phase {
            ReopenPhaseView::Checking { observed: t, .. } => t == observed,
            ReopenPhaseView::CheckPause { observed: t, .. } => t == observed,
            _ => false,
        },
    ensures
        ({
            let after = run.step(h, ev).hist;
            let d = table::table_digest(u);
            let new = d == table::table_digest(observed);
            &&& after.accepts(false, u) <==> new
            &&& after.accepts(true, u) <==> new || on_path(h, d)
            &&& after.floor == h.floor
            &&& after.table == observed
            &&& after.sync_mode == h.sync_mode
        }),
{
    law_clean_reopen_lets_show(h, observed, u);
}

/// Until its last turn the check leaves the oracle as it is, and so does a check
/// that could not read the table.
pub proof fn law_oracle_waits_for_the_end(run: ReopenView, h: HistoryView, ev: ReopenEventView)
    requires
        run.awaits(ev),
        run.step(h, ev).action != ReopenAction::Finish(true),
    ensures
        run.step(h, ev).hist == h,
        run.step(h, ev).run.crashed == run.crashed,
        run.step(h, ev).run.dirsynced == run.dirsynced,
{
}

/// What the check makes of the table it has read: an acceptable one goes on to
/// the integrity check, with word of whether commits were lost; any other is
/// reported with its digest and every acceptable state, and shown beside the
/// oracle's.
pub proof fn law_table_is_held_against_the_oracle(
    run: ReopenView,
    h: HistoryView,
    t: Table,
    left: u64,
)
    requires
        run.phase == (ReopenPhaseView::Reading { left }),
        h.floor < h.snaps.len(),
    ensures
        ({
            let step = run.step(h, ReopenEventView::Read(Ok(t)));
            let d = table::table_digest(t);
            let shadowed = h.shadow is Some && h.shadow->0.digest == d;
            let good = if run.crashed {
                on_path(h, d) || shadowed
            } else {
                h.snaps.last().digest == d || shadowed
            };
            if good {
                &&& step.violations.len() == 0
                &&& step.lines.len() == 0
                &&& step.lost_commits is Some
                &&& step.run.phase == ReopenPhaseView::Checking { observed: t, left: 20 }
                &&& step.action == ReopenAction::CheckIntegrity
            } else {
                &&& step.violations == seq![
                    ViolationView {
                        label: if !run.crashed {
                            "committed-state-lost-on-reopen"@
                        } else if h.sync_mode == SyncMode::Full {
                            "durability-violated-after-crash"@
                        } else {
                            "prefix-consistency-violated-after-crash"@
                        },
                        detail: "observed rows="@ + text::decimal(t.len() as int) + " digest="@
                            + text::hexadecimal(d as nat) + "; acceptable: "@
                            + reopen::candidates_text(h.acceptable(run.crashed)),
                    },
                ]
                &&& step.lines == diff::diff_lines(h, t)
                &&& step.lost_commits is None
                &&& step.run.phase == ReopenPhaseView::Differing { observed: t }
                &&& step.action == ReopenAction::FileLengths
            }
        }),
{
    lemma_accepted(h, t);
}

/// A power cut has lost commits where what is there is neither the last state
/// nor the shadow but one before it; without a power cut none are lost.
pub proof fn law_lost_commits_are_told(run: ReopenView, h: HistoryView, t: Table, left: u64)
    requires
        run.phase == (ReopenPhaseView::Reading { left }),
        h.floor < h.snaps.len(),
        h.accepts(run.crashed, t),
    ensures
        ({
            let told = run.step(h, ReopenEventView::Read(Ok(t))).lost_commits;
            let d = table::table_digest(t);
            let before_last = exists|i: int|
                h.floor <= i < h.snaps.len() - 1 && (#[trigger] h.snaps[i]).digest == d;
            &&& !run.crashed ==> told == Some(false)
            &&& run.crashed && h.shadow is None ==> told == Some(before_last)
            &&& run.crashed && h.shadow is Some ==> told == Some(on_path(h, d))
        }),
{
    let d = table::table_digest(t);
    let a = h.acceptable(true);
    let n = h.snaps.len() - h.floor;
    if run.crashed {
        if reopen::loses_commits(h, true, t) {
            let i = choose|i: int| 0 <= i < a.len() - 1 && (#[trigger] a[i]).digest == d;
            assert(h.snaps[h.floor + i].digest == d);
        }
        if h.shadow is None {
            if exists|i: int|
                h.floor <= i < h.snaps.len() - 1 && (#[trigger] h.snaps[i]).digest == d {
                let i = choose|i: int|
                    h.floor <= i < h.snaps.len() - 1 && (#[trigger] h.snaps[i]).digest == d;
                assert(a[i - h.floor].digest == d);
            }
        } else if on_path(h, d) {
            let i = choose|i: int|
                h.floor <= i < h.snaps.len() && (#[trigger] h.snaps[i]).digest == d;
            assert(a[i - h.floor].digest == d);
        }
    }
}

/// How the check reads the table: thirty times at most, twenty milliseconds
/// apart, and not again where the engine says that there is none. What it could
/// not read is reported as lost, without a directory sync or in spite of it, or
/// as unreadable.
pub proof fn law_reading_is_tried_again(run: ReopenView, h: HistoryView, e: FailView, left: u64)
    ensures
        run.phase is Start ==> {
            let step = run.step(h, ReopenEventView::Start);
            &&& step.run.phase == ReopenPhaseView::Reading { left: 30 }
            &&& step.action == ReopenAction::ReadModel
        },
        run.phase == (ReopenPhaseView::Reading { left }) && left > 0 ==> {
            let step = run.step(h, ReopenEventView::Read(Err(e)));
            &&& step.run.last_err == e.wording()
            &&& step.violations.len() == 0
            &&& if text::holds(e.wording(), "no such table"@) {
                &&& step.run.phase is Unreadable
                &&& step.action == ReopenAction::FileLengths
            } else {
                &&& step.run.phase == ReopenPhaseView::ReadPause { left: (left - 1) as u64 }
                &&& step.action == ReopenAction::Wait(20)
            }
        },
        run.phase == (ReopenPhaseView::ReadPause { left }) ==> {
            let step = run.step(h, ReopenEventView::Waited);
            &&& step.run.last_err == run.last_err
            &&& step.violations.len() == 0
            &&& left == 0 ==> {
                &&& step.run.phase is Unreadable
                &&& step.action == ReopenAction::FileLengths
            }
            &&& left > 0 ==> {
                &&& step.run.phase == ReopenPhaseView::Reading { left }
                &&& step.action == ReopenAction::ReadModel
            }
        },
{
}

/// What is reported of a table that could not be read.
pub proof fn law_unreadable_table_is_reported(
    run: ReopenView,
    h: HistoryView,
    db: Option<u64>,
    wal: Option<u64>,
)
    requires
        run.phase is Unreadable,
    ensures
        ({
            let step = run.step(h, ReopenEventView::Lengths(db, wal));
            let gone = text::holds(run.last_err, "no such table"@);
            &&& step.action == ReopenAction::Finish(false)
            &&& step.violations.len() == 1
            &&& gone && run.crashed && !run.dirsynced ==> step.violations[0].label
                == "db-lost-after-crash-without-dirsync"@
            &&& gone && !(run.crashed && !run.dirsynced) ==> step.violations[0].label
                == "schema-lost-after-reopen"@
            &&& !gone ==> step.violations[0].label == "post-open-read-failed"@
            &&& step.violations[0].detail == run.last_err + " (crashed="@ + (if run.crashed {
                "true"@
            } else {
                "false"@
            }) + " dirsynced="@ + (if run.dirsynced {
                "true"@
            } else {
                "false"@
            }) + " "@ + diff::lengths_text(db, wal) + ")"@
        }),
{
}

/// How the check looks at the integrity of the database: twenty times at most,
/// twenty milliseconds apart. Anything but a clean result is reported, and so is
/// a check that never gave one.
pub proof fn law_integrity_is_checked(
    run: ReopenView,
    h: HistoryView,
    observed: Table,
    left: u64,
    r: Result<Cells, FailView>,
    db: Option<u64>,
    wal: Option<u64>,
)
    ensures
        run.phase == (ReopenPhaseView::Differing { observed }) ==> {
            let step = run.step(h, ReopenEventView::Lengths(db, wal));
            &&& step.run.phase == ReopenPhaseView::Checking { observed, left: 20 }
            &&& step.action == ReopenAction::CheckIntegrity
            &&& step.violations.len() == 0
            &&& step.lines == seq!["TURSO_DST_DIFF files: "@ + diff::lengths_text(db, wal)]
        },
        run.phase == (ReopenPhaseView::Checking { observed, left }) && left > 0 ==> {
            let step = run.step(h, ReopenEventView::Checked(r));
            match r {
                Ok(shown) => {
                    &&& step.action == ReopenAction::Finish(true)
                    &&& match rows::integrity_verdict(
                        shown,
                        "integrity-check-failed-after-reopen"@,
                    ) {
                        None => step.violations.len() == 0,
                        Some(v) => step.violations == seq![v],
                    }
                },
                Err(e) => {
                    &&& step.run.last_err == e.wording()
                    &&& step.run.phase == ReopenPhaseView::CheckPause {
                        observed,
                        left: (left - 1) as u64,
                    }
                    &&& step.action == ReopenAction::Wait(20)
                    &&& step.violations.len() == 0
                },
            }
        },
        run.phase == (ReopenPhaseView::CheckPause { observed, left }) ==> {
            let step = run.step(h, ReopenEventView::Waited);
            &&& left == 0 ==> {
                &&& step.action == ReopenAction::Finish(true)
                &&& step.violations == seq![
                    ViolationView {
                        label: "post-open-integrity-check-failed"@,
                        detail: run.last_err,
                    },
                ]
            }
            &&& left > 0 ==> {
                &&& step.run.phase == ReopenPhaseView::Checking { observed, left }
                &&& step.action == ReopenAction::CheckIntegrity
                &&& step.violations.len() == 0
            }
        },
{
}

/// How acceptable states are listed: each in order, with a space between.
pub proof fn law_acceptable_states_are_listed(snaps: Seq<SnapView>, s: SnapView)
    ensures
        reopen::candidates_text(Seq::empty()) == Seq::<char>::empty(),
        reopen::candidates_text(seq![s]) == "["@ + s.what + " rows="@ + text::decimal(s.rows as int)
            + " certain="@ + (if s.certain {
            "true"@
        } else {
            "false"@
        }) + " "@ + text::hexadecimal(s.digest as nat) + "]"@,
        snaps.len() > 0 ==> reopen::candidates_text(snaps.push(s)) == reopen::candidates_text(snaps)
            + " "@ + reopen::candidates_text(seq![s]),
{
    let f = |x: SnapView| reopen::candidate_text(x);
    assert(Seq::<SnapView>::empty().map_values(f) =~= Seq::empty());
    assert(seq![s].map_values(f) =~= seq![reopen::candidate_text(s)]);
    assert(snaps.push(s).map_values(f).drop_last() =~= snaps.map_values(f));
    assert(snaps.push(s).map_values(f).last() == reopen::candidate_text(s));
}

/// A turn of the check can always be made, except that an unacceptable table and
/// the oracle's are shown only where their values can be cut.
pub proof fn law_turns_of_the_check_can_be_made(
    run: ReopenView,
    h: HistoryView,
    ev: ReopenEventView,
)
    requires
        run.awaits(ev),
    ensures
        run.step(h, ev).fits <==> {
            ||| !(run.phase is Reading)
            ||| ev->Read_0 is Err
            ||| h.accepts(run.crashed, ev->Read_0->Ok_0)
            ||| diff::showable(ev->Read_0->Ok_0) && diff::showable(h.table)
        },
{
}

/// The states that a reopened database may show, in order: from the floor on, or
/// only the last one, each as it stands on the path; then the shadow.
pub proof fn law_acceptable_states_in_order(h: HistoryView, i: int)
    requires
        h.floor < h.snaps.len(),
    ensures
        ({
            let cut = h.acceptable(true);
            let clean = h.acceptable(false);
            let n = h.snaps.len() - h.floor;
            let more: int = if h.shadow is Some {
                1
            } else {
                0
            };
            &&& cut.len() == n + more
            &&& clean.len() == 1 + more
            &&& 0 <= i < n ==> cut[i] == h.snaps[h.floor + i]
            &&& clean[0] == h.snaps[h.snaps.len() - 1]
            &&& h.shadow is Some ==> cut[n] == h.shadow->0 && clean[1] == h.shadow->0
        }),
{
}

} // verus!
