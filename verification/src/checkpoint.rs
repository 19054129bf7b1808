//! Explicit checkpoints: which mode, and what the outcome means.

use crate::model::{History, HistoryView, SyncMode};
use crate::prng;
use crate::prng::Prng;
use crate::report;
use crate::report::{no_violation, one_violation, Violation, ViolationView};
use crate::stats;
use crate::text;
use crate::text::{join3, push_unsigned};
use crate::workload::{WorkView, Workload};
use vstd::prelude::*;
use vstd::string::*;

verus! {

/// How far a checkpoint goes.
#[derive(Clone, Copy, Debug, PartialEq, Eq, Structural)]
pub enum Mode {
    Passive,
    Full,
    Restart,
    Truncate,
}

impl Mode {
    /// The mode's name in the log.
    pub open spec fn name(self) -> Seq<char> {
        match self {
            Mode::Passive => "passive"@,
            Mode::Full => "full"@,
            Mode::Restart => "restart"@,
            Mode::Truncate => "truncate"@,
        }
    }

    /// The mode's name in the log.
    pub fn label(self) -> (name: &'static str)
        ensures
            name@ == self.name(),
    {
        match self {
            Mode::Passive => "passive",
            Mode::Full => "full",
            Mode::Restart => "restart",
            Mode::Truncate => "truncate",
        }
    }

    /// The line before a checkpoint.
    pub fn start_note(self) -> (note: String)
        ensures
            note@ == "note: checkpoint "@ + self.name() + " start"@,
    {
        join3("note: checkpoint ", self.label(), " start")
    }
}

/// The mode that is drawn when the generator stands at `rng`.
pub open spec fn mode_drawn(rng: u64) -> Mode {
    let n = prng::prng_pick(rng, 0, 3);
    if n == 0 {
        Mode::Passive
    } else if n == 1 {
        Mode::Full
    } else if n == 2 {
        Mode::Restart
    } else {
        Mode::Truncate
    }
}

/// Draws the mode of a checkpoint.
pub fn draw_mode(rng: &mut Prng) -> (mode: Mode)
    ensures
        mode == mode_drawn(old(rng).0),
        final(rng).0 == prng::prng_advance(old(rng).0),
{
    match rng.range(0, 3) {
        0 => Mode::Passive,
        1 => Mode::Full,
        2 => Mode::Restart,
        _ => Mode::Truncate,
    }
}

/// What came of a checkpoint.
#[derive(Debug)]
pub enum CheckpointEvent {
    /// It was done.
    Done {
        /// How many frames the log holds.
        max_frame: u64,
        /// How many of them are in the database file.
        total_backfilled: u64,
        /// How many this checkpoint has moved there.
        backfilled: u64,
    },
    Busy,
    /// Another error, as the engine words it.
    Failed(String),
    /// It panicked, with this message.
    Panicked(String),
}

/// What a checkpoint has shown.
pub struct Settled {
    pub violations: Vec<Violation>,
    /// A line for the log.
    pub note: Option<String>,
    /// Where it was done: whether it has moved frames.
    pub moved_frames: Option<bool>,
    /// Where it was done: whether it was passive and left frames behind.
    pub left_frames: Option<bool>,
    /// Whether the engine was busy.
    pub busy: bool,
}

/// What a checkpoint has shown, as a mathematical value.
#[verifier::ext_equal]
pub struct SettledView {
    pub violations: Seq<ViolationView>,
    pub note: Option<Seq<char>>,
    pub moved_frames: Option<bool>,
    pub left_frames: Option<bool>,
    pub busy: bool,
}

impl View for Settled {
    type V = SettledView;

    open spec fn view(&self) -> SettledView {
        SettledView {
            violations: report::violation_views(self.violations@),
            note: text::maybe_text(self.note),
            moved_frames: self.moved_frames,
            left_frames: self.left_frames,
            busy: self.busy,
        }
    }
}

/// What a checkpoint shows.
pub open spec fn settled(mode: Mode, ev: CheckpointEvent) -> SettledView {
    let nothing = SettledView {
        violations: Seq::empty(),
        note: None,
        moved_frames: None,
        left_frames: None,
        busy: false,
    };
    match ev {
        CheckpointEvent::Done { max_frame, total_backfilled, backfilled } => SettledView {
            note: Some(
                "note: checkpoint "@ + mode.name() + ": max_frame="@ + text::decimal(
                    max_frame as int,
                ) + " total_backfilled="@ + text::decimal(total_backfilled as int)
                    + " backfilled="@ + text::decimal(backfilled as int),
            ),
            moved_frames: Some(backfilled > 0),
            left_frames: Some(mode == Mode::Passive && total_backfilled < max_frame),
            ..nothing
        },
        CheckpointEvent::Busy => SettledView { busy: true, ..nothing },
        CheckpointEvent::Failed(e) => SettledView {
            note: Some("note: checkpoint "@ + mode.name() + " error: "@ + e@),
            ..nothing
        },
        CheckpointEvent::Panicked(msg) => SettledView {
            violations: seq![ViolationView { label: "panic-in-checkpoint"@, detail: msg@ }],
            ..nothing
        },
    }
}

/// The counter that an outcome is counted under; a panic is not counted.
pub open spec fn counter(ev: CheckpointEvent) -> Option<Seq<char>> {
    match ev {
        CheckpointEvent::Done { .. } => Some("checkpoint-ok"@),
        CheckpointEvent::Busy => Some("checkpoint-busy"@),
        CheckpointEvent::Failed(_) => Some("checkpoint-error"@),
        CheckpointEvent::Panicked(_) => None,
    }
}

/// The workload after a checkpoint.
pub open spec fn counted(w: WorkView, ev: CheckpointEvent) -> WorkView {
    match counter(ev) {
        Some(k) => w.bumped(k),
        None => w,
    }
}

/// Whether the outcome can be counted.
pub open spec fn can_count(w: WorkView, ev: CheckpointEvent) -> bool {
    match counter(ev) {
        Some(k) => stats::has_room(w.stats, k, 1),
        None => true,
    }
}

/// The oracle after a checkpoint: only one that was done moves its floor.
pub open spec fn heard(h: HistoryView, ev: CheckpointEvent) -> HistoryView {
    if ev is Done {
        h.checkpointed()
    } else {
        h
    }
}

/// Tells whether the outcome of a checkpoint can be counted.
pub fn can_settle(wl: &Workload, ev: &CheckpointEvent) -> (yes: bool)
    requires
        wl.wf(),
    ensures
        yes == can_count(wl@, *ev),
{
    match ev {
        CheckpointEvent::Done { .. } => wl.can_bump("checkpoint-ok"),
        CheckpointEvent::Busy => wl.can_bump("checkpoint-busy"),
        CheckpointEvent::Failed(_) => wl.can_bump("checkpoint-error"),
        CheckpointEvent::Panicked(_) => true,
    }
}

/// Takes note of the outcome of a checkpoint.
pub fn settle(mode: Mode, ev: CheckpointEvent, wl: &mut Workload, hist: &mut History) -> (out:
    Settled)
    requires
        old(wl).wf(),
        old(hist)@.wf(),
        can_count(old(wl)@, ev),
    ensures
        out@ == settled(mode, ev),
        final(wl).wf(),
        final(wl)@ == counted(old(wl)@, ev),
        final(hist)@.wf(),
        final(hist)@ == heard(old(hist)@, ev),
{
    match ev {
        CheckpointEvent::Done { max_frame, total_backfilled, backfilled } => {
            wl.bump("checkpoint-ok");
            hist.checkpoint_ok();
            let mut note = "note: checkpoint ".to_owned();
            note.append(mode.label());
            note.append(": max_frame=");
            push_unsigned(&mut note, max_frame);
            note.append(" total_backfilled=");
            push_unsigned(&mut note, total_backfilled);
            note.append(" backfilled=");
            push_unsigned(&mut note, backfilled);
            Settled {
                violations: no_violation(),
                note: Some(note),
                moved_frames: Some(backfilled > 0),
                left_frames: Some(mode == Mode::Passive && total_backfilled < max_frame),
                busy: false,
            }
        },
        CheckpointEvent::Busy => {
            wl.bump("checkpoint-busy");
            Settled {
                violations: no_violation(),
                note: None,
                moved_frames: None,
                left_frames: None,
                busy: true,
            }
        },
        CheckpointEvent::Failed(e) => {
            wl.bump("checkpoint-error");
            let mut note = "note: checkpoint ".to_owned();
            note.append(mode.label());
            note.append(" error: ");
            note.append(e.as_str());
            Settled {
                violations: no_violation(),
                note: Some(note),
                moved_frames: None,
                left_frames: None,
                busy: false,
            }
        },
        CheckpointEvent::Panicked(msg) => Settled {
            violations: one_violation("panic-in-checkpoint", msg),
            note: None,
            moved_frames: None,
            left_frames: None,
            busy: false,
        },
    }
}

/// A checkpoint that was not done leaves the set of acceptable states as it
/// was.
pub proof fn law_failed_checkpoint_promises_nothing(
    h: HistoryView,
    ev: CheckpointEvent,
    crashed: bool,
)
    requires
        !(ev is Done),
    ensures
        heard(h, ev).acceptable(crashed) == h.acceptable(crashed),
{
}

/// A mode is drawn by the remainder of one draw, each with the same share.
pub proof fn law_modes_have_the_same_share(rng: u64)
    ensures
        mode_drawn(rng) == Mode::Passive <==> prng::prng_draw(rng) % 4 == 0,
        mode_drawn(rng) == Mode::Full <==> prng::prng_draw(rng) % 4 == 1,
        mode_drawn(rng) == Mode::Restart <==> prng::prng_draw(rng) % 4 == 2,
        mode_drawn(rng) == Mode::Truncate <==> prng::prng_draw(rng) % 4 == 3,
        Mode::Passive.name() == "passive"@,
        Mode::Full.name() == "full"@,
        Mode::Restart.name() == "restart"@,
        Mode::Truncate.name() == "truncate"@,
{
}

/// What a checkpoint tells: it has moved frames where any were backfilled, and a
/// passive one has left frames behind where fewer are in the database than the
/// log holds. One that was not done tells neither; only a panic is reported.
pub proof fn law_outcome_of_a_checkpoint(mode: Mode, ev: CheckpointEvent, w: WorkView)
    ensures
        ({
            let s = settled(mode, ev);
            match ev {
                CheckpointEvent::Done { max_frame, total_backfilled, backfilled } => {
                    &&& s.moved_frames == Some(backfilled > 0)
                    &&& s.left_frames == Some(mode == Mode::Passive && total_backfilled < max_frame)
                    &&& !s.busy
                    &&& s.violations.len() == 0
                    &&& s.note == Some(
                        "note: checkpoint "@ + mode.name() + ": max_frame="@ + text::decimal(
                            max_frame as int,
                        ) + " total_backfilled="@ + text::decimal(total_backfilled as int)
                            + " backfilled="@ + text::decimal(backfilled as int),
                    )
                    &&& counted(w, ev) == w.bumped("checkpoint-ok"@)
                },
                CheckpointEvent::Busy => {
                    &&& s.moved_frames is None && s.left_frames is None
                    &&& s.busy
                    &&& s.violations.len() == 0
                    &&& s.note is None
                    &&& counted(w, ev) == w.bumped("checkpoint-busy"@)
                },
                CheckpointEvent::Failed(e) => {
                    &&& s.moved_frames is None && s.left_frames is None
                    &&& !s.busy
                    &&& s.violations.len() == 0
                    &&& s.note == Some("note: checkpoint "@ + mode.name() + " error: "@ + e@)
                    &&& counted(w, ev) == w.bumped("checkpoint-error"@)
                },
                CheckpointEvent::Panicked(msg) => {
                    &&& s.moved_frames is None && s.left_frames is None
                    &&& !s.busy
                    &&& s.violations == seq![
                        ViolationView { label: "panic-in-checkpoint"@, detail: msg@ },
                    ]
                    &&& s.note is None
                    &&& counted(w, ev) == w
                },
            }
        }),
{
}

/// A checkpoint that was done lets the oracle hear of it; where synchronisation
/// is not full, all that a power cut may then show is what a clean reopen may
/// show.
pub proof fn law_done_checkpoint_is_heard(h: HistoryView, ev: CheckpointEvent)
    requires
        ev is Done,
        h.floor < h.snaps.len(),
    ensures
        h.sync_mode == SyncMode::Normal ==> heard(h, ev).floor == h.snaps.len() - 1,
        h.sync_mode == SyncMode::Full ==> heard(h, ev).floor == h.floor,
        heard(h, ev).snaps == h.snaps,
        heard(h, ev).shadow == h.shadow,
        heard(h, ev).table == h.table,
{
}

/// When the outcome of a checkpoint can be counted: its counter has room, and a
/// panic, which has none, always can.
pub proof fn law_when_a_checkpoint_can_be_counted(w: WorkView, ev: CheckpointEvent)
    ensures
        can_count(w, ev) <==> match ev {
            CheckpointEvent::Done { .. } => stats::has_room(w.stats, "checkpoint-ok"@, 1),
            CheckpointEvent::Busy => stats::has_room(w.stats, "checkpoint-busy"@, 1),
            CheckpointEvent::Failed(_) => stats::has_room(w.stats, "checkpoint-error"@, 1),
            CheckpointEvent::Panicked(_) => true,
        },
{
}

} // verus!
