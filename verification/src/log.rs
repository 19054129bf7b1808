//! What a run says as it goes: lines for the log, broken expectations, and
//! word on which corners it has reached.

use crate::report;
use crate::report::{Violation, ViolationView};
use crate::text;
use vstd::prelude::*;

verus! {

/// A corner that a campaign of runs is expected to reach at least once.
#[derive(Clone, Copy, Debug, PartialEq, Eq, Structural)]
pub enum Cover {
    OpenRetried,
    GuestPowerCutMidTx,
    GuestPowerCutBetweenTx,
    GuestPowerCutQuiet,
    EnginePowerCutDetected,
    EnginePowerCutInCheckpoint,
    RecoveredAfterPowerCut,
    CrashLostUnsyncedCommits,
    CommitOutcomeUncertain,
    UncertainCommitWasApplied,
    UncertainCommitWasNotApplied,
    WriterSawBusy,
    ReaderHeldSnapshotAcrossCommit,
    CheckpointBackfilledFrames,
    PassiveCheckpointPartial,
    CheckpointBusy,
    BgThreadRan,
    IoCompletionsDeferred,
    IoCompletionsReordered,
}

impl Cover {
    /// The corner's stable name.
    pub open spec fn name(self) -> Seq<char> {
        match self {
            Cover::OpenRetried => "open-retried"@,
            Cover::GuestPowerCutMidTx => "guest-power-cut-mid-tx"@,
            Cover::GuestPowerCutBetweenTx => "guest-power-cut-between-tx"@,
            Cover::GuestPowerCutQuiet => "guest-power-cut-quiet"@,
            Cover::EnginePowerCutDetected => "engine-internal-power-cut-detected"@,
            Cover::EnginePowerCutInCheckpoint => "engine-internal-power-cut-in-checkpoint"@,
            Cover::RecoveredAfterPowerCut => "recovered-after-power-cut"@,
            Cover::CrashLostUnsyncedCommits => "crash-lost-unsynced-commits"@,
            Cover::CommitOutcomeUncertain => "commit-outcome-uncertain"@,
            Cover::UncertainCommitWasApplied => "uncertain-commit-was-applied"@,
            Cover::UncertainCommitWasNotApplied => "uncertain-commit-was-not-applied"@,
            Cover::WriterSawBusy => "writer-saw-busy"@,
            Cover::ReaderHeldSnapshotAcrossCommit => "reader-held-snapshot-across-commit"@,
            Cover::CheckpointBackfilledFrames => "checkpoint-backfilled-frames"@,
            Cover::PassiveCheckpointPartial => "passive-checkpoint-partial"@,
            Cover::CheckpointBusy => "checkpoint-busy"@,
            Cover::BgThreadRan => "bg-thread-ran"@,
            Cover::IoCompletionsDeferred => "io-completions-deferred"@,
            Cover::IoCompletionsReordered => "io-completions-reordered"@,
        }
    }

    /// The corner's stable name.
    pub fn label(self) -> (name: &'static str)
        ensures
            name@ == self.name(),
    {
        match self {
            Cover::OpenRetried => "open-retried",
            Cover::GuestPowerCutMidTx => "guest-power-cut-mid-tx",
            Cover::GuestPowerCutBetweenTx => "guest-power-cut-between-tx",
            Cover::GuestPowerCutQuiet => "guest-power-cut-quiet",
            Cover::EnginePowerCutDetected => "engine-internal-power-cut-detected",
            Cover::EnginePowerCutInCheckpoint => "engine-internal-power-cut-in-checkpoint",
            Cover::RecoveredAfterPowerCut => "recovered-after-power-cut",
            Cover::CrashLostUnsyncedCommits => "crash-lost-unsynced-commits",
            Cover::CommitOutcomeUncertain => "commit-outcome-uncertain",
            Cover::UncertainCommitWasApplied => "uncertain-commit-was-applied",
            Cover::UncertainCommitWasNotApplied => "uncertain-commit-was-not-applied",
            Cover::WriterSawBusy => "writer-saw-busy",
            Cover::ReaderHeldSnapshotAcrossCommit => "reader-held-snapshot-across-commit",
            Cover::CheckpointBackfilledFrames => "checkpoint-backfilled-frames",
            Cover::PassiveCheckpointPartial => "passive-checkpoint-partial",
            Cover::CheckpointBusy => "checkpoint-busy",
            Cover::BgThreadRan => "bg-thread-ran",
            Cover::IoCompletionsDeferred => "io-completions-deferred",
            Cover::IoCompletionsReordered => "io-completions-reordered",
        }
    }
}

/// One thing that a run says.
#[derive(Debug)]
pub enum Saying {
    /// A line for the log.
    Line(String),
    /// A broken expectation.
    Broken(Violation),
    /// Whether a corner was reached just now.
    Reached(Cover, bool),
}

/// One thing that a run says, as a mathematical value.
pub enum SayingView {
    Line(Seq<char>),
    Broken(ViolationView),
    Reached(Cover, bool),
}

impl View for Saying {
    type V = SayingView;

    open spec fn view(&self) -> SayingView {
        match self {
            Saying::Line(s) => SayingView::Line(s@),
            Saying::Broken(v) => SayingView::Broken(v@),
            Saying::Reached(c, yes) => SayingView::Reached(*c, *yes),
        }
    }
}

/// Lines, as things that are said.
pub open spec fn lines_said(lines: Seq<Seq<char>>) -> Seq<SayingView> {
    lines.map_values(|l: Seq<char>| SayingView::Line(l))
}

/// Broken expectations, as things that are said.
pub open spec fn broken_said(list: Seq<ViolationView>) -> Seq<SayingView> {
    list.map_values(|v: ViolationView| SayingView::Broken(v))
}

/// A line that may be missing, as what is said.
pub open spec fn note_said(note: Option<Seq<char>>) -> Seq<SayingView> {
    match note {
        Some(s) => seq![SayingView::Line(s)],
        None => Seq::empty(),
    }
}

/// Word on a corner that may be missing, as what is said.
pub open spec fn reached_said(c: Cover, yes: Option<bool>) -> Seq<SayingView> {
    match yes {
        Some(b) => seq![SayingView::Reached(c, b)],
        None => Seq::empty(),
    }
}

/// How many broken expectations are said.
pub open spec fn broken_count(said: Seq<SayingView>) -> nat
    decreases said.len(),
{
    if said.len() == 0 {
        0
    } else {
        broken_count(said.drop_last()) + (if said.last() is Broken {
            1nat
        } else {
            0nat
        })
    }
}

/// Things said, in the order in which they were said.
pub struct Log {
    pub said: Vec<Saying>,
}

impl View for Log {
    type V = Seq<SayingView>;

    open spec fn view(&self) -> Seq<SayingView> {
        self.said@.map_values(|s: Saying| s@)
    }
}

impl Log {
    /// Nothing said yet.
    pub fn new() -> (log: Log)
        ensures
            log@ == Seq::<SayingView>::empty(),
    {
        let log = Log { said: Vec::new() };
        proof {
            assert(log@ =~= Seq::<SayingView>::empty());
        }
        log
    }

    fn say(&mut self, s: Saying)
        ensures
            final(self)@ == old(self)@.push(s@),
    {
        self.said.push(s);
        proof {
            assert(self@ =~= old(self)@.push(s@));
        }
    }

    /// Says a line.
    pub fn line(&mut self, s: String)
        ensures
            final(self)@ == old(self)@.push(SayingView::Line(s@)),
    {
        self.say(Saying::Line(s));
    }

    /// Says that an expectation is broken.
    pub fn broken(&mut self, v: Violation)
        ensures
            final(self)@ == old(self)@.push(SayingView::Broken(v@)),
    {
        self.say(Saying::Broken(v));
    }

    /// Says whether a corner was reached.
    pub fn reached(&mut self, c: Cover, yes: bool)
        ensures
            final(self)@ == old(self)@.push(SayingView::Reached(c, yes)),
    {
        self.say(Saying::Reached(c, yes));
    }

    /// Says a line, if there is one.
    pub fn note(&mut self, note: Option<String>)
        ensures
            final(self)@ == old(self)@ + note_said(text::maybe_text(note)),
    {
        match note {
            Some(s) => {
                self.line(s);
                proof {
                    assert(self@ =~= old(self)@ + seq![SayingView::Line(s@)]);
                }
            },
            None => {
                proof {
                    assert(self@ =~= old(self)@ + Seq::<SayingView>::empty());
                }
            },
        }
    }

    /// Says whether a corner was reached, if there is word on it.
    pub fn may_reach(&mut self, c: Cover, yes: Option<bool>)
        ensures
            final(self)@ == old(self)@ + reached_said(c, yes),
    {
        match yes {
            Some(b) => {
                self.reached(c, b);
                proof {
                    assert(self@ =~= old(self)@ + seq![SayingView::Reached(c, b)]);
                }
            },
            None => {
                proof {
                    assert(self@ =~= old(self)@ + Seq::<SayingView>::empty());
                }
            },
        }
    }

    /// Says lines.
    pub fn lines(&mut self, lines: &Vec<String>)
        ensures
            final(self)@ == old(self)@ + lines_said(text::texts(lines@)),
    {
        let ghost all = lines_said(text::texts(lines@));
        let mut i: usize = 0;
        proof {
            assert(self@ =~= old(self)@ + all.take(0));
        }
        while i < lines.len()
            invariant
                i <= lines.len(),
                all == lines_said(text::texts(lines@)),
                self@ == old(self)@ + all.take(i as int),
            decreases lines.len() - i,
        {
            self.line(lines[i].clone());
            i += 1;
            proof {
                assert(all[i - 1] == SayingView::Line(lines@[i - 1]@));
                assert(self@ =~= old(self)@ + all.take(i as int));
            }
        }
        proof {
            assert(all.take(i as int) =~= all);
        }
    }

    /// Says which expectations are broken.
    pub fn all_broken(&mut self, list: &Vec<Violation>)
        ensures
            final(self)@ == old(self)@ + broken_said(report::violation_views(list@)),
    {
        let ghost all = broken_said(report::violation_views(list@));
        let mut i: usize = 0;
        proof {
            assert(self@ =~= old(self)@ + all.take(0));
        }
        while i < list.len()
            invariant
                i <= list.len(),
                all == broken_said(report::violation_views(list@)),
                self@ == old(self)@ + all.take(i as int),
            decreases list.len() - i,
        {
            let label = list[i].label.clone();
            let detail = list[i].detail.clone();
            self.broken(Violation { label, detail });
            i += 1;
            proof {
                assert(all[i - 1] == SayingView::Broken(list@[i - 1]@));
                assert(self@ =~= old(self)@ + all.take(i as int));
            }
        }
        proof {
            assert(all.take(i as int) =~= all);
        }
    }
}

/// Broken expectations are counted wherever they are said: what is said before
/// or after adds to the count, and nothing else does.
pub proof fn law_broken_expectations_add_up(a: Seq<SayingView>, b: Seq<SayingView>, s: SayingView)
    ensures
        broken_count(a + b) == broken_count(a) + broken_count(b),
        broken_count(seq![s]) == (if s is Broken {
            1nat
        } else {
            0nat
        }),
        broken_count(Seq::<SayingView>::empty()) == 0,
    decreases b.len(),
{
    assert(broken_count(Seq::<SayingView>::empty()) == 0);
    assert(seq![s].drop_last() =~= Seq::<SayingView>::empty());
    assert(seq![s].last() == s);
    if b.len() == 0 {
        assert(a + b =~= a);
    } else {
        law_broken_expectations_add_up(a, b.drop_last(), s);
        assert((a + b).drop_last() =~= a + b.drop_last());
    }
}

/// What is said of lines and of broken expectations: each of them, in order,
/// for what it is.
pub proof fn law_each_is_said_in_order(
    lines: Seq<Seq<char>>,
    list: Seq<ViolationView>,
    c: Cover,
    yes: bool,
    note: Seq<char>,
)
    ensures
        lines_said(lines).len() == lines.len(),
        forall|i: int|
            0 <= i < lines.len() ==> #[trigger] lines_said(lines)[i] == SayingView::Line(lines[i]),
        broken_said(list).len() == list.len(),
        forall|i: int|
            0 <= i < list.len() ==> #[trigger] broken_said(list)[i] == SayingView::Broken(list[i]),
        note_said(Some(note)) == seq![SayingView::Line(note)],
        note_said(None) == Seq::<SayingView>::empty(),
        reached_said(c, Some(yes)) == seq![SayingView::Reached(c, yes)],
        reached_said(c, None) == Seq::<SayingView>::empty(),
{
}

/// The stable names of the corners.
pub proof fn law_names_of_the_corners()
    ensures
        Cover::OpenRetried.name() == "open-retried"@,
        Cover::GuestPowerCutMidTx.name() == "guest-power-cut-mid-tx"@,
        Cover::GuestPowerCutBetweenTx.name() == "guest-power-cut-between-tx"@,
        Cover::GuestPowerCutQuiet.name() == "guest-power-cut-quiet"@,
        Cover::EnginePowerCutDetected.name() == "engine-internal-power-cut-detected"@,
        Cover::EnginePowerCutInCheckpoint.name() == "engine-internal-power-cut-in-checkpoint"@,
        Cover::RecoveredAfterPowerCut.name() == "recovered-after-power-cut"@,
        Cover::CrashLostUnsyncedCommits.name() == "crash-lost-unsynced-commits"@,
        Cover::CommitOutcomeUncertain.name() == "commit-outcome-uncertain"@,
        Cover::UncertainCommitWasApplied.name() == "uncertain-commit-was-applied"@,
        Cover::UncertainCommitWasNotApplied.name() == "uncertain-commit-was-not-applied"@,
        Cover::WriterSawBusy.name() == "writer-saw-busy"@,
        Cover::ReaderHeldSnapshotAcrossCommit.name() == "reader-held-snapshot-across-commit"@,
        Cover::CheckpointBackfilledFrames.name() == "checkpoint-backfilled-frames"@,
        Cover::PassiveCheckpointPartial.name() == "passive-checkpoint-partial"@,
        Cover::CheckpointBusy.name() == "checkpoint-busy"@,
        Cover::BgThreadRan.name() == "bg-thread-ran"@,
        Cover::IoCompletionsDeferred.name() == "io-completions-deferred"@,
        Cover::IoCompletionsReordered.name() == "io-completions-reordered"@,
{
}

} // verus!
