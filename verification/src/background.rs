//! The background thread's work: on a connection of its own it runs read
//! transactions, count queries and checkpoints of every mode, interleaved with
//! the writer. Errors are expected under faults and ignored.

use crate::checkpoint;
use crate::checkpoint::{draw_mode, Mode};
use crate::exec::Fail;
use crate::prng;
use crate::prng::Prng;
use crate::reader::ReaderWindow;
use crate::report;
use crate::report::{no_violation, one_violation, Violation, ViolationView};
use crate::stats;
use crate::stats::{Counts, Stats};
use crate::text;
use crate::text::push_unsigned;
use vstd::prelude::*;
use vstd::string::*;

verus! {

/// How many rounds the background thread makes at most.
pub const MAX_ROUNDS: u64 = 400;

/// What a read of the table gave, if it succeeded.
pub type Look = Option<ReaderWindow>;

/// What the background thread is waiting for.
#[derive(Clone, Copy, Debug, PartialEq, Eq)]
pub enum BgPhase {
    /// A connection.
    Connect,
    /// The end of the statement that sets the connection up.
    Setup,
    /// Word on whether to stop.
    Poll,
    /// The outcome of `BEGIN`.
    Begin,
    /// The first look at the table.
    First,
    /// The end of the pause between two looks.
    Between { first: Look },
    /// The second look.
    Second { first: Look },
    /// The end of `COMMIT`, whatever its outcome.
    Commit,
    /// The outcome of the count query.
    Count,
    /// The outcome of the checkpoint.
    Checkpoint,
    /// The end of the pause after a round.
    Pause,
    /// The end of closing the connection.
    Close,
    /// Nothing more.
    Over,
}

/// What came of an action.
pub enum BgEvent {
    /// Whether a connection was made.
    Connected(bool),
    /// Whether the thread has been told to stop.
    Stop(bool),
    /// Whether a statement succeeded.
    Sql(bool),
    /// What a read of the table gave.
    Digest(Result<(u64, usize), Fail>),
    /// Whether a checkpoint was done; where not, whether for being busy.
    Checkpointed { done: bool, busy: bool },
    /// A pause is over.
    Slept,
    /// The connection is closed.
    Closed,
}

/// What is to be done next.
#[derive(Debug)]
pub enum BgAction {
    /// Make a connection.
    Connect,
    /// Run a statement.
    Exec(String),
    /// Read the table and digest it.
    ReadDigest,
    /// Run a checkpoint.
    Checkpoint(Mode),
    /// Wait so many milliseconds.
    Sleep(u64),
    /// Look whether the thread has been told to stop.
    Poll,
    /// Close the connection.
    Close,
    /// The work is over.
    Finish,
}

/// What is to be done next, as a mathematical value.
pub enum BgActionView {
    Connect,
    Exec(Seq<char>),
    ReadDigest,
    Checkpoint(Mode),
    Sleep(u64),
    Poll,
    Close,
    Finish,
}

impl View for BgAction {
    type V = BgActionView;

    open spec fn view(&self) -> BgActionView {
        match self {
            BgAction::Connect => BgActionView::Connect,
            BgAction::Exec(sql) => BgActionView::Exec(sql@),
            BgAction::ReadDigest => BgActionView::ReadDigest,
            BgAction::Checkpoint(mode) => BgActionView::Checkpoint(*mode),
            BgAction::Sleep(ms) => BgActionView::Sleep(*ms),
            BgAction::Poll => BgActionView::Poll,
            BgAction::Close => BgActionView::Close,
            BgAction::Finish => BgActionView::Finish,
        }
    }
}

/// The background thread's work.
pub struct BgRun {
    pub phase: BgPhase,
    pub rng: Prng,
    /// How many rounds have begun.
    pub rounds: u64,
    pub stats: Stats,
}

/// The background thread's work, as a mathematical value.
#[verifier::ext_equal]
pub struct BgView {
    pub phase: BgPhase,
    pub rng: u64,
    pub rounds: u64,
    pub stats: Counts,
}

impl View for BgRun {
    type V = BgView;

    open spec fn view(&self) -> BgView {
        BgView { phase: self.phase, rng: self.rng.0, rounds: self.rounds, stats: self.stats@ }
    }
}

/// One turn of the work: what is to be done, and what there is to report.
pub struct BgTurn {
    pub action: BgAction,
    pub violations: Vec<Violation>,
}

/// One turn of the work, as a mathematical value.
#[verifier::ext_equal]
pub struct BgStep {
    pub run: BgView,
    pub action: BgActionView,
    pub violations: Seq<ViolationView>,
}

/// What a turn is.
pub open spec fn is_turn(step: BgStep, run: BgRun, turn: BgTurn) -> bool {
    &&& run.stats.wf()
    &&& run@ == step.run
    &&& turn.action@ == step.action
    &&& report::violation_views(turn.violations@) == step.violations
}

/// What a read of the table gave, if it succeeded.
pub open spec fn look(r: Result<(u64, usize), Fail>) -> Look {
    match r {
        Ok((digest, rows)) => Some(ReaderWindow { digest, rows }),
        Err(_) => None,
    }
}

fn looked(r: Result<(u64, usize), Fail>) -> (out: Look)
    ensures
        out == look(r),
{
    match r {
        Ok((digest, rows)) => Some(ReaderWindow { digest, rows }),
        Err(_) => None,
    }
}

impl BgView {
    /// A turn that asks for something.
    pub open spec fn ask(self, phase: BgPhase, action: BgActionView) -> BgStep {
        BgStep { run: BgView { phase, ..self }, action, violations: Seq::empty() }
    }

    /// The end of a round: a pause of up to five milliseconds.
    pub open spec fn rest(self) -> BgStep {
        (BgView { rng: prng::prng_advance(self.rng), ..self }).ask(
            BgPhase::Pause,
            BgActionView::Sleep(prng::prng_pick(self.rng, 0, 5)),
        )
    }

    /// The work with one more thing of a kind counted.
    pub open spec fn bumped(self, k: Seq<char>) -> Self {
        BgView { stats: stats::bumped(self.stats, k), ..self }
    }

    /// The beginning of a round: a read transaction, a count query or a
    /// checkpoint; or the end of the work.
    pub open spec fn on_poll(self, stop: bool) -> BgStep {
        if stop || self.rounds >= MAX_ROUNDS {
            self.ask(BgPhase::Close, BgActionView::Close)
        } else {
            let roll = prng::prng_pick(self.rng, 0, 9);
            let rng = prng::prng_advance(self.rng);
            let on = BgView { rng, rounds: (self.rounds + 1) as u64, ..self };
            if roll <= 3 {
                on.ask(BgPhase::Begin, BgActionView::Exec("BEGIN"@))
            } else if roll <= 5 {
                on.ask(BgPhase::Count, BgActionView::Exec("SELECT count(*) FROM kv"@))
            } else {
                (BgView { rng: prng::prng_advance(rng), ..on }).ask(
                    BgPhase::Checkpoint,
                    BgActionView::Checkpoint(checkpoint::mode_drawn(rng)),
                )
            }
        }
    }

    /// After the first look within a read transaction: a pause of up to three
    /// milliseconds.
    pub open spec fn on_first(self, first: Look) -> BgStep {
        (BgView { rng: prng::prng_advance(self.rng), ..self }).ask(
            BgPhase::Between { first },
            BgActionView::Sleep(prng::prng_pick(self.rng, 0, 3)),
        )
    }

    /// What came of a checkpoint is counted.
    pub open spec fn on_checkpoint(self, done: bool, busy: bool) -> BgStep {
        self.bumped(
            if done {
                "bg-checkpoint-ok"@
            } else if busy {
                "bg-checkpoint-busy"@
            } else {
                "bg-checkpoint-error"@
            },
        ).rest()
    }

    /// What two looks within one read transaction show.
    pub open spec fn on_second(self, first: Look, second: Look) -> BgStep {
        let step = self.ask(BgPhase::Commit, BgActionView::Exec("COMMIT"@));
        if first is Some && second is Some {
            BgStep {
                run: step.run.bumped("bg-read-tx"@),
                violations: if first->0.digest != second->0.digest {
                    seq![
                        ViolationView {
                            label: "snapshot-isolation-violated-bg"@,
                            detail: "bg reader saw rows="@ + text::decimal(first->0.rows as int)
                                + " then rows="@ + text::decimal(second->0.rows as int)
                                + " in one read tx"@,
                        },
                    ]
                } else {
                    Seq::empty()
                },
                ..step
            }
        } else {
            step
        }
    }

    /// Whether an event is of the kind that is being waited for.
    pub open spec fn awaits(self, ev: BgEvent) -> bool {
        match self.phase {
            BgPhase::Connect => ev is Connected,
            BgPhase::Setup => ev is Sql,
            BgPhase::Poll => ev is Stop,
            BgPhase::Begin => ev is Sql,
            BgPhase::First => ev is Digest,
            BgPhase::Between { .. } => ev is Slept,
            BgPhase::Second { .. } => ev is Digest,
            BgPhase::Commit => ev is Sql,
            BgPhase::Count => ev is Sql,
            BgPhase::Checkpoint => ev is Checkpointed,
            BgPhase::Pause => ev is Slept,
            BgPhase::Close => ev is Closed,
            BgPhase::Over => false,
        }
    }

    /// The turn on an event.
    pub open spec fn step(self, ev: BgEvent) -> BgStep {
        match self.phase {
            BgPhase::Connect => if ev->Connected_0 {
                self.ask(BgPhase::Setup, BgActionView::Exec("PRAGMA data_sync_retry=ON"@))
            } else {
                self.bumped("bg-connect-failed"@).ask(BgPhase::Over, BgActionView::Finish)
            },
            BgPhase::Setup => self.ask(BgPhase::Poll, BgActionView::Poll),
            BgPhase::Poll => self.on_poll(ev->Stop_0),
            BgPhase::Begin => if ev->Sql_0 {
                self.ask(BgPhase::First, BgActionView::ReadDigest)
            } else {
                self.rest()
            },
            BgPhase::First => self.on_first(look(ev->Digest_0)),
            BgPhase::Between { first } => self.ask(
                BgPhase::Second { first },
                BgActionView::ReadDigest,
            ),
            BgPhase::Second { first } => self.on_second(first, look(ev->Digest_0)),
            BgPhase::Commit => self.rest(),
            BgPhase::Count => if ev->Sql_0 {
                self.bumped("bg-count"@).rest()
            } else {
                self.rest()
            },
            BgPhase::Checkpoint => self.on_checkpoint(ev->done, ev->busy),
            BgPhase::Pause => self.ask(BgPhase::Poll, BgActionView::Poll),
            BgPhase::Close => self.ask(BgPhase::Over, BgActionView::Finish),
            BgPhase::Over => self.ask(BgPhase::Over, BgActionView::Finish),
        }
    }

    /// Whether something of this round is still to be counted.
    pub open spec fn uncounted(self) -> bool {
        self.phase is Begin || self.phase is First || self.phase is Between || self.phase is Second
            || self.phase is Count || self.phase is Checkpoint
    }

    /// Whether no counter is ahead of the rounds.
    pub open spec fn wf(self) -> bool {
        &&& self.rounds <= MAX_ROUNDS
        &&& self.uncounted() ==> self.rounds > 0
        &&& !(self.phase is Over) ==> none_above(
            self.stats,
            self.rounds - (if self.uncounted() {
                1int
            } else {
                0int
            }),
        )
    }
}

/// Whether no counter stands above `n`.
#[verifier::opaque]
pub open spec fn none_above(c: Counts, n: int) -> bool {
    forall|k: Seq<char>| #[trigger] stats::count_at(c, k) <= n
}

proof fn lemma_has_room(c: Counts, n: int, k: Seq<char>)
    requires
        none_above(c, n),
        n < u64::MAX,
    ensures
        stats::has_room(c, k, 1),
{
    reveal(none_above);
    assert(stats::count_at(c, k) <= n);
}

impl BgRun {
    /// Work that begins at a seed.
    pub fn start(seed: u64) -> (run: BgRun)
        ensures
            run@ == (BgView {
                phase: BgPhase::Connect,
                rng: seed,
                rounds: 0,
                stats: Map::empty(),
            }),
            run.stats.wf(),
            run@.wf(),
    {
        proof {
            reveal(none_above);
        }
        BgRun { phase: BgPhase::Connect, rng: Prng(seed), rounds: 0, stats: Stats::new() }
    }

    fn ask(self, phase: BgPhase, action: BgAction) -> (out: (BgRun, BgTurn))
        requires
            self.stats.wf(),
        ensures
            is_turn(self@.ask(phase, action@), out.0, out.1),
    {
        let run = BgRun { phase, ..self };
        (run, BgTurn { action, violations: no_violation() })
    }

    fn bumped(self, k: &'static str) -> (run: BgRun)
        requires
            self.stats.wf(),
            stats::has_room(self@.stats, k@, 1),
        ensures
            run.stats.wf(),
            run@ == self@.bumped(k@),
    {
        let mut run = self;
        run.stats.bump(k);
        run
    }

    fn rest(self) -> (out: (BgRun, BgTurn))
        requires
            self.stats.wf(),
        ensures
            is_turn(self@.rest(), out.0, out.1),
    {
        let mut run = self;
        let ms: u64 = run.rng.range(0, 5);
        run.ask(BgPhase::Pause, BgAction::Sleep(ms))
    }

    fn on_poll(self, stop: bool) -> (out: (BgRun, BgTurn))
        requires
            self.stats.wf(),
        ensures
            is_turn(self@.on_poll(stop), out.0, out.1),
    {
        if stop || self.rounds >= MAX_ROUNDS {
            return self.ask(BgPhase::Close, BgAction::Close);
        }
        let mut run = self;
        run.rounds = run.rounds + 1;
        let roll: u64 = run.rng.range(0, 9);
        if roll <= 3 {
            run.ask(BgPhase::Begin, BgAction::Exec("BEGIN".to_owned()))
        } else if roll <= 5 {
            run.ask(BgPhase::Count, BgAction::Exec("SELECT count(*) FROM kv".to_owned()))
        } else {
            let mode = draw_mode(&mut run.rng);
            run.ask(BgPhase::Checkpoint, BgAction::Checkpoint(mode))
        }
    }

    fn on_first(self, first: Look) -> (out: (BgRun, BgTurn))
        requires
            self.stats.wf(),
        ensures
            is_turn(self@.on_first(first), out.0, out.1),
    {
        let mut run = self;
        let ms: u64 = run.rng.range(0, 3);
        run.ask(BgPhase::Between { first }, BgAction::Sleep(ms))
    }

    fn on_second(self, first: Look, second: Look) -> (out: (BgRun, BgTurn))
        requires
            self.stats.wf(),
            stats::has_room(self@.stats, "bg-read-tx"@, 1),
        ensures
            is_turn(self@.on_second(first, second), out.0, out.1),
    {
        match (first, second) {
            (Some(a), Some(b)) => {
                let violations = if a.digest != b.digest {
                    let mut detail = "bg reader saw rows=".to_owned();
                    push_unsigned(&mut detail, a.rows as u64);
                    detail.append(" then rows=");
                    push_unsigned(&mut detail, b.rows as u64);
                    detail.append(" in one read tx");
                    one_violation("snapshot-isolation-violated-bg", detail)
                } else {
                    no_violation()
                };
                let run = self.bumped("bg-read-tx");
                let (run, turn) = run.ask(
                    BgPhase::Commit,
                    BgAction::Exec("COMMIT".to_owned()),
                );
                (run, BgTurn { violations, ..turn })
            },
            _ => self.ask(BgPhase::Commit, BgAction::Exec("COMMIT".to_owned())),
        }
    }

    fn on_checkpoint(self, done: bool, busy: bool) -> (out: (BgRun, BgTurn))
        requires
            self.stats.wf(),
            none_above(self@.stats, MAX_ROUNDS as int),
        ensures
            is_turn(self@.on_checkpoint(done, busy), out.0, out.1),
    {
        let k: &'static str = if done {
            "bg-checkpoint-ok"
        } else if busy {
            "bg-checkpoint-busy"
        } else {
            "bg-checkpoint-error"
        };
        proof {
            lemma_has_room(self.stats@, MAX_ROUNDS as int, k@);
        }
        let run = self.bumped(k);
        run.rest()
    }

    /// Takes the next turn of the work, on what came of the last one.
    pub fn resume(self, ev: BgEvent) -> (out: (BgRun, BgTurn))
        requires
            self.stats.wf(),
            self@.wf(),
            self@.awaits(ev),
        ensures
            is_turn(self@.step(ev), out.0, out.1),
            out.0@.wf(),
    {
        proof {
            lemma_step_keeps_wf(self@, ev);
            if !(self.phase is Over) {
                lemma_none_above(self@);
                lemma_has_room(self.stats@, MAX_ROUNDS as int, "bg-connect-failed"@);
                lemma_has_room(self.stats@, MAX_ROUNDS as int, "bg-read-tx"@);
                lemma_has_room(self.stats@, MAX_ROUNDS as int, "bg-count"@);
            }
        }
        match (self.phase, ev) {
            (BgPhase::Connect, BgEvent::Connected(true)) => {
                self.ask(
                    BgPhase::Setup,
                    BgAction::Exec("PRAGMA data_sync_retry=ON".to_owned()),
                )
            },
            (BgPhase::Connect, _) => {
                let run = self.bumped("bg-connect-failed");
                run.ask(BgPhase::Over, BgAction::Finish)
            },
            (BgPhase::Setup, _) => self.ask(BgPhase::Poll, BgAction::Poll),
            (BgPhase::Poll, BgEvent::Stop(stop)) => self.on_poll(stop),
            (BgPhase::Begin, BgEvent::Sql(true)) => {
                self.ask(BgPhase::First, BgAction::ReadDigest)
            },
            (BgPhase::Begin, _) => self.rest(),
            (BgPhase::First, BgEvent::Digest(r)) => {
                let first = looked(r);
                self.on_first(first)
            },
            (BgPhase::Between { first }, _) => {
                self.ask(BgPhase::Second { first }, BgAction::ReadDigest)
            },
            (BgPhase::Second { first }, BgEvent::Digest(r)) => {
                let second = looked(r);
                self.on_second(first, second)
            },
            (BgPhase::Commit, _) => self.rest(),
            (BgPhase::Count, BgEvent::Sql(true)) => {
                let run = self.bumped("bg-count");
                run.rest()
            },
            (BgPhase::Count, _) => self.rest(),
            (BgPhase::Checkpoint, BgEvent::Checkpointed { done, busy }) => {
                self.on_checkpoint(done, busy)
            },
            (BgPhase::Pause, _) => self.ask(BgPhase::Poll, BgAction::Poll),
            _ => self.ask(BgPhase::Over, BgAction::Finish),
        }
    }
}

proof fn lemma_none_above(run: BgView)
    requires
        run.wf(),
        !(run.phase is Over),
    ensures
        none_above(run.stats, MAX_ROUNDS as int),
{
    reveal(none_above);
}

proof fn lemma_step_keeps_wf(run: BgView, ev: BgEvent)
    requires
        run.wf(),
        run.awaits(ev),
    ensures
        run.step(ev).run.wf(),
{
    reveal(none_above);
    let after = run.step(ev).run;
    assert forall|k: Seq<char>| !(run.phase is Over) implies #[trigger] stats::count_at(
        after.stats,
        k,
    ) <= stats::count_at(run.stats, k) + (if run.uncounted() {
        1int
    } else {
        0int
    }) || after.phase is Over by {}
}

/// A bound on the turns that are left.
pub open spec fn turns_left(run: BgView) -> int {
    let rounds = 8 * (MAX_ROUNDS - run.rounds);
    match run.phase {
        BgPhase::Connect => rounds + 11,
        BgPhase::Setup => rounds + 10,
        BgPhase::Poll => rounds + 2,
        BgPhase::Begin => rounds + 9,
        BgPhase::First => rounds + 8,
        BgPhase::Between { .. } => rounds + 7,
        BgPhase::Second { .. } => rounds + 6,
        BgPhase::Commit => rounds + 5,
        BgPhase::Count => rounds + 5,
        BgPhase::Checkpoint => rounds + 5,
        BgPhase::Pause => rounds + 4,
        BgPhase::Close => 1,
        BgPhase::Over => 0,
    }
}

/// Every turn brings the end of the work closer.
pub proof fn law_every_turn_brings_the_end_closer(run: BgView, ev: BgEvent)
    requires
        run.wf(),
        run.awaits(ev),
    ensures
        0 <= turns_left(run.step(ev).run) < turns_left(run),
        turns_left(run.step(ev).run) == 0 <==> run.step(ev).action is Finish,
{
}

/// Once it is told to stop, the work goes on only to close the connection.
pub proof fn law_stops_when_told(run: BgView)
    requires
        run.phase is Poll,
    ensures
        run.step(BgEvent::Stop(true)).action is Close,
        run.step(BgEvent::Stop(true)).run.step(BgEvent::Closed).action is Finish,
        run.step(BgEvent::Stop(true)).run.stats == run.stats,
{
}

/// Within one read transaction, two looks are reported exactly where both
/// succeed and differ.
pub proof fn law_moved_snapshot_is_reported(run: BgView, first: Look, second: Look)
    ensures
        run.on_second(first, second).violations.len() == 0 <==> !(first is Some && second is Some
            && first->0.digest != second->0.digest),
{
}

/// How a round begins: by one draw out of ten, four times a read transaction,
/// twice a count query, else a checkpoint of a mode that is drawn next. After
/// four hundred rounds, or when told to stop, the connection is closed.
pub proof fn law_rounds_are_drawn(run: BgView, stop: bool)
    requires
        run.phase is Poll,
    ensures
        ({
            let step = run.step(BgEvent::Stop(stop));
            let roll = prng::prng_draw(run.rng) % 10;
            let rng1 = prng::prng_advance(run.rng);
            &&& step.violations.len() == 0
            &&& step.run.stats == run.stats
            &&& if stop || run.rounds >= 400 {
                &&& step.run.phase is Close
                &&& step.action is Close
                &&& step.run.rounds == run.rounds
                &&& step.run.rng == run.rng
            } else {
                &&& step.run.rounds == run.rounds + 1
                &&& roll < 4 ==> {
                    &&& step.run.phase is Begin
                    &&& step.action == BgActionView::Exec("BEGIN"@)
                    &&& step.run.rng == rng1
                }
                &&& 4 <= roll < 6 ==> {
                    &&& step.run.phase is Count
                    &&& step.action == BgActionView::Exec("SELECT count(*) FROM kv"@)
                    &&& step.run.rng == rng1
                }
                &&& 6 <= roll ==> {
                    &&& step.run.phase is Checkpoint
                    &&& step.action == BgActionView::Checkpoint(checkpoint::mode_drawn(rng1))
                    &&& step.run.rng == prng::prng_advance(rng1)
                }
            }
        }),
{
}

/// How a read transaction goes: two looks with a pause of up to three
/// milliseconds between them, each as it was; then it ends, and only a pair of
/// looks that both succeeded is counted.
pub proof fn law_two_looks_in_one_transaction(
    run: BgView,
    first: Look,
    d: Result<(u64, usize), Fail>,
    good: bool,
)
    ensures
        run.phase is Begin && good ==> {
            let step = run.step(BgEvent::Sql(good));
            step.run == (BgView { phase: BgPhase::First, ..run }) && step.action is ReadDigest
        },
        run.phase is First ==> {
            let step = run.step(BgEvent::Digest(d));
            let seen = match d {
                Ok((digest, rows)) => Some(ReaderWindow { digest, rows }),
                Err(_) => None,
            };
            &&& step.run.phase == BgPhase::Between { first: seen }
            &&& step.action == BgActionView::Sleep((prng::prng_draw(run.rng) % 4) as u64)
            &&& step.run.rng == prng::prng_advance(run.rng)
            &&& step.run.stats == run.stats
        },
        run.phase == (BgPhase::Between { first }) ==> {
            let step = run.step(BgEvent::Slept);
            &&& step.run == (BgView { phase: BgPhase::Second { first }, ..run })
            &&& step.action is ReadDigest
        },
        run.phase == (BgPhase::Second { first }) ==> {
            let step = run.step(BgEvent::Digest(d));
            let both = first is Some && d is Ok;
            &&& step.run.phase is Commit
            &&& step.action == BgActionView::Exec("COMMIT"@)
            &&& step.run.rng == run.rng
            &&& step.run.stats == (if both {
                run.bumped("bg-read-tx"@).stats
            } else {
                run.stats
            })
            &&& both && first->0.digest != d->Ok_0.0 ==> step.violations == seq![
                ViolationView {
                    label: "snapshot-isolation-violated-bg"@,
                    detail: "bg reader saw rows="@ + text::decimal(first->0.rows as int)
                        + " then rows="@ + text::decimal(d->Ok_0.1 as int) + " in one read tx"@,
                },
            ]
            &&& !(both && first->0.digest != d->Ok_0.0) ==> step.violations.len() == 0
        },
{
}

/// How a round ends: what came of it is counted under its own name, and there is
/// a pause of up to five milliseconds. A transaction that could not begin, and a
/// count that failed, are counted under none.
pub proof fn law_rounds_are_counted(run: BgView, good: bool, done: bool, busy: bool)
    ensures
        ({
            let pause = BgActionView::Sleep((prng::prng_draw(run.rng) % 6) as u64);
            let rng1 = prng::prng_advance(run.rng);
            &&& run.phase is Count ==> {
                let step = run.step(BgEvent::Sql(good));
                &&& step.action == pause && step.run.phase is Pause && step.run.rng == rng1
                &&& step.run.stats == (if good {
                    run.bumped("bg-count"@).stats
                } else {
                    run.stats
                })
            }
            &&& run.phase is Commit || (run.phase is Begin && !good) ==> {
                let step = run.step(BgEvent::Sql(good));
                &&& step.action == pause && step.run.phase is Pause && step.run.rng == rng1
                &&& step.run.stats == run.stats
            }
            &&& run.phase is Checkpoint ==> {
                let step = run.step(BgEvent::Checkpointed { done, busy });
                &&& step.action == pause && step.run.phase is Pause && step.run.rng == rng1
                &&& step.run.stats == run.bumped(
                    if done {
                        "bg-checkpoint-ok"@
                    } else if busy {
                        "bg-checkpoint-busy"@
                    } else {
                        "bg-checkpoint-error"@
                    },
                ).stats
            }
        }),
{
}

/// How the work begins and ends: a connection that could not be made is counted
/// and ends it; one that was made is set up first, and is closed at the end.
pub proof fn law_work_begins_and_ends(run: BgView, made: bool, good: bool)
    ensures
        run.phase is Connect && made ==> {
            let step = run.step(BgEvent::Connected(made));
            &&& step.run == (BgView { phase: BgPhase::Setup, ..run })
            &&& step.action == BgActionView::Exec("PRAGMA data_sync_retry=ON"@)
        },
        run.phase is Connect && !made ==> {
            let step = run.step(BgEvent::Connected(made));
            &&& step.run.phase is Over
            &&& step.action is Finish
            &&& step.run.stats == run.bumped("bg-connect-failed"@).stats
        },
        run.phase is Setup ==> {
            let step = run.step(BgEvent::Sql(good));
            step.run == (BgView { phase: BgPhase::Poll, ..run }) && step.action is Poll
        },
        run.phase is Pause ==> {
            let step = run.step(BgEvent::Slept);
            step.run == (BgView { phase: BgPhase::Poll, ..run }) && step.action is Poll
        },
        run.phase is Close ==> run.step(BgEvent::Closed).action is Finish && run.step(
            BgEvent::Closed,
        ).run.stats == run.stats,
{
}

/// Counting one thing raises one counter by one and leaves the others.
pub proof fn law_one_thing_is_counted(run: BgView, k: Seq<char>, j: Seq<char>)
    requires
        !run.stats.contains_key(k) || run.stats[k] < u64::MAX,
    ensures
        run.bumped(k).stats.contains_key(k),
        run.bumped(k).stats[k] == (if run.stats.contains_key(k) {
            run.stats[k] + 1
        } else {
            1
        }),
        j != k ==> (run.bumped(k).stats.contains_key(j) <==> run.stats.contains_key(j)),
        j != k ==> run.bumped(k).stats[j] == run.stats[j],
        run.bumped(k).rng == run.rng,
        run.bumped(k).rounds == run.rounds,
        run.bumped(k).phase == run.phase,
{
}

} // verus!
