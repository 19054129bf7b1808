//! Fault and reordering decisions of the I/O layer.
//!
//! A file operation that is submitted may be failed, cut short, followed by a
//! power cut, or held in a queue and performed later, in a seeded order. Which
//! of these happens is a pure function of the seed and of what was armed.

use crate::prng;
use crate::prng::Prng;
use std::collections::VecDeque;
use vstd::prelude::*;

verus! {

/// The errno that an injected failure carries (EIO).
pub const INJECTED_ERRNO: i32 = 5;

/// Which file operation an armed one-shot fault targets.
#[derive(Clone, Copy, Debug, PartialEq, Eq, Structural)]
pub enum OpKind {
    Pread,
    Pwrite,
    Pwritev,
    Sync,
    Truncate,
}

impl OpKind {
    /// The name under which the operation is reported.
    pub open spec fn name(self) -> &'static str {
        match self {
            OpKind::Pread => "pread",
            OpKind::Pwrite => "pwrite",
            OpKind::Pwritev => "pwritev",
            OpKind::Sync => "sync",
            OpKind::Truncate => "truncate",
        }
    }

    /// The name under which the operation is reported.
    pub fn label(self) -> (s: &'static str)
        ensures
            s@ == self.name()@,
    {
        match self {
            OpKind::Pread => "pread",
            OpKind::Pwrite => "pwrite",
            OpKind::Pwritev => "pwritev",
            OpKind::Sync => "sync",
            OpKind::Truncate => "truncate",
        }
    }
}

/// What becomes of an operation that is submitted.
#[derive(Clone, Copy, Debug, PartialEq, Eq, Structural)]
pub enum Submission {
    /// It fails at once with `INJECTED_ERRNO`; nothing is performed.
    Fail,
    /// It is performed, and then the power goes out.
    RunThenCut,
    /// It reads at most this many bytes and reports how many it got.
    ShortRead(usize),
    /// It is put in the queue and performed by a later step.
    Defer,
    /// It is performed at once.
    Inline,
}

/// Whether entry `i` is the first one whose turn has come for `kind`.
pub open spec fn due_at(armed: Seq<(OpKind, u32)>, kind: OpKind, i: int) -> bool {
    &&& 0 <= i < armed.len()
    &&& armed[i] == (kind, 0u32)
    &&& forall|j: int| 0 <= j < i ==> #[trigger] armed[j] != (kind, 0u32)
}

/// Whether an operation of `kind` uses up an armed entry.
pub open spec fn fires(armed: Seq<(OpKind, u32)>, kind: OpKind) -> bool {
    exists|i: int| due_at(armed, kind, i)
}

/// An entry once an operation of `kind` has gone by: one of that kind that is
/// still to let operations pass has one fewer to let pass.
pub open spec fn passed(e: (OpKind, u32), kind: OpKind) -> (OpKind, u32) {
    if e.0 == kind && e.1 > 0 {
        (kind, (e.1 - 1) as u32)
    } else {
        e
    }
}

/// Every entry once an operation of `kind` has gone by.
pub open spec fn all_passed(armed: Seq<(OpKind, u32)>, kind: OpKind) -> Seq<(OpKind, u32)> {
    armed.map_values(|e: (OpKind, u32)| passed(e, kind))
}

/// What is armed after one operation of `kind`: it has gone by for every entry,
/// and the first one whose turn had come is gone.
pub open spec fn after_op(armed: Seq<(OpKind, u32)>, kind: OpKind) -> Seq<(OpKind, u32)> {
    if fires(armed, kind) {
        all_passed(armed, kind).remove(choose|i: int| due_at(armed, kind, i))
    } else {
        all_passed(armed, kind)
    }
}

/// Whether entry `i` is the first short read whose turn has come.
pub open spec fn short_due_at(armed: Seq<(u32, usize)>, i: int) -> bool {
    &&& 0 <= i < armed.len()
    &&& armed[i].0 == 0
    &&& forall|j: int| 0 <= j < i ==> (#[trigger] armed[j]).0 != 0
}

/// Whether a read uses up an armed short read.
pub open spec fn short_fires(armed: Seq<(u32, usize)>) -> bool {
    exists|i: int| short_due_at(armed, i)
}

/// The length to which a read is cut, if it is.
pub open spec fn short_len(armed: Seq<(u32, usize)>) -> Option<usize> {
    if short_fires(armed) {
        Some(armed[choose|i: int| short_due_at(armed, i)].1)
    } else {
        None
    }
}

/// An armed short read once a read has gone by: one that is still to let reads
/// pass has one fewer to let pass.
pub open spec fn read_passed(e: (u32, usize)) -> (u32, usize) {
    if e.0 > 0 {
        ((e.0 - 1) as u32, e.1)
    } else {
        e
    }
}

/// Every armed short read once a read has gone by.
pub open spec fn all_read_passed(armed: Seq<(u32, usize)>) -> Seq<(u32, usize)> {
    armed.map_values(|e: (u32, usize)| read_passed(e))
}

/// The armed short reads after one read: it has gone by for every one of them,
/// and the first one whose turn had come is gone.
pub open spec fn after_read(armed: Seq<(u32, usize)>) -> Seq<(u32, usize)> {
    if short_fires(armed) {
        all_read_passed(armed).remove(choose|i: int| short_due_at(armed, i))
    } else {
        all_read_passed(armed)
    }
}

/// Decisions of the I/O layer, as mathematical values.
#[verifier::ext_equal]
pub struct IoView<T> {
    /// Operations held back, in the order in which they were submitted.
    pub pending: Seq<T>,
    /// State of the generator.
    pub rng: u64,
    pub defer_permille: u64,
    pub reorder: bool,
    pub hold_back_permille: u64,
    pub deferred_ops: u64,
    pub reordered_steps: u64,
    pub steps: u64,
    pub armed: Seq<(OpKind, u32)>,
    pub armed_crash: Seq<(OpKind, u32)>,
    pub armed_short: Seq<(u32, usize)>,
    pub injected_failures: u64,
}

impl<T> IoView<T> {
    /// A fresh layer: nothing armed, nothing queued, nothing counted.
    pub open spec fn fresh(
        seed: u64,
        defer_permille: u64,
        reorder: bool,
        hold_back_permille: u64,
    ) -> Self {
        IoView {
            pending: Seq::empty(),
            rng: seed,
            defer_permille,
            reorder,
            hold_back_permille,
            deferred_ops: 0,
            reordered_steps: 0,
            steps: 0,
            armed: Seq::empty(),
            armed_crash: Seq::empty(),
            armed_short: Seq::empty(),
            injected_failures: 0,
        }
    }

    /// After the armed failures have been asked about an operation of `kind`.
    pub open spec fn failure_taken(self, kind: OpKind) -> Self {
        IoView {
            armed: after_op(self.armed, kind),
            injected_failures: if fires(self.armed, kind) {
                self.injected_failures.wrapping_add(1)
            } else {
                self.injected_failures
            },
            ..self
        }
    }

    /// After the armed power cuts have been asked about an operation of `kind`.
    pub open spec fn crash_taken(self, kind: OpKind) -> Self {
        IoView { armed_crash: after_op(self.armed_crash, kind), ..self }
    }

    /// After an operation of `kind` has gone by for the armed power cuts.
    pub open spec fn crash_passed(self, kind: OpKind) -> Self {
        IoView { armed_crash: all_passed(self.armed_crash, kind), ..self }
    }

    /// After an operation of `kind` has gone by for the armed short reads.
    pub open spec fn short_passed(self, kind: OpKind) -> Self {
        IoView {
            armed_short: if kind == OpKind::Pread {
                all_read_passed(self.armed_short)
            } else {
                self.armed_short
            },
            ..self
        }
    }

    /// After the armed short reads have been asked about a read.
    pub open spec fn short_taken(self) -> Self {
        IoView {
            armed_short: after_read(self.armed_short),
            injected_failures: if short_fires(self.armed_short) {
                self.injected_failures.wrapping_add(1)
            } else {
                self.injected_failures
            },
            ..self
        }
    }

    /// Whether the operation that is submitted now is deferred.
    pub open spec fn defers(self) -> bool {
        self.defer_permille != 0 && prng::prng_hit(self.rng, self.defer_permille)
    }

    /// After the draw that decides about deferring; there is none where
    /// deferring is off.
    pub open spec fn defer_drawn(self) -> Self {
        IoView {
            rng: if self.defer_permille == 0 {
                self.rng
            } else {
                prng::prng_advance(self.rng)
            },
            ..self
        }
    }

    /// What becomes of an operation of `kind` that is submitted now.
    pub open spec fn submission(self, kind: OpKind) -> Submission {
        if fires(self.armed, kind) {
            Submission::Fail
        } else if fires(self.armed_crash, kind) {
            Submission::RunThenCut
        } else if kind == OpKind::Pread && short_fires(self.armed_short) {
            Submission::ShortRead(short_len(self.armed_short)->0)
        } else if self.defers() {
            Submission::Defer
        } else {
            Submission::Inline
        }
    }

    /// The layer after that decision. Whatever becomes of the operation, it has
    /// gone by for everything that is armed; what was due on it and did not get
    /// its turn stays due.
    pub open spec fn submitted(self, kind: OpKind) -> Self {
        let a = self.failure_taken(kind);
        let b = a.crash_taken(kind);
        if fires(self.armed, kind) {
            a.crash_passed(kind).short_passed(kind)
        } else if fires(self.armed_crash, kind) {
            b.short_passed(kind)
        } else if kind != OpKind::Pread {
            b.defer_drawn()
        } else if short_fires(self.armed_short) {
            b.short_taken()
        } else {
            b.short_taken().defer_drawn()
        }
    }

    /// The layer after a run of operations.
    pub open spec fn submitted_all(self, ops: Seq<OpKind>) -> Self
        decreases ops.len(),
    {
        if ops.len() == 0 {
            self
        } else {
            self.submitted_all(ops.drop_last()).submitted(ops.last())
        }
    }

    /// Whether everything that is armed for `kind` is placed on an operation of
    /// its own.
    pub open spec fn all_apart(self, kind: OpKind) -> bool {
        &&& apart(self.armed, kind)
        &&& apart(self.armed_crash, kind)
        &&& kind == OpKind::Pread ==> short_apart(self.armed_short)
        &&& forall|n: int| placed_on(self.armed, kind, n) ==> !placed_on(self.armed_crash, kind, n)
        &&& kind == OpKind::Pread ==> forall|n: int, bytes: usize|
            #[trigger] short_placed_on(self.armed_short, n, bytes) ==> !placed_on(
                self.armed,
                kind,
                n,
            ) && !placed_on(self.armed_crash, kind, n)
    }

    /// Whether a step asks if the last queued operation stays for the next one.
    pub open spec fn asks_to_hold(self, ran: bool) -> bool {
        self.pending.len() == 1 && self.hold_back_permille > 0 && ran
    }

    /// Whether a step that has (`ran`) or has not run an operation yet ends now.
    pub open spec fn step_ends(self, ran: bool) -> bool {
        self.pending.len() == 0 || (self.asks_to_hold(ran) && prng::prng_hit(
            self.rng,
            self.hold_back_permille,
        ))
    }

    /// The generator once that question has been put.
    pub open spec fn hold_drawn(self, ran: bool) -> Self {
        IoView {
            rng: if self.asks_to_hold(ran) {
                prng::prng_advance(self.rng)
            } else {
                self.rng
            },
            ..self
        }
    }

    /// Whether the order of the queue is drawn.
    pub open spec fn draws_order(self) -> bool {
        self.reorder && self.pending.len() > 1
    }

    /// Which queued operation is performed next.
    pub open spec fn next_index(self) -> int {
        if self.draws_order() {
            prng::prng_pick(self.rng, 0, (self.pending.len() - 1) as u64) as int
        } else {
            0
        }
    }

    /// The layer after that operation has left the queue.
    pub open spec fn op_taken(self) -> Self {
        IoView {
            pending: self.pending.remove(self.next_index()),
            rng: if self.draws_order() {
                prng::prng_advance(self.rng)
            } else {
                self.rng
            },
            reordered_steps: if self.next_index() != 0 {
                self.reordered_steps.wrapping_add(1)
            } else {
                self.reordered_steps
            },
            ..self
        }
    }

    /// The operations that the rest of a step performs, in order, when nothing
    /// is submitted meanwhile, and the layer after it.
    pub open spec fn drained(self, ran: bool) -> (Seq<T>, Self)
        decreases self.pending.len(),
    {
        let s = self.hold_drawn(ran);
        if self.step_ends(ran) || !(0 <= s.next_index() < s.pending.len()) {
            (Seq::empty(), s)
        } else {
            let (rest, end) = s.op_taken().drained(true);
            (seq![s.pending[s.next_index()]] + rest, end)
        }
    }

    /// The operations that a step performs, in order, when nothing is submitted
    /// meanwhile, and the layer after it.
    pub open spec fn stepped(self) -> (Seq<T>, Self) {
        (IoView { steps: self.steps.wrapping_add(1), ..self }).drained(false)
    }
}

/// Remembers, for the length of one step, whether an operation has been
/// performed, so that the hold-back rule can never starve a waiter: a step
/// always performs at least one queued operation.
pub struct StepRun {
    pub ran: bool,
}

impl StepRun {
    /// A step that has performed nothing yet.
    pub fn begin() -> (run: StepRun)
        ensures
            !run.ran,
    {
        StepRun { ran: false }
    }

    /// Whether this step has performed an operation.
    pub fn held_this_step(&self) -> (ran: bool)
        ensures
            ran == self.ran,
    {
        self.ran
    }

    /// Notes that this step has performed an operation.
    pub fn mark_ran_this_step(&mut self)
        ensures
            final(self).ran,
    {
        self.ran = true;
    }
}

/// The I/O layer's state: what is armed, what is queued, and the generator.
/// `T` stands for a queued operation.
pub struct DetIoState<T> {
    /// Operations held back, in the order in which they were submitted.
    pub pending: VecDeque<T>,
    pub rng: Prng,
    /// Per-op probability (permille) that an op is deferred instead of done inline.
    pub defer_permille: u64,
    /// Whether a step drains in a seeded order (reordering completions).
    pub reorder: bool,
    /// Probability (permille) that a step leaves one op behind for the next step.
    pub hold_back_permille: u64,
    pub deferred_ops: u64,
    pub reordered_steps: u64,
    pub steps: u64,
    /// Armed failures: `(kind, remaining ops of that kind to skip)`. When the
    /// counter is zero the next op of that kind fails at submit time.
    pub armed: Vec<(OpKind, u32)>,
    /// Armed power cuts: the op of that kind is performed, then the power
    /// goes out.
    pub armed_crash: Vec<(OpKind, u32)>,
    /// Armed short reads: `(skip, bytes)`.
    pub armed_short: Vec<(u32, usize)>,
    pub injected_failures: u64,
}

impl<T> View for DetIoState<T> {
    type V = IoView<T>;

    open spec fn view(&self) -> IoView<T> {
        IoView {
            pending: self.pending@,
            rng: self.rng.0,
            defer_permille: self.defer_permille,
            reorder: self.reorder,
            hold_back_permille: self.hold_back_permille,
            deferred_ops: self.deferred_ops,
            reordered_steps: self.reordered_steps,
            steps: self.steps,
            armed: self.armed@,
            armed_crash: self.armed_crash@,
            armed_short: self.armed_short@,
            injected_failures: self.injected_failures,
        }
    }
}

/// Lets one operation of `kind` go by for every entry.
fn let_pass(armed: &mut Vec<(OpKind, u32)>, kind: OpKind)
    ensures
        final(armed)@ == all_passed(old(armed)@, kind),
{
    let ghost before = armed@;
    let mut i: usize = 0;
    while i < armed.len()
        invariant
            i <= armed.len(),
            armed.len() == before.len(),
            forall|j: int| 0 <= j < i ==> #[trigger] armed@[j] == passed(before[j], kind),
            forall|j: int| i <= j < before.len() ==> #[trigger] armed@[j] == before[j],
        decreases armed.len() - i,
    {
        let entry: (OpKind, u32) = armed[i];
        if entry.0 == kind && entry.1 > 0 {
            armed.set(i, (kind, entry.1 - 1));
        }
        i += 1;
    }
    proof {
        assert(armed@ =~= all_passed(before, kind));
    }
}

/// The first entry whose turn has come for `kind`.
fn find_due(armed: &Vec<(OpKind, u32)>, kind: OpKind) -> (due: Option<usize>)
    ensures
        match due {
            Some(d) => due_at(armed@, kind, d as int),
            None => !fires(armed@, kind),
        },
{
    let mut i: usize = 0;
    while i < armed.len()
        invariant
            i <= armed.len(),
            forall|j: int| 0 <= j < i ==> #[trigger] armed@[j] != (kind, 0u32),
        decreases armed.len() - i,
    {
        if armed[i].0 == kind && armed[i].1 == 0 {
            return Some(i);
        }
        i += 1;
    }
    None
}

/// Lets one operation of `kind` go by for every entry, and tells whether it
/// used one up.
fn take_armed(armed: &mut Vec<(OpKind, u32)>, kind: OpKind) -> (fire: bool)
    ensures
        fire == fires(old(armed)@, kind),
        final(armed)@ == after_op(old(armed)@, kind),
{
    let due = find_due(armed, kind);
    let_pass(armed, kind);
    match due {
        Some(d) => {
            proof {
                lemma_due_once(old(armed)@, kind, d as int);
            }
            armed.remove(d);
            true
        },
        None => false,
    }
}

/// Lets one read go by for every armed short read.
fn let_read_pass(armed: &mut Vec<(u32, usize)>)
    ensures
        final(armed)@ == all_read_passed(old(armed)@),
{
    let ghost before = armed@;
    let mut i: usize = 0;
    while i < armed.len()
        invariant
            i <= armed.len(),
            armed.len() == before.len(),
            forall|j: int| 0 <= j < i ==> #[trigger] armed@[j] == read_passed(before[j]),
            forall|j: int| i <= j < before.len() ==> #[trigger] armed@[j] == before[j],
        decreases armed.len() - i,
    {
        let entry: (u32, usize) = armed[i];
        if entry.0 > 0 {
            armed.set(i, (entry.0 - 1, entry.1));
        }
        i += 1;
    }
    proof {
        assert(armed@ =~= all_read_passed(before));
    }
}

/// The first short read whose turn has come.
fn find_short_due(armed: &Vec<(u32, usize)>) -> (due: Option<usize>)
    ensures
        match due {
            Some(d) => short_due_at(armed@, d as int),
            None => !short_fires(armed@),
        },
{
    let mut i: usize = 0;
    while i < armed.len()
        invariant
            i <= armed.len(),
            forall|j: int| 0 <= j < i ==> (#[trigger] armed@[j]).0 != 0,
        decreases armed.len() - i,
    {
        if armed[i].0 == 0 {
            return Some(i);
        }
        i += 1;
    }
    None
}

proof fn lemma_due_once(armed: Seq<(OpKind, u32)>, kind: OpKind, d: int)
    requires
        due_at(armed, kind, d),
    ensures
        fires(armed, kind),
        (choose|i: int| due_at(armed, kind, i)) == d,
{
    let c = choose|i: int| due_at(armed, kind, i);
    assert(due_at(armed, kind, c));
    if c < d {
        assert(armed[c] != (kind, 0u32));
    } else if d < c {
        assert(armed[d] != (kind, 0u32));
    }
}

proof fn lemma_short_due_once(armed: Seq<(u32, usize)>, d: int)
    requires
        short_due_at(armed, d),
    ensures
        short_fires(armed),
        (choose|i: int| short_due_at(armed, i)) == d,
{
    let c = choose|i: int| short_due_at(armed, i);
    assert(short_due_at(armed, c));
    if c < d {
        assert(armed[c].0 != 0);
    } else if d < c {
        assert(armed[d].0 != 0);
    }
}

/// The I/O layer.
pub struct DetIo<T> {
    pub state: DetIoState<T>,
}

impl<T> DetIo<T> {
    /// A layer with nothing armed and nothing queued.
    pub fn new(seed: u64, defer_permille: u64, reorder: bool, hold_back_permille: u64) -> (io: Self)
        ensures
            io.state@ == IoView::<T>::fresh(seed, defer_permille, reorder, hold_back_permille),
    {
        let state = DetIoState {
            pending: VecDeque::new(),
            rng: Prng(seed),
            defer_permille,
            reorder,
            hold_back_permille,
            deferred_ops: 0,
            reordered_steps: 0,
            steps: 0,
            armed: Vec::new(),
            armed_crash: Vec::new(),
            armed_short: Vec::new(),
            injected_failures: 0,
        };
        proof {
            assert(state@ =~= IoView::<T>::fresh(seed, defer_permille, reorder, hold_back_permille));
        }
        DetIo { state }
    }

    /// Fails the `skip`-th next operation of `kind` (0 = the very next one).
    pub fn arm_fail(&mut self, kind: OpKind, skip: u32)
        ensures
            final(self).state@ == (IoView {
                armed: old(self).state@.armed.push((kind, skip)),
                ..old(self).state@
            }),
    {
        self.state.armed.push((kind, skip));
    }

    /// Cuts the power right after the `skip`-th next operation of `kind`.
    pub fn arm_crash(&mut self, kind: OpKind, skip: u32)
        ensures
            final(self).state@ == (IoView {
                armed_crash: old(self).state@.armed_crash.push((kind, skip)),
                ..old(self).state@
            }),
    {
        self.state.armed_crash.push((kind, skip));
    }

    /// Lets the `skip`-th next read return only `bytes` bytes.
    pub fn arm_short_read(&mut self, skip: u32, bytes: usize)
        ensures
            final(self).state@ == (IoView {
                armed_short: old(self).state@.armed_short.push((skip, bytes)),
                ..old(self).state@
            }),
    {
        self.state.armed_short.push((skip, bytes));
    }

    /// How many operations are queued.
    pub fn pending_len(&self) -> (n: usize)
        ensures
            n == self.state@.pending.len(),
    {
        self.state.pending.len()
    }

    /// One step, when nothing is submitted meanwhile: gives the operations that
    /// it performs, in order. It always performs something where anything is
    /// queued, and leaves at most one operation behind. The caller performs
    /// them and then steps the wrapped layer, whose answer is the step's.
    pub fn step(&mut self) -> (ops: Vec<T>)
        ensures
            (ops@, final(self).state@) == old(self).state@.stepped(),
            old(self).state@.pending.len() > 0 ==> ops@.len() > 0,
            final(self).state@.pending.len() <= 1,
    {
        let n: usize = self.state.pending.len();
        proof {
            assert(n == self.state@.pending.len());
            law_drain_makes_progress(
                IoView { steps: self.state@.steps.wrapping_add(1), ..self.state@ },
                false,
            );
        }
        self.state.drain()
    }
}

impl<T> DetIoState<T> {
    /// Disarms everything.
    pub fn clear_armed(&mut self)
        ensures
            final(self)@ == (IoView {
                armed: Seq::empty(),
                armed_crash: Seq::empty(),
                armed_short: Seq::empty(),
                ..old(self)@
            }),
    {
        self.armed.clear();
        self.armed_crash.clear();
        self.armed_short.clear();
        proof {
            assert(self@ =~= (IoView {
                armed: Seq::empty(),
                armed_crash: Seq::empty(),
                armed_short: Seq::empty(),
                ..old(self)@
            }));
        }
    }

    /// Uses up an armed short read, if its turn has come, and gives its length.
    pub fn take_short(&mut self) -> (bytes: Option<usize>)
        ensures
            bytes == short_len(old(self)@.armed_short),
            final(self)@ == old(self)@.short_taken(),
    {
        let due = find_short_due(&self.armed_short);
        let_read_pass(&mut self.armed_short);
        match due {
            Some(d) => {
                proof {
                    lemma_short_due_once(old(self).armed_short@, d as int);
                }
                let (_, bytes) = self.armed_short.remove(d);
                self.injected_failures = self.injected_failures.wrapping_add(1);
                Some(bytes)
            },
            None => None,
        }
    }

    /// Uses up an armed power cut for `kind`, if its turn has come.
    pub fn take_crash(&mut self, kind: OpKind) -> (fire: bool)
        ensures
            fire == fires(old(self)@.armed_crash, kind),
            final(self)@ == old(self)@.crash_taken(kind),
    {
        take_armed(&mut self.armed_crash, kind)
    }

    /// How many power cuts are armed.
    pub fn armed_crash_len(&self) -> (n: usize)
        ensures
            n == self@.armed_crash.len(),
    {
        self.armed_crash.len()
    }

    /// Sets the probability that an operation is deferred.
    pub fn set_defer_permille(&mut self, permille: u64)
        ensures
            final(self)@ == (IoView { defer_permille: permille, ..old(self)@ }),
    {
        self.defer_permille = permille;
    }

    /// Uses up an armed failure for `kind`, if its turn has come.
    pub fn take_failure(&mut self, kind: OpKind) -> (fire: bool)
        ensures
            fire == fires(old(self)@.armed, kind),
            final(self)@ == old(self)@.failure_taken(kind),
    {
        let fire: bool = take_armed(&mut self.armed, kind);
        if fire {
            self.injected_failures = self.injected_failures.wrapping_add(1);
        }
        fire
    }

    /// Draws whether the operation that is submitted now is deferred.
    pub fn should_defer(&mut self) -> (yes: bool)
        ensures
            yes == old(self)@.defers(),
            final(self)@ == old(self)@.defer_drawn(),
    {
        if self.defer_permille == 0 {
            return false;
        }
        let permille: u64 = self.defer_permille;
        self.rng.chance(permille)
    }

    fn pass_short(&mut self, kind: OpKind)
        ensures
            final(self)@ == old(self)@.short_passed(kind),
    {
        if kind == OpKind::Pread {
            let_read_pass(&mut self.armed_short);
        }
    }

    /// Decides what becomes of an operation of `kind` that is submitted now.
    pub fn submit(&mut self, kind: OpKind) -> (out: Submission)
        ensures
            out == old(self)@.submission(kind),
            final(self)@ == old(self)@.submitted(kind),
    {
        if self.take_failure(kind) {
            let_pass(&mut self.armed_crash, kind);
            self.pass_short(kind);
            return Submission::Fail;
        }
        if self.take_crash(kind) {
            self.pass_short(kind);
            return Submission::RunThenCut;
        }
        if kind == OpKind::Pread {
            if let Some(bytes) = self.take_short() {
                return Submission::ShortRead(bytes);
            }
        }
        if self.should_defer() {
            Submission::Defer
        } else {
            Submission::Inline
        }
    }

    /// Queues an operation.
    pub fn defer(&mut self, op: T)
        ensures
            final(self)@ == (IoView {
                pending: old(self)@.pending.push(op),
                deferred_ops: old(self)@.deferred_ops.wrapping_add(1),
                ..old(self)@
            }),
    {
        self.deferred_ops = self.deferred_ops.wrapping_add(1);
        self.pending.push_back(op);
    }

    /// Counts a step that begins.
    pub fn begin_step(&mut self)
        ensures
            final(self)@ == (IoView { steps: old(self)@.steps.wrapping_add(1), ..old(self)@ }),
    {
        self.steps = self.steps.wrapping_add(1);
    }

    /// Takes the operation that the step performs next out of the queue, or
    /// ends the step.
    pub fn next_op(&mut self, run: &StepRun) -> (op: Option<T>)
        ensures
            op is None <==> old(self)@.step_ends(run.ran),
            op is None ==> final(self)@ == old(self)@.hold_drawn(run.ran),
            op is Some ==> {
                let s = old(self)@.hold_drawn(run.ran);
                &&& 0 <= s.next_index() < s.pending.len()
                &&& op->0 == s.pending[s.next_index()]
                &&& final(self)@ == s.op_taken()
            },
    {
        if self.pending.len() == 0 {
            return None;
        }
        if self.pending.len() == 1 && self.hold_back_permille > 0 && run.held_this_step() {
            let permille: u64 = self.hold_back_permille;
            if self.rng.chance(permille) {
                return None;
            }
        }
        let ghost s = self@;
        if self.reorder && self.pending.len() > 1 {
            let last: u64 = self.pending.len() as u64 - 1;
            let idx: usize = self.rng.range(0, last) as usize;
            if idx != 0 {
                self.reordered_steps = self.reordered_steps.wrapping_add(1);
            }
            let op = self.pending.remove(idx);
            proof {
                assert(self@ =~= s.op_taken());
            }
            op
        } else {
            let op = self.pending.pop_front();
            proof {
                assert(self@.pending =~= s.pending.remove(0));
                assert(self@ =~= s.op_taken());
            }
            op
        }
    }

    /// Runs the queue of one step down: all of it in submission order, or, when
    /// reordering is on, in a seeded order, optionally leaving one operation
    /// behind. Gives the operations in the order in which they are performed.
    pub fn drain(&mut self) -> (ops: Vec<T>)
        ensures
            (ops@, final(self)@) == old(self)@.stepped(),
    {
        self.begin_step();
        let mut run = StepRun::begin();
        let mut ops: Vec<T> = Vec::new();
        let ghost start = self@;
        proof {
            assert(ops@ + start.drained(false).0 =~= start.drained(false).0);
        }
        loop
            invariant_except_break
                ops@ + self@.drained(run.ran).0 == start.drained(false).0,
                self@.drained(run.ran).1 == start.drained(false).1,
            ensures
                ops@ == start.drained(false).0,
                self@ == start.drained(false).1,
            decreases self.pending@.len(),
        {
            let ghost before = self@;
            let ghost so_far = ops@;
            let next: Option<T> = self.next_op(&run);
            proof {
                lemma_drained_unfolds(before, run.ran);
            }
            match next {
                None => {
                    proof {
                        assert(so_far + Seq::<T>::empty() =~= so_far);
                    }
                    break;
                },
                Some(op) => {
                    proof {
                        lemma_prepend(so_far, op, self@.drained(true).0);
                    }
                    ops.push(op);
                    run.mark_ran_this_step();
                },
            }
        }
        ops
    }
}

proof fn lemma_prepend<T>(a: Seq<T>, x: T, b: Seq<T>)
    ensures
        a + (seq![x] + b) == a.push(x) + b,
{
    assert(a + (seq![x] + b) =~= a.push(x) + b);
}

proof fn lemma_drained_unfolds<T>(s: IoView<T>, ran: bool)
    ensures
        s.step_ends(ran) ==> s.drained(ran) == (Seq::<T>::empty(), s.hold_drawn(ran)),
        !s.step_ends(ran) && 0 <= s.hold_drawn(ran).next_index() < s.pending.len() ==> {
            let h = s.hold_drawn(ran);
            s.drained(ran) == (
                seq![h.pending[h.next_index()]] + h.op_taken().drained(true).0,
                h.op_taken().drained(true).1,
            )
        },
{
}

/// How many bytes a read that is cut to `bytes` asks the file for.
pub fn short_read_len(bytes: usize, buffer: usize) -> (n: usize)
    ensures
        n == (if bytes < buffer { bytes } else { buffer }),
{
    if bytes < buffer {
        bytes
    } else {
        buffer
    }
}

/// What is armed after a run of operations.
pub open spec fn armed_after(armed: Seq<(OpKind, u32)>, ops: Seq<OpKind>) -> Seq<(OpKind, u32)>
    decreases ops.len(),
{
    if ops.len() == 0 {
        armed
    } else {
        after_op(armed_after(armed, ops.drop_last()), ops.last())
    }
}

/// Whether operation `i` of a run uses up an armed entry.
pub open spec fn fires_on(armed: Seq<(OpKind, u32)>, ops: Seq<OpKind>, i: int) -> bool {
    fires(armed_after(armed, ops.take(i)), ops[i])
}

/// How many operations of `kind` a run holds.
pub open spec fn count_of(ops: Seq<OpKind>, kind: OpKind) -> nat
    decreases ops.len(),
{
    if ops.len() == 0 {
        0
    } else {
        count_of(ops.drop_last(), kind) + if ops.last() == kind {
            1nat
        } else {
            0nat
        }
    }
}

/// The entries with another behind them: as long as that one is not due, an
/// operation goes by for the others as it would without it.
proof fn lemma_behind_not_due(armed: Seq<(OpKind, u32)>, e: (OpKind, u32), kind: OpKind)
    requires
        e != (kind, 0u32),
    ensures
        fires(armed.push(e), kind) == fires(armed, kind),
        after_op(armed.push(e), kind) == after_op(armed, kind).push(passed(e, kind)),
{
    let more = armed.push(e);
    assert(all_passed(more, kind) =~= all_passed(armed, kind).push(passed(e, kind)));
    if fires(armed, kind) {
        let d = choose|i: int| due_at(armed, kind, i);
        assert(due_at(more, kind, d)) by {
            assert forall|j: int| 0 <= j < d implies #[trigger] more[j] != (kind, 0u32) by {
                assert(more[j] == armed[j]);
            }
        }
        lemma_due_once(more, kind, d);
        assert(all_passed(more, kind).remove(d) =~= all_passed(armed, kind).remove(d).push(
            passed(e, kind),
        ));
    } else {
        assert forall|i: int| !due_at(more, kind, i) by {
            if due_at(more, kind, i) {
                assert(i < armed.len());
                assert(due_at(armed, kind, i)) by {
                    assert forall|j: int| 0 <= j < i implies #[trigger] armed[j] != (
                        kind,
                        0u32,
                    ) by {
                        assert(more[j] == armed[j]);
                    }
                }
            }
        }
    }
}

/// The entries with one behind them that is due: where none of the others is,
/// the operation uses that one up, and goes by for the others.
proof fn lemma_behind_due(armed: Seq<(OpKind, u32)>, kind: OpKind)
    ensures
        fires(armed.push((kind, 0u32)), kind),
        !fires(armed, kind) ==> after_op(armed.push((kind, 0u32)), kind) == after_op(armed, kind),
{
    let more = armed.push((kind, 0u32));
    let last = armed.len() as int;
    assert(more[last] == (kind, 0u32));
    if fires(armed, kind) {
        let d = choose|i: int| due_at(armed, kind, i);
        assert(due_at(more, kind, d)) by {
            assert forall|j: int| 0 <= j < d implies #[trigger] more[j] != (kind, 0u32) by {
                assert(more[j] == armed[j]);
            }
        }
    } else {
        assert(due_at(more, kind, last)) by {
            assert forall|j: int| 0 <= j < last implies #[trigger] more[j] != (kind, 0u32) by {
                if more[j] == (kind, 0u32) {
                    assert(armed[j] == (kind, 0u32));
                    lemma_one_is_due(armed, kind, j);
                }
            }
        }
        lemma_due_once(more, kind, last);
        assert(all_passed(more, kind).remove(last) =~= all_passed(armed, kind));
    }
}

proof fn lemma_one_is_due(armed: Seq<(OpKind, u32)>, kind: OpKind, j: int)
    requires
        0 <= j < armed.len(),
        armed[j] == (kind, 0u32),
    ensures
        fires(armed, kind),
    decreases j,
{
    if !due_at(armed, kind, j) {
        let k = choose|k: int| 0 <= k < j && #[trigger] armed[k] == (kind, 0u32);
        lemma_one_is_due(armed, kind, k);
    }
}

/// Up to its operation, an entry lets operations of its kind pass and leaves
/// the others alone.
proof fn lemma_waits(armed: Seq<(OpKind, u32)>, kind: OpKind, skip: u32, ops: Seq<OpKind>)
    requires
        count_of(ops, kind) <= skip,
    ensures
        armed_after(armed.push((kind, skip)), ops) == armed_after(armed, ops).push(
            (kind, (skip - count_of(ops, kind)) as u32),
        ),
    decreases ops.len(),
{
    if ops.len() > 0 {
        let before = ops.drop_last();
        lemma_waits(armed, kind, skip, before);
        let e = (kind, (skip - count_of(before, kind)) as u32);
        lemma_behind_not_due(armed_after(armed, before), e, ops.last());
    }
}

proof fn lemma_count_grows(ops: Seq<OpKind>, kind: OpKind, i: int, p: int)
    requires
        0 <= i <= p <= ops.len(),
    ensures
        count_of(ops.take(i), kind) <= count_of(ops.take(p), kind),
    decreases p - i,
{
    if i < p {
        lemma_count_grows(ops, kind, i, p - 1);
        assert(ops.take(p).drop_last() =~= ops.take(p - 1));
    }
}

/// Once it is used up, an entry has left no trace.
proof fn lemma_gone(
    armed: Seq<(OpKind, u32)>,
    kind: OpKind,
    skip: u32,
    ops: Seq<OpKind>,
    p: int,
    i: int,
)
    requires
        0 <= p < i <= ops.len(),
        ops[p] == kind,
        count_of(ops.take(p), kind) == skip,
        !fires_on(armed, ops, p),
    ensures
        armed_after(armed.push((kind, skip)), ops.take(i)) == armed_after(armed, ops.take(i)),
    decreases i,
{
    assert(ops.take(i).drop_last() =~= ops.take(i - 1));
    if i == p + 1 {
        lemma_waits(armed, kind, skip, ops.take(p));
        lemma_behind_due(armed_after(armed, ops.take(p)), kind);
    } else {
        lemma_gone(armed, kind, skip, ops, p, i - 1);
    }
}

/// Arming an entry for the `skip`-th next operation of a kind makes that
/// operation use an entry up, and changes nothing for any other: whatever else
/// is armed, and in whatever mix the operations come, each other one fires or
/// does not fire as it would have. (Left out is the case that something else
/// is due on the same operation, which can use up only one.)
pub proof fn law_armed_entry_fires_on_its_operation(
    armed: Seq<(OpKind, u32)>,
    kind: OpKind,
    skip: u32,
    ops: Seq<OpKind>,
    p: int,
    i: int,
)
    requires
        0 <= p < ops.len(),
        ops[p] == kind,
        count_of(ops.take(p), kind) == skip,
        !fires_on(armed, ops, p),
        0 <= i < ops.len(),
    ensures
        fires_on(armed.push((kind, skip)), ops, i) == (i == p || fires_on(armed, ops, i)),
{
    if i <= p {
        lemma_count_grows(ops, kind, i, p);
        lemma_waits(armed, kind, skip, ops.take(i));
        let others = armed_after(armed, ops.take(i));
        let e = (kind, (skip - count_of(ops.take(i), kind)) as u32);
        if i == p {
            lemma_behind_due(others, kind);
        } else {
            if ops[i] == kind {
                lemma_count_grows(ops, kind, i + 1, p);
                assert(ops.take(i + 1).drop_last() =~= ops.take(i));
            }
            lemma_behind_not_due(others, e, ops[i]);
        }
    } else {
        lemma_gone(armed, kind, skip, ops, p, i);
    }
}

/// Whether no two entries of a kind are placed on the same operation.
pub open spec fn apart(armed: Seq<(OpKind, u32)>, kind: OpKind) -> bool {
    forall|j: int, k: int|
        #![trigger armed[j], armed[k]]
        0 <= j < k < armed.len() && armed[j].0 == kind && armed[k].0 == kind ==> armed[j].1
            != armed[k].1
}

/// Whether an entry is placed on the operation of a kind that `n` others of it
/// come before.
pub open spec fn placed_on(armed: Seq<(OpKind, u32)>, kind: OpKind, n: int) -> bool {
    exists|j: int| 0 <= j < armed.len() && (#[trigger] armed[j]).0 == kind && armed[j].1 == n
}

proof fn lemma_places_move(armed: Seq<(OpKind, u32)>, kind: OpKind, op: OpKind, n: int)
    requires
        apart(armed, kind),
        n >= 0,
    ensures
        apart(after_op(armed, op), kind),
        op == kind ==> placed_on(after_op(armed, op), kind, n) == placed_on(armed, kind, n + 1),
        op != kind ==> placed_on(after_op(armed, op), kind, n) == placed_on(armed, kind, n),
{
    let out = after_op(armed, op);
    let m: int = if op == kind {
        n + 1
    } else {
        n
    };
    if fires(armed, op) {
        let d = choose|i: int| due_at(armed, op, i);
        assert forall|j: int| 0 <= j < out.len() implies #[trigger] out[j] == passed(
            armed[if j < d {
                j
            } else {
                j + 1
            }],
            op,
        ) by {}
        assert forall|j: int, k: int|
            #![trigger out[j], out[k]]
            0 <= j < k < out.len() && out[j].0 == kind && out[k].0 == kind implies out[j].1
            != out[k].1 by {
            let a = if j < d {
                j
            } else {
                j + 1
            };
            let b = if k < d {
                k
            } else {
                k + 1
            };
            assert(armed[a].1 != armed[b].1);
            assert(armed[d] == (op, 0u32));
            if op == kind {
                assert(armed[a].1 != 0);
                assert(armed[b].1 != 0);
            }
        }
        if placed_on(armed, kind, m) {
            let j = choose|j: int|
                0 <= j < armed.len() && (#[trigger] armed[j]).0 == kind && armed[j].1 == m;
            assert(j != d);
            if j < d {
                assert(out[j].0 == kind && out[j].1 == n);
            } else {
                assert(out[j - 1].0 == kind && out[j - 1].1 == n);
            }
        }
        if placed_on(out, kind, n) {
            let j = choose|j: int|
                0 <= j < out.len() && (#[trigger] out[j]).0 == kind && out[j].1 == n;
            let a = if j < d {
                j
            } else {
                j + 1
            };
            assert(armed[a].0 == kind);
            assert(armed[d] == (op, 0u32));
            if op == kind {
                assert(armed[a].1 != 0);
            }
            assert(armed[a].1 == m);
        }
    } else {
        assert forall|j: int| 0 <= j < armed.len() implies #[trigger] armed[j] != (op, 0u32) by {
            if armed[j] == (op, 0u32) {
                lemma_one_is_due(armed, op, j);
            }
        }
        assert forall|j: int| 0 <= j < out.len() implies #[trigger] out[j] == passed(
            armed[j],
            op,
        ) by {}
        assert forall|j: int, k: int|
            #![trigger out[j], out[k]]
            0 <= j < k < out.len() && out[j].0 == kind && out[k].0 == kind implies out[j].1
            != out[k].1 by {
            assert(armed[j].1 != armed[k].1);
        }
        if placed_on(armed, kind, m) {
            let j = choose|j: int|
                0 <= j < armed.len() && (#[trigger] armed[j]).0 == kind && armed[j].1 == m;
            assert(out[j].0 == kind && out[j].1 == n);
        }
        if placed_on(out, kind, n) {
            let j = choose|j: int|
                0 <= j < out.len() && (#[trigger] out[j]).0 == kind && out[j].1 == n;
            assert(armed[j].0 == kind && armed[j].1 == m);
        }
    }
}

proof fn lemma_places_after(armed: Seq<(OpKind, u32)>, kind: OpKind, ops: Seq<OpKind>, n: int)
    requires
        apart(armed, kind),
        n >= 0,
    ensures
        apart(armed_after(armed, ops), kind),
        placed_on(armed_after(armed, ops), kind, n) == placed_on(
            armed,
            kind,
            n + count_of(ops, kind),
        ),
    decreases ops.len(),
{
    if ops.len() > 0 {
        let before = ops.drop_last();
        lemma_places_after(armed, kind, before, n);
        lemma_places_after(armed, kind, before, n + 1);
        lemma_places_move(armed_after(armed, before), kind, ops.last(), n);
    }
}

/// Faults are placed exactly: of entries of a kind that are each placed on an
/// operation of their own, every one fires on its operation, and no other
/// operation of the kind does.
pub proof fn law_faults_are_exactly_placed(
    armed: Seq<(OpKind, u32)>,
    kind: OpKind,
    ops: Seq<OpKind>,
    i: int,
)
    requires
        apart(armed, kind),
        0 <= i < ops.len(),
        ops[i] == kind,
    ensures
        fires_on(armed, ops, i) <==> placed_on(
            armed,
            kind,
            count_of(ops.take(i), kind) as int,
        ),
{
    lemma_places_after(armed, kind, ops.take(i), 0);
    let a = armed_after(armed, ops.take(i));
    if fires(a, kind) {
        let d = choose|d: int| due_at(a, kind, d);
        assert(a[d].0 == kind && a[d].1 == 0);
    }
    if placed_on(a, kind, 0) {
        let j = choose|j: int| 0 <= j < a.len() && (#[trigger] a[j]).0 == kind && a[j].1 == 0;
        lemma_one_is_due(a, kind, j);
    }
}

/// An armed entry fires once: an operation that uses one up leaves exactly one
/// entry fewer, any other leaves as many as there were, and entries of other
/// kinds stay as they are.
pub proof fn law_armed_entry_is_one_shot(
    armed: Seq<(OpKind, u32)>,
    kind: OpKind,
    other: (OpKind, u32),
)
    ensures
        after_op(armed, kind).len() == armed.len() - (if fires(armed, kind) {
            1int
        } else {
            0int
        }),
        other.0 != kind ==> (after_op(armed, kind).contains(other) <==> armed.contains(other)),
{
    let out = after_op(armed, kind);
    if other.0 != kind {
        let d = if fires(armed, kind) {
            choose|i: int| due_at(armed, kind, i)
        } else {
            armed.len() as int
        };
        if armed.contains(other) {
            let j = choose|j: int| 0 <= j < armed.len() && armed[j] == other;
            assert(out[if j < d {
                j
            } else {
                j - 1
            }] == other);
        }
        if out.contains(other) {
            let j = choose|j: int| 0 <= j < out.len() && out[j] == other;
            assert(armed[if j < d {
                j
            } else {
                j + 1
            }] == other);
        }
    }
}

/// What is armed as short reads after a run of `n` reads.
pub open spec fn short_after(armed: Seq<(u32, usize)>, n: nat) -> Seq<(u32, usize)>
    decreases n,
{
    if n == 0 {
        armed
    } else {
        after_read(short_after(armed, (n - 1) as nat))
    }
}

proof fn lemma_short_behind_not_due(armed: Seq<(u32, usize)>, e: (u32, usize))
    requires
        e.0 != 0,
    ensures
        short_len(armed.push(e)) == short_len(armed),
        after_read(armed.push(e)) == after_read(armed).push(read_passed(e)),
{
    let more = armed.push(e);
    assert(all_read_passed(more) =~= all_read_passed(armed).push(read_passed(e)));
    if short_fires(armed) {
        let d = choose|i: int| short_due_at(armed, i);
        assert(short_due_at(more, d)) by {
            assert forall|j: int| 0 <= j < d implies (#[trigger] more[j]).0 != 0 by {
                assert(more[j] == armed[j]);
            }
        }
        lemma_short_due_once(more, d);
        assert(all_read_passed(more).remove(d) =~= all_read_passed(armed).remove(d).push(
            read_passed(e),
        ));
    } else {
        assert forall|i: int| !short_due_at(more, i) by {
            if short_due_at(more, i) {
                assert(i < armed.len());
                assert(short_due_at(armed, i)) by {
                    assert forall|j: int| 0 <= j < i implies (#[trigger] armed[j]).0 != 0 by {
                        assert(more[j] == armed[j]);
                    }
                }
            }
        }
    }
}

proof fn lemma_short_one_is_due(armed: Seq<(u32, usize)>, j: int)
    requires
        0 <= j < armed.len(),
        armed[j].0 == 0,
    ensures
        short_fires(armed),
    decreases j,
{
    if !short_due_at(armed, j) {
        let k = choose|k: int| 0 <= k < j && (#[trigger] armed[k]).0 == 0;
        lemma_short_one_is_due(armed, k);
    }
}

proof fn lemma_short_behind_due(armed: Seq<(u32, usize)>, bytes: usize)
    requires
        !short_fires(armed),
    ensures
        short_len(armed.push((0u32, bytes))) == Some(bytes),
        after_read(armed.push((0u32, bytes))) == after_read(armed),
{
    let more = armed.push((0u32, bytes));
    let last = armed.len() as int;
    assert(short_due_at(more, last)) by {
        assert forall|j: int| 0 <= j < last implies (#[trigger] more[j]).0 != 0 by {
            if more[j].0 == 0 {
                lemma_short_one_is_due(armed, j);
            }
        }
    }
    lemma_short_due_once(more, last);
    assert(all_read_passed(more).remove(last) =~= all_read_passed(armed));
}

proof fn lemma_short_waits(armed: Seq<(u32, usize)>, skip: u32, bytes: usize, n: nat)
    requires
        n <= skip,
    ensures
        short_after(armed.push((skip, bytes)), n) == short_after(armed, n).push(
            ((skip - n) as u32, bytes),
        ),
    decreases n,
{
    if n > 0 {
        lemma_short_waits(armed, skip, bytes, (n - 1) as nat);
        lemma_short_behind_not_due(
            short_after(armed, (n - 1) as nat),
            ((skip - n + 1) as u32, bytes),
        );
    }
}

proof fn lemma_short_gone(armed: Seq<(u32, usize)>, skip: u32, bytes: usize, n: nat)
    requires
        n > skip,
        !short_fires(short_after(armed, skip as nat)),
    ensures
        short_after(armed.push((skip, bytes)), n) == short_after(armed, n),
    decreases n,
{
    if n == skip + 1 {
        lemma_short_waits(armed, skip, bytes, skip as nat);
        lemma_short_behind_due(short_after(armed, skip as nat), bytes);
    } else {
        lemma_short_gone(armed, skip, bytes, (n - 1) as nat);
    }
}

/// A short read armed for the `skip`-th next read cuts that read to `bytes`
/// bytes, and changes nothing for any other: whatever else is armed, each
/// other read is cut or not as it would have been. (Left out is the case that
/// another is due on the same read, which can be cut only once.)
pub proof fn law_short_read_cuts_its_read(armed: Seq<(u32, usize)>, skip: u32, bytes: usize, n: nat)
    requires
        !short_fires(short_after(armed, skip as nat)),
    ensures
        short_len(short_after(armed.push((skip, bytes)), n)) == (if n == skip {
            Some(bytes)
        } else {
            short_len(short_after(armed, n))
        }),
{
    if n <= skip {
        lemma_short_waits(armed, skip, bytes, n);
        if n == skip {
            lemma_short_behind_due(short_after(armed, n), bytes);
        } else {
            lemma_short_behind_not_due(short_after(armed, n), ((skip - n) as u32, bytes));
        }
    } else {
        lemma_short_gone(armed, skip, bytes, n);
    }
}

/// Whether no two short reads are placed on the same read.
pub open spec fn short_apart(armed: Seq<(u32, usize)>) -> bool {
    forall|j: int, k: int|
        #![trigger armed[j], armed[k]]
        0 <= j < k < armed.len() ==> armed[j].0 != armed[k].0
}

/// Whether a short read of `bytes` bytes is placed on the read that `n` others
/// come before.
pub open spec fn short_placed_on(armed: Seq<(u32, usize)>, n: int, bytes: usize) -> bool {
    exists|j: int| 0 <= j < armed.len() && (#[trigger] armed[j]).0 == n && armed[j].1 == bytes
}

proof fn lemma_short_places_move(armed: Seq<(u32, usize)>, n: int, bytes: usize)
    requires
        short_apart(armed),
        n >= 0,
    ensures
        short_apart(after_read(armed)),
        short_placed_on(after_read(armed), n, bytes) == short_placed_on(armed, n + 1, bytes),
{
    let out = after_read(armed);
    let d = if short_fires(armed) {
        choose|i: int| short_due_at(armed, i)
    } else {
        armed.len() as int
    };
    assert forall|j: int| 0 <= j < armed.len() && j != d implies (#[trigger] armed[j]).0 > 0 by {
        if armed[j].0 == 0 {
            lemma_short_one_is_due(armed, j);
            assert(armed[d].0 == 0);
        }
    }
    assert forall|j: int| 0 <= j < out.len() implies #[trigger] out[j] == read_passed(
        armed[if j < d {
            j
        } else {
            j + 1
        }],
    ) by {}
    assert forall|j: int, k: int| #![trigger out[j], out[k]] 0 <= j < k < out.len() implies out[j].0
        != out[k].0 by {
        let a = if j < d {
            j
        } else {
            j + 1
        };
        let b = if k < d {
            k
        } else {
            k + 1
        };
        assert(armed[a].0 != armed[b].0);
    }
    if short_placed_on(armed, n + 1, bytes) {
        let j = choose|j: int|
            0 <= j < armed.len() && (#[trigger] armed[j]).0 == n + 1 && armed[j].1 == bytes;
        let a = if j < d {
            j
        } else {
            j - 1
        };
        assert(out[a].0 == n && out[a].1 == bytes);
    }
    if short_placed_on(out, n, bytes) {
        let j = choose|j: int|
            0 <= j < out.len() && (#[trigger] out[j]).0 == n && out[j].1 == bytes;
        let a = if j < d {
            j
        } else {
            j + 1
        };
        assert(armed[a].0 == n + 1 && armed[a].1 == bytes);
    }
}

proof fn lemma_short_places_after(armed: Seq<(u32, usize)>, n: nat, m: int, bytes: usize)
    requires
        short_apart(armed),
        m >= 0,
    ensures
        short_apart(short_after(armed, n)),
        short_placed_on(short_after(armed, n), m, bytes) == short_placed_on(armed, m + n, bytes),
    decreases n,
{
    if n > 0 {
        lemma_short_places_after(armed, (n - 1) as nat, m + 1, bytes);
        lemma_short_places_move(short_after(armed, (n - 1) as nat), m, bytes);
    }
}

/// Short reads are placed exactly: of short reads that are each placed on a
/// read of their own, every one cuts its read to its length, and no other read
/// is cut.
pub proof fn law_short_reads_are_exactly_placed(armed: Seq<(u32, usize)>, n: nat, bytes: usize)
    requires
        short_apart(armed),
    ensures
        short_len(short_after(armed, n)) == Some(bytes) <==> short_placed_on(
            armed,
            n as int,
            bytes,
        ),
{
    lemma_short_places_after(armed, n, 0, bytes);
    let a = short_after(armed, n);
    if short_fires(a) {
        let d = choose|i: int| short_due_at(a, i);
        assert(a[d].0 == 0);
    }
    if short_placed_on(a, 0, bytes) {
        let j = choose|j: int| 0 <= j < a.len() && (#[trigger] a[j]).0 == 0 && a[j].1 == bytes;
        lemma_short_one_is_due(a, j);
        let d = choose|i: int| short_due_at(a, i);
        if d != j {
            assert(a[d].0 == a[j].0);
            if d < j {
                assert(a[d].0 != a[j].0);
            } else {
                assert(a[j].0 != a[d].0);
            }
        }
    }
}

proof fn lemma_pass_moves(armed: Seq<(OpKind, u32)>, kind: OpKind, op: OpKind, n: int)
    requires
        apart(armed, kind),
        op == kind ==> !placed_on(armed, kind, 0),
        n >= 0,
    ensures
        apart(all_passed(armed, op), kind),
        op == kind ==> placed_on(all_passed(armed, op), kind, n) == placed_on(armed, kind, n + 1),
        op != kind ==> placed_on(all_passed(armed, op), kind, n) == placed_on(armed, kind, n),
{
    let out = all_passed(armed, op);
    if op == kind {
        if fires(armed, kind) {
            let d = choose|i: int| due_at(armed, kind, i);
            assert(armed[d].0 == kind && armed[d].1 == 0);
        }
        lemma_places_move(armed, kind, op, n);
    } else {
        assert forall|j: int, k: int|
            #![trigger out[j], out[k]]
            0 <= j < k < out.len() && out[j].0 == kind && out[k].0 == kind implies out[j].1
            != out[k].1 by {
            assert(out[j] == armed[j] && out[k] == armed[k]);
        }
        if placed_on(armed, kind, n) {
            let j = choose|j: int|
                0 <= j < armed.len() && (#[trigger] armed[j]).0 == kind && armed[j].1 == n;
            assert(out[j] == armed[j]);
        }
        if placed_on(out, kind, n) {
            let j = choose|j: int|
                0 <= j < out.len() && (#[trigger] out[j]).0 == kind && out[j].1 == n;
            assert(out[j] == armed[j]);
        }
    }
}

proof fn lemma_short_pass_moves(armed: Seq<(u32, usize)>, n: int, bytes: usize)
    requires
        short_apart(armed),
        forall|b: usize| !short_placed_on(armed, 0, b),
        n >= 0,
    ensures
        short_apart(all_read_passed(armed)),
        short_placed_on(all_read_passed(armed), n, bytes) == short_placed_on(armed, n + 1, bytes),
{
    if short_fires(armed) {
        let d = choose|i: int| short_due_at(armed, i);
        assert(short_placed_on(armed, 0, armed[d].1));
    }
    lemma_short_places_move(armed, n, bytes);
}

proof fn lemma_fires_where_placed(armed: Seq<(OpKind, u32)>, kind: OpKind)
    ensures
        fires(armed, kind) == placed_on(armed, kind, 0),
{
    if fires(armed, kind) {
        let d = choose|d: int| due_at(armed, kind, d);
        assert(armed[d].0 == kind && armed[d].1 == 0);
    }
    if placed_on(armed, kind, 0) {
        let j = choose|j: int|
            0 <= j < armed.len() && (#[trigger] armed[j]).0 == kind && armed[j].1 == 0;
        lemma_one_is_due(armed, kind, j);
    }
}

/// One operation moves every place of a kind by one, whatever becomes of it.
proof fn lemma_submission_moves<T>(s: IoView<T>, kind: OpKind, op: OpKind, n: int, bytes: usize)
    requires
        s.all_apart(kind),
        n >= 0,
    ensures
        ({
            let t = s.submitted(op);
            let m = n + if op == kind {
                1int
            } else {
                0int
            };
            &&& apart(t.armed, kind)
            &&& apart(t.armed_crash, kind)
            &&& placed_on(t.armed, kind, n) == placed_on(s.armed, kind, m)
            &&& placed_on(t.armed_crash, kind, n) == placed_on(s.armed_crash, kind, m)
            &&& kind == OpKind::Pread ==> short_apart(t.armed_short)
            &&& kind == OpKind::Pread ==> short_placed_on(t.armed_short, n, bytes)
                == short_placed_on(s.armed_short, m, bytes)
        }),
{
    lemma_places_move(s.armed, kind, op, n);
    lemma_places_move(s.armed_crash, kind, op, n);
    lemma_fires_where_placed(s.armed, op);
    lemma_fires_where_placed(s.armed_crash, op);
    if fires(s.armed, op) {
        lemma_pass_moves(s.armed_crash, kind, op, n);
    }
    if kind == OpKind::Pread && op == OpKind::Pread {
        lemma_short_places_move(s.armed_short, n, bytes);
        if fires(s.armed, op) || fires(s.armed_crash, op) {
            assert forall|b: usize| !short_placed_on(s.armed_short, 0, b) by {}
            lemma_short_pass_moves(s.armed_short, n, bytes);
        }
    }
}

proof fn lemma_submissions_move<T>(
    s: IoView<T>,
    kind: OpKind,
    ops: Seq<OpKind>,
    n: int,
    bytes: usize,
)
    requires
        s.all_apart(kind),
        n >= 0,
    ensures
        ({
            let t = s.submitted_all(ops);
            let m = n + count_of(ops, kind);
            &&& apart(t.armed, kind)
            &&& apart(t.armed_crash, kind)
            &&& placed_on(t.armed, kind, n) == placed_on(s.armed, kind, m)
            &&& placed_on(t.armed_crash, kind, n) == placed_on(s.armed_crash, kind, m)
            &&& kind == OpKind::Pread ==> short_apart(t.armed_short)
            &&& kind == OpKind::Pread ==> short_placed_on(t.armed_short, n, bytes)
                == short_placed_on(s.armed_short, m, bytes)
        }),
    decreases ops.len(), 0int,
{
    if ops.len() > 0 {
        let before = ops.drop_last();
        let t = s.submitted_all(before);
        lemma_stays_apart(s, kind, before);
        lemma_submissions_move(s, kind, before, n, bytes);
        lemma_submissions_move(s, kind, before, n + 1, bytes);
        lemma_submission_moves(t, kind, ops.last(), n, bytes);
    }
}

proof fn lemma_stays_apart<T>(s: IoView<T>, kind: OpKind, ops: Seq<OpKind>)
    requires
        s.all_apart(kind),
    ensures
        s.submitted_all(ops).all_apart(kind),
    decreases ops.len(), 1int,
{
    let t = s.submitted_all(ops);
    lemma_submissions_move(s, kind, ops, 0, 0);
    let c = count_of(ops, kind);
    assert forall|n: int| placed_on(t.armed, kind, n) implies !placed_on(
        t.armed_crash,
        kind,
        n,
    ) by {
        if n >= 0 {
            lemma_submissions_move(s, kind, ops, n, 0);
            assert(placed_on(s.armed, kind, n + c));
        }
    }
    if kind == OpKind::Pread {
        assert forall|n: int, bytes: usize|
            #[trigger] short_placed_on(t.armed_short, n, bytes) implies !placed_on(
            t.armed,
            kind,
            n,
        ) && !placed_on(t.armed_crash, kind, n) by {
            if n >= 0 {
                lemma_submissions_move(s, kind, ops, n, bytes);
                assert(short_placed_on(s.armed_short, n + c, bytes));
            }
        }
    }
}

/// Faults of every sort are placed exactly: where everything that is armed for
/// a kind is placed on an operation of its own, an operation fails, is followed
/// by a power cut or is cut short exactly where that was placed on it, in
/// whatever mix the operations come and whatever becomes of the others.
pub proof fn law_submissions_are_exactly_placed<T>(
    s: IoView<T>,
    kind: OpKind,
    ops: Seq<OpKind>,
    i: int,
    bytes: usize,
)
    requires
        s.all_apart(kind),
        0 <= i < ops.len(),
        ops[i] == kind,
    ensures
        ({
            let out = s.submitted_all(ops.take(i)).submission(kind);
            let n = count_of(ops.take(i), kind) as int;
            &&& out == Submission::Fail <==> placed_on(s.armed, kind, n)
            &&& out == Submission::RunThenCut <==> placed_on(s.armed_crash, kind, n)
            &&& out == Submission::ShortRead(bytes) <==> kind == OpKind::Pread && short_placed_on(
                s.armed_short,
                n,
                bytes,
            )
        }),
{
    let t = s.submitted_all(ops.take(i));
    lemma_submissions_move(s, kind, ops.take(i), 0, bytes);
    lemma_fires_where_placed(t.armed, kind);
    lemma_fires_where_placed(t.armed_crash, kind);
    if kind == OpKind::Pread {
        lemma_stays_apart(s, kind, ops.take(i));
        law_short_reads_are_exactly_placed(t.armed_short, 0, bytes);
    }
}

/// An operation that fails touches nothing but what is armed: nothing is drawn
/// and nothing is queued. It uses up one armed failure and no other fault: as
/// many power cuts and short reads are armed as before, each with this operation
/// gone by, and one that was due on it is due on the next.
pub proof fn law_failed_operation_uses_up_only_its_failure<T>(s: IoView<T>, kind: OpKind)
    requires
        s.submission(kind) == Submission::Fail,
    ensures
        ({
            let t = s.submitted(kind);
            &&& t == (IoView {
                armed: t.armed,
                armed_crash: all_passed(s.armed_crash, kind),
                armed_short: t.armed_short,
                injected_failures: s.injected_failures.wrapping_add(1),
                ..s
            })
            &&& t.armed.len() == s.armed.len() - 1
            &&& t.armed_crash.len() == s.armed_crash.len()
            &&& t.armed_short.len() == s.armed_short.len()
            &&& kind == OpKind::Pread ==> t.armed_short == all_read_passed(s.armed_short)
            &&& kind != OpKind::Pread ==> t.armed_short == s.armed_short
            &&& fires(s.armed_crash, kind) ==> fires(t.armed_crash, kind)
            &&& short_fires(s.armed_short) ==> short_fires(t.armed_short)
        }),
{
    let t = s.submitted(kind);
    law_armed_entry_is_one_shot(s.armed, kind, (kind, 0u32));
    if fires(s.armed_crash, kind) {
        let d = choose|i: int| due_at(s.armed_crash, kind, i);
        lemma_one_is_due(t.armed_crash, kind, d);
    }
    if short_fires(s.armed_short) {
        let d = choose|i: int| short_due_at(s.armed_short, i);
        lemma_short_one_is_due(t.armed_short, d);
    }
}

/// A step performs what was queued and nothing else: the operations performed
/// and those left behind are together the operations that were queued.
pub proof fn law_drain_conserves<T>(s: IoView<T>, ran: bool)
    requires
        s.pending.len() <= u64::MAX,
    ensures
        (s.drained(ran).0 + s.drained(ran).1.pending).to_multiset() == s.pending.to_multiset(),
    decreases s.pending.len(),
{
    broadcast use vstd::seq_lib::group_to_multiset_ensures;

    let h = s.hold_drawn(ran);
    if s.step_ends(ran) || !(0 <= h.next_index() < h.pending.len()) {
        assert(Seq::<T>::empty() + h.pending =~= h.pending);
    } else {
        let i = h.next_index();
        let t = h.op_taken();
        law_drain_conserves(t, true);
        let (rest, end) = t.drained(true);
        let all = rest + end.pending;
        assert((seq![h.pending[i]] + rest) + end.pending =~= seq![h.pending[i]] + all);
        vstd::seq_lib::lemma_multiset_commutative(seq![h.pending[i]], all);
        vstd::seq_lib::to_multiset_remove(h.pending, i);
        assert(h.pending.contains(h.pending[i]));
        assert(seq![h.pending[i]] =~= Seq::<T>::empty().push(h.pending[i]));
        assert(seq![h.pending[i]].to_multiset() =~= vstd::multiset::Multiset::singleton(
            h.pending[i],
        ));
        assert(s.pending.to_multiset() =~= vstd::multiset::Multiset::singleton(h.pending[i]).add(
            t.pending.to_multiset(),
        ));
    }
}

/// A step never starves a waiter and never leaves more than one operation
/// behind: of a queue that holds anything it performs at least one operation,
/// and where nothing is ever held back it performs all of them.
pub proof fn law_drain_makes_progress<T>(s: IoView<T>, ran: bool)
    requires
        s.pending.len() <= u64::MAX,
    ensures
        s.drained(ran).0.len() + s.drained(ran).1.pending.len() == s.pending.len(),
        s.drained(ran).1.pending.len() <= 1,
        s.pending.len() > 0 && !ran ==> s.drained(ran).0.len() > 0,
        s.hold_back_permille == 0 ==> s.drained(ran).1.pending.len() == 0,
    decreases s.pending.len(),
{
    let h = s.hold_drawn(ran);
    if !s.step_ends(ran) {
        assert(0 <= h.next_index() < h.pending.len()) by {
            if h.draws_order() {
                prng::law_pick_in_range(h.rng, 0, (h.pending.len() - 1) as u64);
            }
        }
        law_drain_makes_progress(h.op_taken(), true);
    }
}

/// A step always performs something of a queue that holds anything, and two
/// steps empty it, however often one operation is held back.
pub proof fn law_two_steps_empty_the_queue<T>(s: IoView<T>)
    requires
        s.pending.len() <= u64::MAX,
    ensures
        s.pending.len() > 0 ==> s.stepped().0.len() > 0,
        s.stepped().1.stepped().1.pending.len() == 0,
{
    law_drain_makes_progress(IoView { steps: s.steps.wrapping_add(1), ..s }, false);
    let t = s.stepped().1;
    law_drain_makes_progress(IoView { steps: t.steps.wrapping_add(1), ..t }, false);
}

/// Without reordering, a step performs operations in the order in which they
/// were submitted, and leaves the rest in that order.
pub proof fn law_drain_keeps_submission_order<T>(s: IoView<T>, ran: bool)
    requires
        !s.reorder,
    ensures
        s.drained(ran).0 + s.drained(ran).1.pending == s.pending,
    decreases s.pending.len(),
{
    let h = s.hold_drawn(ran);
    if s.step_ends(ran) || !(0 <= h.next_index() < h.pending.len()) {
        assert(Seq::<T>::empty() + h.pending =~= h.pending);
    } else {
        let t = h.op_taken();
        law_drain_keeps_submission_order(t, true);
        let (rest, end) = t.drained(true);
        assert(seq![h.pending[0]] + rest + end.pending =~= seq![h.pending[0]] + (rest
            + end.pending));
        assert(seq![h.pending[0]] + h.pending.remove(0) =~= h.pending);
    }
}

/// With nothing armed and deferring off, the layer is transparent: every
/// operation is performed at once, and no draw is made.
pub proof fn law_idle_layer_is_transparent<T>(s: IoView<T>, kind: OpKind)
    requires
        s.armed.len() == 0,
        s.armed_crash.len() == 0,
        s.armed_short.len() == 0,
        s.defer_permille == 0,
    ensures
        s.submission(kind) == Submission::Inline,
        s.submitted(kind) == s,
{
    assert(!fires(s.armed, kind));
    assert(!fires(s.armed_crash, kind));
    assert(!short_fires(s.armed_short));
    assert(after_op(s.armed, kind) =~= s.armed);
    assert(after_op(s.armed_crash, kind) =~= s.armed_crash);
    assert(after_read(s.armed_short) =~= s.armed_short);
    assert(s.submitted(kind) =~= s);
}

} // verus!
