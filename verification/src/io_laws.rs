//! What becomes of an operation, and of everything that is armed or queued.

use crate::detio;
use crate::detio::{IoView, OpKind, Submission};
use crate::prng;
use vstd::prelude::*;

verus! {

proof fn lemma_first(armed: Seq<(OpKind, u32)>, kind: OpKind, n: int)
    requires
        0 <= n <= armed.len(),
        forall|j: int| 0 <= j < n ==> #[trigger] armed[j] != (kind, 0u32),
        armed.contains((kind, 0u32)),
    ensures
        detio::fires(armed, kind),
    decreases armed.len() - n,
{
    if n == armed.len() {
        let j = choose|j: int| 0 <= j < armed.len() && armed[j] == (kind, 0u32);
        assert(armed[j] != (kind, 0u32));
    } else if armed[n] == (kind, 0u32) {
        assert(detio::due_at(armed, kind, n));
    } else {
        lemma_first(armed, kind, n + 1);
    }
}

proof fn lemma_fires(armed: Seq<(OpKind, u32)>, kind: OpKind)
    ensures
        detio::fires(armed, kind) <==> armed.contains((kind, 0u32)),
{
    if armed.contains((kind, 0u32)) {
        lemma_first(armed, kind, 0);
    }
    if detio::fires(armed, kind) {
        let i = choose|i: int| detio::due_at(armed, kind, i);
        assert(armed[i] == (kind, 0u32));
    }
}

/// What an operation does to what is armed: every entry of its kind that is
/// still to let operations pass has one fewer to let pass; of those that have
/// none left the first is used up and gone; every other entry stays, and all
/// keep their order.
pub proof fn law_operation_goes_by(armed: Seq<(OpKind, u32)>, kind: OpKind, p: int)
    requires
        0 <= p <= armed.len(),
        forall|j: int| 0 <= j < p ==> #[trigger] armed[j] != (kind, 0u32),
        p < armed.len() ==> armed[p] == (kind, 0u32),
    ensures
        ({
            let after = detio::after_op(armed, kind);
            let counted = |e: (OpKind, u32)|
                if e.0 == kind && e.1 > 0 {
                    (kind, (e.1 - 1) as u32)
                } else {
                    e
                };
            &&& after.len() == (if p < armed.len() {
                armed.len() - 1
            } else {
                armed.len() as int
            })
            &&& forall|j: int| 0 <= j < p ==> #[trigger] after[j] == counted(armed[j])
            &&& forall|j: int| p <= j < after.len() ==> #[trigger] after[j] == counted(armed[j + 1])
        }),
{
    let all = detio::all_passed(armed, kind);
    if p < armed.len() {
        assert(detio::due_at(armed, kind, p));
        let d = choose|i: int| detio::due_at(armed, kind, i);
        assert(d == p);
        let after = detio::after_op(armed, kind);
        assert forall|j: int| 0 <= j < p implies #[trigger] after[j] == detio::passed(
            armed[j],
            kind,
        ) by {
            assert(all[j] == detio::passed(armed[j], kind));
        }
        assert forall|j: int| p <= j < after.len() implies #[trigger] after[j] == detio::passed(
            armed[j + 1],
            kind,
        ) by {
            assert(all[j + 1] == detio::passed(armed[j + 1], kind));
        }
    } else {
        if detio::fires(armed, kind) {
            let i = choose|i: int| detio::due_at(armed, kind, i);
            assert(armed[i] != (kind, 0u32));
        }
        assert forall|j: int| 0 <= j < p implies #[trigger] all[j] == detio::passed(
            armed[j],
            kind,
        ) by {}
    }
}

/// What a read does to the armed short reads: each that is still to let reads
/// pass has one fewer to let pass; of those that have none left the first cuts
/// this read and is gone; the others stay, and all keep their order.
pub proof fn law_read_goes_by(armed: Seq<(u32, usize)>, p: int)
    requires
        0 <= p <= armed.len(),
        forall|j: int| 0 <= j < p ==> (#[trigger] armed[j]).0 > 0,
        p < armed.len() ==> armed[p].0 == 0,
    ensures
        ({
            let after = detio::after_read(armed);
            &&& detio::short_len(armed) == (if p < armed.len() {
                Some(armed[p].1)
            } else {
                None
            })
            &&& after.len() == (if p < armed.len() {
                armed.len() - 1
            } else {
                armed.len() as int
            })
            &&& forall|j: int|
                0 <= j < p ==> #[trigger] after[j] == ((armed[j].0 - 1) as u32, armed[j].1)
            &&& forall|j: int|
                p <= j < after.len() ==> #[trigger] after[j] == (if armed[j + 1].0 > 0 {
                    ((armed[j + 1].0 - 1) as u32, armed[j + 1].1)
                } else {
                    armed[j + 1]
                })
        }),
{
    let all = detio::all_read_passed(armed);
    if p < armed.len() {
        assert(detio::short_due_at(armed, p));
        let d = choose|i: int| detio::short_due_at(armed, i);
        assert(d == p);
        let after = detio::after_read(armed);
        assert forall|j: int| 0 <= j < p implies #[trigger] after[j] == detio::read_passed(
            armed[j],
        ) by {
            assert(all[j] == detio::read_passed(armed[j]));
        }
        assert forall|j: int| p <= j < after.len() implies #[trigger] after[j]
            == detio::read_passed(armed[j + 1]) by {
            assert(all[j + 1] == detio::read_passed(armed[j + 1]));
        }
    } else {
        if detio::short_fires(armed) {
            let i = choose|i: int| detio::short_due_at(armed, i);
            assert(armed[i].0 > 0);
        }
        assert forall|j: int| 0 <= j < p implies #[trigger] all[j] == detio::read_passed(
            armed[j],
        ) by {}
    }
}

proof fn lemma_short_fires(armed: Seq<(u32, usize)>, n: int)
    requires
        0 <= n <= armed.len(),
        forall|j: int| 0 <= j < n ==> (#[trigger] armed[j]).0 != 0,
        exists|j: int| 0 <= j < armed.len() && (#[trigger] armed[j]).0 == 0,
    ensures
        detio::short_fires(armed),
    decreases armed.len() - n,
{
    if n == armed.len() {
        let j = choose|j: int| 0 <= j < armed.len() && (#[trigger] armed[j]).0 == 0;
        assert(armed[j].0 != 0);
    } else if armed[n].0 == 0 {
        assert(detio::short_due_at(armed, n));
    } else {
        lemma_short_fires(armed, n + 1);
    }
}

/// What becomes of an operation: an armed failure of its kind comes before an
/// armed power cut, that before an armed short read, which only a read meets,
/// and that before being deferred, which is drawn. Else it is performed at once.
pub proof fn law_what_becomes_of_an_operation<T>(s: IoView<T>, kind: OpKind)
    ensures
        ({
            let short = kind == OpKind::Pread && exists|j: int|
                0 <= j < s.armed_short.len() && (#[trigger] s.armed_short[j]).0 == 0;
            match s.submission(kind) {
                Submission::Fail => s.armed.contains((kind, 0u32)),
                Submission::RunThenCut => !s.armed.contains((kind, 0u32))
                    && s.armed_crash.contains((kind, 0u32)),
                Submission::ShortRead(_) => !s.armed.contains((kind, 0u32))
                    && !s.armed_crash.contains((kind, 0u32)) && short,
                Submission::Defer => !s.armed.contains((kind, 0u32)) && !s.armed_crash.contains(
                    (kind, 0u32),
                ) && !short && prng::prng_draw(s.rng) % 1000 < s.defer_permille,
                Submission::Inline => !s.armed.contains((kind, 0u32)) && !s.armed_crash.contains(
                    (kind, 0u32),
                ) && !short && prng::prng_draw(s.rng) % 1000 >= s.defer_permille,
            }
        }),
{
    lemma_fires(s.armed, kind);
    lemma_fires(s.armed_crash, kind);
    if exists|j: int| 0 <= j < s.armed_short.len() && (#[trigger] s.armed_short[j]).0 == 0 {
        lemma_short_fires(s.armed_short, 0);
    }
    if detio::short_fires(s.armed_short) {
        let i = choose|i: int| detio::short_due_at(s.armed_short, i);
        assert(s.armed_short[i].0 == 0);
    }
}

/// What an operation changes in the layer: it has gone by for everything that is
/// armed and not due on it, an injected failure or short read is counted, and a
/// draw is taken exactly where deferring is on and nothing armed decided first.
/// Nothing is put in the queue or taken from it.
pub proof fn law_what_an_operation_changes<T>(s: IoView<T>, kind: OpKind)
    ensures
        ({
            let after = s.submitted(kind);
            let out = s.submission(kind);
            let drew = (out is Defer || out is Inline) && s.defer_permille != 0;
            &&& after.armed == detio::after_op(s.armed, kind)
            &&& !(out is Fail) ==> after.armed_crash == detio::after_op(s.armed_crash, kind)
            &&& out is Fail ==> after.armed_crash == detio::all_passed(s.armed_crash, kind)
            &&& kind != OpKind::Pread ==> after.armed_short == s.armed_short
            &&& kind == OpKind::Pread && (out is Fail || out is RunThenCut) ==> after.armed_short
                == detio::all_read_passed(s.armed_short)
            &&& kind == OpKind::Pread && !(out is Fail || out is RunThenCut) ==> after.armed_short
                == detio::after_read(s.armed_short)
            &&& after.injected_failures == (if out is Fail || out is ShortRead {
                s.injected_failures.wrapping_add(1)
            } else {
                s.injected_failures
            })
            &&& after.rng == (if drew {
                prng::prng_advance(s.rng)
            } else {
                s.rng
            })
            &&& after.pending == s.pending
            &&& after.defer_permille == s.defer_permille
            &&& after.reorder == s.reorder
            &&& after.hold_back_permille == s.hold_back_permille
            &&& after.deferred_ops == s.deferred_ops
            &&& after.reordered_steps == s.reordered_steps
            &&& after.steps == s.steps
        }),
{
    if !detio::fires(s.armed, kind) {
        assert(s.failure_taken(kind).injected_failures == s.injected_failures);
    }
}

/// What goes by without being asked: entries of that kind count down, and none
/// is used up.
pub proof fn law_passing_uses_nothing_up(
    armed: Seq<(OpKind, u32)>,
    kind: OpKind,
    shorts: Seq<(u32, usize)>,
)
    ensures
        detio::all_passed(armed, kind).len() == armed.len(),
        forall|j: int|
            0 <= j < armed.len() ==> #[trigger] detio::all_passed(armed, kind)[j] == (if armed[j].0
                == kind && armed[j].1 > 0 {
                (kind, (armed[j].1 - 1) as u32)
            } else {
                armed[j]
            }),
        detio::all_read_passed(shorts).len() == shorts.len(),
        forall|j: int|
            0 <= j < shorts.len() ==> #[trigger] detio::all_read_passed(shorts)[j] == (
            if shorts[j].0 > 0 {
                ((shorts[j].0 - 1) as u32, shorts[j].1)
            } else {
                shorts[j]
            }),
{
}

/// Which queued operation a step performs next: the oldest, or with reordering
/// one that is drawn, which counts where it is not the oldest. The one left over
/// may stay for the next step with the configured probability, but only where
/// the step has performed something.
pub proof fn law_which_operation_comes_next<T>(s: IoView<T>, ran: bool)
    requires
        0 < s.pending.len() < u64::MAX,
    ensures
        ({
            let drawn = s.reorder && s.pending.len() > 1;
            let at = if drawn {
                prng::prng_draw(s.rng) as int % (s.pending.len() as int)
            } else {
                0
            };
            let after = s.op_taken();
            &&& s.next_index() == at
            &&& after.pending == s.pending.remove(at)
            &&& after.rng == (if drawn {
                prng::prng_advance(s.rng)
            } else {
                s.rng
            })
            &&& after.reordered_steps == (if at == 0 {
                s.reordered_steps
            } else {
                s.reordered_steps.wrapping_add(1)
            })
            &&& after.armed == s.armed
            &&& after.armed_crash == s.armed_crash
            &&& after.armed_short == s.armed_short
            &&& after.injected_failures == s.injected_failures
            &&& after.deferred_ops == s.deferred_ops
            &&& after.steps == s.steps
        }),
        ({
            let asked = s.pending.len() == 1 && s.hold_back_permille > 0 && ran;
            &&& s.step_ends(ran) <==> asked && prng::prng_draw(s.rng) % 1000 < s.hold_back_permille
            &&& s.hold_drawn(ran).rng == (if asked {
                prng::prng_advance(s.rng)
            } else {
                s.rng
            })
            &&& s.hold_drawn(ran).pending == s.pending
        }),
{
    let n = s.pending.len() as int;
    let d = prng::prng_draw(s.rng) as int;
    assert(0 <= d % n < n) by (nonlinear_arith)
        requires
            n > 0,
    ;
}

/// A step is over at once where nothing is queued, and is counted all the same.
pub proof fn law_empty_step<T>(s: IoView<T>)
    requires
        s.pending.len() == 0,
    ensures
        s.step_ends(true),
        s.step_ends(false),
        s.stepped().0 == Seq::<T>::empty(),
        s.stepped().1.steps == s.steps.wrapping_add(1),
        s.stepped().1.rng == s.rng,
{
}

/// The names of the operations, and the error that an injected failure gives.
pub proof fn law_names_of_the_operations()
    ensures
        OpKind::Pread.name()@ == "pread"@,
        OpKind::Pwrite.name()@ == "pwrite"@,
        OpKind::Pwritev.name()@ == "pwritev"@,
        OpKind::Sync.name()@ == "sync"@,
        OpKind::Truncate.name()@ == "truncate"@,
        detio::INJECTED_ERRNO == 5,
{
}

/// A fresh layer has nothing armed, queued or counted, and draws from its seed.
pub proof fn law_fresh_layer<T>(seed: u64, defer: u64, reorder: bool, hold: u64)
    ensures
        ({
            let s = IoView::<T>::fresh(seed, defer, reorder, hold);
            &&& s.pending.len() == 0 && s.armed.len() == 0
            &&& s.armed_crash.len() == 0 && s.armed_short.len() == 0
            &&& s.rng == seed && s.defer_permille == defer
            &&& s.reorder == reorder && s.hold_back_permille == hold
            &&& s.deferred_ops == 0 && s.reordered_steps == 0
            &&& s.steps == 0 && s.injected_failures == 0
        }),
{
}

/// A step performs queued operations one after the other until none is left or
/// the last one is held back; the first one it never holds back, so a step with
/// something queued always performs something.
pub proof fn law_step_performs_one_after_another<T>(s: IoView<T>, ran: bool)
    requires
        0 < s.pending.len() < u64::MAX,
    ensures
        s.stepped() == (IoView { steps: s.steps.wrapping_add(1), ..s }).drained(false),
        s.stepped().0.len() > 0,
        s.stepped().0[0] == s.pending[s.next_index()],
        s.step_ends(ran) ==> s.drained(ran) == (Seq::<T>::empty(), s.hold_drawn(ran)),
        !s.step_ends(ran) ==> {
            let h = s.hold_drawn(ran);
            let rest = h.op_taken().drained(true);
            s.drained(ran) == (seq![h.pending[h.next_index()]] + rest.0, rest.1)
        },
        !s.step_ends(false),
{
    let begun = IoView { steps: s.steps.wrapping_add(1), ..s };
    law_which_operation_comes_next(s, ran);
    law_which_operation_comes_next(s, false);
    law_which_operation_comes_next(begun, false);
    law_which_operation_comes_next(s.hold_drawn(ran), ran);
    let n = s.pending.len() as int;
    let d = prng::prng_draw(s.rng) as int;
    let e = prng::prng_draw(s.hold_drawn(ran).rng) as int;
    assert(0 <= d % n < n && 0 <= e % n < n) by (nonlinear_arith)
        requires
            n > 0,
    ;
    assert(begun.hold_drawn(false) =~= begun);
}

} // verus!
