//! Which faults the focused scenarios place, and where.

use crate::detio::OpKind;
use crate::script;
use crate::script::{
    Caption, CommitFault, Figure, Filling, Op, Place, Query, Slot, Sweep, Want,
};
use crate::text;
use vstd::prelude::*;

verus! {

/// Whether an operation arms a fault.
pub open spec fn arms(op: Op) -> bool {
    op is ArmFail || op is ArmCrash || op is ArmShort
}

/// Whether a script arms one fault and no other: a failure of the operation of
/// a kind that comes after `k` others, right before the statement under test.
pub open spec fn fails_once(ops: Seq<Op>, p: int, kind: OpKind, k: u32, under_test: Query) -> bool {
    &&& 0 <= p < ops.len() - 1
    &&& ops[p] == Op::ArmFail { kind, k }
    &&& ops[p + 1] matches Op::Show { query, .. } && query == under_test
    &&& forall|i: int| 0 <= i < ops.len() && i != p ==> !arms(#[trigger] ops[i])
}

proof fn lemma_setup_arms_nothing(rows: int, cache_pages: int, i: int)
    requires
        0 <= rows,
        0 <= i < script::main_setup(rows, cache_pages).len(),
    ensures
        script::main_setup(rows, cache_pages).len() == rows + 7,
        !arms(script::main_setup(rows, cache_pages)[i]),
{
    let named = script::named_rows(rows);
    let ops = script::main_setup(rows, cache_pages);
    if 5 <= i < 5 + rows {
        assert(ops[i] == named[i - 5]);
    }
}

proof fn lemma_failed_commit_fails_once(f: CommitFault)
    ensures
        ({
            let p = 11 + script::begun(f).len();
            fails_once(
                script::failed_commit(f),
                p as int,
                f.kind,
                f.k,
                if f.autocommit {
                    Query::Insert { id: 5, n: 5, v: Filling::Row(5) }
                } else {
                    Query::Plain("COMMIT")
                },
            )
        }),
{
    let a = script::main_setup(4, 2000);
    let b = script::begun(f);
    let c = script::tested_commit(f);
    let d = script::after_failed_commit();
    let e = script::after_next_commit();
    let ops = script::failed_commit(f);
    let p: int = 11 + b.len() as int;
    lemma_setup_arms_nothing(4, 2000, 0);
    assert(ops[p] == c[0]);
    assert(ops[p + 1] == c[1]);
    assert forall|i: int| 0 <= i < ops.len() && i != p implies !arms(#[trigger] ops[i]) by {
        if i < 11 {
            lemma_setup_arms_nothing(4, 2000, i);
            assert(ops[i] == a[i]);
        } else if i < p {
            assert(ops[i] == b[i - 11]);
        } else if i < p + 5 {
            assert(ops[i] == c[i - p]);
        } else if i < p + 5 + d.len() {
            assert(ops[i] == d[i - p - 5]);
        } else {
            assert(ops[i] == e[i - p - 5 - d.len()]);
        }
    }
}

/// Whether there is a script of a name, and it arms one fault and no other.
pub open spec fn script_fails_once(
    name: Seq<char>,
    only: Option<Seq<char>>,
    kind: OpKind,
    k: u32,
    under_test: Query,
) -> bool {
    script::script_of(name, only) is Some && exists|p: int|
        #[trigger] fails_once(script::script_of(name, only)->0, p, kind, k, under_test)
}

proof fn lemma_script_fails_once(name: Seq<char>, only: Option<Seq<char>>)
    requires
        script::commit_fault(name) is Some,
    ensures
        ({
            let f = script::commit_fault(name)->0;
            script_fails_once(
                name,
                only,
                f.kind,
                f.k,
                if f.autocommit {
                    Query::Insert { id: 5, n: 5, v: Filling::Row(5) }
                } else {
                    Query::Plain("COMMIT")
                },
            )
        }),
{
    let f = script::commit_fault(name)->0;
    lemma_failed_commit_fails_once(f);
    let p = (11 + script::begun(f).len()) as int;
    assert(script::script_of(name, only) == Some(script::failed_commit(f)));
    assert(fails_once(
        script::script_of(name, only)->0,
        p,
        f.kind,
        f.k,
        if f.autocommit {
            Query::Insert { id: 5, n: 5, v: Filling::Row(5) }
        } else {
            Query::Plain("COMMIT")
        },
    ));
}

/// In the script of each scenario in which a commit fails, exactly one failure
/// is armed, right before the commit under test, and it is of the operation
/// that the scenario is named for: a vectored write, a sync (the next one or the
/// one after it), or the write of the header. The commit is the one of a
/// transaction, or that of a statement outside any.
pub proof fn law_failed_commit_fails_what_it_is_named_for(only: Option<Seq<char>>)
    ensures
        script_fails_once(
            "commit-write-fail"@,
            only,
            OpKind::Pwritev,
            0,
            Query::Plain("COMMIT"),
        ),
        script_fails_once(
            "commit-write-fail-warm"@,
            only,
            OpKind::Pwritev,
            0,
            Query::Plain("COMMIT"),
        ),
        script_fails_once("commit-sync-fail"@, only, OpKind::Sync, 0, Query::Plain("COMMIT")),
        script_fails_once("commit-sync-fail-2"@, only, OpKind::Sync, 1, Query::Plain("COMMIT")),
        script_fails_once(
            "commit-header-write-fail"@,
            only,
            OpKind::Pwrite,
            0,
            Query::Plain("COMMIT"),
        ),
        script_fails_once(
            "autocommit-header-write-fail"@,
            only,
            OpKind::Pwrite,
            0,
            Query::Insert { id: 5, n: 5, v: Filling::Row(5) },
        ),
{
    lemma_names_differ();
    lemma_script_fails_once("commit-write-fail"@, only);
    lemma_script_fails_once("commit-write-fail-warm"@, only);
    lemma_script_fails_once("commit-sync-fail"@, only);
    lemma_script_fails_once("commit-sync-fail-2"@, only);
    lemma_script_fails_once("commit-header-write-fail"@, only);
    lemma_script_fails_once("autocommit-header-write-fail"@, only);
}

proof fn lemma_names_differ()
    ensures
        script::commit_fault("commit-write-fail"@) is Some,
        script::commit_fault("commit-write-fail-warm"@) is Some,
        script::commit_fault("commit-sync-fail"@) is Some,
        script::commit_fault("commit-sync-fail-2"@) is Some,
        script::commit_fault("commit-header-write-fail"@) is Some,
        script::commit_fault("autocommit-header-write-fail"@) is Some,
        "commit-write-fail"@.len() == 17,
        "commit-write-fail-warm"@.len() == 22,
        "commit-sync-fail"@.len() == 16,
        "commit-sync-fail-2"@.len() == 18,
        "commit-header-write-fail"@.len() == 24,
        "autocommit-header-write-fail"@.len() == 28,
{
    reveal_strlit("commit-write-fail");
    reveal_strlit("commit-write-fail-warm");
    reveal_strlit("commit-sync-fail");
    reveal_strlit("commit-sync-fail-2");
    reveal_strlit("commit-header-write-fail");
    reveal_strlit("autocommit-header-write-fail");
}

/// The faults that a script arms, in order, each with the operation that comes
/// right after it.
pub open spec fn faults(ops: Seq<Op>) -> Seq<(Op, Op)>
    decreases ops.len(),
{
    if ops.len() < 2 {
        Seq::empty()
    } else if arms(ops[0]) {
        seq![(ops[0], ops[1])] + faults(ops.skip(1))
    } else {
        faults(ops.skip(1))
    }
}

proof fn lemma_no_fault(ops: Seq<Op>)
    requires
        forall|i: int| 0 <= i < ops.len() ==> !arms(#[trigger] ops[i]),
    ensures
        faults(ops) == Seq::<(Op, Op)>::empty(),
    decreases ops.len(),
{
    if ops.len() >= 2 {
        let rest = ops.skip(1);
        assert forall|i: int| 0 <= i < rest.len() implies !arms(#[trigger] rest[i]) by {
            assert(rest[i] == ops[i + 1]);
        }
        lemma_no_fault(rest);
    }
}

proof fn lemma_one_fault(ops: Seq<Op>, p: int)
    requires
        0 <= p < ops.len() - 1,
        arms(ops[p]),
        forall|i: int| 0 <= i < ops.len() && i != p ==> !arms(#[trigger] ops[i]),
    ensures
        faults(ops) == seq![(ops[p], ops[p + 1])],
    decreases ops.len(),
{
    let rest = ops.skip(1);
    assert forall|i: int| 0 <= i < rest.len() && i != p - 1 implies !arms(#[trigger] rest[i]) by {
        assert(rest[i] == ops[i + 1]);
    }
    if p == 0 {
        lemma_no_fault(rest);
        assert(faults(ops) =~= seq![(ops[0], ops[1])]);
    } else {
        assert(!arms(ops[0]));
        assert(rest[p - 1] == ops[p]);
        assert(rest[p] == ops[p + 1]);
        lemma_one_fault(rest, p - 1);
    }
}

proof fn lemma_faults_join(a: Seq<Op>, b: Seq<Op>)
    requires
        a.len() == 0 || !arms(a.last()),
    ensures
        faults(a + b) == faults(a) + faults(b),
    decreases a.len(),
{
    if a.len() == 0 {
        assert(a + b =~= b);
        assert(faults(a) + faults(b) =~= faults(b));
    } else if b.len() == 0 {
        assert(a + b =~= a);
        assert(faults(a) + faults(b) =~= faults(a));
    } else {
        let rest = a.skip(1);
        assert((a + b).skip(1) =~= rest + b);
        if a.len() == 1 {
            assert(!arms((a + b)[0]));
            assert(rest + b =~= b);
            assert(faults(a) + faults(b) =~= faults(b));
        } else {
            assert(rest.last() == a.last());
            lemma_faults_join(rest, b);
            assert((a + b)[0] == a[0] && (a + b)[1] == a[1]);
            if arms(a[0]) {
                assert(seq![(a[0], a[1])] + (faults(rest) + faults(b)) =~= (seq![(a[0], a[1])]
                    + faults(rest)) + faults(b));
            }
        }
    }
}

proof fn lemma_setup_has_no_fault(rows: int, cache_pages: int)
    requires
        0 <= rows,
    ensures
        faults(script::main_setup(rows, cache_pages)) == Seq::<(Op, Op)>::empty(),
        !arms(script::main_setup(rows, cache_pages).last()),
        script::main_setup(rows, cache_pages).len() == rows + 7,
{
    let ops = script::main_setup(rows, cache_pages);
    assert forall|i: int| 0 <= i < ops.len() implies !arms(#[trigger] ops[i]) by {
        lemma_setup_arms_nothing(rows, cache_pages, i);
    }
    lemma_no_fault(ops);
}

proof fn lemma_filling_arms_nothing(from: int, n: int, c: char, len: usize)
    requires
        0 <= n,
    ensures
        forall|i: int|
            0 <= i < n ==> !arms(#[trigger] script::filling_rows(from, n, c, len)[i]),
        script::filling_rows(from, n, c, len).len() == n,
{
}

/// The scripts in which a read fails arm one failure, of the next read, right
/// before the statement that reads the table.
pub proof fn law_failed_read_fails_the_read(rolled: bool)
    ensures
        ({
            let found = faults(script::failed_read(rolled));
            &&& found.len() == 1
            &&& found[0].0 == Op::ArmFail { kind: OpKind::Pread, k: 0 }
            &&& found[0].1 matches Op::Show { query, .. } && query == Query::Plain(
                "SELECT id, n, v FROM kv ORDER BY id",
            )
        }),
{
    let t = script::tested_read();
    lemma_one_fault(t, 0);
    if rolled {
        let a = script::main_setup(4, 2);
        let b = script::rolled_back();
        lemma_setup_has_no_fault(4, 2);
        lemma_filling_arms_nothing(10, 20, 'x', 3000);
        assert forall|i: int| 0 <= i < b.len() implies !arms(#[trigger] b[i]) by {
            if 1 <= i < 21 {
                assert(b[i] == script::filling_rows(10, 20, 'x', 3000)[i - 1]);
            }
        }
        lemma_no_fault(b);
        lemma_faults_join(a, b);
        assert((a + b).last() == b.last());
        lemma_faults_join(a + b, t);
    } else {
        lemma_setup_has_no_fault(4, 2000);
        lemma_faults_join(script::main_setup(4, 2000), t);
    }
}

/// The scripts of a rollback with writes in flight arm nothing.
pub proof fn law_rollback_in_flight_arms_nothing(drained: bool)
    ensures
        faults(script::inflight_rollback(drained)) == Seq::<(Op, Op)>::empty(),
{
    let a = script::main_setup(8, 2);
    let b = script::spilled();
    let c = script::tested_rollback(drained);
    let d = script::after_rollback();
    let ops = script::inflight_rollback(drained);
    lemma_filling_arms_nothing(20, 24, 'y', 2500);
    assert forall|i: int| 0 <= i < ops.len() implies !arms(#[trigger] ops[i]) by {
        if i < 15 {
            lemma_setup_arms_nothing(8, 2, i);
            assert(ops[i] == a[i]);
        } else if i < 15 + b.len() {
            assert(ops[i] == b[i - 15]);
            if 3 <= i - 15 < 27 {
                assert(b[i - 15] == script::filling_rows(20, 24, 'y', 2500)[i - 18]);
            }
        } else if i < 15 + b.len() + c.len() {
            assert(ops[i] == c[i - 15 - b.len()]);
        } else {
            assert(ops[i] == d[i - 15 - b.len() - c.len()]);
        }
    }
    lemma_no_fault(ops);
}

proof fn lemma_recovery_round(k: u32)
    ensures
        ({
            let ops = script::recovery_open(k) + script::recovery_write(k);
            &&& faults(ops) == seq![
                (Op::ArmFail { kind: OpKind::Pread, k }, Op::TryOpen { synced: false }),
            ]
            &&& !arms(ops.last())
            &&& ops.len() == 15
        }),
{
    let a = script::recovery_open(k);
    let b = script::recovery_write(k);
    let ops = a + b;
    assert forall|i: int| 0 <= i < ops.len() && i != 1 implies !arms(#[trigger] ops[i]) by {
        if i < 9 {
            assert(ops[i] == a[i]);
        } else {
            assert(ops[i] == b[i - 9]);
        }
    }
    lemma_one_fault(ops, 1);
}

proof fn lemma_recovery_rounds(n: nat)
    requires
        n <= 1000,
    ensures
        faults(script::recovery_rounds(n)) == Seq::new(
            n,
            |k: int|
                (Op::ArmFail { kind: OpKind::Pread, k: k as u32 }, Op::TryOpen { synced: false }),
        ),
        script::recovery_rounds(n).len() == 15 * n,
        n > 0 ==> !arms(script::recovery_rounds(n).last()),
    decreases n,
{
    let want = Seq::new(
        n,
        |k: int|
            (Op::ArmFail { kind: OpKind::Pread, k: k as u32 }, Op::TryOpen { synced: false }),
    );
    if n == 0 {
        assert(want =~= Seq::empty());
    } else {
        let k = (n - 1) as nat;
        let front = script::recovery_rounds(k);
        let round = script::recovery_open(k as u32) + script::recovery_write(k as u32);
        lemma_recovery_rounds(k);
        lemma_recovery_round(k as u32);
        lemma_faults_join(front, round);
        assert(script::recovery_rounds(n) =~= front + round);
        assert(script::recovery_rounds(n).last() == round.last());
        assert(faults(front + round) =~= want);
    }
}

/// The script of failing recovery arms six failures, of the first read and of
/// each of the five after it, each right before the database is opened.
pub proof fn law_recovery_fails_each_read(only: Option<Seq<char>>)
    ensures
        script::script_of("recovery-read-fail"@, only) is Some,
        faults(script::script_of("recovery-read-fail"@, only)->0) == Seq::new(
            6,
            |k: int|
                (Op::ArmFail { kind: OpKind::Pread, k: k as u32 }, Op::TryOpen { synced: false }),
        ),
{
    lemma_other_names(only);
    let a = script::main_setup(4, 2000);
    let b = script::committed_rows();
    let c = script::recovery_rounds(6);
    let d = seq![Op::Drop(false)];
    lemma_setup_has_no_fault(4, 2000);
    assert forall|i: int| 0 <= i < b.len() implies !arms(#[trigger] b[i]) by {}
    lemma_no_fault(b);
    lemma_recovery_rounds(6);
    lemma_no_fault(d);
    lemma_faults_join(a, b);
    assert((a + b).last() == b.last());
    lemma_faults_join(a + b, c);
    assert((a + b + c).last() == c.last());
    lemma_faults_join(a + b + c, d);
    assert(faults(a + b + c + d) =~= faults(c));
}

proof fn lemma_fresh_arms_nothing(place: Place, cache_pages: Option<i64>, retry: bool, i: int)
    requires
        0 <= i < script::fresh(place, cache_pages, retry).len(),
    ensures
        !arms(script::fresh(place, cache_pages, retry)[i]),
{
}

/// The fault of a placement, with the checkpoint that it is placed in.
pub open spec fn placed(sweep: Sweep, kind: OpKind, k: u32) -> (Op, Op) {
    match sweep {
        Sweep::Failed => (Op::ArmFail { kind, k }, Op::Truncate),
        Sweep::Crashed => (Op::ArmCrash { kind, k }, Op::Truncate),
    }
}

proof fn lemma_placement(sweep: Sweep, kind: OpKind, k: u32)
    ensures
        faults(script::placement(sweep, kind, k)) == seq![placed(sweep, kind, k)],
        script::placement(sweep, kind, k).len() > 0,
        !arms(script::placement(sweep, kind, k).last()),
{
    let place = script::sweep_place(sweep, kind, k);
    let a = script::fresh(place, None, true);
    let b = script::named_rows(script::sweep_rows(sweep));
    let c = seq![Op::SyncDir];
    let d = script::placed_fault(sweep, kind, k);
    let e = script::reopened(true);
    let f = script::placed_verdict(sweep, kind, k);
    let ops = script::placement(sweep, kind, k);
    let p = (a.len() + b.len() + 1) as int;
    assert(ops[p] == d[0]);
    assert(ops[p + 1] == d[1]);
    assert forall|i: int| 0 <= i < ops.len() && i != p implies !arms(#[trigger] ops[i]) by {
        if i < a.len() {
            lemma_fresh_arms_nothing(place, None, true, i);
            assert(ops[i] == a[i]);
        } else if i < a.len() + b.len() {
            assert(ops[i] == b[i - a.len()]);
        } else if i < p {
            assert(ops[i] == c[i - a.len() - b.len()]);
        } else if i < p + d.len() {
            assert(ops[i] == d[i - p]);
        } else if i < p + d.len() + e.len() {
            assert(ops[i] == e[i - p - d.len()]);
        } else {
            assert(ops[i] == f[i - p - d.len() - e.len()]);
        }
    }
    lemma_one_fault(ops, p);
}

proof fn lemma_placements(sweep: Sweep, n: nat)
    requires
        n <= sweep.len(),
    ensures
        faults(script::placements(sweep, None, n)) == Seq::new(
            n,
            |i: int| placed(sweep, sweep.kinds()[i / 6], (i % 6) as u32),
        ),
        script::placements(sweep, None, n).len() == 0 || !arms(
            script::placements(sweep, None, n).last(),
        ),
    decreases n,
{
    let want = Seq::new(n, |i: int| placed(sweep, sweep.kinds()[i / 6], (i % 6) as u32));
    if n == 0 {
        assert(want =~= Seq::empty());
    } else {
        let i = (n - 1) as nat;
        let kind = sweep.kinds()[i as int / 6];
        let k = (i as int % 6) as u32;
        let front = script::placements(sweep, None, i);
        let next = script::placement(sweep, kind, k);
        lemma_placements(sweep, i);
        lemma_placement(sweep, kind, k);
        lemma_faults_join(front, next);
        assert(script::placements(sweep, None, n) =~= front + next);
        assert((front + next).last() == next.last());
        assert(faults(front + next) =~= want);
    }
}

/// The sweep of failing checkpoints goes through the first six operations of
/// each kind that a checkpoint fails at: reads, syncs and writes, each failure
/// right before a checkpoint.
pub proof fn law_failing_checkpoints_are_swept()
    ensures
        script::script_of("checkpoint-fail-then-crash"@, None) is Some,
        faults(script::script_of("checkpoint-fail-then-crash"@, None)->0) == Seq::new(
            18,
            |i: int|
                (
                    Op::ArmFail {
                        kind: if i < 6 {
                            OpKind::Pread
                        } else if i < 12 {
                            OpKind::Sync
                        } else {
                            OpKind::Pwrite
                        },
                        k: (i % 6) as u32,
                    },
                    Op::Truncate,
                ),
        ),
{
    lemma_other_names(None);
    lemma_placements(Sweep::Failed, 18);
    assert(faults(script::placements(Sweep::Failed, None, 18)) =~= Seq::new(
        18,
        |i: int|
            (
                Op::ArmFail {
                    kind: if i < 6 {
                        OpKind::Pread
                    } else if i < 12 {
                        OpKind::Sync
                    } else {
                        OpKind::Pwrite
                    },
                    k: (i % 6) as u32,
                },
                Op::Truncate,
            ),
    ));
}

/// The sweep of power cuts inside a checkpoint goes through the first six
/// operations of every kind, each cut right before a checkpoint.
pub proof fn law_crashing_checkpoints_are_swept()
    ensures
        script::script_of("ckpt-crash-sweep"@, None) is Some,
        faults(script::script_of("ckpt-crash-sweep"@, None)->0) == Seq::new(
            30,
            |i: int|
                (
                    Op::ArmCrash {
                        kind: if i < 6 {
                            OpKind::Pread
                        } else if i < 12 {
                            OpKind::Pwrite
                        } else if i < 18 {
                            OpKind::Pwritev
                        } else if i < 24 {
                            OpKind::Sync
                        } else {
                            OpKind::Truncate
                        },
                        k: (i % 6) as u32,
                    },
                    Op::Truncate,
                ),
        ),
{
    lemma_other_names(None);
    lemma_placements(Sweep::Crashed, 30);
    assert(faults(script::placements(Sweep::Crashed, None, 30)) =~= Seq::new(
        30,
        |i: int|
            (
                Op::ArmCrash {
                    kind: if i < 6 {
                        OpKind::Pread
                    } else if i < 12 {
                        OpKind::Pwrite
                    } else if i < 18 {
                        OpKind::Pwritev
                    } else if i < 24 {
                        OpKind::Sync
                    } else {
                        OpKind::Truncate
                    },
                    k: (i % 6) as u32,
                },
                Op::Truncate,
            ),
    ));
}

/// A sweep that is narrowed goes through the placement that was asked for, by
/// the name of its kind and its number, and through no other.
pub proof fn law_narrowed_sweep_places_one(sweep: Sweep, only: Seq<char>, n: nat)
    requires
        n <= sweep.len(),
    ensures
        forall|f: (Op, Op)| #[trigger]
            faults(script::placements(sweep, Some(only), n)).contains(f) ==> exists|i: int|
                {
                    &&& 0 <= i < n
                    &&& f == #[trigger] placed(sweep, sweep.kinds()[i / 6], (i % 6) as u32)
                    &&& only == sweep.kinds()[i / 6].name()@ + ":"@ + text::decimal(i % 6)
                },
        forall|i: int|
            0 <= i < n && only == (#[trigger] sweep.kinds()[i / 6]).name()@ + ":"@ + text::decimal(
                i % 6,
            ) ==> faults(script::placements(sweep, Some(only), n)).contains(
                placed(sweep, sweep.kinds()[i / 6], (i % 6) as u32),
            ),
        script::placements(sweep, Some(only), n).len() == 0 || !arms(
            script::placements(sweep, Some(only), n).last(),
        ),
    decreases n,
{
    if n > 0 {
        let m = n - 1;
        let kind = sweep.kinds()[m / 6];
        let k = (m % 6) as u32;
        let front = script::placements(sweep, Some(only), m as nat);
        let all = script::placements(sweep, Some(only), n);
        law_narrowed_sweep_places_one(sweep, only, m as nat);
        lemma_placement(sweep, kind, k);
        let next = if script::is_asked_for(Some(only), kind, k) {
            script::placement(sweep, kind, k)
        } else {
            Seq::empty()
        };
        lemma_faults_join(front, next);
        assert(all =~= front + next);
        if next.len() > 0 {
            assert(all.last() == next.last());
        } else {
            assert(all =~= front);
        }
        let fa = faults(front);
        let fb = faults(next);
        assert(faults(all) == fa + fb);
        assert forall|f: (Op, Op)| #[trigger] faults(all).contains(f) implies exists|i: int|
            {
                &&& 0 <= i < n
                &&& f == #[trigger] placed(sweep, sweep.kinds()[i / 6], (i % 6) as u32)
                &&& only == sweep.kinds()[i / 6].name()@ + ":"@ + text::decimal(i % 6)
            } by {
            let j = choose|j: int| 0 <= j < faults(all).len() && faults(all)[j] == f;
            if j < fa.len() {
                assert(fa[j] == f);
                assert(fa.contains(f));
            } else {
                assert(fb[j - fa.len()] == f);
                assert(f == placed(sweep, sweep.kinds()[m / 6], (m % 6) as u32));
            }
        }
        assert forall|i: int|
            0 <= i < n && only == (#[trigger] sweep.kinds()[i / 6]).name()@ + ":"@ + text::decimal(
                i % 6,
            ) implies faults(all).contains(
            placed(sweep, sweep.kinds()[i / 6], (i % 6) as u32),
        ) by {
            let f = placed(sweep, sweep.kinds()[i / 6], (i % 6) as u32);
            if i < m {
                assert(fa.contains(f));
                let j = choose|j: int| 0 <= j < fa.len() && fa[j] == f;
                assert((fa + fb)[j] == f);
            } else {
                assert(fb[0] == f);
                assert((fa + fb)[fa.len() as int] == f);
            }
        }
    }
}

proof fn lemma_savepoint_round(k: u32)
    ensures
        ({
            let found = faults(script::savepoint_round(k));
            &&& found.len() == 1
            &&& found[0].0 == Op::ArmFail { kind: OpKind::Pread, k }
            &&& found[0].1 matches Op::Keep { query, .. } && query == Query::Plain(
                "UPDATE kv SET n = n + 1 WHERE id BETWEEN 1 AND 4",
            )
            &&& !arms(script::savepoint_round(k).last())
            &&& script::savepoint_round(k).len() > 0
        }),
{
    let place = Place::Round { tag: "sp", k };
    let a = script::fresh(place, Some(2i64), false);
    let b = script::large_rows(4);
    let c = seq![Op::Truncate];
    let d = script::savepoint_write(k);
    let ops = script::savepoint_round(k);
    let p = (a.len() + 4 + 1 + 2) as int;
    assert(ops[p] == d[2]);
    assert(ops[p + 1] == d[3]);
    assert forall|i: int| 0 <= i < ops.len() && i != p implies !arms(#[trigger] ops[i]) by {
        if i < a.len() {
            lemma_fresh_arms_nothing(place, Some(2i64), false, i);
            assert(ops[i] == a[i]);
        } else if i < a.len() + 4 {
            assert(ops[i] == b[i - a.len()]);
        } else if i < a.len() + 5 {
            assert(ops[i] == c[i - a.len() - 4]);
        } else {
            assert(ops[i] == d[i - a.len() - 5]);
        }
    }
    lemma_one_fault(ops, p);
}

/// The savepoint scenario has one round for each of the first reads it is to
/// fail: in round `k` the read after `k` others fails, right before the update.
pub proof fn law_savepoint_rounds_fail_each_read(n: nat)
    requires
        n <= 1000,
    ensures
        ({
            let found = faults(script::savepoint_rounds(n));
            &&& found.len() == n
            &&& forall|k: int|
                0 <= k < n ==> {
                    &&& (#[trigger] found[k]).0 == Op::ArmFail { kind: OpKind::Pread, k: k as u32 }
                    &&& found[k].1 matches Op::Keep { query, .. } && query == Query::Plain(
                        "UPDATE kv SET n = n + 1 WHERE id BETWEEN 1 AND 4",
                    )
                }
        }),
        n > 0 ==> script::savepoint_rounds(n).len() > 0 && !arms(script::savepoint_rounds(n).last()),
        script::script_of("savepoint-read-fail"@, None) == Some(script::savepoint_rounds(6)),
    decreases n,
{
    lemma_other_names(None);
    if n > 0 {
        let k = (n - 1) as nat;
        let front = script::savepoint_rounds(k);
        let round = script::savepoint_round(k as u32);
        law_savepoint_rounds_fail_each_read(k);
        lemma_savepoint_round(k as u32);
        lemma_faults_join(front, round);
        assert(script::savepoint_rounds(n) =~= front + round);
        assert(script::savepoint_rounds(n).last() == round.last());
    }
}

proof fn lemma_short_round(k: u32)
    ensures
        ({
            let found = faults(script::short_round(k));
            &&& found == seq![(Op::ArmShort { k, bytes: 16 }, Op::TryOpen { synced: true })]
            &&& !arms(script::short_round(k).last())
            &&& script::short_round(k).len() > 0
        }),
{
    let place = Place::Round { tag: "osr", k };
    let a = script::fresh(place, None, false);
    let b = script::named_rows(8);
    let c = script::short_open(k);
    let d = script::short_write(k);
    let ops = script::short_round(k);
    let p = (a.len() + 8 + 2) as int;
    assert(ops[p] == c[2]);
    assert(ops[p + 1] == c[3]);
    assert forall|i: int| 0 <= i < ops.len() && i != p implies !arms(#[trigger] ops[i]) by {
        if i < a.len() {
            lemma_fresh_arms_nothing(place, None, false, i);
            assert(ops[i] == a[i]);
        } else if i < a.len() + 8 {
            assert(ops[i] == b[i - a.len()]);
        } else if i < a.len() + 8 + c.len() {
            assert(ops[i] == c[i - a.len() - 8]);
        } else {
            assert(ops[i] == d[i - a.len() - 8 - c.len()]);
        }
    }
    lemma_one_fault(ops, p);
}

/// The short-read scenario has one round for each of the first reads it is to
/// cut short: in round `k` the read after `k` others gives sixteen bytes, right
/// before the database is opened.
pub proof fn law_short_rounds_cut_each_read(n: nat)
    requires
        n <= 1000,
    ensures
        ({
            let found = faults(script::short_rounds(n));
            &&& found.len() == n
            &&& forall|k: int|
                0 <= k < n ==> (#[trigger] found[k]) == (
                    Op::ArmShort { k: k as u32, bytes: 16 },
                    Op::TryOpen { synced: true },
                )
        }),
        n > 0 ==> script::short_rounds(n).len() > 0 && !arms(script::short_rounds(n).last()),
        script::script_of("open-short-read"@, None) == Some(script::short_rounds(5)),
    decreases n,
{
    lemma_other_names(None);
    if n > 0 {
        let k = (n - 1) as nat;
        let front = script::short_rounds(k);
        let round = script::short_round(k as u32);
        law_short_rounds_cut_each_read(k);
        lemma_short_round(k as u32);
        lemma_faults_join(front, round);
        assert(script::short_rounds(n) =~= front + round);
        assert(script::short_rounds(n).last() == round.last());
    }
}

/// Which script each of the other names stands for.
pub proof fn law_names_of_the_other_scripts(only: Option<Seq<char>>)
    ensures
        script::script_of("read-fail-then-count"@, only) == Some(script::failed_read(false)),
        script::script_of("rollback-then-read-fail"@, only) == Some(script::failed_read(true)),
        script::script_of("rollback-inflight-spill"@, only) == Some(
            script::inflight_rollback(false),
        ),
        script::script_of("rollback-inflight-spill-drained"@, only) == Some(
            script::inflight_rollback(true),
        ),
        script::script_of("checkpoint-fail-then-crash"@, only) == Some(
            script::placements(Sweep::Failed, only, 18),
        ),
        script::script_of("ckpt-crash-sweep"@, only) == Some(
            script::placements(Sweep::Crashed, only, 30),
        ),
{
    lemma_other_names(only);
}

proof fn lemma_other_names(only: Option<Seq<char>>)
    ensures
        script::script_of("read-fail-then-count"@, only) == Some(script::failed_read(false)),
        script::script_of("rollback-then-read-fail"@, only) == Some(script::failed_read(true)),
        script::script_of("recovery-read-fail"@, only) == Some(script::failed_recovery()),
        script::script_of("rollback-inflight-spill"@, only) == Some(
            script::inflight_rollback(false),
        ),
        script::script_of("rollback-inflight-spill-drained"@, only) == Some(
            script::inflight_rollback(true),
        ),
        script::script_of("checkpoint-fail-then-crash"@, only) == Some(
            script::placements(Sweep::Failed, only, 18),
        ),
        script::script_of("ckpt-crash-sweep"@, only) == Some(
            script::placements(Sweep::Crashed, only, 30),
        ),
        script::script_of("savepoint-read-fail"@, only) == Some(script::savepoint_rounds(6)),
        script::script_of("open-short-read"@, only) == Some(script::short_rounds(5)),
{
    reveal_strlit("commit-write-fail");
    reveal_strlit("commit-write-fail-warm");
    reveal_strlit("commit-sync-fail");
    reveal_strlit("commit-sync-fail-2");
    reveal_strlit("commit-header-write-fail");
    reveal_strlit("autocommit-header-write-fail");
    reveal_strlit("read-fail-then-count");
    reveal_strlit("rollback-then-read-fail");
    reveal_strlit("recovery-read-fail");
    reveal_strlit("rollback-inflight-spill");
    reveal_strlit("rollback-inflight-spill-drained");
    reveal_strlit("checkpoint-fail-then-crash");
    reveal_strlit("ckpt-crash-sweep");
    reveal_strlit("savepoint-read-fail");
    reveal_strlit("open-short-read");
    assert("commit-write-fail"@.len() == 17);
    assert("commit-write-fail-warm"@.len() == 22);
    assert("commit-sync-fail"@.len() == 16);
    assert("commit-sync-fail-2"@.len() == 18);
    assert("commit-header-write-fail"@.len() == 24);
    assert("autocommit-header-write-fail"@.len() == 28);
    assert("read-fail-then-count"@.len() == 20);
    assert("rollback-then-read-fail"@.len() == 23);
    assert("recovery-read-fail"@.len() == 18);
    assert("rollback-inflight-spill"@.len() == 23);
    assert("rollback-inflight-spill-drained"@.len() == 31);
    assert("checkpoint-fail-then-crash"@.len() == 26);
    assert("ckpt-crash-sweep"@.len() == 16);
    assert("savepoint-read-fail"@.len() == 19);
    assert("open-short-read"@.len() == 15);
    assert("recovery-read-fail"@[0] != "commit-sync-fail-2"@[0]);
    assert("ckpt-crash-sweep"@[1] != "commit-sync-fail"@[1]);
    assert("rollback-then-read-fail"@[9] != "rollback-inflight-spill"@[9]);
    assert(script::commit_fault("read-fail-then-count"@) is None);
    assert(script::commit_fault("rollback-then-read-fail"@) is None);
    assert(script::commit_fault("recovery-read-fail"@) is None);
    assert(script::commit_fault("rollback-inflight-spill"@) is None);
    assert(script::commit_fault("rollback-inflight-spill-drained"@) is None);
    assert(script::commit_fault("checkpoint-fail-then-crash"@) is None);
    assert(script::commit_fault("ckpt-crash-sweep"@) is None);
    assert(script::commit_fault("savepoint-read-fail"@) is None);
    assert(script::commit_fault("open-short-read"@) is None);
}

/// A check of the number of rows, under a name.
pub open spec fn row_check(pre: &'static str, n: u64) -> Op {
    Op::Check {
        caption: Caption { pre, num: None, post: "" },
        query: Query::Count,
        want: Want::Rows(n),
    }
}

/// A check of the number of rows, under a name with a number in it.
pub open spec fn numbered_row_check(pre: &'static str, k: u32, post: &'static str, n: u64) -> Op {
    Op::Check {
        caption: Caption { pre, num: Some(k as u64), post },
        query: Query::Count,
        want: Want::Rows(n),
    }
}

/// A check that a statement succeeds, under a name.
pub open spec fn success_check(pre: &'static str, sql: &'static str) -> Op {
    Op::Check {
        caption: Caption { pre, num: None, post: "" },
        query: Query::Plain(sql),
        want: Want::Fine,
    }
}

/// A row that is inserted: its number is its key, and its value names it.
pub open spec fn row_insert(i: int) -> Query {
    Query::Insert { id: i as i64, n: i as i64, v: Filling::Row(i as i64) }
}

/// A check that a row is inserted, under a name.
pub open spec fn insert_check(pre: &'static str, i: int) -> Op {
    Op::Check {
        caption: Caption { pre, num: None, post: "" },
        query: row_insert(i),
        want: Want::Fine,
    }
}

/// A check that the database is in order.
pub open spec fn order_check() -> Op {
    Op::Check {
        caption: Caption { pre: "integrity_check", num: None, post: "" },
        query: Query::Plain("PRAGMA integrity_check"),
        want: Want::OneRow,
    }
}

/// A statement whose answer is shown and kept.
pub open spec fn shown(pre: &'static str, query: Query, slot: Slot) -> Op {
    Op::Show { caption: Caption { pre, num: None, post: "" }, query, slot }
}

/// A figure that is shown.
pub open spec fn figure(pre: &'static str, figure: Figure) -> Op {
    Op::ShowFigure { caption: Caption { pre, num: None, post: "" }, figure }
}

/// A scenario on the main database begins with a fresh one, under full
/// synchronisation and with a cache of the size that is asked for; then come
/// the table, as many rows as are asked for, each with its own key, a checkpoint
/// that truncates the log, and a sync of the directory.
pub proof fn law_main_database_is_set_up(rows: int, pages: int)
    requires
        0 <= rows < 1000,
    ensures
        ({
            let ops = script::main_setup(rows, pages);
            &&& ops.len() == rows + 7
            &&& ops[0] == Op::Enter(Place::Main)
            &&& ops[1] == Op::Open
            &&& ops[2] == Op::Must(Query::Plain("PRAGMA synchronous=FULL"))
            &&& ops[3] == Op::Must(Query::Cache(pages as i64))
            &&& ops[4] == Op::Must(
                Query::Plain("CREATE TABLE kv(id INTEGER PRIMARY KEY, n INTEGER, v TEXT)"),
            )
            &&& forall|i: int|
                0 <= i < rows ==> #[trigger] ops[5 + i] == Op::Must(row_insert(i + 1))
            &&& ops[5 + rows] == Op::MustTruncate
            &&& ops[6 + rows] == Op::SyncDir
        }),
{
    let ops = script::main_setup(rows, pages);
    let named = script::named_rows(rows);
    assert forall|i: int| 0 <= i < rows implies #[trigger] ops[5 + i] == Op::Must(
        row_insert(i + 1),
    ) by {
        assert(ops[5 + i] == named[i]);
    }
}

/// The script of a commit that fails: four rows are there; the fifth is in the
/// transaction under test, which is read once where the first page is to be in
/// the cache. Where the commit succeeds after all, five rows must be there and
/// the script ends. Else the transaction must be gone: four rows on the same
/// connection, after a rollback, and in a new transaction; then a sixth row is
/// committed, and five are there, in order and after a reopen.
pub proof fn law_failed_commit_is_followed_up(f: CommitFault)
    ensures
        ({
            let ops = script::failed_commit(f);
            let setup = script::main_setup(4, 2000);
            let begun = (if f.autocommit {
                Seq::empty()
            } else {
                seq![success_check("BEGIN", "BEGIN"), insert_check("INSERT 5", 5)]
            }) + (if f.warm {
                seq![row_check("count (warm)", 5)]
            } else {
                Seq::empty()
            });
            ops == setup + begun + seq![
                Op::ArmFail { kind: f.kind, k: f.k },
                shown(
                    "COMMIT -> ",
                    if f.autocommit {
                        row_insert(5)
                    } else {
                        Query::Plain("COMMIT")
                    },
                    Slot::First,
                ),
                figure("auto_commit after COMMIT = ", Figure::AutoCommit),
                figure("injected failures so far = ", Figure::Injected),
                Op::EndIfFine {
                    caption: Caption { pre: "count after ok COMMIT", num: None, post: "" },
                    query: Query::Count,
                    want: Want::Rows(5),
                },
                row_check("count right after failed COMMIT (same conn)", 4),
                shown("ROLLBACK -> ", Query::Plain("ROLLBACK"), Slot::Second),
                row_check("count after ROLLBACK", 4),
                success_check("BEGIN (new tx)", "BEGIN"),
                row_check("count in new tx", 4),
                success_check("COMMIT (new tx)", "COMMIT"),
                insert_check("INSERT 6 autocommit", 6),
                row_check("count after INSERT 6", 5),
                order_check(),
                Op::Drop(false),
                Op::Open,
                row_check("count after reopen", 5),
                Op::Drop(false),
            ]
        }),
{
    let setup = script::main_setup(4, 2000);
    let begun = script::begun(f);
    let c = script::tested_commit(f);
    let d = script::after_failed_commit();
    let e = script::after_next_commit();
    assert(begun =~= (if f.autocommit {
        Seq::empty()
    } else {
        seq![success_check("BEGIN", "BEGIN"), insert_check("INSERT 5", 5)]
    }) + (if f.warm {
        seq![row_check("count (warm)", 5)]
    } else {
        Seq::empty()
    }));
    assert(setup + begun + c + d + e =~= setup + begun + (c + d + e));
    assert(c + d + e =~= seq![
        Op::ArmFail { kind: f.kind, k: f.k },
        shown(
            "COMMIT -> ",
            if f.autocommit {
                row_insert(5)
            } else {
                Query::Plain("COMMIT")
            },
            Slot::First,
        ),
        figure("auto_commit after COMMIT = ", Figure::AutoCommit),
        figure("injected failures so far = ", Figure::Injected),
        Op::EndIfFine {
            caption: Caption { pre: "count after ok COMMIT", num: None, post: "" },
            query: Query::Count,
            want: Want::Rows(5),
        },
        row_check("count right after failed COMMIT (same conn)", 4),
        shown("ROLLBACK -> ", Query::Plain("ROLLBACK"), Slot::Second),
        row_check("count after ROLLBACK", 4),
        success_check("BEGIN (new tx)", "BEGIN"),
        row_check("count in new tx", 4),
        success_check("COMMIT (new tx)", "COMMIT"),
        insert_check("INSERT 6 autocommit", 6),
        row_check("count after INSERT 6", 5),
        order_check(),
        Op::Drop(false),
        Op::Open,
        row_check("count after reopen", 5),
        Op::Drop(false),
    ]);
}

/// Which of the scenarios of a failing commit work outside a transaction, and
/// which with the first page in the cache.
pub proof fn law_shapes_of_the_failed_commits()
    ensures
        script::commit_fault("commit-write-fail"@) == Some(
            CommitFault { autocommit: false, warm: false, kind: OpKind::Pwritev, k: 0 },
        ),
        script::commit_fault("commit-write-fail-warm"@) == Some(
            CommitFault { autocommit: false, warm: true, kind: OpKind::Pwritev, k: 0 },
        ),
        script::commit_fault("commit-sync-fail"@) == Some(
            CommitFault { autocommit: false, warm: false, kind: OpKind::Sync, k: 0 },
        ),
        script::commit_fault("commit-sync-fail-2"@) == Some(
            CommitFault { autocommit: false, warm: false, kind: OpKind::Sync, k: 1 },
        ),
        script::commit_fault("commit-header-write-fail"@) == Some(
            CommitFault { autocommit: false, warm: false, kind: OpKind::Pwrite, k: 0 },
        ),
        script::commit_fault("autocommit-header-write-fail"@) == Some(
            CommitFault { autocommit: true, warm: false, kind: OpKind::Pwrite, k: 0 },
        ),
{
    lemma_names_differ();
}

/// A name that is none of these has no script.
pub proof fn law_other_names_have_no_script(name: Seq<char>, only: Option<Seq<char>>)
    ensures
        script::script_of(name, only) is Some ==> {
            ||| name == "commit-write-fail"@
            ||| name == "commit-write-fail-warm"@
            ||| name == "commit-sync-fail"@
            ||| name == "commit-sync-fail-2"@
            ||| name == "commit-header-write-fail"@
            ||| name == "autocommit-header-write-fail"@
            ||| name == "read-fail-then-count"@
            ||| name == "rollback-then-read-fail"@
            ||| name == "recovery-read-fail"@
            ||| name == "rollback-inflight-spill"@
            ||| name == "rollback-inflight-spill-drained"@
            ||| name == "checkpoint-fail-then-crash"@
            ||| name == "ckpt-crash-sweep"@
            ||| name == "savepoint-read-fail"@
            ||| name == "open-short-read"@
        },
{
}

/// A transaction that is filled up inserts rows under keys of its own, one after
/// the other, each with a value of the given character and length.
pub proof fn law_transactions_are_filled_up(from: int, n: int, c: char, len: usize)
    requires
        0 <= from < 1000,
        0 <= n < 1000,
    ensures
        ({
            let ops = script::filling_rows(from, n, c, len);
            &&& ops.len() == n
            &&& forall|i: int|
                0 <= i < n ==> #[trigger] ops[i] == (Op::ShowFailed {
                    caption: Caption { pre: "insert ", num: Some((from + i) as u64), post: " -> " },
                    query: Query::Insert {
                        id: (from + i) as i64,
                        n: (from + i) as i64,
                        v: Filling::Repeat(c, len),
                    },
                })
        }),
{
}

/// The script of a read that fails: four rows are there, after a transaction of
/// twenty more was rolled back under a small cache where that is asked for; the
/// read fails, and four rows must be seen after it, in a new transaction, in
/// order, and after a reopen.
pub proof fn law_failed_read_is_followed_up(rolled: bool)
    ensures
        ({
            let tail = seq![
                Op::ArmFail { kind: OpKind::Pread, k: 0 },
                shown(
                    "SELECT with failing pread -> ",
                    Query::Plain("SELECT id, n, v FROM kv ORDER BY id"),
                    Slot::First,
                ),
                row_check("count after failed read", 4),
                success_check("BEGIN", "BEGIN"),
                row_check("count in new tx", 4),
                success_check("COMMIT", "COMMIT"),
                order_check(),
                Op::Drop(false),
                Op::Open,
                row_check("count after reopen", 4),
                Op::Drop(false),
            ];
            script::failed_read(rolled) == (if rolled {
                script::main_setup(4, 2) + (seq![success_check("BEGIN", "BEGIN")]
                    + script::filling_rows(10, 20, 'x', 3000) + seq![
                    row_check("count in tx", 24),
                    success_check("ROLLBACK", "ROLLBACK"),
                ]) + tail
            } else {
                script::main_setup(4, 2000) + tail
            })
        }),
{
    let t = script::tested_read();
    assert(t =~= seq![
        Op::ArmFail { kind: OpKind::Pread, k: 0 },
        shown(
            "SELECT with failing pread -> ",
            Query::Plain("SELECT id, n, v FROM kv ORDER BY id"),
            Slot::First,
        ),
        row_check("count after failed read", 4),
        success_check("BEGIN", "BEGIN"),
        row_check("count in new tx", 4),
        success_check("COMMIT", "COMMIT"),
        order_check(),
        Op::Drop(false),
        Op::Open,
        row_check("count after reopen", 4),
        Op::Drop(false),
    ]);
    assert(script::rolled_back() =~= seq![success_check("BEGIN", "BEGIN")]
        + script::filling_rows(10, 20, 'x', 3000) + seq![
        row_check("count in tx", 24),
        success_check("ROLLBACK", "ROLLBACK"),
    ]);
}

/// The script of a rollback with writes in flight: eight rows are there under a
/// small cache; with all I/O deferred a transaction adds twenty-four and is
/// rolled back, with or without performing the deferred writes first; then eight
/// rows must be there, a ninth is committed, and nine are there, in order and
/// after a reopen.
pub proof fn law_rollback_in_flight_is_followed_up(drained: bool)
    ensures
        ({
            let a = seq![
                row_check("count before", 8),
                Op::Defer(1000),
                success_check("BEGIN", "BEGIN"),
            ] + script::filling_rows(20, 24, 'y', 2500) + seq![
                row_check("count in tx", 32),
                figure("pending deferred I/O before ROLLBACK = ", Figure::Pending),
            ];
            let b = (if drained {
                seq![Op::Drain]
            } else {
                Seq::empty()
            }) + seq![
                success_check("ROLLBACK", "ROLLBACK"),
                figure("pending deferred I/O after ROLLBACK = ", Figure::Pending),
                Op::Defer(0),
                Op::Drain,
                row_check("count after ROLLBACK", 8),
            ];
            let c = seq![
                success_check("BEGIN (new tx)", "BEGIN"),
                row_check("count in new tx", 8),
                insert_check("INSERT 50 in new tx", 50),
                row_check("count in new tx after insert", 9),
                success_check("COMMIT (new tx)", "COMMIT"),
                row_check("count after COMMIT", 9),
                order_check(),
                Op::Drop(false),
                Op::Open,
                row_check("count after reopen", 9),
                Op::Drop(false),
            ];
            script::inflight_rollback(drained) == script::main_setup(8, 2) + a + b + c
        }),
{
    assert(script::spilled() =~= seq![
        row_check("count before", 8),
        Op::Defer(1000),
        success_check("BEGIN", "BEGIN"),
    ] + script::filling_rows(20, 24, 'y', 2500) + seq![
        row_check("count in tx", 32),
        figure("pending deferred I/O before ROLLBACK = ", Figure::Pending),
    ]);
    assert(script::tested_rollback(drained) =~= (if drained {
        seq![Op::Drain]
    } else {
        Seq::empty()
    }) + seq![
        success_check("ROLLBACK", "ROLLBACK"),
        figure("pending deferred I/O after ROLLBACK = ", Figure::Pending),
        Op::Defer(0),
        Op::Drain,
        row_check("count after ROLLBACK", 8),
    ]);
    assert(script::after_rollback() =~= seq![
        success_check("BEGIN (new tx)", "BEGIN"),
        row_check("count in new tx", 8),
        insert_check("INSERT 50 in new tx", 50),
        row_check("count in new tx after insert", 9),
        success_check("COMMIT (new tx)", "COMMIT"),
        row_check("count after COMMIT", 9),
        order_check(),
        Op::Drop(false),
        Op::Open,
        row_check("count after reopen", 9),
        Op::Drop(false),
    ]);
}

/// A round of failing recovery: where opening fails, a clean reopen must show
/// the eight committed rows; where it succeeds, one more row is inserted, and a
/// clean reopen must show it and those of the rounds before. Either way the
/// round ends at the same place.
pub proof fn law_recovery_round_is_followed_up(k: u32)
    requires
        k < 1000,
    ensures
        script::recovery_open(k) + script::recovery_write(k) == seq![
            Op::Drop(false),
            Op::ArmFail { kind: OpKind::Pread, k },
            Op::TryOpen { synced: false },
            Op::SkipIfOpened(5),
            Op::ShowRecoveryError { k },
            Op::Disarm,
            Op::Open,
            numbered_row_check("count after failed open (k=", k, ") + clean reopen", 8),
            Op::Skip(6),
            Op::Show {
                caption: Caption {
                    pre: "reopen with pread#",
                    num: Some(k as u64),
                    post: " failing -> open ok, count ",
                },
                query: Query::Count,
                slot: Slot::Third,
            },
            Op::Disarm,
            shown(
                "insert after reopen -> ",
                Query::Insert { id: (100 + k) as i64, n: 1, v: Filling::Word("after") },
                Slot::Second,
            ),
            Op::Drop(false),
            Op::Open,
            numbered_row_check("count after clean reopen (k=", k, ")", (9 + k) as u64),
        ],
{
    assert(script::recovery_open(k) + script::recovery_write(k) =~= seq![
        Op::Drop(false),
        Op::ArmFail { kind: OpKind::Pread, k },
        Op::TryOpen { synced: false },
        Op::SkipIfOpened(5),
        Op::ShowRecoveryError { k },
        Op::Disarm,
        Op::Open,
        numbered_row_check("count after failed open (k=", k, ") + clean reopen", 8),
        Op::Skip(6),
        Op::Show {
            caption: Caption {
                pre: "reopen with pread#",
                num: Some(k as u64),
                post: " failing -> open ok, count ",
            },
            query: Query::Count,
            slot: Slot::Third,
        },
        Op::Disarm,
        shown(
            "insert after reopen -> ",
            Query::Insert { id: (100 + k) as i64, n: 1, v: Filling::Word("after") },
            Slot::Second,
        ),
        Op::Drop(false),
        Op::Open,
        numbered_row_check("count after clean reopen (k=", k, ")", (9 + k) as u64),
    ]);
}

/// The script of failing recovery: four rows are set up and four more are
/// committed to the log, eight are counted; then come six rounds, one for each
/// of the first reads, and the handles are dropped.
pub proof fn law_recovery_is_followed_up(k: nat)
    requires
        k < 1000,
    ensures
        script::failed_recovery() == script::main_setup(4, 2000) + script::committed_rows()
            + script::recovery_rounds(6) + seq![Op::Drop(false)],
        script::committed_rows().len() == 5,
        forall|i: int|
            0 <= i < 4 ==> #[trigger] script::committed_rows()[i] == (Op::Check {
                caption: Caption { pre: "INSERT ", num: Some((i + 5) as u64), post: "" },
                query: row_insert(i + 5),
                want: Want::Fine,
            }),
        script::committed_rows()[4] == row_check("count before", 8),
        script::recovery_rounds(0) == Seq::<Op>::empty(),
        script::recovery_rounds(k + 1) == script::recovery_rounds(k) + (script::recovery_open(
            k as u32,
        ) + script::recovery_write(k as u32)),
{
}

/// A fresh directory: it is entered, its database is opened under full
/// synchronisation, with retried syncs and with a small cache where that is
/// asked for, and the table is created.
pub proof fn law_fresh_directory(place: Place, pages: Option<i64>, retry: bool)
    ensures
        ({
            let begin = seq![
                Op::Enter(place),
                Op::Open,
                Op::Must(Query::Plain("PRAGMA synchronous=FULL")),
            ];
            let retrying = if retry {
                seq![Op::Must(Query::Plain("PRAGMA data_sync_retry=ON"))]
            } else {
                Seq::empty()
            };
            let cache = match pages {
                Some(n) => seq![Op::Must(Query::Cache(n))],
                None => Seq::empty(),
            };
            let create = seq![
                Op::Must(
                    Query::Plain("CREATE TABLE kv(id INTEGER PRIMARY KEY, n INTEGER, v TEXT)"),
                ),
            ];
            script::fresh(place, pages, retry) == begin + retrying + cache + create
        }),
        script::reopened(true) == seq![
            Op::Open,
            Op::Must(Query::Plain("PRAGMA synchronous=FULL")),
            Op::Must(Query::Plain("PRAGMA data_sync_retry=ON")),
        ],
        script::reopened(false) == seq![
            Op::Open,
            Op::Must(Query::Plain("PRAGMA synchronous=FULL")),
        ],
{
}

/// A placement of a failing checkpoint: in a directory of its own eight rows are
/// committed and made durable; the checkpoint fails, a ninth row is inserted and
/// the rows are counted, the power is cut, and what is there after a reopen is
/// judged.
pub proof fn law_failing_checkpoint_is_followed_up(kind: OpKind, k: u32)
    ensures
        script::placement(Sweep::Failed, kind, k) == script::fresh(
            Place::Placement { tag: "ck", kind, k },
            None,
            true,
        ) + Seq::new(8, |i: int| Op::Must(row_insert(i + 1))) + seq![
            Op::SyncDir,
            Op::ArmFail { kind, k },
            Op::Truncate,
            Op::Disarm,
            Op::Keep { query: row_insert(9), slot: Slot::Second },
            Op::Keep { query: Query::Count, slot: Slot::Third },
            Op::PowerCut,
            Op::Drop(true),
        ] + script::reopened(true) + seq![
            Op::Keep { query: Query::Count, slot: Slot::Last },
            Op::JudgeFailedCheckpoint { kind, k },
            Op::Drop(false),
        ],
{
    let a = script::fresh(Place::Placement { tag: "ck", kind, k }, None, true);
    let b = script::named_rows(8);
    assert(b =~= Seq::new(8, |i: int| Op::Must(row_insert(i + 1))));
    let d = script::placed_fault(Sweep::Failed, kind, k);
    let f = script::placed_verdict(Sweep::Failed, kind, k);
    assert(f =~= seq![
        Op::Keep { query: Query::Count, slot: Slot::Last },
        Op::JudgeFailedCheckpoint { kind, k },
        Op::Drop(false),
    ]);
    assert(a + b + seq![Op::SyncDir] + d =~= a + b + seq![
        Op::SyncDir,
        Op::ArmFail { kind, k },
        Op::Truncate,
        Op::Disarm,
        Op::Keep { query: row_insert(9), slot: Slot::Second },
        Op::Keep { query: Query::Count, slot: Slot::Third },
        Op::PowerCut,
        Op::Drop(true),
    ]);
}

/// A placement of a power cut inside a checkpoint: in a directory of its own
/// sixteen rows are committed and made durable; the checkpoint is run, whether
/// the power was cut is kept, and what is there after a reopen is judged.
pub proof fn law_crashing_checkpoint_is_followed_up(kind: OpKind, k: u32)
    ensures
        script::placement(Sweep::Crashed, kind, k) == script::fresh(
            Place::Placement { tag: "cc", kind, k },
            None,
            true,
        ) + Seq::new(16, |i: int| Op::Must(row_insert(i + 1))) + seq![
            Op::SyncDir,
            Op::ArmCrash { kind, k },
            Op::Truncate,
            Op::KeepCut,
            Op::Disarm,
            Op::DropAsCut,
        ] + script::reopened(true) + seq![
            Op::Keep { query: Query::Count, slot: Slot::Last },
            Op::JudgeCrashedCheckpoint { kind, k },
            Op::Drop(false),
        ],
{
    let a = script::fresh(Place::Placement { tag: "cc", kind, k }, None, true);
    let b = script::named_rows(16);
    assert(b =~= Seq::new(16, |i: int| Op::Must(row_insert(i + 1))));
    let d = script::placed_fault(Sweep::Crashed, kind, k);
    let f = script::placed_verdict(Sweep::Crashed, kind, k);
    assert(f =~= seq![
        Op::Keep { query: Query::Count, slot: Slot::Last },
        Op::JudgeCrashedCheckpoint { kind, k },
        Op::Drop(false),
    ]);
    assert(a + b + seq![Op::SyncDir] + d =~= a + b + seq![
        Op::SyncDir,
        Op::ArmCrash { kind, k },
        Op::Truncate,
        Op::KeepCut,
        Op::Disarm,
        Op::DropAsCut,
    ]);
}

/// A round of the savepoint scenario: in a directory of its own, under a cache of
/// two pages, four large rows are in the database; in a transaction and a
/// savepoint an update fails to read a page, a row is inserted, and after a
/// rollback the rows are counted.
pub proof fn law_savepoint_round_is_followed_up(k: u32)
    ensures
        script::savepoint_round(k) == script::fresh(
            Place::Round { tag: "sp", k },
            Some(2i64),
            false,
        ) + Seq::new(
            4,
            |i: int|
                Op::Must(
                    Query::Insert {
                        id: (i + 1) as i64,
                        n: (i + 1) as i64,
                        v: Filling::Repeat('z', 3000),
                    },
                ),
        ) + seq![
            Op::Truncate,
            Op::Check {
                caption: Caption { pre: "k=", num: Some(k as u64), post: " BEGIN" },
                query: Query::Plain("BEGIN"),
                want: Want::Fine,
            },
            Op::Check {
                caption: Caption { pre: "k=", num: Some(k as u64), post: " SAVEPOINT" },
                query: Query::Plain("SAVEPOINT sp0"),
                want: Want::Fine,
            },
            Op::ArmFail { kind: OpKind::Pread, k },
            Op::Keep {
                query: Query::Plain("UPDATE kv SET n = n + 1 WHERE id BETWEEN 1 AND 4"),
                slot: Slot::First,
            },
            Op::Keep { query: row_insert(5), slot: Slot::Second },
            Op::Disarm,
            Op::ShowUpdate { k },
            Op::KeepAutoCommit,
            Op::Keep { query: Query::Plain("ROLLBACK"), slot: Slot::Third },
            Op::ShowRollback { k },
            Op::CheckRolledBack { k },
            Op::Drop(false),
        ],
{
    let a = script::fresh(Place::Round { tag: "sp", k }, Some(2i64), false);
    let b = script::large_rows(4);
    assert(b =~= Seq::new(
        4,
        |i: int|
            Op::Must(
                Query::Insert {
                    id: (i + 1) as i64,
                    n: (i + 1) as i64,
                    v: Filling::Repeat('z', 3000),
                },
            ),
    ));
    assert(a + b + seq![Op::Truncate] + script::savepoint_write(k) =~= a + b + seq![
        Op::Truncate,
        Op::Check {
            caption: Caption { pre: "k=", num: Some(k as u64), post: " BEGIN" },
            query: Query::Plain("BEGIN"),
            want: Want::Fine,
        },
        Op::Check {
            caption: Caption { pre: "k=", num: Some(k as u64), post: " SAVEPOINT" },
            query: Query::Plain("SAVEPOINT sp0"),
            want: Want::Fine,
        },
        Op::ArmFail { kind: OpKind::Pread, k },
        Op::Keep {
            query: Query::Plain("UPDATE kv SET n = n + 1 WHERE id BETWEEN 1 AND 4"),
            slot: Slot::First,
        },
        Op::Keep { query: row_insert(5), slot: Slot::Second },
        Op::Disarm,
        Op::ShowUpdate { k },
        Op::KeepAutoCommit,
        Op::Keep { query: Query::Plain("ROLLBACK"), slot: Slot::Third },
        Op::ShowRollback { k },
        Op::CheckRolledBack { k },
        Op::Drop(false),
    ]);
}

/// A round of the short-read scenario: in a directory of its own eight rows are
/// committed and made durable; a read is cut short while the database is opened.
/// Where opening fails, a clean reopen must show all eight; where it succeeds,
/// one more row is inserted, and what a clean reopen shows is judged. Either way
/// the round ends at the same place.
pub proof fn law_short_round_is_followed_up(k: u32)
    requires
        k < 1000,
    ensures
        script::short_round(k) == script::fresh(Place::Round { tag: "osr", k }, None, false)
            + Seq::new(8, |i: int| Op::Must(row_insert(i + 1))) + seq![
            Op::SyncDir,
            Op::Drop(false),
            Op::ArmShort { k, bytes: 16 },
            Op::TryOpen { synced: true },
            Op::Disarm,
            Op::SkipIfOpened(6),
            Op::ShowShortError { k },
            Op::Open,
            Op::Must(Query::Plain("PRAGMA synchronous=FULL")),
            numbered_row_check("k=", k, " count after clean reopen", 8),
            Op::Drop(false),
            Op::Skip(8),
            Op::Show {
                caption: Caption {
                    pre: "short pread#",
                    num: Some(k as u64),
                    post: " at open -> open ok, count ",
                },
                query: Query::Count,
                slot: Slot::Third,
            },
            shown(
                "insert after open -> ",
                Query::Insert { id: (100 + k) as i64, n: 1, v: Filling::Word("after") },
                Slot::Second,
            ),
            Op::Drop(false),
            Op::Open,
            Op::Must(Query::Plain("PRAGMA synchronous=FULL")),
            Op::Keep { query: Query::Count, slot: Slot::Last },
            Op::JudgeShortRead { k },
            Op::Drop(false),
        ],
{
    let a = script::fresh(Place::Round { tag: "osr", k }, None, false);
    let b = script::named_rows(8);
    assert(b =~= Seq::new(8, |i: int| Op::Must(row_insert(i + 1))));
    assert(a + b + script::short_open(k) + script::short_write(k) =~= a + b + seq![
        Op::SyncDir,
        Op::Drop(false),
        Op::ArmShort { k, bytes: 16 },
        Op::TryOpen { synced: true },
        Op::Disarm,
        Op::SkipIfOpened(6),
        Op::ShowShortError { k },
        Op::Open,
        Op::Must(Query::Plain("PRAGMA synchronous=FULL")),
        numbered_row_check("k=", k, " count after clean reopen", 8),
        Op::Drop(false),
        Op::Skip(8),
        Op::Show {
            caption: Caption {
                pre: "short pread#",
                num: Some(k as u64),
                post: " at open -> open ok, count ",
            },
            query: Query::Count,
            slot: Slot::Third,
        },
        shown(
            "insert after open -> ",
            Query::Insert { id: (100 + k) as i64, n: 1, v: Filling::Word("after") },
            Slot::Second,
        ),
        Op::Drop(false),
        Op::Open,
        Op::Must(Query::Plain("PRAGMA synchronous=FULL")),
        Op::Keep { query: Query::Count, slot: Slot::Last },
        Op::JudgeShortRead { k },
        Op::Drop(false),
    ]);
}

/// The rounds follow each other in order, and there is nothing before the first.
pub proof fn law_rounds_follow_each_other(k: nat)
    requires
        k < 1000,
    ensures
        script::savepoint_rounds(0) == Seq::<Op>::empty(),
        script::savepoint_rounds(k + 1) == script::savepoint_rounds(k) + script::savepoint_round(
            k as u32,
        ),
        script::short_rounds(0) == Seq::<Op>::empty(),
        script::short_rounds(k + 1) == script::short_rounds(k) + script::short_round(k as u32),
{
}

} // verus!
