//! What the statements of a run do, row by row, and how they are drawn.

use crate::prng;
use crate::stats;
use crate::table;
use crate::table::Table;
use crate::text;
use crate::workload;
use crate::workload::{Expect, PlanView, WorkView};
use vstd::prelude::*;

verus! {

/// A statement that raises a span adds to `n` in every row whose key lies in
/// it, keeps the rest of those rows, and leaves every other row as it is. Its
/// text names the same span and the same number.
pub proof fn law_raised_span_raises_each_of_its_rows(
    t: Table,
    first: i64,
    span: i64,
    by: i64,
    next_id: i64,
    k: i64,
)
    requires
        i64::MIN <= t[k].0 + by <= i64::MAX,
    ensures
        ({
            let plan = PlanView::UpdateRange { first, span, by };
            let after = plan.effect(t, next_id);
            &&& after.contains_key(k) <==> t.contains_key(k)
            &&& t.contains_key(k) && first <= k <= first + span ==> {
                &&& after[k].0 == t[k].0 + by
                &&& after[k].1 == t[k].1
            }
            &&& t.contains_key(k) && (k < first || first + span < k) ==> after[k] == t[k]
            &&& plan.last_id(next_id) == next_id
            &&& plan.expect() == Expect::Success
            &&& plan.sql(next_id) == "UPDATE kv SET n = n + "@ + text::decimal(by as int)
                + " WHERE id BETWEEN "@ + text::decimal(first as int) + " AND "@ + text::decimal(
                first + span,
            )
        }),
{
}

/// A statement that raises a span by one number and then by another raises it
/// by both.
pub proof fn law_raises_add_up(t: Table, first: i64, span: i64, a: i64, b: i64, next_id: i64)
    requires
        0 <= a,
        0 <= b,
        a + b <= i64::MAX,
        forall|k: i64| #[trigger] t.contains_key(k) ==> t[k].0 + a + b <= i64::MAX,
    ensures
        ({
            let once = PlanView::UpdateRange { first, span, by: a };
            let again = PlanView::UpdateRange { first, span, by: b };
            let both = PlanView::UpdateRange { first, span, by: (a + b) as i64 };
            again.effect(once.effect(t, next_id), next_id) == both.effect(t, next_id)
        }),
{
    let once = PlanView::UpdateRange { first, span, by: a };
    let again = PlanView::UpdateRange { first, span, by: b };
    let both = PlanView::UpdateRange { first, span, by: (a + b) as i64 };
    let x = again.effect(once.effect(t, next_id), next_id);
    let y = both.effect(t, next_id);
    assert forall|k: i64| x.contains_key(k) implies #[trigger] x[k] == y[k] by {
        assert(t.contains_key(k));
    }
    assert(x =~= y);
}

/// A statement that deletes a span takes away every row whose key lies in it
/// and no other. Its text names the same span.
pub proof fn law_deleted_span_loses_each_of_its_rows(
    t: Table,
    first: i64,
    span: i64,
    next_id: i64,
    k: i64,
)
    ensures
        ({
            let plan = PlanView::DeleteRange { first, span };
            let after = plan.effect(t, next_id);
            &&& first <= k <= first + span ==> !after.contains_key(k)
            &&& k < first || first + span < k ==> (after.contains_key(k) <==> t.contains_key(k))
            &&& after.contains_key(k) ==> after[k] == t[k]
            &&& plan.last_id(next_id) == next_id
            &&& plan.expect() == Expect::Success
            &&& plan.sql(next_id) == "DELETE FROM kv WHERE id BETWEEN "@ + text::decimal(
                first as int,
            ) + " AND "@ + text::decimal(first + span)
        }),
{
}

/// A statement that inserts adds one row, under the key after the last one
/// used, and its text says so.
pub proof fn law_insert_adds_its_row(t: Table, n: i64, v: Seq<char>, next_id: i64)
    requires
        next_id < i64::MAX,
    ensures
        ({
            let plan = PlanView::Insert { n, v };
            let id = (next_id + 1) as i64;
            &&& plan.effect(t, next_id) == t.insert(id, (n, v))
            &&& plan.last_id(next_id) == id
            &&& plan.expect() == Expect::Success
            &&& plan.sql(next_id) == "INSERT INTO kv VALUES("@ + text::decimal(next_id + 1) + ", "@
                + text::decimal(n as int) + ", '"@ + v + "')"@
        }),
{
}

/// A statement that inserts under a key that is taken changes nothing and is
/// expected to break the constraint.
pub proof fn law_duplicate_changes_nothing(t: Table, id: i64, n: i64, v: Seq<char>, next_id: i64)
    ensures
        ({
            let plan = PlanView::Duplicate { id, n, v };
            &&& plan.effect(t, next_id) == t
            &&& plan.last_id(next_id) == next_id
            &&& plan.expect() == Expect::Constraint
            &&& plan.sql(next_id) == "INSERT INTO kv VALUES("@ + text::decimal(id as int) + ", "@
                + text::decimal(n as int) + ", '"@ + v + "')"@
        }),
{
}

/// A statement that rewrites one row rewrites both its values and no other row.
pub proof fn law_update_rewrites_its_row(t: Table, id: i64, n: i64, v: Seq<char>, next_id: i64)
    ensures
        ({
            let plan = PlanView::Update { id, n, v };
            &&& plan.effect(t, next_id) == t.insert(id, (n, v))
            &&& plan.last_id(next_id) == next_id
            &&& plan.expect() == Expect::Success
            &&& plan.sql(next_id) == "UPDATE kv SET n = "@ + text::decimal(n as int) + ", v = '"@
                + v + "' WHERE id = "@ + text::decimal(id as int)
        }),
{
}

/// A statement that deletes one row takes that row away and no other; one that
/// counts changes nothing.
pub proof fn law_delete_and_count(t: Table, id: i64, next_id: i64)
    ensures
        ({
            let plan = PlanView::Delete { id };
            &&& plan.effect(t, next_id) == t.remove(id)
            &&& plan.last_id(next_id) == next_id
            &&& plan.expect() == Expect::Success
            &&& plan.sql(next_id) == "DELETE FROM kv WHERE id = "@ + text::decimal(id as int)
        }),
        PlanView::Count.effect(t, next_id) == t,
        PlanView::Count.last_id(next_id) == next_id,
        PlanView::Count.expect() == Expect::Count,
        PlanView::Count.sql(next_id) == "SELECT count(*), coalesce(sum(n), 0) FROM kv"@,
{
}

/// Drawing a statement counts it once, under the name of its kind, and changes
/// no other counter.
pub proof fn law_statement_is_counted_once(w: WorkView, t: Table, big: u64, k: Seq<char>)
    requires
        w.statement_fits(t, big),
    ensures
        ({
            let plan = w.plan(t, big);
            let name = match plan {
                PlanView::Insert { .. } => "insert"@,
                PlanView::Duplicate { .. } => "insert-dup"@,
                PlanView::Update { .. } => "update"@,
                PlanView::UpdateRange { .. } => "update-range"@,
                PlanView::Delete { .. } => "delete"@,
                PlanView::DeleteRange { .. } => "delete-range"@,
                PlanView::Count => "select-count"@,
            };
            let before = if w.stats.contains_key(k) {
                w.stats[k] as int
            } else {
                0
            };
            let after = w.planned(t, big);
            &&& k == name ==> after.stats.contains_key(k) && after.stats[k] == before + 1
            &&& k != name ==> {
                &&& after.stats.contains_key(k) <==> w.stats.contains_key(k)
                &&& after.stats[k] == w.stats[k]
            }
            &&& after.next_id == (if plan is Insert {
                w.next_id + 1
            } else {
                w.next_id as int
            })
        }),
{
    assert(w.plan(t, big).fits(t, w.next_id));
}

/// Which kind of statement comes next: the first draw out of a hundred and the
/// second out of a thousand decide, and on an empty table it is an insert.
pub proof fn law_kinds_are_drawn_by_their_share(w: WorkView, t: Table, ks: Seq<i64>, big: u64)
    requires
        table::lists_keys(ks, t),
    ensures
        ({
            let first = prng::prng_draw(w.rng) % 100;
            let second = prng::prng_draw(prng::prng_advance(w.rng)) % 1000;
            let plan = w.plan(t, big);
            &&& ks.len() == 0 ==> plan is Insert
            &&& ks.len() > 0 && first < 40 && second < 80 ==> plan is Duplicate
            &&& ks.len() > 0 && first < 40 && second >= 80 ==> plan is Insert
            &&& ks.len() > 0 && 40 <= first < 65 && second < 700 ==> plan is Update
            &&& ks.len() > 0 && 40 <= first < 65 && second >= 700 ==> plan is UpdateRange
            &&& ks.len() > 0 && 65 <= first < 85 && second < 700 ==> plan is Delete
            &&& ks.len() > 0 && 65 <= first < 85 && second >= 700 ==> plan is DeleteRange
            &&& ks.len() > 0 && 85 <= first ==> plan is Count
        }),
{
    reveal_with_fuel(prng::prng_skip, 6);
    table::lemma_keys_of(ks, t);
}

/// Every number of a statement comes from a draw of its own: a key is one of
/// the table's keys, taken by its position, and the others lie in the range of
/// their kind.
pub proof fn law_numbers_are_drawn_apart(w: WorkView, t: Table, ks: Seq<i64>, big: u64)
    requires
        table::lists_keys(ks, t),
        ks.len() < u64::MAX,
    ensures
        ({
            let r1 = prng::prng_advance(w.rng);
            let r2 = prng::prng_advance(r1);
            let r3 = prng::prng_advance(r2);
            let r4 = prng::prng_advance(r3);
            let r5 = prng::prng_advance(r4);
            let d2 = prng::prng_draw(r2) as int;
            let d3 = prng::prng_draw(r3) as int;
            let d4 = prng::prng_draw(r4) as int;
            let after = w.planned(t, big).rng;
            match w.plan(t, big) {
                PlanView::Insert { n, v } => if ks.len() == 0 {
                    &&& n == prng::prng_draw(r1) as int % 1001
                    &&& v == workload::value_drawn(r2, big)
                    &&& after == workload::value_skip(r2, big)
                } else {
                    &&& n == d2 % 1001
                    &&& v == workload::value_drawn(r3, big)
                    &&& after == workload::value_skip(r3, big)
                },
                PlanView::Duplicate { id, n, v } => {
                    &&& t.contains_key(id)
                    &&& id == ks[d2 % (ks.len() as int)]
                    &&& n == d3 % 1001
                    &&& v == workload::value_drawn(r4, big)
                    &&& after == workload::value_skip(r4, big)
                },
                PlanView::Update { id, n, v } => {
                    &&& t.contains_key(id)
                    &&& id == ks[d2 % (ks.len() as int)]
                    &&& n == d3 % 1001
                    &&& v == workload::value_drawn(r4, big)
                    &&& after == workload::value_skip(r4, big)
                },
                PlanView::UpdateRange { first, span, by } => {
                    &&& t.contains_key(first)
                    &&& first == ks[d2 % (ks.len() as int)]
                    &&& span == 1 + d3 % 40
                    &&& by == 1 + d4 % 9
                    &&& after == r5
                },
                PlanView::Delete { id } => {
                    &&& t.contains_key(id)
                    &&& id == ks[d2 % (ks.len() as int)]
                    &&& after == r3
                },
                PlanView::DeleteRange { first, span } => {
                    &&& t.contains_key(first)
                    &&& first == ks[d2 % (ks.len() as int)]
                    &&& span == 1 + d3 % 30
                    &&& after == r4
                },
                PlanView::Count => after == r1,
            }
        }),
{
    reveal_with_fuel(prng::prng_skip, 6);
    table::lemma_keys_of(ks, t);
    if ks.len() > 0 {
        let r2 = prng::prng_skip(w.rng, 2);
        let d2 = prng::prng_draw(r2) as int;
        let at = d2 % (ks.len() as int);
        assert(0 <= at < ks.len()) by (nonlinear_arith)
            requires
                ks.len() > 0,
                at == d2 % (ks.len() as int),
        ;
        assert(workload::key_drawn(r2, ks) == ks[at]);
        assert(ks.to_set().contains(ks[at]));
    }
}

/// A value is long with the given probability: between 1500 and 24000 small
/// letters, its length and its letters each drawn once. Any other value is a
/// `v` and a number of at most five digits.
pub proof fn law_values_are_long_or_short(rng: u64, big: u64)
    ensures
        ({
            let r1 = prng::prng_advance(rng);
            let r2 = prng::prng_advance(r1);
            let r3 = prng::prng_advance(r2);
            let v = workload::value_drawn(rng, big);
            if prng::prng_draw(rng) % 1000 < big {
                let seed = prng::prng_draw(r2) as int;
                &&& v.len() == 1500 + prng::prng_draw(r1) as int % 22501
                &&& forall|i: int|
                    0 <= i < v.len() ==> 'a' <= #[trigger] v[i] <= 'z' && v[i] as int == 97 + (((
                    seed + i) * 31) % 0x1_0000_0000_0000_0000) % 26
                &&& workload::value_skip(rng, big) == r3
            } else {
                &&& v == seq!['v'] + text::decimal(prng::prng_draw(r1) as int % 100_000)
                &&& workload::value_skip(rng, big) == r2
            }
        }),
{
    reveal_with_fuel(prng::prng_skip, 4);
    reveal_strlit("v");
    assert("v"@ =~= seq!['v']);
    let v = workload::value_drawn(rng, big);
    if prng::prng_draw(rng) % 1000 < big {
        let seed = prng::prng_draw(prng::prng_skip(rng, 2));
        assert forall|i: int| 0 <= i < v.len() implies 'a' <= #[trigger] v[i] <= 'z' && v[i] as int
            == 97 + (((seed + i) * 31) % 0x1_0000_0000_0000_0000) % 26 by {
            let x = seed.wrapping_add(i as u64);
            let w: int = 0x1_0000_0000_0000_0000;
            assert(x as int == (seed + i) % w);
            vstd::arithmetic::div_mod::lemma_mul_mod_noop_left(seed + i, 31, w);
            assert(x.wrapping_mul(31) as int == (x * 31) % w);
        }
    }
}

/// A counter that is raised by one stands one higher, and every other counter
/// where it stood.
pub proof fn law_one_counter_is_raised(w: WorkView, k: Seq<char>, j: Seq<char>)
    requires
        !w.stats.contains_key(k) || w.stats[k] < u64::MAX,
    ensures
        w.bumped(k).stats.contains_key(k),
        w.bumped(k).stats[k] == (if w.stats.contains_key(k) {
            w.stats[k] + 1
        } else {
            1
        }),
        j != k ==> (w.bumped(k).stats.contains_key(j) <==> w.stats.contains_key(j)),
        j != k ==> w.bumped(k).stats[j] == w.stats[j],
        w.bumped(k).rng == w.rng,
        w.bumped(k).next_id == w.next_id,
{
    assert(stats::has_room(w.stats, k, 1));
}

/// One draw moves the generator on by one and changes nothing else.
pub proof fn law_a_draw_changes_only_the_generator(w: WorkView)
    ensures
        w.drawn().rng == w.rng.wrapping_add(0x9e37_79b9_7f4a_7c15),
        w.drawn().next_id == w.next_id,
        w.drawn().stats == w.stats,
{
}

/// When a statement can be planned: an insert needs a next key, a span must end
/// within 64 bits and so must each number that is raised in it, and its kind
/// must have room for one more count. Nothing else stands in its way.
pub proof fn law_when_a_statement_fits(w: WorkView, t: Table, big: u64)
    ensures
        w.statement_fits(t, big) <==> {
            let plan = w.plan(t, big);
            let k = plan.counter();
            &&& !w.stats.contains_key(k) || w.stats[k] < u64::MAX
            &&& match plan {
                PlanView::Insert { .. } => w.next_id < i64::MAX,
                PlanView::UpdateRange { first, span, by } => {
                    &&& first + span <= i64::MAX
                    &&& forall|k: i64| #[trigger]
                        t.contains_key(k) && first <= k <= first + span ==> t[k].0 + by <= i64::MAX
                },
                PlanView::DeleteRange { first, span } => first + span <= i64::MAX,
                _ => true,
            }
        },
{
}

} // verus!
