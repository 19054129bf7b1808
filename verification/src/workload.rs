//! The statements of a run: what they say, what they do to the table, and what
//! is expected of them.

use crate::prng;
use crate::prng::Prng;
use crate::stats;
use crate::stats::{Counts, Stats};
use crate::table;
use crate::table::{drop_row, find_row, model_keys, put_row, Model, Table};
use crate::text;
use crate::text::{push_signed, push_unsigned};
use vstd::prelude::*;
use vstd::string::*;

verus! {

/// What is expected of a statement.
#[derive(Debug, PartialEq, Eq, Clone, Copy, Structural)]
pub enum Expect {
    Success,
    Constraint,
    Count,
}

/// Letter `i` of a long value, drawn from `seed`.
pub open spec fn value_letter(seed: u64, i: int) -> char {
    (97 + seed.wrapping_add(i as u64).wrapping_mul(31) % 26) as char
}

/// The value that is drawn when the generator stands at `rng`: a long one with
/// probability `big_permille`, a short one otherwise.
pub open spec fn value_drawn(rng: u64, big_permille: u64) -> Seq<char> {
    if prng::prng_hit(rng, big_permille) {
        let len = prng::prng_pick(prng::prng_skip(rng, 1), 1500, 24000);
        let seed = prng::prng_draw(prng::prng_skip(rng, 2));
        Seq::new(len as nat, |i: int| value_letter(seed, i))
    } else {
        "v"@ + text::decimal(prng::prng_draw(prng::prng_skip(rng, 1)) as int % 100_000)
    }
}

/// The generator after a value has been drawn.
pub open spec fn value_skip(rng: u64, big_permille: u64) -> u64 {
    if prng::prng_hit(rng, big_permille) {
        prng::prng_skip(rng, 3)
    } else {
        prng::prng_skip(rng, 2)
    }
}

/// One statement, before it is put into words.
pub enum Plan {
    /// Inserts a row under the next unused key.
    Insert { n: i64, v: String },
    /// Inserts a row under a key that is taken.
    Duplicate { id: i64, n: i64, v: String },
    /// Rewrites one row.
    Update { id: i64, n: i64, v: String },
    /// Adds to `n` in each row from key `first` to key `first + span`.
    UpdateRange { first: i64, span: i64, by: i64 },
    /// Deletes one row.
    Delete { id: i64 },
    /// Deletes each row from key `first` to key `first + span`.
    DeleteRange { first: i64, span: i64 },
    /// Counts the rows and sums `n`: a read that must see the state so far.
    Count,
}

/// One statement, as a mathematical value.
pub enum PlanView {
    Insert { n: i64, v: Seq<char> },
    Duplicate { id: i64, n: i64, v: Seq<char> },
    Update { id: i64, n: i64, v: Seq<char> },
    UpdateRange { first: i64, span: i64, by: i64 },
    Delete { id: i64 },
    DeleteRange { first: i64, span: i64 },
    Count,
}

impl View for Plan {
    type V = PlanView;

    open spec fn view(&self) -> PlanView {
        match self {
            Plan::Insert { n, v } => PlanView::Insert { n: *n, v: v@ },
            Plan::Duplicate { id, n, v } => PlanView::Duplicate { id: *id, n: *n, v: v@ },
            Plan::Update { id, n, v } => PlanView::Update { id: *id, n: *n, v: v@ },
            Plan::UpdateRange { first, span, by } => PlanView::UpdateRange {
                first: *first,
                span: *span,
                by: *by,
            },
            Plan::Delete { id } => PlanView::Delete { id: *id },
            Plan::DeleteRange { first, span } => PlanView::DeleteRange {
                first: *first,
                span: *span,
            },
            Plan::Count => PlanView::Count,
        }
    }
}

/// A key drawn from those there are.
pub open spec fn key_drawn(rng: u64, keys: Seq<i64>) -> i64 {
    keys[prng::prng_pick(rng, 0, (keys.len() - 1) as u64) as int]
}

/// A number drawn from `[lo, hi]`.
pub open spec fn number_drawn(rng: u64, lo: u64, hi: u64) -> i64 {
    prng::prng_pick(rng, lo, hi) as i64
}

/// The statement that is drawn when the generator stands at `rng` and the
/// table has `keys`, and the generator after that.
pub open spec fn plan_drawn(rng: u64, keys: Seq<i64>, big_permille: u64) -> (PlanView, u64) {
    let roll = prng::prng_pick(rng, 0, 99);
    let r1 = prng::prng_skip(rng, 1);
    let r2 = prng::prng_skip(rng, 2);
    let r3 = prng::prng_skip(rng, 3);
    let r4 = prng::prng_skip(rng, 4);
    let r5 = prng::prng_skip(rng, 5);
    if keys.len() == 0 {
        (
            PlanView::Insert { n: number_drawn(r1, 0, 1000), v: value_drawn(r2, big_permille) },
            value_skip(r2, big_permille),
        )
    } else if roll < 40 {
        if prng::prng_hit(r1, 80) {
            (
                PlanView::Duplicate {
                    id: key_drawn(r2, keys),
                    n: number_drawn(r3, 0, 1000),
                    v: value_drawn(r4, big_permille),
                },
                value_skip(r4, big_permille),
            )
        } else {
            (
                PlanView::Insert {
                    n: number_drawn(r2, 0, 1000),
                    v: value_drawn(r3, big_permille),
                },
                value_skip(r3, big_permille),
            )
        }
    } else if roll < 65 {
        if prng::prng_hit(r1, 700) {
            (
                PlanView::Update {
                    id: key_drawn(r2, keys),
                    n: number_drawn(r3, 0, 1000),
                    v: value_drawn(r4, big_permille),
                },
                value_skip(r4, big_permille),
            )
        } else {
            (
                PlanView::UpdateRange {
                    first: key_drawn(r2, keys),
                    span: number_drawn(r3, 1, 40),
                    by: number_drawn(r4, 1, 9),
                },
                r5,
            )
        }
    } else if roll < 85 {
        if prng::prng_hit(r1, 700) {
            (PlanView::Delete { id: key_drawn(r2, keys) }, r3)
        } else {
            (
                PlanView::DeleteRange {
                    first: key_drawn(r2, keys),
                    span: number_drawn(r3, 1, 30),
                },
                r4,
            )
        }
    } else {
        (PlanView::Count, r1)
    }
}

/// Whether a key lies from `first` to `first + span`.
pub open spec fn in_span(k: i64, first: i64, span: i64) -> bool {
    first <= k <= first + span
}

/// A table with `by` added to `n` in each row of a span.
pub open spec fn span_raised(t: Table, first: i64, span: i64, by: i64) -> Table {
    Map::new(
        |k: i64| t.contains_key(k),
        |k: i64|
            if in_span(k, first, span) {
                ((t[k].0 + by) as i64, t[k].1)
            } else {
                t[k]
            },
    )
}

/// A table without the rows of a span.
pub open spec fn span_dropped(t: Table, first: i64, span: i64) -> Table {
    Map::new(|k: i64| t.contains_key(k) && !in_span(k, first, span), |k: i64| t[k])
}

impl PlanView {
    /// Whether the arithmetic of the statement stays within 64 bits.
    pub open spec fn fits(self, t: Table, next_id: i64) -> bool {
        match self {
            PlanView::Insert { .. } => next_id < i64::MAX,
            PlanView::UpdateRange { first, span, by } => {
                &&& first + span <= i64::MAX
                &&& forall|k: i64| #[trigger]
                    t.contains_key(k) && in_span(k, first, span) ==> t[k].0 + by <= i64::MAX
            },
            PlanView::DeleteRange { first, span } => first + span <= i64::MAX,
            _ => true,
        }
    }

    /// The table after the statement, where it succeeds as expected.
    pub open spec fn effect(self, t: Table, next_id: i64) -> Table {
        match self {
            PlanView::Insert { n, v } => t.insert((next_id + 1) as i64, (n, v)),
            PlanView::Update { id, n, v } => t.insert(id, (n, v)),
            PlanView::UpdateRange { first, span, by } => span_raised(t, first, span, by),
            PlanView::Delete { id } => t.remove(id),
            PlanView::DeleteRange { first, span } => span_dropped(t, first, span),
            PlanView::Duplicate { .. } | PlanView::Count => t,
        }
    }

    /// The last used key after the statement.
    pub open spec fn last_id(self, next_id: i64) -> i64 {
        match self {
            PlanView::Insert { .. } => (next_id + 1) as i64,
            _ => next_id,
        }
    }

    /// What is expected of the statement.
    pub open spec fn expect(self) -> Expect {
        match self {
            PlanView::Duplicate { .. } => Expect::Constraint,
            PlanView::Count => Expect::Count,
            _ => Expect::Success,
        }
    }

    /// The name under which the statement is counted.
    pub open spec fn counter(self) -> Seq<char> {
        match self {
            PlanView::Insert { .. } => "insert"@,
            PlanView::Duplicate { .. } => "insert-dup"@,
            PlanView::Update { .. } => "update"@,
            PlanView::UpdateRange { .. } => "update-range"@,
            PlanView::Delete { .. } => "delete"@,
            PlanView::DeleteRange { .. } => "delete-range"@,
            PlanView::Count => "select-count"@,
        }
    }

    /// The statement in SQL.
    pub open spec fn sql(self, next_id: i64) -> Seq<char> {
        match self {
            PlanView::Insert { n, v } => insert_sql(next_id + 1, n as int, v),
            PlanView::Duplicate { id, n, v } => insert_sql(id as int, n as int, v),
            PlanView::Update { id, n, v } => "UPDATE kv SET n = "@ + text::decimal(n as int)
                + ", v = '"@ + v + "' WHERE id = "@ + text::decimal(id as int),
            PlanView::UpdateRange { first, span, by } => "UPDATE kv SET n = n + "@ + text::decimal(
                by as int,
            ) + " WHERE id BETWEEN "@ + text::decimal(first as int) + " AND "@ + text::decimal(
                first + span,
            ),
            PlanView::Delete { id } => "DELETE FROM kv WHERE id = "@ + text::decimal(id as int),
            PlanView::DeleteRange { first, span } => "DELETE FROM kv WHERE id BETWEEN "@
                + text::decimal(first as int) + " AND "@ + text::decimal(first + span),
            PlanView::Count => "SELECT count(*), coalesce(sum(n), 0) FROM kv"@,
        }
    }
}

/// The statement that inserts a row.
pub open spec fn insert_sql(id: int, n: int, v: Seq<char>) -> Seq<char> {
    "INSERT INTO kv VALUES("@ + text::decimal(id) + ", "@ + text::decimal(n) + ", '"@ + v + "')"@
}

/// Words the statement that inserts a row.
pub fn insert_text(id: i64, n: i64, v: &str) -> (sql: String)
    ensures
        sql@ == insert_sql(id as int, n as int, v@),
{
    let mut sql = "INSERT INTO kv VALUES(".to_owned();
    push_signed(&mut sql, id);
    sql.append(", ");
    push_signed(&mut sql, n);
    sql.append(", '");
    sql.append(v);
    sql.append("')");
    sql
}

fn push_between(sql: &mut String, first: i64, last: i64)
    ensures
        final(sql)@ == old(sql)@ + text::decimal(first as int) + " AND "@ + text::decimal(
            last as int,
        ),
{
    push_signed(sql, first);
    sql.append(" AND ");
    push_signed(sql, last);
}

/// Where a run of statements stands, as a mathematical value.
#[verifier::ext_equal]
pub struct WorkView {
    pub rng: u64,
    pub next_id: i64,
    pub stats: Counts,
}

impl WorkView {
    /// After one more thing of a kind has been counted.
    pub open spec fn bumped(self, k: Seq<char>) -> Self {
        WorkView { stats: stats::bumped(self.stats, k), ..self }
    }

    /// After one draw.
    pub open spec fn drawn(self) -> Self {
        WorkView { rng: prng::prng_advance(self.rng), ..self }
    }

    /// The statement that comes next on a table.
    pub open spec fn plan(self, t: Table, big_permille: u64) -> PlanView {
        plan_drawn(self.rng, table::keys_of(t), big_permille).0
    }

    /// Whether the statement that comes next stays within 64 bits, and can be
    /// counted.
    pub open spec fn statement_fits(self, t: Table, big_permille: u64) -> bool {
        let plan = self.plan(t, big_permille);
        plan.fits(t, self.next_id) && stats::has_room(self.stats, plan.counter(), 1)
    }

    /// After that statement has been drawn.
    pub open spec fn planned(self, t: Table, big_permille: u64) -> Self {
        let (plan, rng) = plan_drawn(self.rng, table::keys_of(t), big_permille);
        WorkView {
            rng,
            next_id: plan.last_id(self.next_id),
            stats: stats::bumped(self.stats, plan.counter()),
        }
    }
}

/// Where a run of statements stands: its generator, the last key it has used,
/// and what it has counted.
pub struct Workload {
    pub rng: Prng,
    pub next_id: i64,
    pub stats: Stats,
}

impl View for Workload {
    type V = WorkView;

    open spec fn view(&self) -> WorkView {
        WorkView { rng: self.rng.0, next_id: self.next_id, stats: self.stats@ }
    }
}

fn draw_value(rng: &mut Prng, big_permille: u64) -> (v: String)
    ensures
        v@ == value_drawn(old(rng).0, big_permille),
        final(rng).0 == value_skip(old(rng).0, big_permille),
{
    proof {
        reveal_with_fuel(prng::prng_skip, 4);
    }
    if rng.chance(big_permille) {
        let len: u64 = rng.range(1500, 24000);
        let seed: u64 = rng.next();
        let mut s = String::new();
        let mut i: u64 = 0;
        while i < len
            invariant
                i <= len,
                s@ == Seq::new(i as nat, |j: int| value_letter(seed, j)),
            decreases len - i,
        {
            let offset: u64 = seed.wrapping_add(i).wrapping_mul(31) % 26;
            let c: char = (97 + offset as u8) as char;
            s.push(c);
            i += 1;
            proof {
                assert(s@ =~= Seq::new(i as nat, |j: int| value_letter(seed, j)));
            }
        }
        s
    } else {
        let mut s = "v".to_owned();
        push_unsigned(&mut s, rng.next() % 100_000);
        s
    }
}

fn draw_key(rng: &mut Prng, keys: &Vec<i64>) -> (k: i64)
    requires
        keys@.len() > 0,
    ensures
        k == key_drawn(old(rng).0, keys@),
        keys@.contains(k),
        final(rng).0 == prng::prng_advance(old(rng).0),
{
    let last: u64 = keys.len() as u64 - 1;
    let i: usize = rng.range(0, last) as usize;
    keys[i]
}

fn draw_number(rng: &mut Prng, lo: u64, hi: u64) -> (n: i64)
    requires
        lo <= hi <= i64::MAX,
    ensures
        n == number_drawn(old(rng).0, lo, hi),
        lo <= n <= hi,
        final(rng).0 == prng::prng_advance(old(rng).0),
{
    rng.range(lo, hi) as i64
}

fn draw_plan(rng: &mut Prng, keys: &Vec<i64>, big_permille: u64) -> (plan: Plan)
    ensures
        (plan@, final(rng).0) == plan_drawn(old(rng).0, keys@, big_permille),
{
    proof {
        reveal_with_fuel(prng::prng_skip, 6);
    }
    let roll: u64 = rng.range(0, 99);
    if roll < 40 || keys.len() == 0 {
        let dup: bool = keys.len() != 0 && rng.chance(80);
        if dup {
            let id: i64 = draw_key(rng, keys);
            let n: i64 = draw_number(rng, 0, 1000);
            let v = draw_value(rng, big_permille);
            Plan::Duplicate { id, n, v }
        } else {
            let n: i64 = draw_number(rng, 0, 1000);
            let v = draw_value(rng, big_permille);
            Plan::Insert { n, v }
        }
    } else if roll < 65 {
        if rng.chance(700) {
            let id: i64 = draw_key(rng, keys);
            let n: i64 = draw_number(rng, 0, 1000);
            let v = draw_value(rng, big_permille);
            Plan::Update { id, n, v }
        } else {
            let first: i64 = draw_key(rng, keys);
            let span: i64 = draw_number(rng, 1, 40);
            let by: i64 = draw_number(rng, 1, 9);
            Plan::UpdateRange { first, span, by }
        }
    } else if roll < 85 {
        if rng.chance(700) {
            let id: i64 = draw_key(rng, keys);
            Plan::Delete { id }
        } else {
            let first: i64 = draw_key(rng, keys);
            let span: i64 = draw_number(rng, 1, 30);
            Plan::DeleteRange { first, span }
        }
    } else {
        Plan::Count
    }
}

fn raise_span(m: &Model, first: i64, span: i64, by: i64) -> (out: Model)
    requires
        0 <= span,
        0 <= by,
        (PlanView::UpdateRange { first, span, by }).fits(table::table(*m), 0),
    ensures
        table::table(out) == span_raised(table::table(*m), first, span, by),
{
    let keys = model_keys(m);
    let last: i64 = first + span;
    let mut out: Model = m.clone();
    let mut i: usize = 0;
    let ghost t = table::table(*m);
    proof {
        assert(table::table(out) =~= t);
    }
    while i < keys.len()
        invariant
            i <= keys.len(),
            t == table::table(*m),
            table::lists_keys(keys@, t),
            last == first + span,
            0 <= by,
            (PlanView::UpdateRange { first, span, by }).fits(t, 0),
            table::table(out).dom() == t.dom(),
            forall|k: i64| #[trigger]
                t.contains_key(k) ==> table::table(out)[k] == (if in_span(k, first, span)
                    && keys@.take(i as int).contains(k) {
                    ((t[k].0 + by) as i64, t[k].1)
                } else {
                    t[k]
                }),
        decreases keys.len() - i,
    {
        let k: i64 = keys[i];
        proof {
            assert(keys@.to_set().contains(k));
            assert(t.contains_key(k));
            let now = keys@.take(i + 1);
            let before = keys@.take(i as int);
            assert(now =~= before.push(k));
            assert forall|x: i64| now.contains(x) <==> (x == k || before.contains(x)) by {
                assert(now[i as int] == k);
                if before.contains(x) {
                    let j = choose|j: int| 0 <= j < before.len() && before[j] == x;
                    assert(now[j] == x);
                }
                if now.contains(x) && x != k {
                    let j = choose|j: int| 0 <= j < now.len() && now[j] == x;
                    assert(before[j] == x);
                }
            }
        }
        if k >= first && k <= last {
            if let Some((n, v)) = find_row(m, k) {
                put_row(&mut out, k, n + by, v.to_owned());
            }
            proof {
                assert(table::table(out).dom() =~= t.dom());
            }
        }
        i += 1;
    }
    proof {
        assert(keys@.take(keys@.len() as int) =~= keys@);
        assert forall|k: i64| t.contains_key(k) implies keys@.contains(k) by {
            assert(keys@.to_set().contains(k));
        }
        assert(table::table(out) =~= span_raised(t, first, span, by));
    }
    out
}

fn drop_span(m: &Model, first: i64, span: i64) -> (out: Model)
    requires
        0 <= span,
        first + span <= i64::MAX,
    ensures
        table::table(out) == span_dropped(table::table(*m), first, span),
{
    let keys = model_keys(m);
    let last: i64 = first + span;
    let mut out: Model = m.clone();
    let mut i: usize = 0;
    let ghost t = table::table(*m);
    proof {
        assert(table::table(out) =~= t);
    }
    while i < keys.len()
        invariant
            i <= keys.len(),
            t == table::table(*m),
            table::lists_keys(keys@, t),
            last == first + span,
            forall|k: i64| #[trigger]
                table::table(out).contains_key(k) <==> t.contains_key(k) && !(in_span(
                    k,
                    first,
                    span,
                ) && keys@.take(i as int).contains(k)),
            forall|k: i64| #[trigger]
                table::table(out).contains_key(k) ==> table::table(out)[k] == t[k],
        decreases keys.len() - i,
    {
        let k: i64 = keys[i];
        proof {
            let now = keys@.take(i + 1);
            let before = keys@.take(i as int);
            assert(now =~= before.push(k));
            assert forall|x: i64| now.contains(x) <==> (x == k || before.contains(x)) by {
                assert(now[i as int] == k);
                if before.contains(x) {
                    let j = choose|j: int| 0 <= j < before.len() && before[j] == x;
                    assert(now[j] == x);
                }
                if now.contains(x) && x != k {
                    let j = choose|j: int| 0 <= j < now.len() && now[j] == x;
                    assert(before[j] == x);
                }
            }
        }
        if k >= first && k <= last {
            drop_row(&mut out, k);
        }
        i += 1;
    }
    proof {
        assert(keys@.take(keys@.len() as int) =~= keys@);
        assert forall|k: i64| t.contains_key(k) implies keys@.contains(k) by {
            assert(keys@.to_set().contains(k));
        }
        assert(table::table(out) =~= span_dropped(t, first, span));
    }
    out
}

fn span_fits(m: &Model, first: i64, span: i64, by: i64) -> (yes: bool)
    requires
        0 <= span,
        0 <= by,
    ensures
        yes == (PlanView::UpdateRange { first, span, by }).fits(table::table(*m), 0),
{
    if first > i64::MAX - span {
        return false;
    }
    let last: i64 = first + span;
    let keys = model_keys(m);
    let mut i: usize = 0;
    let ghost t = table::table(*m);
    while i < keys.len()
        invariant
            i <= keys.len(),
            t == table::table(*m),
            table::lists_keys(keys@, t),
            last == first + span,
            0 <= by,
            forall|j: int|
                0 <= j < i && in_span(#[trigger] keys@[j], first, span) ==> t[keys@[j]].0 + by
                    <= i64::MAX,
        decreases keys.len() - i,
    {
        let k: i64 = keys[i];
        proof {
            assert(keys@.to_set().contains(k));
            assert(t.contains_key(k));
        }
        if k >= first && k <= last {
            if let Some((n, _)) = find_row(m, k) {
                if n > i64::MAX - by {
                    return false;
                }
            }
        }
        i += 1;
    }
    proof {
        assert forall|k: i64| #[trigger]
            t.contains_key(k) && in_span(k, first, span) implies t[k].0 + by <= i64::MAX by {
            assert(keys@.to_set().contains(k));
            let j = choose|j: int| 0 <= j < keys@.len() && keys@[j] == k;
            assert(in_span(keys@[j], first, span));
        }
    }
    true
}

impl Clone for Workload {
    fn clone(&self) -> (out: Workload)
        ensures
            out@ == self@,
            self.wf() ==> out.wf(),
    {
        Workload { rng: Prng(self.rng.0), next_id: self.next_id, stats: self.stats.clone() }
    }
}

impl Workload {
    /// Whether the counters are in order.
    pub open spec fn wf(self) -> bool {
        self.stats.wf()
    }

    /// A run of statements that begins at a seed.
    pub fn new(seed: u64) -> (wl: Workload)
        ensures
            wl.wf(),
            wl@ == (WorkView { rng: seed, next_id: 0, stats: Map::empty() }),
    {
        Workload { rng: Prng(seed), next_id: 0, stats: Stats::new() }
    }

    /// Whether one more thing of a kind can be counted.
    pub fn can_bump(&self, k: &str) -> (yes: bool)
        requires
            self.wf(),
        ensures
            yes == stats::has_room(self@.stats, k@, 1),
    {
        self.stats.can_raise(k, 1)
    }

    /// Counts one more thing of a kind.
    pub fn bump(&mut self, k: &'static str)
        requires
            old(self).wf(),
            stats::has_room(old(self)@.stats, k@, 1),
        ensures
            final(self).wf(),
            final(self)@ == old(self)@.bumped(k@),
    {
        self.stats.bump(k);
    }

    /// Draws a value.
    pub fn value(&mut self, big_permille: u64) -> (v: String)
        ensures
            v@ == value_drawn(old(self)@.rng, big_permille),
            final(self)@ == (WorkView {
                rng: value_skip(old(self)@.rng, big_permille),
                ..old(self)@
            }),
            old(self).wf() ==> final(self).wf(),
    {
        draw_value(&mut self.rng, big_permille)
    }

    /// Whether the statement that comes next stays within 64 bits, and can be
    /// counted.
    pub fn can_state(&self, m: &Model, big_permille: u64) -> (yes: bool)
        requires
            self.wf(),
        ensures
            yes == self@.statement_fits(table::table(*m), big_permille),
    {
        let keys = model_keys(m);
        let mut probe = Prng(self.rng.0);
        let plan = draw_plan(&mut probe, &keys, big_permille);
        let (fits, counter) = match &plan {
            Plan::Insert { .. } => (self.next_id < i64::MAX, "insert"),
            Plan::Duplicate { .. } => (true, "insert-dup"),
            Plan::Update { .. } => (true, "update"),
            Plan::UpdateRange { first, span, by } => (
                span_fits(m, *first, *span, *by),
                "update-range",
            ),
            Plan::Delete { .. } => (true, "delete"),
            Plan::DeleteRange { first, span } => (*first <= i64::MAX - *span, "delete-range"),
            Plan::Count => (true, "select-count"),
        };
        fits && self.stats.count(counter) < u64::MAX
    }

    /// Draws one statement: its text, its effect on `m` where it succeeds, and
    /// what is expected of it.
    pub fn statement(&mut self, m: &Model, big_permille: u64) -> (out: (String, Model, Expect))
        requires
            old(self).wf(),
            old(self)@.statement_fits(table::table(*m), big_permille),
        ensures
            ({
                let plan = old(self)@.plan(table::table(*m), big_permille);
                &&& out.0@ == plan.sql(old(self)@.next_id)
                &&& table::table(out.1) == plan.effect(table::table(*m), old(self)@.next_id)
                &&& out.2 == plan.expect()
            }),
            final(self)@ == old(self)@.planned(table::table(*m), big_permille),
            final(self).wf(),
    {
        let keys = model_keys(m);
        let plan = draw_plan(&mut self.rng, &keys, big_permille);
        let mut next: Model = m.clone();
        proof {
            assert(table::table(next) =~= table::table(*m));
        }
        match plan {
            Plan::Insert { n, v } => {
                self.next_id = self.next_id + 1;
                let sql = insert_text(self.next_id, n, v.as_str());
                put_row(&mut next, self.next_id, n, v);
                self.bump("insert");
                (sql, next, Expect::Success)
            },
            Plan::Duplicate { id, n, v } => {
                let sql = insert_text(id, n, v.as_str());
                self.bump("insert-dup");
                (sql, next, Expect::Constraint)
            },
            Plan::Update { id, n, v } => {
                let mut sql = "UPDATE kv SET n = ".to_owned();
                push_signed(&mut sql, n);
                sql.append(", v = '");
                sql.append(v.as_str());
                sql.append("' WHERE id = ");
                push_signed(&mut sql, id);
                put_row(&mut next, id, n, v);
                self.bump("update");
                (sql, next, Expect::Success)
            },
            Plan::UpdateRange { first, span, by } => {
                let mut sql = "UPDATE kv SET n = n + ".to_owned();
                push_signed(&mut sql, by);
                sql.append(" WHERE id BETWEEN ");
                push_between(&mut sql, first, first + span);
                let raised = raise_span(m, first, span, by);
                self.bump("update-range");
                (sql, raised, Expect::Success)
            },
            Plan::Delete { id } => {
                let mut sql = "DELETE FROM kv WHERE id = ".to_owned();
                push_signed(&mut sql, id);
                drop_row(&mut next, id);
                self.bump("delete");
                (sql, next, Expect::Success)
            },
            Plan::DeleteRange { first, span } => {
                let mut sql = "DELETE FROM kv WHERE id BETWEEN ".to_owned();
                push_between(&mut sql, first, first + span);
                let dropped = drop_span(m, first, span);
                self.bump("delete-range");
                (sql, dropped, Expect::Success)
            },
            Plan::Count => {
                self.bump("select-count");
                (
                    "SELECT count(*), coalesce(sum(n), 0) FROM kv".to_owned(),
                    next,
                    Expect::Count,
                )
            },
        }
    }
}

/// Whether every key of a table has been used.
pub open spec fn keys_used(t: Table, next_id: i64) -> bool {
    forall|k: i64| #[trigger] t.contains_key(k) ==> k <= next_id
}

/// What is expected of a statement is right, as long as every key of the table
/// has been used: an insertion expected to succeed is under a key that is
/// free, one expected to break the constraint is under a key that is taken,
/// and a row that is rewritten or deleted is there. The next statement then
/// meets a table whose keys have all been used again.
pub proof fn law_expectations_are_right(w: WorkView, t: Table, ks: Seq<i64>, big_permille: u64)
    requires
        table::lists_keys(ks, t),
        ks.len() < u64::MAX,
        keys_used(t, w.next_id),
        w.plan(t, big_permille).fits(t, w.next_id),
    ensures
        match w.plan(t, big_permille) {
            PlanView::Insert { .. } => !t.contains_key((w.next_id + 1) as i64),
            PlanView::Duplicate { id, .. } => t.contains_key(id),
            PlanView::Update { id, .. } => t.contains_key(id),
            PlanView::UpdateRange { first, .. } => t.contains_key(first),
            PlanView::Delete { id } => t.contains_key(id),
            PlanView::DeleteRange { first, .. } => t.contains_key(first),
            PlanView::Count => true,
        },
        keys_used(
            w.plan(t, big_permille).effect(t, w.next_id),
            w.planned(t, big_permille).next_id,
        ),
{
    table::lemma_keys_of(ks, t);
    if ks.len() > 0 {
        let rng = prng::prng_skip(w.rng, 2);
        prng::law_pick_in_range(rng, 0, (ks.len() - 1) as u64);
        assert(ks.to_set().contains(key_drawn(rng, ks)));
    }
}

/// A statement on a span of keys leaves every row outside the span as it is,
/// and raising a span neither adds nor takes rows.
pub proof fn law_span_statements_stay_in_their_span(
    t: Table,
    first: i64,
    span: i64,
    by: i64,
    k: i64,
)
    ensures
        span_raised(t, first, span, by).contains_key(k) <==> t.contains_key(k),
        !in_span(k, first, span) ==> (span_dropped(t, first, span).contains_key(k)
            <==> t.contains_key(k)),
        in_span(k, first, span) ==> !span_dropped(t, first, span).contains_key(k),
        !in_span(k, first, span) && t.contains_key(k) ==> {
            &&& span_raised(t, first, span, by)[k] == t[k]
            &&& span_dropped(t, first, span)[k] == t[k]
        },
{
}

} // verus!
