//! The scripts of the focused scenarios: one exactly placed fault, then the
//! observations that pin the engine's behaviour.

use crate::detio::OpKind;
use crate::text;
use crate::text::{push_signed, push_unsigned, same_text};
use crate::workload;
use crate::workload::insert_text;
use vstd::prelude::*;
use vstd::string::*;

verus! {

/// A text with a number in it, or without one.
#[derive(Clone, Copy, Debug)]
pub struct Caption {
    pub pre: &'static str,
    pub num: Option<u64>,
    pub post: &'static str,
}

impl Caption {
    /// The caption's text.
    pub open spec fn text(self) -> Seq<char> {
        match self.num {
            Some(n) => self.pre@ + text::decimal(n as int) + self.post@,
            None => self.pre@ + self.post@,
        }
    }

    /// Writes the caption.
    pub fn write(&self) -> (out: String)
        ensures
            out@ == self.text(),
    {
        let mut out = self.pre.to_owned();
        match self.num {
            Some(n) => push_unsigned(&mut out, n),
            None => {},
        }
        out.append(self.post);
        out
    }
}

/// A caption without a number.
pub open spec fn plain(pre: &'static str) -> Caption {
    Caption { pre, num: None, post: "" }
}

/// A caption with a number.
pub open spec fn numbered(pre: &'static str, n: u64, post: &'static str) -> Caption {
    Caption { pre, num: Some(n), post }
}

/// What is stored in a row.
#[derive(Clone, Copy, Debug)]
pub enum Filling {
    /// `row` and the number.
    Row(i64),
    /// A word.
    Word(&'static str),
    /// A character so many times, to take up space.
    Repeat(char, usize),
}

impl Filling {
    /// The value's text.
    pub open spec fn text(self) -> Seq<char> {
        match self {
            Filling::Row(i) => "row"@ + text::decimal(i as int),
            Filling::Word(w) => w@,
            Filling::Repeat(c, n) => Seq::new(n as nat, |i: int| c),
        }
    }

    /// Writes the value.
    pub fn write(&self) -> (out: String)
        ensures
            out@ == self.text(),
    {
        match self {
            Filling::Row(i) => {
                let mut out = "row".to_owned();
                push_signed(&mut out, *i);
                out
            },
            Filling::Word(w) => (*w).to_owned(),
            Filling::Repeat(c, n) => {
                let mut out = String::new();
                let mut i: usize = 0;
                proof {
                    assert(out@ =~= Seq::new(0, |i: int| *c));
                }
                while i < *n
                    invariant
                        i <= *n,
                        out@ == Seq::new(i as nat, |i: int| *c),
                    decreases *n - i,
                {
                    out.push(*c);
                    i += 1;
                    proof {
                        assert(out@ =~= Seq::new(i as nat, |i: int| *c));
                    }
                }
                out
            },
        }
    }
}

/// A statement of a script.
#[derive(Clone, Copy, Debug)]
pub enum Query {
    /// A fixed one.
    Plain(&'static str),
    /// One that sets the size of the page cache.
    Cache(i64),
    /// One that inserts a row.
    Insert { id: i64, n: i64, v: Filling },
    /// The one that counts the rows and sums up their numbers.
    Count,
}

impl Query {
    /// The statement's text.
    pub open spec fn sql(self) -> Seq<char> {
        match self {
            Query::Plain(s) => s@,
            Query::Cache(n) => "PRAGMA cache_size="@ + text::decimal(n as int),
            Query::Insert { id, n, v } => workload::insert_sql(id as int, n as int, v.text()),
            Query::Count => "SELECT count(*), coalesce(sum(n),0) FROM kv"@,
        }
    }

    /// Words the statement.
    pub fn write(&self) -> (out: String)
        ensures
            out@ == self.sql(),
    {
        match self {
            Query::Plain(s) => (*s).to_owned(),
            Query::Cache(n) => {
                let mut out = "PRAGMA cache_size=".to_owned();
                push_signed(&mut out, *n);
                out
            },
            Query::Insert { id, n, v } => {
                let value = v.write();
                insert_text(*id, *n, value.as_str())
            },
            Query::Count => "SELECT count(*), coalesce(sum(n),0) FROM kv".to_owned(),
        }
    }
}

/// How an answer is expected to begin.
#[derive(Clone, Copy, Debug)]
pub enum Want {
    /// The statement succeeds.
    Fine,
    /// It succeeds and gives one row.
    OneRow,
    /// It succeeds, and the first number that it gives is this one.
    Rows(u64),
}

impl Want {
    /// What the answer is expected to begin with.
    pub open spec fn text(self) -> Seq<char> {
        match self {
            Want::Fine => "ok"@,
            Want::OneRow => "ok rows=1"@,
            Want::Rows(n) => "ok [\""@ + text::decimal(n as int) + "\""@,
        }
    }

    /// Writes what the answer is expected to begin with.
    pub fn write(&self) -> (out: String)
        ensures
            out@ == self.text(),
    {
        match self {
            Want::Fine => "ok".to_owned(),
            Want::OneRow => "ok rows=1".to_owned(),
            Want::Rows(n) => {
                let mut out = "ok [\"".to_owned();
                push_unsigned(&mut out, *n);
                out.append("\"");
                out
            },
        }
    }
}

/// Where an answer is kept.
#[derive(Clone, Copy, Debug, PartialEq, Eq, Structural)]
pub enum Slot {
    First,
    Second,
    Third,
    Last,
}

/// A figure of the run that is shown.
#[derive(Clone, Copy, Debug, PartialEq, Eq, Structural)]
pub enum Figure {
    /// Whether the connection is outside a transaction.
    AutoCommit,
    /// How many failures were injected.
    Injected,
    /// How many I/O operations are deferred.
    Pending,
}

/// The directory that a scenario works in.
#[derive(Clone, Copy, Debug)]
pub enum Place {
    /// The main one.
    Main,
    /// One for a placement of a fault.
    Placement { tag: &'static str, kind: OpKind, k: u32 },
    /// One for a round.
    Round { tag: &'static str, k: u32 },
}

/// One operation of a script.
#[derive(Clone, Copy, Debug)]
pub enum Op {
    /// Work in a directory from here on, and create it.
    Enter(Place),
    /// Sync the directory, as far as that succeeds.
    SyncDir,
    /// Open the database, which must succeed.
    Open,
    /// Try to open the database; where `synced` is set, full synchronization is
    /// asked for too, and must succeed as well.
    TryOpen { synced: bool },
    /// Drop every handle; the flag tells whether the power was cut.
    Drop(bool),
    /// Drop every handle, as after a power cut where there was one.
    DropAsCut,
    /// Run a statement, which must succeed.
    Must(Query),
    /// Run a statement and hold its answer against what is expected.
    Check { caption: Caption, query: Query, want: Want },
    /// Run a statement, show its answer and keep it.
    Show { caption: Caption, query: Query, slot: Slot },
    /// Run a statement and keep its answer.
    Keep { query: Query, slot: Slot },
    /// Run a statement and show its answer if it failed.
    ShowFailed { caption: Caption, query: Query },
    /// Show a figure.
    ShowFigure { caption: Caption, figure: Figure },
    /// Remember whether the connection is outside a transaction.
    KeepAutoCommit,
    /// Remember whether the armed power cut was made.
    KeepCut,
    /// Let the operation of a kind fail that comes after `k` others.
    ArmFail { kind: OpKind, k: u32 },
    /// Cut the power after the operation of a kind that comes after `k` others.
    ArmCrash { kind: OpKind, k: u32 },
    /// Cut the read short that comes after `k` others.
    ArmShort { k: u32, bytes: usize },
    /// Forget what is still armed.
    Disarm,
    /// Set how often I/O is deferred.
    Defer(u64),
    /// Perform every deferred operation.
    Drain,
    /// Run a checkpoint that truncates the log, which must succeed.
    MustTruncate,
    /// Run a checkpoint that truncates the log, and keep what came of it.
    Truncate,
    /// Cut the power.
    PowerCut,
    /// End the scenario if the first answer is a success, after one more check.
    EndIfFine { caption: Caption, query: Query, want: Want },
    /// Skip operations if the database could be opened.
    SkipIfOpened(usize),
    /// Skip operations.
    Skip(usize),
    /// Show how opening failed, in recovery.
    ShowRecoveryError { k: u32 },
    /// Show how opening failed, with a short read.
    ShowShortError { k: u32 },
    /// Show what came of an update and of the insert behind it.
    ShowUpdate { k: u32 },
    /// Show what came of the rollback.
    ShowRollback { k: u32 },
    /// Count after a rollback: five rows where the update had failed and with it
    /// the transaction, four where the whole transaction was rolled back.
    CheckRolledBack { k: u32 },
    /// After a failed checkpoint, a commit and a power cut: every row that was
    /// committed before must be there.
    JudgeFailedCheckpoint { kind: OpKind, k: u32 },
    /// After a power cut inside a checkpoint: every row must be there.
    JudgeCrashedCheckpoint { kind: OpKind, k: u32 },
    /// After a short read at open, an insert and a clean reopen: every row must
    /// be there.
    JudgeShortRead { k: u32 },
}

/// The statement that creates the table.
pub open spec fn create() -> Op {
    Op::Must(
        Query::Plain("CREATE TABLE kv(id INTEGER PRIMARY KEY, n INTEGER, v TEXT)"),
    )
}

fn create_op() -> (op: Op)
    ensures
        op == create(),
{
    Op::Must(
        Query::Plain("CREATE TABLE kv(id INTEGER PRIMARY KEY, n INTEGER, v TEXT)"),
    )
}

/// The statement that asks for full synchronization.
pub open spec fn full_sync() -> Op {
    Op::Must(Query::Plain("PRAGMA synchronous=FULL"))
}

fn full_sync_op() -> (op: Op)
    ensures
        op == full_sync(),
{
    Op::Must(Query::Plain("PRAGMA synchronous=FULL"))
}

/// A row whose value names it.
pub open spec fn named_row(i: int) -> Query {
    Query::Insert { id: i as i64, n: i as i64, v: Filling::Row(i as i64) }
}

/// The statements that insert the rows up to `n`.
pub open spec fn named_rows(n: int) -> Seq<Op> {
    Seq::new(n as nat, |i: int| Op::Must(named_row(i + 1)))
}

fn add_named_rows(ops: &mut Vec<Op>, n: i64)
    requires
        0 <= n < 1000,
    ensures
        final(ops)@ == old(ops)@ + named_rows(n as int),
{
    let mut i: i64 = 0;
    proof {
        assert(ops@ =~= old(ops)@ + named_rows(0));
    }
    while i < n
        invariant
            0 <= i <= n < 1000,
            ops@ == old(ops)@ + named_rows(i as int),
        decreases n - i,
    {
        let id: i64 = i + 1;
        ops.push(Op::Must(Query::Insert { id, n: id, v: Filling::Row(id) }));
        i += 1;
        proof {
            assert(ops@ =~= old(ops)@ + named_rows(i as int));
        }
    }
}

/// A check that a statement succeeds, under a name.
pub open spec fn fine(caption: Caption, sql: &'static str) -> Op {
    Op::Check { caption, query: Query::Plain(sql), want: Want::Fine }
}

/// A check of the number of rows.
pub open spec fn counts(caption: Caption, n: u64) -> Op {
    Op::Check { caption, query: Query::Count, want: Want::Rows(n) }
}

fn plain_caption(pre: &'static str) -> (c: Caption)
    ensures
        c == plain(pre),
{
    Caption { pre, num: None, post: "" }
}

fn numbered_caption(pre: &'static str, n: u64, post: &'static str) -> (c: Caption)
    ensures
        c == numbered(pre, n, post),
{
    Caption { pre, num: Some(n), post }
}

fn add_fine(ops: &mut Vec<Op>, pre: &'static str, sql: &'static str)
    ensures
        final(ops)@ == old(ops)@.push(fine(plain(pre), sql)),
{
    ops.push(
        Op::Check { caption: plain_caption(pre), query: Query::Plain(sql), want: Want::Fine },
    );
}

fn add_count(ops: &mut Vec<Op>, pre: &'static str, n: u64)
    ensures
        final(ops)@ == old(ops)@.push(counts(plain(pre), n)),
{
    ops.push(
        Op::Check { caption: plain_caption(pre), query: Query::Count, want: Want::Rows(n) },
    );
}

/// A check that a row is inserted, under a name.
pub open spec fn inserts(pre: &'static str, i: int) -> Op {
    Op::Check { caption: plain(pre), query: named_row(i), want: Want::Fine }
}

fn add_insert(ops: &mut Vec<Op>, pre: &'static str, i: i64)
    ensures
        final(ops)@ == old(ops)@.push(inserts(pre, i as int)),
{
    ops.push(
        Op::Check {
            caption: plain_caption(pre),
            query: Query::Insert { id: i, n: i, v: Filling::Row(i) },
            want: Want::Fine,
        },
    );
}

/// A check of the database's integrity.
pub open spec fn integrity() -> Op {
    Op::Check {
        caption: plain("integrity_check"),
        query: Query::Plain("PRAGMA integrity_check"),
        want: Want::OneRow,
    }
}

fn add_integrity(ops: &mut Vec<Op>)
    ensures
        final(ops)@ == old(ops)@.push(integrity()),
{
    ops.push(
        Op::Check {
            caption: plain_caption("integrity_check"),
            query: Query::Plain("PRAGMA integrity_check"),
            want: Want::OneRow,
        },
    );
}

/// A fresh main database with some rows, and a cache of so many pages.
pub open spec fn main_setup(rows: int, cache_pages: int) -> Seq<Op> {
    seq![
        Op::Enter(Place::Main),
        Op::Open,
        full_sync(),
        Op::Must(Query::Cache(cache_pages as i64)),
        create(),
    ] + named_rows(rows) + seq![Op::MustTruncate, Op::SyncDir]
}

fn add_main_setup(ops: &mut Vec<Op>, rows: i64, cache_pages: i64)
    requires
        0 <= rows < 1000,
    ensures
        final(ops)@ == old(ops)@ + main_setup(rows as int, cache_pages as int),
{
    ops.push(Op::Enter(Place::Main));
    ops.push(Op::Open);
    ops.push(full_sync_op());
    ops.push(Op::Must(Query::Cache(cache_pages)));
    ops.push(create_op());
    add_named_rows(ops, rows);
    ops.push(Op::MustTruncate);
    ops.push(Op::SyncDir);
    proof {
        assert(ops@ =~= old(ops)@ + main_setup(rows as int, cache_pages as int));
    }
}

/// The scenarios in which a commit fails, by what makes it fail.
#[derive(Clone, Copy, Debug, PartialEq, Eq, Structural)]
pub struct CommitFault {
    /// Outside a transaction.
    pub autocommit: bool,
    /// With the first page in the cache, so that the commit's first step
    /// reaches the write without an I/O pause before it.
    pub warm: bool,
    pub kind: OpKind,
    pub k: u32,
}

/// The commit under test.
pub open spec fn tested_commit(f: CommitFault) -> Seq<Op> {
    seq![
        Op::ArmFail { kind: f.kind, k: f.k },
        Op::Show {
            caption: plain("COMMIT -> "),
            query: if f.autocommit {
                named_row(5)
            } else {
                Query::Plain("COMMIT")
            },
            slot: Slot::First,
        },
        Op::ShowFigure {
            caption: plain("auto_commit after COMMIT = "),
            figure: Figure::AutoCommit,
        },
        Op::ShowFigure {
            caption: plain("injected failures so far = "),
            figure: Figure::Injected,
        },
        Op::EndIfFine {
            caption: plain("count after ok COMMIT"),
            query: Query::Count,
            want: Want::Rows(5),
        },
    ]
}

fn add_tested_commit(ops: &mut Vec<Op>, f: CommitFault)
    ensures
        final(ops)@ == old(ops)@ + tested_commit(f),
{
    ops.push(Op::ArmFail { kind: f.kind, k: f.k });
    ops.push(
        Op::Show {
            caption: plain_caption("COMMIT -> "),
            query: if f.autocommit {
                Query::Insert { id: 5, n: 5, v: Filling::Row(5) }
            } else {
                Query::Plain("COMMIT")
            },
            slot: Slot::First,
        },
    );
    ops.push(
        Op::ShowFigure {
            caption: plain_caption("auto_commit after COMMIT = "),
            figure: Figure::AutoCommit,
        },
    );
    ops.push(
        Op::ShowFigure {
            caption: plain_caption("injected failures so far = "),
            figure: Figure::Injected,
        },
    );
    ops.push(
        Op::EndIfFine {
            caption: plain_caption("count after ok COMMIT"),
            query: Query::Count,
            want: Want::Rows(5),
        },
    );
    proof {
        assert(ops@ =~= old(ops)@ + tested_commit(f));
    }
}

/// What must hold after a commit has failed: first of the failed transaction.
pub open spec fn after_failed_commit() -> Seq<Op> {
    seq![
        counts(plain("count right after failed COMMIT (same conn)"), 4),
        Op::Show {
            caption: plain("ROLLBACK -> "),
            query: Query::Plain("ROLLBACK"),
            slot: Slot::Second,
        },
        counts(plain("count after ROLLBACK"), 4),
        fine(plain("BEGIN (new tx)"), "BEGIN"),
        counts(plain("count in new tx"), 4),
        fine(plain("COMMIT (new tx)"), "COMMIT"),
    ]
}

fn add_after_failed_commit(ops: &mut Vec<Op>)
    ensures
        final(ops)@ == old(ops)@ + after_failed_commit(),
{
    add_count(ops, "count right after failed COMMIT (same conn)", 4);
    ops.push(
        Op::Show {
            caption: plain_caption("ROLLBACK -> "),
            query: Query::Plain("ROLLBACK"),
            slot: Slot::Second,
        },
    );
    add_count(ops, "count after ROLLBACK", 4);
    add_fine(ops, "BEGIN (new tx)", "BEGIN");
    add_count(ops, "count in new tx", 4);
    add_fine(ops, "COMMIT (new tx)", "COMMIT");
    proof {
        assert(ops@ =~= old(ops)@ + after_failed_commit());
    }
}

/// What must hold after a commit has failed: then of the next one, and after a
/// reopen.
pub open spec fn after_next_commit() -> Seq<Op> {
    seq![
        inserts("INSERT 6 autocommit", 6),
        counts(plain("count after INSERT 6"), 5),
        integrity(),
        Op::Drop(false),
        Op::Open,
        counts(plain("count after reopen"), 5),
        Op::Drop(false),
    ]
}

fn add_after_next_commit(ops: &mut Vec<Op>)
    ensures
        final(ops)@ == old(ops)@ + after_next_commit(),
{
    add_insert(ops, "INSERT 6 autocommit", 6);
    add_count(ops, "count after INSERT 6", 5);
    add_integrity(ops);
    ops.push(Op::Drop(false));
    ops.push(Op::Open);
    add_count(ops, "count after reopen", 5);
    ops.push(Op::Drop(false));
    proof {
        assert(ops@ =~= old(ops)@ + after_next_commit());
    }
}

/// The transaction whose commit is tested.
pub open spec fn begun(f: CommitFault) -> Seq<Op> {
    (if f.autocommit {
        Seq::empty()
    } else {
        seq![fine(plain("BEGIN"), "BEGIN"), inserts("INSERT 5", 5)]
    }) + (if f.warm {
        seq![counts(plain("count (warm)"), 5)]
    } else {
        Seq::empty()
    })
}

fn add_begun(ops: &mut Vec<Op>, f: CommitFault)
    ensures
        final(ops)@ == old(ops)@ + begun(f),
{
    if !f.autocommit {
        add_fine(ops, "BEGIN", "BEGIN");
        add_insert(ops, "INSERT 5", 5);
    }
    if f.warm {
        add_count(ops, "count (warm)", 5);
    }
    proof {
        assert(ops@ =~= old(ops)@ + begun(f));
    }
}

/// A commit that fails: the transaction must not be visible afterwards, on the
/// same connection, after a rollback, in a new transaction, and after a reopen.
pub open spec fn failed_commit(f: CommitFault) -> Seq<Op> {
    main_setup(4, 2000) + begun(f) + tested_commit(f) + after_failed_commit()
        + after_next_commit()
}

fn add_failed_commit(ops: &mut Vec<Op>, f: CommitFault)
    ensures
        final(ops)@ == old(ops)@ + failed_commit(f),
{
    add_main_setup(ops, 4, 2000);
    add_begun(ops, f);
    add_tested_commit(ops, f);
    add_after_failed_commit(ops);
    add_after_next_commit(ops);
    proof {
        let a = main_setup(4, 2000);
        lemma_chain(
            old(ops)@,
            a,
            begun(f),
            tested_commit(f),
            after_failed_commit(),
            after_next_commit(),
        );
    }
}

proof fn lemma_chain(
    start: Seq<Op>,
    a: Seq<Op>,
    b: Seq<Op>,
    c: Seq<Op>,
    d: Seq<Op>,
    e: Seq<Op>,
)
    ensures
        start + a + b + c + d + e == start + (a + b + c + d + e),
{
    assert(start + a + b + c + d + e =~= start + (a + b + c + d + e));
}

/// The rows that fill a transaction up: so many, from an id on, each with a
/// character many times over.
pub open spec fn filling_rows(from: int, n: int, c: char, len: usize) -> Seq<Op> {
    Seq::new(
        n as nat,
        |i: int|
            Op::ShowFailed {
                caption: numbered("insert ", (from + i) as u64, " -> "),
                query: Query::Insert {
                    id: (from + i) as i64,
                    n: (from + i) as i64,
                    v: Filling::Repeat(c, len),
                },
            },
    )
}

fn add_filling_rows(ops: &mut Vec<Op>, from: i64, n: i64, c: char, len: usize)
    requires
        0 <= from < 1000,
        0 <= n < 1000,
    ensures
        final(ops)@ == old(ops)@ + filling_rows(from as int, n as int, c, len),
{
    let mut i: i64 = 0;
    proof {
        assert(ops@ =~= old(ops)@ + filling_rows(from as int, 0, c, len));
    }
    while i < n
        invariant
            0 <= from < 1000,
            0 <= i <= n < 1000,
            ops@ == old(ops)@ + filling_rows(from as int, i as int, c, len),
        decreases n - i,
    {
        let id: i64 = from + i;
        let num: u64 = id as u64;
        ops.push(
            Op::ShowFailed {
                caption: numbered_caption("insert ", num, " -> "),
                query: Query::Insert { id, n: id, v: Filling::Repeat(c, len) },
            },
        );
        i += 1;
        proof {
            assert(ops@ =~= old(ops)@ + filling_rows(from as int, i as int, c, len));
        }
    }
}

/// A transaction that is rolled back before the read that fails.
pub open spec fn rolled_back() -> Seq<Op> {
    seq![fine(plain("BEGIN"), "BEGIN")] + filling_rows(10, 20, 'x', 3000) + seq![
        counts(plain("count in tx"), 24),
        fine(plain("ROLLBACK"), "ROLLBACK"),
    ]
}

fn add_rolled_back(ops: &mut Vec<Op>)
    ensures
        final(ops)@ == old(ops)@ + rolled_back(),
{
    add_fine(ops, "BEGIN", "BEGIN");
    add_filling_rows(ops, 10, 20, 'x', 3000);
    add_count(ops, "count in tx", 24);
    add_fine(ops, "ROLLBACK", "ROLLBACK");
    proof {
        assert(ops@ =~= old(ops)@ + rolled_back());
    }
}

/// A read that fails, and what must be seen after it.
pub open spec fn tested_read() -> Seq<Op> {
    seq![
        Op::ArmFail { kind: OpKind::Pread, k: 0 },
        Op::Show {
            caption: plain("SELECT with failing pread -> "),
            query: Query::Plain("SELECT id, n, v FROM kv ORDER BY id"),
            slot: Slot::First,
        },
        counts(plain("count after failed read"), 4),
        fine(plain("BEGIN"), "BEGIN"),
        counts(plain("count in new tx"), 4),
        fine(plain("COMMIT"), "COMMIT"),
        integrity(),
        Op::Drop(false),
        Op::Open,
        counts(plain("count after reopen"), 4),
        Op::Drop(false),
    ]
}

fn add_tested_read(ops: &mut Vec<Op>)
    ensures
        final(ops)@ == old(ops)@ + tested_read(),
{
    ops.push(Op::ArmFail { kind: OpKind::Pread, k: 0 });
    ops.push(
        Op::Show {
            caption: plain_caption("SELECT with failing pread -> "),
            query: Query::Plain("SELECT id, n, v FROM kv ORDER BY id"),
            slot: Slot::First,
        },
    );
    add_count(ops, "count after failed read", 4);
    add_fine(ops, "BEGIN", "BEGIN");
    add_count(ops, "count in new tx", 4);
    add_fine(ops, "COMMIT", "COMMIT");
    add_integrity(ops);
    ops.push(Op::Drop(false));
    ops.push(Op::Open);
    add_count(ops, "count after reopen", 4);
    ops.push(Op::Drop(false));
    proof {
        assert(ops@ =~= old(ops)@ + tested_read());
    }
}

/// A single failed page read outside any transaction, then a read in a fresh
/// one, which must see what was committed; where `rolled` is set, after a large
/// transaction was rolled back under a small cache.
pub open spec fn failed_read(rolled: bool) -> Seq<Op> {
    if rolled {
        main_setup(4, 2) + rolled_back() + tested_read()
    } else {
        main_setup(4, 2000) + tested_read()
    }
}

fn add_failed_read(ops: &mut Vec<Op>, rolled: bool)
    ensures
        final(ops)@ == old(ops)@ + failed_read(rolled),
{
    if rolled {
        add_main_setup(ops, 4, 2);
        add_rolled_back(ops);
        add_tested_read(ops);
        proof {
            assert(ops@ =~= old(ops)@ + (main_setup(4, 2) + rolled_back() + tested_read()));
        }
    } else {
        add_main_setup(ops, 4, 2000);
        add_tested_read(ops);
        proof {
            assert(ops@ =~= old(ops)@ + (main_setup(4, 2000) + tested_read()));
        }
    }
}

/// Before the rollback: a transaction that spills pages while all I/O is
/// deferred.
pub open spec fn spilled() -> Seq<Op> {
    seq![
        counts(plain("count before"), 8),
        Op::Defer(1000),
        fine(plain("BEGIN"), "BEGIN"),
    ] + filling_rows(20, 24, 'y', 2500) + seq![
        counts(plain("count in tx"), 32),
        Op::ShowFigure {
            caption: plain("pending deferred I/O before ROLLBACK = "),
            figure: Figure::Pending,
        },
    ]
}

fn add_spilled(ops: &mut Vec<Op>)
    ensures
        final(ops)@ == old(ops)@ + spilled(),
{
    add_count(ops, "count before", 8);
    ops.push(Op::Defer(1000));
    add_fine(ops, "BEGIN", "BEGIN");
    add_filling_rows(ops, 20, 24, 'y', 2500);
    add_count(ops, "count in tx", 32);
    ops.push(
        Op::ShowFigure {
            caption: plain_caption("pending deferred I/O before ROLLBACK = "),
            figure: Figure::Pending,
        },
    );
    proof {
        assert(ops@ =~= old(ops)@ + spilled());
    }
}

/// The rollback, with or without completing every write first.
pub open spec fn tested_rollback(drained: bool) -> Seq<Op> {
    (if drained {
        seq![Op::Drain]
    } else {
        Seq::empty()
    }) + seq![
        fine(plain("ROLLBACK"), "ROLLBACK"),
        Op::ShowFigure {
            caption: plain("pending deferred I/O after ROLLBACK = "),
            figure: Figure::Pending,
        },
        Op::Defer(0),
        Op::Drain,
        counts(plain("count after ROLLBACK"), 8),
    ]
}

fn add_tested_rollback(ops: &mut Vec<Op>, drained: bool)
    ensures
        final(ops)@ == old(ops)@ + tested_rollback(drained),
{
    if drained {
        ops.push(Op::Drain);
    }
    add_fine(ops, "ROLLBACK", "ROLLBACK");
    ops.push(
        Op::ShowFigure {
            caption: plain_caption("pending deferred I/O after ROLLBACK = "),
            figure: Figure::Pending,
        },
    );
    ops.push(Op::Defer(0));
    ops.push(Op::Drain);
    add_count(ops, "count after ROLLBACK", 8);
    proof {
        assert(ops@ =~= old(ops)@ + tested_rollback(drained));
    }
}

/// After the rollback: a new transaction, and a reopen.
pub open spec fn after_rollback() -> Seq<Op> {
    seq![
        fine(plain("BEGIN (new tx)"), "BEGIN"),
        counts(plain("count in new tx"), 8),
        inserts("INSERT 50 in new tx", 50),
        counts(plain("count in new tx after insert"), 9),
        fine(plain("COMMIT (new tx)"), "COMMIT"),
        counts(plain("count after COMMIT"), 9),
        integrity(),
        Op::Drop(false),
        Op::Open,
        counts(plain("count after reopen"), 9),
        Op::Drop(false),
    ]
}

fn add_after_rollback(ops: &mut Vec<Op>)
    ensures
        final(ops)@ == old(ops)@ + after_rollback(),
{
    add_fine(ops, "BEGIN (new tx)", "BEGIN");
    add_count(ops, "count in new tx", 8);
    add_insert(ops, "INSERT 50 in new tx", 50);
    add_count(ops, "count in new tx after insert", 9);
    add_fine(ops, "COMMIT (new tx)", "COMMIT");
    add_count(ops, "count after COMMIT", 9);
    add_integrity(ops);
    ops.push(Op::Drop(false));
    ops.push(Op::Open);
    add_count(ops, "count after reopen", 9);
    ops.push(Op::Drop(false));
    proof {
        assert(ops@ =~= old(ops)@ + after_rollback());
    }
}

/// A rollback while writes of spilled pages are still in flight; where
/// `drained` is set, every one of them is completed first.
pub open spec fn inflight_rollback(drained: bool) -> Seq<Op> {
    main_setup(8, 2) + spilled() + tested_rollback(drained) + after_rollback()
}

fn add_inflight_rollback(ops: &mut Vec<Op>, drained: bool)
    ensures
        final(ops)@ == old(ops)@ + inflight_rollback(drained),
{
    add_main_setup(ops, 8, 2);
    add_spilled(ops);
    add_tested_rollback(ops, drained);
    add_after_rollback(ops);
    proof {
        assert(ops@ =~= old(ops)@ + inflight_rollback(drained));
    }
}

/// The rows whose recovery is tested.
pub open spec fn committed_rows() -> Seq<Op> {
    Seq::new(
        4,
        |i: int|
            Op::Check {
                caption: numbered("INSERT ", (i + 5) as u64, ""),
                query: named_row(i + 5),
                want: Want::Fine,
            },
    ) + seq![counts(plain("count before"), 8)]
}

fn add_committed_rows(ops: &mut Vec<Op>)
    ensures
        final(ops)@ == old(ops)@ + committed_rows(),
{
    let mut i: i64 = 0;
    while i < 4
        invariant
            0 <= i <= 4,
            ops@.len() == old(ops)@.len() + i,
            forall|j: int| 0 <= j < old(ops)@.len() ==> #[trigger] ops@[j] == old(ops)@[j],
            forall|j: int|
                old(ops)@.len() <= j < ops@.len() ==> #[trigger] ops@[j] == committed_rows()[j
                    - old(ops)@.len()],
        decreases 4 - i,
    {
        let id: i64 = i + 5;
        let num: u64 = id as u64;
        ops.push(
            Op::Check {
                caption: numbered_caption("INSERT ", num, ""),
                query: Query::Insert { id, n: id, v: Filling::Row(id) },
                want: Want::Fine,
            },
        );
        i += 1;
    }
    add_count(ops, "count before", 8);
    proof {
        assert(ops@ =~= old(ops)@ + committed_rows());
    }
}

/// Reopening while a read of the recovery fails: where opening fails, a clean
/// reopen must show every committed row.
pub open spec fn recovery_open(k: u32) -> Seq<Op> {
    seq![
        Op::Drop(false),
        Op::ArmFail { kind: OpKind::Pread, k },
        Op::TryOpen { synced: false },
        Op::SkipIfOpened(5),
        Op::ShowRecoveryError { k },
        Op::Disarm,
        Op::Open,
        counts(numbered("count after failed open (k=", k as u64, ") + clean reopen"), 8),
        Op::Skip(6),
    ]
}

fn add_recovery_open(ops: &mut Vec<Op>, k: u32)
    ensures
        final(ops)@ == old(ops)@ + recovery_open(k),
{
    ops.push(Op::Drop(false));
    ops.push(Op::ArmFail { kind: OpKind::Pread, k });
    ops.push(Op::TryOpen { synced: false });
    ops.push(Op::SkipIfOpened(5));
    ops.push(Op::ShowRecoveryError { k });
    ops.push(Op::Disarm);
    ops.push(Op::Open);
    let num: u64 = k as u64;
    ops.push(
        Op::Check {
            caption: numbered_caption(
                "count after failed open (k=",
                num,
                ") + clean reopen",
            ),
            query: Query::Count,
            want: Want::Rows(8),
        },
    );
    ops.push(Op::Skip(6));
    proof {
        assert(ops@ =~= old(ops)@ + recovery_open(k));
    }
}

/// Where opening succeeds, something is written, so that a truncated recovery
/// would be made to last; a clean reopen must then show every row of this round
/// and of the rounds before it.
pub open spec fn recovery_write(k: u32) -> Seq<Op> {
    seq![
        Op::Show {
            caption: numbered("reopen with pread#", k as u64, " failing -> open ok, count "),
            query: Query::Count,
            slot: Slot::Third,
        },
        Op::Disarm,
        Op::Show {
            caption: plain("insert after reopen -> "),
            query: Query::Insert { id: (100 + k) as i64, n: 1, v: Filling::Word("after") },
            slot: Slot::Second,
        },
        Op::Drop(false),
        Op::Open,
        counts(numbered("count after clean reopen (k=", k as u64, ")"), (9 + k) as u64),
    ]
}

fn add_recovery_write(ops: &mut Vec<Op>, k: u32)
    requires
        k < 1000,
    ensures
        final(ops)@ == old(ops)@ + recovery_write(k),
{
    let num: u64 = k as u64;
    ops.push(
        Op::Show {
            caption: numbered_caption("reopen with pread#", num, " failing -> open ok, count "),
            query: Query::Count,
            slot: Slot::Third,
        },
    );
    ops.push(Op::Disarm);
    let id: i64 = 100 + k as i64;
    ops.push(
        Op::Show {
            caption: plain_caption("insert after reopen -> "),
            query: Query::Insert { id, n: 1, v: Filling::Word("after") },
            slot: Slot::Second,
        },
    );
    ops.push(Op::Drop(false));
    ops.push(Op::Open);
    ops.push(
        Op::Check {
            caption: numbered_caption("count after clean reopen (k=", num, ")"),
            query: Query::Count,
            want: Want::Rows(9 + num),
        },
    );
    proof {
        assert(ops@ =~= old(ops)@ + recovery_write(k));
    }
}

/// The first `n` rounds of failing recovery.
pub open spec fn recovery_rounds(n: nat) -> Seq<Op>
    decreases n,
{
    if n == 0 {
        Seq::empty()
    } else {
        recovery_rounds((n - 1) as nat) + (recovery_open((n - 1) as u32) + recovery_write(
            (n - 1) as u32,
        ))
    }
}

/// Recovery of the log while a read fails: rows that were committed must never
/// be lost for good.
pub open spec fn failed_recovery() -> Seq<Op> {
    main_setup(4, 2000) + committed_rows() + recovery_rounds(6) + seq![Op::Drop(false)]
}

fn add_failed_recovery(ops: &mut Vec<Op>)
    ensures
        final(ops)@ == old(ops)@ + failed_recovery(),
{
    add_main_setup(ops, 4, 2000);
    add_committed_rows(ops);
    let ghost begun = ops@;
    let mut k: u32 = 0;
    proof {
        assert(ops@ =~= begun + recovery_rounds(0));
    }
    while k < 6
        invariant
            k <= 6,
            ops@ == begun + recovery_rounds(k as nat),
        decreases 6 - k,
    {
        let ghost so_far = ops@;
        add_recovery_open(ops, k);
        add_recovery_write(ops, k);
        proof {
            assert(ops@ =~= so_far + (recovery_open(k) + recovery_write(k)));
            assert(recovery_rounds((k + 1) as nat) == recovery_rounds(k as nat) + (recovery_open(
                k,
            ) + recovery_write(k)));
            assert(ops@ =~= begun + recovery_rounds((k + 1) as nat));
        }
        k += 1;
    }
    ops.push(Op::Drop(false));
    proof {
        assert(ops@ =~= old(ops)@ + failed_recovery());
    }
}

/// Entering a fresh directory and creating the table in it.
pub open spec fn fresh(place: Place, cache_pages: Option<i64>, retry: bool) -> Seq<Op> {
    seq![Op::Enter(place), Op::Open, full_sync()] + (if retry {
        seq![Op::Must(Query::Plain("PRAGMA data_sync_retry=ON"))]
    } else {
        Seq::empty()
    }) + (match cache_pages {
        Some(n) => seq![Op::Must(Query::Cache(n))],
        None => Seq::empty(),
    }) + seq![create()]
}

fn add_fresh(ops: &mut Vec<Op>, place: Place, cache_pages: Option<i64>, retry: bool)
    ensures
        final(ops)@ == old(ops)@ + fresh(place, cache_pages, retry),
{
    ops.push(Op::Enter(place));
    ops.push(Op::Open);
    ops.push(full_sync_op());
    if retry {
        ops.push(Op::Must(Query::Plain("PRAGMA data_sync_retry=ON")));
    }
    match cache_pages {
        Some(n) => ops.push(Op::Must(Query::Cache(n))),
        None => {},
    }
    ops.push(create_op());
    proof {
        assert(ops@ =~= old(ops)@ + fresh(place, cache_pages, retry));
    }
}

/// Opening the directory's database again.
pub open spec fn reopened(retry: bool) -> Seq<Op> {
    if retry {
        seq![Op::Open, full_sync(), Op::Must(Query::Plain("PRAGMA data_sync_retry=ON"))]
    } else {
        seq![Op::Open, full_sync()]
    }
}

fn add_reopened(ops: &mut Vec<Op>, retry: bool)
    ensures
        final(ops)@ == old(ops)@ + reopened(retry),
{
    ops.push(Op::Open);
    ops.push(full_sync_op());
    if retry {
        ops.push(Op::Must(Query::Plain("PRAGMA data_sync_retry=ON")));
    }
    proof {
        assert(ops@ =~= old(ops)@ + reopened(retry));
    }
}

/// The two sweeps over the placements of a fault inside a checkpoint.
#[derive(Clone, Copy, Debug, PartialEq, Eq, Structural)]
pub enum Sweep {
    /// An operation of the checkpoint fails; then there is one more commit, and
    /// a power cut.
    Failed,
    /// The power is cut after an operation of the checkpoint.
    Crashed,
}

/// How many placements there are of each kind of operation.
pub const PLACEMENTS: u32 = 6;

impl Sweep {
    /// The kinds of operation that a sweep goes through.
    pub open spec fn kinds(self) -> Seq<OpKind> {
        match self {
            Sweep::Failed => seq![OpKind::Pread, OpKind::Sync, OpKind::Pwrite],
            Sweep::Crashed => seq![
                OpKind::Pread,
                OpKind::Pwrite,
                OpKind::Pwritev,
                OpKind::Sync,
                OpKind::Truncate,
            ],
        }
    }

    /// How many placements a sweep goes through.
    pub open spec fn len(self) -> nat {
        self.kinds().len() * PLACEMENTS as nat
    }

    fn placements(self) -> (n: u32)
        ensures
            n == self.len(),
    {
        match self {
            Sweep::Failed => 18,
            Sweep::Crashed => 30,
        }
    }

    fn kind_at(self, i: u32) -> (kind: OpKind)
        requires
            i < self.kinds().len(),
        ensures
            kind == self.kinds()[i as int],
    {
        match self {
            Sweep::Failed => match i {
                0 => OpKind::Pread,
                1 => OpKind::Sync,
                _ => OpKind::Pwrite,
            },
            Sweep::Crashed => match i {
                0 => OpKind::Pread,
                1 => OpKind::Pwrite,
                2 => OpKind::Pwritev,
                3 => OpKind::Sync,
                _ => OpKind::Truncate,
            },
        }
    }
}

/// One placement of a sweep: the fault.
pub open spec fn placed_fault(sweep: Sweep, kind: OpKind, k: u32) -> Seq<Op> {
    match sweep {
        Sweep::Failed => seq![
            Op::ArmFail { kind, k },
            Op::Truncate,
            Op::Disarm,
            Op::Keep { query: named_row(9), slot: Slot::Second },
            Op::Keep { query: Query::Count, slot: Slot::Third },
            Op::PowerCut,
            Op::Drop(true),
        ],
        Sweep::Crashed => seq![
            Op::ArmCrash { kind, k },
            Op::Truncate,
            Op::KeepCut,
            Op::Disarm,
            Op::DropAsCut,
        ],
    }
}

fn add_placed_fault(ops: &mut Vec<Op>, sweep: Sweep, kind: OpKind, k: u32)
    ensures
        final(ops)@ == old(ops)@ + placed_fault(sweep, kind, k),
{
    match sweep {
        Sweep::Failed => {
            ops.push(Op::ArmFail { kind, k });
            ops.push(Op::Truncate);
            ops.push(Op::Disarm);
            ops.push(
                Op::Keep {
                    query: Query::Insert { id: 9, n: 9, v: Filling::Row(9) },
                    slot: Slot::Second,
                },
            );
            ops.push(Op::Keep { query: Query::Count, slot: Slot::Third });
            ops.push(Op::PowerCut);
            ops.push(Op::Drop(true));
        },
        Sweep::Crashed => {
            ops.push(Op::ArmCrash { kind, k });
            ops.push(Op::Truncate);
            ops.push(Op::KeepCut);
            ops.push(Op::Disarm);
            ops.push(Op::DropAsCut);
        },
    }
    proof {
        assert(ops@ =~= old(ops)@ + placed_fault(sweep, kind, k));
    }
}

/// One placement of a sweep: what is there after a reopen.
pub open spec fn placed_verdict(sweep: Sweep, kind: OpKind, k: u32) -> Seq<Op> {
    seq![
        Op::Keep { query: Query::Count, slot: Slot::Last },
        match sweep {
            Sweep::Failed => Op::JudgeFailedCheckpoint { kind, k },
            Sweep::Crashed => Op::JudgeCrashedCheckpoint { kind, k },
        },
        Op::Drop(false),
    ]
}

fn add_placed_verdict(ops: &mut Vec<Op>, sweep: Sweep, kind: OpKind, k: u32)
    ensures
        final(ops)@ == old(ops)@ + placed_verdict(sweep, kind, k),
{
    ops.push(Op::Keep { query: Query::Count, slot: Slot::Last });
    match sweep {
        Sweep::Failed => ops.push(Op::JudgeFailedCheckpoint { kind, k }),
        Sweep::Crashed => ops.push(Op::JudgeCrashedCheckpoint { kind, k }),
    }
    ops.push(Op::Drop(false));
    proof {
        assert(ops@ =~= old(ops)@ + placed_verdict(sweep, kind, k));
    }
}

/// Where a sweep works.
pub open spec fn sweep_place(sweep: Sweep, kind: OpKind, k: u32) -> Place {
    match sweep {
        Sweep::Failed => Place::Placement { tag: "ck", kind, k },
        Sweep::Crashed => Place::Placement { tag: "cc", kind, k },
    }
}

/// How many rows a sweep commits first.
pub open spec fn sweep_rows(sweep: Sweep) -> int {
    match sweep {
        Sweep::Failed => 8,
        Sweep::Crashed => 16,
    }
}

/// One placement of a sweep, in a directory of its own.
pub open spec fn placement(sweep: Sweep, kind: OpKind, k: u32) -> Seq<Op> {
    fresh(sweep_place(sweep, kind, k), None, true) + named_rows(sweep_rows(sweep))
        + seq![Op::SyncDir] + placed_fault(sweep, kind, k) + reopened(true) + placed_verdict(
        sweep,
        kind,
        k,
    )
}

fn add_placement(ops: &mut Vec<Op>, sweep: Sweep, kind: OpKind, k: u32)
    ensures
        final(ops)@ == old(ops)@ + placement(sweep, kind, k),
{
    let (place, rows) = match sweep {
        Sweep::Failed => (Place::Placement { tag: "ck", kind, k }, 8i64),
        Sweep::Crashed => (Place::Placement { tag: "cc", kind, k }, 16i64),
    };
    add_fresh(ops, place, None, true);
    add_named_rows(ops, rows);
    ops.push(Op::SyncDir);
    add_placed_fault(ops, sweep, kind, k);
    add_reopened(ops, true);
    add_placed_verdict(ops, sweep, kind, k);
    proof {
        assert(ops@ =~= old(ops)@ + placement(sweep, kind, k));
    }
}

/// Whether a placement is gone through: all are, unless one is asked for.
pub open spec fn is_asked_for(only: Option<Seq<char>>, kind: OpKind, k: u32) -> bool {
    match only {
        Some(o) => o == kind.name()@ + ":"@ + text::decimal(k as int),
        None => true,
    }
}

fn asked_for(only: &Option<String>, kind: OpKind, k: u32) -> (yes: bool)
    ensures
        yes == is_asked_for(
            text::maybe_text(*only),
            kind,
            k,
        ),
{
    match only {
        Some(o) => {
            let mut name = kind.label().to_owned();
            name.append(":");
            push_unsigned(&mut name, k as u64);
            same_text(o.as_str(), name.as_str())
        },
        None => true,
    }
}

/// The first `n` placements of a sweep, kind by kind.
pub open spec fn placements(sweep: Sweep, only: Option<Seq<char>>, n: nat) -> Seq<Op>
    decreases n,
{
    if n == 0 {
        Seq::empty()
    } else {
        let i = n - 1;
        let kind = sweep.kinds()[i / PLACEMENTS as int];
        let k = (i % PLACEMENTS as int) as u32;
        placements(sweep, only, i as nat) + (if is_asked_for(only, kind, k) {
            placement(sweep, kind, k)
        } else {
            Seq::empty()
        })
    }
}

fn add_sweep(ops: &mut Vec<Op>, sweep: Sweep, only: &Option<String>)
    ensures
        final(ops)@ == old(ops)@ + placements(
            sweep,
            text::maybe_text(*only),
            sweep.len(),
        ),
{
    let ghost wanted: Option<Seq<char>> = text::maybe_text(*only);
    let n: u32 = sweep.placements();
    let mut i: u32 = 0;
    proof {
        assert(ops@ =~= old(ops)@ + placements(sweep, wanted, 0));
    }
    while i < n
        invariant
            i <= n,
            n == sweep.len(),
            wanted == text::maybe_text(*only),
            ops@ == old(ops)@ + placements(sweep, wanted, i as nat),
        decreases n - i,
    {
        let ghost so_far = ops@;
        let kind = sweep.kind_at(i / PLACEMENTS);
        let k: u32 = i % PLACEMENTS;
        if asked_for(only, kind, k) {
            add_placement(ops, sweep, kind, k);
        }
        proof {
            assert(kind == sweep.kinds()[i as int / PLACEMENTS as int]);
            assert(k == (i as int % PLACEMENTS as int) as u32);
            assert(placements(sweep, wanted, (i + 1) as nat) == placements(
                sweep,
                wanted,
                i as nat,
            ) + (if is_asked_for(wanted, kind, k) {
                placement(sweep, kind, k)
            } else {
                Seq::empty()
            }));
            assert(ops@ =~= old(ops)@ + placements(sweep, wanted, (i + 1) as nat));
        }
        i += 1;
    }
}

/// The rows that make pages of a table hard to keep in a small cache.
pub open spec fn large_rows(n: int) -> Seq<Op> {
    Seq::new(
        n as nat,
        |i: int|
            Op::Must(
                Query::Insert {
                    id: (i + 1) as i64,
                    n: (i + 1) as i64,
                    v: Filling::Repeat('z', 3000),
                },
            ),
    )
}

fn add_large_rows(ops: &mut Vec<Op>, n: i64)
    requires
        0 <= n < 1000,
    ensures
        final(ops)@ == old(ops)@ + large_rows(n as int),
{
    let mut i: i64 = 0;
    proof {
        assert(ops@ =~= old(ops)@ + large_rows(0));
    }
    while i < n
        invariant
            0 <= i <= n < 1000,
            ops@ == old(ops)@ + large_rows(i as int),
        decreases n - i,
    {
        let id: i64 = i + 1;
        ops.push(Op::Must(Query::Insert { id, n: id, v: Filling::Repeat('z', 3000) }));
        i += 1;
        proof {
            assert(ops@ =~= old(ops)@ + large_rows(i as int));
        }
    }
}

/// A write inside a savepoint whose page read fails, and the rollback.
pub open spec fn savepoint_write(k: u32) -> Seq<Op> {
    seq![
        fine(numbered("k=", k as u64, " BEGIN"), "BEGIN"),
        fine(numbered("k=", k as u64, " SAVEPOINT"), "SAVEPOINT sp0"),
        Op::ArmFail { kind: OpKind::Pread, k },
        Op::Keep {
            query: Query::Plain("UPDATE kv SET n = n + 1 WHERE id BETWEEN 1 AND 4"),
            slot: Slot::First,
        },
        Op::Keep { query: named_row(5), slot: Slot::Second },
        Op::Disarm,
        Op::ShowUpdate { k },
        Op::KeepAutoCommit,
        Op::Keep { query: Query::Plain("ROLLBACK"), slot: Slot::Third },
        Op::ShowRollback { k },
        Op::CheckRolledBack { k },
        Op::Drop(false),
    ]
}

fn add_savepoint_write(ops: &mut Vec<Op>, k: u32)
    ensures
        final(ops)@ == old(ops)@ + savepoint_write(k),
{
    let num: u64 = k as u64;
    ops.push(
        Op::Check {
            caption: numbered_caption("k=", num, " BEGIN"),
            query: Query::Plain("BEGIN"),
            want: Want::Fine,
        },
    );
    ops.push(
        Op::Check {
            caption: numbered_caption("k=", num, " SAVEPOINT"),
            query: Query::Plain("SAVEPOINT sp0"),
            want: Want::Fine,
        },
    );
    ops.push(Op::ArmFail { kind: OpKind::Pread, k });
    ops.push(
        Op::Keep {
            query: Query::Plain("UPDATE kv SET n = n + 1 WHERE id BETWEEN 1 AND 4"),
            slot: Slot::First,
        },
    );
    ops.push(
        Op::Keep {
            query: Query::Insert { id: 5, n: 5, v: Filling::Row(5) },
            slot: Slot::Second,
        },
    );
    ops.push(Op::Disarm);
    ops.push(Op::ShowUpdate { k });
    ops.push(Op::KeepAutoCommit);
    ops.push(Op::Keep { query: Query::Plain("ROLLBACK"), slot: Slot::Third });
    ops.push(Op::ShowRollback { k });
    ops.push(Op::CheckRolledBack { k });
    ops.push(Op::Drop(false));
    proof {
        assert(ops@ =~= old(ops)@ + savepoint_write(k));
    }
}

/// One round of the savepoint scenario, in a directory of its own.
pub open spec fn savepoint_round(k: u32) -> Seq<Op> {
    fresh(Place::Round { tag: "sp", k }, Some(2i64), false) + large_rows(4) + seq![Op::Truncate]
        + savepoint_write(k)
}

/// The first `n` rounds of the savepoint scenario: inside a transaction and a
/// savepoint, a write whose page read fails must be an error, never an abort.
pub open spec fn savepoint_rounds(n: nat) -> Seq<Op>
    decreases n,
{
    if n == 0 {
        Seq::empty()
    } else {
        savepoint_rounds((n - 1) as nat) + savepoint_round((n - 1) as u32)
    }
}

fn add_savepoint_round(ops: &mut Vec<Op>, k: u32)
    ensures
        final(ops)@ == old(ops)@ + savepoint_round(k),
{
    add_fresh(ops, Place::Round { tag: "sp", k }, Some(2), false);
    add_large_rows(ops, 4);
    ops.push(Op::Truncate);
    add_savepoint_write(ops, k);
    proof {
        assert(ops@ =~= old(ops)@ + savepoint_round(k));
    }
}

fn add_savepoint_rounds(ops: &mut Vec<Op>, n: u32)
    ensures
        final(ops)@ == old(ops)@ + savepoint_rounds(n as nat),
{
    let mut k: u32 = 0;
    proof {
        assert(ops@ =~= old(ops)@ + savepoint_rounds(0));
    }
    while k < n
        invariant
            k <= n,
            ops@ == old(ops)@ + savepoint_rounds(k as nat),
        decreases n - k,
    {
        add_savepoint_round(ops, k);
        proof {
            assert(savepoint_rounds((k + 1) as nat) == savepoint_rounds(k as nat)
                + savepoint_round(k));
            assert(ops@ =~= old(ops)@ + savepoint_rounds((k + 1) as nat));
        }
        k += 1;
    }
}

/// A short read at open: where opening fails, a clean reopen must show every
/// committed row.
pub open spec fn short_open(k: u32) -> Seq<Op> {
    seq![
        Op::SyncDir,
        Op::Drop(false),
        Op::ArmShort { k, bytes: 16 },
        Op::TryOpen { synced: true },
        Op::Disarm,
        Op::SkipIfOpened(6),
        Op::ShowShortError { k },
        Op::Open,
        full_sync(),
        counts(numbered("k=", k as u64, " count after clean reopen"), 8),
        Op::Drop(false),
        Op::Skip(8),
    ]
}

fn add_short_open(ops: &mut Vec<Op>, k: u32)
    ensures
        final(ops)@ == old(ops)@ + short_open(k),
{
    ops.push(Op::SyncDir);
    ops.push(Op::Drop(false));
    ops.push(Op::ArmShort { k, bytes: 16 });
    ops.push(Op::TryOpen { synced: true });
    ops.push(Op::Disarm);
    ops.push(Op::SkipIfOpened(6));
    ops.push(Op::ShowShortError { k });
    ops.push(Op::Open);
    ops.push(full_sync_op());
    let num: u64 = k as u64;
    ops.push(
        Op::Check {
            caption: numbered_caption("k=", num, " count after clean reopen"),
            query: Query::Count,
            want: Want::Rows(8),
        },
    );
    ops.push(Op::Drop(false));
    ops.push(Op::Skip(8));
    proof {
        assert(ops@ =~= old(ops)@ + short_open(k));
    }
}

/// Where opening succeeds, it must have recovered everything: never does a
/// database open empty.
pub open spec fn short_write(k: u32) -> Seq<Op> {
    seq![
        Op::Show {
            caption: numbered("short pread#", k as u64, " at open -> open ok, count "),
            query: Query::Count,
            slot: Slot::Third,
        },
        Op::Show {
            caption: plain("insert after open -> "),
            query: Query::Insert { id: (100 + k) as i64, n: 1, v: Filling::Word("after") },
            slot: Slot::Second,
        },
        Op::Drop(false),
        Op::Open,
        full_sync(),
        Op::Keep { query: Query::Count, slot: Slot::Last },
        Op::JudgeShortRead { k },
        Op::Drop(false),
    ]
}

fn add_short_write(ops: &mut Vec<Op>, k: u32)
    requires
        k < 1000,
    ensures
        final(ops)@ == old(ops)@ + short_write(k),
{
    let num: u64 = k as u64;
    ops.push(
        Op::Show {
            caption: numbered_caption("short pread#", num, " at open -> open ok, count "),
            query: Query::Count,
            slot: Slot::Third,
        },
    );
    let id: i64 = 100 + k as i64;
    ops.push(
        Op::Show {
            caption: plain_caption("insert after open -> "),
            query: Query::Insert { id, n: 1, v: Filling::Word("after") },
            slot: Slot::Second,
        },
    );
    ops.push(Op::Drop(false));
    ops.push(Op::Open);
    ops.push(full_sync_op());
    ops.push(Op::Keep { query: Query::Count, slot: Slot::Last });
    ops.push(Op::JudgeShortRead { k });
    ops.push(Op::Drop(false));
    proof {
        assert(ops@ =~= old(ops)@ + short_write(k));
    }
}

/// One round of the short-read scenario, in a directory of its own.
pub open spec fn short_round(k: u32) -> Seq<Op> {
    fresh(Place::Round { tag: "osr", k }, None, false) + named_rows(8) + short_open(k)
        + short_write(k)
}

/// The first `n` rounds of the short-read scenario.
pub open spec fn short_rounds(n: nat) -> Seq<Op>
    decreases n,
{
    if n == 0 {
        Seq::empty()
    } else {
        short_rounds((n - 1) as nat) + short_round((n - 1) as u32)
    }
}

fn add_short_round(ops: &mut Vec<Op>, k: u32)
    requires
        k < 1000,
    ensures
        final(ops)@ == old(ops)@ + short_round(k),
{
    add_fresh(ops, Place::Round { tag: "osr", k }, None, false);
    add_named_rows(ops, 8);
    add_short_open(ops, k);
    add_short_write(ops, k);
    proof {
        assert(ops@ =~= old(ops)@ + short_round(k));
    }
}

fn add_short_rounds(ops: &mut Vec<Op>, n: u32)
    requires
        n < 1000,
    ensures
        final(ops)@ == old(ops)@ + short_rounds(n as nat),
{
    let mut k: u32 = 0;
    proof {
        assert(ops@ =~= old(ops)@ + short_rounds(0));
    }
    while k < n
        invariant
            k <= n < 1000,
            ops@ == old(ops)@ + short_rounds(k as nat),
        decreases n - k,
    {
        add_short_round(ops, k);
        proof {
            assert(short_rounds((k + 1) as nat) == short_rounds(k as nat) + short_round(k));
            assert(ops@ =~= old(ops)@ + short_rounds((k + 1) as nat));
        }
        k += 1;
    }
}

/// The fault of a scenario in which a commit fails. After a checkpoint that
/// truncates the log, the first commit first writes and syncs the new log
/// header; the second sync is the commit's own.
pub open spec fn commit_fault(name: Seq<char>) -> Option<CommitFault> {
    let write = CommitFault { autocommit: false, warm: false, kind: OpKind::Pwritev, k: 0 };
    if name == "commit-write-fail"@ {
        Some(write)
    } else if name == "commit-write-fail-warm"@ {
        Some(CommitFault { warm: true, ..write })
    } else if name == "commit-sync-fail"@ {
        Some(CommitFault { kind: OpKind::Sync, ..write })
    } else if name == "commit-sync-fail-2"@ {
        Some(CommitFault { kind: OpKind::Sync, k: 1, ..write })
    } else if name == "commit-header-write-fail"@ {
        Some(CommitFault { kind: OpKind::Pwrite, ..write })
    } else if name == "autocommit-header-write-fail"@ {
        Some(CommitFault { autocommit: true, kind: OpKind::Pwrite, ..write })
    } else {
        None
    }
}

fn find_commit_fault(name: &str) -> (f: Option<CommitFault>)
    ensures
        f == commit_fault(name@),
{
    if same_text(name, "commit-write-fail") {
        Some(CommitFault { autocommit: false, warm: false, kind: OpKind::Pwritev, k: 0 })
    } else if same_text(name, "commit-write-fail-warm") {
        Some(CommitFault { autocommit: false, warm: true, kind: OpKind::Pwritev, k: 0 })
    } else if same_text(name, "commit-sync-fail") {
        Some(CommitFault { autocommit: false, warm: false, kind: OpKind::Sync, k: 0 })
    } else if same_text(name, "commit-sync-fail-2") {
        Some(CommitFault { autocommit: false, warm: false, kind: OpKind::Sync, k: 1 })
    } else if same_text(name, "commit-header-write-fail") {
        Some(CommitFault { autocommit: false, warm: false, kind: OpKind::Pwrite, k: 0 })
    } else if same_text(name, "autocommit-header-write-fail") {
        Some(CommitFault { autocommit: true, warm: false, kind: OpKind::Pwrite, k: 0 })
    } else {
        None
    }
}

/// The script of a scenario, if there is one of that name. `only` narrows a
/// sweep to one placement.
pub open spec fn script_of(name: Seq<char>, only: Option<Seq<char>>) -> Option<Seq<Op>> {
    match commit_fault(name) {
        Some(f) => Some(failed_commit(f)),
        None => if name == "read-fail-then-count"@ {
            Some(failed_read(false))
        } else if name == "rollback-then-read-fail"@ {
            Some(failed_read(true))
        } else if name == "recovery-read-fail"@ {
            Some(failed_recovery())
        } else if name == "rollback-inflight-spill"@ {
            Some(inflight_rollback(false))
        } else if name == "rollback-inflight-spill-drained"@ {
            Some(inflight_rollback(true))
        } else if name == "checkpoint-fail-then-crash"@ {
            Some(placements(Sweep::Failed, only, Sweep::Failed.len()))
        } else if name == "ckpt-crash-sweep"@ {
            Some(placements(Sweep::Crashed, only, Sweep::Crashed.len()))
        } else if name == "savepoint-read-fail"@ {
            Some(savepoint_rounds(6))
        } else if name == "open-short-read"@ {
            Some(short_rounds(5))
        } else {
            None
        },
    }
}

/// Writes the script of a scenario, if there is one of that name.
pub fn script(name: &str, only: &Option<String>) -> (out: Option<Vec<Op>>)
    ensures
        match script_of(
            name@,
            text::maybe_text(*only),
        ) {
            Some(ops) => out is Some && out->0@ == ops,
            None => out is None,
        },
{
    let mut ops: Vec<Op> = Vec::new();
    match find_commit_fault(name) {
        Some(f) => add_failed_commit(&mut ops, f),
        None => {
            if same_text(name, "read-fail-then-count") {
                add_failed_read(&mut ops, false);
            } else if same_text(name, "rollback-then-read-fail") {
                add_failed_read(&mut ops, true);
            } else if same_text(name, "recovery-read-fail") {
                add_failed_recovery(&mut ops);
            } else if same_text(name, "rollback-inflight-spill") {
                add_inflight_rollback(&mut ops, false);
            } else if same_text(name, "rollback-inflight-spill-drained") {
                add_inflight_rollback(&mut ops, true);
            } else if same_text(name, "checkpoint-fail-then-crash") {
                add_sweep(&mut ops, Sweep::Failed, only);
            } else if same_text(name, "ckpt-crash-sweep") {
                add_sweep(&mut ops, Sweep::Crashed, only);
            } else if same_text(name, "savepoint-read-fail") {
                add_savepoint_rounds(&mut ops, 6);
            } else if same_text(name, "open-short-read") {
                add_short_rounds(&mut ops, 5);
            } else {
                return None;
            }
        },
    }
    proof {
        let all = script_of(
            name@,
            text::maybe_text(*only),
        )->0;
        assert(Seq::<Op>::empty() + all =~= all);
    }
    Some(ops)
}

} // verus!
