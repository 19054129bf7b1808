//! Reading what the engine shows: rows of text into rows of the table, counts
//! and sums, and the outcome of an integrity check.

use crate::exec;
use crate::exec::{Cells, Fail, FailView};
use crate::report::{violation, Violation, ViolationView};
use crate::table;
use crate::table::{digest_rows, model_rows, put_row, row_count, Model, Table};
use crate::text;
use crate::text::{join_text, parse_signed, push_quoted, push_signed, same_text};
use vstd::prelude::*;
use vstd::string::*;

verus! {

/// A row of the table as a mathematical value.
pub type Row = (i64, i64, Seq<char>);

/// What a row of text says, or how it fails to.
pub open spec fn parsed_row(r: Seq<Seq<char>>) -> Result<Row, FailView> {
    match text::parsed(r[0]) {
        None => Err(FailView::Error("bad id "@ + text::quoted(r[0]))),
        Some(id) => match text::parsed(r[1]) {
            None => Err(FailView::Error("bad n "@ + text::quoted(r[1]))),
            Some(n) => Ok((id, n, r[2])),
        },
    }
}

/// The statement that shows the whole table, in ascending order of its keys.
pub const READ_ALL: &'static str = "SELECT id, n, v FROM kv ORDER BY id";

/// The statement that checks the database's integrity.
pub const CHECK_INTEGRITY: &'static str = "PRAGMA integrity_check";

/// Whether a row of text has the columns that are looked at.
pub open spec fn row_readable(r: Seq<Seq<char>>) -> bool {
    &&& r.len() >= 1
    &&& text::parsed(r[0]) is Some ==> r.len() >= 2
    &&& text::parsed(r[0]) is Some && text::parsed(r[1]) is Some ==> r.len() >= 3
}

/// Whether every row up to the first one that fails has the columns that are
/// looked at.
pub open spec fn readable(rows: Cells) -> bool {
    forall|i: int|
        #![trigger rows[i]]
        0 <= i < rows.len() && parsed_rows(rows.take(i)) is Ok ==> row_readable(rows[i])
}

/// What rows of text say, or how the first one that fails does.
pub open spec fn parsed_rows(rows: Cells) -> Result<Seq<Row>, FailView>
    decreases rows.len(),
{
    if rows.len() == 0 {
        Ok(Seq::empty())
    } else {
        match parsed_rows(rows.drop_last()) {
            Err(e) => Err(e),
            Ok(done) => match parsed_row(rows.last()) {
                Err(e) => Err(e),
                Ok(row) => Ok(done.push(row)),
            },
        }
    }
}

/// The table that rows make up; a later row goes over an earlier one with its
/// key.
pub open spec fn table_of(rows: Seq<Row>) -> Table
    decreases rows.len(),
{
    if rows.len() == 0 {
        Map::empty()
    } else {
        table_of(rows.drop_last()).insert(rows.last().0, (rows.last().1, rows.last().2))
    }
}

proof fn lemma_error_stays(rows: Cells, k: int)
    requires
        0 <= k <= rows.len(),
        parsed_rows(rows.take(k)) is Err,
    ensures
        parsed_rows(rows) == parsed_rows(rows.take(k)),
    decreases rows.len() - k,
{
    if k == rows.len() {
        assert(rows.take(k) =~= rows);
    } else {
        assert(rows.take(k + 1).drop_last() =~= rows.take(k));
        lemma_error_stays(rows, k + 1);
    }
}

fn bad_column(what: &str, cell: &str) -> (fail: Fail)
    ensures
        fail@ == FailView::Error(what@ + text::quoted(cell@)),
{
    let mut out = what.to_owned();
    push_quoted(&mut out, cell);
    Fail::Error(out)
}

/// Reads rows of text, `id` and `n` in decimal and `v` as it stands.
pub fn parse_rows<'a>(rows: &'a Vec<Vec<String>>) -> (out: Result<Vec<(i64, i64, &'a str)>, Fail>)
    requires
        readable(exec::cells(rows@)),
    ensures
        match out {
            Ok(list) => parsed_rows(exec::cells(rows@)) == Ok::<Seq<Row>, FailView>(
                table::row_views(list@),
            ),
            Err(e) => parsed_rows(exec::cells(rows@)) == Err::<Seq<Row>, FailView>(e@),
        },
{
    let mut list: Vec<(i64, i64, &'a str)> = Vec::new();
    let mut i: usize = 0;
    let ghost all = exec::cells(rows@);
    proof {
        assert(all.take(0) =~= Seq::<Seq<Seq<char>>>::empty());
        assert(table::row_views(list@) =~= Seq::<Row>::empty());
    }
    while i < rows.len()
        invariant
            i <= rows.len(),
            all == exec::cells(rows@),
            readable(all),
            parsed_rows(all.take(i as int)) == Ok::<Seq<Row>, FailView>(
                table::row_views(list@),
            ),
        decreases rows.len() - i,
    {
        let row: &'a Vec<String> = &rows[i];
        let ghost cells = all[i as int];
        proof {
            assert(cells == text::texts(row@));
            assert(row_readable(cells));
            assert(all.take(i + 1).drop_last() =~= all.take(i as int));
            assert(all.take(i + 1).last() == cells);
            assert(cells[0] == row@[0]@);
        }
        let id: i64 = match parse_signed(row[0].as_str()) {
            Some(id) => id,
            None => {
                proof {
                    lemma_error_stays(all, i + 1);
                }
                return Err(bad_column("bad id ", row[0].as_str()));
            },
        };
        proof {
            assert(cells[1] == row@[1]@);
        }
        let n: i64 = match parse_signed(row[1].as_str()) {
            Some(n) => n,
            None => {
                proof {
                    lemma_error_stays(all, i + 1);
                }
                return Err(bad_column("bad n ", row[1].as_str()));
            },
        };
        proof {
            assert(cells[2] == row@[2]@);
        }
        let ghost so_far = table::row_views(list@);
        list.push((id, n, row[2].as_str()));
        proof {
            assert(table::row_views(list@) =~= so_far.push((id, n, cells[2])));
        }
        i += 1;
    }
    proof {
        assert(all.take(all.len() as int) =~= all);
    }
    Ok(list)
}

/// Reads rows of text into a model.
pub fn read_model(rows: &Vec<Vec<String>>) -> (out: Result<Model, Fail>)
    requires
        readable(exec::cells(rows@)),
    ensures
        match parsed_rows(exec::cells(rows@)) {
            Ok(list) => out is Ok && table::table(out->Ok_0) == table_of(list),
            Err(e) => out is Err && out->Err_0@ == e,
        },
{
    let list = match parse_rows(rows) {
        Ok(list) => list,
        Err(e) => {
            return Err(e);
        },
    };
    let mut m: Model = Model::new();
    let mut i: usize = 0;
    let ghost all = table::row_views(list@);
    proof {
        assert(all.take(0) =~= Seq::<Row>::empty());
        assert(table::table(m) =~= Map::<i64, (i64, Seq<char>)>::empty());
    }
    while i < list.len()
        invariant
            i <= list.len(),
            all == table::row_views(list@),
            table::table(m) == table_of(all.take(i as int)),
        decreases list.len() - i,
    {
        proof {
            assert(all.take(i + 1).drop_last() =~= all.take(i as int));
            assert(all.take(i + 1).last() == all[i as int]);
        }
        let row: (i64, i64, &str) = list[i];
        put_row(&mut m, row.0, row.1, row.2.to_owned());
        i += 1;
    }
    proof {
        assert(all.take(all.len() as int) =~= all);
    }
    Ok(m)
}

/// The digest of rows of text, and how many there are.
pub fn read_digest(rows: &Vec<Vec<String>>) -> (out: Result<(u64, usize), Fail>)
    requires
        readable(exec::cells(rows@)),
    ensures
        match parsed_rows(exec::cells(rows@)) {
            Ok(list) => {
                &&& out is Ok
                &&& out->Ok_0.0 == table::rows_digest(list)
                &&& out->Ok_0.1 == rows@.len()
            },
            Err(e) => out is Err && out->Err_0@ == e,
        },
{
    match parse_rows(rows) {
        Ok(list) => Ok((digest_rows(&list), rows.len())),
        Err(e) => Err(e),
    }
}

/// Whether reading one row of text finds the columns that it looks at, and
/// whether it then succeeds.
fn look_at_row(row: &Vec<String>) -> (out: (bool, bool))
    ensures
        out.0 == row_readable(text::texts(row@)),
        out.0 ==> out.1 == (parsed_row(text::texts(row@)) is Ok),
{
    let ghost cells = text::texts(row@);
    if row.len() < 1 {
        return (false, false);
    }
    proof {
        assert(cells[0] == row@[0]@);
    }
    if parse_signed(row[0].as_str()).is_none() {
        return (true, false);
    }
    if row.len() < 2 {
        return (false, false);
    }
    proof {
        assert(cells[1] == row@[1]@);
    }
    if parse_signed(row[1].as_str()).is_none() {
        return (true, false);
    }
    (row.len() >= 3, true)
}

/// Whether rows of text have the columns that reading them looks at.
pub fn rows_readable(rows: &Vec<Vec<String>>) -> (yes: bool)
    ensures
        yes == readable(exec::cells(rows@)),
{
    let ghost all = exec::cells(rows@);
    let mut i: usize = 0;
    proof {
        assert(all.take(0) =~= Seq::<Seq<Seq<char>>>::empty());
    }
    while i < rows.len()
        invariant
            i <= rows.len(),
            all == exec::cells(rows@),
            parsed_rows(all.take(i as int)) is Ok,
            forall|j: int| 0 <= j < i ==> row_readable(#[trigger] all[j]),
        decreases rows.len() - i,
    {
        proof {
            assert(all[i as int] == text::texts(rows@[i as int]@));
            assert(all.take(i + 1).drop_last() =~= all.take(i as int));
            assert(all.take(i + 1).last() == all[i as int]);
        }
        let (fine, good) = look_at_row(&rows[i]);
        if !fine {
            return false;
        }
        if !good {
            proof {
                assert forall|j: int|
                    #![trigger all[j]]
                    0 <= j < all.len() && parsed_rows(all.take(j)) is Ok implies row_readable(
                    all[j],
                ) by {
                    if j > i {
                        assert(all.take(j).take(i + 1) =~= all.take(i + 1));
                        lemma_error_stays(all.take(j), i + 1);
                    }
                }
            }
            return true;
        }
        i += 1;
    }
    true
}

/// The sum of `n` over the first `k` rows.
pub open spec fn sum_of(rows: Seq<Row>, k: int) -> int
    decreases k,
{
    if k <= 0 {
        0
    } else {
        sum_of(rows, k - 1) + rows[k - 1].1
    }
}

/// Whether `n` can be summed over the rows of a table, from the first to the
/// last, in 64 bits.
pub open spec fn sum_fits(t: Table) -> bool {
    forall|k: int|
        0 <= k <= table::rows_of(t).len() ==> i64::MIN <= #[trigger] sum_of(table::rows_of(t), k)
            <= i64::MAX
}

/// The sum of `n` over a table.
pub open spec fn table_sum(t: Table) -> int {
    sum_of(table::rows_of(t), table::rows_of(t).len() as int)
}

/// Whether `n` can be summed over a model in 64 bits.
pub fn can_sum(m: &Model) -> (yes: bool)
    ensures
        yes == sum_fits(table::table(*m)),
{
    let rows = model_rows(m);
    let mut sum: i128 = 0;
    let mut i: usize = 0;
    let ghost all = table::rows_of(table::table(*m));
    while i < rows.len()
        invariant
            i <= rows.len(),
            all == table::rows_of(table::table(*m)),
            all == table::row_views(rows@),
            sum == sum_of(all, i as int),
            i64::MIN <= sum <= i64::MAX,
            forall|k: int| 0 <= k <= i ==> i64::MIN <= #[trigger] sum_of(all, k) <= i64::MAX,
        decreases rows.len() - i,
    {
        proof {
            assert(all[i as int].1 == rows@[i as int].1);
        }
        sum = sum + rows[i].1 as i128;
        i += 1;
        if sum < i64::MIN as i128 || sum > i64::MAX as i128 {
            proof {
                assert(sum == sum_of(all, i as int));
            }
            return false;
        }
    }
    true
}

fn model_sum(m: &Model) -> (sum: i64)
    requires
        sum_fits(table::table(*m)),
    ensures
        sum == table_sum(table::table(*m)),
{
    let rows = model_rows(m);
    let mut sum: i64 = 0;
    let mut i: usize = 0;
    let ghost all = table::rows_of(table::table(*m));
    while i < rows.len()
        invariant
            i <= rows.len(),
            all == table::rows_of(table::table(*m)),
            all == table::row_views(rows@),
            sum_fits(table::table(*m)),
            sum == sum_of(all, i as int),
        decreases rows.len() - i,
    {
        proof {
            assert(all[i as int].1 == rows@[i as int].1);
            assert(sum_of(all, i + 1) == sum + rows@[i as int].1);
        }
        sum = sum + rows[i].1;
        i += 1;
    }
    sum
}

/// The number in a column of the first row, or `otherwise` where there is none.
pub open spec fn first_number(rows: Cells, column: int, otherwise: i64) -> i64 {
    if rows.len() > 0 && column < rows[0].len() {
        match text::parsed(rows[0][column]) {
            Some(n) => n,
            None => otherwise,
        }
    } else {
        otherwise
    }
}

fn number_in_first(rows: &Vec<Vec<String>>, column: usize, otherwise: i64) -> (n: i64)
    ensures
        n == first_number(exec::cells(rows@), column as int, otherwise),
{
    if rows.len() > 0 {
        let row: &Vec<String> = &rows[0];
        proof {
            assert(exec::cells(rows@)[0] == text::texts(row@));
        }
        if column < row.len() {
            proof {
                assert(text::texts(row@)[column as int] == row@[column as int]@);
            }
            return match parse_signed(row[column].as_str()) {
                Some(n) => n,
                None => otherwise,
            };
        }
    }
    otherwise
}

/// A pair of numbers as `(a,b)`.
pub open spec fn pair_text(a: int, b: int) -> Seq<char> {
    "("@ + text::decimal(a) + ","@ + text::decimal(b) + ")"@
}

fn push_pair(out: &mut String, a: i64, b: i64)
    ensures
        final(out)@ == old(out)@ + pair_text(a as int, b as int),
{
    out.append("(");
    push_signed(out, a);
    out.append(",");
    push_signed(out, b);
    out.append(")");
    proof {
        assert(out@ =~= old(out)@ + pair_text(a as int, b as int));
    }
}

/// What is wrong with the count and the sum that a query showed, if anything.
pub open spec fn count_verdict(rows: Cells, t: Table, ctx: Seq<char>) -> Option<ViolationView> {
    let got_count = first_number(rows, 0, (-1) as i64);
    let got_sum = first_number(rows, 1, i64::MIN);
    let want_count = t.len() as i64;
    let want_sum = table_sum(t);
    if got_count != want_count || got_sum != want_sum {
        Some(
            ViolationView {
                label: "read-your-writes-violated"@,
                detail: ctx + " count/sum: got "@ + pair_text(got_count as int, got_sum as int)
                    + " want "@ + pair_text(want_count as int, want_sum),
            },
        )
    } else {
        None
    }
}

/// Holds the count and the sum of `n` that a query showed against the model.
pub fn check_count(rows: &Vec<Vec<String>>, m: &Model, ctx: &str) -> (out: Option<Violation>)
    requires
        sum_fits(table::table(*m)),
    ensures
        match count_verdict(exec::cells(rows@), table::table(*m), ctx@) {
            Some(v) => out is Some && out->0@ == v,
            None => out is None,
        },
{
    let got_count: i64 = number_in_first(rows, 0, -1);
    let got_sum: i64 = number_in_first(rows, 1, i64::MIN);
    let want_count: i64 = row_count(m) as i64;
    let want_sum: i64 = model_sum(m);
    if got_count != want_count || got_sum != want_sum {
        let mut detail = ctx.to_owned();
        detail.append(" count/sum: got ");
        push_pair(&mut detail, got_count, got_sum);
        detail.append(" want ");
        push_pair(&mut detail, want_count, want_sum);
        Some(violation("read-your-writes-violated", detail))
    } else {
        None
    }
}

/// The text of an integrity check: its columns joined by `|`, its rows by `; `.
pub open spec fn integrity_text(rows: Cells) -> Seq<char> {
    text::joined(rows.map_values(|r: Seq<Seq<char>>| text::joined(r, "|"@)), "; "@)
}

/// Puts the rows of an integrity check together.
pub fn join_integrity(rows: &Vec<Vec<String>>) -> (out: String)
    ensures
        out@ == integrity_text(exec::cells(rows@)),
{
    let mut lines: Vec<String> = Vec::new();
    let mut i: usize = 0;
    let ghost want = exec::cells(rows@).map_values(|r: Seq<Seq<char>>| text::joined(r, "|"@));
    while i < rows.len()
        invariant
            i <= rows.len(),
            lines@.len() == i,
            want == exec::cells(rows@).map_values(|r: Seq<Seq<char>>| text::joined(r, "|"@)),
            forall|j: int| 0 <= j < i ==> (#[trigger] lines@[j])@ == want[j],
        decreases rows.len() - i,
    {
        lines.push(join_text(&rows[i], "|"));
        i += 1;
    }
    proof {
        assert(text::texts(lines@) =~= want);
    }
    join_text(&lines, "; ")
}

/// What is wrong with the outcome of an integrity check, if anything.
pub open spec fn integrity_verdict(rows: Cells, label: Seq<char>) -> Option<ViolationView> {
    if integrity_text(rows) == "ok"@ {
        None
    } else {
        Some(ViolationView { label, detail: integrity_text(rows) })
    }
}

/// Judges the outcome of an integrity check: anything but `ok` is a violation.
pub fn check_integrity(rows: &Vec<Vec<String>>, label: &str) -> (out: Option<Violation>)
    ensures
        match integrity_verdict(exec::cells(rows@), label@) {
            Some(v) => out is Some && out->0@ == v,
            None => out is None,
        },
{
    let all = join_integrity(rows);
    if same_text(all.as_str(), "ok") {
        None
    } else {
        Some(violation(label, all))
    }
}

proof fn lemma_rows_parse_back(rows: Seq<Row>, all: Cells)
    requires
        rows.len() == all.len(),
        forall|i: int|
            0 <= i < rows.len() ==> #[trigger] all[i] == seq![
                text::decimal(rows[i].0 as int),
                text::decimal(rows[i].1 as int),
                rows[i].2,
            ],
    ensures
        parsed_rows(all) == Ok::<Seq<Row>, FailView>(rows),
    decreases rows.len(),
{
    if rows.len() > 0 {
        let r = rows.drop_last();
        let a = all.drop_last();
        assert forall|i: int| 0 <= i < r.len() implies #[trigger] a[i] == seq![
            text::decimal(r[i].0 as int),
            text::decimal(r[i].1 as int),
            r[i].2,
        ] by {
            assert(all[i] == a[i]);
        }
        lemma_rows_parse_back(r, a);
        text::law_decimal_reads_back(rows.last().0);
        text::law_decimal_reads_back(rows.last().1);
        assert(all.last() == all[all.len() - 1]);
        assert(rows =~= r.push(rows.last()));
    } else {
        assert(rows =~= Seq::<Row>::empty());
    }
}

proof fn lemma_table_of_prefix(t: Table, ks: Seq<i64>, k: int)
    requires
        table::lists_keys(ks, t),
        0 <= k <= ks.len(),
    ensures
        table_of(table::rows_of(t).take(k)) == t.restrict(ks.take(k).to_set()),
    decreases k,
{
    table::lemma_keys_of(ks, t);
    let rows = table::rows_of(t);
    if k == 0 {
        assert(rows.take(0) =~= Seq::<Row>::empty());
        assert(t.restrict(ks.take(0).to_set()) =~= Map::<i64, (i64, Seq<char>)>::empty());
    } else {
        lemma_table_of_prefix(t, ks, k - 1);
        assert(rows.take(k).drop_last() =~= rows.take(k - 1));
        let key = ks[k - 1];
        assert(ks.to_set().contains(key));
        assert(ks.take(k) =~= ks.take(k - 1).push(key));
        let more = ks.take(k);
        let less = ks.take(k - 1);
        assert forall|x: i64| more.to_set().contains(x) <==> (x == key || less.to_set().contains(
            x,
        )) by {
            if more.contains(x) && x != key {
                let i = choose|i: int| 0 <= i < more.len() && more[i] == x;
                assert(less[i] == x);
            }
            if less.contains(x) {
                let i = choose|i: int| 0 <= i < less.len() && less[i] == x;
                assert(more[i] == x);
            }
            assert(more[k - 1] == key);
        }
        assert(t.restrict(ks.take(k).to_set()) =~= t.restrict(ks.take(k - 1).to_set()).insert(
            key,
            t[key],
        ));
    }
}

/// A table that is shown whole, in order of its keys, reads back as itself,
/// and its digest is the table's digest.
pub proof fn law_shown_table_reads_back(t: Table, ks: Seq<i64>, all: Cells)
    requires
        table::lists_keys(ks, t),
        all.len() == ks.len(),
        forall|i: int|
            0 <= i < ks.len() ==> #[trigger] all[i] == seq![
                text::decimal(ks[i] as int),
                text::decimal(t[ks[i]].0 as int),
                t[ks[i]].1,
            ],
    ensures
        parsed_rows(all) == Ok::<Seq<Row>, FailView>(table::rows_of(t)),
        table_of(table::rows_of(t)) == t,
        table::rows_digest(parsed_rows(all)->Ok_0) == table::table_digest(t),
{
    table::lemma_keys_of(ks, t);
    let rows = table::rows_of(t);
    lemma_rows_parse_back(rows, all);
    lemma_table_of_prefix(t, ks, ks.len() as int);
    assert(rows.take(rows.len() as int) =~= rows);
    assert(ks.take(ks.len() as int) =~= ks);
    assert(t.restrict(t.dom()) =~= t);
}

} // verus!
