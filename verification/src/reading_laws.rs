//! What is read of a table, and how it is held against the model.

use crate::diff;
use crate::exec::{Cells, FailView};
use crate::model::{HistoryView, SnapView};
use crate::rows;
use crate::table;
use crate::table::Table;
use crate::text;
use vstd::prelude::*;

verus! {

/// Rows that read well give as many rows, each with the numbers and the text
/// that stand in it; each of the others is refused for its first number that
/// does not read, the key before the other.
pub proof fn law_rows_are_read_one_for_one(cells: Cells)
    ensures
        match rows::parsed_rows(cells) {
            Ok(out) => {
                &&& out.len() == cells.len()
                &&& forall|i: int|
                    0 <= i < cells.len() ==> {
                        &&& text::parsed(cells[i][0]) == Some((#[trigger] out[i]).0)
                        &&& text::parsed(cells[i][1]) == Some(out[i].1)
                        &&& cells[i][2] == out[i].2
                    }
            },
            Err(e) => exists|i: int|
                {
                    &&& 0 <= i < cells.len()
                    &&& rows::parsed_rows(#[trigger] cells.take(i)) is Ok
                    &&& if text::parsed(cells[i][0]) is None {
                        e == FailView::Error("bad id "@ + text::quoted(cells[i][0]))
                    } else {
                        &&& text::parsed(cells[i][1]) is None
                        &&& e == FailView::Error("bad n "@ + text::quoted(cells[i][1]))
                    }
                },
        },
    decreases cells.len(),
{
    if cells.len() > 0 {
        let front = cells.drop_last();
        law_rows_are_read_one_for_one(front);
        match rows::parsed_rows(front) {
            Err(e) => {
                let i = choose|i: int|
                    {
                        &&& 0 <= i < front.len()
                        &&& rows::parsed_rows(#[trigger] front.take(i)) is Ok
                        &&& if text::parsed(front[i][0]) is None {
                            e == FailView::Error("bad id "@ + text::quoted(front[i][0]))
                        } else {
                            &&& text::parsed(front[i][1]) is None
                            &&& e == FailView::Error("bad n "@ + text::quoted(front[i][1]))
                        }
                    };
                assert(cells.take(i) =~= front.take(i));
                assert(cells[i] == front[i]);
            },
            Ok(done) => {
                let n = cells.len() - 1;
                assert(cells.take(n) =~= front);
                if rows::parsed_rows(cells) is Ok {
                    let out = rows::parsed_rows(cells)->Ok_0;
                    assert(out.drop_last() =~= done);
                    assert forall|i: int| 0 <= i < cells.len() implies {
                        &&& text::parsed(cells[i][0]) == Some((#[trigger] out[i]).0)
                        &&& text::parsed(cells[i][1]) == Some(out[i].1)
                        &&& cells[i][2] == out[i].2
                    } by {
                        if i < n {
                            assert(done[i] == out[i]);
                            assert(front[i] == cells[i]);
                        }
                    }
                }
            },
        }
    }
}

/// The table that rows make up has their keys and no others.
pub proof fn law_rows_give_the_keys(list: Seq<(i64, i64, Seq<char>)>, k: i64)
    ensures
        rows::table_of(list).contains_key(k) <==> exists|i: int|
            0 <= i < list.len() && (#[trigger] list[i]).0 == k,
    decreases list.len(),
{
    if list.len() > 0 {
        let front = list.drop_last();
        let n = list.len() - 1;
        law_rows_give_the_keys(front, k);
        assert(list[n] == list.last());
        if rows::table_of(list).contains_key(k) && list[n].0 != k {
            let i = choose|i: int| 0 <= i < front.len() && (#[trigger] front[i]).0 == k;
            assert(list[i].0 == k);
        }
        if exists|i: int| 0 <= i < list.len() && (#[trigger] list[i]).0 == k {
            let i = choose|i: int| 0 <= i < list.len() && (#[trigger] list[i]).0 == k;
            if i < n {
                assert(front[i].0 == k);
            }
        }
    }
}

/// The table that rows make up holds under each key what the last row with that
/// key says.
pub proof fn law_last_row_counts(list: Seq<(i64, i64, Seq<char>)>, i: int)
    requires
        0 <= i < list.len(),
        forall|j: int| i < j < list.len() ==> (#[trigger] list[j]).0 != list[i].0,
    ensures
        rows::table_of(list)[list[i].0] == (list[i].1, list[i].2),
    decreases list.len(),
{
    let front = list.drop_last();
    let n = list.len() - 1;
    if i < n {
        assert(list[n].0 != list[i].0);
        assert forall|j: int| i < j < front.len() implies (#[trigger] front[j]).0 != front[i].0 by {
            assert(list[j].0 != list[i].0);
        }
        law_last_row_counts(front, i);
    }
}

proof fn lemma_sum_differs(a: Seq<(i64, i64, Seq<char>)>, b: Seq<(i64, i64, Seq<char>)>, r: int, k: int)
    requires
        a.len() == b.len(),
        0 <= r < a.len(),
        0 <= k <= a.len(),
        forall|i: int| 0 <= i < a.len() && i != r ==> (#[trigger] a[i]).1 == b[i].1,
    ensures
        rows::sum_of(b, k) == rows::sum_of(a, k) + (if r < k {
            b[r].1 - a[r].1
        } else {
            0
        }),
    decreases k,
{
    if k > 0 {
        lemma_sum_differs(a, b, r, k - 1);
        if k - 1 != r {
            assert(a[k - 1].1 == b[k - 1].1);
        }
    }
}

/// The sum over a table goes up by what one row goes up, whichever row that is;
/// it takes no other part of a row into account, and over no rows it is zero.
pub proof fn law_every_row_counts_in_the_sum(
    t: Table,
    ks: Seq<i64>,
    k: i64,
    n: i64,
    v: Seq<char>,
)
    requires
        table::lists_keys(ks, t),
    ensures
        ks.len() == 0 ==> rows::table_sum(t) == 0,
        t.contains_key(k) ==> rows::table_sum(t.insert(k, (n, v))) == rows::table_sum(t) + n
            - t[k].0,
{
    table::lemma_keys_of(ks, t);
    if t.contains_key(k) {
        let u = t.insert(k, (n, v));
        assert(u.dom() =~= t.dom());
        table::lemma_keys_of(ks, u);
        assert(ks.to_set().contains(k));
        let r = choose|r: int| 0 <= r < ks.len() && ks[r] == k;
        let a = table::rows_of(t);
        let b = table::rows_of(u);
        assert forall|i: int| 0 <= i < a.len() && i != r implies (#[trigger] a[i]).1 == b[i].1 by {
            assert(ks[i] != k);
        }
        lemma_sum_differs(a, b, r, ks.len() as int);
    }
}

proof fn lemma_sum_of_front(a: Seq<(i64, i64, Seq<char>)>, b: Seq<(i64, i64, Seq<char>)>, k: int)
    requires
        0 <= k <= a.len(),
        k <= b.len(),
        forall|i: int| 0 <= i < k ==> (#[trigger] a[i]).1 == b[i].1,
    ensures
        rows::sum_of(a, k) == rows::sum_of(b, k),
    decreases k,
{
    if k > 0 {
        lemma_sum_of_front(a, b, k - 1);
        assert(a[k - 1].1 == b[k - 1].1);
    }
}

/// A row that is added under a key above all others adds its number to the sum.
pub proof fn law_new_row_adds_to_the_sum(t: Table, ks: Seq<i64>, k: i64, n: i64, v: Seq<char>)
    requires
        table::lists_keys(ks, t),
        forall|j: i64| #[trigger] t.contains_key(j) ==> j < k,
    ensures
        rows::table_sum(t.insert(k, (n, v))) == rows::table_sum(t) + n,
{
    let u = t.insert(k, (n, v));
    let more = ks.push(k);
    assert forall|i: int| 0 <= i < ks.len() implies #[trigger] ks[i] < k by {
        assert(ks.to_set().contains(ks[i]));
        assert(t.contains_key(ks[i]));
    }
    assert(more.to_set() =~= u.dom()) by {
        assert forall|j: i64| more.to_set().contains(j) <==> u.dom().contains(j) by {
            if u.dom().contains(j) {
                if j == k {
                    assert(more[ks.len() as int] == k);
                } else {
                    assert(ks.to_set().contains(j));
                    let i = choose|i: int| 0 <= i < ks.len() && ks[i] == j;
                    assert(more[i] == j);
                }
            }
            if more.to_set().contains(j) {
                let i = choose|i: int| 0 <= i < more.len() && more[i] == j;
                if i < ks.len() {
                    assert(ks.to_set().contains(ks[i]));
                }
            }
        }
    }
    table::lemma_keys_of(ks, t);
    table::lemma_keys_of(more, u);
    let a = table::rows_of(t);
    let b = table::rows_of(u);
    assert forall|i: int| 0 <= i < a.len() implies (#[trigger] a[i]).1 == b[i].1 by {
        assert(ks[i] < k);
    }
    lemma_sum_of_front(a, b, ks.len() as int);
}

/// A count is right exactly where the first row shows the number of rows and
/// the sum; anything else is reported with both pairs of numbers.
pub proof fn law_count_is_held_against_the_table(cells: Cells, t: Table, ctx: Seq<char>)
    requires
        t.len() <= i64::MAX,
    ensures
        ({
            let count = if cells.len() > 0 && cells[0].len() > 0 && text::parsed(cells[0][0]) is Some {
                text::parsed(cells[0][0])->0 as int
            } else {
                -1
            };
            let sum = if cells.len() > 0 && cells[0].len() > 1 && text::parsed(cells[0][1]) is Some {
                text::parsed(cells[0][1])->0 as int
            } else {
                i64::MIN as int
            };
            match rows::count_verdict(cells, t, ctx) {
                None => count == t.len() && sum == rows::table_sum(t),
                Some(v) => {
                    &&& count != t.len() || sum != rows::table_sum(t)
                    &&& v.label == "read-your-writes-violated"@
                    &&& v.detail == ctx + " count/sum: got "@ + ("("@ + text::decimal(count) + ","@
                        + text::decimal(sum) + ")"@) + " want "@ + ("("@ + text::decimal(
                        t.len() as int,
                    ) + ","@ + text::decimal(rows::table_sum(t)) + ")"@)
                },
            }
        }),
{
}

proof fn lemma_joined_is_short(items: Seq<Seq<char>>, sep: Seq<char>, want: Seq<char>)
    requires
        text::joined(items, sep) == want,
        want.len() == 2,
        want == seq!['o', 'k'],
        sep.len() > 0,
        forall|i: int| 0 <= i < sep.len() ==> #[trigger] sep[i] != 'o' && sep[i] != 'k',
    ensures
        items.len() == 1,
        items[0] == want,
{
    if items.len() >= 2 {
        let front = text::joined(items.drop_last(), sep);
        let all = front + sep + items.last();
        assert(text::joined(items, sep) == all);
        let c = all[front.len() as int];
        assert(c == sep[0]);
        assert(want[front.len() as int] == sep[0]);
    }
}

/// An integrity check is clean exactly where it shows one row with one value,
/// `ok`; anything else is reported under the label that was given.
pub proof fn law_only_ok_is_clean(cells: Cells, label: Seq<char>)
    ensures
        rows::integrity_verdict(cells, label) is None <==> cells == seq![seq!["ok"@]],
        rows::integrity_verdict(cells, label) matches Some(v) ==> v.label == label && v.detail
            == rows::integrity_text(cells),
{
    reveal_strlit("ok");
    reveal_strlit("|");
    reveal_strlit("; ");
    let ok = "ok"@;
    assert(ok =~= seq!['o', 'k']);
    let lines = cells.map_values(|r: Seq<Seq<char>>| text::joined(r, "|"@));
    if cells == seq![seq![ok]] {
        assert(lines =~= seq![text::joined(seq![ok], "|"@)]);
        assert(rows::integrity_text(cells) == ok);
    }
    if rows::integrity_verdict(cells, label) is None {
        lemma_joined_is_short(lines, "; "@, ok);
        assert(lines[0] == text::joined(cells[0], "|"@));
        lemma_joined_is_short(cells[0], "|"@, ok);
        assert(cells[0] =~= seq![ok]);
        assert(cells =~= seq![seq![ok]]);
    }
}

proof fn lemma_how_many_is_a_size(ks: Seq<i64>, p: spec_fn(i64) -> bool)
    requires
        table::ascending(ks),
    ensures
        diff::how_many(ks, p) == ks.to_set().filter(p).len(),
        ks.to_set().filter(p).finite(),
    decreases ks.len(),
{
    let all = ks.to_set().filter(p);
    if ks.len() == 0 {
        assert(all =~= Set::empty());
    } else {
        let front = ks.drop_last();
        lemma_how_many_is_a_size(front, p);
        let some = front.to_set().filter(p);
        assert(!front.to_set().contains(ks.last())) by {
            if front.to_set().contains(ks.last()) {
                let i = choose|i: int| 0 <= i < front.len() && front[i] == ks.last();
                assert(ks[i] < ks[ks.len() - 1]);
            }
        }
        assert forall|k: i64| ks.to_set().contains(k) <==> front.to_set().contains(k) || k
            == ks.last() by {
            if ks.to_set().contains(k) {
                let i = choose|i: int| 0 <= i < ks.len() && ks[i] == k;
                if i < front.len() {
                    assert(front[i] == k);
                }
            }
            if front.to_set().contains(k) {
                let i = choose|i: int| 0 <= i < front.len() && front[i] == k;
                assert(ks[i] == k);
            }
            assert(ks[ks.len() - 1] == ks.last());
        }
        if p(ks.last()) {
            assert(all =~= some.insert(ks.last()));
        } else {
            assert(all =~= some);
        }
    }
}

/// How a diff counts: missing are the keys that only the model has, extra those
/// that were only observed, and changed those that both have with another row.
pub proof fn law_diff_counts_the_keys_apart(
    model: Table,
    seen: Table,
    mine: Seq<i64>,
    theirs: Seq<i64>,
)
    requires
        table::lists_keys(mine, model),
        table::lists_keys(theirs, seen),
    ensures
        diff::missing_rows(model, seen) == model.dom().filter(|k: i64| !seen.contains_key(k)).len(),
        diff::extra_rows(model, seen) == seen.dom().filter(|k: i64| !model.contains_key(k)).len(),
        diff::changed_rows(model, seen) == model.dom().filter(
            |k: i64| seen.contains_key(k) && seen[k] != model[k],
        ).len(),
        diff::extra_rows(model, seen) == diff::missing_rows(seen, model),
        diff::changed_rows(model, seen) == diff::changed_rows(seen, model),
{
    table::lemma_keys_of(mine, model);
    table::lemma_keys_of(theirs, seen);
    let missing = |k: i64| diff::is_missing(seen, k);
    let extra = |k: i64| diff::is_missing(model, k);
    let changed = |k: i64| diff::is_changed(model, seen, k);
    let changed_back = |k: i64| diff::is_changed(seen, model, k);
    lemma_how_many_is_a_size(mine, missing);
    lemma_how_many_is_a_size(theirs, extra);
    lemma_how_many_is_a_size(mine, changed);
    lemma_how_many_is_a_size(theirs, changed_back);
    assert(model.dom().filter(missing) =~= model.dom().filter(|k: i64| !seen.contains_key(k)));
    assert(seen.dom().filter(extra) =~= seen.dom().filter(|k: i64| !model.contains_key(k)));
    assert(model.dom().filter(changed) =~= model.dom().filter(
        |k: i64| seen.contains_key(k) && seen[k] != model[k],
    ));
    assert(model.dom().filter(changed) =~= seen.dom().filter(changed_back));
}

/// The lines of a diff: the three counts, what was observed, what the oracle
/// holds, and the path.
pub proof fn law_diff_shows_both_sides(h: HistoryView, seen: Table)
    ensures
        ({
            let lines = diff::diff_lines(h, seen);
            &&& lines.len() == 4
            &&& lines[0] == "TURSO_DST_DIFF vs last observed model: missing="@ + text::decimal(
                diff::missing_rows(h.table, seen) as int,
            ) + " extra="@ + text::decimal(diff::extra_rows(h.table, seen) as int) + " changed="@
                + text::decimal(diff::changed_rows(h.table, seen) as int)
            &&& lines[1] == "TURSO_DST_DIFF observed=["@ + diff::table_text(seen) + "]"@
            &&& lines[2] == "TURSO_DST_DIFF model=["@ + diff::table_text(h.table) + "]"@
            &&& lines[3] == diff::path_line(h)
        }),
{
}

/// A table is shown row by row, in ascending order of its keys: one that gains a
/// row above all others is shown with that row at the end.
pub proof fn law_table_is_shown_row_by_row(t: Table, ks: Seq<i64>, k: i64, n: i64, v: Seq<char>)
    requires
        table::lists_keys(ks, t),
        forall|j: i64| #[trigger] t.contains_key(j) ==> j < k,
    ensures
        ks.len() == 0 ==> diff::table_text(t) == Seq::<char>::empty(),
        ({
            let row = text::decimal(k as int) + ":"@ + text::decimal(n as int) + ":"@ + diff::stem(
                v,
            );
            diff::table_text(t.insert(k, (n, v))) == (if ks.len() == 0 {
                row
            } else {
                diff::table_text(t) + ","@ + row
            })
        }),
{
    let u = t.insert(k, (n, v));
    let more = ks.push(k);
    let f = |row: (i64, i64, Seq<char>)| diff::row_text(row);
    assert forall|i: int| 0 <= i < ks.len() implies #[trigger] ks[i] < k by {
        assert(ks.to_set().contains(ks[i]));
        assert(t.contains_key(ks[i]));
    }
    assert(more.to_set() =~= u.dom()) by {
        assert forall|j: i64| more.to_set().contains(j) <==> u.dom().contains(j) by {
            if u.dom().contains(j) {
                if j == k {
                    assert(more[ks.len() as int] == k);
                } else {
                    assert(ks.to_set().contains(j));
                    let i = choose|i: int| 0 <= i < ks.len() && ks[i] == j;
                    assert(more[i] == j);
                }
            }
            if more.to_set().contains(j) {
                let i = choose|i: int| 0 <= i < more.len() && more[i] == j;
                if i < ks.len() {
                    assert(ks.to_set().contains(ks[i]));
                }
            }
        }
    }
    table::lemma_keys_of(ks, t);
    table::lemma_keys_of(more, u);
    let a = table::rows_of(t).map_values(f);
    let b = table::rows_of(u).map_values(f);
    assert(b.drop_last() =~= a) by {
        assert forall|i: int| 0 <= i < a.len() implies b.drop_last()[i] == a[i] by {
            assert(ks[i] < k);
        }
    }
    assert(b.last() == diff::row_text((k, n, v)));
}

/// The path is shown state by state, after the floor.
pub proof fn law_path_is_shown_state_by_state(h: HistoryView)
    ensures
        diff::path_line(h) == "TURSO_DST_DIFF history: floor="@ + text::decimal(h.floor as int)
            + " snaps=["@ + text::joined(
            h.snaps.map_values(
                |x: SnapView|
                    x.what + "("@ + text::decimal(x.rows as int) + "r,"@ + text::hexadecimal(
                        x.digest as nat,
                    ) + ")"@,
            ),
            " "@,
        ) + "]"@,
{
    assert(h.snaps.map_values(|x: SnapView| diff::snap_text(x)) =~= h.snaps.map_values(
        |x: SnapView|
            x.what + "("@ + text::decimal(x.rows as int) + "r,"@ + text::hexadecimal(
                x.digest as nat,
            ) + ")"@,
    ));
}

/// The lengths of the files are shown where there are any.
pub proof fn law_lengths_are_shown(db: u64, wal: u64)
    ensures
        diff::lengths_text(Some(db), Some(wal)) == "db_len="@ + ("Some("@ + text::decimal(
            db as int,
        ) + ")"@) + " wal_len="@ + ("Some("@ + text::decimal(wal as int) + ")"@),
        diff::lengths_text(None, None) == "db_len="@ + "None"@ + " wal_len="@ + "None"@,
        diff::lengths_text(Some(db), None) == "db_len="@ + ("Some("@ + text::decimal(db as int)
            + ")"@) + " wal_len="@ + "None"@,
        diff::lengths_text(None, Some(wal)) == "db_len="@ + "None"@ + " wal_len="@ + ("Some("@
            + text::decimal(wal as int) + ")"@),
{
}

/// A table can be summed where the sum over its first rows, however many, stays
/// within 64 bits.
pub proof fn law_tables_that_can_be_summed(t: Table)
    ensures
        rows::sum_fits(t) <==> forall|k: int|
            0 <= k <= table::rows_of(t).len() ==> -0x8000_0000_0000_0000 <= #[trigger] rows::sum_of(
                table::rows_of(t),
                k,
            ) <= 0x7fff_ffff_ffff_ffff,
{
}

} // verus!
