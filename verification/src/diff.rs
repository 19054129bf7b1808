//! Telling how a database differs from what the oracle holds.

use crate::model::{History, HistoryView, Snap, SnapView};
use crate::table;
use crate::table::{find_row, model_keys, model_rows, Model, Table};
use crate::text;
use crate::text::{join3, join_text, push_hex, push_signed, push_unsigned, same_text};
use vstd::prelude::*;
use vstd::string::*;

verus! {

/// How many bytes of a value are shown.
pub const STEM_BYTES: usize = 6;

/// How many bytes of a value are shown: the first few, or all of a shorter one.
pub open spec fn stem_len(v: Seq<char>) -> int {
    if vstd::utf8::encode_utf8(v).len() <= STEM_BYTES {
        vstd::utf8::encode_utf8(v).len() as int
    } else {
        STEM_BYTES as int
    }
}

/// Whether a value can be cut there: not inside a character.
pub open spec fn stem_ends_well(v: Seq<char>) -> bool {
    vstd::utf8::is_char_boundary(vstd::utf8::encode_utf8(v), stem_len(v))
}

/// The part of a value that is shown.
pub open spec fn stem(v: Seq<char>) -> Seq<char> {
    vstd::utf8::decode_utf8(vstd::utf8::encode_utf8(v).subrange(0, stem_len(v)))
}

fn can_cut(v: &str) -> (yes: bool)
    ensures
        yes == stem_ends_well(v@),
{
    let len: usize = v.as_bytes().len();
    let n: usize = if len <= STEM_BYTES {
        len
    } else {
        STEM_BYTES
    };
    v.is_char_boundary(n)
}

fn push_stem(out: &mut String, v: &str)
    requires
        stem_ends_well(v@),
    ensures
        final(out)@ == old(out)@ + stem(v@),
{
    let len: usize = v.as_bytes().len();
    let n: usize = if len <= STEM_BYTES {
        len
    } else {
        STEM_BYTES
    };
    let (head, _) = v.split_at(n);
    proof {
        vstd::utf8::encode_utf8_decode_utf8(head@);
    }
    out.append(head);
}

/// A row as it is shown.
pub open spec fn row_text(row: (i64, i64, Seq<char>)) -> Seq<char> {
    text::decimal(row.0 as int) + ":"@ + text::decimal(row.1 as int) + ":"@ + stem(row.2)
}

/// A table as it is shown.
pub open spec fn table_text(t: Table) -> Seq<char> {
    text::joined(
        table::rows_of(t).map_values(|row: (i64, i64, Seq<char>)| row_text(row)),
        ","@,
    )
}

/// Whether every value of a table can be cut where it is shown.
pub open spec fn showable(t: Table) -> bool {
    forall|i: int|
        0 <= i < table::rows_of(t).len() ==> stem_ends_well((#[trigger] table::rows_of(t)[i]).2)
}

/// Tells whether every value of a model can be cut where it is shown.
pub fn can_show(m: &Model) -> (yes: bool)
    ensures
        yes == showable(table::table(*m)),
{
    let rows = model_rows(m);
    let ghost all = table::rows_of(table::table(*m));
    let mut i: usize = 0;
    while i < rows.len()
        invariant
            i <= rows.len(),
            all == table::rows_of(table::table(*m)),
            table::row_views(rows@) == all,
            forall|j: int| 0 <= j < i ==> stem_ends_well((#[trigger] all[j]).2),
        decreases rows.len() - i,
    {
        proof {
            assert(table::row_views(rows@)[i as int] == all[i as int]);
        }
        if !can_cut(rows[i].2) {
            return false;
        }
        i += 1;
    }
    true
}

/// Shows a model.
pub fn show_model(m: &Model) -> (out: String)
    requires
        showable(table::table(*m)),
    ensures
        out@ == table_text(table::table(*m)),
{
    let rows = model_rows(m);
    let ghost all = table::rows_of(table::table(*m));
    let ghost shown = all.map_values(|row: (i64, i64, Seq<char>)| row_text(row));
    let mut parts: Vec<String> = Vec::new();
    let mut i: usize = 0;
    while i < rows.len()
        invariant
            i <= rows.len(),
            all == table::rows_of(table::table(*m)),
            shown == all.map_values(|row: (i64, i64, Seq<char>)| row_text(row)),
            table::row_views(rows@) == all,
            showable(table::table(*m)),
            text::texts(parts@) == shown.take(i as int),
        decreases rows.len() - i,
    {
        proof {
            assert(table::row_views(rows@)[i as int] == all[i as int]);
        }
        let ghost so_far = text::texts(parts@);
        let mut part = String::new();
        push_signed(&mut part, rows[i].0);
        part.append(":");
        push_signed(&mut part, rows[i].1);
        part.append(":");
        push_stem(&mut part, rows[i].2);
        proof {
            assert(part@ =~= row_text(all[i as int]));
        }
        parts.push(part);
        i += 1;
        proof {
            assert(text::texts(parts@) =~= so_far.push(shown[i - 1]));
            assert(shown.take(i as int) =~= shown.take(i - 1).push(shown[i - 1]));
        }
    }
    proof {
        assert(shown.take(i as int) =~= shown);
    }
    join_text(&parts, ",")
}

/// Whether a key of the model is not in what was observed.
pub open spec fn is_missing(seen: Table, k: i64) -> bool {
    !seen.contains_key(k)
}

/// Whether a key of the model has another row in what was observed.
pub open spec fn is_changed(model: Table, seen: Table, k: i64) -> bool {
    seen.contains_key(k) && seen[k] != model[k]
}

/// How many of some keys meet a condition.
pub open spec fn how_many(ks: Seq<i64>, p: spec_fn(i64) -> bool) -> nat
    decreases ks.len(),
{
    if ks.len() == 0 {
        0
    } else {
        how_many(ks.drop_last(), p) + (if p(ks.last()) {
            1nat
        } else {
            0nat
        })
    }
}

proof fn lemma_how_many_grows(ks: Seq<i64>, p: spec_fn(i64) -> bool, i: int)
    requires
        0 <= i < ks.len(),
    ensures
        how_many(ks.take(i + 1), p) == how_many(ks.take(i), p) + (if p(ks[i]) {
            1nat
        } else {
            0nat
        }),
{
    assert(ks.take(i + 1).drop_last() =~= ks.take(i));
}

/// How many rows of the model are missing in what was observed.
pub open spec fn missing_rows(model: Table, seen: Table) -> nat {
    how_many(table::keys_of(model), |k: i64| is_missing(seen, k))
}

/// How many rows of the model are different in what was observed.
pub open spec fn changed_rows(model: Table, seen: Table) -> nat {
    how_many(table::keys_of(model), |k: i64| is_changed(model, seen, k))
}

/// How many rows were observed that the model does not have.
pub open spec fn extra_rows(model: Table, seen: Table) -> nat {
    missing_rows(seen, model)
}

fn count_missing(m: &Model, seen: &Model) -> (n: usize)
    ensures
        n == missing_rows(table::table(*m), table::table(*seen)),
{
    let ks = model_keys(m);
    let ghost p = |k: i64| is_missing(table::table(*seen), k);
    let mut n: usize = 0;
    let mut i: usize = 0;
    while i < ks.len()
        invariant
            i <= ks.len(),
            n <= i,
            p == (|k: i64| is_missing(table::table(*seen), k)),
            n == how_many(ks@.take(i as int), p),
        decreases ks.len() - i,
    {
        proof {
            lemma_how_many_grows(ks@, p, i as int);
        }
        match find_row(seen, ks[i]) {
            None => {
                n += 1;
            },
            Some(_) => {},
        }
        i += 1;
    }
    proof {
        assert(ks@.take(i as int) =~= ks@);
    }
    n
}

fn count_changed(m: &Model, seen: &Model) -> (n: usize)
    ensures
        n == changed_rows(table::table(*m), table::table(*seen)),
{
    let rows = model_rows(m);
    let ghost t = table::table(*m);
    let ghost ks = table::keys_of(t);
    let ghost p = |k: i64| is_changed(t, table::table(*seen), k);
    let mut n: usize = 0;
    let mut i: usize = 0;
    while i < rows.len()
        invariant
            i <= rows.len(),
            n <= i,
            t == table::table(*m),
            ks == table::keys_of(t),
            ks.len() == rows@.len(),
            table::row_views(rows@) == table::rows_of(t),
            p == (|k: i64| is_changed(t, table::table(*seen), k)),
            n == how_many(ks.take(i as int), p),
        decreases rows.len() - i,
    {
        proof {
            lemma_how_many_grows(ks, p, i as int);
            assert(table::row_views(rows@)[i as int] == table::rows_of(t)[i as int]);
        }
        match find_row(seen, rows[i].0) {
            None => {},
            Some((seen_n, seen_v)) => {
                if seen_n != rows[i].1 || !same_text(seen_v, rows[i].2) {
                    n += 1;
                }
            },
        }
        i += 1;
    }
    proof {
        assert(ks.take(i as int) =~= ks);
    }
    n
}

/// The line that counts the differences.
pub open spec fn counts_line(model: Table, seen: Table) -> Seq<char> {
    "TURSO_DST_DIFF vs last observed model: missing="@ + text::decimal(
        missing_rows(model, seen) as int,
    ) + " extra="@ + text::decimal(extra_rows(model, seen) as int) + " changed="@ + text::decimal(
        changed_rows(model, seen) as int,
    )
}

/// A state on the observed path, as the diff shows it.
pub open spec fn snap_text(s: SnapView) -> Seq<char> {
    s.what + "("@ + text::decimal(s.rows as int) + "r,"@ + text::hexadecimal(s.digest as nat)
        + ")"@
}

/// The line that shows the observed path.
pub open spec fn path_line(h: HistoryView) -> Seq<char> {
    "TURSO_DST_DIFF history: floor="@ + text::decimal(h.floor as int) + " snaps=["@ + text::joined(
        h.snaps.map_values(|s: SnapView| snap_text(s)),
        " "@,
    ) + "]"@
}

/// The lines that tell how what was observed differs from what the oracle
/// holds.
pub open spec fn diff_lines(h: HistoryView, seen: Table) -> Seq<Seq<char>> {
    seq![
        counts_line(h.table, seen),
        "TURSO_DST_DIFF observed=["@ + table_text(seen) + "]"@,
        "TURSO_DST_DIFF model=["@ + table_text(h.table) + "]"@,
        path_line(h),
    ]
}

fn write_counts(m: &Model, seen: &Model) -> (out: String)
    ensures
        out@ == counts_line(table::table(*m), table::table(*seen)),
{
    let mut out = "TURSO_DST_DIFF vs last observed model: missing=".to_owned();
    push_unsigned(&mut out, count_missing(m, seen) as u64);
    out.append(" extra=");
    push_unsigned(&mut out, count_missing(seen, m) as u64);
    out.append(" changed=");
    push_unsigned(&mut out, count_changed(m, seen) as u64);
    out
}

fn write_snap(s: &Snap) -> (out: String)
    ensures
        out@ == snap_text(s@),
{
    let mut out = s.what.clone();
    out.append("(");
    push_unsigned(&mut out, s.rows as u64);
    out.append("r,");
    push_hex(&mut out, s.digest);
    out.append(")");
    out
}

fn write_path(hist: &History) -> (out: String)
    ensures
        out@ == path_line(hist@),
{
    let ghost shown = hist@.snaps.map_values(|s: SnapView| snap_text(s));
    let mut parts: Vec<String> = Vec::new();
    let mut i: usize = 0;
    while i < hist.snaps.len()
        invariant
            i <= hist.snaps.len(),
            shown == hist@.snaps.map_values(|s: SnapView| snap_text(s)),
            text::texts(parts@) == shown.take(i as int),
        decreases hist.snaps.len() - i,
    {
        let ghost so_far = text::texts(parts@);
        let part = write_snap(&hist.snaps[i]);
        parts.push(part);
        i += 1;
        proof {
            assert(hist@.snaps[i - 1] == hist.snaps@[i - 1]@);
            assert(text::texts(parts@) =~= so_far.push(shown[i - 1]));
            assert(shown.take(i as int) =~= shown.take(i - 1).push(shown[i - 1]));
        }
    }
    proof {
        assert(shown.take(i as int) =~= shown);
    }
    let path = join_text(&parts, " ");
    let mut out = "TURSO_DST_DIFF history: floor=".to_owned();
    push_unsigned(&mut out, hist.floor as u64);
    out.append(" snaps=[");
    out.append(path.as_str());
    out.append("]");
    out
}

/// Tells how what was observed differs from what the oracle holds.
pub fn describe_diff(observed: &Model, hist: &History) -> (lines: Vec<String>)
    requires
        showable(table::table(*observed)),
        showable(hist@.table),
    ensures
        text::texts(lines@) == diff_lines(hist@, table::table(*observed)),
{
    let counts = write_counts(&hist.model, observed);
    let seen = show_model(observed);
    let held = show_model(&hist.model);
    let seen_line = join3("TURSO_DST_DIFF observed=[", seen.as_str(), "]");
    let held_line = join3("TURSO_DST_DIFF model=[", held.as_str(), "]");
    let path = write_path(hist);
    let mut lines: Vec<String> = Vec::new();
    lines.push(counts);
    lines.push(seen_line);
    lines.push(held_line);
    lines.push(path);
    proof {
        assert(text::texts(lines@) =~= diff_lines(hist@, table::table(*observed)));
    }
    lines
}

/// The length of a file that may be missing, as `{:?}` writes it.
pub open spec fn length_text(n: Option<u64>) -> Seq<char> {
    match n {
        Some(n) => "Some("@ + text::decimal(n as int) + ")"@,
        None => "None"@,
    }
}

/// The lengths of the database's files.
pub open spec fn lengths_text(db: Option<u64>, wal: Option<u64>) -> Seq<char> {
    "db_len="@ + length_text(db) + " wal_len="@ + length_text(wal)
}

fn push_length(out: &mut String, n: Option<u64>)
    ensures
        final(out)@ == old(out)@ + length_text(n),
{
    match n {
        Some(n) => {
            out.append("Some(");
            push_unsigned(out, n);
            out.append(")");
        },
        None => {
            out.append("None");
        },
    }
    proof {
        assert(out@ =~= old(out)@ + length_text(n));
    }
}

/// Appends the lengths of the database's files.
pub fn push_lengths(out: &mut String, db: Option<u64>, wal: Option<u64>)
    ensures
        final(out)@ == old(out)@ + lengths_text(db, wal),
{
    out.append("db_len=");
    push_length(out, db);
    out.append(" wal_len=");
    push_length(out, wal);
    proof {
        assert(out@ =~= old(out)@ + lengths_text(db, wal));
    }
}

/// The line on the lengths of the database's files.
pub fn files_line(db: Option<u64>, wal: Option<u64>) -> (line: String)
    ensures
        line@ == "TURSO_DST_DIFF files: "@ + lengths_text(db, wal),
{
    let mut line = "TURSO_DST_DIFF files: ".to_owned();
    push_lengths(&mut line, db, wal);
    line
}

proof fn lemma_how_many_is_zero(ks: Seq<i64>, p: spec_fn(i64) -> bool)
    ensures
        how_many(ks, p) == 0 <==> forall|i: int| 0 <= i < ks.len() ==> !p(#[trigger] ks[i]),
    decreases ks.len(),
{
    if ks.len() > 0 {
        let rest = ks.drop_last();
        lemma_how_many_is_zero(rest, p);
        if how_many(ks, p) == 0 {
            assert forall|i: int| 0 <= i < ks.len() implies !p(#[trigger] ks[i]) by {
                if i < rest.len() {
                    assert(rest[i] == ks[i]);
                }
            }
        }
        if forall|i: int| 0 <= i < ks.len() ==> !p(#[trigger] ks[i]) {
            assert(!p(ks[ks.len() - 1]));
            assert forall|i: int| 0 <= i < rest.len() implies !p(#[trigger] rest[i]) by {
                assert(rest[i] == ks[i]);
            }
        }
    }
}

/// The diff counts no difference exactly where the model and what was observed
/// are the same table.
pub proof fn law_no_difference_means_the_same_table(model: Table, seen: Table)
    requires
        table::lists_keys(table::keys_of(model), model),
        table::lists_keys(table::keys_of(seen), seen),
    ensures
        (missing_rows(model, seen) == 0 && extra_rows(model, seen) == 0 && changed_rows(
            model,
            seen,
        ) == 0) <==> model == seen,
{
    let ks = table::keys_of(model);
    let js = table::keys_of(seen);
    let missing = |k: i64| is_missing(seen, k);
    let extra = |k: i64| is_missing(model, k);
    let changed = |k: i64| is_changed(model, seen, k);
    lemma_how_many_is_zero(ks, missing);
    lemma_how_many_is_zero(js, extra);
    lemma_how_many_is_zero(ks, changed);
    if how_many(ks, missing) == 0 && how_many(js, extra) == 0 && how_many(ks, changed) == 0 {
        assert forall|k: i64| model.contains_key(k) <==> seen.contains_key(k) by {
            if model.contains_key(k) {
                assert(ks.to_set().contains(k));
                let i = choose|i: int| 0 <= i < ks.len() && ks[i] == k;
                assert(!missing(ks[i]));
            }
            if seen.contains_key(k) {
                assert(js.to_set().contains(k));
                let i = choose|i: int| 0 <= i < js.len() && js[i] == k;
                assert(!extra(js[i]));
            }
        }
        assert forall|k: i64| model.contains_key(k) implies model[k] == seen[k] by {
            assert(ks.to_set().contains(k));
            let i = choose|i: int| 0 <= i < ks.len() && ks[i] == k;
            assert(!changed(ks[i]));
        }
        assert(model =~= seen);
    }
    if model == seen {
        assert forall|i: int| 0 <= i < ks.len() implies !missing(#[trigger] ks[i]) && !changed(
            ks[i],
        ) by {
            assert(ks.to_set().contains(ks[i]));
        }
        assert forall|i: int| 0 <= i < js.len() implies !extra(#[trigger] js[i]) by {
            assert(js.to_set().contains(js[i]));
        }
    }
}

} // verus!
