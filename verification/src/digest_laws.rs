//! What the digest tells apart, whatever the rows are.

use crate::prng;
use crate::table;
use crate::table::Table;
use vstd::prelude::*;

verus! {

/// Multiplying by a number that has an inverse loses nothing.
pub proof fn lemma_multiply_loses_nothing(a: u64, b: u64, m: u64, inverse: u64)
    requires
        (m * inverse) % 0x1_0000_0000_0000_0000 == 1,
        a.wrapping_mul(m) == b.wrapping_mul(m),
    ensures
        a == b,
{
    let w: int = 0x1_0000_0000_0000_0000;
    lemma_undo(a as int, m as int, inverse as int, w);
    lemma_undo(b as int, m as int, inverse as int, w);
}

proof fn lemma_undo(a: int, m: int, inverse: int, w: int)
    requires
        0 <= a < w,
        0 <= m,
        0 <= inverse,
        w == 0x1_0000_0000_0000_0000,
        (m * inverse) % w == 1,
    ensures
        (((a * m) % w) * inverse) % w == a,
{
    vstd::arithmetic::div_mod::lemma_mul_mod_noop_left(a * m, inverse, w);
    vstd::arithmetic::mul::lemma_mul_is_associative(a, m, inverse);
    vstd::arithmetic::div_mod::lemma_mul_mod_noop_right(a, m * inverse, w);
    vstd::arithmetic::div_mod::lemma_small_mod(a as nat, w as nat);
    assert(a * 1 == a);
}

proof fn lemma_step_keeps_states_apart(g: u64, h: u64, b: u8)
    requires
        g != h,
    ensures
        table::hash_step(g, b) != table::hash_step(h, b),
{
    let c = b as u64;
    assert(g != h ==> g ^ c != h ^ c) by (bit_vector);
    if table::hash_step(g, b) == table::hash_step(h, b) {
        assert((0x100000001b3u64 * 0xce965057aff6957bu64) % 0x1_0000_0000_0000_0000 == 1);
        lemma_multiply_loses_nothing(g ^ c, h ^ c, 0x100000001b3, 0xce965057aff6957b);
    }
}

proof fn lemma_step_tells_bytes_apart(h: u64, a: u8, b: u8)
    requires
        a != b,
    ensures
        table::hash_step(h, a) != table::hash_step(h, b),
{
    let c = a as u64;
    let d = b as u64;
    assert(c != d ==> h ^ c != h ^ d) by (bit_vector);
    if table::hash_step(h, a) == table::hash_step(h, b) {
        assert((0x100000001b3u64 * 0xce965057aff6957bu64) % 0x1_0000_0000_0000_0000 == 1);
        lemma_multiply_loses_nothing(h ^ c, h ^ d, 0x100000001b3, 0xce965057aff6957b);
    }
}

proof fn lemma_hash_keeps_states_apart(g: u64, h: u64, bytes: Seq<u8>)
    requires
        g != h,
    ensures
        table::hash_from(g, bytes) != table::hash_from(h, bytes),
    decreases bytes.len(),
{
    if bytes.len() > 0 {
        lemma_hash_keeps_states_apart(g, h, bytes.drop_last());
        lemma_step_keeps_states_apart(
            table::hash_from(g, bytes.drop_last()),
            table::hash_from(h, bytes.drop_last()),
            bytes.last(),
        );
    }
}

/// Whether two runs of bytes differ at `i` and nowhere else.
pub open spec fn differ_at(a: Seq<u8>, b: Seq<u8>, i: int) -> bool {
    &&& a.len() == b.len()
    &&& 0 <= i < a.len()
    &&& a[i] != b[i]
    &&& forall|j: int| 0 <= j < a.len() && j != i ==> a[j] == b[j]
}

proof fn lemma_hash_tells_one_byte_apart(h: u64, a: Seq<u8>, b: Seq<u8>, i: int)
    requires
        differ_at(a, b, i),
    ensures
        table::hash_from(h, a) != table::hash_from(h, b),
    decreases a.len(),
{
    let n = a.len() - 1;
    if i == n {
        assert(a.drop_last() =~= b.drop_last());
        lemma_step_tells_bytes_apart(table::hash_from(h, a.drop_last()), a.last(), b.last());
    } else {
        lemma_hash_tells_one_byte_apart(h, a.drop_last(), b.drop_last(), i);
        assert(a.last() == b.last());
        lemma_step_keeps_states_apart(
            table::hash_from(h, a.drop_last()),
            table::hash_from(h, b.drop_last()),
            a.last(),
        );
    }
}

/// Rows whose bytes differ in exactly one place, in whichever row that is, have
/// different digests.
pub proof fn law_digest_tells_one_byte_apart(
    a: Seq<(i64, i64, Seq<char>)>,
    b: Seq<(i64, i64, Seq<char>)>,
    i: int,
)
    requires
        a.len() == b.len(),
        differ_at(table::rows_bytes(a), table::rows_bytes(b), i),
    ensures
        table::rows_digest(a) != table::rows_digest(b),
{
    let h: u64 = 0xcbf29ce484222325;
    lemma_hash_tells_one_byte_apart(h, table::rows_bytes(a), table::rows_bytes(b), i);
    let x = table::hash_from(h, table::rows_bytes(a));
    let y = table::hash_from(h, table::rows_bytes(b));
    let r = table::rotated(a.len() as u64);
    assert(x != y ==> x ^ r != y ^ r) by (bit_vector);
}

/// The bytes of rows are those of the first of them and then those of the rest.
pub proof fn law_bytes_of_rows_follow_each_other(
    a: Seq<(i64, i64, Seq<char>)>,
    b: Seq<(i64, i64, Seq<char>)>,
)
    ensures
        table::rows_bytes(a + b) == table::rows_bytes(a) + table::rows_bytes(b),
    decreases b.len(),
{
    if b.len() == 0 {
        assert(a + b =~= a);
        assert(table::rows_bytes(a) + table::rows_bytes(b) =~= table::rows_bytes(a));
    } else {
        law_bytes_of_rows_follow_each_other(a, b.drop_last());
        assert((a + b).drop_last() =~= a + b.drop_last());
        assert((a + b).last() == b.last());
        assert(table::rows_bytes(a + b) =~= table::rows_bytes(a) + table::rows_bytes(b));
    }
}

proof fn lemma_one_row(rows: Seq<(i64, i64, Seq<char>)>, r: int)
    requires
        0 <= r < rows.len(),
    ensures
        table::rows_bytes(rows) == table::rows_bytes(rows.take(r)) + table::row_bytes(rows[r])
            + table::rows_bytes(rows.skip(r + 1)),
{
    let one = seq![rows[r]];
    assert(rows =~= rows.take(r) + one + rows.skip(r + 1));
    law_bytes_of_rows_follow_each_other(rows.take(r) + one, rows.skip(r + 1));
    law_bytes_of_rows_follow_each_other(rows.take(r), one);
    assert(one.drop_last() =~= Seq::<(i64, i64, Seq<char>)>::empty());
    reveal_with_fuel(table::rows_bytes, 2);
    assert(table::rows_bytes(one) =~= table::row_bytes(rows[r]));
}

/// A row that enters the digest with one byte changed changes the digest.
proof fn lemma_changed_row_changes_the_digest(
    rows: Seq<(i64, i64, Seq<char>)>,
    r: int,
    row: (i64, i64, Seq<char>),
    i: int,
)
    requires
        0 <= r < rows.len(),
        differ_at(table::row_bytes(rows[r]), table::row_bytes(row), i),
    ensures
        table::rows_digest(rows) != table::rows_digest(rows.update(r, row)),
{
    let other = rows.update(r, row);
    lemma_one_row(rows, r);
    lemma_one_row(other, r);
    assert(other.take(r) =~= rows.take(r));
    assert(other.skip(r + 1) =~= rows.skip(r + 1));
    let at = table::rows_bytes(rows.take(r)).len() + i;
    let x = table::rows_bytes(rows);
    let y = table::rows_bytes(other);
    assert(differ_at(x, y, at)) by {
        let front = table::rows_bytes(rows.take(r));
        let a = table::row_bytes(rows[r]);
        let b = table::row_bytes(row);
        assert(x[at] == a[i]);
        assert(y[at] == b[i]);
        assert forall|j: int| 0 <= j < x.len() && j != at implies x[j] == y[j] by {
            if front.len() <= j < front.len() + a.len() {
                assert(x[j] == a[j - front.len()]);
                assert(y[j] == b[j - front.len()]);
            }
        }
    }
    law_digest_tells_one_byte_apart(rows, other, at);
}

proof fn lemma_bytes_of_numbers(m: u64, n: u64, byte: int)
    requires
        0 <= byte < 8,
        m != n,
        (m ^ n) & !(0xffu64 << ((8 * byte) as u64)) == 0,
    ensures
        differ_at(table::le_bytes(m), table::le_bytes(n), byte),
{
    let a = table::le_bytes(m);
    let b = table::le_bytes(n);
    let s = (8 * byte) as u64;
    assert(a[byte] != b[byte]) by {
        let x = m >> s;
        let y = n >> s;
        assert(m != n && (m ^ n) & !(0xffu64 << s) == 0 && s <= 56 && s % 8 == 0 ==> (((m >> s)
            & 0xff) as u8) != (((n >> s) & 0xff) as u8)) by (bit_vector);
    }
    assert forall|j: int| 0 <= j < 8 && j != byte implies a[j] == b[j] by {
        let q = (8 * j) as u64;
        assert((m ^ n) & !(0xffu64 << s) == 0 && s <= 56 && s % 8 == 0 && q <= 56 && q % 8 == 0
            && q != s ==> (((m >> q) & 0xff) as u8) == (((n >> q) & 0xff) as u8)) by (bit_vector);
    }
}

/// Changing one byte of the number in any one row changes the digest: such a
/// lost update never goes unseen.
pub proof fn law_changed_number_changes_the_digest(
    rows: Seq<(i64, i64, Seq<char>)>,
    r: int,
    n: i64,
    byte: int,
)
    requires
        0 <= r < rows.len(),
        0 <= byte < 8,
        n != rows[r].1,
        (n as u64 ^ rows[r].1 as u64) & !(0xffu64 << ((8 * byte) as u64)) == 0,
    ensures
        table::rows_digest(rows) != table::rows_digest(rows.update(r, (rows[r].0, n, rows[r].2))),
{
    let m = rows[r].1;
    let row = (rows[r].0, n, rows[r].2);
    assert(m != n ==> m as u64 != n as u64) by (bit_vector);
    let x = m as u64;
    let y = n as u64;
    assert(y ^ x == x ^ y) by (bit_vector);
    lemma_bytes_of_numbers(x, y, byte);
    assert(differ_at(table::row_bytes(rows[r]), table::row_bytes(row), 8 + byte));
    lemma_changed_row_changes_the_digest(rows, r, row, 8 + byte);
}

/// Changing one byte of the key in any one row changes the digest.
pub proof fn law_changed_key_changes_the_digest(
    rows: Seq<(i64, i64, Seq<char>)>,
    r: int,
    id: i64,
    byte: int,
)
    requires
        0 <= r < rows.len(),
        0 <= byte < 8,
        id != rows[r].0,
        (id as u64 ^ rows[r].0 as u64) & !(0xffu64 << ((8 * byte) as u64)) == 0,
    ensures
        table::rows_digest(rows) != table::rows_digest(rows.update(r, (id, rows[r].1, rows[r].2))),
{
    let m = rows[r].0;
    let row = (id, rows[r].1, rows[r].2);
    assert(m != id ==> m as u64 != id as u64) by (bit_vector);
    let x = m as u64;
    let y = id as u64;
    assert(y ^ x == x ^ y) by (bit_vector);
    lemma_bytes_of_numbers(x, y, byte);
    assert(differ_at(table::row_bytes(rows[r]), table::row_bytes(row), byte));
    lemma_changed_row_changes_the_digest(rows, r, row, byte);
}

/// Changing the text of any one row changes the digest, where as much text
/// differs in one place (as UTF-8 has it).
pub proof fn law_changed_text_changes_the_digest(
    rows: Seq<(i64, i64, Seq<char>)>,
    r: int,
    v: Seq<char>,
    i: int,
)
    requires
        0 <= r < rows.len(),
        differ_at(vstd::utf8::encode_utf8(rows[r].2), vstd::utf8::encode_utf8(v), i),
    ensures
        table::rows_digest(rows) != table::rows_digest(rows.update(r, (rows[r].0, rows[r].1, v))),
{
    let row = (rows[r].0, rows[r].1, v);
    assert(differ_at(table::row_bytes(rows[r]), table::row_bytes(row), 16 + i));
    lemma_changed_row_changes_the_digest(rows, r, row, 16 + i);
}

/// Every row of a table enters its digest: changing one byte of the number
/// under any one key changes it.
pub proof fn law_table_digest_covers_every_row(t: Table, ks: Seq<i64>, k: i64, n: i64, byte: int)
    requires
        table::lists_keys(ks, t),
        t.contains_key(k),
        0 <= byte < 8,
        n != t[k].0,
        (n as u64 ^ t[k].0 as u64) & !(0xffu64 << ((8 * byte) as u64)) == 0,
    ensures
        table::table_digest(t.insert(k, (n, t[k].1))) != table::table_digest(t),
{
    let u = t.insert(k, (n, t[k].1));
    assert(u.dom() =~= t.dom());
    table::lemma_keys_of(ks, t);
    table::lemma_keys_of(ks, u);
    assert(ks.to_set().contains(k));
    let r = choose|r: int| 0 <= r < ks.len() && ks[r] == k;
    let rows = table::rows_of(t);
    let other = rows.update(r, (rows[r].0, n, rows[r].2));
    assert(table::rows_of(u) =~= other) by {
        assert forall|j: int| 0 <= j < ks.len() implies table::rows_of(u)[j] == other[j] by {
            if j != r {
                assert(ks[j] != k);
            }
        }
    }
    law_changed_number_changes_the_digest(rows, r, n, byte);
}

/// The rows of a table are its rows and nothing else, each once, in ascending
/// order of their keys.
pub proof fn law_rows_are_the_table_in_order(t: Table, ks: Seq<i64>)
    requires
        table::lists_keys(ks, t),
    ensures
        forall|i: int|
            0 <= i < table::rows_of(t).len() ==> {
                let row = #[trigger] table::rows_of(t)[i];
                t.contains_key(row.0) && t[row.0] == (row.1, row.2)
            },
        forall|k: i64| #[trigger]
            t.contains_key(k) ==> exists|i: int|
                0 <= i < table::rows_of(t).len() && (#[trigger] table::rows_of(t)[i]).0 == k,
        forall|i: int, j: int|
            0 <= i < j < table::rows_of(t).len() ==> (#[trigger] table::rows_of(t)[i]).0 < (
            #[trigger] table::rows_of(t)[j]).0,
{
    table::lemma_keys_of(ks, t);
    let rows = table::rows_of(t);
    assert forall|i: int| 0 <= i < rows.len() implies t.contains_key((#[trigger] rows[i]).0)
        && t[rows[i].0] == (rows[i].1, rows[i].2) by {
        assert(ks.to_set().contains(ks[i]));
    }
    assert forall|k: i64| #[trigger] t.contains_key(k) implies exists|i: int|
        0 <= i < rows.len() && (#[trigger] rows[i]).0 == k by {
        assert(ks.to_set().contains(k));
        let i = choose|i: int| 0 <= i < ks.len() && ks[i] == k;
        assert(rows[i].0 == k);
    }
}

/// Two states of the generator that differ give different draws: no draw is
/// lost in mixing.
pub proof fn law_draws_keep_states_apart(a: u64, b: u64)
    requires
        a != b,
    ensures
        prng::prng_draw(a) != prng::prng_draw(b),
        prng::prng_advance(a) != prng::prng_advance(b),
{
    let x = prng::prng_advance(a);
    let y = prng::prng_advance(b);
    let x1 = x ^ (x >> 30);
    let y1 = y ^ (y >> 30);
    assert(x != y ==> x ^ (x >> 30) != y ^ (y >> 30)) by (bit_vector);
    let x2 = x1.wrapping_mul(0xbf58476d1ce4e5b9);
    let y2 = y1.wrapping_mul(0xbf58476d1ce4e5b9);
    if x2 == y2 {
        assert((0xbf58476d1ce4e5b9u64 * 0x96de1b173f119089u64) % 0x1_0000_0000_0000_0000 == 1);
        lemma_multiply_loses_nothing(x1, y1, 0xbf58476d1ce4e5b9, 0x96de1b173f119089);
    }
    let x3 = x2 ^ (x2 >> 27);
    let y3 = y2 ^ (y2 >> 27);
    assert(x2 != y2 ==> x2 ^ (x2 >> 27) != y2 ^ (y2 >> 27)) by (bit_vector);
    let x4 = x3.wrapping_mul(0x94d049bb133111eb);
    let y4 = y3.wrapping_mul(0x94d049bb133111eb);
    if x4 == y4 {
        assert((0x94d049bb133111ebu64 * 0x319642b2d24d8ec3u64) % 0x1_0000_0000_0000_0000 == 1);
        lemma_multiply_loses_nothing(x3, y3, 0x94d049bb133111eb, 0x319642b2d24d8ec3);
    }
    assert(x4 != y4 ==> x4 ^ (x4 >> 31) != y4 ^ (y4 >> 31)) by (bit_vector);
}

/// The number of rows goes into the digest turned by seventeen bits: nothing of
/// it is lost, and a number that is small enough is only moved up.
pub proof fn law_number_of_rows_is_turned(n: u64)
    ensures
        (table::rotated(n) >> 17) | (table::rotated(n) << 47) == n,
        n < 0x8000_0000_0000 ==> table::rotated(n) == n * 0x2_0000,
{
    assert((((n << 17) | (n >> 47)) >> 17) | (((n << 17) | (n >> 47)) << 47) == n) by (bit_vector);
    assert(n < 0x8000_0000_0000 ==> ((n << 17) | (n >> 47)) == n * 0x2_0000) by (bit_vector);
}

/// The digest of no rows is where every digest starts, and the number of rows is
/// part of each.
pub proof fn law_where_digests_start(list: Seq<(i64, i64, Seq<char>)>)
    ensures
        table::rows_digest(list) == table::hash_from(
            0xcbf2_9ce4_8422_2325,
            table::rows_bytes(list),
        ) ^ table::rotated(list.len() as u64),
        table::rows_bytes(Seq::empty()) == Seq::<u8>::empty(),
        table::hash_from(0xcbf2_9ce4_8422_2325, Seq::empty()) == 0xcbf2_9ce4_8422_2325,
{
}

} // verus!
