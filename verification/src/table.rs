//! The reference model of the table `kv(id INTEGER PRIMARY KEY, n INTEGER, v TEXT)`
//! and the digest by which two states of it are compared.

use std::collections::BTreeMap;
use vstd::prelude::*;

verus! {

/// The table: each row's `n` and `v` under its `id`.
pub type Model = BTreeMap<i64, (i64, String)>;

/// The table as a mathematical value.
pub type Table = Map<i64, (i64, Seq<char>)>;

/// What a model holds.
pub open spec fn table(m: Model) -> Table {
    m@.map_values(|row: (i64, String)| (row.0, row.1@))
}

/// Whether each key is greater than the ones before it.
pub open spec fn ascending(ks: Seq<i64>) -> bool {
    forall|i: int, j: int| 0 <= i < j < ks.len() ==> ks[i] < ks[j]
}

/// Whether `ks` lists exactly the keys of `t`, in ascending order.
pub open spec fn lists_keys(ks: Seq<i64>, t: Table) -> bool {
    ascending(ks) && ks.to_set() == t.dom()
}

/// The keys of a table in ascending order.
pub open spec fn keys_of(t: Table) -> Seq<i64> {
    choose|ks: Seq<i64>| lists_keys(ks, t)
}

/// The rows of a table in ascending order of their keys.
pub open spec fn rows_of(t: Table) -> Seq<(i64, i64, Seq<char>)> {
    keys_of(t).map_values(|k: i64| (k, t[k].0, t[k].1))
}

proof fn lemma_ascending_unique(a: Seq<i64>, b: Seq<i64>)
    requires
        ascending(a),
        ascending(b),
        a.to_set() == b.to_set(),
    ensures
        a == b,
    decreases a.len(),
{
    if a.len() == 0 {
        if b.len() > 0 {
            assert(b.to_set().contains(b[0]));
        }
        assert(a =~= b);
    } else if b.len() == 0 {
        assert(a.to_set().contains(a[0]));
    } else {
        assert(a.to_set().contains(a.last()));
        assert(b.to_set().contains(b.last()));
        let i = choose|i: int| 0 <= i < b.len() && b[i] == a.last();
        let j = choose|j: int| 0 <= j < a.len() && a[j] == b.last();
        assert(a.last() == b.last());
        let x = a.drop_last();
        let y = b.drop_last();
        assert forall|k: i64| x.to_set().contains(k) <==> y.to_set().contains(k) by {
            if x.contains(k) {
                let p = choose|p: int| 0 <= p < x.len() && x[p] == k;
                assert(a[p] == k);
                assert(a.to_set().contains(k));
                let q = choose|q: int| 0 <= q < b.len() && b[q] == k;
                assert(y[q] == k);
            }
            if y.contains(k) {
                let p = choose|p: int| 0 <= p < y.len() && y[p] == k;
                assert(b[p] == k);
                assert(b.to_set().contains(k));
                let q = choose|q: int| 0 <= q < a.len() && a[q] == k;
                assert(x[q] == k);
            }
        }
        assert(x.to_set() =~= y.to_set());
        lemma_ascending_unique(x, y);
        assert(a =~= x.push(a.last()));
        assert(b =~= y.push(b.last()));
    }
}

/// There is only one ascending list of a table's keys.
pub proof fn lemma_keys_of(ks: Seq<i64>, t: Table)
    requires
        lists_keys(ks, t),
    ensures
        keys_of(t) == ks,
{
    lemma_ascending_unique(ks, keys_of(t));
}

/// The rows of a model in ascending order of their keys.
pub fn model_rows<'a>(m: &'a Model) -> (rows: Vec<(i64, i64, &'a str)>)
    ensures
        row_views(rows@) == rows_of(table(*m)),
        rows@.len() == m@.len(),
        lists_keys(keys_of(table(*m)), table(*m)),
        keys_of(table(*m)).len() == rows@.len(),
{
    let mut rows: Vec<(i64, i64, &'a str)> = Vec::new();
    let iter = m.iter();
    let ghost s: Seq<(&i64, &(i64, String))> = vstd::std_specs::iter::IteratorSpec::remaining(&iter);
    let ghost ks: Seq<i64> = s.map_values(|kv: (&i64, &(i64, String))| *kv.0);
    proof {
        broadcast use vstd::laws_cmp::group_laws_cmp;
        broadcast use vstd::std_specs::btree::group_btree_axioms;

        assert(vstd::std_specs::btree::key_obeys_cmp_spec::<i64>());
        assert(vstd::std_specs::btree::increasing_seq(ks));
        assert forall|i: int, j: int| 0 <= i < j < ks.len() implies ks[i] < ks[j] by {
            assert(vstd::std_specs::cmp::OrdSpec::cmp_spec(&ks[i], &ks[j]) is Less);
        }
        assert forall|k: i64| ks.to_set().contains(k) <==> table(*m).dom().contains(k) by {
            if ks.contains(k) {
                let i = choose|i: int| 0 <= i < ks.len() && ks[i] == k;
                assert(m@.contains_key(*s[i].0));
            }
            if m@.contains_key(k) {
                assert(s.contains((&k, &m@[k])));
                let i = choose|i: int| 0 <= i < s.len() && s[i] == (&k, &m@[k]);
                assert(ks[i] == k);
            }
        }
        assert(ks.to_set() =~= table(*m).dom());
        lemma_keys_of(ks, table(*m));
    }
    for kv in it: iter
        invariant
            it.seq() == s,
            rows@.len() == it.index(),
            forall|i: int|
                0 <= i < it.index() ==> {
                    &&& (#[trigger] rows@[i]).0 == *s[i].0
                    &&& rows@[i].1 == s[i].1.0
                    &&& rows@[i].2@ == s[i].1.1@
                },
    {
        let (id, row) = kv;
        rows.push((*id, row.0, row.1.as_str()));
    }
    proof {
        let got = row_views(rows@);
        assert forall|i: int| 0 <= i < s.len() implies got[i] == rows_of(table(*m))[i] by {
            assert(m@[*s[i].0] == *s[i].1);
            assert(m@.contains_key(*s[i].0));
        }
        assert(got =~= rows_of(table(*m)));
    }
    rows
}

/// Byte `i` of a number, least significant first.
pub open spec fn byte_of(x: u64, i: int) -> u8 {
    ((x >> ((8 * i) as u64)) & 0xff) as u8
}

/// The eight bytes of a number, least significant first.
pub open spec fn le_bytes(x: u64) -> Seq<u8> {
    Seq::new(8, |i: int| byte_of(x, i))
}

/// One step of the FNV-1a hash.
pub open spec fn hash_step(h: u64, b: u8) -> u64 {
    (h ^ (b as u64)).wrapping_mul(0x100000001b3)
}

/// The FNV-1a hash of some bytes, begun at `h`.
pub open spec fn hash_from(h: u64, bytes: Seq<u8>) -> u64
    decreases bytes.len(),
{
    if bytes.len() == 0 {
        h
    } else {
        hash_step(hash_from(h, bytes.drop_last()), bytes.last())
    }
}

/// The bytes by which a row enters the hash: its key, its number, its text,
/// and a separator.
pub open spec fn row_bytes(row: (i64, i64, Seq<char>)) -> Seq<u8> {
    le_bytes(row.0 as u64) + le_bytes(row.1 as u64) + vstd::utf8::encode_utf8(row.2) + seq![0x1eu8]
}

/// The bytes of some rows, one after the other.
pub open spec fn rows_bytes(rows: Seq<(i64, i64, Seq<char>)>) -> Seq<u8>
    decreases rows.len(),
{
    if rows.len() == 0 {
        Seq::empty()
    } else {
        rows_bytes(rows.drop_last()) + row_bytes(rows.last())
    }
}

/// A number rotated left by seventeen bits.
pub open spec fn rotated(n: u64) -> u64 {
    (n << 17) | (n >> 47)
}

/// The digest of some rows: the hash of their bytes, and how many there are.
pub open spec fn rows_digest(rows: Seq<(i64, i64, Seq<char>)>) -> u64 {
    hash_from(0xcbf29ce484222325, rows_bytes(rows)) ^ rotated(rows.len() as u64)
}

/// The digest of a table.
pub open spec fn table_digest(t: Table) -> u64 {
    rows_digest(rows_of(t))
}

proof fn lemma_hash_joins(h: u64, a: Seq<u8>, b: Seq<u8>)
    ensures
        hash_from(h, a + b) == hash_from(hash_from(h, a), b),
    decreases b.len(),
{
    if b.len() == 0 {
        assert(a + b =~= a);
    } else {
        lemma_hash_joins(h, a, b.drop_last());
        assert((a + b).drop_last() =~= a + b.drop_last());
    }
}

fn hash_slice(h: u64, bytes: &[u8]) -> (out: u64)
    ensures
        out == hash_from(h, bytes@),
{
    let mut out: u64 = h;
    let mut i: usize = 0;
    proof {
        assert(bytes@.take(0) =~= Seq::<u8>::empty());
    }
    while i < bytes.len()
        invariant
            i <= bytes.len(),
            out == hash_from(h, bytes@.take(i as int)),
        decreases bytes.len() - i,
    {
        out = (out ^ (bytes[i] as u64)).wrapping_mul(0x100000001b3);
        proof {
            assert(bytes@.take(i + 1).drop_last() =~= bytes@.take(i as int));
        }
        i += 1;
    }
    proof {
        assert(bytes@.take(bytes@.len() as int) =~= bytes@);
    }
    out
}

fn hash_number(h: u64, x: u64) -> (out: u64)
    ensures
        out == hash_from(h, le_bytes(x)),
{
    let mut out: u64 = h;
    let mut i: u64 = 0;
    proof {
        assert(le_bytes(x).take(0) =~= Seq::<u8>::empty());
    }
    while i < 8
        invariant
            i <= 8,
            out == hash_from(h, le_bytes(x).take(i as int)),
        decreases 8 - i,
    {
        let b: u8 = ((x >> (8 * i)) & 0xff) as u8;
        out = (out ^ (b as u64)).wrapping_mul(0x100000001b3);
        proof {
            assert(le_bytes(x).take(i + 1).drop_last() =~= le_bytes(x).take(i as int));
            assert(le_bytes(x).take(i + 1).last() == b);
        }
        i += 1;
    }
    proof {
        assert(le_bytes(x).take(8) =~= le_bytes(x));
    }
    out
}

/// Rows as mathematical values.
pub open spec fn row_views(rows: Seq<(i64, i64, &str)>) -> Seq<(i64, i64, Seq<char>)> {
    rows.map_values(|r: (i64, i64, &str)| (r.0, r.1, r.2@))
}

/// The digest of some rows.
pub fn digest_rows(rows: &Vec<(i64, i64, &str)>) -> (digest: u64)
    ensures
        digest == rows_digest(row_views(rows@)),
{
    let mut h: u64 = 0xcbf29ce484222325;
    let mut i: usize = 0;
    let ghost all = row_views(rows@);
    proof {
        assert(all.take(0) =~= Seq::<(i64, i64, Seq<char>)>::empty());
    }
    while i < rows.len()
        invariant
            i <= rows.len(),
            all == row_views(rows@),
            h == hash_from(0xcbf29ce484222325, rows_bytes(all.take(i as int))),
        decreases rows.len() - i,
    {
        let row: (i64, i64, &str) = rows[i];
        let ghost h0 = h;
        h = hash_number(h, row.0 as u64);
        h = hash_number(h, row.1 as u64);
        h = hash_slice(h, row.2.as_bytes());
        h = (h ^ 0x1e).wrapping_mul(0x100000001b3);
        proof {
            let view = all[i as int];
            let a = le_bytes(row.0 as u64);
            let b = le_bytes(row.1 as u64);
            let c = vstd::utf8::encode_utf8(row.2@);
            let d = seq![0x1eu8];
            lemma_hash_joins(h0, a, b);
            lemma_hash_joins(h0, a + b, c);
            lemma_hash_joins(h0, a + b + c, d);
            assert(d.drop_last() =~= Seq::<u8>::empty());
            assert(hash_from(hash_from(h0, a + b + c), d) == hash_step(
                hash_from(h0, a + b + c),
                0x1eu8,
            )) by {
                reveal_with_fuel(hash_from, 2);
            }
            assert(h == hash_from(h0, row_bytes(view)));
            assert(all.take(i + 1).drop_last() =~= all.take(i as int));
            lemma_hash_joins(
                0xcbf29ce484222325,
                rows_bytes(all.take(i as int)),
                row_bytes(view),
            );
        }
        i += 1;
    }
    proof {
        assert(all.take(all.len() as int) =~= all);
    }
    let n: u64 = rows.len() as u64;
    h ^ ((n << 17) | (n >> 47))
}

/// The digest of a model.
pub fn digest_model(m: &Model) -> (digest: u64)
    ensures
        digest == table_digest(table(*m)),
{
    let rows = model_rows(m);
    digest_rows(&rows)
}

/// The keys of a model in ascending order.
pub fn model_keys(m: &Model) -> (ks: Vec<i64>)
    ensures
        ks@ == keys_of(table(*m)),
        lists_keys(ks@, table(*m)),
        ks@.len() == m@.len(),
{
    let rows = model_rows(m);
    let mut ks: Vec<i64> = Vec::new();
    let mut i: usize = 0;
    while i < rows.len()
        invariant
            i <= rows.len(),
            ks@.len() == i,
            row_views(rows@) == rows_of(table(*m)),
            keys_of(table(*m)).len() == rows@.len(),
            forall|j: int| 0 <= j < i ==> #[trigger] ks@[j] == keys_of(table(*m))[j],
        decreases rows.len() - i,
    {
        proof {
            assert(row_views(rows@)[i as int].0 == rows_of(table(*m))[i as int].0);
        }
        ks.push(rows[i].0);
        i += 1;
    }
    proof {
        assert(ks@ =~= keys_of(table(*m)));
    }
    ks
}

/// Puts a row in, over the one that had its key.
pub fn put_row(m: &mut Model, id: i64, n: i64, v: String)
    ensures
        table(*final(m)) == table(*old(m)).insert(id, (n, v@)),
{
    proof {
        broadcast use vstd::laws_cmp::group_laws_cmp;

    }
    let _ = m.insert(id, (n, v));
    proof {
        assert(table(*m) =~= table(*old(m)).insert(id, (n, v@)));
    }
}

/// Takes a row out.
pub fn drop_row(m: &mut Model, id: i64)
    ensures
        table(*final(m)) == table(*old(m)).remove(id),
{
    proof {
        broadcast use vstd::laws_cmp::group_laws_cmp;
        broadcast use vstd::std_specs::btree::group_btree_axioms;

    }
    let _ = m.remove(&id);
    proof {
        assert(table(*m) =~= table(*old(m)).remove(id));
    }
}

/// The row under a key.
pub fn find_row<'a>(m: &'a Model, id: i64) -> (row: Option<(i64, &'a str)>)
    ensures
        row is Some <==> table(*m).contains_key(id),
        row matches Some(r) ==> (r.0, r.1@) == table(*m)[id],
{
    proof {
        broadcast use vstd::laws_cmp::group_laws_cmp;
        broadcast use vstd::std_specs::btree::group_btree_axioms;

    }
    match m.get(&id) {
        None => None,
        Some(row) => Some((row.0, row.1.as_str())),
    }
}

/// How many rows a model holds.
pub fn row_count(m: &Model) -> (n: usize)
    ensures
        n == table(*m).len(),
{
    proof {
        broadcast use vstd::laws_cmp::group_laws_cmp;
        broadcast use vstd::std_specs::btree::group_btree_axioms;

        assert(vstd::std_specs::btree::key_obeys_cmp_spec::<i64>());
        assert(table(*m).dom() =~= m@.dom());
    }
    m.len()
}

} // verus!
