//! Counters of what a run has done, by name.

use crate::text;
use crate::text::{comes_before, join_text, push_quoted, push_unsigned, same_text};
use vstd::prelude::*;
use vstd::string::*;

verus! {

/// Counters as a mathematical value.
pub type Counts = Map<Seq<char>, u64>;

/// What a counter stands at; one that was never bumped stands at zero.
pub open spec fn count_at(c: Counts, k: Seq<char>) -> int {
    if c.contains_key(k) {
        c[k] as int
    } else {
        0
    }
}

/// The counters after one of them has been raised by `by`.
pub open spec fn raised(c: Counts, k: Seq<char>, by: int) -> Counts {
    c.insert(k, (count_at(c, k) + by) as u64)
}

/// The counters after one of them has been raised by one.
pub open spec fn bumped(c: Counts, k: Seq<char>) -> Counts {
    raised(c, k, 1)
}

/// Whether a counter can be raised by `by`.
pub open spec fn has_room(c: Counts, k: Seq<char>, by: int) -> bool {
    count_at(c, k) + by <= u64::MAX
}

/// Counters by name.
pub struct Stats {
    pub entries: Vec<(&'static str, u64)>,
}

/// Whether no two entries have the same name.
pub open spec fn names_differ(entries: Seq<(&'static str, u64)>) -> bool {
    forall|i: int, j: int|
        0 <= i < j < entries.len() ==> (#[trigger] entries[i]).0@ != (#[trigger] entries[j]).0@
}

/// Whether entry `i` counts under the name `k`.
pub open spec fn named(entries: Seq<(&'static str, u64)>, k: Seq<char>, i: int) -> bool {
    0 <= i < entries.len() && entries[i].0@ == k
}

/// The counters that entries make up.
pub open spec fn counts(entries: Seq<(&'static str, u64)>) -> Counts {
    Map::new(
        |k: Seq<char>| exists|i: int| named(entries, k, i),
        |k: Seq<char>| entries[choose|i: int| named(entries, k, i)].1,
    )
}

impl View for Stats {
    type V = Counts;

    open spec fn view(&self) -> Counts {
        counts(self.entries@)
    }
}

impl Clone for Stats {
    fn clone(&self) -> (out: Stats)
        ensures
            out.entries@ == self.entries@,
    {
        let mut entries: Vec<(&'static str, u64)> = Vec::new();
        let mut i: usize = 0;
        while i < self.entries.len()
            invariant
                i <= self.entries.len(),
                entries@ == self.entries@.take(i as int),
            decreases self.entries.len() - i,
        {
            let name: &'static str = self.entries[i].0;
            let n: u64 = self.entries[i].1;
            entries.push((name, n));
            proof {
                assert(self.entries@.take(i + 1) =~= self.entries@.take(i as int).push(
                    self.entries@[i as int],
                ));
            }
            i += 1;
        }
        proof {
            assert(self.entries@.take(i as int) =~= self.entries@);
        }
        Stats { entries }
    }
}

impl Stats {
    /// Whether each name has one entry.
    pub open spec fn wf(self) -> bool {
        names_differ(self.entries@)
    }

    /// Counters that all stand at zero.
    pub fn new() -> (s: Stats)
        ensures
            s.wf(),
            s@ == Map::<Seq<char>, u64>::empty(),
    {
        let s = Stats { entries: Vec::new() };
        proof {
            assert(s@ =~= Map::<Seq<char>, u64>::empty());
        }
        s
    }

    fn position(&self, k: &str) -> (at: Option<usize>)
        requires
            self.wf(),
        ensures
            match at {
                Some(i) => named(self.entries@, k@, i as int) && self@.contains_key(k@)
                    && self@[k@] == self.entries@[i as int].1,
                None => !self@.contains_key(k@),
            },
    {
        let mut i: usize = 0;
        while i < self.entries.len()
            invariant
                i <= self.entries.len(),
                self.wf(),
                forall|j: int| 0 <= j < i ==> (#[trigger] self.entries@[j]).0@ != k@,
            decreases self.entries.len() - i,
        {
            if same_text(self.entries[i].0, k) {
                proof {
                    assert(named(self.entries@, k@, i as int));
                    let c = choose|c: int| named(self.entries@, k@, c);
                    assert(c == i);
                }
                return Some(i);
            }
            i += 1;
        }
        proof {
            assert forall|j: int| !named(self.entries@, k@, j) by {}
        }
        None
    }

    /// What a counter stands at.
    pub fn count(&self, k: &str) -> (n: u64)
        requires
            self.wf(),
        ensures
            n == count_at(self@, k@),
    {
        match self.position(k) {
            Some(i) => self.entries[i].1,
            None => 0,
        }
    }

    /// Whether a counter can be raised.
    pub fn can_raise(&self, k: &str, by: u64) -> (yes: bool)
        requires
            self.wf(),
        ensures
            yes == has_room(self@, k@, by as int),
    {
        self.count(k) <= u64::MAX - by
    }

    /// Tells whether every counter can be raised by `n`.
    pub fn has_spare(&self, n: u64) -> (yes: bool)
        requires
            self.wf(),
        ensures
            yes == spare(self@, n as int),
    {
        let mut i: usize = 0;
        while i < self.entries.len()
            invariant
                self.wf(),
                i <= self.entries.len(),
                forall|j: int| 0 <= j < i ==> (#[trigger] self.entries@[j]).1 + n <= u64::MAX,
            decreases self.entries.len() - i,
        {
            proof {
                lemma_counts_at(self.entries@, i as int);
            }
            if self.entries[i].1 > u64::MAX - n {
                proof {
                    reveal(spare);
                    assert(count_at(self@, self.entries@[i as int].0@) + n > u64::MAX);
                }
                return false;
            }
            i += 1;
        }
        proof {
            reveal(spare);
            assert forall|k: Seq<char>| #[trigger] count_at(self@, k) + n <= u64::MAX by {
                if self@.contains_key(k) {
                    let c = choose|c: int| named(self.entries@, k, c);
                    lemma_counts_at(self.entries@, c);
                    assert(self.entries@[c].1 + n <= u64::MAX);
                }
            }
        }
        true
    }

    /// Raises a counter.
    pub fn raise(&mut self, k: &'static str, by: u64)
        requires
            old(self).wf(),
            has_room(old(self)@, k@, by as int),
        ensures
            final(self).wf(),
            final(self)@ == raised(old(self)@, k@, by as int),
    {
        let ghost before = self.entries@;
        match self.position(k) {
            Some(i) => {
                let name: &'static str = self.entries[i].0;
                let n: u64 = self.entries[i].1 + by;
                self.entries.set(i, (name, n));
                proof {
                    lemma_counts_set(before, i as int, n);
                }
            },
            None => {
                self.entries.push((k, by));
                proof {
                    lemma_counts_push(before, k, by);
                }
            },
        }
    }

    /// Raises a counter by one.
    pub fn bump(&mut self, k: &'static str)
        requires
            old(self).wf(),
            has_room(old(self)@, k@, 1),
        ensures
            final(self).wf(),
            final(self)@ == bumped(old(self)@, k@),
    {
        self.raise(k, 1);
    }
}

/// Whether every counter can be raised by `n`.
#[verifier::opaque]
pub open spec fn spare(c: Counts, n: int) -> bool {
    forall|k: Seq<char>| #[trigger] count_at(c, k) + n <= u64::MAX
}

/// A counter that can be raised `n` times can be raised, and then `n - 1`
/// times.
pub proof fn lemma_spare(c: Counts, n: int, k: Seq<char>)
    requires
        spare(c, n),
        n >= 1,
    ensures
        has_room(c, k, 1),
        spare(bumped(c, k), n - 1),
        spare(c, n - 1),
{
    reveal(spare);
    assert(count_at(c, k) + n <= u64::MAX);
    assert forall|j: Seq<char>| #[trigger] count_at(bumped(c, k), j) + (n - 1) <= u64::MAX by {
        assert(count_at(c, j) + n <= u64::MAX);
    }
}

/// Two sets of counters taken together.
pub open spec fn merged(a: Counts, b: Counts) -> Counts {
    Map::new(
        |k: Seq<char>| a.contains_key(k) || b.contains_key(k),
        |k: Seq<char>| (count_at(a, k) + count_at(b, k)) as u64,
    )
}

/// Whether two sets of counters can be taken together.
pub open spec fn can_merge(a: Counts, b: Counts) -> bool {
    forall|k: Seq<char>| count_at(a, k) + #[trigger] count_at(b, k) <= u64::MAX
}

impl Stats {
    /// Tells whether other counters can be added to these.
    pub fn can_absorb(&self, other: &Stats) -> (yes: bool)
        requires
            self.wf(),
            other.wf(),
        ensures
            yes == can_merge(self@, other@),
    {
        let mut i: usize = 0;
        while i < other.entries.len()
            invariant
                self.wf(),
                other.wf(),
                i <= other.entries.len(),
                forall|j: int|
                    0 <= j < i ==> has_room(
                        self@,
                        (#[trigger] other.entries@[j]).0@,
                        other.entries@[j].1 as int,
                    ),
            decreases other.entries.len() - i,
        {
            proof {
                lemma_counts_at(other.entries@, i as int);
            }
            if !self.can_raise(other.entries[i].0, other.entries[i].1) {
                proof {
                    let k = other.entries@[i as int].0@;
                    assert(count_at(self@, k) + count_at(other@, k) > u64::MAX);
                }
                return false;
            }
            i += 1;
        }
        proof {
            assert forall|k: Seq<char>| count_at(self@, k) + #[trigger] count_at(other@, k)
                <= u64::MAX by {
                if other@.contains_key(k) {
                    let c = choose|c: int| named(other.entries@, k, c);
                    lemma_counts_at(other.entries@, c);
                    assert(has_room(
                        self@,
                        other.entries@[c].0@,
                        other.entries@[c].1 as int,
                    ));
                }
            }
        }
        true
    }

    /// Adds other counters to these.
    pub fn absorb(&mut self, other: &Stats)
        requires
            old(self).wf(),
            other.wf(),
            can_merge(old(self)@, other@),
        ensures
            final(self).wf(),
            final(self)@ == merged(old(self)@, other@),
    {
        let ghost before = self@;
        let mut i: usize = 0;
        proof {
            assert(counts(other.entries@.take(0)) =~= Map::empty());
            assert(merged(before, counts(other.entries@.take(0))) =~= before);
        }
        while i < other.entries.len()
            invariant
                i <= other.entries.len(),
                self.wf(),
                other.wf(),
                can_merge(before, other@),
                self@ == merged(before, counts(other.entries@.take(i as int))),
            decreases other.entries.len() - i,
        {
            let name: &'static str = other.entries[i].0;
            let n: u64 = other.entries[i].1;
            let ghost part = other.entries@.take(i as int);
            proof {
                lemma_counts_at(other.entries@, i as int);
                assert(count_at(before, name@) + count_at(other@, name@) <= u64::MAX);
                assert(!counts(part).contains_key(name@)) by {
                    if counts(part).contains_key(name@) {
                        let c = choose|c: int| named(part, name@, c);
                        assert(other.entries@[c].0@ == name@);
                        assert(other.entries@[i as int].0@ == name@);
                    }
                }
            }
            let ghost so_far = self@;
            self.raise(name, n);
            proof {
                assert(names_differ(part)) by {
                    assert forall|a: int, b: int| 0 <= a < b < part.len() implies (
                    #[trigger] part[a]).0@ != (#[trigger] part[b]).0@ by {
                        assert(part[a] == other.entries@[a]);
                        assert(part[b] == other.entries@[b]);
                    }
                }
                lemma_counts_push(part, name, n);
                assert(other.entries@.take(i + 1) =~= part.push((name, n)));
                assert(count_at(so_far, name@) == count_at(before, name@));
                assert(self@ =~= merged(before, counts(other.entries@.take(i + 1))));
            }
            i += 1;
        }
        proof {
            assert(other.entries@.take(i as int) =~= other.entries@);
        }
    }
}

proof fn lemma_counts_at(entries: Seq<(&'static str, u64)>, i: int)
    requires
        names_differ(entries),
        0 <= i < entries.len(),
    ensures
        counts(entries).contains_key(entries[i].0@),
        counts(entries)[entries[i].0@] == entries[i].1,
{
    let k = entries[i].0@;
    assert(named(entries, k, i));
    let c = choose|c: int| named(entries, k, c);
    assert(c == i);
}

proof fn lemma_counts_set(entries: Seq<(&'static str, u64)>, i: int, n: u64)
    requires
        names_differ(entries),
        0 <= i < entries.len(),
    ensures
        names_differ(entries.update(i, (entries[i].0, n))),
        counts(entries.update(i, (entries[i].0, n))) == counts(entries).insert(entries[i].0@, n),
{
    let e = entries.update(i, (entries[i].0, n));
    let a = counts(e);
    let b = counts(entries).insert(entries[i].0@, n);
    assert forall|k: Seq<char>| a.contains_key(k) <==> b.contains_key(k) by {
        if a.contains_key(k) {
            let c = choose|c: int| named(e, k, c);
            assert(named(entries, k, c));
        }
        if counts(entries).contains_key(k) {
            let c = choose|c: int| named(entries, k, c);
            assert(named(e, k, c));
        }
        assert(named(e, entries[i].0@, i));
    }
    assert forall|k: Seq<char>| a.contains_key(k) implies a[k] == b[k] by {
        let c = choose|c: int| named(e, k, c);
        lemma_counts_at(e, c);
        lemma_counts_at(entries, c);
    }
    assert(a =~= b);
}

proof fn lemma_counts_push(entries: Seq<(&'static str, u64)>, name: &'static str, n: u64)
    requires
        names_differ(entries),
        !counts(entries).contains_key(name@),
    ensures
        names_differ(entries.push((name, n))),
        counts(entries.push((name, n))) == counts(entries).insert(name@, n),
{
    let e = entries.push((name, n));
    let a = counts(e);
    let b = counts(entries).insert(name@, n);
    assert forall|i: int| 0 <= i < entries.len() implies (#[trigger] entries[i]).0@ != name@ by {
        if entries[i].0@ == name@ {
            assert(named(entries, name@, i));
        }
    }
    assert forall|i: int, j: int| 0 <= i < j < e.len() implies (#[trigger] e[i]).0@ != (
    #[trigger] e[j]).0@ by {
        assert(e[i] == entries[i]);
    }
    assert forall|k: Seq<char>| a.contains_key(k) <==> b.contains_key(k) by {
        if a.contains_key(k) {
            let c = choose|c: int| named(e, k, c);
            if c < entries.len() {
                assert(named(entries, k, c));
            }
        }
        if counts(entries).contains_key(k) {
            let c = choose|c: int| named(entries, k, c);
            assert(named(e, k, c));
        }
        assert(named(e, name@, entries.len() as int));
    }
    assert forall|k: Seq<char>| a.contains_key(k) implies a[k] == b[k] by {
        let c = choose|c: int| named(e, k, c);
        lemma_counts_at(e, c);
        if c < entries.len() {
            lemma_counts_at(entries, c);
        }
    }
    assert(a =~= b);
}

/// Whether each name comes after the ones before it.
pub open spec fn ascending(names: Seq<Seq<char>>) -> bool {
    forall|i: int, j: int|
        #![trigger names[i], names[j]]
        0 <= i < j < names.len() ==> text::before(names[i], names[j])
}

/// Whether `names` lists exactly the counters of `c`, in ascending order.
pub open spec fn lists_names(names: Seq<Seq<char>>, c: Counts) -> bool {
    ascending(names) && names.to_set() == c.dom()
}

/// The names of counters in ascending order.
pub open spec fn names_of(c: Counts) -> Seq<Seq<char>> {
    choose|names: Seq<Seq<char>>| lists_names(names, c)
}

/// A counter as it is shown.
pub open spec fn counter_text(k: Seq<char>, n: u64) -> Seq<char> {
    text::quoted(k) + ": "@ + text::decimal(n as int)
}

/// Counters as they are shown, in ascending order of their names.
pub open spec fn shown(c: Counts) -> Seq<char> {
    "{"@ + text::joined(names_of(c).map_values(|k: Seq<char>| counter_text(k, c[k])), ", "@)
        + "}"@
}

proof fn lemma_ascending_unique(a: Seq<Seq<char>>, b: Seq<Seq<char>>)
    requires
        ascending(a),
        ascending(b),
        a.to_set() == b.to_set(),
    ensures
        a == b,
    decreases a.len(),
{
    if a.len() == 0 {
        if b.len() > 0 {
            assert(b.to_set().contains(b[0]));
        }
        assert(a =~= b);
    } else if b.len() == 0 {
        assert(a.to_set().contains(a[0]));
    } else {
        assert(a.to_set().contains(a.last()));
        assert(b.to_set().contains(b.last()));
        let i = choose|i: int| 0 <= i < b.len() && b[i] == a.last();
        let j = choose|j: int| 0 <= j < a.len() && a[j] == b.last();
        if a.last() != b.last() {
            assert(text::before(b[i], b[b.len() - 1]));
            assert(text::before(a[j], a[a.len() - 1]));
            text::lemma_before_transitive(a.last(), b.last(), a.last());
            text::lemma_before_irreflexive(a.last());
        }
        let x = a.drop_last();
        let y = b.drop_last();
        assert forall|k: Seq<char>| x.to_set().contains(k) <==> y.to_set().contains(k) by {
            if x.contains(k) {
                let p = choose|p: int| 0 <= p < x.len() && x[p] == k;
                assert(a[p] == k);
                assert(a.to_set().contains(k));
                let q = choose|q: int| 0 <= q < b.len() && b[q] == k;
                assert(text::before(a[p], a[a.len() - 1]));
                text::lemma_before_irreflexive(k);
                assert(y[q] == k);
            }
            if y.contains(k) {
                let p = choose|p: int| 0 <= p < y.len() && y[p] == k;
                assert(b[p] == k);
                assert(b.to_set().contains(k));
                let q = choose|q: int| 0 <= q < a.len() && a[q] == k;
                assert(text::before(b[p], b[b.len() - 1]));
                text::lemma_before_irreflexive(k);
                assert(x[q] == k);
            }
        }
        assert(x.to_set() =~= y.to_set());
        lemma_ascending_unique(x, y);
        assert(a =~= x.push(a.last()));
        assert(b =~= y.push(b.last()));
    }
}

/// There is only one ascending list of the names of counters.
pub proof fn lemma_names_of(names: Seq<Seq<char>>, c: Counts)
    requires
        lists_names(names, c),
    ensures
        names_of(c) == names,
{
    lemma_ascending_unique(names, names_of(c));
}

/// The names of entries.
pub open spec fn entry_names(entries: Seq<(&'static str, u64)>) -> Seq<Seq<char>> {
    entries.map_values(|e: (&'static str, u64)| e.0@)
}

/// Puts an entry where it belongs among entries in ascending order.
fn insert_sorted(sorted: &mut Vec<(&'static str, u64)>, name: &'static str, n: u64)
    requires
        ascending(entry_names(old(sorted)@)),
        forall|i: int| 0 <= i < old(sorted)@.len() ==> (#[trigger] old(sorted)@[i]).0@ != name@,
    ensures
        ascending(entry_names(final(sorted)@)),
        exists|p: int|
            0 <= p <= old(sorted)@.len() && final(sorted)@ == #[trigger] old(sorted)@.insert(
                p,
                (name, n),
            ),
{
    let ghost start = sorted@;
    let ghost names = entry_names(start);
    let mut p: usize = 0;
    while p < sorted.len() && comes_before(sorted[p].0, name)
        invariant
            sorted@ == start,
            names == entry_names(start),
            p <= start.len(),
            forall|i: int| 0 <= i < p ==> text::before(#[trigger] names[i], name@),
        decreases start.len() - p,
    {
        proof {
            assert(names[p as int] == start[p as int].0@);
        }
        p += 1;
    }
    proof {
        if p < start.len() {
            assert(names[p as int] == start[p as int].0@);
            assert(text::before(name@, names[p as int]));
        }
    }
    sorted.insert(p, (name, n));
    proof {
        let out = entry_names(sorted@);
        assert(out =~= names.insert(p as int, name@));
        assert forall|i: int, j: int|
            #![trigger out[i], out[j]]
            0 <= i < j < out.len() implies text::before(out[i], out[j]) by {
            let a = if i < p {
                i
            } else {
                i - 1
            };
            let b = if j < p {
                j
            } else {
                j - 1
            };
            if i == p {
                if b != p {
                    text::lemma_before_transitive(name@, names[p as int], names[b]);
                }
            } else if j == p {
                assert(text::before(names[a], name@));
            } else {
                assert(text::before(names[a], names[b]));
            }
        }
    }
}

impl Stats {
    fn sorted(&self) -> (sorted: Vec<(&'static str, u64)>)
        requires
            self.wf(),
        ensures
            lists_names(entry_names(sorted@), self@),
            forall|i: int|
                0 <= i < sorted@.len() ==> self@[(#[trigger] sorted@[i]).0@] == sorted@[i].1,
    {
        let mut sorted: Vec<(&'static str, u64)> = Vec::new();
        let mut i: usize = 0;
        while i < self.entries.len()
            invariant
                self.wf(),
                i <= self.entries.len(),
                ascending(entry_names(sorted@)),
                forall|e: (&'static str, u64)|
                    #![trigger sorted@.contains(e)]
                    sorted@.contains(e) <==> self.entries@.take(i as int).contains(e),
            decreases self.entries.len() - i,
        {
            let name: &'static str = self.entries[i].0;
            let n: u64 = self.entries[i].1;
            let ghost start = sorted@;
            let ghost done = self.entries@.take(i as int);
            proof {
                assert forall|j: int| 0 <= j < start.len() implies (#[trigger] start[j]).0@
                    != name@ by {
                    assert(start.contains(start[j]));
                    let q = choose|q: int| 0 <= q < done.len() && done[q] == start[j];
                    assert(self.entries@[q].0@ != self.entries@[i as int].0@);
                }
            }
            insert_sorted(&mut sorted, name, n);
            proof {
                let p = choose|p: int|
                    0 <= p <= start.len() && sorted@ == #[trigger] start.insert(p, (name, n));
                let next = self.entries@.take(i + 1);
                assert(next =~= done.push((name, n)));
                assert forall|e: (&'static str, u64)|
                    #![trigger sorted@.contains(e)]
                    sorted@.contains(e) <==> next.contains(e) by {
                    if sorted@.contains(e) {
                        let q = choose|q: int| 0 <= q < sorted@.len() && sorted@[q] == e;
                        if q < p {
                            assert(start[q] == e);
                            assert(start.contains(e));
                        } else if q > p {
                            assert(start[q - 1] == e);
                            assert(start.contains(e));
                        }
                        if done.contains(e) {
                            let r = choose|r: int| 0 <= r < done.len() && done[r] == e;
                            assert(next[r] == e);
                        } else {
                            assert(next[i as int] == e);
                        }
                    }
                    if next.contains(e) {
                        let q = choose|q: int| 0 <= q < next.len() && next[q] == e;
                        if q < i {
                            assert(done[q] == e);
                            assert(start.contains(e));
                            let r = choose|r: int| 0 <= r < start.len() && start[r] == e;
                            if r < p {
                                assert(sorted@[r] == e);
                            } else {
                                assert(sorted@[r + 1] == e);
                            }
                        } else {
                            assert(sorted@[p] == e);
                        }
                    }
                }
            }
            i += 1;
        }
        proof {
            assert(self.entries@.take(i as int) =~= self.entries@);
            let names = entry_names(sorted@);
            assert forall|j: int| 0 <= j < sorted@.len() implies self@.contains_key(
                (#[trigger] sorted@[j]).0@,
            ) && self@[sorted@[j].0@] == sorted@[j].1 by {
                assert(sorted@.contains(sorted@[j]));
                let q = choose|q: int|
                    0 <= q < self.entries@.len() && self.entries@[q] == sorted@[j];
                lemma_counts_at(self.entries@, q);
            }
            assert forall|k: Seq<char>| names.to_set().contains(k) <==> self@.dom().contains(k) by {
                if names.contains(k) {
                    let q = choose|q: int| 0 <= q < names.len() && names[q] == k;
                    assert(sorted@[q].0@ == k);
                }
                if self@.contains_key(k) {
                    let c = choose|c: int| named(self.entries@, k, c);
                    assert(self.entries@.contains(self.entries@[c]));
                    assert(sorted@.contains(self.entries@[c]));
                    let q = choose|q: int|
                        0 <= q < sorted@.len() && sorted@[q] == self.entries@[c];
                    assert(names[q] == k);
                }
            }
            assert(names.to_set() =~= self@.dom());
        }
        sorted
    }

    /// Shows the counters, in ascending order of their names.
    pub fn show(&self) -> (out: String)
        requires
            self.wf(),
        ensures
            out@ == shown(self@),
    {
        let sorted = self.sorted();
        let ghost names = entry_names(sorted@);
        let ghost all = names.map_values(|k: Seq<char>| counter_text(k, self@[k]));
        let mut items: Vec<String> = Vec::new();
        let mut i: usize = 0;
        while i < sorted.len()
            invariant
                i <= sorted.len(),
                names == entry_names(sorted@),
                all == names.map_values(|k: Seq<char>| counter_text(k, self@[k])),
                forall|j: int|
                    0 <= j < sorted@.len() ==> self@[(#[trigger] sorted@[j]).0@] == sorted@[j].1,
                text::texts(items@) == all.take(i as int),
            decreases sorted.len() - i,
        {
            let mut item = String::new();
            push_quoted(&mut item, sorted[i].0);
            proof {
                assert(item@ =~= text::quoted(sorted@[i as int].0@));
            }
            item.append(": ");
            push_unsigned(&mut item, sorted[i].1);
            let ghost so_far = text::texts(items@);
            items.push(item);
            proof {
                assert(names[i as int] == sorted@[i as int].0@);
                assert(all[i as int] == item@);
                assert(text::texts(items@) =~= so_far.push(item@));
                assert(all.take(i + 1) =~= all.take(i as int).push(all[i as int]));
            }
            i += 1;
        }
        proof {
            lemma_names_of(names, self@);
            assert(all.take(all.len() as int) =~= all);
        }
        let mut out = "{".to_owned();
        let inside = join_text(&items, ", ");
        out.append(inside.as_str());
        out.append("}");
        out
    }
}

/// Two sets of counters taken together count under each name what both have
/// counted, whichever is added to which.
pub proof fn law_counters_add_up(a: Counts, b: Counts, k: Seq<char>)
    requires
        a.contains_key(k) && b.contains_key(k) ==> a[k] + b[k] <= u64::MAX,
    ensures
        merged(a, b).contains_key(k) <==> a.contains_key(k) || b.contains_key(k),
        a.contains_key(k) && b.contains_key(k) ==> merged(a, b)[k] == a[k] + b[k],
        a.contains_key(k) && !b.contains_key(k) ==> merged(a, b)[k] == a[k],
        !a.contains_key(k) && b.contains_key(k) ==> merged(a, b)[k] == b[k],
        merged(a, b) == merged(b, a),
{
    assert(merged(a, b) =~= merged(b, a));
}

/// Two sets of counters can be taken together exactly where no sum is too large.
pub proof fn law_counters_that_can_be_added(a: Counts, b: Counts)
    ensures
        can_merge(a, b) <==> forall|k: Seq<char>|
            #[trigger] a.contains_key(k) && b.contains_key(k) ==> a[k] + b[k] <= u64::MAX,
        can_merge(a, b) == can_merge(b, a),
{
    if can_merge(a, b) {
        assert forall|k: Seq<char>| #[trigger] a.contains_key(k) && b.contains_key(k) implies a[k]
            + b[k] <= u64::MAX by {
            assert(count_at(a, k) + count_at(b, k) <= u64::MAX);
        }
        assert forall|k: Seq<char>| count_at(b, k) + #[trigger] count_at(a, k) <= u64::MAX by {
            assert(count_at(a, k) + count_at(b, k) <= u64::MAX);
        }
    }
    if forall|k: Seq<char>|
        #[trigger] a.contains_key(k) && b.contains_key(k) ==> a[k] + b[k] <= u64::MAX {
        assert forall|k: Seq<char>| count_at(a, k) + #[trigger] count_at(b, k) <= u64::MAX by {
            if a.contains_key(k) && b.contains_key(k) {
                assert(a[k] + b[k] <= u64::MAX);
            }
        }
    }
    if can_merge(b, a) {
        assert forall|k: Seq<char>| count_at(a, k) + #[trigger] count_at(b, k) <= u64::MAX by {
            assert(count_at(b, k) + count_at(a, k) <= u64::MAX);
        }
    }
}

/// Raising one counter changes that one, by as much as was asked for, and no
/// other.
pub proof fn law_one_counter_is_raised(c: Counts, k: Seq<char>, by: int, j: Seq<char>)
    requires
        0 <= by,
        has_room(c, k, by),
    ensures
        raised(c, k, by).contains_key(k),
        raised(c, k, by)[k] == by + (if c.contains_key(k) {
            c[k] as int
        } else {
            0
        }),
        j != k ==> (raised(c, k, by).contains_key(j) <==> c.contains_key(j)),
        j != k ==> raised(c, k, by)[j] == c[j],
{
}

/// Counters are shown in braces, each name quoted before its number, in
/// ascending order: a counter whose name comes after all others is shown last.
pub proof fn law_counters_are_shown_in_order(
    c: Counts,
    names: Seq<Seq<char>>,
    k: Seq<char>,
    n: u64,
)
    requires
        lists_names(names, c),
        forall|j: Seq<char>| #[trigger] c.contains_key(j) ==> text::before(j, k),
    ensures
        names.len() == 0 ==> shown(c) == "{"@ + "}"@,
        ({
            let item = text::quoted(k) + ": "@ + text::decimal(n as int);
            let front = text::joined(
                names.map_values(|j: Seq<char>| text::quoted(j) + ": "@ + text::decimal(c[j] as int)),
                ", "@,
            );
            shown(c.insert(k, n)) == "{"@ + (if names.len() == 0 {
                item
            } else {
                front + ", "@ + item
            }) + "}"@
        }),
{
    let d = c.insert(k, n);
    let more = names.push(k);
    assert forall|i: int| 0 <= i < names.len() implies text::before(#[trigger] names[i], k) by {
        assert(names.to_set().contains(names[i]));
        assert(c.contains_key(names[i]));
    }
    assert(more.to_set() =~= d.dom()) by {
        assert forall|j: Seq<char>| more.to_set().contains(j) <==> d.dom().contains(j) by {
            if d.dom().contains(j) {
                if j == k {
                    assert(more[names.len() as int] == k);
                } else {
                    assert(names.to_set().contains(j));
                    let i = choose|i: int| 0 <= i < names.len() && names[i] == j;
                    assert(more[i] == j);
                }
            }
            if more.to_set().contains(j) {
                let i = choose|i: int| 0 <= i < more.len() && more[i] == j;
                if i < names.len() {
                    assert(names.to_set().contains(names[i]));
                }
            }
        }
    }
    lemma_names_of(names, c);
    lemma_names_of(more, d);
    let f = |j: Seq<char>| counter_text(j, c[j]);
    let g = |j: Seq<char>| counter_text(j, d[j]);
    let h = |j: Seq<char>| text::quoted(j) + ": "@ + text::decimal(c[j] as int);
    text::lemma_before_irreflexive(k);
    assert(names.map_values(f) =~= names.map_values(h));
    assert(more.map_values(g).drop_last() =~= names.map_values(f)) by {
        assert forall|i: int| 0 <= i < names.len() implies more.map_values(g)[i] == f(names[i]) by {
            assert(text::before(names[i], k));
        }
    }
    assert(more.map_values(g).last() == counter_text(k, n));
    if names.len() == 0 {
        assert(names.map_values(f) =~= Seq::empty());
        assert("{"@ + Seq::<char>::empty() + "}"@ =~= "{"@ + "}"@);
    }
}

/// A counter has room for a raise exactly where the sum stays within 64 bits.
pub proof fn law_when_there_is_room(c: Counts, k: Seq<char>, by: int)
    ensures
        c.contains_key(k) ==> (has_room(c, k, by) <==> c[k] + by <= u64::MAX),
        !c.contains_key(k) ==> (has_room(c, k, by) <==> by <= u64::MAX),
{
}

} // verus!
