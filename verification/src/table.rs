//! A map from text to values, kept in insertion order.
use vstd::prelude::*;
use crate::text::same;

verus! {

/// Position of the first entry at or after `i` with key `k`, or the length.
pub open spec fn key_pos<V>(e: Seq<(String, V)>, k: Seq<char>, i: int) -> int
    decreases e.len() - i,
{
    if i < 0 || i >= e.len() {
        e.len() as int
    } else if e[i].0@ == k {
        i
    } else {
        key_pos(e, k, i + 1)
    }
}

proof fn lemma_key_pos<V>(e: Seq<(String, V)>, k: Seq<char>, i: int)
    requires
        0 <= i <= e.len(),
    ensures
        i <= key_pos(e, k, i) <= e.len(),
        key_pos(e, k, i) < e.len() ==> e[key_pos(e, k, i)].0@ == k,
        forall|j: int| i <= j < key_pos(e, k, i) ==> (#[trigger] e[j]).0@ != k,
    decreases e.len() - i,
{
    if i < e.len() && e[i].0@ != k {
        lemma_key_pos(e, k, i + 1);
    }
}

/// Entries with pairwise different keys, in the order of their insertion.
pub struct Table<V> {
    entries: Vec<(String, V)>,
}

impl<V> Table<V> {
    pub closed spec fn list(&self) -> Seq<(String, V)> {
        self.entries@
    }

    /// No key occurs twice.
    pub closed spec fn wf(&self) -> bool {
        forall|i: int, j: int|
            0 <= i < j < self.entries@.len() ==> self.entries@[i].0@ != self.entries@[j].0@
    }
}

impl<V> View for Table<V> {
    type V = Map<Seq<char>, V>;

    closed spec fn view(&self) -> Map<Seq<char>, V> {
        Map::new(
            |k: Seq<char>| key_pos(self.list(), k, 0) < self.list().len(),
            |k: Seq<char>| self.list()[key_pos(self.list(), k, 0)].1,
        )
    }
}

impl<V> Table<V> {
    pub fn new() -> (r: Self)
        ensures
            r@ == Map::<Seq<char>, V>::empty(),
            r.wf(),
    {
        let r = Table { entries: Vec::new() };
        assert(r@ =~= Map::<Seq<char>, V>::empty());
        r
    }

    fn position(&self, key: &str) -> (r: usize)
        ensures
            r == key_pos(self.list(), key@, 0),
            r <= self.list().len(),
            r < self.list().len() ==> self.list()[r as int].0@ == key@,
            forall|j: int| 0 <= j < r ==> self.list()[j].0@ != key@,
    {
        let n: usize = self.entries.len();
        let mut i: usize = 0;
        proof {
            lemma_key_pos(self.entries@, key@, 0);
        }
        while i < n
            invariant
                i <= n,
                n == self.entries@.len(),
                key_pos(self.entries@, key@, 0) == key_pos(self.entries@, key@, i as int),
                i <= key_pos(self.entries@, key@, 0) <= n,
                forall|j: int| 0 <= j < i ==> (#[trigger] self.entries@[j]).0@ != key@,
            decreases n - i,
        {
            proof {
                lemma_key_pos(self.entries@, key@, i as int);
            }
            if same(self.entries[i].0.as_str(), key) {
                return i;
            }
            i += 1;
            proof {
                lemma_key_pos(self.entries@, key@, i as int);
            }
        }
        i
    }

    pub fn contains_key(&self, key: &str) -> (r: bool)
        ensures
            r == self@.contains_key(key@),
    {
        self.position(key) < self.entries.len()
    }

    pub fn get(&self, key: &str) -> (r: Option<&V>)
        ensures
            match r {
                Some(v) => self@.contains_key(key@) && *v == self@[key@],
                None => !self@.contains_key(key@),
            },
    {
        let i: usize = self.position(key);
        if i < self.entries.len() {
            Some(&self.entries[i].1)
        } else {
            None
        }
    }

    /// Sets the value of a key.
    pub fn insert(&mut self, key: String, value: V)
        ensures
            final(self)@ == old(self)@.insert(key@, value),
            old(self).wf() ==> final(self).wf(),
    {
        let i: usize = self.position(key.as_str());
        let ghost before = self.entries@;
        if i < self.entries.len() {
            self.entries.set(i, (key, value));
        } else {
            self.entries.push((key, value));
        }
        proof {
            let after = self.entries@;
            assert(after == if i < before.len() {
                before.update(i as int, (key, value))
            } else {
                before.push((key, value))
            });
            assert forall|k: Seq<char>| #![trigger key_pos(after, k, 0)] true implies ({
                &&& k == key@ ==> key_pos(after, k, 0) == i
                &&& k != key@ ==> (key_pos(after, k, 0) < after.len()) == (key_pos(before, k, 0)
                    < before.len())
                &&& k != key@ && key_pos(before, k, 0) < before.len() ==> key_pos(after, k, 0)
                    == key_pos(before, k, 0)
            }) by {
                lemma_key_pos(after, k, 0);
                lemma_key_pos(before, k, 0);
                let a = key_pos(after, k, 0);
                let b = key_pos(before, k, 0);
                if k == key@ {
                    assert(after[i as int].0@ == k);
                    if a < i {
                        assert(before[a].0@ == k);
                    }
                } else {
                    if b < before.len() {
                        assert(after[b].0@ == k);
                        if a < b {
                            assert(before[a].0@ == after[a].0@);
                        }
                    } else if a < after.len() {
                        assert(a != i);
                        assert(before[a].0@ == after[a].0@);
                    }
                }
            }
            let m = self@;
            let n = old(self)@.insert(key@, value);
            assert(self.list() == after && old(self).list() == before);
            assert forall|k: Seq<char>| #![trigger m.contains_key(k)] true implies (m.contains_key(k)
                == n.contains_key(k) && (m.contains_key(k) ==> m[k] == n[k])) by {
                lemma_key_pos(after, k, 0);
                lemma_key_pos(before, k, 0);
                assert(key_pos(after, k, 0) <= after.len());
            }
            assert(m =~= n);
        }
    }

    /// The number of entries.
    pub fn size(&self) -> (r: usize)
        ensures
            r == self.list().len(),
    {
        self.entries.len()
    }

    /// The key of an entry, in the order of insertion.
    pub fn key_at(&self, i: usize) -> (r: &str)
        requires
            i < self.list().len(),
        ensures
            r@ == self.list()[i as int].0@,
    {
        self.entries[i].0.as_str()
    }

    /// The value of an entry, in the order of insertion.
    pub fn value_at(&self, i: usize) -> (r: &V)
        requires
            i < self.list().len(),
        ensures
            *r == self.list()[i as int].1,
    {
        &self.entries[i].1
    }

    /// The number of keys.
    pub fn len(&self) -> (r: usize)
        requires
            self.wf(),
        ensures
            r == self@.dom().len(),
            self@.dom().finite(),
    {
        proof {
            lemma_count::<V>(self.list());
            assert(self@.dom() =~= key_set(self.list()));
        }
        self.entries.len()
    }
}

/// The keys of a list of entries.
spec fn key_set<V>(e: Seq<(String, V)>) -> Set<Seq<char>> {
    Set::new(|k: Seq<char>| key_pos(e, k, 0) < e.len())
}

proof fn lemma_count<V>(e: Seq<(String, V)>)
    requires
        forall|a: int, b: int| 0 <= a < b < e.len() ==> e[a].0@ != e[b].0@,
    ensures
        key_set(e).finite(),
        key_set(e).len() == e.len(),
    decreases e.len(),
{
    if e.len() == 0 {
        assert(key_set(e) =~= Set::empty());
    } else {
        let p = e.drop_last();
        lemma_count(p);
        let k = e.last().0@;
        assert forall|x: Seq<char>| key_set(e).contains(x) == key_set(p).insert(k).contains(x) by {
            lemma_key_pos(e, x, 0);
            lemma_key_pos(p, x, 0);
            let a = key_pos(e, x, 0);
            let b = key_pos(p, x, 0);
            if b < p.len() {
                assert(e[b].0@ == x);
            }
            if a < p.len() {
                assert(p[a].0@ == x);
            }
            if x == k {
                assert(e[e.len() - 1].0@ == x);
            }
        }
        assert(key_set(e) =~= key_set(p).insert(k));
        lemma_key_pos(p, k, 0);
        assert(!key_set(p).contains(k)) by {
            let b = key_pos(p, k, 0);
            if b < p.len() {
                assert(e[b].0@ == e[e.len() - 1].0@);
            }
        }
    }
}

/// The entries of a table are its keys with their values.
pub proof fn entries_are_the_map<V>(t: &Table<V>, i: int)
    requires
        t.wf(),
        0 <= i < t.list().len(),
    ensures
        t@.contains_key(t.list()[i].0@),
        t@[t.list()[i].0@] == t.list()[i].1,
{
    lemma_key_pos(t.list(), t.list()[i].0@, 0);
}

/// Every key of a table has an entry.
pub proof fn keys_have_entries<V>(t: &Table<V>, k: Seq<char>)
    requires
        t@.contains_key(k),
    ensures
        exists|i: int| 0 <= i < t.list().len() && (#[trigger] t.list()[i]).0@ == k,
{
    lemma_key_pos(t.list(), k, 0);
    let i = key_pos(t.list(), k, 0);
    assert(t.list()[i].0@ == k);
}

} // verus!
