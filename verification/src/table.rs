//! Tables: values under keys, each key once, in the order in which the keys came.
use vstd::prelude::*;
use crate::text::same;

verus! {

/// A key that can be compared with another.
pub trait Key: View + Sized {
    /// Whether the two keys are the same.
    fn key_eq(&self, other: &Self) -> (r: bool)
        ensures
            r == (self@ == other@),
    ;
}

impl Key for String {
    fn key_eq(&self, other: &Self) -> (r: bool) {
        same(self.as_str(), other.as_str())
    }
}

/// A number as a key.
#[derive(Clone, Copy)]
pub struct Number {
    pub value: u64,
}

impl View for Number {
    type V = u64;

    open spec fn view(&self) -> u64 {
        self.value
    }
}

impl Key for Number {
    fn key_eq(&self, other: &Self) -> (r: bool) {
        self.value == other.value
    }
}

/// Two texts as a key.
pub struct Pair {
    pub first: String,
    pub second: String,
}

impl View for Pair {
    type V = (Seq<char>, Seq<char>);

    open spec fn view(&self) -> (Seq<char>, Seq<char>) {
        (self.first@, self.second@)
    }
}

impl Key for Pair {
    fn key_eq(&self, other: &Self) -> (r: bool) {
        same(self.first.as_str(), other.first.as_str()) && same(
            self.second.as_str(),
            other.second.as_str(),
        )
    }
}

/// Two texts as a key.
pub fn pair(first: &str, second: &str) -> (p: Pair)
    ensures
        p@ == (first@, second@),
{
    Pair { first: first.to_owned(), second: second.to_owned() }
}

/// A table of values under keys.
pub struct Table<K, V> {
    entries: Vec<(K, V)>,
}

/// Whether the key stands at the place.
spec fn stands<K: View, V>(e: Seq<(K, V)>, k: K::V, i: int) -> bool {
    0 <= i < e.len() && e[i].0@ == k
}

/// Whether the key stands somewhere.
spec fn occurs<K: View, V>(e: Seq<(K, V)>, k: K::V) -> bool {
    exists|i: int| stands(e, k, i)
}

/// Where the key stands.
spec fn place<K: View, V>(e: Seq<(K, V)>, k: K::V) -> int {
    choose|i: int| stands(e, k, i)
}

/// Whether no key stands twice.
spec fn once<K: View, V>(e: Seq<(K, V)>) -> bool {
    forall|i: int, j: int|
        0 <= i < e.len() && 0 <= j < e.len() && (#[trigger] e[i]).0@ == (#[trigger] e[j]).0@ ==> i
            == j
}

/// What the entries hold.
spec fn contents<K: View, V>(e: Seq<(K, V)>) -> Map<K::V, V> {
    Map::new(|k: K::V| occurs(e, k), |k: K::V| e[place(e, k)].1)
}

proof fn lemma_place<K: View, V>(e: Seq<(K, V)>, i: int)
    requires
        once(e),
        0 <= i < e.len(),
    ensures
        occurs(e, e[i].0@),
        place(e, e[i].0@) == i,
        contents(e).dom().contains(e[i].0@),
        contents(e)[e[i].0@] == e[i].1,
{
    assert(stands(e, e[i].0@, i));
    let p = place(e, e[i].0@);
    assert(stands(e, e[i].0@, p));
    assert(e[p].0@ == e[i].0@);
}

proof fn lemma_set<K: View, V>(e: Seq<(K, V)>, i: int, v: V)
    requires
        once(e),
        0 <= i < e.len(),
    ensures
        once(e.update(i, (e[i].0, v))),
        contents(e.update(i, (e[i].0, v))) =~= contents(e).insert(e[i].0@, v),
{
    let n = e.update(i, (e[i].0, v));
    assert forall|a: int, b: int|
        0 <= a < n.len() && 0 <= b < n.len() && (#[trigger] n[a]).0@ == (
        #[trigger] n[b]).0@ implies a == b by {
        assert(e[a].0@ == e[b].0@);
    }
    assert forall|k: K::V| #[trigger]
        contents(n).dom().contains(k) <==> contents(e).insert(e[i].0@, v).dom().contains(k) by {
        if occurs(n, k) {
            let p = place(n, k);
            assert(stands(e, k, p));
        }
        if occurs(e, k) {
            let p = place(e, k);
            assert(stands(n, k, p));
        }
        lemma_place(e, i);
    }
    assert forall|k: K::V| #[trigger] contents(n).dom().contains(k) implies contents(n)[k]
        == contents(e).insert(e[i].0@, v)[k] by {
        let p = place(n, k);
        assert(stands(n, k, p));
        lemma_place(n, p);
        lemma_place(e, p);
        lemma_place(e, i);
    }
}

proof fn lemma_append<K: View, V>(e: Seq<(K, V)>, x: (K, V))
    requires
        once(e),
        !occurs(e, x.0@),
    ensures
        once(e.push(x)),
        contents(e.push(x)) =~= contents(e).insert(x.0@, x.1),
{
    let n = e.push(x);
    assert forall|a: int, b: int|
        0 <= a < n.len() && 0 <= b < n.len() && (#[trigger] n[a]).0@ == (
        #[trigger] n[b]).0@ implies a == b by {
        if a < e.len() && b < e.len() {
            assert(e[a].0@ == e[b].0@);
        } else if a < e.len() {
            assert(stands(e, x.0@, a));
        } else if b < e.len() {
            assert(stands(e, x.0@, b));
        }
    }
    assert forall|k: K::V| #[trigger]
        contents(n).dom().contains(k) <==> contents(e).insert(x.0@, x.1).dom().contains(k) by {
        if occurs(n, k) {
            let p = place(n, k);
            if p < e.len() {
                assert(stands(e, k, p));
            }
        }
        if occurs(e, k) {
            let p = place(e, k);
            assert(stands(n, k, p));
        }
        assert(stands(n, x.0@, e.len() as int));
    }
    assert forall|k: K::V| #[trigger] contents(n).dom().contains(k) implies contents(n)[k]
        == contents(e).insert(x.0@, x.1)[k] by {
        let p = place(n, k);
        assert(stands(n, k, p));
        lemma_place(n, p);
        if p < e.len() {
            lemma_place(e, p);
            assert(stands(e, k, p));
        }
    }
}

proof fn lemma_take_out<K: View, V>(e: Seq<(K, V)>, i: int)
    requires
        once(e),
        0 <= i < e.len(),
    ensures
        once(e.remove(i)),
        contents(e.remove(i)) =~= contents(e).remove(e[i].0@),
{
    let n = e.remove(i);
    assert forall|a: int, b: int|
        0 <= a < n.len() && 0 <= b < n.len() && (#[trigger] n[a]).0@ == (
        #[trigger] n[b]).0@ implies a == b by {
        let a1 = if a < i {
            a
        } else {
            a + 1
        };
        let b1 = if b < i {
            b
        } else {
            b + 1
        };
        assert(e[a1].0@ == e[b1].0@);
    }
    assert forall|k: K::V| #[trigger]
        contents(n).dom().contains(k) <==> contents(e).remove(e[i].0@).dom().contains(k) by {
        if occurs(n, k) {
            let p = place(n, k);
            assert(stands(n, k, p));
            let p1 = if p < i {
                p
            } else {
                p + 1
            };
            assert(stands(e, k, p1));
            assert(e[p1].0@ == k);
            if k == e[i].0@ {
                assert(p1 == i);
            }
        }
        if occurs(e, k) && k != e[i].0@ {
            let p = place(e, k);
            assert(stands(e, k, p));
            let p1 = if p < i {
                p
            } else {
                p - 1
            };
            assert(stands(n, k, p1));
        }
    }
    assert forall|k: K::V| #[trigger] contents(n).dom().contains(k) implies contents(n)[k]
        == contents(e).remove(e[i].0@)[k] by {
        let p = place(n, k);
        assert(stands(n, k, p));
        let p1 = if p < i {
            p
        } else {
            p + 1
        };
        lemma_place(n, p);
        lemma_place(e, p1);
    }
}

impl<K: Key, V> View for Table<K, V> {
    type V = Map<K::V, V>;

    closed spec fn view(&self) -> Map<K::V, V> {
        contents(self.entries@)
    }
}

impl<K: Key, V> Table<K, V> {
    /// Whether no key stands twice.
    pub closed spec fn wf(self) -> bool {
        once(self.entries@)
    }

    /// The keys, in the order in which they came.
    pub closed spec fn keys(self) -> Seq<K::V> {
        self.entries@.map_values(|x: (K, V)| x.0@)
    }

    /// The keys in their order are the keys of the table, each once.
    pub proof fn lemma_keys(self)
        requires
            self.wf(),
        ensures
            self.keys().no_duplicates(),
            forall|k: K::V| #[trigger] self.keys().contains(k) <==> self@.dom().contains(k),
    {
        let e = self.entries@;
        assert forall|k: K::V| #[trigger] self.keys().contains(k) <==> self@.dom().contains(k) by {
            if self.keys().contains(k) {
                let i = choose|i: int| 0 <= i < self.keys().len() && self.keys()[i] == k;
                assert(stands(e, k, i));
            }
            if occurs(e, k) {
                let p = place(e, k);
                assert(stands(e, k, p));
                assert(self.keys()[p] == k);
            }
        }
        assert forall|i: int, j: int|
            0 <= i < self.keys().len() && 0 <= j < self.keys().len() && i
                != j implies self.keys()[i] != self.keys()[j] by {
            if self.keys()[i] == self.keys()[j] {
                assert(e[i].0@ == e[j].0@);
            }
        }
    }

    /// A table without entries.
    pub fn new() -> (r: Self)
        ensures
            r.wf(),
            r@ == Map::<K::V, V>::empty(),
            r.keys() == Seq::<K::V>::empty(),
    {
        let r = Table { entries: Vec::new() };
        proof {
            assert forall|k: K::V| !#[trigger] r@.dom().contains(k) by {
                assert(!occurs(r.entries@, k));
            }
            assert(r@ =~= Map::<K::V, V>::empty());
            assert(r.keys() =~= Seq::<K::V>::empty());
        }
        r
    }

    fn find(&self, key: &K) -> (r: Option<usize>)
        ensures
            match r {
                Some(i) => stands(self.entries@, key@, i as int),
                None => !occurs(self.entries@, key@),
            },
    {
        let mut i: usize = 0;
        while i < self.entries.len()
            invariant
                i <= self.entries@.len(),
                forall|k: int| 0 <= k < i ==> !#[trigger] stands(self.entries@, key@, k),
            decreases self.entries@.len() - i,
        {
            if self.entries[i].0.key_eq(key) {
                return Some(i);
            }
            i = i + 1;
        }
        None
    }

    /// Whether the table has the key.
    pub fn contains(&self, key: &K) -> (r: bool)
        ensures
            r == self@.dom().contains(key@),
    {
        match self.find(key) {
            Some(i) => {
                assert(stands(self.entries@, key@, i as int));
                true
            },
            None => false,
        }
    }

    /// The value under the key.
    pub fn get(&self, key: &K) -> (r: Option<&V>)
        requires
            self.wf(),
        ensures
            match r {
                Some(v) => self@.dom().contains(key@) && self@[key@] == *v,
                None => !self@.dom().contains(key@),
            },
    {
        match self.find(key) {
            Some(i) => {
                proof {
                    lemma_place(self.entries@, i as int);
                }
                Some(&self.entries[i].1)
            },
            None => None,
        }
    }

    /// Puts the value under the key, in place of an older one.
    pub fn insert(&mut self, key: K, value: V)
        requires
            old(self).wf(),
        ensures
            final(self).wf(),
            final(self)@ == old(self)@.insert(key@, value),
            final(self).keys() == if old(self)@.dom().contains(key@) {
                old(self).keys()
            } else {
                old(self).keys().push(key@)
            },
    {
        let ghost keys = self.keys();
        match self.find(&key) {
            Some(i) => {
                let ghost e = self.entries@;
                proof {
                    lemma_set(e, i as int, value);
                    lemma_place(e, i as int);
                }
                self.entries[i].1 = value;
                assert(self.entries@ =~= e.update(i as int, (e[i as int].0, value)));
                assert(self.keys() =~= keys);
            },
            None => {
                proof {
                    lemma_append(self.entries@, (key, value));
                }
                let ghost k = key@;
                self.entries.push((key, value));
                assert(self.keys() =~= keys.push(k));
            },
        }
    }

    /// Takes the key out of the table, and gives back the value that stood under it.
    pub fn remove(&mut self, key: &K) -> (r: Option<V>)
        requires
            old(self).wf(),
        ensures
            final(self).wf(),
            final(self)@ == old(self)@.remove(key@),
            match r {
                Some(v) => old(self)@.dom().contains(key@) && old(self)@[key@] == v && exists|i: int|
                    0 <= i < old(self).keys().len() && old(self).keys()[i] == key@
                        && final(self).keys() == #[trigger] old(self).keys().remove(i),
                None => !old(self)@.dom().contains(key@) && final(self).keys() == old(self).keys(),
            },
    {
        let ghost keys = self.keys();
        match self.find(key) {
            Some(i) => {
                proof {
                    lemma_place(self.entries@, i as int);
                    lemma_take_out(self.entries@, i as int);
                }
                let x = self.entries.remove(i);
                assert(self.keys() =~= keys.remove(i as int));
                Some(x.1)
            },
            None => {
                assert(self@ =~= self@.remove(key@));
                None
            },
        }
    }

    /// How many keys there are.
    pub fn len(&self) -> (r: usize)
        ensures
            r == self.keys().len(),
    {
        self.entries.len()
    }

    /// The key at a place of the order.
    pub fn key_at(&self, i: usize) -> (r: &K)
        requires
            i < self.keys().len(),
        ensures
            r@ == self.keys()[i as int],
    {
        &self.entries[i].0
    }

    /// The value at a place of the order.
    pub fn value_at(&self, i: usize) -> (r: &V)
        requires
            self.wf(),
            i < self.keys().len(),
        ensures
            self@.dom().contains(self.keys()[i as int]),
            *r == self@[self.keys()[i as int]],
    {
        proof {
            lemma_place(self.entries@, i as int);
        }
        &self.entries[i].1
    }

    /// Takes out the entry at a place of the order.
    pub fn remove_at(&mut self, i: usize)
        requires
            old(self).wf(),
            i < old(self).keys().len(),
        ensures
            final(self).wf(),
            final(self)@ == old(self)@.remove(old(self).keys()[i as int]),
            final(self).keys() == old(self).keys().remove(i as int),
    {
        proof {
            lemma_take_out(self.entries@, i as int);
        }
        let ghost before = self.keys();
        self.entries.remove(i);
        assert(self.keys() =~= before.remove(i as int));
    }
}

} // verus!
