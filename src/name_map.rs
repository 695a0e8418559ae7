//! A small map from UTF-8 names to values, used for directory descriptors and
//! extended attributes.
use vstd::prelude::*;

verus! {

/// An unordered map from names to values, held as a list of pairs whose names
/// are pairwise distinct.
pub struct NameMap<V> {
    pub entries: Vec<(String, V)>,
}

pub open spec fn names_distinct<V>(s: Seq<(String, V)>) -> bool {
    forall|i: int, j: int|
        0 <= i < s.len() && 0 <= j < s.len() && i != j ==> (#[trigger] s[i]).0@ != (#[trigger] s[j]).0@
}

pub open spec fn has_name<V>(s: Seq<(String, V)>, k: Seq<char>) -> bool {
    exists|i: int| 0 <= i < s.len() && (#[trigger] s[i]).0@ == k
}

/// The map that a list of pairs with distinct names stands for.
pub open spec fn pairs_to_map<V>(s: Seq<(String, V)>) -> Map<Seq<char>, V> {
    Map::new(
        |k: Seq<char>| has_name(s, k),
        |k: Seq<char>| s[choose|i: int| 0 <= i < s.len() && (#[trigger] s[i]).0@ == k].1,
    )
}

impl<V> View for NameMap<V> {
    type V = Map<Seq<char>, V>;

    open spec fn view(&self) -> Map<Seq<char>, V> {
        pairs_to_map(self.entries@)
    }
}

/// Each pair of a list with distinct names is an entry of its map.
pub proof fn lemma_pair_in_map<V>(s: Seq<(String, V)>, i: int)
    requires
        names_distinct(s),
        0 <= i < s.len(),
    ensures
        pairs_to_map(s).contains_key(s[i].0@),
        pairs_to_map(s)[s[i].0@] == s[i].1,
{
    let k = s[i].0@;
    assert(has_name(s, k));
    let c = choose|c: int| 0 <= c < s.len() && (#[trigger] s[c]).0@ == k;
    assert(c == i);
}

/// A list with distinct names stands for `m` when each pair is an entry of
/// `m` and each key of `m` is the name of some pair.
pub proof fn lemma_map_of_pairs<V>(s: Seq<(String, V)>, m: Map<Seq<char>, V>)
    requires
        names_distinct(s),
        forall|i: int| 0 <= i < s.len() ==> m.contains_key((#[trigger] s[i]).0@) && m[s[i].0@] == s[i].1,
        forall|k: Seq<char>| #[trigger] m.contains_key(k) ==> has_name(s, k),
    ensures
        pairs_to_map(s) == m,
{
    assert forall|k: Seq<char>| #[trigger] pairs_to_map(s).contains_key(k) <==> m.contains_key(k) by {
        if has_name(s, k) {
            let c = choose|c: int| 0 <= c < s.len() && (#[trigger] s[c]).0@ == k;
            assert(m.contains_key(s[c].0@));
        }
    }
    assert forall|k: Seq<char>| #[trigger] m.contains_key(k) implies pairs_to_map(s)[k] == m[k] by {
        let c = choose|c: int| 0 <= c < s.len() && (#[trigger] s[c]).0@ == k;
        lemma_pair_in_map(s, c);
    }
    assert(pairs_to_map(s) =~= m);
}

impl<V> NameMap<V> {
    pub open spec fn wf(&self) -> bool {
        names_distinct(self.entries@)
    }

    pub fn new() -> (r: NameMap<V>)
        ensures
            r.wf(),
            r@ == Map::<Seq<char>, V>::empty(),
    {
        let r = NameMap { entries: Vec::new() };
        assert(r@ =~= Map::<Seq<char>, V>::empty());
        r
    }

    /// Number of entries.
    pub fn len(&self) -> (r: usize)
        ensures
            r == self.entries@.len(),
    {
        self.entries.len()
    }

    /// Whether the map holds no entry.
    pub fn is_empty(&self) -> (r: bool)
        requires
            self.wf(),
        ensures
            r <==> self@ == Map::<Seq<char>, V>::empty(),
            r <==> self.entries@.len() == 0,
    {
        if self.entries.len() == 0 {
            assert(self@ =~= Map::<Seq<char>, V>::empty());
            true
        } else {
            proof {
                lemma_pair_in_map(self.entries@, 0);
            }
            false
        }
    }

    /// Position of the entry named `k`, if there is one.
    pub fn find(&self, k: &str) -> (r: Option<usize>)
        requires
            self.wf(),
        ensures
            r matches Some(i) ==> i < self.entries@.len() && self.entries@[i as int].0@ == k@,
            r is None <==> !self@.contains_key(k@),
    {
        let key: String = k.to_owned();
        let mut i: usize = 0;
        while i < self.entries.len()
            invariant
                self.wf(),
                i <= self.entries@.len(),
                key@ == k@,
                forall|j: int| 0 <= j < i ==> (#[trigger] self.entries@[j]).0@ != k@,
            decreases self.entries@.len() - i,
        {
            if self.entries[i].0 == key {
                proof {
                    lemma_pair_in_map(self.entries@, i as int);
                }
                return Some(i);
            }
            i = i + 1;
        }
        None
    }

    /// The value stored under `k`.
    pub fn get(&self, k: &str) -> (r: Option<&V>)
        requires
            self.wf(),
        ensures
            r is None <==> !self@.contains_key(k@),
            r matches Some(v) ==> *v == self@[k@],
    {
        match self.find(k) {
            Some(i) => {
                proof {
                    lemma_pair_in_map(self.entries@, i as int);
                }
                Some(&self.entries[i].1)
            },
            None => None,
        }
    }

    /// Stores `v` under `k`, replacing any earlier value.
    pub fn insert(&mut self, k: &str, v: V)
        requires
            old(self).wf(),
        ensures
            final(self).wf(),
            final(self)@ == old(self)@.insert(k@, v),
    {
        let ghost s0 = self.entries@;
        let ghost m1 = pairs_to_map(s0).insert(k@, v);
        match self.find(k) {
            Some(i) => {
                self.entries.set(i, (k.to_owned(), v));
                proof {
                    let s1 = self.entries@;
                    assert(s1 == s0.update(i as int, s1[i as int]));
                    assert(names_distinct(s1));
                    assert forall|j: int| 0 <= j < s1.len() implies m1.contains_key((#[trigger] s1[j]).0@)
                        && m1[s1[j].0@] == s1[j].1 by {
                        if j != i {
                            lemma_pair_in_map(s0, j);
                        }
                    }
                    assert forall|x: Seq<char>| #[trigger] m1.contains_key(x) implies has_name(s1, x) by {
                        if x != k@ {
                            let c = choose|c: int| 0 <= c < s0.len() && (#[trigger] s0[c]).0@ == x;
                            assert(s1[c].0@ == x);
                        } else {
                            assert(s1[i as int].0@ == x);
                        }
                    }
                    lemma_map_of_pairs(s1, m1);
                }
            },
            None => {
                self.entries.push((k.to_owned(), v));
                proof {
                    let s1 = self.entries@;
                    let n = s0.len() as int;
                    assert forall|j: int| 0 <= j < s0.len() implies (#[trigger] s0[j]).0@ != k@ by {
                        lemma_pair_in_map(s0, j);
                    }
                    assert forall|a: int, b: int|
                        0 <= a < s1.len() && 0 <= b < s1.len() && a != b implies (#[trigger] s1[a]).0@
                        != (#[trigger] s1[b]).0@ by {
                        if a < n && b < n {
                            assert(s1[a] == s0[a] && s1[b] == s0[b]);
                        } else if a < n {
                            assert(s1[a] == s0[a]);
                        } else {
                            assert(s1[b] == s0[b]);
                        }
                    }
                    assert forall|j: int| 0 <= j < s1.len() implies m1.contains_key((#[trigger] s1[j]).0@)
                        && m1[s1[j].0@] == s1[j].1 by {
                        if j < n {
                            assert(s1[j] == s0[j]);
                            lemma_pair_in_map(s0, j);
                        }
                    }
                    assert forall|x: Seq<char>| #[trigger] m1.contains_key(x) implies has_name(s1, x) by {
                        if x != k@ {
                            let c = choose|c: int| 0 <= c < s0.len() && (#[trigger] s0[c]).0@ == x;
                            assert(s1[c] == s0[c]);
                        } else {
                            assert(s1[n].0@ == x);
                        }
                    }
                    lemma_map_of_pairs(s1, m1);
                }
            },
        }
    }

    /// Removes the entry named `k` and hands back its value.
    pub fn remove(&mut self, k: &str) -> (r: Option<V>)
        requires
            old(self).wf(),
        ensures
            final(self).wf(),
            final(self)@ == old(self)@.remove(k@),
            r is None <==> !old(self)@.contains_key(k@),
            r matches Some(v) ==> v == old(self)@[k@],
    {
        let ghost s0 = self.entries@;
        let ghost m1 = pairs_to_map(s0).remove(k@);
        match self.find(k) {
            Some(i) => {
                proof {
                    lemma_pair_in_map(s0, i as int);
                }
                let (_, v) = self.entries.remove(i);
                proof {
                    let s1 = self.entries@;
                    assert(s1 == s0.remove(i as int));
                    assert forall|a: int, b: int|
                        0 <= a < s1.len() && 0 <= b < s1.len() && a != b implies (#[trigger] s1[a]).0@
                        != (#[trigger] s1[b]).0@ by {
                        let a0 = if a < i { a } else { a + 1 };
                        let b0 = if b < i { b } else { b + 1 };
                        assert(s1[a] == s0[a0] && s1[b] == s0[b0]);
                    }
                    assert forall|j: int| 0 <= j < s1.len() implies m1.contains_key((#[trigger] s1[j]).0@)
                        && m1[s1[j].0@] == s1[j].1 by {
                        let j0 = if j < i { j } else { j + 1 };
                        assert(s1[j] == s0[j0]);
                        lemma_pair_in_map(s0, j0);
                    }
                    assert forall|x: Seq<char>| #[trigger] m1.contains_key(x) implies has_name(s1, x) by {
                        let c = choose|c: int| 0 <= c < s0.len() && (#[trigger] s0[c]).0@ == x;
                        assert(c != i);
                        let c1 = if c < i { c } else { c - 1 };
                        assert(s1[c1] == s0[c]);
                    }
                    lemma_map_of_pairs(s1, m1);
                }
                Some(v)
            },
            None => {
                assert(pairs_to_map(s0) =~= m1);
                None
            },
        }
    }
}

impl NameMap<Vec<u8>> {
    /// The names, one per entry, in the order of the entries.
    pub fn keys(&self) -> (r: Vec<String>)
        requires
            self.wf(),
        ensures
            r@.len() == self.entries@.len(),
            forall|i: int| 0 <= i < r@.len() ==> (#[trigger] r@[i])@ == self.entries@[i].0@,
            forall|k: Seq<char>| self@.contains_key(k) <==> exists|i: int| 0 <= i < r@.len() && (#[trigger] r@[i])@ == k,
    {
        let mut r: Vec<String> = Vec::new();
        let mut i: usize = 0;
        while i < self.entries.len()
            invariant
                i <= self.entries@.len(),
                r@.len() == i,
                forall|j: int| 0 <= j < i ==> (#[trigger] r@[j])@ == self.entries@[j].0@,
            decreases self.entries@.len() - i,
        {
            r.push(self.entries[i].0.clone());
            i = i + 1;
        }
        proof {
            assert forall|k: Seq<char>| self@.contains_key(k) <==> exists|i: int| 0 <= i < r@.len() && (#[trigger] r@[i])@ == k by {
                if self@.contains_key(k) {
                    let c = choose|c: int| 0 <= c < self.entries@.len() && (#[trigger] self.entries@[c]).0@ == k;
                    assert(r@[c]@ == k);
                }
                if exists|i: int| 0 <= i < r@.len() && (#[trigger] r@[i])@ == k {
                    let c = choose|i: int| 0 <= i < r@.len() && (#[trigger] r@[i])@ == k;
                    lemma_pair_in_map(self.entries@, c);
                }
            }
        }
        r
    }
}

} // verus!
