//! A small map from names to values, kept in insertion order.

use vstd::prelude::*;

verus! {

/// A map from names to values. A name occurs at most once.
#[derive(Debug)]
pub struct KeyedList<V> {
    entries: Vec<(String, V)>,
}

/// The names of `e` are pairwise distinct.
pub open spec fn names_unique<V>(e: Seq<(String, V)>) -> bool {
    forall|i: int, j: int| 0 <= i < j < e.len() ==> e[i].0@ != e[j].0@
}

/// `k` is the name of an entry of `e`.
pub open spec fn has_name<V>(e: Seq<(String, V)>, k: Seq<char>) -> bool {
    exists|i: int| 0 <= i < e.len() && #[trigger] e[i].0@ == k
}

/// The map that the entries `e` stand for.
pub open spec fn entries_map<V>(e: Seq<(String, V)>) -> Map<Seq<char>, V> {
    Map::new(
        |k: Seq<char>| has_name(e, k),
        |k: Seq<char>| e[choose|i: int| 0 <= i < e.len() && #[trigger] e[i].0@ == k].1,
    )
}

impl<V> View for KeyedList<V> {
    type V = Map<Seq<char>, V>;

    closed spec fn view(&self) -> Map<Seq<char>, V> {
        entries_map(self.entries@)
    }
}

proof fn lemma_entries_map_at<V>(e: Seq<(String, V)>, i: int)
    requires
        names_unique(e),
        0 <= i < e.len(),
    ensures
        entries_map(e).contains_key(e[i].0@),
        entries_map(e)[e[i].0@] == e[i].1,
{
    let k = e[i].0@;
    assert(has_name(e, k));
    let c = choose|c: int| 0 <= c < e.len() && #[trigger] e[c].0@ == k;
    assert(c == i);
}

impl<V> KeyedList<V> {
    #[verifier::type_invariant]
    spec fn inv(self) -> bool {
        names_unique(self.entries@)
    }

    /// An empty map.
    pub fn new() -> (m: Self)
        ensures
            m@ == Map::<Seq<char>, V>::empty(),
    {
        let m = KeyedList { entries: Vec::new() };
        assert(entries_map(m.entries@) =~= Map::<Seq<char>, V>::empty());
        m
    }

    /// Number of names.
    pub fn len(&self) -> (n: usize)
        ensures
            n == self@.dom().len(),
    {
        proof {
            use_type_invariant(self);
            self.lemma_dom_len();
        }
        self.entries.len()
    }

    proof fn lemma_dom_len(&self)
        requires
            names_unique(self.entries@),
        ensures
            self@.dom().len() == self.entries@.len(),
            self@.dom().finite(),
    {
        let e = self.entries@;
        let names = e.map_values(|p: (String, V)| p.0@);
        assert(names.no_duplicates()) by {
            assert forall|i: int, j: int| 0 <= i < names.len() && 0 <= j < names.len() && i != j implies names[i] != names[j] by {
                if i < j {
                } else {
                }
            }
        }
        names.unique_seq_to_set();
        assert(self@.dom() =~= names.to_set()) by {
            assert forall|k: Seq<char>| self@.dom().contains(k) implies names.to_set().contains(k) by {
                let i = choose|i: int| 0 <= i < e.len() && #[trigger] e[i].0@ == k;
                assert(names[i] == k);
            }
            assert forall|k: Seq<char>| names.to_set().contains(k) implies self@.dom().contains(k) by {
                let i = choose|i: int| 0 <= i < names.len() && names[i] == k;
                assert(e[i].0@ == k);
            }
        }
    }

    /// Index of the entry named `key`, if any.
    fn find(&self, key: &String) -> (r: Option<usize>)
        ensures
            r matches Some(i) ==> i < self.entries@.len() && self.entries@[i as int].0@ == key@,
            r is None ==> !has_name(self.entries@, key@),
    {
        let mut i: usize = 0;
        while i < self.entries.len()
            invariant
                i <= self.entries@.len(),
                forall|j: int| 0 <= j < i ==> self.entries@[j].0@ != key@,
            decreases self.entries@.len() - i,
        {
            if self.entries[i].0 == *key {
                return Some(i);
            }
            i = i + 1;
        }
        None
    }

    /// The value of `key`, if it has one.
    pub fn get(&self, key: &str) -> (r: Option<&V>)
        ensures
            r matches Some(v) ==> self@.contains_key(key@) && *v == self@[key@],
            r is None ==> !self@.contains_key(key@),
    {
        proof {
            use_type_invariant(self);
        }
        let k = key.to_owned();
        match self.find(&k) {
            Some(i) => {
                proof {
                    lemma_entries_map_at(self.entries@, i as int);
                }
                Some(&self.entries[i].1)
            },
            None => None,
        }
    }

    /// Sets the value of `key` to `value`, in place of any it had.
    pub fn insert(&mut self, key: String, value: V)
        ensures
            final(self)@ == old(self)@.insert(key@, value),
    {
        proof {
            use_type_invariant(&*self);
        }
        let ghost k = key@;
        let ghost e0 = self.entries@;
        match self.find(&key) {
            Some(i) => {
                let mut entries = Vec::new();
                std::mem::swap(&mut entries, &mut self.entries);
                entries.set(i, (key, value));
                let ghost e1 = entries@;
                assert(names_unique(e1)) by {
                    assert forall|a: int, b: int| 0 <= a < b < e1.len() implies e1[a].0@ != e1[b].0@ by {
                        if a == i as int {
                            assert(e1[a].0@ == e0[a].0@);
                        } else if b == i as int {
                            assert(e1[b].0@ == e0[b].0@);
                        }
                    }
                }
                proof {
                    assert(entries_map(e1) =~= entries_map(e0).insert(k, value)) by {
                        assert forall|kk: Seq<char>| #[trigger] entries_map(e1).contains_key(kk) <==> entries_map(e0).insert(k, value).contains_key(kk) by {
                            if has_name(e1, kk) {
                                let c = choose|c: int| 0 <= c < e1.len() && #[trigger] e1[c].0@ == kk;
                                if c != i as int {
                                    assert(e0[c].0@ == kk);
                                }
                            }
                            if has_name(e0, kk) {
                                let c = choose|c: int| 0 <= c < e0.len() && #[trigger] e0[c].0@ == kk;
                                assert(e1[c].0@ == kk);
                            }
                            if kk == k {
                                assert(e1[i as int].0@ == kk);
                            }
                        }
                        assert forall|kk: Seq<char>| #[trigger] entries_map(e1).contains_key(kk) implies entries_map(e1)[kk] == entries_map(e0).insert(k, value)[kk] by {
                            let c = choose|c: int| 0 <= c < e1.len() && #[trigger] e1[c].0@ == kk;
                            lemma_entries_map_at(e1, c);
                            if c != i as int {
                                assert(e0[c].0@ == kk);
                                lemma_entries_map_at(e0, c);
                            }
                        }
                    }
                }
                self.entries = entries;
            },
            None => {
                let mut entries = Vec::new();
                std::mem::swap(&mut entries, &mut self.entries);
                entries.push((key, value));
                let ghost e1 = entries@;
                assert(names_unique(e1)) by {
                    assert forall|a: int, b: int| 0 <= a < b < e1.len() implies e1[a].0@ != e1[b].0@ by {
                        if b == e0.len() {
                            assert(e1[a].0@ == e0[a].0@);
                            assert(e1[b].0@ == k);
                        }
                    }
                }
                proof {
                    assert(entries_map(e1) =~= entries_map(e0).insert(k, value)) by {
                        assert forall|kk: Seq<char>| #[trigger] entries_map(e1).contains_key(kk) <==> entries_map(e0).insert(k, value).contains_key(kk) by {
                            if has_name(e1, kk) {
                                let c = choose|c: int| 0 <= c < e1.len() && #[trigger] e1[c].0@ == kk;
                                if c < e0.len() {
                                    assert(e0[c].0@ == kk);
                                }
                            }
                            if has_name(e0, kk) {
                                let c = choose|c: int| 0 <= c < e0.len() && #[trigger] e0[c].0@ == kk;
                                assert(e1[c].0@ == kk);
                            }
                            if kk == k {
                                assert(e1[e0.len() as int].0@ == kk);
                            }
                        }
                        assert forall|kk: Seq<char>| #[trigger] entries_map(e1).contains_key(kk) implies entries_map(e1)[kk] == entries_map(e0).insert(k, value)[kk] by {
                            let c = choose|c: int| 0 <= c < e1.len() && #[trigger] e1[c].0@ == kk;
                            lemma_entries_map_at(e1, c);
                            if c < e0.len() {
                                assert(e0[c].0@ == kk);
                                lemma_entries_map_at(e0, c);
                            }
                        }
                    }
                }
                self.entries = entries;
            },
        }
    }

    /// The name and value of entry `i`, for walking the map in insertion order.
    pub fn entry(&self, i: usize) -> (r: (&String, &V))
        requires
            i < self@.dom().len(),
        ensures
            self@.contains_key(r.0@),
            self@[r.0@] == *r.1,
    {
        proof {
            use_type_invariant(self);
            self.lemma_dom_len();
            lemma_entries_map_at(self.entries@, i as int);
        }
        (&self.entries[i].0, &self.entries[i].1)
    }
}

proof fn lemma_entries_map_push<V>(e: Seq<(String, V)>, k: String, v: V)
    requires
        names_unique(e.push((k, v))),
    ensures
        entries_map(e.push((k, v))) == entries_map(e).insert(k@, v),
{
    let e1 = e.push((k, v));
    assert(names_unique(e)) by {
        assert forall|a: int, b: int| 0 <= a < b < e.len() implies e[a].0@ != e[b].0@ by {
            assert(e1[a] == e[a] && e1[b] == e[b]);
        }
    }
    assert forall|kk: Seq<char>| #[trigger] entries_map(e1).contains_key(kk) <==> entries_map(
        e,
    ).insert(k@, v).contains_key(kk) by {
        if has_name(e1, kk) {
            let c = choose|c: int| 0 <= c < e1.len() && #[trigger] e1[c].0@ == kk;
            if c < e.len() {
                assert(e[c].0@ == kk);
            }
        }
        if has_name(e, kk) {
            let c = choose|c: int| 0 <= c < e.len() && #[trigger] e[c].0@ == kk;
            assert(e1[c].0@ == kk);
        }
        if kk == k@ {
            assert(e1[e.len() as int].0@ == kk);
        }
    }
    assert forall|kk: Seq<char>| #[trigger] entries_map(e1).contains_key(kk) implies entries_map(
        e1,
    )[kk] == entries_map(e).insert(k@, v)[kk] by {
        let c = choose|c: int| 0 <= c < e1.len() && #[trigger] e1[c].0@ == kk;
        lemma_entries_map_at(e1, c);
        if c < e.len() {
            assert(e[c].0@ == kk);
            assert(e1[c].0@ != e1[e.len() as int].0@);
            assert(kk != k@);
            lemma_entries_map_at(e, c);
        } else {
            assert(e1[c] == (k, v));
        }
    }
    assert(entries_map(e1) =~= entries_map(e).insert(k@, v));
}

impl KeyedList<String> {
    /// Sets each name of `other` to its value there, in place of any value
    /// it had here.
    pub fn set_all(&mut self, other: &KeyedList<String>)
        ensures
            final(self)@ == old(self)@.union_prefer_right(other@),
    {
        proof {
            use_type_invariant(other);
        }
        let ghost start = self@;
        let ghost oe = other.entries@;
        let mut i: usize = 0;
        assert(entries_map(oe.subrange(0, 0)) =~= Map::<Seq<char>, String>::empty());
        assert(start.union_prefer_right(Map::<Seq<char>, String>::empty()) =~= start);
        while i < other.entries.len()
            invariant
                i <= oe.len(),
                oe == other.entries@,
                names_unique(oe),
                self@ == start.union_prefer_right(entries_map(oe.subrange(0, i as int))),
            decreases oe.len() - i,
        {
            let k = other.entries[i].0.clone();
            let v = other.entries[i].1.clone();
            proof {
                let pre = oe.subrange(0, i as int);
                assert(oe.subrange(0, i as int + 1) =~= pre.push((k, v)));
                assert(names_unique(pre.push((k, v)))) by {
                    let e1 = pre.push((k, v));
                    assert forall|a: int, b: int| 0 <= a < b < e1.len() implies e1[a].0@ != e1[b].0@ by {
                        assert(e1[a] == oe[a] && e1[b] == oe[b]);
                    }
                }
                lemma_entries_map_push(pre, k, v);
                assert(start.union_prefer_right(entries_map(pre).insert(k@, v)) =~= start.union_prefer_right(
                    entries_map(pre),
                ).insert(k@, v));
            }
            self.insert(k, v);
            i = i + 1;
        }
        assert(oe.subrange(0, oe.len() as int) =~= oe);
    }

    /// A copy of the map.
    pub fn duplicate(&self) -> (m: KeyedList<String>)
        ensures
            m@ == self@,
    {
        let mut m = KeyedList::new();
        m.set_all(self);
        assert(Map::<Seq<char>, String>::empty().union_prefer_right(self@) =~= self@);
        m
    }
}

} // verus!
