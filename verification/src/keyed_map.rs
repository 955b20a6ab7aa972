//! A map from text keys to values, held as a list of entries with distinct keys.

use vstd::prelude::*;

use crate::ids::Cid;
use crate::text::same_text;

verus! {

/// Keys that are identified by their text.
pub trait MapKey: Sized {
    spec fn key_view(&self) -> Seq<char>;

    fn key_text(&self) -> (t: &str)
        ensures
            t@ == self.key_view(),
    ;
}

impl MapKey for String {
    open spec fn key_view(&self) -> Seq<char> {
        self@
    }

    fn key_text(&self) -> (t: &str) {
        self.as_str()
    }
}

impl MapKey for Cid {
    open spec fn key_view(&self) -> Seq<char> {
        self@
    }

    fn key_text(&self) -> (t: &str) {
        self.as_str()
    }
}

/// A finite map keyed by text. Entries keep the order in which their keys first came in.
#[derive(Debug)]
pub struct KeyedMap<K: MapKey, V> {
    entries: Vec<(K, V)>,
}

/// No two entries share a key.
pub open spec fn distinct_keys<K: MapKey, V>(s: Seq<(K, V)>) -> bool {
    forall|i: int, j: int|
        0 <= i < s.len() && 0 <= j < s.len() && i != j ==> s[i].0.key_view() != s[j].0.key_view()
}

/// Some entry has the key.
pub open spec fn has_key<K: MapKey, V>(s: Seq<(K, V)>, k: Seq<char>) -> bool {
    exists|i: int| 0 <= i < s.len() && #[trigger] s[i].0.key_view() == k
}

/// The map that a list of entries with distinct keys stands for.
pub open spec fn map_of<K: MapKey, V>(s: Seq<(K, V)>) -> Map<Seq<char>, V> {
    Map::new(
        |k: Seq<char>| has_key(s, k),
        |k: Seq<char>| s[choose|i: int| 0 <= i < s.len() && #[trigger] s[i].0.key_view() == k].1,
    )
}

/// With distinct keys, the map gives each entry's value to its key.
pub proof fn lemma_map_of_entry<K: MapKey, V>(s: Seq<(K, V)>, i: int)
    requires
        distinct_keys(s),
        0 <= i < s.len(),
    ensures
        map_of(s).contains_key(s[i].0.key_view()),
        map_of(s)[s[i].0.key_view()] == s[i].1,
{
    let k = s[i].0.key_view();
    assert(has_key(s, k));
    let j = choose|j: int| 0 <= j < s.len() && #[trigger] s[j].0.key_view() == k;
    assert(j == i);
}

impl<K: MapKey, V> KeyedMap<K, V> {
    #[verifier::type_invariant]
    spec fn inv(&self) -> bool {
        distinct_keys(self.entries@)
    }

    /// The entries, in order.
    pub closed spec fn pairs(&self) -> Seq<(K, V)> {
        self.entries@
    }

    /// The map the entries stand for.
    pub open spec fn view(&self) -> Map<Seq<char>, V> {
        map_of(self.pairs())
    }

    /// An empty map.
    pub fn new() -> (m: Self)
        ensures
            m@ == Map::<Seq<char>, V>::empty(),
            m.pairs().len() == 0,
    {
        let m = KeyedMap { entries: Vec::new() };
        assert(m@ =~= Map::<Seq<char>, V>::empty());
        m
    }

    /// The number of entries. The entries have distinct keys, each one holds what the map
    /// gives for its key, and every key of the map has an entry.
    pub fn len(&self) -> (n: usize)
        ensures
            n == self.pairs().len(),
            n == self@.len(),
            distinct_keys(self.pairs()),
            forall|i: int|
                0 <= i < self.pairs().len() ==> #[trigger] self@.contains_key(
                    self.pairs()[i].0.key_view(),
                ) && self@[self.pairs()[i].0.key_view()] == self.pairs()[i].1,
            forall|k: Seq<char>|
                #[trigger] self@.contains_key(k) ==> has_key(self.pairs(), k),
    {
        proof {
            use_type_invariant(self);
            self.lemma_len();
            assert forall|i: int| 0 <= i < self.pairs().len() implies #[trigger] self@.contains_key(
                self.pairs()[i].0.key_view(),
            ) && self@[self.pairs()[i].0.key_view()] == self.pairs()[i].1 by {
                lemma_map_of_entry(self.pairs(), i);
            }
        }
        self.entries.len()
    }

    proof fn lemma_len(&self)
        requires
            distinct_keys(self.pairs()),
        ensures
            self@.dom().finite(),
            self@.len() == self.pairs().len(),
    {
        let s = self.pairs();
        let keys = Seq::new(s.len(), |i: int| s[i].0.key_view());
        assert(self@.dom() =~= keys.to_set()) by {
            assert forall|k: Seq<char>| self@.dom().contains(k) implies keys.to_set().contains(k) by {
                let i = choose|i: int| 0 <= i < s.len() && #[trigger] s[i].0.key_view() == k;
                assert(keys[i] == k);
            }
            assert forall|k: Seq<char>| keys.to_set().contains(k) implies self@.dom().contains(k) by {
                let i = choose|i: int| 0 <= i < keys.len() && keys[i] == k;
                assert(s[i].0.key_view() == k);
            }
        }
        assert(keys.no_duplicates());
        keys.unique_seq_to_set();
    }

    /// The position of the entry with the key, if any.
    fn find(&self, key: &str) -> (r: Option<usize>)
        ensures
            match r {
                Some(i) => i < self.pairs().len() && self.pairs()[i as int].0.key_view() == key@,
                None => !has_key(self.pairs(), key@),
            },
    {
        let mut i: usize = 0;
        while i < self.entries.len()
            invariant
                i <= self.entries@.len(),
                forall|j: int| 0 <= j < i ==> self.entries@[j].0.key_view() != key@,
            decreases self.entries.len() - i,
        {
            if same_text(self.entries[i].0.key_text(), key) {
                return Some(i);
            }
            i += 1;
        }
        None
    }

    /// Whether the key has a value.
    pub fn contains_key(&self, key: &str) -> (b: bool)
        ensures
            b == self@.contains_key(key@),
    {
        self.find(key).is_some()
    }

    /// The value of the key, if any.
    pub fn get(&self, key: &str) -> (r: Option<&V>)
        ensures
            match r {
                Some(v) => self@.contains_key(key@) && self@[key@] == *v,
                None => !self@.contains_key(key@),
            },
    {
        proof {
            use_type_invariant(self);
        }
        match self.find(key) {
            Some(i) => {
                proof {
                    lemma_map_of_entry(self.entries@, i as int);
                }
                Some(&self.entries[i].1)
            },
            None => None,
        }
    }

    /// The entry at a position.
    pub fn entry_at(&self, i: usize) -> (r: (&K, &V))
        requires
            i < self.pairs().len(),
        ensures
            *r.0 == self.pairs()[i as int].0,
            *r.1 == self.pairs()[i as int].1,
    {
        let e = &self.entries[i];
        (&e.0, &e.1)
    }

    /// Sets the value of the key; a new key goes after the others, a known one keeps its place.
    pub fn insert(&mut self, key: K, value: V)
        ensures
            final(self)@ == old(self)@.insert(key.key_view(), value),
            has_key(old(self).pairs(), key.key_view()) ==> final(self).pairs().len() == old(self).pairs().len(),
            !has_key(old(self).pairs(), key.key_view()) ==> final(self).pairs() == old(self).pairs().push((key, value)),
    {
        proof {
            use_type_invariant(&*self);
        }
        let ghost old_s = self.entries@;
        let ghost k = key.key_view();
        match self.find(key.key_text()) {
            Some(i) => {
                let mut entries = Vec::new();
                std::mem::swap(&mut entries, &mut self.entries);
                entries.set(i, (key, value));
                self.entries = entries;
                proof {
                    let s = self.entries@;
                    assert(s =~= old_s.update(i as int, (key, value)));
                    assert forall|a: int, b: int|
                        0 <= a < s.len() && 0 <= b < s.len() && a != b implies s[a].0.key_view() != s[b].0.key_view() by {
                        if a != i && b != i {
                            assert(old_s[a] == s[a] && old_s[b] == s[b]);
                        } else if a == i {
                            assert(old_s[b] == s[b]);
                        } else {
                            assert(old_s[a] == s[a]);
                        }
                    }
                    assert(map_of(s) =~= map_of(old_s).insert(k, value)) by {
                        assert forall|q: Seq<char>| #[trigger] map_of(s).contains_key(q) <==> map_of(old_s).insert(k, value).contains_key(q) by {
                            if has_key(s, q) {
                                let j = choose|j: int| 0 <= j < s.len() && #[trigger] s[j].0.key_view() == q;
                                if j != i {
                                    assert(old_s[j].0.key_view() == q);
                                }
                            }
                            if has_key(old_s, q) {
                                let j = choose|j: int| 0 <= j < old_s.len() && #[trigger] old_s[j].0.key_view() == q;
                                if j != i {
                                    assert(s[j].0.key_view() == q);
                                } else {
                                    assert(s[i as int].0.key_view() == q);
                                }
                            }
                            if q == k {
                                assert(s[i as int].0.key_view() == q);
                            }
                        }
                        assert forall|q: Seq<char>| #[trigger] map_of(s).contains_key(q) implies map_of(s)[q] == map_of(old_s).insert(k, value)[q] by {
                            let j = choose|j: int| 0 <= j < s.len() && #[trigger] s[j].0.key_view() == q;
                            lemma_map_of_entry(s, j);
                            if j != i {
                                lemma_map_of_entry(old_s, j);
                            }
                        }
                    }
                }
            },
            None => {
                let mut entries = Vec::new();
                std::mem::swap(&mut entries, &mut self.entries);
                entries.push((key, value));
                self.entries = entries;
                proof {
                    let s = self.entries@;
                    assert(s =~= old_s.push((key, value)));
                    let n = old_s.len() as int;
                    assert forall|a: int, b: int|
                        0 <= a < s.len() && 0 <= b < s.len() && a != b implies s[a].0.key_view() != s[b].0.key_view() by {
                        if a != n && b != n {
                            assert(old_s[a] == s[a] && old_s[b] == s[b]);
                        } else if a == n {
                            assert(old_s[b] == s[b]);
                        } else {
                            assert(old_s[a] == s[a]);
                        }
                    }
                    assert(map_of(s) =~= map_of(old_s).insert(k, value)) by {
                        assert forall|q: Seq<char>| #[trigger] map_of(s).contains_key(q) <==> map_of(old_s).insert(k, value).contains_key(q) by {
                            if has_key(s, q) {
                                let j = choose|j: int| 0 <= j < s.len() && #[trigger] s[j].0.key_view() == q;
                                if j != n {
                                    assert(old_s[j].0.key_view() == q);
                                }
                            }
                            if has_key(old_s, q) {
                                let j = choose|j: int| 0 <= j < old_s.len() && #[trigger] old_s[j].0.key_view() == q;
                                assert(s[j].0.key_view() == q);
                            }
                            if q == k {
                                assert(s[n].0.key_view() == q);
                            }
                        }
                        assert forall|q: Seq<char>| #[trigger] map_of(s).contains_key(q) implies map_of(s)[q] == map_of(old_s).insert(k, value)[q] by {
                            let j = choose|j: int| 0 <= j < s.len() && #[trigger] s[j].0.key_view() == q;
                            lemma_map_of_entry(s, j);
                            if j != n {
                                lemma_map_of_entry(old_s, j);
                            }
                        }
                    }
                }
            },
        }
    }

    /// Takes the value of the key out of the map, if any.
    pub fn remove(&mut self, key: &str) -> (r: Option<V>)
        ensures
            final(self)@ == old(self)@.remove(key@),
            match r {
                Some(v) => old(self)@.contains_key(key@) && old(self)@[key@] == v,
                None => !old(self)@.contains_key(key@),
            },
    {
        proof {
            use_type_invariant(&*self);
        }
        let ghost old_s = self.entries@;
        match self.find(key) {
            Some(i) => {
                proof {
                    lemma_map_of_entry(old_s, i as int);
                }
                let mut entries = Vec::new();
                std::mem::swap(&mut entries, &mut self.entries);
                let (_k, v) = entries.remove(i);
                self.entries = entries;
                proof {
                    let s = self.entries@;
                    assert(s =~= old_s.remove(i as int));
                    assert forall|a: int, b: int|
                        0 <= a < s.len() && 0 <= b < s.len() && a != b implies s[a].0.key_view() != s[b].0.key_view() by {
                        let oa = if a < i { a } else { a + 1 };
                        let ob = if b < i { b } else { b + 1 };
                        assert(s[a] == old_s[oa] && s[b] == old_s[ob]);
                    }
                    assert(map_of(s) =~= map_of(old_s).remove(key@)) by {
                        assert forall|q: Seq<char>| #[trigger] map_of(s).contains_key(q) <==> map_of(old_s).remove(key@).contains_key(q) by {
                            if has_key(s, q) {
                                let j = choose|j: int| 0 <= j < s.len() && #[trigger] s[j].0.key_view() == q;
                                let oj = if j < i { j } else { j + 1 };
                                assert(old_s[oj].0.key_view() == q);
                                assert(oj != i);
                            }
                            if has_key(old_s, q) && q != key@ {
                                let j = choose|j: int| 0 <= j < old_s.len() && #[trigger] old_s[j].0.key_view() == q;
                                assert(j != i);
                                let nj = if j < i { j } else { j - 1 };
                                assert(s[nj].0.key_view() == q);
                            }
                        }
                        assert forall|q: Seq<char>| #[trigger] map_of(s).contains_key(q) implies map_of(s)[q] == map_of(old_s).remove(key@)[q] by {
                            let j = choose|j: int| 0 <= j < s.len() && #[trigger] s[j].0.key_view() == q;
                            lemma_map_of_entry(s, j);
                            let oj = if j < i { j } else { j + 1 };
                            assert(s[j] == old_s[oj]);
                            lemma_map_of_entry(old_s, oj);
                        }
                    }
                }
                Some(v)
            },
            None => {
                assert(map_of(old_s) =~= map_of(old_s).remove(key@));
                None
            },
        }
    }
}

} // verus!
