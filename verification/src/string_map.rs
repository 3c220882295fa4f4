//! A map keyed by strings, kept as a list of entries with distinct keys.
use vstd::prelude::*;

verus! {

broadcast use vstd::string::group_string_axioms;

/// A map from strings to values.
pub struct StringMap<V> {
    entries: Vec<(String, V)>,
}

/// Some entry has key `k`.
pub open spec fn entry_has_key<V>(s: Seq<(String, V)>, k: Seq<char>) -> bool {
    exists|i: int| 0 <= i < s.len() && #[trigger] s[i].0@ == k
}

/// No two entries share a key.
pub open spec fn keys_distinct<V>(s: Seq<(String, V)>) -> bool {
    forall|i: int, j: int| 0 <= i < s.len() && 0 <= j < s.len() && i != j ==> #[trigger] s[i].0@ != #[trigger] s[j].0@
}

/// The map a list of entries with distinct keys stands for.
pub open spec fn entry_map<V: View>(s: Seq<(String, V)>) -> Map<Seq<char>, V::V> {
    Map::new(
        |k: Seq<char>| entry_has_key(s, k),
        |k: Seq<char>| s[choose|i: int| 0 <= i < s.len() && #[trigger] s[i].0@ == k].1@,
    )
}

proof fn lemma_entry_lookup<V: View>(s: Seq<(String, V)>, i: int)
    requires
        keys_distinct(s),
        0 <= i < s.len(),
    ensures
        entry_map(s).contains_key(s[i].0@),
        entry_map(s)[s[i].0@] == s[i].1@,
{
    assert(entry_has_key(s, s[i].0@));
    let j = choose|j: int| 0 <= j < s.len() && #[trigger] s[j].0@ == s[i].0@;
    assert(j == i);
}

impl<V: View> View for StringMap<V> {
    type V = Map<Seq<char>, V::V>;

    closed spec fn view(&self) -> Map<Seq<char>, V::V> {
        entry_map(self.entries@)
    }
}

impl<V> StringMap<V> {
    #[verifier::type_invariant]
    spec fn distinct(&self) -> bool {
        keys_distinct(self.entries@)
    }
}

impl<V: View> StringMap<V> {
    /// An empty map.
    pub fn new() -> (r: Self)
        ensures
            r@ == Map::<Seq<char>, V::V>::empty(),
    {
        let r = StringMap { entries: Vec::new() };
        assert(r@ =~= Map::<Seq<char>, V::V>::empty());
        r
    }

    /// The index of the entry with key `key`.
    fn index_of(&self, key: &String) -> (r: Option<usize>)
        ensures
            match r {
                Some(i) => i < self.entries@.len() && self.entries@[i as int].0@ == key@,
                None => !entry_has_key(self.entries@, key@),
            },
    {
        let mut i: usize = 0;
        while i < self.entries.len()
            invariant
                i <= self.entries@.len(),
                forall|j: int| 0 <= j < i ==> (#[trigger] self.entries@[j]).0@ != key@,
            decreases self.entries@.len() - i,
        {
            if self.entries[i].0 == *key {
                return Some(i);
            }
            i = i + 1;
        }
        None
    }

    /// The number of entries, for going through the map by index.
    pub closed spec fn count(&self) -> nat {
        self.entries@.len()
    }

    /// The number of entries.
    pub fn len(&self) -> (r: usize)
        ensures
            r == self.count(),
    {
        self.entries.len()
    }

    /// Whether `key` is in the map.
    pub fn contains_key(&self, key: &str) -> (r: bool)
        ensures
            r == self@.contains_key(key@),
    {
        let k = key.to_string();
        self.index_of(&k).is_some()
    }

    /// The value under `key`, if any.
    pub fn get(&self, key: &str) -> (r: Option<&V>)
        ensures
            match r {
                Some(v) => self@.contains_key(key@) && v@ == self@[key@],
                None => !self@.contains_key(key@),
            },
    {
        proof { use_type_invariant(self); }
        let k = key.to_string();
        match self.index_of(&k) {
            Some(i) => {
                proof { lemma_entry_lookup(self.entries@, i as int); }
                Some(&self.entries[i].1)
            },
            None => None,
        }
    }

    /// The key and value of the entry at `i`, for going through the map.
    pub fn entry_at(&self, i: usize) -> (r: (&String, &V))
        requires
            i < self.count(),
        ensures
            self@.contains_key(r.0@),
            self@[r.0@] == r.1@,
    {
        proof { use_type_invariant(self); }
        let e = &self.entries[i];
        proof { lemma_entry_lookup(self.entries@, i as int); }
        (&e.0, &e.1)
    }

    /// Sets the value under `key`.
    pub fn insert(&mut self, key: String, value: V)
        ensures
            final(self)@ == old(self)@.insert(key@, value@),
    {
        proof { use_type_invariant(&*self); }
        let ghost old_s = self.entries@;
        let mut entries: Vec<(String, V)> = Vec::new();
        std::mem::swap(&mut entries, &mut self.entries);
        match self.index_of_in(&entries, &key) {
            Some(i) => {
                entries.remove(i);
                let ghost mid = entries@;
                entries.push((key, value));
                proof {
                    assert(keys_distinct(entries@)) by {
                        assert forall|a: int, b: int|
                            0 <= a < entries@.len() && 0 <= b < entries@.len() && a != b implies #[trigger] entries@[a].0@
                            != #[trigger] entries@[b].0@ by {
                            if a < mid.len() && b < mid.len() {
                                let oa = if a < i { a } else { a + 1 };
                                let ob = if b < i { b } else { b + 1 };
                                assert(mid[a] == old_s[oa]);
                                assert(mid[b] == old_s[ob]);
                            } else if a < mid.len() {
                                let oa = if a < i { a } else { a + 1 };
                                assert(mid[a] == old_s[oa]);
                            } else if b < mid.len() {
                                let ob = if b < i { b } else { b + 1 };
                                assert(mid[b] == old_s[ob]);
                            }
                        }
                    }
                    assert forall|k: Seq<char>| #[trigger] entry_map(entries@).contains_key(k)
                        <==> entry_map(old_s).insert(key@, value@).contains_key(k) by {
                        if entry_has_key(old_s, k) && k != key@ {
                            let j = choose|j: int| 0 <= j < old_s.len() && #[trigger] old_s[j].0@ == k;
                            let nj = if j < i { j } else { j - 1 };
                            assert(entries@[nj] == old_s[j]);
                        }
                        if entry_has_key(entries@, k) {
                            let j = choose|j: int| 0 <= j < entries@.len() && #[trigger] entries@[j].0@ == k;
                            if j < mid.len() {
                                let oj = if j < i { j } else { j + 1 };
                                assert(old_s[oj] == mid[j]);
                            }
                        }
                        assert(entries@[mid.len() as int].0@ == key@);
                    }
                    assert forall|k: Seq<char>| #[trigger] entry_map(entries@).contains_key(k) implies entry_map(
                        entries@,
                    )[k] == entry_map(old_s).insert(key@, value@)[k] by {
                        let j = choose|j: int| 0 <= j < entries@.len() && #[trigger] entries@[j].0@ == k;
                        lemma_entry_lookup(entries@, j);
                        if j < mid.len() {
                            let oj = if j < i { j } else { j + 1 };
                            assert(old_s[oj] == mid[j]);
                            lemma_entry_lookup(old_s, oj);
                        }
                    }
                    assert(entry_map(entries@) =~= entry_map(old_s).insert(key@, value@));
                }
                self.entries = entries;
            },
            None => {
                entries.push((key, value));
                proof {
                    assert(keys_distinct(entries@)) by {
                        assert forall|a: int, b: int|
                            0 <= a < entries@.len() && 0 <= b < entries@.len() && a != b implies #[trigger] entries@[a].0@
                            != #[trigger] entries@[b].0@ by {
                            if a < old_s.len() && b < old_s.len() {
                                assert(entries@[a] == old_s[a]);
                                assert(entries@[b] == old_s[b]);
                            } else if a < old_s.len() {
                                assert(entries@[a] == old_s[a]);
                            } else if b < old_s.len() {
                                assert(entries@[b] == old_s[b]);
                            }
                        }
                    }
                    assert forall|k: Seq<char>| #[trigger] entry_map(entries@).contains_key(k)
                        <==> entry_map(old_s).insert(key@, value@).contains_key(k) by {
                        if entry_has_key(old_s, k) {
                            let j = choose|j: int| 0 <= j < old_s.len() && #[trigger] old_s[j].0@ == k;
                            assert(entries@[j] == old_s[j]);
                        }
                        if entry_has_key(entries@, k) {
                            let j = choose|j: int| 0 <= j < entries@.len() && #[trigger] entries@[j].0@ == k;
                            if j < old_s.len() {
                                assert(old_s[j] == entries@[j]);
                            }
                        }
                        assert(entries@[old_s.len() as int].0@ == key@);
                    }
                    assert forall|k: Seq<char>| #[trigger] entry_map(entries@).contains_key(k) implies entry_map(
                        entries@,
                    )[k] == entry_map(old_s).insert(key@, value@)[k] by {
                        let j = choose|j: int| 0 <= j < entries@.len() && #[trigger] entries@[j].0@ == k;
                        lemma_entry_lookup(entries@, j);
                        if j < old_s.len() {
                            assert(old_s[j] == entries@[j]);
                            lemma_entry_lookup(old_s, j);
                        }
                    }
                    assert(entry_map(entries@) =~= entry_map(old_s).insert(key@, value@));
                }
                self.entries = entries;
            },
        }
    }

    /// The index of the entry with key `key` in `entries`.
    fn index_of_in(&self, entries: &Vec<(String, V)>, key: &String) -> (r: Option<usize>)
        ensures
            match r {
                Some(i) => i < entries@.len() && entries@[i as int].0@ == key@,
                None => !entry_has_key(entries@, key@),
            },
    {
        let mut i: usize = 0;
        while i < entries.len()
            invariant
                i <= entries@.len(),
                forall|j: int| 0 <= j < i ==> (#[trigger] entries@[j]).0@ != key@,
            decreases entries@.len() - i,
        {
            if entries[i].0 == *key {
                return Some(i);
            }
            i = i + 1;
        }
        None
    }

    /// Removes the entry under `key` and gives back its value, if any.
    pub fn remove(&mut self, key: &str) -> (r: Option<V>)
        ensures
            final(self)@ == old(self)@.remove(key@),
            match r {
                Some(v) => old(self)@.contains_key(key@) && v@ == old(self)@[key@],
                None => !old(self)@.contains_key(key@),
            },
    {
        proof { use_type_invariant(&*self); }
        let ghost old_s = self.entries@;
        let k = key.to_string();
        let mut entries: Vec<(String, V)> = Vec::new();
        std::mem::swap(&mut entries, &mut self.entries);
        match self.index_of_in(&entries, &k) {
            Some(i) => {
                proof { lemma_entry_lookup(old_s, i as int); }
                let (_, v) = entries.remove(i);
                proof {
                    assert(keys_distinct(entries@)) by {
                        assert forall|a: int, b: int|
                            0 <= a < entries@.len() && 0 <= b < entries@.len() && a != b implies #[trigger] entries@[a].0@
                            != #[trigger] entries@[b].0@ by {
                            let oa = if a < i { a } else { a + 1 };
                            let ob = if b < i { b } else { b + 1 };
                            assert(entries@[a] == old_s[oa]);
                            assert(entries@[b] == old_s[ob]);
                        }
                    }
                    assert forall|kk: Seq<char>| #[trigger] entry_map(entries@).contains_key(kk)
                        <==> entry_map(old_s).remove(key@).contains_key(kk) by {
                        if entry_has_key(old_s, kk) && kk != key@ {
                            let j = choose|j: int| 0 <= j < old_s.len() && #[trigger] old_s[j].0@ == kk;
                            let nj = if j < i { j } else { j - 1 };
                            assert(entries@[nj] == old_s[j]);
                        }
                        if entry_has_key(entries@, kk) {
                            let j = choose|j: int| 0 <= j < entries@.len() && #[trigger] entries@[j].0@ == kk;
                            let oj = if j < i { j } else { j + 1 };
                            assert(old_s[oj] == entries@[j]);
                        }
                    }
                    assert forall|kk: Seq<char>| #[trigger] entry_map(entries@).contains_key(kk) implies entry_map(
                        entries@,
                    )[kk] == entry_map(old_s).remove(key@)[kk] by {
                        let j = choose|j: int| 0 <= j < entries@.len() && #[trigger] entries@[j].0@ == kk;
                        lemma_entry_lookup(entries@, j);
                        let oj = if j < i { j } else { j + 1 };
                        assert(old_s[oj] == entries@[j]);
                        lemma_entry_lookup(old_s, oj);
                    }
                    assert(entry_map(entries@) =~= entry_map(old_s).remove(key@));
                }
                self.entries = entries;
                Some(v)
            },
            None => {
                proof {
                    assert(entry_map(old_s).remove(key@) =~= entry_map(old_s));
                }
                self.entries = entries;
                None
            },
        }
    }
}

} // verus!
