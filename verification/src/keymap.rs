//! A finite map from string keys to values, kept as a vector of entries with
//! pairwise distinct keys (insertion order is preserved).
use vstd::prelude::*;

verus! {

/// One key and the value stored under it.
#[derive(Debug, PartialEq, Eq)]
pub struct KeyEntry<V> {
    pub key: String,
    pub value: V,
}

impl<V: Clone> Clone for KeyEntry<V> {
    fn clone(&self) -> (res: Self)
        ensures
            res.key == self.key,
            cloned(self.value, res.value),
    {
        KeyEntry { key: self.key.clone(), value: self.value.clone() }
    }
}

/// A string-keyed map with at most one entry per key.
#[derive(Debug, PartialEq, Eq)]
pub struct KeyMap<V> {
    entries: Vec<KeyEntry<V>>,
}

/// The keys of a sequence of entries, as character sequences.
pub open spec fn entry_keys<V>(s: Seq<KeyEntry<V>>) -> Seq<Seq<char>> {
    s.map_values(|e: KeyEntry<V>| e.key@)
}

/// The map that a sequence of entries denotes: a later entry for a key
/// replaces an earlier one.
pub open spec fn entries_map<V>(s: Seq<KeyEntry<V>>) -> Map<Seq<char>, V>
    decreases s.len(),
{
    if s.len() == 0 {
        Map::empty()
    } else {
        entries_map(s.drop_last()).insert(s.last().key@, s.last().value)
    }
}

proof fn lemma_entries_map_dom<V>(s: Seq<KeyEntry<V>>)
    ensures
        entries_map(s).dom().finite(),
        forall|k: Seq<char>| #[trigger] entries_map(s).contains_key(k) <==> entry_keys(s).contains(k),
    decreases s.len(),
{
    if s.len() > 0 {
        lemma_entries_map_dom(s.drop_last());
        assert forall|k: Seq<char>| #[trigger] entries_map(s).contains_key(k) <==> entry_keys(s).contains(k) by {
            if entry_keys(s).contains(k) {
                let i = choose|i: int| 0 <= i < entry_keys(s).len() && entry_keys(s)[i] == k;
                if i < s.len() - 1 {
                    assert(entry_keys(s.drop_last())[i] == k);
                }
            }
            if entries_map(s).contains_key(k) && k != s.last().key@ {
                let j = choose|j: int| 0 <= j < entry_keys(s.drop_last()).len() && entry_keys(s.drop_last())[j] == k;
                assert(entry_keys(s)[j] == k);
            }
            if k == s.last().key@ {
                assert(entry_keys(s)[s.len() - 1] == k);
            }
        }
    }
}

proof fn lemma_entries_map_at<V>(s: Seq<KeyEntry<V>>, i: int)
    requires
        0 <= i < s.len(),
        entry_keys(s).no_duplicates(),
    ensures
        entries_map(s).contains_key(s[i].key@),
        entries_map(s)[s[i].key@] == s[i].value,
    decreases s.len(),
{
    if i < s.len() - 1 {
        assert(entry_keys(s.drop_last()).no_duplicates()) by {
            assert forall|a: int, b: int| 0 <= a < entry_keys(s.drop_last()).len() && 0 <= b < entry_keys(s.drop_last()).len() && a != b
                implies entry_keys(s.drop_last())[a] != entry_keys(s.drop_last())[b] by {
                assert(entry_keys(s)[a] != entry_keys(s)[b]);
            }
        }
        lemma_entries_map_at(s.drop_last(), i);
        assert(entry_keys(s)[i] != entry_keys(s)[s.len() - 1]);
        assert(s.drop_last()[i] == s[i]);
    }
}

impl<V> KeyMap<V> {
    #[verifier::type_invariant]
    closed spec fn inv(self) -> bool {
        entry_keys(self.entries@).no_duplicates()
    }

    /// The keys, in the order in which they were first inserted.
    pub closed spec fn keys(&self) -> Seq<Seq<char>> {
        entry_keys(self.entries@)
    }

    /// The values, in the order of `keys`.
    pub closed spec fn vals(&self) -> Seq<V> {
        self.entries@.map_values(|e: KeyEntry<V>| e.value)
    }

    /// An empty map.
    pub fn new() -> (m: Self)
        ensures
            m@ == Map::<Seq<char>, V>::empty(),
            m.keys() == Seq::<Seq<char>>::empty(),
    {
        let m = KeyMap { entries: Vec::new() };
        proof {
            assert(entries_map(m.entries@) == Map::<Seq<char>, V>::empty());
            assert(entry_keys(m.entries@) =~= Seq::<Seq<char>>::empty());
        }
        m
    }

    /// The number of entries; also states how the key sequence relates to the map.
    pub fn len(&self) -> (n: usize)
        ensures
            n == self.keys().len(),
            self.keys().len() == self.vals().len(),
            self.keys().no_duplicates(),
            self@.dom().finite(),
            self@.len() == n,
            forall|k: Seq<char>| #[trigger] self@.contains_key(k) <==> self.keys().contains(k),
            forall|i: int| 0 <= i < self.keys().len() ==> #[trigger] self@[self.keys()[i]] == self.vals()[i],
    {
        proof {
            use_type_invariant(self);
            lemma_entries_map_dom(self.entries@);
            assert forall|i: int| 0 <= i < self.keys().len() implies #[trigger] self@[self.keys()[i]] == self.vals()[i] by {
                lemma_entries_map_at(self.entries@, i);
            }
            entry_keys(self.entries@).unique_seq_to_set();
            assert(entry_keys(self.entries@).to_set() =~= self@.dom());
        }
        self.entries.len()
    }

    /// The key of the `i`-th entry.
    pub fn key_at(&self, i: usize) -> (k: &String)
        requires
            i < self.keys().len(),
        ensures
            k@ == self.keys()[i as int],
    {
        &self.entries[i].key
    }

    /// The value of the `i`-th entry.
    pub fn value_at(&self, i: usize) -> (v: &V)
        requires
            i < self.keys().len(),
        ensures
            *v == self.vals()[i as int],
            *v == self@[self.keys()[i as int]],
    {
        proof {
            use_type_invariant(self);
            lemma_entries_map_at(self.entries@, i as int);
        }
        &self.entries[i].value
    }

    /// The position of `key` among the entries, if it has one.
    fn find(&self, key: &str) -> (r: Option<usize>)
        ensures
            match r {
                Some(i) => i < self.entries@.len() && self.entries@[i as int].key@ == key@,
                None => !self.keys().contains(key@),
            },
    {
        let n = self.entries.len();
        let mut i: usize = 0;
        while i < n
            invariant
                n == self.entries@.len(),
                i <= n,
                forall|j: int| 0 <= j < i ==> self.entries@[j].key@ != key@,
            decreases n - i,
        {
            if crate::text::str_eq(self.entries[i].key.as_str(), key) {
                return Some(i);
            }
            i = i + 1;
        }
        proof {
            if self.keys().contains(key@) {
                let j = choose|j: int| 0 <= j < self.keys().len() && self.keys()[j] == key@;
                assert(self.entries@[j].key@ == key@);
            }
        }
        None
    }

    /// The value stored under `key`.
    pub fn get(&self, key: &str) -> (r: Option<&V>)
        ensures
            r is Some <==> self@.contains_key(key@),
            r is Some ==> *r->0 == self@[key@],
    {
        proof {
            use_type_invariant(self);
            lemma_entries_map_dom(self.entries@);
        }
        match self.find(key) {
            Some(i) => {
                proof {
                    lemma_entries_map_at(self.entries@, i as int);
                    assert(self.keys()[i as int] == key@);
                }
                Some(&self.entries[i].value)
            },
            None => None,
        }
    }

    /// Whether `key` has an entry.
    pub fn contains_key(&self, key: &str) -> (b: bool)
        ensures
            b == self@.contains_key(key@),
    {
        self.get(key).is_some()
    }

    /// Stores `value` under `key`, replacing an earlier value.
    pub fn insert(&mut self, key: String, value: V)
        ensures
            final(self)@ == old(self)@.insert(key@, value),
    {
        proof {
            use_type_invariant(&*self);
        }
        let found = self.find(key.as_str());
        match found {
            Some(i) => {
                let ghost old_entries = self.entries@;
                let mut entries = Vec::new();
                std::mem::swap(&mut entries, &mut self.entries);
                entries.set(i, KeyEntry { key, value });
                proof {
                    lemma_replace_entry(old_entries, i as int, entries@[i as int]);
                }
                self.entries = entries;
            },
            None => {
                let ghost old_entries = self.entries@;
                let mut entries = Vec::new();
                std::mem::swap(&mut entries, &mut self.entries);
                entries.push(KeyEntry { key, value });
                proof {
                    assert(entries@.drop_last() == old_entries);
                    assert(entry_keys(entries@) == entry_keys(old_entries).push(key@));
                    assert(entry_keys(entries@).no_duplicates()) by {
                        let ks = entry_keys(entries@);
                        assert forall|a: int, b: int| 0 <= a < ks.len() && 0 <= b < ks.len() && a != b
                            implies ks[a] != ks[b] by {
                            if a < ks.len() - 1 && b < ks.len() - 1 {
                                assert(entry_keys(old_entries)[a] != entry_keys(old_entries)[b]);
                            } else if a < ks.len() - 1 {
                                assert(entry_keys(old_entries).contains(ks[a]));
                            } else {
                                assert(entry_keys(old_entries).contains(ks[b]));
                            }
                        }
                    }
                }
                self.entries = entries;
            },
        }
    }

    /// Removes the entry for `key`, if there is one.
    pub fn remove(&mut self, key: &str)
        ensures
            final(self)@ == old(self)@.remove(key@),
    {
        proof {
            use_type_invariant(&*self);
            lemma_entries_map_dom(self.entries@);
        }
        match self.find(key) {
            Some(i) => {
                let ghost old_entries = self.entries@;
                let mut entries = Vec::new();
                std::mem::swap(&mut entries, &mut self.entries);
                entries.remove(i);
                proof {
                    lemma_remove_entry(old_entries, i as int);
                }
                self.entries = entries;
            },
            None => {
                proof {
                    assert(self@.remove(key@) =~= self@);
                }
            },
        }
    }
}

proof fn lemma_replace_entry<V>(s: Seq<KeyEntry<V>>, i: int, e: KeyEntry<V>)
    requires
        0 <= i < s.len(),
        entry_keys(s).no_duplicates(),
        s[i].key@ == e.key@,
    ensures
        entry_keys(s.update(i, e)).no_duplicates(),
        entry_keys(s.update(i, e)) == entry_keys(s),
        entries_map(s.update(i, e)) == entries_map(s).insert(e.key@, e.value),
{
    let t = s.update(i, e);
    assert(entry_keys(t) =~= entry_keys(s));
    lemma_entries_map_dom(s);
    lemma_entries_map_dom(t);
    let target = entries_map(s).insert(e.key@, e.value);
    assert(entry_keys(s)[i] == e.key@);
    assert forall|k: Seq<char>| entries_map(t).contains_key(k) <==> #[trigger] target.contains_key(k) by {
        if k == e.key@ {
            assert(entry_keys(t)[i] == k);
        }
    }
    assert forall|k: Seq<char>| #[trigger] entries_map(t).contains_key(k) implies entries_map(t)[k] == entries_map(s).insert(e.key@, e.value)[k] by {
        let j = choose|j: int| 0 <= j < entry_keys(t).len() && entry_keys(t)[j] == k;
        lemma_entries_map_at(t, j);
        if j != i {
            lemma_entries_map_at(s, j);
            assert(entry_keys(s)[j] != entry_keys(s)[i]);
        }
    }
    assert(entries_map(t) =~= entries_map(s).insert(e.key@, e.value));
}

proof fn lemma_remove_entry<V>(s: Seq<KeyEntry<V>>, i: int)
    requires
        0 <= i < s.len(),
        entry_keys(s).no_duplicates(),
    ensures
        entry_keys(s.remove(i)).no_duplicates(),
        entries_map(s.remove(i)) == entries_map(s).remove(s[i].key@),
{
    let t = s.remove(i);
    let ks = entry_keys(s);
    let kt = entry_keys(t);
    assert(kt =~= ks.remove(i));
    assert(kt.no_duplicates()) by {
        assert forall|a: int, b: int| 0 <= a < kt.len() && 0 <= b < kt.len() && a != b implies kt[a] != kt[b] by {
            let a2 = if a < i { a } else { a + 1 };
            let b2 = if b < i { b } else { b + 1 };
            assert(kt[a] == ks[a2]);
            assert(kt[b] == ks[b2]);
        }
    }
    lemma_entries_map_dom(s);
    lemma_entries_map_dom(t);
    let target = entries_map(s).remove(s[i].key@);
    assert forall|k: Seq<char>| entries_map(t).contains_key(k) <==> #[trigger] target.contains_key(k) by {
        if kt.contains(k) {
            let j = choose|j: int| 0 <= j < kt.len() && kt[j] == k;
            let j2 = if j < i { j } else { j + 1 };
            assert(ks[j2] == k);
            assert(ks.contains(k));
            assert(ks[j2] != ks[i]);
            assert(entries_map(s).contains_key(k));
        }
        if target.contains_key(k) {
            let j = choose|j: int| 0 <= j < ks.len() && ks[j] == k;
            assert(j != i);
            let j2 = if j < i { j } else { j - 1 };
            assert(kt[j2] == k);
        }
    }
    assert forall|k: Seq<char>| #[trigger] entries_map(t).contains_key(k) implies entries_map(t)[k] == target[k] by {
        let j = choose|j: int| 0 <= j < kt.len() && kt[j] == k;
        let j2 = if j < i { j } else { j + 1 };
        assert(t[j] == s[j2]);
        assert(ks[j2] != ks[i]);
        lemma_entries_map_at(t, j);
        lemma_entries_map_at(s, j2);
    }
    assert(entries_map(t) =~= target);
}

impl<V> View for KeyMap<V> {
    type V = Map<Seq<char>, V>;

    closed spec fn view(&self) -> Map<Seq<char>, V> {
        entries_map(self.entries@)
    }
}

impl<V: Clone> Clone for KeyMap<V> {
    fn clone(&self) -> (res: Self)
        ensures
            res.keys() == self.keys(),
            res.vals().len() == self.vals().len(),
            forall|i: int| 0 <= i < self.vals().len() ==> cloned(#[trigger] self.vals()[i], res.vals()[i]),
            forall|k: Seq<char>| #[trigger] res@.contains_key(k) <==> self@.contains_key(k),
            forall|k: Seq<char>| #[trigger] res@.contains_key(k) ==> cloned(self@[k], res@[k]),
    {
        proof {
            use_type_invariant(self);
        }
        let n = self.entries.len();
        let mut entries: Vec<KeyEntry<V>> = Vec::new();
        let mut i: usize = 0;
        while i < n
            invariant
                n == self.entries@.len(),
                i <= n,
                entries@.len() == i,
                forall|j: int| 0 <= j < i ==> (#[trigger] entries@[j]).key@ == self.entries@[j].key@,
                forall|j: int| 0 <= j < i ==> cloned(self.entries@[j].value, #[trigger] entries@[j].value),
            decreases n - i,
        {
            let e = self.entries[i].clone();
            entries.push(e);
            i = i + 1;
        }
        proof {
            assert(entry_keys(entries@) =~= entry_keys(self.entries@));
        }
        let res = KeyMap { entries };
        proof {
            lemma_entries_map_dom(res.entries@);
            lemma_entries_map_dom(self.entries@);
            assert forall|k: Seq<char>| #[trigger] res@.contains_key(k) implies cloned(self@[k], res@[k]) by {
                let j = choose|j: int| 0 <= j < entry_keys(res.entries@).len() && entry_keys(res.entries@)[j] == k;
                lemma_entries_map_at(res.entries@, j);
                lemma_entries_map_at(self.entries@, j);
            }
        }
        res
    }
}

} // verus!
