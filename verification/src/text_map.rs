//! A small map from texts to values, kept in the order of first insertion.

use vstd::prelude::*;
use crate::util::text_eq;

verus! {

/// No two entries of the list carry the same key.
pub open spec fn distinct_keys<V>(s: Seq<(String, V)>) -> bool {
    forall|i: int, j: int| 0 <= i < s.len() && 0 <= j < s.len() && i != j ==> s[i].0@ != s[j].0@
}

/// Whether some entry of the list carries the key.
pub open spec fn has_key<V>(s: Seq<(String, V)>, key: Seq<char>) -> bool {
    exists|i: int| 0 <= i < s.len() && #[trigger] s[i].0@ == key
}

/// The place of an entry that carries the key.
pub open spec fn place_of<V>(s: Seq<(String, V)>, key: Seq<char>) -> int {
    choose|i: int| 0 <= i < s.len() && #[trigger] s[i].0@ == key
}

/// The map that a list of entries stands for.
pub open spec fn entries_map<V: View>(s: Seq<(String, V)>) -> Map<Seq<char>, V::V> {
    Map::new(|key: Seq<char>| has_key(s, key), |key: Seq<char>| s[place_of(s, key)].1@)
}

/// The keys of a list of entries, in its order.
pub open spec fn entry_keys<V>(s: Seq<(String, V)>) -> Seq<Seq<char>> {
    s.map_values(|e: (String, V)| e.0@)
}

/// In a list without repeated keys, each entry is the one its key maps to.
pub proof fn lemma_entries_map_at<V: View>(s: Seq<(String, V)>, i: int)
    requires
        distinct_keys(s),
        0 <= i < s.len(),
    ensures
        entries_map(s).contains_key(s[i].0@),
        entries_map(s)[s[i].0@] == s[i].1@,
        place_of(s, s[i].0@) == i,
{
    let key = s[i].0@;
    assert(has_key(s, key));
    let j = place_of(s, key);
    assert(0 <= j < s.len() && s[j].0@ == key);
}

/// A map that agrees with a list of entries, place by place and key by key,
/// is the map the list stands for.
pub proof fn lemma_entries_map_is<V: View>(s: Seq<(String, V)>, m: Map<Seq<char>, V::V>)
    requires
        distinct_keys(s),
        forall|i: int| #![trigger s[i]] 0 <= i < s.len() ==> m.contains_key(s[i].0@) && m[s[i].0@] == s[i].1@,
        forall|key: Seq<char>| #[trigger] m.contains_key(key) ==> has_key(s, key),
    ensures
        entries_map(s) == m,
{
    assert forall|key: Seq<char>| #[trigger] entries_map(s).contains_key(key) implies m.contains_key(
        key,
    ) && entries_map(s)[key] == m[key] by {
        let j = place_of(s, key);
        assert(0 <= j < s.len() && s[j].0@ == key);
    }
    assert(entries_map(s) =~= m);
}

/// A list without repeated keys stands for a finite map with as many keys
/// as the list has entries, and the keys of the list are the keys of the
/// map.
pub proof fn lemma_entries_map_len<V: View>(s: Seq<(String, V)>)
    requires
        distinct_keys(s),
    ensures
        entries_map(s).dom().finite(),
        entries_map(s).len() == s.len(),
        forall|key: Seq<char>| entries_map(s).contains_key(key) <==> entry_keys(s).contains(key),
        entry_keys(s).no_duplicates(),
    decreases s.len(),
{
    assert forall|key: Seq<char>| entries_map(s).contains_key(key) <==> entry_keys(s).contains(
        key,
    ) by {
        if entries_map(s).contains_key(key) {
            let j = place_of(s, key);
            assert(entry_keys(s)[j] == key);
        }
        if entry_keys(s).contains(key) {
            let j = choose|j: int| 0 <= j < entry_keys(s).len() && entry_keys(s)[j] == key;
            assert(s[j].0@ == key);
        }
    }
    assert(entry_keys(s).no_duplicates()) by {
        assert forall|i: int, j: int|
            0 <= i < entry_keys(s).len() && 0 <= j < entry_keys(s).len() && i != j implies entry_keys(
            s,
        )[i] != entry_keys(s)[j] by {
            assert(entry_keys(s)[i] == s[i].0@);
            assert(entry_keys(s)[j] == s[j].0@);
        }
    }
    if s.len() == 0 {
        assert(entries_map(s).dom() =~= Set::<Seq<char>>::empty());
    } else {
        let front = s.drop_last();
        let key = s.last().0@;
        lemma_entries_map_len(front);
        assert(!has_key(front, key)) by {
            if has_key(front, key) {
                let j = place_of(front, key);
                assert(s[j].0@ == key);
            }
        }
        assert(entries_map(s).dom() =~= entries_map(front).dom().insert(key)) by {
            assert forall|k: Seq<char>| entries_map(s).dom().contains(k) <==> entries_map(
                front,
            ).dom().insert(key).contains(k) by {
                if has_key(s, k) && k != key {
                    let j = place_of(s, k);
                    assert(front[j].0@ == k);
                }
                if has_key(front, k) {
                    let j = place_of(front, k);
                    assert(s[j].0@ == k);
                }
                if k == key {
                    assert(s[s.len() - 1].0@ == k);
                }
            }
        }
    }
}

/// A map from texts to values.
#[derive(Debug, PartialEq, Eq)]
pub struct TextMap<V> {
    entries: Vec<(String, V)>,
}

impl<V: View> View for TextMap<V> {
    type V = Map<Seq<char>, V::V>;

    closed spec fn view(&self) -> Map<Seq<char>, V::V> {
        entries_map(self.entries@)
    }
}

impl<V> TextMap<V> {
    #[verifier::type_invariant]
    closed spec fn well_formed(&self) -> bool {
        distinct_keys(self.entries@)
    }

    /// The keys in the order in which they were first inserted.
    pub closed spec fn keys(&self) -> Seq<Seq<char>> {
        entry_keys(self.entries@)
    }
}

impl<V: View> TextMap<V> {

    /// A map without entries.
    pub fn new() -> (m: Self)
        ensures
            m@ == Map::<Seq<char>, V::V>::empty(),
            m.keys() == Seq::<Seq<char>>::empty(),
    {
        let m = TextMap { entries: Vec::new() };
        assert(m@ =~= Map::<Seq<char>, V::V>::empty());
        assert(m.keys() =~= Seq::<Seq<char>>::empty());
        m
    }

    /// How many entries the map has. The keys in the order of first
    /// insertion are the keys of the map, each once.
    pub fn len(&self) -> (n: usize)
        ensures
            n == self.keys().len(),
            self@.dom().finite(),
            n == self@.len(),
            self.keys().no_duplicates(),
            forall|key: Seq<char>| self@.contains_key(key) <==> self.keys().contains(key),
    {
        proof {
            use_type_invariant(self);
            lemma_entries_map_len(self.entries@);
        }
        self.entries.len()
    }

    /// The place of the entry with the key, if there is one.
    fn position(&self, key: &String) -> (at: Option<usize>)
        ensures
            at is Some <==> has_key(self.entries@, key@),
            at is Some ==> at.unwrap() < self.entries@.len() && self.entries@[at.unwrap() as int].0@
                == key@,
    {
        let mut i: usize = 0;
        while i < self.entries.len()
            invariant
                0 <= i <= self.entries.len(),
                forall|k: int| 0 <= k < i ==> self.entries@[k].0@ != key@,
            decreases self.entries.len() - i,
        {
            if text_eq(&self.entries[i].0, key) {
                return Some(i);
            }
            i += 1;
        }
        None
    }

    /// The value under the key, if the map has the key.
    pub fn get(&self, key: &String) -> (value: Option<&V>)
        ensures
            value is Some <==> self@.contains_key(key@),
            value is Some ==> value.unwrap()@ == self@[key@],
    {
        proof {
            use_type_invariant(self);
        }
        match self.position(key) {
            Some(i) => {
                proof {
                    lemma_entries_map_at(self.entries@, i as int);
                }
                Some(&self.entries[i].1)
            },
            None => None,
        }
    }

    /// Whether the map has the key.
    pub fn contains_key(&self, key: &String) -> (has: bool)
        ensures
            has == self@.contains_key(key@),
    {
        self.position(key).is_some()
    }

    /// The key at a place of the order of first insertion.
    pub fn key_at(&self, i: usize) -> (key: &String)
        requires
            i < self.keys().len(),
        ensures
            key@ == self.keys()[i as int],
            self@.contains_key(key@),
    {
        proof {
            use_type_invariant(self);
            lemma_entries_map_at(self.entries@, i as int);
        }
        &self.entries[i].0
    }

    /// The value at a place of the order of first insertion.
    pub fn value_at(&self, i: usize) -> (value: &V)
        requires
            i < self.keys().len(),
        ensures
            value@ == self@[self.keys()[i as int]],
    {
        proof {
            use_type_invariant(self);
            lemma_entries_map_at(self.entries@, i as int);
        }
        &self.entries[i].1
    }

    /// The map with the value under the key: a key already there keeps its
    /// place and gets the value, a new key goes to the end.
    pub fn insert(self, key: String, value: V) -> (m: Self)
        ensures
            m@ == self@.insert(key@, value@),
            self@.contains_key(key@) ==> m.keys() == self.keys(),
            !self@.contains_key(key@) ==> m.keys() == self.keys().push(key@),
    {
        proof {
            use_type_invariant(&self);
        }
        let at = self.position(&key);
        let ghost before = self.entries@;
        let ghost wanted = self@.insert(key@, value@);
        let mut entries = self.entries;
        match at {
            Some(i) => {
                entries.set(i, (key, value));
            },
            None => {
                entries.push((key, value));
            },
        }
        proof {
            assert forall|i: int| #![trigger entries@[i]] 0 <= i < entries@.len() implies wanted.contains_key(
                entries@[i].0@,
            ) && wanted[entries@[i].0@] == entries@[i].1@ by {
                if i < before.len() {
                    lemma_entries_map_at(before, i);
                }
            }
            assert forall|k: Seq<char>| #[trigger] wanted.contains_key(k) implies has_key(
                entries@,
                k,
            ) by {
                if k == key@ {
                    let j = if at is Some { at.unwrap() as int } else { before.len() as int };
                    assert(entries@[j].0@ == k);
                } else {
                    let j = place_of(before, k);
                    assert(entries@[j].0@ == k);
                }
            }
            lemma_entries_map_is(entries@, wanted);
            if at is Some {
                assert(entry_keys(entries@) =~= entry_keys(before));
            } else {
                assert(entry_keys(entries@) =~= entry_keys(before).push(key@));
            }
        }
        TextMap { entries }
    }

    /// The map without the key; the other keys keep their order.
    pub fn remove(self, key: &String) -> (m: Self)
        ensures
            m@ == self@.remove(key@),
            m.keys() == without_text(self.keys(), key@),
    {
        proof {
            use_type_invariant(&self);
        }
        let at = self.position(key);
        let ghost before = self.entries@;
        let ghost wanted = self@.remove(key@);
        let mut entries = self.entries;
        match at {
            Some(i) => {
                entries.remove(i);
                proof {
                    assert forall|a: int| #![trigger entries@[a]] 0 <= a < entries@.len() implies wanted.contains_key(
                        entries@[a].0@,
                    ) && wanted[entries@[a].0@] == entries@[a].1@ by {
                        let b = if a < i { a } else { a + 1 };
                        assert(entries@[a] == before[b]);
                        lemma_entries_map_at(before, b);
                    }
                    assert forall|k: Seq<char>| #[trigger] wanted.contains_key(k) implies has_key(
                        entries@,
                        k,
                    ) by {
                        let j = place_of(before, k);
                        assert(0 <= j < before.len() && before[j].0@ == k);
                        let a = if j < i { j } else { j - 1 };
                        assert(entries@[a].0@ == k);
                    }
                    assert(distinct_keys(entries@)) by {
                        assert forall|a: int, b: int|
                            0 <= a < entries@.len() && 0 <= b < entries@.len() && a != b implies entries@[a].0@
                            != entries@[b].0@ by {
                            let a2 = if a < i { a } else { a + 1 };
                            let b2 = if b < i { b } else { b + 1 };
                            assert(entries@[a] == before[a2]);
                            assert(entries@[b] == before[b2]);
                        }
                    }
                    lemma_entries_map_is(entries@, wanted);
                    lemma_filter_out_one(entry_keys(before), i as int, key@);
                    assert(entry_keys(entries@) =~= entry_keys(before).remove(i as int));
                }
            },
            None => {
                proof {
                    assert(wanted =~= entries_map(before));
                    lemma_filter_out_none(entry_keys(before), key@);
                }
            },
        }
        TextMap { entries }
    }
}

impl TextMap<String> {
    /// A copy of the map.
    pub fn copy(&self) -> (m: Self)
        ensures
            m@ == self@,
            m.keys() == self.keys(),
    {
        proof {
            use_type_invariant(self);
        }
        let mut entries: Vec<(String, String)> = Vec::new();
        let mut i: usize = 0;
        while i < self.entries.len()
            invariant
                0 <= i <= self.entries@.len(),
                entries@.len() == i,
                forall|k: int|
                    0 <= k < i ==> entries@[k].0@ == self.entries@[k].0@ && entries@[k].1@
                        == self.entries@[k].1@,
            decreases self.entries@.len() - i,
        {
            let e = &self.entries[i];
            entries.push((e.0.clone(), e.1.clone()));
            i += 1;
        }
        proof {
            let src = self.entries@;
            assert forall|k: int| #![trigger entries@[k]] 0 <= k < entries@.len() implies self@.contains_key(
                entries@[k].0@,
            ) && self@[entries@[k].0@] == entries@[k].1@ by {
                lemma_entries_map_at(src, k);
            }
            assert forall|key: Seq<char>| #[trigger] self@.contains_key(key) implies has_key(
                entries@,
                key,
            ) by {
                let j = place_of(src, key);
                assert(entries@[j].0@ == key);
            }
            lemma_entries_map_is(entries@, self@);
            assert(entry_keys(entries@) =~= entry_keys(src));
        }
        TextMap { entries }
    }
}

impl TextMap<u64> {
    /// A copy of the map.
    pub fn copy(&self) -> (m: Self)
        ensures
            m@ == self@,
            m.keys() == self.keys(),
    {
        proof {
            use_type_invariant(self);
        }
        let mut entries: Vec<(String, u64)> = Vec::new();
        let mut i: usize = 0;
        while i < self.entries.len()
            invariant
                0 <= i <= self.entries@.len(),
                entries@.len() == i,
                forall|k: int|
                    0 <= k < i ==> entries@[k].0@ == self.entries@[k].0@ && entries@[k].1
                        == self.entries@[k].1,
            decreases self.entries@.len() - i,
        {
            let e = &self.entries[i];
            entries.push((e.0.clone(), e.1));
            i += 1;
        }
        proof {
            let src = self.entries@;
            assert forall|k: int| #![trigger entries@[k]] 0 <= k < entries@.len() implies self@.contains_key(
                entries@[k].0@,
            ) && self@[entries@[k].0@] == entries@[k].1@ by {
                lemma_entries_map_at(src, k);
            }
            assert forall|key: Seq<char>| #[trigger] self@.contains_key(key) implies has_key(
                entries@,
                key,
            ) by {
                let j = place_of(src, key);
                assert(entries@[j].0@ == key);
            }
            lemma_entries_map_is(entries@, self@);
            assert(entry_keys(entries@) =~= entry_keys(src));
        }
        TextMap { entries }
    }
}

/// The list without every occurrence of a text; the others keep their order.
pub open spec fn without_text(s: Seq<Seq<char>>, key: Seq<char>) -> Seq<Seq<char>> {
    s.filter(|k: Seq<char>| k != key)
}

/// Filtering out a value that a list does not hold leaves the list.
pub proof fn lemma_filter_out_none(s: Seq<Seq<char>>, key: Seq<char>)
    requires
        forall|i: int| 0 <= i < s.len() ==> s[i] != key,
    ensures
        without_text(s, key) == s,
    decreases s.len(),
{
    reveal(Seq::filter);
    if s.len() > 0 {
        lemma_filter_out_none(s.drop_last(), key);
        assert(s.drop_last().push(s.last()) =~= s);
    }
}

/// Filtering out a value that a list holds at one place only removes that
/// place.
pub proof fn lemma_filter_out_one(s: Seq<Seq<char>>, at: int, key: Seq<char>)
    requires
        0 <= at < s.len(),
        s[at] == key,
        forall|i: int| 0 <= i < s.len() && i != at ==> s[i] != key,
    ensures
        without_text(s, key) == s.remove(at),
    decreases s.len(),
{
    reveal(Seq::filter);
    if at == s.len() - 1 {
        lemma_filter_out_none(s.drop_last(), key);
        assert(s.remove(at) =~= s.drop_last());
    } else {
        lemma_filter_out_one(s.drop_last(), at, key);
        assert(s.remove(at) =~= s.drop_last().remove(at).push(s.last()));
    }
}

} // verus!
