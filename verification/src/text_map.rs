//! A map with text keys, kept in key order.
use crate::text::{less, same, text_less, text_less_irreflexive, text_less_total, text_less_transitive};
use vstd::prelude::*;

verus! {

/// Entries in strictly ascending key order. Its view is the map from keys to
/// values.
#[derive(Debug, PartialEq, Eq)]
pub struct TextMap<V> {
    entries: Vec<(String, V)>,
}

/// Keys in strictly ascending order.
pub open spec fn ascending(keys: Seq<Seq<char>>) -> bool {
    forall|i: int, j: int| 0 <= i < j < keys.len() ==> #[trigger] text_less(keys[i], keys[j])
}

spec fn entry_keys<V>(entries: Seq<(String, V)>) -> Seq<Seq<char>> {
    entries.map_values(|entry: (String, V)| entry.0@)
}

spec fn entry_map<V>(entries: Seq<(String, V)>) -> Map<Seq<char>, V> {
    Map::new(
        |key: Seq<char>| entry_keys(entries).contains(key),
        |key: Seq<char>| entries[entry_keys(entries).index_of(key)].1,
    )
}

impl<V> View for TextMap<V> {
    type V = Map<Seq<char>, V>;

    closed spec fn view(&self) -> Map<Seq<char>, V> {
        entry_map(self.entries@)
    }
}

proof fn lemma_ascending_distinct(keys: Seq<Seq<char>>, i: int, j: int)
    requires
        ascending(keys),
        0 <= i < keys.len(),
        0 <= j < keys.len(),
        keys[i] == keys[j],
    ensures
        i == j,
{
    text_less_irreflexive(keys[i]);
    if i < j {
        assert(text_less(keys[i], keys[j]));
    } else if j < i {
        assert(text_less(keys[j], keys[i]));
    }
}

proof fn lemma_entry_at<V>(entries: Seq<(String, V)>, i: int)
    requires
        ascending(entry_keys(entries)),
        0 <= i < entries.len(),
    ensures
        entry_map(entries).contains_key(entries[i].0@),
        entry_map(entries)[entries[i].0@] == entries[i].1,
{
    let keys = entry_keys(entries);
    assert(keys[i] == entries[i].0@);
    let at = keys.index_of(keys[i]);
    assert(keys.contains(keys[i]));
    assert(keys[at] == keys[i]);
    lemma_ascending_distinct(keys, i, at);
}

/// What a map holds of text values under a key.
pub open spec fn text_at(map: Map<Seq<char>, String>, key: Seq<char>) -> Option<Seq<char>> {
    if map.contains_key(key) {
        Some(map[key]@)
    } else {
        None
    }
}

/// The texts that a map with text values holds.
pub open spec fn text_values(map: Map<Seq<char>, String>) -> Map<Seq<char>, Seq<char>> {
    map.map_values(|value: String| value@)
}

/// The texts of a map with one more entry.
pub broadcast proof fn text_values_of_insert(map: Map<Seq<char>, String>, key: Seq<char>, value: String)
    ensures
        #[trigger] text_values(map.insert(key, value)) == text_values(map).insert(key, value@),
{
    assert(text_values(map.insert(key, value)) =~= text_values(map).insert(key, value@));
}

/// The texts of a map with one entry less.
pub broadcast proof fn text_values_of_remove(map: Map<Seq<char>, String>, key: Seq<char>)
    ensures
        #[trigger] text_values(map.remove(key)) == text_values(map).remove(key),
{
    assert(text_values(map.remove(key)) =~= text_values(map).remove(key));
}

/// The texts of an empty map.
pub broadcast proof fn text_values_of_empty()
    ensures
        #[trigger] text_values(Map::<Seq<char>, String>::empty()) == Map::<
            Seq<char>,
            Seq<char>,
        >::empty(),
{
    assert(text_values(Map::<Seq<char>, String>::empty()) =~= Map::<
        Seq<char>,
        Seq<char>,
    >::empty());
}

pub broadcast group group_text_values {
    text_values_of_insert,
    text_values_of_remove,
    text_values_of_empty,
}

impl<V> TextMap<V> {
    /// The keys are in strictly ascending order.
    #[verifier::type_invariant]
    pub open spec fn valid(self) -> bool {
        ascending(self.keys())
    }

    /// The keys in ascending order.
    pub closed spec fn keys(self) -> Seq<Seq<char>> {
        entry_keys(self.entries@)
    }

    /// The keys are those of the view.
    pub proof fn lemma_keys(self)
        ensures
            forall|key: Seq<char>| #[trigger] self@.contains_key(key) <==> self.keys().contains(key),
            forall|i: int| 0 <= i < self.keys().len() ==> self@.contains_key(
                #[trigger] self.keys()[i],
            ),
    {
    }

    /// An empty map.
    pub fn new() -> (map: Self)
        ensures
            map@ == Map::<Seq<char>, V>::empty(),
            map.keys() == Seq::<Seq<char>>::empty(),
    {
        let entries: Vec<(String, V)> = Vec::new();
        let map = TextMap { entries };
        assert(map@ =~= Map::<Seq<char>, V>::empty());
        assert(map.keys() =~= Seq::<Seq<char>>::empty());
        map
    }

    /// The number of entries.
    pub fn len(&self) -> (count: usize)
        ensures
            count == self.keys().len(),
            self.valid(),
    {
        proof {
            use_type_invariant(self);
        }
        self.entries.len()
    }

    /// The key at a position of the ascending order.
    pub fn key_at(&self, i: usize) -> (key: &String)
        requires
            i < self.keys().len(),
        ensures
            key@ == self.keys()[i as int],
            self@.contains_key(key@),
    {
        proof {
            use_type_invariant(self);
            lemma_entry_at(self.entries@, i as int);
        }
        &self.entries[i].0
    }

    /// The value of the key at a position of the ascending order.
    pub fn value_at(&self, i: usize) -> (value: &V)
        requires
            i < self.keys().len(),
        ensures
            self@.contains_key(self.keys()[i as int]),
            *value == self@[self.keys()[i as int]],
    {
        proof {
            use_type_invariant(self);
            lemma_entry_at(self.entries@, i as int);
        }
        &self.entries[i].1
    }

    fn find(&self, key: &str) -> (at: Option<usize>)
        ensures
            match at {
                Some(i) => i < self.entries.len() && self.entries@[i as int].0@ == key@,
                None => !entry_keys(self.entries@).contains(key@),
            },
    {
        let mut i: usize = 0;
        while i < self.entries.len()
            invariant
                i <= self.entries.len(),
                forall|j: int| 0 <= j < i ==> entry_keys(self.entries@)[j] != key@,
            decreases self.entries.len() - i,
        {
            if same(&self.entries[i].0, key) {
                return Some(i);
            }
            i = i + 1;
        }
        None
    }

    /// The value under a key, where there is one.
    pub fn get(&self, key: &str) -> (value: Option<&V>)
        ensures
            match value {
                Some(found) => self@.contains_key(key@) && *found == self@[key@],
                None => !self@.contains_key(key@),
            },
    {
        match self.find(key) {
            Some(i) => {
                proof {
                    use_type_invariant(self);
                    lemma_entry_at(self.entries@, i as int);
                }
                Some(&self.entries[i].1)
            },
            None => None,
        }
    }

    /// A key has a value.
    pub fn contains_key(&self, key: &str) -> (answer: bool)
        ensures
            answer == self@.contains_key(key@),
    {
        self.get(key).is_some()
    }

    /// Put a value under a key, in place of the value it had.
    pub fn insert(&mut self, key: String, value: V)
        ensures
            final(self)@ == old(self)@.insert(key@, value),
            old(self)@.contains_key(key@) ==> final(self).keys() == old(self).keys(),
            forall|k: Seq<char>|
                #[trigger] final(self).keys().contains(k) <==> old(self).keys().contains(k) || k
                    == key@,
    {
        proof {
            use_type_invariant(&*self);
        }
        let mut entries: Vec<(String, V)> = Vec::new();
        std::mem::swap(&mut entries, &mut self.entries);
        let ghost before = entries@;
        let ghost before_keys = entry_keys(before);
        let mut i: usize = 0;
        while i < entries.len() && less(&entries[i].0, &key)
            invariant
                i <= entries.len(),
                entries@ == before,
                before_keys == entry_keys(before),
                forall|j: int| 0 <= j < i ==> text_less(before_keys[j], key@),
            decreases entries.len() - i,
        {
            i = i + 1;
        }
        if i < entries.len() && same(&entries[i].0, &key) {
            assert(before_keys[i as int] == key@);
            entries[i].1 = value;
            let ghost after = entries@;
            proof {
                assert(entry_keys(after) =~= before_keys);
                assert forall|k: Seq<char>| before_keys.contains(k) && k != key@ implies entry_map(
                    after,
                )[k] == entry_map(before)[k] by {
                    let at = before_keys.index_of(k);
                    assert(before_keys[at] == k);
                }
                assert(before_keys.contains(key@));
                lemma_entry_at(after, i as int);
                assert(entry_map(after) =~= entry_map(before).insert(key@, value));
            }
        } else {
            let ghost text = key@;
            proof {
                if i < before.len() {
                    text_less_total(before_keys[i as int], text);
                    assert(text_less(text, before_keys[i as int]));
                    assert forall|j: int| i <= j < before.len() implies text_less(
                        text,
                        #[trigger] before_keys[j],
                    ) by {
                        if j > i {
                            assert(text_less(before_keys[i as int], before_keys[j]));
                            text_less_transitive(text, before_keys[i as int], before_keys[j]);
                        }
                    }
                }
            }
            entries.insert(i, (key, value));
            let ghost after = entries@;
            proof {
                let keys = entry_keys(after);
                assert(keys =~= before_keys.insert(i as int, text));
                assert forall|a: int, b: int| 0 <= a < b < keys.len() implies #[trigger] text_less(
                    keys[a],
                    keys[b],
                ) by {
                    let x = if a < i {
                        a
                    } else {
                        a - 1
                    };
                    let y = if b < i {
                        b
                    } else {
                        b - 1
                    };
                    if a != i && b != i {
                        assert(text_less(before_keys[x], before_keys[y]));
                    }
                }
                assert forall|k: Seq<char>| #[trigger]
                    keys.contains(k) <==> before_keys.contains(k) || k == text by {
                    if before_keys.contains(k) {
                        let at = before_keys.index_of(k);
                        assert(keys[if at < i {
                            at
                        } else {
                            at + 1
                        }] == k);
                    }
                    if k == text {
                        assert(keys[i as int] == k);
                    }
                    if keys.contains(k) {
                        let at = keys.index_of(k);
                        if at != i {
                            assert(before_keys[if at < i {
                                at
                            } else {
                                at - 1
                            }] == k);
                        }
                    }
                }
                assert forall|k: Seq<char>| before_keys.contains(k) && k != text implies entry_map(
                    after,
                )[k] == entry_map(before)[k] by {
                    let at = before_keys.index_of(k);
                    assert(before_keys[at] == k);
                    let moved = if at < i {
                        at
                    } else {
                        at + 1
                    };
                    lemma_entry_at(after, moved);
                    lemma_entry_at(before, at);
                }
                lemma_entry_at(after, i as int);
                if before_keys.contains(text) {
                    let at = before_keys.index_of(text);
                    text_less_irreflexive(text);
                    if at < i {
                        assert(text_less(before_keys[at], text));
                    } else {
                        assert(text_less(text, before_keys[at]));
                    }
                    assert(false);
                }
                assert(entry_map(after) =~= entry_map(before).insert(text, value));
            }
        }
        self.entries = entries;
    }

    /// Take a key and its value out of the map.
    pub fn remove(&mut self, key: &str)
        ensures
            final(self)@ == old(self)@.remove(key@),
            forall|k: Seq<char>|
                #[trigger] final(self).keys().contains(k) <==> old(self).keys().contains(k) && k
                    != key@,
    {
        let found = self.find(key);
        proof {
            use_type_invariant(&*self);
        }
        match found {
            None => {
                assert(self@ =~= old(self)@.remove(key@));
            },
            Some(i) => {
                let mut entries: Vec<(String, V)> = Vec::new();
                std::mem::swap(&mut entries, &mut self.entries);
                let ghost before = entries@;
                let ghost before_keys = entry_keys(before);
                let _removed = entries.remove(i);
                let ghost after = entries@;
                proof {
                    let keys = entry_keys(after);
                    assert(keys =~= before_keys.remove(i as int));
                    assert forall|a: int, b: int| 0 <= a < b < keys.len() implies #[trigger]
                        text_less(keys[a], keys[b]) by {
                        let x = if a < i {
                            a
                        } else {
                            a + 1
                        };
                        let y = if b < i {
                            b
                        } else {
                            b + 1
                        };
                        assert(text_less(before_keys[x], before_keys[y]));
                    }
                    assert forall|k: Seq<char>| #[trigger]
                        keys.contains(k) <==> before_keys.contains(k) && k != key@ by {
                        if before_keys.contains(k) && k != key@ {
                            let at = before_keys.index_of(k);
                            assert(keys[if at < i {
                                at
                            } else {
                                at - 1
                            }] == k);
                        }
                        if keys.contains(k) {
                            let at = keys.index_of(k);
                            let was = if at < i {
                                at
                            } else {
                                at + 1
                            };
                            assert(before_keys[was] == k);
                            if k == key@ {
                                lemma_ascending_distinct(before_keys, was, i as int);
                            }
                        }
                    }
                    assert forall|k: Seq<char>| before_keys.contains(k) && k != key@ implies
                        entry_map(after)[k] == entry_map(before)[k] by {
                        let at = before_keys.index_of(k);
                        assert(before_keys[at] == k);
                        let moved = if at < i {
                            at
                        } else {
                            at - 1
                        };
                        lemma_entry_at(after, moved);
                        lemma_entry_at(before, at);
                    }
                    assert(entry_map(after) =~= entry_map(before).remove(key@));
                }
                self.entries = entries;
            },
        }
    }
}

impl TextMap<String> {
    /// A copy of a map with text values.
    pub fn copy(&self) -> (copy: Self)
        ensures
            copy@ == self@,
            copy.keys() == self.keys(),
    {
        proof {
            use_type_invariant(self);
        }
        let mut entries: Vec<(String, String)> = Vec::new();
        let mut i: usize = 0;
        while i < self.entries.len()
            invariant
                i <= self.entries.len(),
                entries@.len() == i,
                forall|j: int| 0 <= j < i ==> entries@[j] == self.entries@[j],
            decreases self.entries.len() - i,
        {
            entries.push((self.entries[i].0.clone(), self.entries[i].1.clone()));
            i = i + 1;
        }
        assert(entries@ =~= self.entries@);
        TextMap { entries }
    }

    /// The text under a key, where there is one.
    pub fn text(&self, key: &str) -> (value: Option<&str>)
        ensures
            crate::text::opt_str(value) == text_at(self@, key@),
    {
        match self.get(key) {
            Some(value) => Some(value.as_str()),
            None => None,
        }
    }
}

impl Clone for TextMap<String> {
    fn clone(&self) -> (copy: Self)
        ensures
            copy@ == self@,
            copy.keys() == self.keys(),
    {
        self.copy()
    }
}

/// A map gives back what was put under a key, forgets what was taken out, and
/// keeps what is under other keys.
pub proof fn entries_read_back<V>(
    put: &mut TextMap<V>,
    taken: &mut TextMap<V>,
    key: String,
    name: &str,
    other: &str,
    value: V,
    found: Option<&V>,
    gone: Option<&V>,
    before: Option<&V>,
    after: Option<&V>,
    later: Option<&V>,
)
    requires
        name@ == key@,
        other@ != key@,
        call_ensures(TextMap::<V>::insert, (put, key, value), ()),
        call_ensures(TextMap::<V>::get, (final(put), name), found),
        call_ensures(TextMap::<V>::get, (old(put), other), before),
        call_ensures(TextMap::<V>::get, (final(put), other), after),
        *old(taken) == *final(put),
        call_ensures(TextMap::<V>::remove, (taken, name), ()),
        call_ensures(TextMap::<V>::get, (final(taken), name), gone),
        call_ensures(TextMap::<V>::get, (final(taken), other), later),
    ensures
        found is Some && *found->0 == value,
        gone is None,
        before is Some <==> after is Some,
        after is Some <==> later is Some,
        before is Some ==> *before->0 == *after->0 && *after->0 == *later->0,
{
}

/// The keys of a map are walked in ascending order, each with its value.
pub proof fn keys_are_walked_in_order<V>(
    map: &TextMap<V>,
    count: usize,
    i: usize,
    j: usize,
    first: &String,
    second: &String,
    name: &str,
    value: &V,
    found: Option<&V>,
)
    requires
        call_ensures(TextMap::<V>::len, (map,), count),
        i < j < count,
        call_ensures(TextMap::<V>::key_at, (map, i), first),
        call_ensures(TextMap::<V>::key_at, (map, j), second),
        call_ensures(TextMap::<V>::value_at, (map, i), value),
        name@ == first@,
        call_ensures(TextMap::<V>::get, (map, name), found),
    ensures
        text_less(first@, second@),
        found is Some && *found->0 == *value,
{
    assert(text_less(map.keys()[i as int], map.keys()[j as int]));
}

} // verus!
