use vstd::prelude::*;

verus! {

/// The map that a sequence of entries stands for: a key maps to the value of
/// its first entry.
pub open spec fn map_of_entries<V>(s: Seq<(Seq<char>, V)>) -> Map<Seq<char>, V>
    decreases s.len(),
{
    if s.len() == 0 {
        Map::empty()
    } else {
        map_of_entries(s.drop_first()).insert(s[0].0, s[0].1)
    }
}

/// No key occurs in two entries.
pub open spec fn keys_distinct<V>(s: Seq<(Seq<char>, V)>) -> bool {
    forall|i: int, j: int| 0 <= i < j < s.len() ==> s[i].0 != s[j].0
}

/// A key is in the map exactly when some entry holds it.
pub proof fn lemma_map_of_entries_contains<V>(s: Seq<(Seq<char>, V)>, k: Seq<char>)
    ensures
        map_of_entries(s).contains_key(k) <==> exists|i: int| 0 <= i < s.len() && s[i].0 == k,
    decreases s.len(),
{
    if s.len() > 0 {
        lemma_map_of_entries_contains(s.drop_first(), k);
        if map_of_entries(s).contains_key(k) && s[0].0 != k {
            let i = choose|i: int| 0 <= i < s.len() - 1 && s.drop_first()[i].0 == k;
            assert(s[i + 1].0 == k);
        }
        if exists|i: int| 0 <= i < s.len() && s[i].0 == k {
            let i = choose|i: int| 0 <= i < s.len() && s[i].0 == k;
            if i > 0 {
                assert(s.drop_first()[i - 1].0 == k);
            }
        }
    }
}

/// The value of a key is that of the first entry that holds it.
pub proof fn lemma_map_of_entries_first<V>(s: Seq<(Seq<char>, V)>, i: int)
    requires
        0 <= i < s.len(),
        forall|j: int| 0 <= j < i ==> s[j].0 != s[i].0,
    ensures
        map_of_entries(s).contains_key(s[i].0),
        map_of_entries(s)[s[i].0] == s[i].1,
    decreases s.len(),
{
    if i > 0 {
        let t = s.drop_first();
        assert forall|j: int| 0 <= j < i - 1 implies #[trigger] t[j].0 != t[i - 1].0 by {
            assert(s[j + 1].0 != s[i].0);
        }
        lemma_map_of_entries_first(t, i - 1);
    }
}

/// With distinct keys, the value of the key of any entry is that entry's value.
pub proof fn lemma_map_of_entries_distinct<V>(s: Seq<(Seq<char>, V)>, i: int)
    requires
        0 <= i < s.len(),
        keys_distinct(s),
    ensures
        map_of_entries(s).contains_key(s[i].0),
        map_of_entries(s)[s[i].0] == s[i].1,
{
    lemma_map_of_entries_first(s, i);
}

/// With distinct keys, a property holds of every entry exactly when it holds of
/// every key of the map together with its value.
pub proof fn lemma_entries_forall<V>(s: Seq<(Seq<char>, V)>, p: spec_fn(Seq<char>, V) -> bool)
    requires
        keys_distinct(s),
    ensures
        (forall|i: int| 0 <= i < s.len() ==> #[trigger] p(s[i].0, s[i].1)) <==> (forall|k: Seq<char>|
            #[trigger] map_of_entries(s).contains_key(k) ==> p(k, map_of_entries(s)[k])),
{
    let m = map_of_entries(s);
    if forall|i: int| 0 <= i < s.len() ==> #[trigger] p(s[i].0, s[i].1) {
        assert forall|k: Seq<char>| #[trigger] m.contains_key(k) implies p(k, m[k]) by {
            lemma_map_of_entries_contains(s, k);
            let i = choose|i: int| 0 <= i < s.len() && s[i].0 == k;
            lemma_map_of_entries_distinct(s, i);
            assert(p(s[i].0, s[i].1));
        }
    }
    if forall|k: Seq<char>| #[trigger] m.contains_key(k) ==> p(k, m[k]) {
        assert forall|i: int| 0 <= i < s.len() implies #[trigger] p(s[i].0, s[i].1) by {
            lemma_map_of_entries_distinct(s, i);
        }
    }
}

/// Appending an entry with a new key adds that key to the map.
proof fn lemma_map_of_entries_push<V>(s: Seq<(Seq<char>, V)>, k: Seq<char>, v: V)
    requires
        forall|j: int| 0 <= j < s.len() ==> s[j].0 != k,
    ensures
        map_of_entries(s.push((k, v))) == map_of_entries(s).insert(k, v),
    decreases s.len(),
{
    if s.len() == 0 {
        assert(s.push((k, v)).drop_first() =~= s);
        assert(map_of_entries(s.push((k, v))) =~= map_of_entries(s).insert(k, v));
    } else {
        let t = s.drop_first();
        lemma_map_of_entries_push(t, k, v);
        assert(s.push((k, v)).drop_first() =~= t.push((k, v)));
        assert(map_of_entries(s.push((k, v))) =~= map_of_entries(s).insert(k, v));
    }
}

/// Replacing the value of the first entry of a key replaces the key's value in the map.
proof fn lemma_map_of_entries_update<V>(s: Seq<(Seq<char>, V)>, i: int, v: V)
    requires
        0 <= i < s.len(),
        forall|j: int| 0 <= j < i ==> s[j].0 != s[i].0,
    ensures
        map_of_entries(s.update(i, (s[i].0, v))) == map_of_entries(s).insert(s[i].0, v),
    decreases s.len(),
{
    let k = s[i].0;
    let u = s.update(i, (k, v));
    if i == 0 {
        assert(u.drop_first() =~= s.drop_first());
        assert(map_of_entries(u) =~= map_of_entries(s).insert(k, v));
    } else {
        let t = s.drop_first();
        assert forall|j: int| 0 <= j < i - 1 implies #[trigger] t[j].0 != t[i - 1].0 by {
            assert(s[j + 1].0 != s[i].0);
        }
        lemma_map_of_entries_update(t, i - 1, v);
        assert(u.drop_first() =~= t.update(i - 1, (k, v)));
        assert(s[0].0 != k);
        assert(map_of_entries(u) =~= map_of_entries(s).insert(k, v));
    }
}

/// A map from strings to values that remembers the order in which its keys
/// were first inserted.
#[derive(Debug)]
pub struct Dict<V> {
    entries: Vec<(String, V)>,
}

impl<V> Dict<V> {
    /// The entries of the map, in the order in which their keys were first inserted.
    pub closed spec fn entries(&self) -> Seq<(Seq<char>, V)> {
        self.entries@.map_values(|e: (String, V)| (e.0@, e.1))
    }

    /// No key occurs twice among the entries. Every map holds this; a caller
    /// learns it of a map with `use_type_invariant`.
    #[verifier::type_invariant]
    pub open spec fn wf(&self) -> bool {
        keys_distinct(self.entries())
    }

    /// Creates an empty map.
    pub fn new() -> (d: Self)
        ensures
            d@ == Map::<Seq<char>, V>::empty(),
            d.entries() == Seq::<(Seq<char>, V)>::empty(),
    {
        let d = Dict { entries: Vec::new() };
        assert(d.entries() =~= Seq::<(Seq<char>, V)>::empty());
        d
    }

    /// Returns the number of keys in the map.
    pub fn len(&self) -> (n: usize)
        ensures
            n == self.entries().len(),
    {
        self.entries.len()
    }

    /// Returns the key and the value of the entry at the given position.
    pub fn entry_at(&self, i: usize) -> (kv: (&String, &V))
        requires
            i < self.entries().len(),
        ensures
            (kv.0@, *kv.1) == self.entries()[i as int],
    {
        let e = &self.entries[i];
        (&e.0, &e.1)
    }

    /// Returns the position of the first entry that holds the key.
    fn position(&self, key: &String) -> (pos: Option<usize>)
        ensures
            match pos {
                Some(i) => i < self.entries().len() && self.entries()[i as int].0 == key@
                    && forall|j: int| 0 <= j < i ==> self.entries()[j].0 != key@,
                None => forall|j: int| 0 <= j < self.entries().len() ==> self.entries()[j].0 != key@,
            },
    {
        let mut i: usize = 0;
        while i < self.entries.len()
            invariant
                i <= self.entries().len(),
                self.entries().len() == self.entries@.len(),
                forall|j: int| 0 <= j < i ==> self.entries()[j].0 != key@,
            decreases self.entries@.len() - i,
        {
            if self.entries[i].0 == *key {
                return Some(i);
            }
            i = i + 1;
        }
        None
    }

    /// Returns true if the map holds the key.
    pub fn contains_key(&self, key: &String) -> (found: bool)
        ensures
            found == self@.contains_key(key@),
    {
        let pos = self.position(key);
        proof {
            lemma_map_of_entries_contains(self.entries(), key@);
        }
        pos.is_some()
    }

    /// Returns the value of the key, if the map holds it.
    pub fn get(&self, key: &String) -> (value: Option<&V>)
        ensures
            match value {
                Some(v) => self@.contains_key(key@) && *v == self@[key@],
                None => !self@.contains_key(key@),
            },
    {
        proof {
            lemma_map_of_entries_contains(self.entries(), key@);
        }
        match self.position(key) {
            Some(i) => {
                proof {
                    lemma_map_of_entries_first(self.entries(), i as int);
                }
                Some(&self.entries[i].1)
            },
            None => None,
        }
    }

    /// Inserts the value under the key. An existing value of the key is replaced,
    /// and the key keeps its place in the order.
    pub fn insert(&mut self, key: String, value: V)
        ensures
            final(self)@ == old(self)@.insert(key@, value),
            old(self)@.contains_key(key@) ==> final(self).entries().len() == old(self).entries().len()
                && forall|j: int|
                0 <= j < old(self).entries().len() ==> #[trigger] final(self).entries()[j].0 == old(
                    self,
                ).entries()[j].0,
            !old(self)@.contains_key(key@) ==> final(self).entries() == old(self).entries().push(
                (key@, value),
            ),
    {
        proof {
            use_type_invariant(&*self);
            lemma_map_of_entries_contains(self.entries(), key@);
        }
        let ghost old_entries = self.entries();
        match self.position(&key) {
            Some(i) => {
                proof {
                    lemma_map_of_entries_update(old_entries, i as int, value);
                }
                let mut entries: Vec<(String, V)> = Vec::new();
                core::mem::swap(&mut entries, &mut self.entries);
                entries.set(i, (key, value));
                assert(entries@.map_values(|e: (String, V)| (e.0@, e.1)) =~= old_entries.update(
                    i as int,
                    (old_entries[i as int].0, value),
                ));
                self.entries = entries;
            },
            None => {
                proof {
                    lemma_map_of_entries_push(old_entries, key@, value);
                }
                let mut entries: Vec<(String, V)> = Vec::new();
                core::mem::swap(&mut entries, &mut self.entries);
                entries.push((key, value));
                assert(entries@.map_values(|e: (String, V)| (e.0@, e.1)) =~= old_entries.push(
                    (key@, value),
                ));
                self.entries = entries;
            },
        }
    }
}

impl<V: Clone> Clone for Dict<V> {
    /// Clones the map; the copy has the same keys in the same order, each with a
    /// clone of its value.
    fn clone(&self) -> (c: Self)
        ensures
            c.entries().len() == self.entries().len(),
            forall|i: int| 0 <= i < c.entries().len() ==> #[trigger] c.entries()[i].0 == self.entries()[i].0,
            forall|i: int|
                0 <= i < c.entries().len() ==> vstd::pervasive::cloned(
                    self.entries()[i].1,
                    #[trigger] c.entries()[i].1,
                ),
    {
        proof {
            use_type_invariant(self);
        }
        let mut entries: Vec<(String, V)> = Vec::new();
        let mut i: usize = 0;
        while i < self.entries.len()
            invariant
                i <= self.entries@.len(),
                entries@.len() == i,
                forall|j: int| 0 <= j < i ==> #[trigger] entries@[j].0@ == self.entries@[j].0@,
                forall|j: int|
                    0 <= j < i ==> vstd::pervasive::cloned(self.entries@[j].1, #[trigger] entries@[j].1),
            decreases self.entries@.len() - i,
        {
            let key = self.entries[i].0.clone();
            let value = self.entries[i].1.clone();
            entries.push((key, value));
            i = i + 1;
        }
        let ghost ce = entries@.map_values(|e: (String, V)| (e.0@, e.1));
        assert forall|a: int, b: int| 0 <= a < b < ce.len() implies ce[a].0 != ce[b].0 by {
            assert(ce[a].0 == self.entries()[a].0);
            assert(ce[b].0 == self.entries()[b].0);
        }
        let c = Dict { entries };
        assert forall|j: int| 0 <= j < c.entries().len() implies #[trigger] c.entries()[j].0 == self.entries()[j].0 by {
            assert(c.entries()[j].0 == entries@[j].0@);
        }
        assert forall|j: int| 0 <= j < c.entries().len() implies vstd::pervasive::cloned(
            self.entries()[j].1,
            #[trigger] c.entries()[j].1,
        ) by {
            assert(c.entries()[j].1 == entries@[j].1);
            assert(self.entries()[j].1 == self.entries@[j].1);
        }
        c
    }
}

impl<V> View for Dict<V> {
    type V = Map<Seq<char>, V>;

    /// The map from keys to values.
    open spec fn view(&self) -> Map<Seq<char>, V> {
        map_of_entries(self.entries())
    }
}

/// A set of input parameters for a job or task consisting of key-value pairs.
pub type ParameterSet = Dict<String>;

/// The map that a list of key-value pairs gives when they are inserted in order:
/// a key that occurs twice keeps its last value.
pub open spec fn map_of_pairs(s: Seq<(Seq<char>, Seq<char>)>) -> Map<Seq<char>, Seq<char>>
    decreases s.len(),
{
    if s.len() == 0 {
        Map::empty()
    } else {
        map_of_pairs(s.drop_last()).insert(s.last().0, s.last().1)
    }
}

/// Every key of the pairs, and no other, is a key of their map, whatever its value
/// (the empty string too), and a key has the value of its last pair.
pub proof fn lemma_map_of_pairs(s: Seq<(Seq<char>, Seq<char>)>)
    ensures
        forall|k: Seq<char>|
            map_of_pairs(s).contains_key(k) <==> exists|i: int|
                0 <= i < s.len() && (#[trigger] s[i]).0 == k,
        forall|i: int|
            0 <= i < s.len() && (forall|j: int| i < j < s.len() ==> (#[trigger] s[j]).0 != s[i].0)
                ==> map_of_pairs(s)[(#[trigger] s[i]).0] == s[i].1,
    decreases s.len(),
{
    if s.len() > 0 {
        let t = s.drop_last();
        lemma_map_of_pairs(t);
        assert forall|k: Seq<char>|
            map_of_pairs(s).contains_key(k) implies exists|i: int|
                0 <= i < s.len() && (#[trigger] s[i]).0 == k by {
            if k == s.last().0 {
                assert(s[s.len() - 1].0 == k);
            } else {
                assert(map_of_pairs(t).contains_key(k));
                let i = choose|i: int| 0 <= i < t.len() && (#[trigger] t[i]).0 == k;
                assert(s[i] == t[i]);
            }
        }
        assert forall|k: Seq<char>|
            (exists|i: int| 0 <= i < s.len() && (#[trigger] s[i]).0 == k) implies map_of_pairs(
                s,
            ).contains_key(k) by {
            let i = choose|i: int| 0 <= i < s.len() && (#[trigger] s[i]).0 == k;
            if i < s.len() - 1 {
                assert(t[i] == s[i]);
                assert(map_of_pairs(t).contains_key(k));
            }
        }
        assert forall|i: int|
            0 <= i < s.len() && (forall|j: int| i < j < s.len() ==> (#[trigger] s[j]).0 != s[i].0)
                implies map_of_pairs(s)[(#[trigger] s[i]).0] == s[i].1 by {
            if i < s.len() - 1 {
                assert(s[s.len() - 1].0 != s[i].0);
                assert(t[i] == s[i]);
                assert forall|j: int| i < j < t.len() implies (#[trigger] t[j]).0 != t[i].0 by {
                    assert(t[j] == s[j]);
                }
            }
        }
    }
}

/// The values of a parameter set as strings.
pub open spec fn parameter_values(p: ParameterSet) -> Map<Seq<char>, Seq<char>> {
    p@.map_values(|v: String| v@)
}

/// A convenient trait for creating a parameter set from a list of key-value pairs.
pub trait ToParameterSet {
    fn to_params(self) -> ParameterSet;
}

impl<'a> ToParameterSet for &'a [(&'a str, &'a str)] {
    /// The parameter set of the pairs; a key that occurs twice keeps its last value.
    fn to_params(self) -> (params: ParameterSet)
        ensures
            parameter_values(params) == map_of_pairs(
                self@.map_values(|kv: (&str, &str)| (kv.0@, kv.1@)),
            ),
            forall|k: Seq<char>|
                parameter_values(params).contains_key(k) <==> exists|i: int|
                    0 <= i < self@.len() && (#[trigger] self@[i]).0@ == k,
            forall|i: int|
                0 <= i < self@.len() && (forall|j: int|
                    i < j < self@.len() ==> (#[trigger] self@[j]).0@ != self@[i].0@)
                    ==> parameter_values(params)[(#[trigger] self@[i]).0@] == self@[i].1@,
    {
        let ghost pairs = self@.map_values(|kv: (&str, &str)| (kv.0@, kv.1@));
        let mut params: ParameterSet = Dict::new();
        let mut i: usize = 0;
        assert(pairs.take(0) =~= Seq::<(Seq<char>, Seq<char>)>::empty());
        assert(parameter_values(params) =~= map_of_pairs(pairs.take(0)));
        while i < self.len()
            invariant
                i <= self@.len(),
                pairs == self@.map_values(|kv: (&str, &str)| (kv.0@, kv.1@)),
                parameter_values(params) == map_of_pairs(pairs.take(i as int)),
            decreases self@.len() - i,
        {
            let (k, v) = self[i];
            params.insert(k.to_owned(), v.to_owned());
            assert(pairs.take(i + 1).drop_last() =~= pairs.take(i as int));
            assert(parameter_values(params) =~= map_of_pairs(pairs.take(i + 1)));
            i = i + 1;
        }
        assert(pairs.take(self@.len() as int) =~= pairs);
        proof {
            lemma_map_of_pairs(pairs);
            assert forall|k: Seq<char>|
                parameter_values(params).contains_key(k) implies exists|i: int|
                    0 <= i < self@.len() && (#[trigger] self@[i]).0@ == k by {
                assert(map_of_pairs(pairs).contains_key(k));
                let i = choose|i: int| 0 <= i < pairs.len() && (#[trigger] pairs[i]).0 == k;
                assert(pairs[i].0 == self@[i].0@);
            }
            assert forall|k: Seq<char>|
                (exists|i: int| 0 <= i < self@.len() && (#[trigger] self@[i]).0@ == k)
                implies parameter_values(params).contains_key(k) by {
                let i = choose|i: int| 0 <= i < self@.len() && (#[trigger] self@[i]).0@ == k;
                assert(pairs[i].0 == k);
                assert(map_of_pairs(pairs).contains_key(k));
            }
            assert forall|i: int|
                0 <= i < self@.len() && (forall|j: int|
                    i < j < self@.len() ==> (#[trigger] self@[j]).0@ != self@[i].0@)
                implies parameter_values(params)[(#[trigger] self@[i]).0@] == self@[i].1@ by {
                assert forall|j: int| i < j < pairs.len() implies (#[trigger] pairs[j]).0
                    != pairs[i].0 by {
                    assert(self@[j].0@ != self@[i].0@);
                }
                assert(pairs[i] == (self@[i].0@, self@[i].1@));
            }
        }
        params
    }
}

impl<'a, const N: usize> ToParameterSet for [(&'a str, &'a str); N] {
    /// The parameter set of the pairs; a key that occurs twice keeps its last value.
    fn to_params(self) -> (params: ParameterSet)
        ensures
            parameter_values(params) == map_of_pairs(
                self@.map_values(|kv: (&str, &str)| (kv.0@, kv.1@)),
            ),
            forall|k: Seq<char>|
                parameter_values(params).contains_key(k) <==> exists|i: int|
                    0 <= i < self@.len() && (#[trigger] self@[i]).0@ == k,
            forall|i: int|
                0 <= i < self@.len() && (forall|j: int|
                    i < j < self@.len() ==> (#[trigger] self@[j]).0@ != self@[i].0@)
                    ==> parameter_values(params)[(#[trigger] self@[i]).0@] == self@[i].1@,
    {
        let ghost pairs = self@.map_values(|kv: (&str, &str)| (kv.0@, kv.1@));
        let mut params: ParameterSet = Dict::new();
        let mut i: usize = 0;
        assert(pairs.take(0) =~= Seq::<(Seq<char>, Seq<char>)>::empty());
        assert(parameter_values(params) =~= map_of_pairs(pairs.take(0)));
        while i < N
            invariant
                i <= N,
                self@.len() == N,
                pairs == self@.map_values(|kv: (&str, &str)| (kv.0@, kv.1@)),
                parameter_values(params) == map_of_pairs(pairs.take(i as int)),
            decreases N - i,
        {
            let (k, v) = self[i];
            params.insert(k.to_owned(), v.to_owned());
            assert(pairs.take(i + 1).drop_last() =~= pairs.take(i as int));
            assert(parameter_values(params) =~= map_of_pairs(pairs.take(i + 1)));
            i = i + 1;
        }
        assert(pairs.take(N as int) =~= pairs);
        proof {
            lemma_map_of_pairs(pairs);
            assert forall|k: Seq<char>|
                parameter_values(params).contains_key(k) implies exists|i: int|
                    0 <= i < self@.len() && (#[trigger] self@[i]).0@ == k by {
                assert(map_of_pairs(pairs).contains_key(k));
                let i = choose|i: int| 0 <= i < pairs.len() && (#[trigger] pairs[i]).0 == k;
                assert(pairs[i].0 == self@[i].0@);
            }
            assert forall|k: Seq<char>|
                (exists|i: int| 0 <= i < self@.len() && (#[trigger] self@[i]).0@ == k)
                implies parameter_values(params).contains_key(k) by {
                let i = choose|i: int| 0 <= i < self@.len() && (#[trigger] self@[i]).0@ == k;
                assert(pairs[i].0 == k);
                assert(map_of_pairs(pairs).contains_key(k));
            }
            assert forall|i: int|
                0 <= i < self@.len() && (forall|j: int|
                    i < j < self@.len() ==> (#[trigger] self@[j]).0@ != self@[i].0@)
                implies parameter_values(params)[(#[trigger] self@[i]).0@] == self@[i].1@ by {
                assert forall|j: int| i < j < pairs.len() implies (#[trigger] pairs[j]).0
                    != pairs[i].0 by {
                    assert(self@[j].0@ != self@[i].0@);
                }
                assert(pairs[i] == (self@[i].0@, self@[i].1@));
            }
        }
        params
    }
}

impl ToParameterSet for Vec<(String, String)> {
    /// The parameter set of the pairs; a key that occurs twice keeps its last value.
    fn to_params(self) -> (params: ParameterSet)
        ensures
            parameter_values(params) == map_of_pairs(
                self@.map_values(|kv: (String, String)| (kv.0@, kv.1@)),
            ),
            forall|k: Seq<char>|
                parameter_values(params).contains_key(k) <==> exists|i: int|
                    0 <= i < self@.len() && (#[trigger] self@[i]).0@ == k,
            forall|i: int|
                0 <= i < self@.len() && (forall|j: int|
                    i < j < self@.len() ==> (#[trigger] self@[j]).0@ != self@[i].0@)
                    ==> parameter_values(params)[(#[trigger] self@[i]).0@] == self@[i].1@,
    {
        let ghost pairs = self@.map_values(|kv: (String, String)| (kv.0@, kv.1@));
        let mut params: ParameterSet = Dict::new();
        let mut i: usize = 0;
        assert(pairs.take(0) =~= Seq::<(Seq<char>, Seq<char>)>::empty());
        assert(parameter_values(params) =~= map_of_pairs(pairs.take(0)));
        while i < self.len()
            invariant
                i <= self@.len(),
                pairs == self@.map_values(|kv: (String, String)| (kv.0@, kv.1@)),
                parameter_values(params) == map_of_pairs(pairs.take(i as int)),
            decreases self@.len() - i,
        {
            let k = self[i].0.clone();
            let v = self[i].1.clone();
            params.insert(k, v);
            assert(pairs.take(i + 1).drop_last() =~= pairs.take(i as int));
            assert(parameter_values(params) =~= map_of_pairs(pairs.take(i + 1)));
            i = i + 1;
        }
        assert(pairs.take(self@.len() as int) =~= pairs);
        proof {
            lemma_map_of_pairs(pairs);
            assert forall|k: Seq<char>|
                parameter_values(params).contains_key(k) implies exists|i: int|
                    0 <= i < self@.len() && (#[trigger] self@[i]).0@ == k by {
                assert(map_of_pairs(pairs).contains_key(k));
                let i = choose|i: int| 0 <= i < pairs.len() && (#[trigger] pairs[i]).0 == k;
                assert(pairs[i].0 == self@[i].0@);
            }
            assert forall|k: Seq<char>|
                (exists|i: int| 0 <= i < self@.len() && (#[trigger] self@[i]).0@ == k)
                implies parameter_values(params).contains_key(k) by {
                let i = choose|i: int| 0 <= i < self@.len() && (#[trigger] self@[i]).0@ == k;
                assert(pairs[i].0 == k);
                assert(map_of_pairs(pairs).contains_key(k));
            }
            assert forall|i: int|
                0 <= i < self@.len() && (forall|j: int|
                    i < j < self@.len() ==> (#[trigger] self@[j]).0@ != self@[i].0@)
                implies parameter_values(params)[(#[trigger] self@[i]).0@] == self@[i].1@ by {
                assert forall|j: int| i < j < pairs.len() implies (#[trigger] pairs[j]).0
                    != pairs[i].0 by {
                    assert(self@[j].0@ != self@[i].0@);
                }
                assert(pairs[i] == (self@[i].0@, self@[i].1@));
            }
        }
        params
    }
}

} // verus!
