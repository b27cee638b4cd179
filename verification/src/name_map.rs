//! A map from names to values for the few entries of an archive or a wave
//! bank. It keeps the names in the order in which they came in.

use vstd::prelude::*;
use vstd::string::StringSliceAdditionalSpecFns;

verus! {

/// A map from names to values as a value: the names, each once, and the value
/// of each.
pub struct Listing<V> {
    pub names: Seq<Seq<char>>,
    pub values: Seq<V>,
}

impl<V> Listing<V> {
    /// The listing without a name.
    pub open spec fn empty() -> Listing<V> {
        Listing { names: Seq::empty(), values: Seq::empty() }
    }

    /// The listing with the value for `name` set. A name that it has keeps
    /// its place, a new one comes last.
    pub open spec fn with(self, name: Seq<char>, value: V) -> Listing<V> {
        if self.names.contains(name) {
            Listing { names: self.names, values: self.values.update(self.names.index_of(name), value) }
        } else {
            Listing { names: self.names.push(name), values: self.values.push(value) }
        }
    }
}

/// A map from names to values.
#[derive(Debug, PartialEq)]
pub struct NameMap<V> {
    entries: Vec<(String, V)>,
}

impl<V> NameMap<V> {
    #[verifier::type_invariant]
    spec fn distinct(self) -> bool {
        forall|i: int, j: int|
            0 <= i < j < self.entries@.len() ==> (#[trigger] self.entries@[i]).0@ != (#[trigger] self.entries@[j]).0@
    }

    /// The names, each once, in the order in which they came in.
    pub closed spec fn names(self) -> Seq<Seq<char>> {
        Seq::new(self.entries@.len(), |i: int| self.entries@[i].0@)
    }

    /// The values, in the order of their names.
    pub closed spec fn values(self) -> Seq<V> {
        Seq::new(self.entries@.len(), |i: int| self.entries@[i].1)
    }

    /// The map as a value.
    pub open spec fn listing(self) -> Listing<V> {
        Listing { names: self.names(), values: self.values() }
    }

    /// Whether the map has a value for `name`.
    pub open spec fn has(self, name: Seq<char>) -> bool {
        self.names().contains(name)
    }

    /// The value for `name`.
    pub open spec fn value(self, name: Seq<char>) -> V
        recommends
            self.has(name),
    {
        self.values()[self.names().index_of(name)]
    }

    /// Where `name` is among the first `n` names.
    spec fn found(self, name: Seq<char>, n: int) -> Option<int>
        decreases n,
    {
        if n <= 0 {
            None
        } else if self.entries@[n - 1].0@ == name {
            Some(n - 1)
        } else {
            self.found(name, n - 1)
        }
    }

    proof fn lemma_found(self, name: Seq<char>, n: int)
        requires
            0 <= n <= self.entries@.len(),
        ensures
            match self.found(name, n) {
                Some(i) => 0 <= i < n && self.entries@[i].0@ == name,
                None => forall|i: int| 0 <= i < n ==> (#[trigger] self.entries@[i]).0@ != name,
            },
        decreases n,
    {
        if n > 0 && self.entries@[n - 1].0@ != name {
            self.lemma_found(name, n - 1);
        }
    }

    /// Each name has the value that stands where the name stands.
    proof fn lemma_names(self)
        requires
            self.distinct(),
        ensures
            self.names().len() == self.values().len(),
            forall|i: int|
                0 <= i < self.names().len() ==> self.has(#[trigger] self.names()[i]) && self.value(self.names()[i])
                    == self.values()[i],
    {
        assert forall|i: int| 0 <= i < self.names().len() implies self.has(#[trigger] self.names()[i]) && self.value(
            self.names()[i],
        ) == self.values()[i] by {
            let name = self.names()[i];
            let k = self.names().index_of(name);
            assert(self.names()[k] == name);
            self.lemma_distinct(i, k);
        }
    }

    proof fn lemma_distinct(self, i: int, j: int)
        requires
            0 <= i < self.entries@.len(),
            0 <= j < self.entries@.len(),
            self.entries@[i].0@ == self.entries@[j].0@,
            self.distinct(),
        ensures
            i == j,
    {
        if i < j {
            assert(self.entries@[i].0@ != self.entries@[j].0@);
        } else if j < i {
            assert(self.entries@[j].0@ != self.entries@[i].0@);
        }
    }

    /// Each name has one value.
    pub proof fn lemma_lengths(self)
        ensures
            self.names().len() == self.values().len(),
    {
    }

    /// Creates a map without a name.
    pub fn new() -> (map: Self)
        ensures
            map.listing() == Listing::<V>::empty(),
    {
        let map = NameMap { entries: Vec::new() };
        assert(map.names() =~= Seq::<Seq<char>>::empty());
        assert(map.values() =~= Seq::<V>::empty());
        map
    }

    /// The number of names.
    pub fn len(&self) -> (len: usize)
        ensures
            len == self.names().len(),
            len == self.values().len(),
    {
        self.entries.len()
    }

    /// The place of `name` among the names.
    fn find(&self, name: &str) -> (index: Option<usize>)
        ensures
            match index {
                Some(i) => i < self.names().len() && self.names()[i as int] == name@,
                None => !self.has(name@),
            },
    {
        let mut i: usize = 0;
        while i < self.entries.len()
            invariant
                i <= self.entries@.len(),
                forall|k: int| 0 <= k < i ==> (#[trigger] self.entries@[k]).0@ != name@,
            decreases self.entries@.len() - i,
        {
            if same_text(self.entries[i].0.as_str(), name) {
                return Some(i);
            }
            i = i + 1;
        }
        None
    }

    /// Whether the map has a value for `name`.
    pub fn contains_key(&self, name: &str) -> (found: bool)
        ensures
            found == self.has(name@),
    {
        self.find(name).is_some()
    }

    /// The value for `name`.
    pub fn get(&self, name: &str) -> (value: Option<&V>)
        ensures
            value is Some <==> self.has(name@),
            value is Some ==> *value->0 == self.value(name@),
    {
        match self.find(name) {
            Some(i) => {
                proof {
                    use_type_invariant(self);
                    self.lemma_names();
                }
                Some(&self.entries[i].1)
            },
            None => None,
        }
    }

    /// The map with the value for `name` set. A name that the map has keeps
    /// its place, a new one comes last.
    pub fn insert(self, name: String, value: V) -> (map: Self)
        ensures
            map.has(name@),
            map.value(name@) == value,
            forall|other: Seq<char>|
                other != name@ ==> map.has(other) == self.has(other) && (self.has(other) ==> map.value(other)
                    == self.value(other)),
            map.listing() == self.listing().with(name@, value),
    {
        proof {
            use_type_invariant(&self);
            self.lemma_names();
        }
        let found = self.find(name.as_str());
        let ghost name_view = name@;
        let mut entries = self.entries;
        match found {
            Some(i) => {
                entries.set(i, (name, value));
                proof {
                    let n = self.names().index_of(name_view);
                    assert(self.names()[n] == name_view);
                    self.lemma_distinct(i as int, n);
                }
            },
            None => {
                entries.push((name, value));
            },
        }
        assert forall|i: int, j: int| 0 <= i < j < entries@.len() implies (#[trigger] entries@[i]).0@ != (
        #[trigger] entries@[j]).0@ by {
            if self.has(name_view) {
                assert(self.entries@[i].0@ != self.entries@[j].0@);
            } else if j < self.entries@.len() {
                assert(self.entries@[i].0@ != self.entries@[j].0@);
            } else {
                assert(self.names()[i] == self.entries@[i].0@);
            }
        }
        let map = NameMap { entries };
        proof {
            use_type_invariant(&map);
            if self.has(name_view) {
                assert(map.names() =~= self.names());
                assert(map.values() =~= self.values().update(self.names().index_of(name_view), value));
            } else {
                assert(map.names() =~= self.names().push(name_view));
                assert(map.values() =~= self.values().push(value));
            }
            map.lemma_after_insert(self, name_view, value);
        }
        map
    }

    proof fn lemma_after_insert(self, before: Self, name: Seq<char>, value: V)
        requires
            self.distinct(),
            before.distinct(),
            self.names() == (if before.has(name) {
                before.names()
            } else {
                before.names().push(name)
            }),
            self.values() == (if before.has(name) {
                before.values().update(before.names().index_of(name), value)
            } else {
                before.values().push(value)
            }),
        ensures
            self.has(name),
            self.value(name) == value,
            forall|other: Seq<char>|
                other != name ==> self.has(other) == before.has(other) && (before.has(other) ==> self.value(other)
                    == before.value(other)),
    {
        before.lemma_names();
        self.lemma_names();
        let n = before.names().len() as int;
        if before.has(name) {
            let k = before.names().index_of(name);
            assert(before.names()[k] == name);
            assert(self.names()[k] == name);
        } else {
            assert(self.names()[n] == name);
        }
        assert forall|other: Seq<char>| other != name implies self.has(other) == before.has(other) && (before.has(other)
            ==> self.value(other) == before.value(other)) by {
            if before.has(other) {
                let k = before.names().index_of(other);
                assert(before.names()[k] == other);
                assert(self.names()[k] == other);
            }
            if self.has(other) {
                let k = self.names().index_of(other);
                assert(self.names()[k] == other);
                assert(before.names()[k] == other);
            }
        }
    }

    /// The names, in the order in which they came in.
    pub fn keys(&self) -> (keys: Vec<&String>)
        ensures
            keys@.len() == self.names().len(),
            forall|i: int| 0 <= i < keys@.len() ==> (#[trigger] keys@[i])@ == self.names()[i],
    {
        let mut keys: Vec<&String> = Vec::new();
        let mut i: usize = 0;
        while i < self.entries.len()
            invariant
                i <= self.entries@.len(),
                keys@.len() == i,
                forall|k: int| 0 <= k < i ==> (#[trigger] keys@[k])@ == self.entries@[k].0@,
            decreases self.entries@.len() - i,
        {
            keys.push(&self.entries[i].0);
            i = i + 1;
        }
        keys
    }

    /// The name with the index `i`.
    pub fn name_at(&self, i: usize) -> (name: &String)
        requires
            i < self.names().len(),
        ensures
            name@ == self.names()[i as int],
            self.has(name@),
    {
        proof {
            use_type_invariant(self);
            self.lemma_names();
        }
        &self.entries[i].0
    }

    /// The value with the index `i`.
    pub fn value_at(&self, i: usize) -> (value: &V)
        requires
            i < self.values().len(),
        ensures
            *value == self.values()[i as int],
            *value == self.value(self.names()[i as int]),
    {
        proof {
            use_type_invariant(self);
            self.lemma_names();
        }
        &self.entries[i].1
    }
}

/// Whether two strings hold the same characters.
fn same_text(a: &str, b: &str) -> (same: bool)
    ensures
        same == (a@ == b@),
{
    proof {
        vstd::utf8::encode_utf8_decode_utf8(a@);
        vstd::utf8::encode_utf8_decode_utf8(b@);
    }
    let a_bytes = a.as_bytes();
    let b_bytes = b.as_bytes();
    if a_bytes.len() != b_bytes.len() {
        return false;
    }
    let mut i: usize = 0;
    while i < a_bytes.len()
        invariant
            i <= a_bytes@.len(),
            a_bytes@.len() == b_bytes@.len(),
            a_bytes@.take(i as int) == b_bytes@.take(i as int),
            a_bytes@ == a.spec_bytes(),
            b_bytes@ == b.spec_bytes(),
        decreases a_bytes@.len() - i,
    {
        if a_bytes[i] != b_bytes[i] {
            return false;
        }
        assert(a_bytes@.take(i as int + 1) =~= a_bytes@.take(i as int).push(a_bytes@[i as int]));
        assert(b_bytes@.take(i as int + 1) =~= b_bytes@.take(i as int).push(b_bytes@[i as int]));
        i = i + 1;
    }
    assert(a_bytes@ =~= a_bytes@.take(i as int) && b_bytes@ =~= b_bytes@.take(i as int));
    true
}

} // verus!
