//! A map keyed by strings that keeps its keys in the order in which they
//! first came.

use crate::text::str_eq;
use vstd::prelude::*;

verus! {

/// The position of `key` among `keys`, or `keys.len()` where it is absent.
pub open spec fn position_of(keys: Seq<Seq<char>>, key: Seq<char>) -> int
    decreases keys.len(),
{
    if keys.len() == 0 {
        0
    } else if keys[0] == key {
        0
    } else {
        1 + position_of(keys.drop_first(), key)
    }
}

pub proof fn lemma_position_of(keys: Seq<Seq<char>>, key: Seq<char>)
    ensures
        0 <= position_of(keys, key) <= keys.len(),
        position_of(keys, key) < keys.len() <==> keys.contains(key),
        position_of(keys, key) < keys.len() ==> keys[position_of(keys, key)] == key,
        forall|j: int| 0 <= j < position_of(keys, key) ==> keys[j] != key,
    decreases keys.len(),
{
    if keys.len() == 0 {
    } else if keys[0] == key {
        assert(keys.contains(key));
    } else {
        let rest = keys.drop_first();
        lemma_position_of(rest, key);
        let p = position_of(rest, key);
        if p < rest.len() {
            assert(keys[p + 1] == rest[p]);
            assert(keys.contains(key));
        } else {
            if keys.contains(key) {
                let i = choose|i: int| 0 <= i < keys.len() && keys[i] == key;
                assert(rest[i - 1] == key);
                assert(rest.contains(key));
            }
        }
        assert forall|j: int| 0 <= j < position_of(keys, key) implies keys[j] != key by {
            if j > 0 {
                assert(keys[j] == rest[j - 1]);
            }
        }
    }
}

/// A set of strings.
pub struct StringSet {
    items: StringMap<()>,
}

impl View for StringSet {
    type V = Set<Seq<char>>;

    closed spec fn view(&self) -> Set<Seq<char>> {
        self.items@.dom()
    }
}

impl StringSet {
    /// The empty set.
    pub fn new() -> (set: Self)
        ensures
            set@ == Set::<Seq<char>>::empty(),
    {
        let set = StringSet { items: StringMap::new() };
        assert(set@ =~= Set::<Seq<char>>::empty());
        set
    }

    /// Whether `item` is in the set.
    pub fn contains(&self, item: &str) -> (found: bool)
        ensures
            found == self@.contains(item@),
    {
        self.items.contains_key(item)
    }

    /// A copy of the set.
    pub fn duplicate(&self) -> (copy: Self)
        ensures
            copy@ == self@,
    {
        let mut copy = StringSet::new();
        let n = self.items.len();
        let mut i: usize = 0;
        while i < n
            invariant
                i <= n,
                n == self.items.spec_keys().len(),
                self@ == self.items.spec_keys().to_set(),
                copy@ == self.items.spec_keys().take(i as int).to_set(),
            decreases n - i,
        {
            let ghost keys = self.items.spec_keys();
            copy.insert(self.items.key_at(i).clone());
            proof {
                assert(keys.take(i + 1) =~= keys.take(i as int).push(keys[i as int]));
                assert forall|k: Seq<char>|
                    keys.take(i as int).push(keys[i as int]).contains(k) <==> keys.take(
                        i as int,
                    ).contains(k) || k == keys[i as int] by {
                    let more = keys.take(i as int).push(keys[i as int]);
                    if keys.take(i as int).contains(k) {
                        let j = choose|j: int| 0 <= j < i && keys.take(i as int)[j] == k;
                        assert(more[j] == k);
                    }
                    if k == keys[i as int] {
                        assert(more[i as int] == k);
                    }
                }
                assert forall|k: Seq<char>|
                    copy@.contains(k) <==> keys.take(i + 1).to_set().contains(k) by {
                    assert(keys.take(i as int).to_set().contains(k) <==> keys.take(
                        i as int,
                    ).contains(k));
                    assert(keys.take(i + 1).to_set().contains(k) <==> keys.take(i + 1).contains(
                        k,
                    ));
                }
                assert(copy@ =~= keys.take(i + 1).to_set());
            }
            i += 1;
        }
        assert(self.items.spec_keys().take(n as int) =~= self.items.spec_keys());
        copy
    }

    /// Puts `item` into the set.
    pub fn insert(&mut self, item: String)
        ensures
            final(self)@ == old(self)@.insert(item@),
    {
        self.items.insert(item, ());
        assert(self@ =~= old(self)@.insert(item@));
    }
}

/// A map from strings to `V`. A key that is inserted again keeps its place
/// and takes the new value.
pub struct StringMap<V> {
    keys: Vec<String>,
    values: Vec<V>,
}

impl<V> View for StringMap<V> {
    type V = Map<Seq<char>, V>;

    open spec fn view(&self) -> Map<Seq<char>, V> {
        Map::new(
            |k: Seq<char>| self.spec_keys().contains(k),
            |k: Seq<char>| self.spec_values()[position_of(self.spec_keys(), k)],
        )
    }
}

impl<V> StringMap<V> {
    #[verifier::type_invariant]
    spec fn inv(self) -> bool {
        &&& self.keys.len() == self.values.len()
        &&& self.keys.deep_view().no_duplicates()
    }

    /// The keys, in the order in which they were first inserted.
    pub closed spec fn spec_keys(&self) -> Seq<Seq<char>> {
        self.keys.deep_view()
    }

    /// The values, each at the position of its key.
    pub closed spec fn spec_values(&self) -> Seq<V> {
        self.values@
    }

    /// An empty map.
    pub fn new() -> (m: Self)
        ensures
            m.spec_keys() == Seq::<Seq<char>>::empty(),
            m.spec_values() == Seq::<V>::empty(),
            m@ == Map::<Seq<char>, V>::empty(),
    {
        let m = StringMap { keys: Vec::new(), values: Vec::new() };
        assert(m.keys.deep_view() =~= Seq::<Seq<char>>::empty());
        assert(m@ =~= Map::<Seq<char>, V>::empty());
        m
    }

    /// The number of keys. No key occurs twice.
    pub fn len(&self) -> (n: usize)
        ensures
            n == self.spec_keys().len(),
            n == self.spec_values().len(),
            self.spec_keys().no_duplicates(),
            self@.dom() == self.spec_keys().to_set(),
    {
        proof {
            use_type_invariant(self);
            assert(self@.dom() =~= self.spec_keys().to_set());
        }
        self.keys.len()
    }

    /// The `i`-th key.
    pub fn key_at(&self, i: usize) -> (key: &String)
        requires
            i < self.spec_keys().len(),
        ensures
            key@ == self.spec_keys()[i as int],
    {
        proof {
            use_type_invariant(self);
        }
        &self.keys[i]
    }

    /// The value of the `i`-th key.
    pub fn value_at(&self, i: usize) -> (value: &V)
        requires
            i < self.spec_keys().len(),
        ensures
            *value == self.spec_values()[i as int],
            self@.contains_key(self.spec_keys()[i as int]),
            *value == self@[self.spec_keys()[i as int]],
    {
        proof {
            use_type_invariant(self);
            let keys = self.spec_keys();
            lemma_position_of(keys, keys[i as int]);
            assert(keys.contains(keys[i as int]));
        }
        &self.values[i]
    }

    /// Where `key` stands among the keys, if it does.
    fn find(&self, key: &str) -> (at: usize)
        ensures
            at == position_of(self.spec_keys(), key@),
            at <= self.spec_keys().len(),
            self.spec_keys().len() == self.spec_values().len(),
            self.spec_keys().no_duplicates(),
    {
        proof {
            use_type_invariant(self);
        }
        let mut i: usize = 0;
        while i < self.keys.len()
            invariant
                i <= self.keys.len(),
                forall|j: int| 0 <= j < i ==> self.keys.deep_view()[j] != key@,
            decreases self.keys.len() - i,
        {
            if str_eq(self.keys[i].as_str(), key) {
                proof {
                    use_type_invariant(self);
                    lemma_position_of(self.spec_keys(), key@);
                    assert(self.spec_keys()[i as int] == key@);
                    assert(self.spec_keys().contains(key@));
                }
                return i;
            }
            i += 1;
        }
        proof {
            use_type_invariant(self);
            lemma_position_of(self.spec_keys(), key@);
        }
        i
    }

    /// The value that the map holds for `key`, by the place of the key.
    pub proof fn lemma_value_at_key(&self, key: Seq<char>)
        ensures
            self@.contains_key(key) <==> self.spec_keys().contains(key),
            self@.contains_key(key) ==> self@[key] == self.spec_values()[position_of(
                self.spec_keys(),
                key,
            )],
    {
    }

    /// Whether `key` has a value.
    pub fn contains_key(&self, key: &str) -> (found: bool)
        ensures
            found == self@.contains_key(key@),
    {
        let at = self.find(key);
        proof {
            lemma_position_of(self.spec_keys(), key@);
        }
        at < self.keys.len()
    }

    /// The value of `key`, if it has one.
    pub fn get(&self, key: &str) -> (value: Option<&V>)
        ensures
            value matches Some(v) ==> self@.contains_key(key@) && *v == self@[key@],
            value is None ==> !self@.contains_key(key@),
    {
        let at = self.find(key);
        proof {
            lemma_position_of(self.spec_keys(), key@);
        }
        if at < self.keys.len() {
            Some(&self.values[at])
        } else {
            None
        }
    }

    /// Gives `key` the value `value`. A new key goes to the end; a key that
    /// is there already keeps its place.
    pub fn insert(&mut self, key: String, value: V)
        ensures
            final(self)@ == old(self)@.insert(key@, value),
            old(self)@.contains_key(key@) ==> final(self).spec_keys() == old(self).spec_keys(),
            !old(self)@.contains_key(key@) ==> final(self).spec_keys() == old(self).spec_keys().push(
                key@,
            ),
            final(self).spec_values() == if old(self)@.contains_key(key@) {
                old(self).spec_values().update(position_of(old(self).spec_keys(), key@), value)
            } else {
                old(self).spec_values().push(value)
            },
    {
        let at = self.find(key.as_str());
        let ghost old_keys = self.spec_keys();
        let ghost old_values = self.spec_values();
        let ghost old_map = self@;
        proof {
            lemma_position_of(old_keys, key@);
        }
        let mut taken = StringMap::new();
        core::mem::swap(self, &mut taken);
        let StringMap { keys, values } = taken;
        let mut keys = keys;
        let mut values = values;
        if at < keys.len() {
            values.set(at, value);
            *self = StringMap { keys, values };
            proof {
                assert(self.spec_keys() == old_keys);
                assert forall|k: Seq<char>| old_keys.contains(k) implies #[trigger] self@[k]
                    == old_map.insert(key@, value)[k] by {
                    lemma_position_of(old_keys, k);
                }
                assert(self@ =~= old_map.insert(key@, value));
            }
        } else {
            keys.push(key);
            values.push(value);
            proof {
                let new_keys = keys.deep_view();
                assert(new_keys =~= old_keys.push(key@));
                assert(new_keys.no_duplicates());
            }
            *self = StringMap { keys, values };
            proof {
                let new_keys = self.spec_keys();
                assert forall|k: Seq<char>| new_keys.contains(k) <==> (old_keys.contains(k) || k
                    == key@) by {
                    if old_keys.contains(k) {
                        let i = choose|i: int| 0 <= i < old_keys.len() && old_keys[i] == k;
                        assert(new_keys[i] == k);
                    }
                    if k == key@ {
                        assert(new_keys[old_keys.len() as int] == k);
                    }
                }
                assert forall|k: Seq<char>| new_keys.contains(k) implies #[trigger] self@[k]
                    == old_map.insert(key@, value)[k] by {
                    lemma_position_of(new_keys, k);
                    lemma_position_of(old_keys, k);
                    let p = position_of(new_keys, k);
                    if k != key@ {
                        let q = position_of(old_keys, k);
                        assert(new_keys[q] == k);
                        assert(p == q);
                    } else {
                        assert(p == old_keys.len());
                    }
                }
                assert(self@ =~= old_map.insert(key@, value));
            }
        }
    }
}

} // verus!
