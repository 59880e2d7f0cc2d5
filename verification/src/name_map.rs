//! An insertion-ordered map keyed by text, held as an association list in
//! which no key occurs twice.

use vstd::prelude::*;
use crate::text::same_text;

verus! {

/// Whether no key occurs twice in an association list.
pub open spec fn distinct_keys<V>(s: Seq<(Seq<char>, V)>) -> bool {
    forall|i: int, j: int| 0 <= i < j < s.len() ==> s[i].0 != s[j].0
}

/// Whether `key` occurs in an association list.
pub open spec fn has_key<V>(s: Seq<(Seq<char>, V)>, key: Seq<char>) -> bool {
    exists|i: int| 0 <= i < s.len() && s[i].0 == key
}

/// A position at which `key` occurs; meaningful where `has_key` holds.
pub open spec fn position<V>(s: Seq<(Seq<char>, V)>, key: Seq<char>) -> int {
    choose|i: int| 0 <= i < s.len() && s[i].0 == key
}

/// The value stored under `key`, if any.
pub open spec fn lookup<V>(s: Seq<(Seq<char>, V)>, key: Seq<char>) -> Option<V> {
    if has_key(s, key) {
        Some(s[position(s, key)].1)
    } else {
        None
    }
}

/// The list after storing `value` under `key`: an existing entry keeps its
/// place and gets the new value, a new key goes to the end.
pub open spec fn inserted<V>(s: Seq<(Seq<char>, V)>, key: Seq<char>, value: V) -> Seq<
    (Seq<char>, V),
> {
    if has_key(s, key) {
        s.update(position(s, key), (key, value))
    } else {
        s.push((key, value))
    }
}

/// The list without the entry of `key`.
pub open spec fn removed<V>(s: Seq<(Seq<char>, V)>, key: Seq<char>) -> Seq<(Seq<char>, V)> {
    if has_key(s, key) {
        s.remove(position(s, key))
    } else {
        s
    }
}

/// In a list without repeated keys, a key found at `i` has position `i`.
pub proof fn lemma_position_unique<V>(s: Seq<(Seq<char>, V)>, key: Seq<char>, i: int)
    requires
        distinct_keys(s),
        0 <= i < s.len(),
        s[i].0 == key,
    ensures
        has_key(s, key),
        position(s, key) == i,
        lookup(s, key) == Some(s[i].1),
{
    let p = position(s, key);
    assert(0 <= p < s.len() && s[p].0 == key);
    if p < i {
        assert(s[p].0 != s[i].0);
    } else if i < p {
        assert(s[i].0 != s[p].0);
    }
}

/// Storing keeps keys distinct, makes the stored value the one found under
/// its key, leaves every other key's value as it was, and adds no key but
/// the one stored under.
pub proof fn lemma_inserted<V>(s: Seq<(Seq<char>, V)>, key: Seq<char>, value: V)
    requires
        distinct_keys(s),
    ensures
        distinct_keys(inserted(s, key, value)),
        lookup(inserted(s, key, value), key) == Some(value),
        forall|other: Seq<char>|
            other != key ==> #[trigger] lookup(inserted(s, key, value), other) == lookup(s, other),
        forall|other: Seq<char>| #[trigger]
            has_key(inserted(s, key, value), other) == (other == key || has_key(s, other)),
{
    lemma_inserted_values(s, key, value);
    assert forall|other: Seq<char>| #[trigger]
        has_key(inserted(s, key, value), other) == (other == key || has_key(s, other)) by {
        if other != key {
            assert(lookup(inserted(s, key, value), other) == lookup(s, other));
        }
    }
}

/// Storing keeps keys distinct, makes the stored value the one found under
/// its key, and leaves every other key's value as it was.
proof fn lemma_inserted_values<V>(s: Seq<(Seq<char>, V)>, key: Seq<char>, value: V)
    requires
        distinct_keys(s),
    ensures
        distinct_keys(inserted(s, key, value)),
        lookup(inserted(s, key, value), key) == Some(value),
        forall|other: Seq<char>|
            other != key ==> #[trigger] lookup(inserted(s, key, value), other) == lookup(s, other),
{
    let t = inserted(s, key, value);
    if has_key(s, key) {
        let p = position(s, key);
        lemma_position_unique(s, key, p);
        assert(t[p].0 == key);
        assert forall|i: int, j: int| 0 <= i < j < t.len() implies t[i].0 != t[j].0 by {
            assert(t[i].0 == s[i].0);
            assert(t[j].0 == s[j].0);
        }
        lemma_position_unique(t, key, p);
        assert forall|other: Seq<char>| other != key implies #[trigger] lookup(t, other)
            == lookup(s, other) by {
            if has_key(s, other) {
                let q = position(s, other);
                lemma_position_unique(s, other, q);
                assert(t[q] == s[q]);
                lemma_position_unique(t, other, q);
            } else if has_key(t, other) {
                let q = position(t, other);
                assert(t[q].0 == s[q].0);
            }
        }
    } else {
        let n = s.len() as int;
        assert forall|i: int, j: int| 0 <= i < j < t.len() implies t[i].0 != t[j].0 by {
            assert(t[i] == s[i]);
            if j < n {
                assert(t[j] == s[j]);
            }
        }
        assert(t[n].0 == key);
        lemma_position_unique(t, key, n);
        assert forall|other: Seq<char>| other != key implies #[trigger] lookup(t, other)
            == lookup(s, other) by {
            if has_key(s, other) {
                let q = position(s, other);
                lemma_position_unique(s, other, q);
                assert(t[q] == s[q]);
                lemma_position_unique(t, other, q);
            } else if has_key(t, other) {
                let q = position(t, other);
                assert(q < n);
                assert(t[q] == s[q]);
            }
        }
    }
}

/// Removing keeps keys distinct, leaves nothing under the removed key, and
/// leaves every other key's value as it was.
pub proof fn lemma_removed<V>(s: Seq<(Seq<char>, V)>, key: Seq<char>)
    requires
        distinct_keys(s),
    ensures
        distinct_keys(removed(s, key)),
        lookup(removed(s, key), key) is None,
        forall|other: Seq<char>|
            other != key ==> #[trigger] lookup(removed(s, key), other) == lookup(s, other),
{
    let t = removed(s, key);
    if has_key(s, key) {
        let p = position(s, key);
        lemma_position_unique(s, key, p);
        assert forall|i: int| 0 <= i < t.len() implies #[trigger] t[i] == s[if i < p {
            i
        } else {
            i + 1
        }] by {}
        assert forall|i: int, j: int| 0 <= i < j < t.len() implies t[i].0 != t[j].0 by {
            let a = if i < p { i } else { i + 1 };
            let b = if j < p { j } else { j + 1 };
            assert(t[i] == s[a]);
            assert(t[j] == s[b]);
        }
        if has_key(t, key) {
            let q = position(t, key);
            let a = if q < p { q } else { q + 1 };
            assert(t[q] == s[a]);
            lemma_position_unique(s, key, a);
        }
        assert forall|other: Seq<char>| other != key implies #[trigger] lookup(t, other)
            == lookup(s, other) by {
            if has_key(s, other) {
                let q = position(s, other);
                lemma_position_unique(s, other, q);
                let a = if q < p { q } else { q - 1 };
                assert(t[a] == s[q]);
                lemma_position_unique(t, other, a);
            } else if has_key(t, other) {
                let q = position(t, other);
                let a = if q < p { q } else { q + 1 };
                assert(t[q] == s[a]);
            }
        }
    }
}

/// An association list with each value replaced by its image under `f`.
pub open spec fn mapped<V, W>(s: Seq<(Seq<char>, V)>, f: spec_fn(V) -> W) -> Seq<(Seq<char>, W)> {
    Seq::new(s.len(), |i: int| (s[i].0, f(s[i].1)))
}

/// Replacing the values keeps the keys where they are: what is found under
/// a key is the image of what was found, and storing and removing give the
/// image of what they gave.
pub proof fn lemma_mapped<V, W>(s: Seq<(Seq<char>, V)>, f: spec_fn(V) -> W, key: Seq<char>)
    requires
        distinct_keys(s),
    ensures
        distinct_keys(mapped(s, f)),
        has_key(mapped(s, f), key) == has_key(s, key),
        has_key(s, key) ==> position(mapped(s, f), key) == position(s, key),
        lookup(mapped(s, f), key) == match lookup(s, key) {
            Some(v) => Some(f(v)),
            None => None,
        },
        forall|value: V| #[trigger]
            mapped(inserted(s, key, value), f) == inserted(mapped(s, f), key, f(value)),
        mapped(removed(s, key), f) == removed(mapped(s, f), key),
{
    let t = mapped(s, f);
    assert forall|i: int, j: int| 0 <= i < j < t.len() implies t[i].0 != t[j].0 by {
        assert(s[i].0 != s[j].0);
    }
    if has_key(s, key) {
        let p = position(s, key);
        assert(t[p].0 == key);
        lemma_position_unique(t, key, p);
    } else if has_key(t, key) {
        let q = position(t, key);
        assert(s[q].0 == key);
    }
    assert forall|value: V| #[trigger]
        mapped(inserted(s, key, value), f) == inserted(t, key, f(value)) by {
        assert(mapped(inserted(s, key, value), f) =~= inserted(t, key, f(value)));
    }
    assert(mapped(removed(s, key), f) =~= removed(t, key));
}

#[derive(Debug)]
struct Entry<V> {
    name: String,
    value: V,
}

/// An insertion-ordered map from text keys to values.
#[derive(Debug)]
pub struct NameMap<V> {
    entries: Vec<Entry<V>>,
}

spec fn model_of<V>(entries: Seq<Entry<V>>) -> Seq<(Seq<char>, V)> {
    Seq::new(entries.len(), |i: int| (entries[i].name@, entries[i].value))
}

impl<V> View for NameMap<V> {
    type V = Seq<(Seq<char>, V)>;

    /// The entries in insertion order.
    closed spec fn view(&self) -> Seq<(Seq<char>, V)> {
        model_of(self.entries@)
    }
}

impl<V> NameMap<V> {
    #[verifier::type_invariant]
    spec fn well_formed(&self) -> bool {
        distinct_keys(model_of(self.entries@))
    }

    /// An empty map.
    pub fn new() -> (map: NameMap<V>)
        ensures
            map@ == Seq::<(Seq<char>, V)>::empty(),
            distinct_keys(map@),
    {
        let map = NameMap { entries: Vec::new() };
        assert(map@ =~= Seq::<(Seq<char>, V)>::empty());
        map
    }

    /// The number of entries. Keys never repeat.
    pub fn len(&self) -> (n: usize)
        ensures
            n == self@.len(),
            distinct_keys(self@),
    {
        proof {
            use_type_invariant(self);
        }
        self.entries.len()
    }

    fn find(&self, key: &str) -> (found: Option<usize>)
        ensures
            distinct_keys(self@),
            match found {
                Some(i) => i < self@.len() && self@[i as int].0 == key@ && has_key(self@, key@)
                    && position(self@, key@) == i,
                None => !has_key(self@, key@),
            },
    {
        proof {
            use_type_invariant(self);
        }
        let mut i: usize = 0;
        while i < self.entries.len()
            invariant
                i <= self.entries.len(),
                distinct_keys(self@),
                self@ == model_of(self.entries@),
                forall|j: int| 0 <= j < i ==> self@[j].0 != key@,
            decreases self.entries.len() - i,
        {
            if same_text(self.entries[i].name.as_str(), key) {
                proof {
                    lemma_position_unique(self@, key@, i as int);
                }
                return Some(i);
            }
            i += 1;
        }
        None
    }

    /// Whether a value is stored under `key`.
    pub fn contains_key(&self, key: &str) -> (present: bool)
        ensures
            present == has_key(self@, key@),
            distinct_keys(self@),
    {
        self.find(key).is_some()
    }

    /// The value stored under `key`.
    pub fn get(&self, key: &str) -> (found: Option<&V>)
        ensures
            match found {
                Some(value) => lookup(self@, key@) == Some(*value),
                None => lookup(self@, key@) is None,
            },
            distinct_keys(self@),
    {
        match self.find(key) {
            Some(i) => Some(&self.entries[i].value),
            None => None,
        }
    }

    /// The key of the entry at `index`, in insertion order.
    pub fn key_at(&self, index: usize) -> (key: &str)
        requires
            index < self@.len(),
        ensures
            key@ == self@[index as int].0,
    {
        self.entries[index].name.as_str()
    }

    /// The value of the entry at `index`, in insertion order.
    pub fn value_at(&self, index: usize) -> (value: &V)
        requires
            index < self@.len(),
        ensures
            *value == self@[index as int].1,
    {
        &self.entries[index].value
    }

    /// Stores `value` under `key` and returns the value that was there.
    pub fn insert(&mut self, key: String, value: V) -> (previous: Option<V>)
        ensures
            final(self)@ == inserted(old(self)@, key@, value),
            previous == lookup(old(self)@, key@),
            distinct_keys(old(self)@),
            distinct_keys(final(self)@),
    {
        proof {
            use_type_invariant(&*self);
            lemma_inserted(self@, key@, value);
        }
        let found = self.find(key.as_str());
        let mut entries: Vec<Entry<V>> = Vec::new();
        core::mem::swap(&mut self.entries, &mut entries);
        let ghost before = entries@;
        let previous = match found {
            Some(i) => {
                let old_entry = entries.remove(i);
                entries.insert(i, Entry { name: key, value });
                Some(old_entry.value)
            },
            None => {
                entries.push(Entry { name: key, value });
                None
            },
        };
        assert(model_of(entries@) =~= inserted(model_of(before), key@, value));
        self.entries = entries;
        previous
    }

    /// Takes out the value stored under `key`, if any.
    pub fn remove(&mut self, key: &str) -> (taken: Option<V>)
        ensures
            final(self)@ == removed(old(self)@, key@),
            taken == lookup(old(self)@, key@),
            distinct_keys(old(self)@),
            distinct_keys(final(self)@),
    {
        proof {
            use_type_invariant(&*self);
            lemma_removed(self@, key@);
        }
        let found = self.find(key);
        let mut entries: Vec<Entry<V>> = Vec::new();
        core::mem::swap(&mut self.entries, &mut entries);
        let ghost before = entries@;
        let taken = match found {
            Some(i) => {
                let old_entry = entries.remove(i);
                Some(old_entry.value)
            },
            None => None,
        };
        assert(model_of(entries@) =~= removed(model_of(before), key@));
        self.entries = entries;
        taken
    }
}

} // verus!
