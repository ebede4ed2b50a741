//! A small map keyed by text: inserting a key replaces its value, looking a
//! key up finds the value last inserted for it.
use vstd::prelude::*;
use crate::text::text_eq;

verus! {

/// The value of `key` in `entries`: the first entry with that key.
pub open spec fn lookup_first<V>(entries: Seq<(String, V)>, key: Seq<char>) -> Option<V>
    decreases entries.len(),
{
    if entries.len() == 0 {
        None
    } else if entries[0].0@ == key {
        Some(entries[0].1)
    } else {
        lookup_first(entries.drop_first(), key)
    }
}

proof fn lemma_lookup_index<V>(entries: Seq<(String, V)>, key: Seq<char>, i: int)
    requires
        0 <= i <= entries.len(),
        forall|k: int| 0 <= k < i ==> #[trigger] entries[k].0@ != key,
        i < entries.len() ==> entries[i].0@ == key,
    ensures
        lookup_first(entries, key) == (if i < entries.len() { Some(entries[i].1) } else { None }),
    decreases i,
{
    if i > 0 {
        lemma_lookup_index(entries.drop_first(), key, i - 1);
    }
}

proof fn lemma_lookup_update<V>(entries: Seq<(String, V)>, i: int, e: (String, V), key: Seq<char>)
    requires
        0 <= i < entries.len(),
        entries[i].0@ == e.0@,
        forall|k: int| 0 <= k < i ==> #[trigger] entries[k].0@ != e.0@,
    ensures
        lookup_first(entries.update(i, e), key) == (if key == e.0@ { Some(e.1) } else { lookup_first(entries, key) }),
    decreases i,
{
    if i > 0 {
        assert(entries.update(i, e).drop_first() =~= entries.drop_first().update(i - 1, e));
        lemma_lookup_update(entries.drop_first(), i - 1, e, key);
    } else {
        assert(entries.update(0, e).drop_first() =~= entries.drop_first());
    }
}

proof fn lemma_lookup_push<V>(entries: Seq<(String, V)>, e: (String, V), key: Seq<char>)
    requires
        lookup_first(entries, e.0@) is None,
    ensures
        lookup_first(entries.push(e), key) == (if key == e.0@ { Some(e.1) } else { lookup_first(entries, key) }),
    decreases entries.len(),
{
    if entries.len() > 0 {
        assert(entries.push(e).drop_first() =~= entries.drop_first().push(e));
        assert(entries.push(e)[0] == entries[0]);
        lemma_lookup_push(entries.drop_first(), e, key);
    } else {
        assert(entries.push(e).drop_first() =~= Seq::<(String, V)>::empty());
        assert(entries.push(e)[0] == e);
        assert(lookup_first(Seq::<(String, V)>::empty(), key) is None);
    }
}

/// Entries keyed by text.
#[derive(Debug)]
pub struct TextMap<V> {
    entries: Vec<(String, V)>,
}

impl<V> TextMap<V> {
    pub closed spec fn entries(&self) -> Seq<(String, V)> {
        self.entries@
    }

    /// The value stored under `key`.
    pub open spec fn value_of(&self, key: Seq<char>) -> Option<V> {
        lookup_first(self.entries(), key)
    }

    pub fn new() -> (r: Self)
        ensures
            forall|k: Seq<char>| r.value_of(k) is None,
            r.entries().len() == 0,
    {
        TextMap { entries: Vec::new() }
    }

    fn position(&self, key: &str) -> (r: Option<usize>)
        ensures
            match r {
                Some(i) => i < self.entries().len() && self.entries()[i as int].0@ == key@
                    && forall|k: int| 0 <= k < i ==> #[trigger] self.entries()[k].0@ != key@,
                None => forall|k: int| 0 <= k < self.entries().len() ==> #[trigger] self.entries()[k].0@ != key@,
            },
    {
        let mut i: usize = 0;
        while i < self.entries.len()
            invariant
                i <= self.entries@.len(),
                forall|k: int| 0 <= k < i ==> #[trigger] self.entries@[k].0@ != key@,
            decreases self.entries@.len() - i,
        {
            if text_eq(self.entries[i].0.as_str(), key) {
                return Some(i);
            }
            i = i + 1;
        }
        None
    }

    /// Stores `value` under `key`, replacing an earlier value.
    pub fn insert(&mut self, key: String, value: V)
        ensures
            final(self).value_of(key@) == Some(value),
            forall|k: Seq<char>| k != key@ ==> final(self).value_of(k) == old(self).value_of(k),
    {
        match self.position(key.as_str()) {
            Some(i) => {
                let ghost before = self.entries@;
                let ghost kv = key@;
                self.entries.set(i, (key, value));
                proof {
                    assert forall|k: Seq<char>| true implies #[trigger] lookup_first(self.entries@, k) == (if k == kv { Some(value) } else { lookup_first(before, k) }) by {
                        lemma_lookup_update(before, i as int, self.entries@[i as int], k);
                    }
                }
            },
            None => {
                let ghost before = self.entries@;
                let ghost kv = key@;
                proof { lemma_lookup_index(before, kv, before.len() as int); }
                self.entries.push((key, value));
                proof {
                    assert forall|k: Seq<char>| true implies #[trigger] lookup_first(self.entries@, k) == (if k == kv { Some(value) } else { lookup_first(before, k) }) by {
                        lemma_lookup_push(before, self.entries@.last(), k);
                    }
                }
            },
        }
    }

    /// The value stored under `key`.
    pub fn get(&self, key: &str) -> (r: Option<&V>)
        ensures
            match r {
                Some(v) => self.value_of(key@) == Some(*v),
                None => self.value_of(key@) is None,
            },
    {
        match self.position(key) {
            Some(i) => {
                proof { lemma_lookup_index(self.entries@, key@, i as int); }
                Some(&self.entries[i].1)
            },
            None => {
                proof { lemma_lookup_index(self.entries@, key@, self.entries@.len() as int); }
                None
            },
        }
    }

    /// Whether a value is stored under `key`.
    pub fn contains_key(&self, key: &str) -> (r: bool)
        ensures
            r == (self.value_of(key@) is Some),
    {
        self.get(key).is_some()
    }

    /// Number of keys with a value.
    pub fn len(&self) -> (r: usize)
        ensures
            r == self.entries().len(),
    {
        self.entries.len()
    }

    pub fn is_empty(&self) -> (r: bool)
        ensures
            r == (self.entries().len() == 0),
    {
        self.entries.len() == 0
    }

    /// The entries, in the order their keys were first inserted.
    pub fn as_slice(&self) -> (r: &[(String, V)])
        ensures
            r@ == self.entries(),
    {
        self.entries.as_slice()
    }
}

} // verus!
