//! Scoped data: values that handlers extract by the key of their type.

use vstd::prelude::*;

verus! {

/// One stored value, under the key of its type.
pub struct Entry {
    pub key: u64,
    pub value: String,
}

/// What a sequence of entries holds: for each key, the value of the last
/// entry that carries it.
pub open spec fn entries_map(entries: Seq<Entry>) -> Map<u64, Seq<char>>
    decreases entries.len(),
{
    if entries.len() == 0 {
        Map::empty()
    } else {
        entries_map(entries.drop_last()).insert(entries.last().key, entries.last().value@)
    }
}

/// No entry from index `from` on carries `key`, so the entries before decide.
pub proof fn lemma_entries_prefix(entries: Seq<Entry>, from: int, key: u64)
    requires
        0 <= from <= entries.len(),
        forall|k: int| from <= k < entries.len() ==> (#[trigger] entries[k]).key != key,
    ensures
        entries_map(entries).contains_key(key) == entries_map(entries.take(from)).contains_key(
            key,
        ),
        entries_map(entries).contains_key(key) ==> entries_map(entries)[key] == entries_map(
            entries.take(from),
        )[key],
    decreases entries.len() - from,
{
    if from == entries.len() {
        assert(entries.take(from) =~= entries);
    } else {
        let front = entries.drop_last();
        assert(front.take(from) =~= entries.take(from));
        lemma_entries_prefix(front, from, key);
    }
}

/// Entries written after others win over them.
pub proof fn lemma_entries_concat(outer: Seq<Entry>, inner: Seq<Entry>)
    ensures
        entries_map(outer + inner) == entries_map(outer).union_prefer_right(entries_map(inner)),
    decreases inner.len(),
{
    if inner.len() == 0 {
        assert(outer + inner =~= outer);
        assert(entries_map(outer).union_prefer_right(Map::empty()) =~= entries_map(outer));
    } else {
        let front = inner.drop_last();
        lemma_entries_concat(outer, front);
        assert((outer + inner).drop_last() =~= outer + front);
        assert((outer + inner).last() == inner.last());
        assert(entries_map(outer + front).insert(inner.last().key, inner.last().value@)
            =~= entries_map(outer).union_prefer_right(entries_map(inner)));
    }
}

/// A map from type keys to values. One value per key: the last write wins.
pub struct Extensions {
    entries: Vec<Entry>,
}

impl View for Extensions {
    type V = Map<u64, Seq<char>>;

    closed spec fn view(&self) -> Map<u64, Seq<char>> {
        entries_map(self.entries@)
    }
}

impl Extensions {
    /// An empty map.
    pub fn new() -> (extensions: Extensions)
        ensures
            extensions@ == Map::<u64, Seq<char>>::empty(),
    {
        Extensions { entries: Vec::new() }
    }

    /// Stores `value` under `key`, replacing what was stored there.
    pub fn insert(&mut self, key: u64, value: &str)
        ensures
            final(self)@ == old(self)@.insert(key, value@),
    {
        let entry = Entry { key, value: value.to_owned() };
        proof {
            assert(self.entries@.push(entry).drop_last() =~= self.entries@);
        }
        self.entries.push(entry);
    }

    /// The value stored under `key`.
    pub fn get(&self, key: u64) -> (value: Option<String>)
        ensures
            match value {
                Some(v) => self@.contains_key(key) && self@[key] == v@,
                None => !self@.contains_key(key),
            },
    {
        let mut i: usize = self.entries.len();
        while i > 0
            invariant
                i <= self.entries.len(),
                forall|k: int| i <= k < self.entries.len() ==> (#[trigger] self.entries@[k]).key != key,
            decreases i,
        {
            i = i - 1;
            if self.entries[i].key == key {
                proof {
                    lemma_entries_prefix(self.entries@, i + 1, key);
                    assert(self.entries@.take(i + 1).last() == self.entries@[i as int]);
                }
                return Some(self.entries[i].value.clone());
            }
        }
        proof {
            lemma_entries_prefix(self.entries@, 0, key);
            assert(self.entries@.take(0) =~= Seq::<Entry>::empty());
        }
        None
    }

    /// Whether nothing is stored.
    pub fn is_empty(&self) -> (empty: bool)
        ensures
            empty == (self@ == Map::<u64, Seq<char>>::empty()),
    {
        proof {
            if self.entries@.len() > 0 {
                assert(self@.contains_key(self.entries@.last().key));
            }
        }
        self.entries.len() == 0
    }

    /// Whether a value is stored under `key`.
    pub fn contains(&self, key: u64) -> (found: bool)
        ensures
            found == self@.contains_key(key),
    {
        self.get(key).is_some()
    }

    /// Adds what `outer` holds under the keys that this map lacks. What this
    /// map holds stays.
    pub fn inherit(&mut self, outer: &Extensions)
        ensures
            final(self)@ == outer@.union_prefer_right(old(self)@),
    {
        let mut merged: Vec<Entry> = Vec::new();
        let mut i: usize = 0;
        while i < outer.entries.len()
            invariant
                i <= outer.entries.len(),
                merged@.len() == i,
                forall|k: int|
                    0 <= k < i ==> (#[trigger] merged@[k]).key == outer.entries@[k].key
                        && merged@[k].value@ == outer.entries@[k].value@,
            decreases outer.entries.len() - i,
        {
            merged.push(
                Entry { key: outer.entries[i].key, value: outer.entries[i].value.clone() },
            );
            i = i + 1;
        }
        proof {
            lemma_entries_same(merged@, outer.entries@);
            lemma_entries_concat(merged@, self.entries@);
        }
        merged.append(&mut self.entries);
        self.entries = merged;
    }
}

/// Entries that agree key by key and value by value hold the same.
pub proof fn lemma_entries_same(a: Seq<Entry>, b: Seq<Entry>)
    requires
        a.len() == b.len(),
        forall|k: int|
            0 <= k < a.len() ==> (#[trigger] a[k]).key == b[k].key && a[k].value@ == b[k].value@,
    ensures
        entries_map(a) == entries_map(b),
    decreases a.len(),
{
    if a.len() > 0 {
        lemma_entries_same(a.drop_last(), b.drop_last());
    }
}

} // verus!
