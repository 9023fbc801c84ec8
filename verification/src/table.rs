//! A keyed table in which every key has a value: keys that were never set
//! hold the table's default.

use vstd::prelude::*;

verus! {

/// A key that executable code can compare.
pub trait Key: Sized {
    /// Whether the two keys are equal.
    fn same(&self, other: &Self) -> (r: bool)
        ensures
            r == (*self == *other),
    ;
}

impl Key for u32 {
    fn same(&self, other: &Self) -> (r: bool) {
        *self == *other
    }
}

impl Key for u128 {
    fn same(&self, other: &Self) -> (r: bool) {
        *self == *other
    }
}

impl Key for (u32, u128) {
    fn same(&self, other: &Self) -> (r: bool) {
        self.0 == other.0 && self.1 == other.1
    }
}

impl Key for (u32, u128, u128) {
    fn same(&self, other: &Self) -> (r: bool) {
        self.0 == other.0 && self.1 == other.1 && self.2 == other.2
    }
}

/// The value of the first entry for `key` at or after position `from`, or
/// `absent` where there is none.
pub open spec fn first_value<K, V>(entries: Seq<(K, V)>, key: K, absent: V, from: int) -> V
    decreases entries.len() - from,
{
    if from < 0 || from >= entries.len() {
        absent
    } else if entries[from].0 == key {
        entries[from].1
    } else {
        first_value(entries, key, absent, from + 1)
    }
}

proof fn lemma_first_value_found<K, V>(entries: Seq<(K, V)>, key: K, absent: V, from: int, at: int)
    requires
        0 <= from <= at < entries.len(),
        entries[at].0 == key,
        forall|j: int| from <= j < at ==> entries[j].0 != key,
    ensures
        first_value(entries, key, absent, from) == entries[at].1,
    decreases at - from,
{
    if from < at {
        lemma_first_value_found(entries, key, absent, from + 1, at);
    }
}

proof fn lemma_first_value_missing<K, V>(entries: Seq<(K, V)>, key: K, absent: V, from: int)
    requires
        0 <= from,
        forall|j: int| from <= j < entries.len() ==> entries[j].0 != key,
    ensures
        first_value(entries, key, absent, from) == absent,
    decreases entries.len() - from,
{
    if from < entries.len() {
        lemma_first_value_missing(entries, key, absent, from + 1);
    }
}

proof fn lemma_first_value_other_update<K, V>(
    entries: Seq<(K, V)>,
    at: int,
    value: V,
    key: K,
    absent: V,
    from: int,
)
    requires
        0 <= at < entries.len(),
        0 <= from,
        entries[at].0 != key,
    ensures
        first_value(entries.update(at, (entries[at].0, value)), key, absent, from) == first_value(
            entries,
            key,
            absent,
            from,
        ),
    decreases entries.len() - from,
{
    if from < entries.len() {
        lemma_first_value_other_update(entries, at, value, key, absent, from + 1);
    }
}

proof fn lemma_first_value_other_push<K, V>(
    entries: Seq<(K, V)>,
    entry: (K, V),
    key: K,
    absent: V,
    from: int,
)
    requires
        0 <= from,
        entry.0 != key,
    ensures
        first_value(entries.push(entry), key, absent, from) == first_value(
            entries,
            key,
            absent,
            from,
        ),
    decreases entries.len() - from,
{
    let pushed = entries.push(entry);
    if from < entries.len() {
        lemma_first_value_other_push(entries, entry, key, absent, from + 1);
    } else if from == entries.len() {
        assert(pushed[from].0 != key);
        assert(first_value(pushed, key, absent, from + 1) == absent);
    }
}

/// A table from keys to values in which every key is present.
pub struct Table<K, V> {
    entries: Vec<(K, V)>,
    absent: V,
}

impl<K: Key + Copy, V: Copy> Table<K, V> {
    /// What the table holds: a value for every key.
    pub closed spec fn view(&self) -> Map<K, V> {
        Map::total(|key: K| first_value(self.entries@, key, self.absent, 0))
    }

    /// Every key is in the view.
    pub proof fn lemma_view_is_total(&self)
        ensures
            self@.dom() == Set::<K>::full(),
    {
    }

    /// A table in which every key holds `absent`.
    pub fn new(absent: V) -> (table: Self)
        ensures
            table@ == Map::<K, V>::total(|key: K| absent),
    {
        let table = Table { entries: Vec::new(), absent };
        assert(table@ =~= Map::<K, V>::total(|key: K| absent));
        table
    }

    fn position(&self, key: &K) -> (at: Option<usize>)
        ensures
            match at {
                Some(i) => i < self.entries@.len() && self.entries@[i as int].0 == *key && forall|
                    j: int,
                | 0 <= j < i ==> self.entries@[j].0 != *key,
                None => forall|j: int| 0 <= j < self.entries@.len() ==> self.entries@[j].0 != *key,
            },
    {
        let mut i: usize = 0;
        while i < self.entries.len()
            invariant
                i <= self.entries@.len(),
                forall|j: int| 0 <= j < i ==> self.entries@[j].0 != *key,
            decreases self.entries@.len() - i,
        {
            if self.entries[i].0.same(key) {
                return Some(i);
            }
            i += 1;
        }
        None
    }

    /// The value held by `key`.
    pub fn get(&self, key: &K) -> (value: V)
        ensures
            value == self@[*key],
    {
        match self.position(key) {
            Some(i) => {
                proof {
                    lemma_first_value_found(self.entries@, *key, self.absent, 0, i as int);
                }
                self.entries[i].1
            },
            None => {
                proof {
                    lemma_first_value_missing(self.entries@, *key, self.absent, 0);
                }
                self.absent
            },
        }
    }

    /// Gives `key` the value `value` and leaves every other key as it was.
    pub fn set(&mut self, key: K, value: V)
        ensures
            final(self)@ == old(self)@.insert(key, value),
    {
        let ghost before = self.entries@;
        let ghost absent = self.absent;
        match self.position(&key) {
            Some(i) => {
                self.entries.set(i, (key, value));
                proof {
                    let after = self.entries@;
                    assert(after == before.update(i as int, (before[i as int].0, value)));
                    lemma_first_value_found(after, key, absent, 0, i as int);
                    assert forall|other: K| other != key implies first_value(
                        after,
                        other,
                        absent,
                        0,
                    ) == first_value(before, other, absent, 0) by {
                        lemma_first_value_other_update(before, i as int, value, other, absent, 0);
                    }
                }
            },
            None => {
                self.entries.push((key, value));
                proof {
                    let after = self.entries@;
                    lemma_first_value_found(after, key, absent, 0, before.len() as int);
                    assert forall|other: K| other != key implies first_value(
                        after,
                        other,
                        absent,
                        0,
                    ) == first_value(before, other, absent, 0) by {
                        lemma_first_value_other_push(before, (key, value), other, absent, 0);
                    }
                }
            },
        }
        assert(self@ =~= old(self)@.insert(key, value));
    }
}

} // verus!
