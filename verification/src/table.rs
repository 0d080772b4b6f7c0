//! A small map from addresses to records, kept as a list of distinct keys.

use crate::address::Address;
use vstd::prelude::*;

verus! {

/// Whether some entry carries `key`.
spec fn holds_key<V>(entries: Seq<(Address, V)>, key: Address) -> bool {
    exists|i: int| 0 <= i < entries.len() && (#[trigger] entries[i]).0 == key
}

/// The place of an entry that carries `key`.
spec fn position<V>(entries: Seq<(Address, V)>, key: Address) -> int {
    choose|i: int| 0 <= i < entries.len() && (#[trigger] entries[i]).0 == key
}

/// No two entries carry the same key.
spec fn distinct_keys<V>(entries: Seq<(Address, V)>) -> bool {
    forall|i: int, j: int|
        0 <= i < j < entries.len() ==> (#[trigger] entries[i]).0 != (#[trigger] entries[j]).0
}

/// The map that a list of entries stands for.
spec fn as_map<V>(entries: Seq<(Address, V)>) -> Map<Address, V> {
    Map::new(
        |key: Address| holds_key(entries, key),
        |key: Address| entries[position(entries, key)].1,
    )
}

/// With distinct keys, the entry at `i` is what the map holds for its key.
proof fn lemma_entry_in_map<V>(entries: Seq<(Address, V)>, i: int)
    requires
        distinct_keys(entries),
        0 <= i < entries.len(),
    ensures
        as_map(entries).contains_key(entries[i].0),
        as_map(entries)[entries[i].0] == entries[i].1,
        position(entries, entries[i].0) == i,
{
    let key = entries[i].0;
    assert(holds_key(entries, key));
    let at = position(entries, key);
    assert(0 <= at < entries.len() && entries[at].0 == key);
    if at < i {
        assert(entries[at].0 != entries[i].0);
    } else if i < at {
        assert(entries[i].0 != entries[at].0);
    }
}

/// Appending an entry with a fresh key inserts it into the map.
proof fn lemma_push_is_insert<V>(entries: Seq<(Address, V)>, key: Address, value: V)
    requires
        distinct_keys(entries),
        !holds_key(entries, key),
    ensures
        distinct_keys(entries.push((key, value))),
        as_map(entries.push((key, value))) == as_map(entries).insert(key, value),
{
    let longer = entries.push((key, value));
    assert forall|i: int, j: int| 0 <= i < j < longer.len() implies (#[trigger] longer[i]).0 != (
    #[trigger] longer[j]).0 by {
        if j < entries.len() {
            assert(entries[i].0 != entries[j].0);
        } else {
            assert(entries[i].0 != key);
        }
    }
    assert forall|k: Address| #[trigger]
        as_map(longer).contains_key(k) == as_map(entries).insert(key, value).contains_key(
            k,
        ) by {
        if k == key {
            assert(longer[entries.len() as int].0 == key);
        } else if holds_key(entries, k) {
            let at = position(entries, k);
            assert(longer[at].0 == k);
        } else if holds_key(longer, k) {
            let at = position(longer, k);
            assert(entries[at].0 == k);
        }
    }
    assert forall|k: Address| #[trigger]
        as_map(longer).contains_key(k) implies as_map(longer)[k] == as_map(entries).insert(
        key,
        value,
    )[k] by {
        let at = position(longer, k);
        assert(0 <= at < longer.len() && longer[at].0 == k);
        lemma_entry_in_map(longer, at);
        if at < entries.len() {
            lemma_entry_in_map(entries, at);
        }
    }
    assert(as_map(longer) =~= as_map(entries).insert(key, value));
}

/// Replacing the record of the entry at `i` updates the map at its key.
proof fn lemma_update_is_insert<V>(entries: Seq<(Address, V)>, i: int, value: V)
    requires
        distinct_keys(entries),
        0 <= i < entries.len(),
    ensures
        distinct_keys(entries.update(i, (entries[i].0, value))),
        as_map(entries.update(i, (entries[i].0, value))) == as_map(entries).insert(
            entries[i].0,
            value,
        ),
{
    let key = entries[i].0;
    let changed = entries.update(i, (key, value));
    assert forall|a: int, b: int| 0 <= a < b < changed.len() implies (#[trigger] changed[a]).0 != (
    #[trigger] changed[b]).0 by {
        assert(entries[a].0 != entries[b].0);
    }
    assert forall|k: Address| #[trigger]
        as_map(changed).contains_key(k) == as_map(entries).insert(key, value).contains_key(
            k,
        ) by {
        if holds_key(entries, k) {
            let at = position(entries, k);
            assert(changed[at].0 == k);
        } else if holds_key(changed, k) {
            let at = position(changed, k);
            assert(entries[at].0 == k);
        }
        if k == key {
            assert(changed[i].0 == key);
        }
    }
    assert forall|k: Address| #[trigger]
        as_map(changed).contains_key(k) implies as_map(changed)[k] == as_map(entries).insert(
        key,
        value,
    )[k] by {
        let at = position(changed, k);
        assert(0 <= at < changed.len() && changed[at].0 == k);
        lemma_entry_in_map(changed, at);
        lemma_entry_in_map(entries, at);
    }
    assert(as_map(changed) =~= as_map(entries).insert(key, value));
}

/// Finds the place of `key` among `entries`.
fn find<V>(entries: &Vec<(Address, V)>, key: &Address) -> (at: Option<usize>)
    ensures
        match at {
            Some(i) => i < entries.len() && entries[i as int].0 == *key,
            None => !holds_key(entries@, *key),
        },
{
    let mut i: usize = 0;
    while i < entries.len()
        invariant
            i <= entries.len(),
            forall|j: int| 0 <= j < i ==> (#[trigger] entries[j]).0 != *key,
        decreases entries.len() - i,
    {
        if entries[i].0.equals(key) {
            return Some(i);
        }
        i += 1;
    }
    None
}

/// A map from addresses to records of type `V`.
pub struct Table<V> {
    entries: Vec<(Address, V)>,
}

impl<V> View for Table<V> {
    type V = Map<Address, V>;

    closed spec fn view(&self) -> Map<Address, V> {
        as_map(self.entries@)
    }
}

impl<V> Table<V> {
    #[verifier::type_invariant]
    spec fn well_formed(self) -> bool {
        distinct_keys(self.entries@)
    }
}

impl<V: Copy> Table<V> {
    /// The empty table.
    pub fn new() -> (table: Self)
        ensures
            table@ == Map::<Address, V>::empty(),
    {
        let table = Table { entries: Vec::new() };
        assert(table@ =~= Map::<Address, V>::empty());
        table
    }

    /// The record stored under `key`, if there is one.
    pub fn get(&self, key: &Address) -> (found: Option<V>)
        ensures
            found == (if self@.contains_key(*key) {
                Some(self@[*key])
            } else {
                None
            }),
    {
        proof {
            use_type_invariant(self);
        }
        match find(&self.entries, key) {
            Some(i) => {
                proof {
                    lemma_entry_in_map(self.entries@, i as int);
                }
                Some(self.entries[i].1)
            },
            None => None,
        }
    }

    /// Stores `value` under `key`, replacing what was there.
    pub fn insert(&mut self, key: Address, value: V)
        ensures
            final(self)@ == old(self)@.insert(key, value),
    {
        proof {
            use_type_invariant(&*self);
        }
        let mut entries: Vec<(Address, V)> = Vec::new();
        core::mem::swap(&mut entries, &mut self.entries);
        match find(&entries, &key) {
            Some(i) => {
                proof {
                    lemma_update_is_insert(entries@, i as int, value);
                }
                entries[i] = (key, value);
            },
            None => {
                proof {
                    lemma_push_is_insert(entries@, key, value);
                }
                entries.push((key, value));
            },
        }
        self.entries = entries;
    }
}

} // verus!
