//! A small string-keyed store with upsert, lookup and removal, viewed as a
//! `Map<Seq<char>, V>`. It backs both the enclave's sealed store and the
//! sealed-storage index; keys are kept distinct as its well-formedness
//! invariant, so the length of the backing vector is the cardinality of the
//! map's domain.

use vstd::prelude::*;

verus! {

/// The map denoted by an association list; later entries win.
pub open spec fn assoc_map<V>(entries: Seq<(String, V)>) -> Map<Seq<char>, V>
    decreases entries.len(),
{
    if entries.len() == 0 {
        Map::empty()
    } else {
        assoc_map(entries.drop_last()).insert(entries.last().0@, entries.last().1)
    }
}

/// All keys of the association list are distinct.
pub open spec fn distinct_keys<V>(entries: Seq<(String, V)>) -> bool {
    forall|i: int, j: int|
        0 <= i < j < entries.len() ==> (#[trigger] entries[i]).0@ != (#[trigger] entries[j]).0@
}

/// A key is in the map exactly when some entry carries it.
proof fn lemma_assoc_contains<V>(entries: Seq<(String, V)>, k: Seq<char>)
    ensures
        assoc_map(entries).dom().contains(k) <==> exists|i: int|
            0 <= i < entries.len() && (#[trigger] entries[i]).0@ == k,
    decreases entries.len(),
{
    if entries.len() == 0 {
    } else {
        let prefix = entries.drop_last();
        lemma_assoc_contains(prefix, k);
        if k == entries.last().0@ {
            assert((entries[entries.len() - 1]).0@ == k);
        } else {
            if assoc_map(entries).dom().contains(k) {
                let i = choose|i: int| 0 <= i < prefix.len() && (#[trigger] prefix[i]).0@ == k;
                assert((entries[i]).0@ == k);
            }
            if exists|i: int| 0 <= i < entries.len() && (#[trigger] entries[i]).0@ == k {
                let i = choose|i: int| 0 <= i < entries.len() && (#[trigger] entries[i]).0@ == k;
                assert(i < entries.len() - 1);
                assert((prefix[i]).0@ == k);
            }
        }
    }
}

/// With distinct keys, each entry is what the map holds at its key.
proof fn lemma_assoc_index<V>(entries: Seq<(String, V)>, i: int)
    requires
        distinct_keys(entries),
        0 <= i < entries.len(),
    ensures
        assoc_map(entries).dom().contains(entries[i].0@),
        assoc_map(entries)[entries[i].0@] == entries[i].1,
    decreases entries.len(),
{
    if i == entries.len() - 1 {
    } else {
        let prefix = entries.drop_last();
        lemma_assoc_index(prefix, i);
        assert(entries[i].0@ != entries.last().0@);
    }
}

/// With distinct keys, the map's domain has exactly one element per entry.
proof fn lemma_assoc_card<V>(entries: Seq<(String, V)>)
    requires
        distinct_keys(entries),
    ensures
        assoc_map(entries).dom().finite(),
        assoc_map(entries).dom().len() == entries.len(),
    decreases entries.len(),
{
    if entries.len() == 0 {
        assert(assoc_map(entries).dom() =~= Set::<Seq<char>>::empty());
    } else {
        let prefix = entries.drop_last();
        lemma_assoc_card(prefix);
        lemma_assoc_contains(prefix, entries.last().0@);
        assert(forall|i: int|
            0 <= i < prefix.len() ==> (#[trigger] prefix[i]).0@ != entries.last().0@);
        assert(!assoc_map(prefix).dom().contains(entries.last().0@));
        assert(assoc_map(entries).dom() =~= assoc_map(prefix).dom().insert(entries.last().0@));
    }
}

/// Replacing the entry at a key's index is inserting at that key.
proof fn lemma_assoc_update<V>(entries: Seq<(String, V)>, i: int, p: (String, V))
    requires
        distinct_keys(entries),
        0 <= i < entries.len(),
        entries[i].0@ == p.0@,
    ensures
        assoc_map(entries.update(i, p)) == assoc_map(entries).insert(p.0@, p.1),
    decreases entries.len(),
{
    let updated = entries.update(i, p);
    if i == entries.len() - 1 {
        assert(updated.drop_last() =~= entries.drop_last());
        assert(assoc_map(updated) == assoc_map(entries.drop_last()).insert(p.0@, p.1));
        assert(assoc_map(entries.drop_last()).insert(entries.last().0@, entries.last().1).insert(
            p.0@,
            p.1,
        ) =~= assoc_map(entries.drop_last()).insert(p.0@, p.1));
    } else {
        assert(updated.drop_last() =~= entries.drop_last().update(i, p));
        assert(updated.last() == entries.last());
        lemma_assoc_update(entries.drop_last(), i, p);
        assert(entries[i].0@ != entries.last().0@);
        assert(assoc_map(entries.drop_last()).insert(p.0@, p.1).insert(
            entries.last().0@,
            entries.last().1,
        ) =~= assoc_map(entries.drop_last()).insert(entries.last().0@, entries.last().1).insert(
            p.0@,
            p.1,
        ));
    }
}

/// Appending a fresh entry is inserting at its key.
proof fn lemma_assoc_push<V>(entries: Seq<(String, V)>, p: (String, V))
    ensures
        assoc_map(entries.push(p)) == assoc_map(entries).insert(p.0@, p.1),
{
    assert(entries.push(p).drop_last() =~= entries);
    assert(entries.push(p).last() == p);
}

/// Removing the entry at a key's index is removing that key from the map.
proof fn lemma_assoc_remove<V>(entries: Seq<(String, V)>, i: int)
    requires
        distinct_keys(entries),
        0 <= i < entries.len(),
    ensures
        assoc_map(entries.remove(i)) == assoc_map(entries).remove(entries[i].0@),
    decreases entries.len(),
{
    let shrunk = entries.remove(i);
    if i == entries.len() - 1 {
        assert(shrunk =~= entries.drop_last());
        lemma_assoc_contains(entries.drop_last(), entries.last().0@);
        assert(forall|j: int|
            0 <= j < entries.len() - 1 ==> (#[trigger] entries[j]).0@ != entries.last().0@);
        assert(!assoc_map(entries.drop_last()).dom().contains(entries.last().0@));
        assert(assoc_map(entries.drop_last()).insert(entries.last().0@, entries.last().1).remove(
            entries.last().0@,
        ) =~= assoc_map(entries.drop_last()));
    } else {
        assert(shrunk.drop_last() =~= entries.drop_last().remove(i));
        assert(shrunk.last() == entries.last());
        lemma_assoc_remove(entries.drop_last(), i);
        assert(entries[i].0@ != entries.last().0@);
        assert(assoc_map(entries.drop_last()).remove(entries[i].0@).insert(
            entries.last().0@,
            entries.last().1,
        ) =~= assoc_map(entries.drop_last()).insert(entries.last().0@, entries.last().1).remove(
            entries[i].0@,
        ));
    }
}

/// The map holds this value under some key.
pub open spec fn value_in<V>(v: &V, m: Map<Seq<char>, V>) -> bool {
    exists|k: Seq<char>| #![auto] m.dom().contains(k) && *v == m[k]
}

/// Every listed value is held by the map under some key.
pub open spec fn all_values_in<V>(r: Seq<&V>, m: Map<Seq<char>, V>) -> bool {
    forall|i: int| 0 <= i < r.len() ==> value_in(#[trigger] r[i], m)
}

/// A string-keyed store whose abstract value is a map from character
/// sequences to values.
pub struct StoreMap<V> {
    entries: Vec<(String, V)>,
}

impl<V> View for StoreMap<V> {
    type V = Map<Seq<char>, V>;

    closed spec fn view(&self) -> Map<Seq<char>, V> {
        assoc_map(self.entries@)
    }
}

impl<V> StoreMap<V> {
    /// Keys are distinct, so vector length and domain cardinality agree.
    pub closed spec fn wf(&self) -> bool {
        distinct_keys(self.entries@)
    }

    /// The empty store.
    pub fn new() -> (r: StoreMap<V>)
        ensures
            r.wf(),
            r@ == Map::<Seq<char>, V>::empty(),
    {
        StoreMap { entries: Vec::new() }
    }

    /// How many keys the store holds.
    pub fn len(&self) -> (r: usize)
        requires
            self.wf(),
        ensures
            r == self@.dom().len(),
    {
        proof {
            lemma_assoc_card(self.entries@);
        }
        self.entries.len()
    }

    /// The index of the entry holding `key`, if any.
    fn find(&self, key: &String) -> (r: Option<usize>)
        ensures
            r matches Some(i) ==> i < self.entries@.len() && self.entries@[i as int].0@ == key@,
            r is None ==> forall|i: int|
                0 <= i < self.entries@.len() ==> (#[trigger] self.entries@[i]).0@ != key@,
    {
        let mut i: usize = 0;
        while i < self.entries.len()
            invariant
                i <= self.entries@.len(),
                forall|j: int| 0 <= j < i ==> (#[trigger] self.entries@[j]).0@ != key@,
            decreases self.entries@.len() - i,
        {
            if self.entries[i].0 == *key {
                return Some(i);
            }
            i = i + 1;
        }
        None
    }

    /// Look a key up.
    pub fn get(&self, key: &String) -> (r: Option<&V>)
        requires
            self.wf(),
        ensures
            r is Some <==> self@.dom().contains(key@),
            r matches Some(v) ==> *v == self@[key@],
    {
        proof {
            lemma_assoc_contains(self.entries@, key@);
        }
        match self.find(key) {
            Some(i) => {
                proof {
                    lemma_assoc_index(self.entries@, i as int);
                }
                Some(&self.entries[i].1)
            },
            None => None,
        }
    }

    /// Insert a value, replacing any prior value under the same key.
    pub fn insert(&mut self, key: String, value: V)
        requires
            old(self).wf(),
        ensures
            final(self).wf(),
            final(self)@ == old(self)@.insert(key@, value),
    {
        let ghost entries0 = self.entries@;
        match self.find(&key) {
            Some(i) => {
                proof {
                    lemma_assoc_update(entries0, i as int, (key, value));
                }
                self.entries.set(i, (key, value));
                assert forall|a: int, b: int|
                    0 <= a < b < self.entries@.len() implies (#[trigger] self.entries@[a]).0@ != (
                #[trigger] self.entries@[b]).0@ by {
                    assert(entries0[a].0@ != entries0[b].0@);
                }
            },
            None => {
                proof {
                    lemma_assoc_push(entries0, (key, value));
                }
                self.entries.push((key, value));
                assert forall|a: int, b: int|
                    0 <= a < b < self.entries@.len() implies (#[trigger] self.entries@[a]).0@ != (
                #[trigger] self.entries@[b]).0@ by {
                    if b < self.entries@.len() - 1 {
                        assert(entries0[a].0@ != entries0[b].0@);
                    } else {
                        assert(entries0[a].0@ != key@);
                    }
                }
            },
        }
    }

    /// Remove a key; reports whether it was present.
    pub fn remove(&mut self, key: &String) -> (r: bool)
        requires
            old(self).wf(),
        ensures
            final(self).wf(),
            r == old(self)@.dom().contains(key@),
            final(self)@ == old(self)@.remove(key@),
    {
        let ghost entries0 = self.entries@;
        proof {
            lemma_assoc_contains(entries0, key@);
        }
        match self.find(key) {
            Some(i) => {
                proof {
                    lemma_assoc_remove(entries0, i as int);
                }
                let _ = self.entries.remove(i);
                assert forall|a: int, b: int|
                    0 <= a < b < self.entries@.len() implies (#[trigger] self.entries@[a]).0@ != (
                #[trigger] self.entries@[b]).0@ by {
                    let a0 = if a < i as int {
                        a
                    } else {
                        a + 1
                    };
                    let b0 = if b < i as int {
                        b
                    } else {
                        b + 1
                    };
                    assert(entries0[a0].0@ != entries0[b0].0@);
                }
                true
            },
            None => {
                proof {
                    assert(old(self)@.remove(key@) =~= old(self)@);
                }
                false
            },
        }
    }

    /// Every key in the store, in insertion order.
    pub fn keys(&self) -> (r: Vec<String>)
        requires
            self.wf(),
        ensures
            r@.len() == self@.dom().len(),
            forall|i: int| 0 <= i < r@.len() ==> self@.dom().contains((#[trigger] r@[i])@),
    {
        proof {
            lemma_assoc_card(self.entries@);
        }
        let mut r: Vec<String> = Vec::new();
        let mut i: usize = 0;
        while i < self.entries.len()
            invariant
                self.wf(),
                i <= self.entries@.len(),
                r@.len() == i,
                forall|j: int| 0 <= j < i ==> (#[trigger] r@[j])@ == self.entries@[j].0@,
            decreases self.entries@.len() - i,
        {
            r.push(self.entries[i].0.clone());
            i = i + 1;
        }
        proof {
            assert forall|i: int| 0 <= i < r@.len() implies self@.dom().contains(
                (#[trigger] r@[i])@,
            ) by {
                lemma_assoc_index(self.entries@, i);
            }
        }
        r
    }

    /// A reference to every value in the store, in insertion order.
    pub fn values(&self) -> (r: Vec<&V>)
        requires
            self.wf(),
        ensures
            r@.len() == self@.dom().len(),
            all_values_in(r@, self@),
    {
        proof {
            lemma_assoc_card(self.entries@);
        }
        let mut r: Vec<&V> = Vec::new();
        let mut i: usize = 0;
        while i < self.entries.len()
            invariant
                self.wf(),
                i <= self.entries@.len(),
                r@.len() == i,
                forall|j: int| 0 <= j < i ==> *(#[trigger] r@[j]) == self.entries@[j].1,
            decreases self.entries@.len() - i,
        {
            r.push(&self.entries[i].1);
            i = i + 1;
        }
        proof {
            assert forall|i: int| #![trigger r@[i]]
                0 <= i < r@.len() implies value_in(r@[i], self@) by {
                lemma_assoc_index(self.entries@, i);
                assert(self@.dom().contains(self.entries@[i].0@) && *r@[i]
                    == self@[self.entries@[i].0@]);
            }
            assert(all_values_in(r@, self@));
        }
        r
    }
}

} // verus!
