//! Per-principal account storage: a small association-list map with unique
//! keys, viewed in specifications as a mathematical `Map`. It backs both the
//! stake records and the discretionary balance ledger.

use vstd::prelude::*;

verus! {

/// The mathematical contents of an association list: later entries win.
pub open spec fn assoc_map<V>(s: Seq<(u64, V)>) -> Map<u64, V>
    decreases s.len(),
{
    if s.len() == 0 {
        Map::empty()
    } else {
        assoc_map(s.drop_last()).insert(s.last().0, s.last().1)
    }
}

/// No key occurs twice.
pub open spec fn unique_keys<V>(s: Seq<(u64, V)>) -> bool {
    forall|i: int, j: int| 0 <= i < j < s.len() ==> s[i].0 != s[j].0
}

/// A key present at index `i` of a duplicate-free list is bound to that
/// index's value in the map view.
proof fn lemma_assoc_map_index<V>(s: Seq<(u64, V)>, i: int)
    requires
        unique_keys(s),
        0 <= i < s.len(),
    ensures
        assoc_map(s).contains_key(s[i].0),
        assoc_map(s)[s[i].0] == s[i].1,
    decreases s.len(),
{
    if i < s.len() - 1 {
        lemma_assoc_map_index(s.drop_last(), i);
        assert(s.last().0 != s[i].0);
    }
}

/// A key absent from every entry is absent from the map view.
proof fn lemma_assoc_map_absent<V>(s: Seq<(u64, V)>, key: u64)
    requires
        forall|i: int| 0 <= i < s.len() ==> s[i].0 != key,
    ensures
        !assoc_map(s).contains_key(key),
    decreases s.len(),
{
    if s.len() > 0 {
        lemma_assoc_map_absent(s.drop_last(), key);
    }
}

/// Overwriting the entry that holds `key` updates exactly that key's binding.
proof fn lemma_assoc_map_update<V>(s: Seq<(u64, V)>, i: int, key: u64, value: V)
    requires
        unique_keys(s),
        0 <= i < s.len(),
        s[i].0 == key,
    ensures
        assoc_map(s.update(i, (key, value))) == assoc_map(s).insert(key, value),
    decreases s.len(),
{
    let t = s.update(i, (key, value));
    if i == s.len() - 1 {
        assert(t.drop_last() =~= s.drop_last());
        assert(assoc_map(s.drop_last()).insert(key, s.last().1).insert(key, value) =~= assoc_map(
            s.drop_last(),
        ).insert(key, value));
    } else {
        lemma_assoc_map_update(s.drop_last(), i, key, value);
        assert(t.drop_last() =~= s.drop_last().update(i, (key, value)));
        assert(t.last() == s.last());
        assert(s.last().0 != key);
        assert(assoc_map(s.drop_last()).insert(key, value).insert(s.last().0, s.last().1)
            =~= assoc_map(s.drop_last()).insert(s.last().0, s.last().1).insert(key, value));
    }
}

/// A map from principal to `V`, stored as a duplicate-free association list.
pub struct AccountMap<V> {
    entries: Vec<(u64, V)>,
}

impl<V> View for AccountMap<V> {
    type V = Map<u64, V>;

    closed spec fn view(&self) -> Map<u64, V> {
        assoc_map(self.entries@)
    }
}

impl<V: Copy> AccountMap<V> {
    /// The storage invariant: every key is held at most once.
    pub closed spec fn wf(&self) -> bool {
        unique_keys(self.entries@)
    }

    /// An empty map.
    pub fn new() -> (r: Self)
        ensures
            r.wf(),
            r@ == Map::<u64, V>::empty(),
    {
        AccountMap { entries: Vec::new() }
    }

    /// Look a principal's value up.
    pub fn get(&self, key: u64) -> (r: Option<V>)
        requires
            self.wf(),
        ensures
            match r {
                Some(v) => self@.contains_key(key) && self@[key] == v,
                None => !self@.contains_key(key),
            },
    {
        let mut i: usize = 0;
        while i < self.entries.len()
            invariant
                self.wf(),
                i <= self.entries@.len(),
                forall|j: int| 0 <= j < i ==> self.entries@[j].0 != key,
            decreases self.entries@.len() - i,
        {
            if self.entries[i].0 == key {
                proof {
                    lemma_assoc_map_index(self.entries@, i as int);
                }
                return Some(self.entries[i].1);
            }
            i += 1;
        }
        proof {
            lemma_assoc_map_absent(self.entries@, key);
        }
        None
    }

    /// Bind `key` to `value`, replacing any earlier binding.
    pub fn insert(&mut self, key: u64, value: V)
        requires
            old(self).wf(),
        ensures
            final(self).wf(),
            final(self)@ == old(self)@.insert(key, value),
    {
        let ghost s0 = self.entries@;
        let mut i: usize = 0;
        while i < self.entries.len()
            invariant
                self.entries@ == s0,
                old(self)@ == assoc_map(s0),
                unique_keys(s0),
                i <= s0.len(),
                forall|j: int| 0 <= j < i ==> s0[j].0 != key,
            decreases s0.len() - i,
        {
            if self.entries[i].0 == key {
                self.entries[i] = (key, value);
                proof {
                    lemma_assoc_map_update(s0, i as int, key, value);
                    assert(forall|j: int|
                        0 <= j < s0.len() ==> self.entries@[j].0 == s0[j].0);
                }
                return;
            }
            i += 1;
        }
        self.entries.push((key, value));
        proof {
            assert(self.entries@.drop_last() =~= s0);
        }
    }

    /// Remove every binding.
    pub fn clear(&mut self)
        ensures
            final(self).wf(),
            final(self)@ == Map::<u64, V>::empty(),
    {
        self.entries.clear();
    }
}

} // verus!
