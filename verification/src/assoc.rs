//! A small map that remembers the order its keys came in.

use vstd::prelude::*;

use crate::text::str_eq;

verus! {

/// Something to look entries up by.
pub trait MapKey {
    type Id;

    /// What tells two keys apart.
    spec fn id(&self) -> Self::Id;

    fn same_key(&self, other: &Self) -> (b: bool)
        ensures
            b == (self.id() == other.id()),
    ;
}

impl MapKey for usize {
    type Id = usize;

    open spec fn id(&self) -> usize {
        *self
    }

    fn same_key(&self, other: &Self) -> (b: bool) {
        *self == *other
    }
}

impl MapKey for String {
    type Id = Seq<char>;

    open spec fn id(&self) -> Seq<char> {
        self@
    }

    fn same_key(&self, other: &Self) -> (b: bool) {
        str_eq(self.as_str(), other.as_str())
    }
}

/// No key has two entries.
pub struct AssocMap<K: MapKey, V> {
    entries: Vec<(K, V)>,
}

/// The map a list of entries stands for.
pub open spec fn as_map<K: MapKey, V>(entries: Seq<(K, V)>) -> Map<K::Id, V>
    decreases entries.len(),
{
    if entries.len() == 0 {
        Map::empty()
    } else {
        as_map(entries.drop_last()).insert(entries.last().0.id(), entries.last().1)
    }
}

/// No two of the entries are for one key.
pub open spec fn distinct_keys<K: MapKey, V>(entries: Seq<(K, V)>) -> bool {
    forall|i: int, j: int|
        0 <= i < j < entries.len() ==> (#[trigger] entries[i]).0.id() != (
        #[trigger] entries[j]).0.id()
}

/// The entries of other keys.
pub open spec fn other_entries<K: MapKey, V>(entries: Seq<(K, V)>, k: K::Id) -> Seq<(K, V)>
    decreases entries.len(),
{
    if entries.len() == 0 {
        Seq::empty()
    } else {
        let init = other_entries(entries.drop_last(), k);
        if entries.last().0.id() == k {
            init
        } else {
            init.push(entries.last())
        }
    }
}

/// A list without its last entry has no repeated key either, and the last
/// key is not in it.
pub proof fn lemma_distinct_init<K: MapKey, V>(entries: Seq<(K, V)>)
    requires
        distinct_keys(entries),
        entries.len() > 0,
    ensures
        distinct_keys(entries.drop_last()),
        !as_map(entries.drop_last()).contains_key(entries.last().0.id()),
{
    let init = entries.drop_last();
    assert(distinct_keys(init)) by {
        assert forall|i: int, j: int| 0 <= i < j < init.len() implies (
        #[trigger] init[i]).0.id() != (#[trigger] init[j]).0.id() by {
            assert(entries[i].0.id() != entries[j].0.id());
        }
    }
    if as_map(init).contains_key(entries.last().0.id()) {
        lemma_has_entry(init, entries.last().0.id());
        let i = choose|i: int|
            0 <= i < init.len() && (#[trigger] init[i]).0.id() == entries.last().0.id();
        assert(entries[i].0.id() != entries[entries.len() - 1].0.id());
    }
}

/// An entry for a new key makes no repeat.
pub proof fn lemma_push_keeps_distinct<K: MapKey, V>(entries: Seq<(K, V)>, e: (K, V))
    requires
        distinct_keys(entries),
        !as_map(entries).contains_key(e.0.id()),
    ensures
        distinct_keys(entries.push(e)),
{
    let all = entries.push(e);
    assert forall|i: int, j: int| 0 <= i < j < all.len() implies (#[trigger] all[i]).0.id() != (
    #[trigger] all[j]).0.id() by {
        assert(all[i] == entries[i]);
        if j < entries.len() {
            assert(all[j] == entries[j]);
        } else {
            lemma_entry_is_mapped(entries, i);
        }
    }
}

/// A key of the map has an entry.
pub proof fn lemma_has_entry<K: MapKey, V>(entries: Seq<(K, V)>, k: K::Id)
    requires
        as_map(entries).contains_key(k),
    ensures
        exists|i: int| 0 <= i < entries.len() && (#[trigger] entries[i]).0.id() == k,
    decreases entries.len(),
{
    let init = entries.drop_last();
    if entries.last().0.id() == k {
        assert(entries[entries.len() - 1].0.id() == k);
    } else {
        lemma_has_entry(init, k);
        let i = choose|i: int| 0 <= i < init.len() && (#[trigger] init[i]).0.id() == k;
        assert(entries[i].0.id() == k);
    }
}

/// Every entry is in the map, under its key.
pub proof fn lemma_entry_is_mapped<K: MapKey, V>(entries: Seq<(K, V)>, i: int)
    requires
        distinct_keys(entries),
        0 <= i < entries.len(),
    ensures
        as_map(entries).contains_key(entries[i].0.id()),
        as_map(entries)[entries[i].0.id()] == entries[i].1,
    decreases entries.len(),
{
    if i < entries.len() - 1 {
        lemma_distinct_init(entries);
        lemma_entry_is_mapped(entries.drop_last(), i);
        assert(entries.drop_last()[i] == entries[i]);
        assert(entries[i].0.id() != entries[entries.len() - 1].0.id());
    }
}

/// Leaving a key's entries out is removing the key.
proof fn lemma_other_entries<K: MapKey, V>(entries: Seq<(K, V)>, k: K::Id)
    ensures
        as_map(other_entries(entries, k)) == as_map(entries).remove(k),
    decreases entries.len(),
{
    if entries.len() == 0 {
        assert(as_map(entries).remove(k) =~= as_map(entries));
    } else {
        lemma_other_entries(entries.drop_last(), k);
        let init = other_entries(entries.drop_last(), k);
        let m = as_map(entries.drop_last());
        let e = entries.last();
        if e.0.id() == k {
            assert(m.insert(k, e.1).remove(k) =~= m.remove(k));
        } else {
            assert(init.push(e).drop_last() =~= init);
            assert(m.insert(e.0.id(), e.1).remove(k) =~= m.remove(k).insert(e.0.id(), e.1));
        }
    }
}

/// What is left without a key is still without repeats.
proof fn lemma_other_entries_differ<K: MapKey, V>(entries: Seq<(K, V)>, k: K::Id)
    requires
        distinct_keys(entries),
    ensures
        distinct_keys(other_entries(entries, k)),
    decreases entries.len(),
{
    if entries.len() > 0 {
        lemma_distinct_init(entries);
        lemma_other_entries(entries.drop_last(), k);
        lemma_other_entries_differ(entries.drop_last(), k);
        if entries.last().0.id() != k {
            lemma_push_keeps_distinct(
                other_entries(entries.drop_last(), k),
                entries.last(),
            );
        }
    }
}

impl<K: MapKey, V> AssocMap<K, V> {
    /// The entries, in the order their keys were set.
    pub closed spec fn listed(&self) -> Seq<(K, V)> {
        self.entries@
    }

    #[verifier::type_invariant]
    spec fn keys_differ(self) -> bool {
        distinct_keys(self.entries@)
    }
}

impl<K: MapKey, V> View for AssocMap<K, V> {
    type V = Map<K::Id, V>;

    open spec fn view(&self) -> Map<K::Id, V> {
        as_map(self.listed())
    }
}

impl<K: MapKey, V> AssocMap<K, V> {
    pub fn new() -> (m: AssocMap<K, V>)
        ensures
            m@ == Map::<K::Id, V>::empty(),
            m.listed().len() == 0,
    {
        AssocMap { entries: Vec::new() }
    }

    /// The map with the given entries.
    pub fn of(entries: Vec<(K, V)>) -> (m: AssocMap<K, V>)
        requires
            distinct_keys(entries@),
        ensures
            m.listed() == entries@,
    {
        AssocMap { entries }
    }

    /// The entries, no two of them for one key.
    pub fn list(&self) -> (entries: &Vec<(K, V)>)
        ensures
            entries@ == self.listed(),
            distinct_keys(self.listed()),
    {
        proof {
            use_type_invariant(self);
        }
        &self.entries
    }

    pub fn get(&self, k: &K) -> (v: Option<&V>)
        ensures
            match v {
                Some(x) => self@.contains_key(k.id()) && self@[k.id()] == *x,
                None => !self@.contains_key(k.id()),
            },
    {
        proof {
            use_type_invariant(self);
        }
        let mut i: usize = 0;
        while i < self.entries.len()
            invariant
                i <= self.entries.len(),
                distinct_keys(self.entries@),
                forall|j: int| 0 <= j < i ==> (#[trigger] self.entries@[j]).0.id() != k.id(),
            decreases self.entries.len() - i,
        {
            if self.entries[i].0.same_key(k) {
                proof {
                    lemma_entry_is_mapped(self.entries@, i as int);
                }
                return Some(&self.entries[i].1);
            }
            i += 1;
        }
        proof {
            if self@.contains_key(k.id()) {
                lemma_has_entry(self.entries@, k.id());
            }
        }
        None
    }

    pub fn contains_key(&self, k: &K) -> (b: bool)
        ensures
            b == self@.contains_key(k.id()),
    {
        self.get(k).is_some()
    }

    /// Forget a key.
    pub fn remove(&mut self, k: &K)
        ensures
            final(self)@ == old(self)@.remove(k.id()),
            final(self).listed() == other_entries(old(self).listed(), k.id()),
    {
        proof {
            use_type_invariant(&*self);
        }
        let mut entries: Vec<(K, V)> = Vec::new();
        std::mem::swap(&mut entries, &mut self.entries);
        proof {
            lemma_other_entries(entries@, k.id());
            lemma_other_entries_differ(entries@, k.id());
        }
        forget(&mut entries, k);
        self.entries = entries;
    }

    /// Set the value of a key.
    pub fn insert(&mut self, k: K, v: V)
        ensures
            final(self)@ == old(self)@.insert(k.id(), v),
            final(self).listed() == other_entries(old(self).listed(), k.id()).push((k, v)),
    {
        proof {
            use_type_invariant(&*self);
        }
        let ghost m = self@;
        let mut entries: Vec<(K, V)> = Vec::new();
        std::mem::swap(&mut entries, &mut self.entries);
        proof {
            lemma_other_entries(entries@, k.id());
            lemma_other_entries_differ(entries@, k.id());
        }
        forget(&mut entries, &k);
        let ghost rest = entries@;
        entries.push((k, v));
        proof {
            assert(entries@.drop_last() =~= rest);
            assert(m.remove(k.id()).insert(k.id(), v) =~= m.insert(k.id(), v));
            lemma_push_keeps_distinct(rest, (k, v));
        }
        self.entries = entries;
    }
}

/// Take the entries of a key out.
fn forget<K: MapKey, V>(entries: &mut Vec<(K, V)>, k: &K)
    ensures
        final(entries)@ == other_entries(old(entries)@, k.id()),
{
    let ghost all = entries@;
    let mut i: usize = 0;
    let ghost mut seen: int = 0;
    assert(all.take(0) =~= Seq::empty());
    assert(all.skip(0) =~= all);
    while i < entries.len()
        invariant
            0 <= seen <= all.len(),
            i <= entries.len(),
            entries@.take(i as int) == other_entries(all.take(seen), k.id()),
            entries@.skip(i as int) == all.skip(seen),
        decreases entries.len() - i,
    {
        let ghost e = entries@[i as int];
        proof {
            assert(entries@.skip(i as int).len() == all.skip(seen).len());
            assert(entries@.skip(i as int)[0] == e);
            assert(all.skip(seen)[0] == all[seen]);
            assert(all.take(seen + 1).drop_last() =~= all.take(seen));
            assert(all.take(seen + 1).last() == e);
            assert(all.skip(seen).drop_first() =~= all.skip(seen + 1));
            assert(entries@.skip(i as int).drop_first() =~= entries@.skip(i + 1));
        }
        if entries[i].0.same_key(k) {
            let ghost before = entries@;
            let _ = entries.remove(i);
            proof {
                assert(entries@.take(i as int) =~= before.take(i as int));
                assert(entries@.skip(i as int) =~= before.skip(i + 1));
            }
        } else {
            proof {
                assert(entries@.take(i + 1) =~= entries@.take(i as int).push(e));
            }
            i += 1;
        }
        proof {
            seen = seen + 1;
        }
    }
    proof {
        assert(all.skip(seen).len() == 0);
        assert(all.take(seen) =~= all);
        assert(entries@.take(i as int) =~= entries@);
    }
}

} // verus!
