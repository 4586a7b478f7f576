//! An association map keyed by interned identifiers.
//!
//! Module scopes, exports, imports and impl tables all bind identifiers to
//! values. The map is a vector of key-value pairs with pairwise distinct
//! keys, so lookups view it as a `Map<u64, V>` while iteration walks the
//! pairs in insertion order, which keeps diagnostics deterministic.

use vstd::pervasive::VecAdditionalExecFns;
use vstd::prelude::*;

verus! {

/// The map denoted by an association list; on duplicate keys the later pair
/// wins, though a well-formed `SMap` never holds one.
pub open spec fn map_of<V>(entries: Seq<(u64, V)>) -> Map<u64, V>
    decreases entries.len(),
{
    if entries.len() == 0 {
        Map::empty()
    } else {
        map_of(entries.drop_last()).insert(entries.last().0, entries.last().1)
    }
}

/// A key is bound exactly when some pair carries it.
pub proof fn lemma_map_of_contains<V>(entries: Seq<(u64, V)>, k: u64)
    ensures
        map_of(entries).contains_key(k) <==> exists|i: int|
            0 <= i < entries.len() && (#[trigger] entries[i]).0 == k,
    decreases entries.len(),
{
    if entries.len() > 0 {
        lemma_map_of_contains(entries.drop_last(), k);
        if map_of(entries).contains_key(k) && entries.last().0 != k {
            let i = choose|i: int|
                0 <= i < entries.drop_last().len() && (#[trigger] entries.drop_last()[i]).0 == k;
            assert(entries[i].0 == k);
        }
        if exists|i: int| 0 <= i < entries.len() && (#[trigger] entries[i]).0 == k {
            let i = choose|i: int| 0 <= i < entries.len() && (#[trigger] entries[i]).0 == k;
            if i < entries.len() - 1 {
                assert(entries.drop_last()[i].0 == k);
            }
        }
    }
}

/// With distinct keys, the pair at `i` gives the bound value.
pub proof fn lemma_map_of_index<V>(entries: Seq<(u64, V)>, i: int)
    requires
        forall|a: int, b: int|
            0 <= a < b < entries.len() ==> (#[trigger] entries[a]).0 != (#[trigger] entries[b]).0,
        0 <= i < entries.len(),
    ensures
        map_of(entries).contains_key(entries[i].0),
        map_of(entries)[entries[i].0] == entries[i].1,
    decreases entries.len(),
{
    if i == entries.len() - 1 {
    } else {
        assert(entries[i].0 != entries.last().0);
        assert(entries.drop_last()[i] == entries[i]);
        lemma_map_of_index(entries.drop_last(), i);
    }
}

/// An association map from interned identifiers to values.
#[derive(Debug)]
pub struct SMap<V> {
    pub entries: Vec<(u64, V)>,
}

impl<V> View for SMap<V> {
    type V = Map<u64, V>;

    open spec fn view(&self) -> Map<u64, V> {
        map_of(self.entries@)
    }
}

impl<V> SMap<V> {
    /// Well-formed: the keys are pairwise distinct.
    pub open spec fn wf(&self) -> bool {
        forall|a: int, b: int|
            0 <= a < b < self.entries@.len() ==> (#[trigger] self.entries@[a]).0 != (
            #[trigger] self.entries@[b]).0
    }

    /// The empty map.
    pub fn new() -> (r: Self)
        ensures
            r.wf(),
            r@ == Map::<u64, V>::empty(),
            r.entries@.len() == 0,
    {
        SMap { entries: Vec::new() }
    }

    /// How many keys are bound.
    pub fn len(&self) -> (r: usize)
        ensures
            r == self.entries@.len(),
    {
        self.entries.len()
    }

    /// The value bound to `k`, if any.
    pub fn get(&self, k: u64) -> (r: Option<&V>)
        requires
            self.wf(),
        ensures
            match r {
                Some(v) => self@.contains_key(k) && *v == self@[k],
                None => !self@.contains_key(k),
            },
    {
        let n = self.entries.len();
        let mut i: usize = 0;
        while i < n
            invariant
                self.wf(),
                n == self.entries@.len(),
                i <= n,
                forall|j: int| 0 <= j < i ==> (#[trigger] self.entries@[j]).0 != k,
            decreases n - i,
        {
            let e = &self.entries[i];
            if e.0 == k {
                proof {
                    lemma_map_of_index(self.entries@, i as int);
                }
                return Some(&e.1);
            }
            i += 1;
        }
        proof {
            lemma_map_of_contains(self.entries@, k);
        }
        None
    }

    /// Whether `k` is bound.
    pub fn contains_key(&self, k: u64) -> (r: bool)
        requires
            self.wf(),
        ensures
            r == self@.contains_key(k),
    {
        self.get(k).is_some()
    }

    /// Binds `k` to `v`, replacing any earlier binding.
    pub fn insert(&mut self, k: u64, v: V)
        requires
            old(self).wf(),
        ensures
            final(self).wf(),
            final(self)@ == old(self)@.insert(k, v),
            old(self)@.contains_key(k) ==> final(self).entries@.len() == old(
                self,
            ).entries@.len(),
            !old(self)@.contains_key(k) ==> final(self).entries@ == old(self).entries@.push(
                (k, v),
            ),
    {
        let n = self.entries.len();
        let mut i: usize = 0;
        while i < n
            invariant
                self.wf(),
                self.entries@ == old(self).entries@,
                n == self.entries@.len(),
                i <= n,
                forall|j: int| 0 <= j < i ==> (#[trigger] self.entries@[j]).0 != k,
            decreases n - i,
        {
            if self.entries[i].0 == k {
                proof {
                    lemma_map_of_contains(self.entries@, k);
                }
                self.entries.set(i, (k, v));
                proof {
                    lemma_smap_update(old(self).entries@, self.entries@, i as int, k, v);
                }
                return ;
            }
            i += 1;
        }
        proof {
            lemma_map_of_contains(self.entries@, k);
        }
        self.entries.push((k, v));
        proof {
            assert(self.entries@.drop_last() =~= old(self).entries@);
        }
    }

    /// The pair at position `i`, for iteration in insertion order.
    pub fn entry_at(&self, i: usize) -> (r: &(u64, V))
        requires
            i < self.entries@.len(),
        ensures
            *r == self.entries@[i as int],
    {
        &self.entries[i]
    }

    /// A pair of a well-formed map is a binding of the denoted map.
    pub proof fn lemma_entry_in_view(&self, i: int)
        requires
            self.wf(),
            0 <= i < self.entries@.len(),
        ensures
            self@.contains_key(self.entries@[i].0),
            self@[self.entries@[i].0] == self.entries@[i].1,
    {
        lemma_map_of_index(self.entries@, i);
    }
}

impl<V: Copy> SMap<V> {
    /// A copy of this map, pair for pair.
    pub fn duplicate(&self) -> (r: Self)
        ensures
            r.entries@ == self.entries@,
            r@ == self@,
            r.wf() == self.wf(),
    {
        let n = self.entries.len();
        let mut out: Vec<(u64, V)> = Vec::new();
        let mut i: usize = 0;
        while i < n
            invariant
                n == self.entries@.len(),
                i <= n,
                out@ == self.entries@.take(i as int),
            decreases n - i,
        {
            let e = self.entries[i];
            out.push(e);
            proof {
                assert(self.entries@.take(i + 1 as int) =~= self.entries@.take(i as int).push(
                    self.entries@[i as int],
                ));
            }
            i += 1;
        }
        proof {
            assert(self.entries@.take(n as int) =~= self.entries@);
        }
        SMap { entries: out }
    }
}

/// Replacing the pair at `i` by one with the same key re-binds that key and
/// nothing else.
proof fn lemma_smap_update<V>(
    old_entries: Seq<(u64, V)>,
    new_entries: Seq<(u64, V)>,
    i: int,
    k: u64,
    v: V,
)
    requires
        forall|a: int, b: int|
            0 <= a < b < old_entries.len() ==> (#[trigger] old_entries[a]).0 != (
            #[trigger] old_entries[b]).0,
        0 <= i < old_entries.len(),
        old_entries[i].0 == k,
        new_entries == old_entries.update(i, (k, v)),
    ensures
        map_of(new_entries) == map_of(old_entries).insert(k, v),
    decreases old_entries.len(),
{
    if i == old_entries.len() - 1 {
        assert(new_entries.drop_last() =~= old_entries.drop_last());
        assert(map_of(new_entries) =~= map_of(old_entries).insert(k, v));
    } else {
        assert(new_entries.drop_last() =~= old_entries.drop_last().update(i, (k, v)));
        lemma_smap_update(
            old_entries.drop_last(),
            new_entries.drop_last(),
            i,
            k,
            v,
        );
        assert(new_entries.last() == old_entries.last());
        assert(old_entries.last().0 != k);
        assert(map_of(new_entries) =~= map_of(old_entries).insert(k, v));
    }
}

} // verus!
