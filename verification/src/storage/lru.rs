//! Bounded least-recently-used backend.
//!
//! The cache itself is hashlink's `LruCache`; its contents are modelled as a
//! recency-ordered sequence of key/value pairs, least recent first. Every
//! method is specified as a transition on that sequence, and the eviction
//! laws are proved from those transitions.

use vstd::prelude::*;

use crate::storage::{
    KVStorage, StorageError, entries_map, has_key, key_index, lemma_push_fresh, lemma_remove_at,
    unique_keys, value_of,
};

verus! {

#[verifier::external_type_specification]
#[verifier::external_body]
#[verifier::reject_recursive_types(K)]
#[verifier::reject_recursive_types(V)]
#[verifier::reject_recursive_types(S)]
pub struct ExLruCache<K, V, S>(hashlink::LruCache<K, V, S>);

#[verifier::external_type_specification]
#[verifier::external_body]
pub struct ExDefaultHashBuilder(hashlink::DefaultHashBuilder);

/// The contents of a cache as a recency sequence, least recent first.
pub uninterp spec fn lru_entries(c: hashlink::LruCache<String, String, hashlink::DefaultHashBuilder>) -> Seq<(Seq<char>, Seq<char>)>;

/// The fixed capacity the cache was created with.
pub uninterp spec fn lru_capacity(c: hashlink::LruCache<String, String, hashlink::DefaultHashBuilder>) -> nat;

/// The recency sequence after a `get` of `k`: the entry, if present, moves
/// to the most-recent end; nothing else changes.
pub open spec fn lru_after_get(s: Seq<(Seq<char>, Seq<char>)>, k: Seq<char>) -> Seq<
    (Seq<char>, Seq<char>),
> {
    if has_key(s, k) {
        let i = key_index(s, k);
        s.remove(i).push(s[i])
    } else {
        s
    }
}

/// The recency sequence after inserting `k -> v` into a cache of capacity
/// `cap`: any entry with the same key is removed first, the pair joins at
/// the most-recent end, and if the cache now exceeds its capacity the
/// least-recent entry is evicted.
pub open spec fn lru_after_insert(
    s: Seq<(Seq<char>, Seq<char>)>,
    cap: nat,
    k: Seq<char>,
    v: Seq<char>,
) -> Seq<(Seq<char>, Seq<char>)> {
    let s1 = if has_key(s, k) {
        s.remove(key_index(s, k))
    } else {
        s
    };
    let s2 = s1.push((k, v));
    if s2.len() > cap {
        s2.remove(0)
    } else {
        s2
    }
}

/// The recency sequence after removing `k`.
pub open spec fn lru_after_remove(s: Seq<(Seq<char>, Seq<char>)>, k: Seq<char>) -> Seq<
    (Seq<char>, Seq<char>),
> {
    if has_key(s, k) {
        s.remove(key_index(s, k))
    } else {
        s
    }
}

/// Relies on hashlink::LruCache::new: an empty cache with the given capacity.
#[verifier::external_body]
fn lru_new(capacity: usize) -> (c: hashlink::LruCache<String, String, hashlink::DefaultHashBuilder>)
    ensures
        lru_entries(c) == Seq::<(Seq<char>, Seq<char>)>::empty(),
        lru_capacity(c) == capacity as nat,
{
    hashlink::LruCache::new(capacity)
}

/// Relies on hashlink::LruCache::get: returns the value under the key and
/// moves that entry to the most-recent end of the internal list; the
/// relative recency of the other entries is unchanged.
#[verifier::external_body]
fn lru_get(c: &mut hashlink::LruCache<String, String, hashlink::DefaultHashBuilder>, key: &String) -> (r:
    Option<String>)
    ensures
        lru_capacity(*final(c)) == lru_capacity(*old(c)),
        lru_entries(*final(c)) == lru_after_get(lru_entries(*old(c)), key@),
        has_key(lru_entries(*old(c)), key@) ==> (r matches Some(v) && v@ == value_of(
            lru_entries(*old(c)),
            key@,
        )),
        !has_key(lru_entries(*old(c)), key@) ==> r is None,
{
    c.get(key).cloned()
}

/// Relies on hashlink::LruCache::insert: replaces and refreshes any entry
/// with the same key, inserts at the most-recent end, and removes the entry
/// at the front of the list (the least recent) when the capacity is
/// exceeded.
#[verifier::external_body]
fn lru_insert(
    c: &mut hashlink::LruCache<String, String, hashlink::DefaultHashBuilder>,
    key: String,
    value: String,
)
    ensures
        lru_capacity(*final(c)) == lru_capacity(*old(c)),
        lru_entries(*final(c)) == lru_after_insert(
            lru_entries(*old(c)),
            lru_capacity(*old(c)),
            key@,
            value@,
        ),
{
    let _ = c.insert(key, value);
}

/// Relies on hashlink::LruCache::remove: removes the entry under the key,
/// if any, leaving the recency of the rest unchanged.
#[verifier::external_body]
fn lru_remove(c: &mut hashlink::LruCache<String, String, hashlink::DefaultHashBuilder>, key: &String) -> (r:
    Option<String>)
    ensures
        lru_capacity(*final(c)) == lru_capacity(*old(c)),
        lru_entries(*final(c)) == lru_after_remove(lru_entries(*old(c)), key@),
        has_key(lru_entries(*old(c)), key@) ==> (r matches Some(v) && v@ == value_of(
            lru_entries(*old(c)),
            key@,
        )),
        !has_key(lru_entries(*old(c)), key@) ==> r is None,
{
    c.remove(key)
}

/// A `get` does not change the map of contents, the set of keys, or the
/// number of entries.
pub proof fn lemma_after_get_contents(s: Seq<(Seq<char>, Seq<char>)>, k: Seq<char>)
    requires
        unique_keys(s),
    ensures
        unique_keys(lru_after_get(s, k)),
        lru_after_get(s, k).len() == s.len(),
        entries_map(lru_after_get(s, k)) == entries_map(s),
{
    if has_key(s, k) {
        let i = key_index(s, k);
        assert(0 <= i < s.len() && s[i].0 == k);
        lemma_remove_at(s, i);
        lemma_push_fresh(s.remove(i), k, s[i].1);
        assert(value_of(s, k) == s[i].1) by {
            let j = key_index(s, k);
            assert(0 <= j < s.len() && s[j].0 == k);
        }
        assert(entries_map(s).remove(k).insert(k, s[i].1) =~= entries_map(s)) by {
            assert(entries_map(s).contains_key(k));
            assert(entries_map(s)[k] == value_of(s, k));
        }
        assert(s.remove(i).push(s[i]) == s.remove(i).push((k, s[i].1)));
    }
}

/// An insert binds the key to the value; every other surviving binding
/// existed before, unchanged.
pub proof fn lemma_after_insert_contents(
    s: Seq<(Seq<char>, Seq<char>)>,
    cap: nat,
    k: Seq<char>,
    v: Seq<char>,
)
    requires
        unique_keys(s),
        s.len() <= cap,
        cap >= 1,
    ensures
        unique_keys(lru_after_insert(s, cap, k, v)),
        lru_after_insert(s, cap, k, v).len() <= cap,
        entries_map(lru_after_insert(s, cap, k, v)).contains_key(k),
        entries_map(lru_after_insert(s, cap, k, v))[k] == v,
        forall|k2: Seq<char>|
            entries_map(lru_after_insert(s, cap, k, v)).contains_key(k2) && k2 != k ==> entries_map(
                s,
            ).contains_key(k2) && entries_map(lru_after_insert(s, cap, k, v))[k2] == entries_map(
                s,
            )[k2],
{
    let s1 = if has_key(s, k) {
        s.remove(key_index(s, k))
    } else {
        s
    };
    if has_key(s, k) {
        let i = key_index(s, k);
        assert(0 <= i < s.len() && s[i].0 == k);
        lemma_remove_at(s, i);
    }
    assert(unique_keys(s1) && !has_key(s1, k));
    let s2 = s1.push((k, v));
    lemma_push_fresh(s1, k, v);
    let s3 = lru_after_insert(s, cap, k, v);
    if s2.len() > cap {
        assert(s1.len() == cap);
        assert(s2[0] == s1[0]);
        assert(has_key(s1, s1[0].0)) by {
            assert(s1[0].0 == s1[0].0);
        }
        assert(s2[0].0 != k);
        lemma_remove_at(s2, 0);
        assert(s3 == s2.remove(0));
        assert(entries_map(s3) == entries_map(s2).remove(s2[0].0));
    } else {
        assert(s3 == s2);
    }
    assert forall|k2: Seq<char>|
        entries_map(s3).contains_key(k2) && k2 != k implies entries_map(s).contains_key(k2)
        && entries_map(s3)[k2] == entries_map(s)[k2] by {
        assert(has_key(s3, k2));
        assert(has_key(s2, k2));
        assert(has_key(s1, k2));
        if has_key(s, k) {
            let i = key_index(s, k);
            assert(entries_map(s1) == entries_map(s).remove(s[i].0));
        }
    }
}

/// Law: inserting a fresh key into a full cache evicts exactly the
/// least-recently-used entry — the front of the recency sequence — and
/// appends the new pair at the most-recent end.
pub proof fn lemma_lru_eviction(s: Seq<(Seq<char>, Seq<char>)>, cap: nat, k: Seq<char>, v: Seq<char>)
    requires
        unique_keys(s),
        s.len() == cap,
        cap >= 1,
        !has_key(s, k),
    ensures
        lru_after_insert(s, cap, k, v) == s.remove(0).push((k, v)),
        !has_key(lru_after_insert(s, cap, k, v), s[0].0),
{
    let s2 = s.push((k, v));
    assert(lru_after_insert(s, cap, k, v) == s2.remove(0));
    assert(s2.remove(0) =~= s.remove(0).push((k, v)));
    lemma_remove_at(s, 0);
    lemma_push_fresh(s.remove(0), k, v);
    assert(!has_key(s.remove(0), s[0].0));
    assert(s[0].0 != k) by {
        assert(has_key(s, s[0].0)) by {
            assert(s[0].0 == s[0].0);
        }
    }
    assert forall|j: int| 0 <= j < s.remove(0).push((k, v)).len() implies (#[trigger] s.remove(
        0,
    ).push((k, v))[j]).0 != s[0].0 by {
        if j < s.remove(0).len() {
            assert(!has_key(s.remove(0), s[0].0));
        }
    }
}

/// Law: a `get` refreshes an entry's recency, so on the next overflow it is
/// some other entry that is evicted — the refreshed key survives. (With a
/// capacity of one the refreshed entry is itself the front, so the law asks
/// for capacity at least two.)
pub proof fn lemma_get_refresh_prevents_eviction(
    s: Seq<(Seq<char>, Seq<char>)>,
    cap: nat,
    k0: Seq<char>,
    k: Seq<char>,
    v: Seq<char>,
)
    requires
        unique_keys(s),
        s.len() == cap,
        cap >= 2,
        has_key(s, k0),
        !has_key(s, k),
        k0 != k,
    ensures
        has_key(lru_after_insert(lru_after_get(s, k0), cap, k, v), k0),
{
    let sg = lru_after_get(s, k0);
    lemma_after_get_contents(s, k0);
    assert(has_key(sg, k0)) by {
        assert(entries_map(sg) == entries_map(s));
        assert(entries_map(s).contains_key(k0));
        assert(entries_map(sg).contains_key(k0));
    }
    assert(!has_key(sg, k)) by {
        assert(entries_map(sg) == entries_map(s));
        if has_key(sg, k) {
            assert(entries_map(sg).contains_key(k));
        }
    }
    let i = key_index(s, k0);
    assert(0 <= i < s.len() && s[i].0 == k0);
    assert(sg == s.remove(i).push(s[i]));
    assert(sg.len() == cap);
    assert(sg[cap - 1] == s[i]);
    lemma_lru_eviction(sg, cap, k, v);
    let aft = lru_after_insert(sg, cap, k, v);
    assert(aft == sg.remove(0).push((k, v)));
    assert(sg.remove(0)[cap - 2] == sg[cap - 1]);
    assert(aft[cap - 2] == sg[cap - 1]);
    assert(aft[cap - 2].0 == k0);
}

/// Bounded least-recently-used storage: fixed capacity, eviction of the
/// least-recently-accessed entry on overflow; the `ttl` argument of `set`
/// is accepted but not enforced.
pub struct LruStorage {
    cache: hashlink::LruCache<String, String, hashlink::DefaultHashBuilder>,
}

impl LruStorage {
    /// The recency sequence of the cache, least recent first.
    pub closed spec fn recency(&self) -> Seq<(Seq<char>, Seq<char>)> {
        lru_entries(self.cache)
    }

    /// The fixed capacity.
    pub closed spec fn capacity(&self) -> nat {
        lru_capacity(self.cache)
    }

    /// An empty cache of the given capacity. A capacity of zero could hold
    /// nothing at all, so at least one slot is required.
    pub fn new(capacity: usize) -> (r: LruStorage)
        requires
            capacity >= 1,
        ensures
            r.wf(),
            r.capacity() == capacity as nat,
            r.recency() == Seq::<(Seq<char>, Seq<char>)>::empty(),
            r.contents() == Map::<Seq<char>, Seq<char>>::empty(),
    {
        let r = LruStorage { cache: lru_new(capacity) };
        proof {
            assert forall|k: Seq<char>| !has_key(r.recency(), k) by {}
            assert(r.contents() =~= Map::<Seq<char>, Seq<char>>::empty());
        }
        r
    }
}

impl KVStorage for LruStorage {
    open spec fn wf(&self) -> bool {
        unique_keys(self.recency()) && self.recency().len() <= self.capacity() && self.capacity()
            >= 1
    }

    open spec fn contents(&self) -> Map<Seq<char>, Seq<char>> {
        entries_map(self.recency())
    }

    fn get(&mut self, key: &String) -> (r: Result<Option<String>, StorageError>)
        ensures
            final(self).capacity() == old(self).capacity(),
            final(self).recency() == lru_after_get(old(self).recency(), key@),
    {
        let ghost s0 = self.recency();
        let v = lru_get(&mut self.cache, key);
        proof {
            lemma_after_get_contents(s0, key@);
        }
        Ok(v)
    }

    fn set(&mut self, key: String, value: String, expire_ttl: Option<usize>) -> (r: Result<
        (),
        StorageError,
    >)
        ensures
            final(self).capacity() == old(self).capacity(),
            final(self).recency() == lru_after_insert(
                old(self).recency(),
                old(self).capacity(),
                key@,
                value@,
            ),
    {
        let ghost s0 = self.recency();
        let ghost k = key@;
        let ghost v = value@;
        proof {
            lemma_after_insert_contents(s0, self.capacity(), k, v);
        }
        lru_insert(&mut self.cache, key, value);
        Ok(())
    }

    fn delete(&mut self, key: &String) -> (r: Result<(), StorageError>)
        ensures
            final(self).capacity() == old(self).capacity(),
            final(self).recency() == lru_after_remove(old(self).recency(), key@),
    {
        let ghost s0 = self.recency();
        let _ = lru_remove(&mut self.cache, key);
        proof {
            if has_key(s0, key@) {
                let i = key_index(s0, key@);
                assert(0 <= i < s0.len() && s0[i].0 == key@);
                lemma_remove_at(s0, i);
            } else {
                assert(!entries_map(s0).contains_key(key@));
                assert(entries_map(s0) =~= entries_map(s0).remove(key@));
            }
        }
        Ok(())
    }
}

} // verus!
