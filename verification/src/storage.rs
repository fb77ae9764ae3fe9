//! Key-value caching abstraction with interchangeable backends: a bounded
//! least-recently-used cache, an unbounded in-process map, and a
//! remote-backed adapter.
//!
//! Every backend is modelled by a sequence of key/value pairs; the shared
//! lemmas here relate that sequence to the map of current contents.

use vstd::prelude::*;

pub mod cloudflare_kv;
pub mod lru;

verus! {

/// A failure of a remote round-trip, as the remote store reported it.
/// On a `get`, a missing key is never a failure — it is an absent value —
/// but a write round-trip passes a not-found report through unchanged.
#[derive(Clone, Copy, PartialEq, Eq, Structural, Debug)]
pub enum RemoteFailure {
    NotFound,
    Unauthorized,
    BadRequest,
    Api(u16),
    Transport,
}

/// Backend-specific failure. The in-process backends never produce one.
#[derive(Clone, Copy, PartialEq, Eq, Structural, Debug)]
pub enum StorageError {
    Configuration,
    Remote(RemoteFailure),
}

/// Whether some pair of `s` carries the key `k`.
pub open spec fn has_key(s: Seq<(Seq<char>, Seq<char>)>, k: Seq<char>) -> bool {
    exists|i: int| 0 <= i < s.len() && (#[trigger] s[i]).0 == k
}

/// The index of the pair carrying `k` (unique when `unique_keys` holds).
pub open spec fn key_index(s: Seq<(Seq<char>, Seq<char>)>, k: Seq<char>) -> int {
    choose|i: int| 0 <= i < s.len() && (#[trigger] s[i]).0 == k
}

/// The value stored under `k`.
pub open spec fn value_of(s: Seq<(Seq<char>, Seq<char>)>, k: Seq<char>) -> Seq<char> {
    s[key_index(s, k)].1
}

/// No two pairs of `s` carry the same key.
pub open spec fn unique_keys(s: Seq<(Seq<char>, Seq<char>)>) -> bool {
    forall|i: int, j: int| 0 <= i < j < s.len() ==> (#[trigger] s[i]).0 != (#[trigger] s[j]).0
}

/// The map of current contents described by the pair sequence.
pub open spec fn entries_map(s: Seq<(Seq<char>, Seq<char>)>) -> Map<Seq<char>, Seq<char>> {
    Map::new(|k: Seq<char>| has_key(s, k), |k: Seq<char>| value_of(s, k))
}

/// The pair sequence that a vector of owned strings stands for.
pub open spec fn view_pairs(s: Seq<(String, String)>) -> Seq<(Seq<char>, Seq<char>)> {
    s.map_values(|p: (String, String)| (p.0@, p.1@))
}

/// Appending a pair with a fresh key adds exactly that binding.
pub proof fn lemma_push_fresh(s: Seq<(Seq<char>, Seq<char>)>, k: Seq<char>, v: Seq<char>)
    requires
        unique_keys(s),
        !has_key(s, k),
    ensures
        unique_keys(s.push((k, v))),
        entries_map(s.push((k, v))) == entries_map(s).insert(k, v),
{
    let s2 = s.push((k, v));
    assert forall|i: int| 0 <= i < s.len() implies (#[trigger] s2[i]) == s[i] by {}
    assert(s2[s.len() as int] == (k, v));
    assert forall|k2: Seq<char>| has_key(s2, k2) implies has_key(s, k2) || k2 == k by {
        let i = choose|i: int| 0 <= i < s2.len() && (#[trigger] s2[i]).0 == k2;
        if i < s.len() {
            assert(s[i].0 == k2);
        }
    }
    assert forall|k2: Seq<char>| has_key(s, k2) implies has_key(s2, k2) by {
        let i = choose|i: int| 0 <= i < s.len() && (#[trigger] s[i]).0 == k2;
        assert(s2[i].0 == k2);
    }
    assert(has_key(s2, k)) by {
        assert(s2[s.len() as int].0 == k);
    }
    assert forall|k2: Seq<char>| has_key(s2, k2) implies value_of(s2, k2) == entries_map(s).insert(
        k,
        v,
    )[k2] by {
        let i = key_index(s2, k2);
        assert(0 <= i < s2.len() && s2[i].0 == k2);
        if k2 == k {
            if i < s.len() {
                assert(has_key(s, k));
            }
            assert(i == s.len());
            assert(value_of(s2, k2) == v);
        } else {
            assert(i < s.len());
            let j = key_index(s, k2);
            assert(0 <= j < s.len() && s[j].0 == k2) by {
                assert(s[i].0 == k2);
            }
            assert(i == j);
        }
    }
    assert(entries_map(s2) =~= entries_map(s).insert(k, v));
}

/// Removing the pair at `i` removes exactly its binding.
pub proof fn lemma_remove_at(s: Seq<(Seq<char>, Seq<char>)>, i: int)
    requires
        unique_keys(s),
        0 <= i < s.len(),
    ensures
        unique_keys(s.remove(i)),
        entries_map(s.remove(i)) == entries_map(s).remove(s[i].0),
        !has_key(s.remove(i), s[i].0),
{
    let k = s[i].0;
    let s2 = s.remove(i);
    assert forall|j: int| 0 <= j < s2.len() implies (#[trigger] s2[j]) == (if j < i {
        s[j]
    } else {
        s[j + 1]
    }) by {}
    assert forall|k2: Seq<char>| has_key(s2, k2) implies has_key(s, k2) && k2 != k by {
        let j = choose|j: int| 0 <= j < s2.len() && (#[trigger] s2[j]).0 == k2;
        if j < i {
            assert(s[j].0 == k2);
        } else {
            assert(s[j + 1].0 == k2);
        }
    }
    assert forall|k2: Seq<char>| has_key(s, k2) && k2 != k implies has_key(s2, k2) by {
        let j = choose|j: int| 0 <= j < s.len() && (#[trigger] s[j]).0 == k2;
        assert(j != i);
        if j < i {
            assert(s2[j].0 == k2);
        } else {
            assert(s2[j - 1].0 == k2);
        }
    }
    assert forall|k2: Seq<char>| has_key(s2, k2) implies value_of(s2, k2) == value_of(s, k2) by {
        let j = key_index(s2, k2);
        assert(0 <= j < s2.len() && s2[j].0 == k2);
        let j0 = if j < i {
            j
        } else {
            j + 1
        };
        assert(s[j0].0 == k2);
        let j1 = key_index(s, k2);
        assert(0 <= j1 < s.len() && s[j1].0 == k2);
        assert(j1 == j0);
    }
    assert(entries_map(s2) =~= entries_map(s).remove(k));
}

/// Uniform contract of the in-process key-value backends. `contents` is the
/// map of live bindings; an absent key yields `None`, never an error; `set`
/// overwrites; deleting an absent key is a no-op success. A bounded backend
/// may evict other bindings on `set`, so only the written binding and the
/// survival direction of the rest are promised here; the backends state
/// their exact behaviour on their own methods.
pub trait KVStorage: Sized {
    spec fn wf(&self) -> bool;

    spec fn contents(&self) -> Map<Seq<char>, Seq<char>>;

    fn get(&mut self, key: &String) -> (r: Result<Option<String>, StorageError>)
        requires
            old(self).wf(),
        ensures
            final(self).wf(),
            final(self).contents() == old(self).contents(),
            !old(self).contents().contains_key(key@) ==> r == Ok::<Option<String>, StorageError>(
                None,
            ),
            r matches Ok(Some(v)) ==> old(self).contents().contains_key(key@) && v@ == old(
                self,
            ).contents()[key@],
            old(self).contents().contains_key(key@) ==> (r matches Ok(Some(v)) && v@ == old(
                self,
            ).contents()[key@]),
    ;

    fn set(&mut self, key: String, value: String, expire_ttl: Option<usize>) -> (r: Result<
        (),
        StorageError,
    >)
        requires
            old(self).wf(),
        ensures
            final(self).wf(),
            r is Ok,
            final(self).contents().contains_key(key@),
            final(self).contents()[key@] == value@,
            forall|k: Seq<char>|
                final(self).contents().contains_key(k) && k != key@ ==> old(
                    self,
                ).contents().contains_key(k) && final(self).contents()[k] == old(
                    self,
                ).contents()[k],
    ;

    fn delete(&mut self, key: &String) -> (r: Result<(), StorageError>)
        requires
            old(self).wf(),
        ensures
            final(self).wf(),
            r is Ok,
            final(self).contents() == old(self).contents().remove(key@),
    ;
}

/// Unbounded in-process map backend: no eviction, no expiry; entries live
/// until explicit delete or process exit.
pub struct SimpleMemStorage {
    entries: Vec<(String, String)>,
}

impl SimpleMemStorage {
    pub closed spec fn spec_entries(&self) -> Seq<(Seq<char>, Seq<char>)> {
        view_pairs(self.entries@)
    }

    /// An empty store. The capacity only pre-sizes the allocation.
    pub fn with_capacity(capacity: usize) -> (r: Self)
        ensures
            r.wf(),
            r.contents() == Map::<Seq<char>, Seq<char>>::empty(),
            r.spec_entries() == Seq::<(Seq<char>, Seq<char>)>::empty(),
    {
        let r = SimpleMemStorage { entries: Vec::with_capacity(capacity) };
        proof {
            assert(r.spec_entries() =~= Seq::<(Seq<char>, Seq<char>)>::empty());
            assert forall|k: Seq<char>| !has_key(r.spec_entries(), k) by {}
            assert(r.contents() =~= Map::<Seq<char>, Seq<char>>::empty());
        }
        r
    }

    /// The index of `key` among the entries, by linear scan.
    fn position_of(&self, key: &String) -> (r: Option<usize>)
        ensures
            match r {
                Some(i) => i < self.entries@.len() && self.spec_entries()[i as int].0 == key@,
                None => !has_key(self.spec_entries(), key@),
            },
    {
        let n = self.entries.len();
        let mut i: usize = 0;
        while i < n
            invariant
                0 <= i <= n,
                n == self.entries@.len(),
                forall|j: int| 0 <= j < i ==> (#[trigger] self.spec_entries()[j]).0 != key@,
            decreases n - i,
        {
            if self.entries[i].0 == *key {
                assert(self.spec_entries()[i as int].0 == key@);
                return Some(i);
            }
            assert(self.spec_entries()[i as int].0 != key@);
            i = i + 1;
        }
        None
    }
}

impl KVStorage for SimpleMemStorage {
    open spec fn wf(&self) -> bool {
        unique_keys(self.spec_entries())
    }

    open spec fn contents(&self) -> Map<Seq<char>, Seq<char>> {
        entries_map(self.spec_entries())
    }

    fn get(&mut self, key: &String) -> (r: Result<Option<String>, StorageError>) {
        match self.position_of(key) {
            Some(i) => {
                let v = self.entries[i].1.clone();
                proof {
                    assert(has_key(self.spec_entries(), key@)) by {
                        assert(self.spec_entries()[i as int].0 == key@);
                    }
                    let j = key_index(self.spec_entries(), key@);
                    assert(j == i as int);
                }
                Ok(Some(v))
            }
            None => {
                proof {
                    assert(!self.contents().contains_key(key@));
                }
                Ok(None)
            }
        }
    }

    fn set(&mut self, key: String, value: String, expire_ttl: Option<usize>) -> (r: Result<
        (),
        StorageError,
    >)
        ensures
            final(self).contents() == old(self).contents().insert(key@, value@),
    {
        let ghost s0 = self.spec_entries();
        match self.position_of(&key) {
            Some(i) => {
                let _ = self.entries.remove(i);
                proof {
                    assert(self.spec_entries() =~= s0.remove(i as int));
                    lemma_remove_at(s0, i as int);
                }
            }
            None => {}
        }
        let ghost s1 = self.spec_entries();
        proof {
            assert(unique_keys(s1));
            assert(!has_key(s1, key@));
            lemma_push_fresh(s1, key@, value@);
        }
        self.entries.push((key, value));
        proof {
            assert(self.spec_entries() =~= s1.push((key@, value@)));
        }
        Ok(())
    }

    fn delete(&mut self, key: &String) -> (r: Result<(), StorageError>)
        ensures
            final(self).contents() == old(self).contents().remove(key@),
    {
        let ghost s0 = self.spec_entries();
        match self.position_of(key) {
            Some(i) => {
                let _ = self.entries.remove(i);
                proof {
                    assert(self.spec_entries() =~= s0.remove(i as int));
                    lemma_remove_at(s0, i as int);
                }
            }
            None => {
                proof {
                    assert(!self.contents().contains_key(key@));
                    assert(self.contents() =~= self.contents().remove(key@));
                }
            }
        }
        Ok(())
    }
}

} // verus!
