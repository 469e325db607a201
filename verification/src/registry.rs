//! The shared process registry: a map from a serialized process key to the
//! id of the owned process handle. All components (launcher, monitors,
//! terminator, inspector) operate on one registry under mutual exclusion;
//! the caller holds it behind a lock and each operation is a single map
//! step, so removal is the serialization point that decides which component
//! owns a handle.

use vstd::prelude::*;

verus! {

struct Entry {
    key: String,
    handle: u64,
}

/// Registry of live tracked processes. Viewed as a `Map` from the key's
/// character sequence to the process handle id.
pub struct Registry {
    entries: Vec<Entry>,
}

spec fn distinct_keys(s: Seq<Entry>) -> bool {
    forall|i: int, j: int| 0 <= i < j < s.len() ==> s[i].key@ != s[j].key@
}

spec fn has_key(s: Seq<Entry>, k: Seq<char>) -> bool {
    exists|i: int| 0 <= i < s.len() && s[i].key@ == k
}

spec fn idx_of(s: Seq<Entry>, k: Seq<char>) -> int {
    choose|i: int| 0 <= i < s.len() && s[i].key@ == k
}

spec fn map_of(s: Seq<Entry>) -> Map<Seq<char>, u64> {
    Map::new(|k: Seq<char>| has_key(s, k), |k: Seq<char>| s[idx_of(s, k)].handle)
}

/// With distinct keys, the entry at index `i` is the one the map sees for
/// its key.
proof fn lemma_entry_at(s: Seq<Entry>, i: int)
    requires
        distinct_keys(s),
        0 <= i < s.len(),
    ensures
        has_key(s, s[i].key@),
        idx_of(s, s[i].key@) == i,
        map_of(s).contains_key(s[i].key@),
        map_of(s)[s[i].key@] == s[i].handle,
{
    let k = s[i].key@;
    assert(has_key(s, k));
    let j = idx_of(s, k);
    assert(0 <= j < s.len() && s[j].key@ == k);
    if j != i {
        if j < i {
            assert(s[j].key@ != s[i].key@);
        } else {
            assert(s[i].key@ != s[j].key@);
        }
        assert(false);
    }
}

/// Appending an entry whose key is absent adds exactly that binding.
proof fn lemma_push_inserts(s: Seq<Entry>, e: Entry)
    requires
        distinct_keys(s),
        !has_key(s, e.key@),
    ensures
        distinct_keys(s.push(e)),
        map_of(s.push(e)) == map_of(s).insert(e.key@, e.handle),
{
    let s2 = s.push(e);
    assert forall|i: int, j: int| 0 <= i < j < s2.len() implies s2[i].key@ != s2[j].key@ by {
        if j < s.len() {
            assert(s2[i] == s[i] && s2[j] == s[j]);
        } else {
            assert(s2[j] == e && s2[i] == s[i]);
            assert(has_key(s, s[i].key@)) by {
                lemma_entry_at(s, i);
            }
        }
    }
    assert forall|k: Seq<char>| #[trigger] has_key(s2, k) || has_key(s, k) || k == e.key@ implies
        (has_key(s2, k) <==> (has_key(s, k) || k == e.key@)) by {
        if has_key(s2, k) {
            let i = choose|i: int| 0 <= i < s2.len() && s2[i].key@ == k;
            if i < s.len() {
                assert(s[i].key@ == k);
                assert(has_key(s, k));
            } else {
                assert(s2[i] == e);
            }
        }
        if has_key(s, k) {
            let i = choose|i: int| 0 <= i < s.len() && s[i].key@ == k;
            assert(s2[i].key@ == k);
            assert(has_key(s2, k));
        }
        if k == e.key@ {
            assert(s2[s.len() as int] == e);
            assert(has_key(s2, k));
        }
    }
    assert forall|k: Seq<char>| #[trigger] map_of(s2).contains_key(k) implies
        map_of(s2)[k] == map_of(s).insert(e.key@, e.handle)[k] by {
        if k == e.key@ {
            lemma_entry_at(s2, s.len() as int);
        } else {
            let i = choose|i: int| 0 <= i < s.len() && s[i].key@ == k;
            lemma_entry_at(s, i);
            assert(s2[i].key@ == k);
            lemma_entry_at(s2, i);
        }
    }
    assert(map_of(s2) =~= map_of(s).insert(e.key@, e.handle));
}

/// Removing the entry at index `i` removes exactly its binding.
proof fn lemma_remove_at(s: Seq<Entry>, i: int)
    requires
        distinct_keys(s),
        0 <= i < s.len(),
    ensures
        distinct_keys(s.remove(i)),
        map_of(s.remove(i)) == map_of(s).remove(s[i].key@),
{
    let s2 = s.remove(i);
    s.remove_ensures(i);
    assert forall|p: int, q: int| 0 <= p < q < s2.len() implies s2[p].key@ != s2[q].key@ by {
        let p0: int = if p < i { p } else { p + 1 };
        let q0: int = if q < i { q } else { q + 1 };
        assert(s2[p] == s[p0] && s2[q] == s[q0]);
    }
    assert forall|k: Seq<char>| #[trigger] has_key(s2, k) || has_key(s, k) implies
        (has_key(s2, k) <==> (has_key(s, k) && k != s[i].key@)) by {
        if has_key(s2, k) {
            let p = choose|p: int| 0 <= p < s2.len() && s2[p].key@ == k;
            let p0: int = if p < i { p } else { p + 1 };
            assert(s[p0].key@ == k);
            assert(has_key(s, k));
            assert(p0 != i);
            if k == s[i].key@ {
                lemma_entry_at(s, p0);
                lemma_entry_at(s, i);
                assert(false);
            }
        }
        if has_key(s, k) && k != s[i].key@ {
            let p0 = choose|p0: int| 0 <= p0 < s.len() && s[p0].key@ == k;
            assert(p0 != i);
            let p: int = if p0 < i { p0 } else { p0 - 1 };
            assert(s2[p].key@ == k);
            assert(has_key(s2, k));
        }
    }
    assert forall|k: Seq<char>| #[trigger] map_of(s2).contains_key(k) implies
        map_of(s2)[k] == map_of(s).remove(s[i].key@)[k] by {
        let p = choose|p: int| 0 <= p < s2.len() && s2[p].key@ == k;
        let p0: int = if p < i { p } else { p + 1 };
        assert(s2[p] == s[p0]);
        lemma_entry_at(s2, p);
        lemma_entry_at(s, p0);
    }
    assert(map_of(s2) =~= map_of(s).remove(s[i].key@));
}

impl View for Registry {
    type V = Map<Seq<char>, u64>;

    closed spec fn view(&self) -> Map<Seq<char>, u64> {
        map_of(self.entries@)
    }
}

impl Registry {
    #[verifier::type_invariant]
    spec fn wf(&self) -> bool {
        distinct_keys(self.entries@)
    }

    /// An empty registry: nothing is tracked at supervisor start.
    pub fn new() -> (r: Registry)
        ensures
            r@ == Map::<Seq<char>, u64>::empty(),
    {
        let r = Registry { entries: Vec::new() };
        proof {
            assert(r@ =~= Map::<Seq<char>, u64>::empty());
        }
        r
    }

    /// Index of the live entry under `key`, if any.
    fn find(&self, key: &String) -> (r: Option<usize>)
        ensures
            match r {
                Some(i) => i < self.entries@.len() && self.entries@[i as int].key@ == key@
                    && self@.contains_key(key@) && self@[key@] == self.entries@[i as int].handle,
                None => !self@.contains_key(key@),
            },
    {
        proof {
            use_type_invariant(&*self);
        }
        let n = self.entries.len();
        let mut i: usize = 0;
        while i < n
            invariant
                n == self.entries@.len(),
                distinct_keys(self.entries@),
                0 <= i <= n,
                forall|j: int| 0 <= j < i ==> self.entries@[j].key@ != key@,
            decreases n - i,
        {
            if self.entries[i].key == *key {
                proof {
                    lemma_entry_at(self.entries@, i as int);
                }
                return Some(i);
            }
            i = i + 1;
        }
        proof {
            if self@.contains_key(key@) {
                let j = choose|j: int| 0 <= j < self.entries@.len() && self.entries@[j].key@
                    == key@;
                assert(false);
            }
        }
        None
    }

    /// Whether a process is tracked under `key`.
    pub fn contains(&self, key: &String) -> (r: bool)
        ensures
            r == self@.contains_key(key@),
    {
        self.find(key).is_some()
    }

    /// The handle id tracked under `key`, if any.
    pub fn get(&self, key: &String) -> (r: Option<u64>)
        ensures
            r == (if self@.contains_key(key@) {
                Some(self@[key@])
            } else {
                None::<u64>
            }),
    {
        match self.find(key) {
            Some(i) => Some(self.entries[i].handle),
            None => None,
        }
    }

    /// Takes the handle under `key` out of the registry, if present.
    /// Whoever receives `Some` is from then on the sole owner of the handle;
    /// a later removal of the same key finds nothing.
    pub fn remove(&mut self, key: &String) -> (r: Option<u64>)
        ensures
            final(self)@ == old(self)@.remove(key@),
            r == (if old(self)@.contains_key(key@) {
                Some(old(self)@[key@])
            } else {
                None::<u64>
            }),
    {
        proof {
            use_type_invariant(&*self);
        }
        match self.find(key) {
            Some(i) => {
                proof {
                    lemma_remove_at(self.entries@, i as int);
                }
                let mut entries: Vec<Entry> = Vec::new();
                std::mem::swap(&mut entries, &mut self.entries);
                let e = entries.remove(i);
                self.entries = entries;
                Some(e.handle)
            }
            None => {
                proof {
                    assert(self@ =~= self@.remove(key@));
                }
                None
            }
        }
    }

    /// Tracks `handle` under `key`, silently replacing any prior entry for
    /// the same key.
    pub fn insert(&mut self, key: String, handle: u64)
        ensures
            final(self)@ == old(self)@.insert(key@, handle),
    {
        let _ = self.remove(&key);
        proof {
            use_type_invariant(&*self);
            assert(!self@.contains_key(key@));
            assert(!has_key(self.entries@, key@));
            lemma_push_inserts(self.entries@, Entry { key, handle });
        }
        let entry = Entry { key, handle };
        let mut entries: Vec<Entry> = Vec::new();
        std::mem::swap(&mut entries, &mut self.entries);
        entries.push(entry);
        self.entries = entries;
        proof {
            assert(self@ =~= old(self)@.insert(key@, handle));
        }
    }

    /// Point-in-time snapshot of the tracked keys: each key exactly once.
    pub fn keys(&self) -> (r: Vec<String>)
        ensures
            forall|i: int| 0 <= i < r@.len() ==> self@.contains_key(#[trigger] r@[i]@),
            forall|i: int, j: int| 0 <= i < j < r@.len() ==> r@[i]@ != r@[j]@,
            forall|k: Seq<char>|
                self@.contains_key(k) ==> exists|i: int| 0 <= i < r@.len() && #[trigger] r@[i]@
                    == k,
    {
        proof {
            use_type_invariant(&*self);
        }
        let n = self.entries.len();
        let mut r: Vec<String> = Vec::new();
        let mut i: usize = 0;
        while i < n
            invariant
                n == self.entries@.len(),
                distinct_keys(self.entries@),
                0 <= i <= n,
                r@.len() == i,
                forall|j: int| 0 <= j < i ==> r@[j]@ == self.entries@[j].key@,
            decreases n - i,
        {
            let k = self.entries[i].key.clone();
            r.push(k);
            i = i + 1;
        }
        proof {
            assert forall|j: int| 0 <= j < r@.len() implies self@.contains_key(r@[j]@) by {
                lemma_entry_at(self.entries@, j);
            }
            assert forall|k: Seq<char>| self@.contains_key(k) implies exists|j: int|
                0 <= j < r@.len() && #[trigger] r@[j]@ == k by {
                let j = choose|j: int| 0 <= j < self.entries@.len() && self.entries@[j].key@ == k;
                assert(r@[j]@ == k);
            }
        }
        r
    }
}

} // verus!
