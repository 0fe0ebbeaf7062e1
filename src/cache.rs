use std::sync::Arc;
use vstd::prelude::*;

verus! {

/// Index of the entry whose key is `k`, or -1 when there is none.
pub open spec fn position<V>(s: Seq<(Seq<char>, Arc<V>)>, k: Seq<char>) -> int {
    if exists|i: int| 0 <= i < s.len() && s[i].0 == k {
        choose|i: int| 0 <= i < s.len() && s[i].0 == k
    } else {
        -1
    }
}

/// No two entries share a key.
pub open spec fn unique_keys<V>(s: Seq<(Seq<char>, Arc<V>)>) -> bool {
    forall|i: int, j: int|
        0 <= i < s.len() && 0 <= j < s.len() && s[i].0 == s[j].0 ==> i == j
}

/// The value stored under `k`, if any.
pub open spec fn lookup<V>(s: Seq<(Seq<char>, Arc<V>)>, k: Seq<char>) -> Option<Arc<V>> {
    let p = position(s, k);
    if p >= 0 {
        Some(s[p].1)
    } else {
        None
    }
}

/// The entries after an access to `k`: that entry becomes the most recent one.
pub open spec fn touched<V>(s: Seq<(Seq<char>, Arc<V>)>, k: Seq<char>) -> Seq<(Seq<char>, Arc<V>)> {
    let p = position(s, k);
    if p >= 0 {
        s.remove(p).push(s[p])
    } else {
        s
    }
}

/// The entries after storing `v` under `k` in a cache of the given capacity:
/// an older entry for `k` is dropped, otherwise a full cache drops its least
/// recently used entry, and the new entry becomes the most recent one.
pub open spec fn stored<V>(s: Seq<(Seq<char>, Arc<V>)>, capacity: nat, k: Seq<char>, v: Arc<V>) -> Seq<(Seq<char>, Arc<V>)> {
    let p = position(s, k);
    let base = if p >= 0 {
        s.remove(p)
    } else if s.len() >= capacity {
        s.remove(0)
    } else {
        s
    };
    base.push((k, v))
}

/// A string-keyed store of shared values with a fixed capacity. Entries are
/// kept from least to most recently used.
pub struct TypedCache<V> {
    capacity: usize,
    entries: Vec<(String, Arc<V>)>,
}

/// Relies on `Arc::clone`: the new pointer refers to the same value.
#[verifier::external_body]
pub(crate) fn share<V>(a: &Arc<V>) -> (r: Arc<V>)
    ensures
        r == *a,
{
    Arc::clone(a)
}

impl<V> View for TypedCache<V> {
    type V = Seq<(Seq<char>, Arc<V>)>;

    closed spec fn view(&self) -> Seq<(Seq<char>, Arc<V>)> {
        self.entries@.map_values(|e: (String, Arc<V>)| (e.0@, e.1))
    }
}

impl<V> TypedCache<V> {
    /// The most entries the cache holds at once.
    pub closed spec fn cap(&self) -> nat {
        self.capacity as nat
    }

    pub open spec fn wf(&self) -> bool {
        &&& self.cap() > 0
        &&& self@.len() <= self.cap()
        &&& unique_keys(self@)
    }

    /// An empty cache that holds at most `capacity` entries.
    pub fn new(capacity: usize) -> (r: Self)
        requires
            capacity > 0,
        ensures
            r.wf(),
            r.cap() == capacity,
            r@.len() == 0,
    {
        TypedCache { capacity, entries: Vec::new() }
    }

    pub fn capacity(&self) -> (r: usize)
        ensures
            r == self.cap(),
    {
        self.capacity
    }

    pub fn len(&self) -> (r: usize)
        ensures
            r == self@.len(),
    {
        self.entries.len()
    }

    fn find(&self, key: &String) -> (r: Option<usize>)
        requires
            self.wf(),
        ensures
            match r {
                Some(i) => i < self@.len() && i == position(self@, key@),
                None => position(self@, key@) == -1,
            },
    {
        let mut i: usize = 0;
        while i < self.entries.len()
            invariant
                i <= self.entries.len(),
                self.wf(),
                forall|j: int| 0 <= j < i ==> self@[j].0 != key@,
            decreases self.entries.len() - i,
        {
            if self.entries[i].0 == *key {
                proof {
                    assert(self@[i as int] == (self.entries@[i as int].0@, self.entries@[i as int].1));
                    let p = position(self@, key@);
                    assert(0 <= p < self@.len() && self@[p].0 == key@);
                }
                return Some(i);
            }
            assert(self@[i as int] == (self.entries@[i as int].0@, self.entries@[i as int].1));
            i = i + 1;
        }
        None
    }

    /// Whether an entry for `key` is present; the order of use is not changed.
    pub fn contains_key(&self, key: &String) -> (r: bool)
        requires
            self.wf(),
        ensures
            r == (lookup(self@, key@) is Some),
    {
        self.find(key).is_some()
    }

    /// The value stored under `key`; a hit makes that entry the most recently used.
    pub fn get(&mut self, key: &String) -> (r: Option<Arc<V>>)
        requires
            old(self).wf(),
        ensures
            final(self).wf(),
            final(self).cap() == old(self).cap(),
            r == lookup(old(self)@, key@),
            final(self)@ == touched(old(self)@, key@),
    {
        match self.find(key) {
            Some(i) => {
                let ghost s = self@;
                let e = self.entries.remove(i);
                let v = share(&e.1);
                self.entries.push(e);
                proof {
                    assert(self@ =~= s.remove(i as int).push(s[i as int]));
                    assert forall|a: int, b: int|
                        0 <= a < self@.len() && 0 <= b < self@.len() && self@[a].0 == self@[b].0
                        implies a == b by {
                        let n = s.len() - 1;
                        let ia = if a == n { i as int } else if a < i { a } else { a + 1 };
                        let ib = if b == n { i as int } else if b < i { b } else { b + 1 };
                        assert(self@[a] == s[ia]);
                        assert(self@[b] == s[ib]);
                    }
                }
                Some(v)
            },
            None => None,
        }
    }

    /// Stores `value` under `key`, replacing an older entry for it; when the
    /// cache is full the least recently used entry is dropped first.
    pub fn insert(&mut self, key: String, value: Arc<V>)
        requires
            old(self).wf(),
        ensures
            final(self).wf(),
            final(self).cap() == old(self).cap(),
            final(self)@ == stored(old(self)@, old(self).cap(), key@, value),
    {
        let ghost s = self@;
        let ghost k = key;
        let ghost dropped: int;
        match self.find(&key) {
            Some(i) => {
                self.entries.remove(i);
                proof { dropped = i as int; }
            },
            None => {
                if self.entries.len() >= self.capacity {
                    self.entries.remove(0);
                    proof { dropped = 0; }
                } else {
                    proof { dropped = -1; }
                }
            },
        }
        let ghost base = self@;
        proof {
            assert forall|a: int| 0 <= a < base.len() implies base[a].0 != k@ || position(s, k@) == -1 by {
                if position(s, k@) >= 0 {
                    let ia = if a < dropped { a } else { a + 1 };
                    assert(base[a] == s[ia]);
                }
            }
            assert forall|a: int, b: int|
                0 <= a < base.len() && 0 <= b < base.len() && base[a].0 == base[b].0
                implies a == b by {
                if dropped >= 0 {
                    let ia = if a < dropped { a } else { a + 1 };
                    let ib = if b < dropped { b } else { b + 1 };
                    assert(base[a] == s[ia]);
                    assert(base[b] == s[ib]);
                }
            }
        }
        self.entries.push((key, value));
        proof {
            assert(self@ =~= stored(s, self.cap(), k@, value));
            assert forall|a: int| 0 <= a < base.len() implies base[a].0 != k@ by {
                if dropped == 0 && position(s, k@) == -1 {
                    assert(base[a] == s[a + 1]);
                } else if dropped == -1 {
                    assert(base[a] == s[a]);
                }
            }
        }
    }
}

} // verus!
