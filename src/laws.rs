use crate::cache::{lookup, position, stored, touched, unique_keys};
use std::sync::Arc;
use vstd::prelude::*;

verus! {

/// With unique keys, the entry found for `k` is the one at `i`.
proof fn lemma_position_at<V>(s: Seq<(Seq<char>, Arc<V>)>, k: Seq<char>, i: int)
    requires
        unique_keys(s),
        0 <= i < s.len(),
        s[i].0 == k,
    ensures
        position(s, k) == i,
{
    let p = position(s, k);
    assert(0 <= p < s.len() && s[p].0 == k);
}

/// The key of the entry found for `k` is `k`.
proof fn lemma_position_found<V>(s: Seq<(Seq<char>, Arc<V>)>, k: Seq<char>)
    ensures
        position(s, k) == -1 || (0 <= position(s, k) < s.len() && s[position(s, k)].0 == k),
        position(s, k) == -1 <==> forall|i: int| 0 <= i < s.len() ==> s[i].0 != k,
{
}

/// Storing keeps keys unique and the cache within its capacity.
pub proof fn lemma_stored_wf<V>(s: Seq<(Seq<char>, Arc<V>)>, capacity: nat, k: Seq<char>, v: Arc<V>)
    requires
        unique_keys(s),
        s.len() <= capacity,
        capacity > 0,
    ensures
        unique_keys(stored(s, capacity, k, v)),
        stored(s, capacity, k, v).len() <= capacity,
{
    lemma_position_found(s, k);
    let p = position(s, k);
    let base = if p >= 0 {
        s.remove(p)
    } else if s.len() >= capacity {
        s.remove(0)
    } else {
        s
    };
    let dropped = if p >= 0 { p } else if s.len() >= capacity { 0 } else { -1 };
    let u = stored(s, capacity, k, v);
    assert(u == base.push((k, v)));
    assert forall|a: int| 0 <= a < base.len() implies base[a].0 != k by {
        let ia = if dropped >= 0 && a >= dropped { a + 1 } else { a };
        assert(base[a] == s[ia]);
    }
    assert forall|a: int, b: int|
        0 <= a < u.len() && 0 <= b < u.len() && u[a].0 == u[b].0 implies a == b by {
        if a < base.len() && b < base.len() {
            let ia = if dropped >= 0 && a >= dropped { a + 1 } else { a };
            let ib = if dropped >= 0 && b >= dropped { b + 1 } else { b };
            assert(base[a] == s[ia]);
            assert(base[b] == s[ib]);
        }
    }
}

/// A value just stored under `k` is what the next lookup of `k` returns:
/// after a load stores its result, the following load of the same table is a
/// hit that gives that very value, and no further fetch is made.
pub proof fn lemma_store_then_hit<V>(s: Seq<(Seq<char>, Arc<V>)>, capacity: nat, k: Seq<char>, v: Arc<V>)
    requires
        unique_keys(s),
        s.len() <= capacity,
        capacity > 0,
    ensures
        lookup(stored(s, capacity, k, v), k) == Some(v),
{
    lemma_stored_wf(s, capacity, k, v);
    let u = stored(s, capacity, k, v);
    lemma_position_at(u, k, u.len() - 1);
}

/// A fresh cache misses every key, so the first load of a table fetches it;
/// once the result is stored, the key is present with that value.
pub proof fn lemma_first_load_stores<V>(capacity: nat, k: Seq<char>, v: Arc<V>)
    requires
        capacity > 0,
    ensures
        lookup(Seq::<(Seq<char>, Arc<V>)>::empty(), k) is None,
        lookup(stored(Seq::<(Seq<char>, Arc<V>)>::empty(), capacity, k, v), k) == Some(v),
        stored(Seq::<(Seq<char>, Arc<V>)>::empty(), capacity, k, v).len() == 1,
{
    let e = Seq::<(Seq<char>, Arc<V>)>::empty();
    lemma_position_found(e, k);
    lemma_store_then_hit(e, capacity, k, v);
}

/// A hit changes no value: after a lookup of `k`, every key (`k` included)
/// still finds what it found before, so repeated hits return equal values.
pub proof fn lemma_hit_keeps_values<V>(s: Seq<(Seq<char>, Arc<V>)>, k: Seq<char>, other: Seq<char>)
    requires
        unique_keys(s),
    ensures
        lookup(touched(s, k), other) == lookup(s, other),
        unique_keys(touched(s, k)),
        touched(s, k).len() == s.len(),
{
    lemma_position_found(s, k);
    lemma_position_found(s, other);
    let p = position(s, k);
    if p >= 0 {
        let t = touched(s, k);
        let n = s.len() - 1;
        assert forall|a: int| 0 <= a < t.len() implies t[a] == s[if a == n { p } else if a < p { a } else { a + 1 }] by {}
        assert forall|a: int, b: int|
            0 <= a < t.len() && 0 <= b < t.len() && t[a].0 == t[b].0 implies a == b by {
            let ia = if a == n { p } else if a < p { a } else { a + 1 };
            let ib = if b == n { p } else if b < p { b } else { b + 1 };
            assert(t[a] == s[ia]);
            assert(t[b] == s[ib]);
        }
        let q = position(s, other);
        if q >= 0 {
            let iq = if q == p { n } else if q < p { q } else { q - 1 };
            assert(t[iq] == s[q]);
            lemma_position_at(t, other, iq);
        } else {
            lemma_position_found(t, other);
            assert forall|a: int| 0 <= a < t.len() implies t[a].0 != other by {
                let ia = if a == n { p } else if a < p { a } else { a + 1 };
                assert(t[a] == s[ia]);
            }
        }
    }
}

/// On a full cache, storing a new key drops the least recently used entry,
/// while a key used just before the store is kept with its value.
pub proof fn lemma_least_recent_evicted<V>(
    s: Seq<(Seq<char>, Arc<V>)>,
    capacity: nat,
    recent: Seq<char>,
    k: Seq<char>,
    v: Arc<V>,
)
    requires
        unique_keys(s),
        s.len() == capacity,
        capacity >= 2,
        lookup(s, recent) is Some,
        lookup(s, k) is None,
    ensures
        ({
            let t = touched(s, recent);
            let u = stored(t, capacity, k, v);
            &&& t[0].0 != recent
            &&& lookup(s, t[0].0) is Some
            &&& lookup(u, t[0].0) is None
            &&& lookup(u, recent) == lookup(s, recent)
            &&& lookup(u, k) == Some(v)
        }),
{
    let t = touched(s, recent);
    lemma_hit_keeps_values(s, recent, k);
    lemma_hit_keeps_values(s, recent, recent);
    lemma_position_found(s, recent);
    let p = position(s, recent);
    let n = s.len() - 1;
    assert(t[n] == s[p]);
    lemma_position_at(t, recent, n);
    let old_key = t[0].0;
    lemma_hit_keeps_values(s, recent, old_key);
    lemma_position_at(t, old_key, 0);
    lemma_position_found(t, k);
    let u = stored(t, capacity, k, v);
    let base = t.remove(0);
    assert(u == base.push((k, v)));
    lemma_store_then_hit(t, capacity, k, v);
    lemma_stored_wf(t, capacity, k, v);
    assert forall|a: int| 0 <= a < u.len() implies u[a].0 != old_key by {
        if a < base.len() {
            assert(base[a] == t[a + 1]);
        } else {
            lemma_position_found(s, k);
            lemma_position_found(s, old_key);
        }
    }
    lemma_position_found(u, old_key);
    assert(u[n - 1] == t[n]);
    lemma_position_at(u, recent, n - 1);
}

} // verus!
