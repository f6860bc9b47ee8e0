//! A small cache over an ordered map, bounded by evicting its largest key.
use vstd::prelude::*;
use vstd::laws_cmp::obeys_cmp;
use vstd::std_specs::cmp::OrdSpec;
use std::collections::BTreeMap;

verus! {

/// `k` is the largest key of `m`.
pub open spec fn is_last_key<K: Ord, V>(m: Map<K, V>, k: K) -> bool {
    &&& m.contains_key(k)
    &&& forall|j: K| m.contains_key(j) ==> !(j.cmp_spec(&k) is Greater)
}

/// `after` is `m` with `value` put under `key`, and `r` is what `m` held
/// under `key`.
pub open spec fn put_result<K, V>(m: Map<K, V>, key: K, value: V, after: Map<K, V>, r: Option<V>) -> bool {
    &&& after == m.insert(key, value)
    &&& match r {
        Some(v) => m.contains_key(key) && v == m[key],
        None => !m.contains_key(key),
    }
}

/// What `insert` does to a cache of at most `n` entries holding `m`: when it
/// holds `n` or more, its largest key is dropped first.
pub open spec fn insert_result<K: Ord, V>(m: Map<K, V>, n: usize, key: K, value: V, after: Map<K, V>, r: Option<V>) -> bool {
    if m.len() >= n {
        exists|k: K| is_last_key(m, k) && put_result(m.remove(k), key, value, after, r)
    } else {
        put_result(m, key, value, after, r)
    }
}

/// `BTreeMap::last_key_value`, keeping the key: the largest key, or nothing
/// when the map is empty. Stated for keys whose `Ord` obeys vstd's model.
#[verifier::external_body]
fn btree_last_key<K: Ord + Copy, V>(m: &BTreeMap<K, V>) -> (r: Option<K>)
    ensures
        obeys_cmp::<K>() ==> match r {
            Some(k) => is_last_key(m@, k),
            None => m@.len() == 0,
        },
{
    m.last_key_value().map(|(k, _)| *k)
}

/// `BTreeMap::get_mut`: a mutable reference to the value under `k`, through
/// which the map is updated. Stated for keys whose `Ord` obeys vstd's model.
#[verifier::external_body]
fn btree_get_mut<'a, K: Ord, V>(m: &'a mut BTreeMap<K, V>, k: &K) -> (r: Option<&'a mut V>)
    ensures
        obeys_cmp::<K>() ==> match r {
            Some(v) => old(m)@.contains_key(*k) && *v == old(m)@[*k] && final(m)@ == old(
                m,
            )@.insert(*k, *final(v)),
            None => !old(m)@.contains_key(*k) && final(m)@ == old(m)@,
        },
{
    m.get_mut(k)
}

/// A value just inserted is read back under its key.
pub proof fn law_insert_then_get<K: Ord, V>(m: Map<K, V>, n: usize, key: K, value: V, after: Map<K, V>, r: Option<V>)
    requires
        insert_result(m, n, key, value, after, r),
    ensures
        after.contains_key(key),
        after[key] == value,
{
}

/// A cache of at most `n` entries (`n` at least one) never grows past `n`.
pub proof fn law_insert_keeps_bound<K: Ord, V>(m: Map<K, V>, n: usize, key: K, value: V, after: Map<K, V>, r: Option<V>)
    requires
        m.dom().finite(),
        m.len() <= n,
        n > 0,
        insert_result(m, n, key, value, after, r),
    ensures
        after.len() <= n,
{
    if m.len() >= n {
        let k = choose|k: K| is_last_key(m, k) && put_result(m.remove(k), key, value, after, r);
        assert(m.remove(k).len() == m.len() - 1);
    }
}

/// A cache of at most `N` entries (at least one) that makes room by dropping
/// its largest key.
pub struct SimpleCache<K, V, const N: usize> {
    map: BTreeMap<K, V>,
}

impl<K, V, const N: usize> View for SimpleCache<K, V, N> {
    type V = Map<K, V>;

    closed spec fn view(&self) -> Map<K, V> {
        self.map@
    }
}

impl<K, V, const N: usize> SimpleCache<K, V, N> {
    /// An empty cache.
    pub fn new() -> (r: Self)
        ensures
            r@ == Map::<K, V>::empty(),
    {
        Self { map: BTreeMap::new() }
    }
}

impl<K: Ord + Copy, V, const N: usize> SimpleCache<K, V, N> {
    /// The value cached under `key`, if any.
    pub fn get(&self, key: &K) -> (r: Option<&V>)
        requires
            obeys_cmp::<K>(),
        ensures
            match r {
                Some(v) => self@.contains_key(*key) && *v == self@[*key],
                None => !self@.contains_key(*key),
            },
    {
        self.map.get(key)
    }

    /// Caches `value` under `key`, first dropping the largest key when the
    /// cache is full; returns what was under `key` after that drop. A cache of no
    /// entries that is empty has no key to drop, so it is not called on one.
    pub fn insert(&mut self, key: K, value: V) -> (r: Option<V>)
        requires
            obeys_cmp::<K>(),
            N > 0 || old(self)@.len() > 0,
        ensures
            insert_result(old(self)@, N, key, value, final(self)@, r),
    {
        if self.map.len() >= N {
            let rk = match btree_last_key(&self.map) {
                Some(k) => k,
                None => {
                    proof {
                        assert(false);
                    }
                    key
                },
            };
            self.map.remove(&rk);
            let r = self.map.insert(key, value);
            assert(put_result(old(self)@.remove(rk), key, value, self@, r));
            return r;
        }
        self.map.insert(key, value)
    }

    /// The value cached under `key`; when there is none, `f` makes one, which
    /// is inserted as `insert` does. The result is a mutable reference into
    /// the cache.
    pub fn get_or_insert_with<F: FnOnce() -> V>(&mut self, key: K, f: F) -> (r: &mut V)
        requires
            obeys_cmp::<K>(),
            old(self)@.contains_key(key) || (f.requires(()) && (N > 0 || old(self)@.len() > 0)),
        ensures
            old(self)@.contains_key(key) ==> *r == old(self)@[key] && final(self)@ == old(
                self,
            )@.insert(key, *final(r)),
            !old(self)@.contains_key(key) ==> f.ensures((), *r) && exists|mid: Map<K, V>, o: Option<V>|
                #[trigger] insert_result(old(self)@, N, key, *r, mid, o) && final(self)@
                    == mid.insert(key, *final(r)),
    {
        if self.map.contains_key(&key) {
            return match btree_get_mut(&mut self.map, &key) {
                Some(v) => v,
                None => unreached(),
            };
        }
        let value = f();
        let ghost v = value;
        let o = self.insert(key, value);
        let ghost mid = self@;
        match btree_get_mut(&mut self.map, &key) {
            Some(r) => {
                assert(insert_result(old(self)@, N, key, *r, mid, o));
                r
            },
            None => unreached(),
        }
    }

    /// Drops the entry under `key`, returning its value, if any.
    pub fn remove(&mut self, key: &K) -> (r: Option<V>)
        requires
            obeys_cmp::<K>(),
        ensures
            final(self)@ == old(self)@.remove(*key),
            match r {
                Some(v) => old(self)@.contains_key(*key) && v == old(self)@[*key],
                None => !old(self)@.contains_key(*key),
            },
    {
        self.map.remove(key)
    }
}

} // verus!
