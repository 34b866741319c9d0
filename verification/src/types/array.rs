//! Lookups, updates and the entry API of [`ZendHashTable`].
use vstd::prelude::*;
use vstd::std_specs::convert::IntoSpec;

use crate::convert::IntoZval;
use crate::error::Error;
use crate::flags::str_eq;
use crate::types::zval::{
    ArrayKey, Bucket, KeyView, ZendHashTable, Zval, ZvalView, buckets_view, key_view,
    lemma_buckets_view,
};

verus! {

/// The abstract contents of a table.
pub type Entries = Seq<(KeyView, ZvalView)>;

/// Index of the first entry at or after `i` whose key is `k`, or `-1`.
pub open spec fn find_from(s: Entries, k: KeyView, i: int) -> int
    decreases s.len() - i,
{
    if i < 0 || i >= s.len() {
        -1
    } else if s[i].0 == k {
        i
    } else {
        find_from(s, k, i + 1)
    }
}

/// Index of the entry whose key is `k`, or `-1`.
pub open spec fn find_key(s: Entries, k: KeyView) -> int {
    find_from(s, k, 0)
}

/// The value stored under `k`.
pub open spec fn lookup(s: Entries, k: KeyView) -> Option<ZvalView> {
    if find_key(s, k) >= 0 {
        Some(s[find_key(s, k)].1)
    } else {
        None
    }
}

/// The entries after storing `v` under `k`: an existing entry keeps its place,
/// a new one goes last.
pub open spec fn store(s: Entries, k: KeyView, v: ZvalView) -> Entries {
    if find_key(s, k) >= 0 {
        s.update(find_key(s, k), (k, v))
    } else {
        s.push((k, v))
    }
}

/// The entries after removing the entry for `k`, if any.
pub open spec fn erase(s: Entries, k: KeyView) -> Entries {
    if find_key(s, k) >= 0 {
        s.remove(find_key(s, k))
    } else {
        s
    }
}

/// No key occurs twice.
pub open spec fn unique_keys(s: Entries) -> bool {
    forall|i: int, j: int| 0 <= i < s.len() && 0 <= j < s.len() && i != j ==> s[i].0 != s[j].0
}

pub proof fn lemma_find_from(s: Entries, k: KeyView, i: int)
    requires
        0 <= i,
    ensures
        find_from(s, k, i) == -1 || (i <= find_from(s, k, i) < s.len() && s[find_from(s, k, i)].0
            == k),
        forall|j: int|
            i <= j < s.len() && (find_from(s, k, i) == -1 || j < find_from(s, k, i)) ==> s[j].0
                != k,
    decreases s.len() - i,
{
    if i < s.len() && s[i].0 != k {
        lemma_find_from(s, k, i + 1);
    }
}

pub proof fn lemma_find_skip(s: Entries, k: KeyView, i: int)
    requires
        0 <= i <= s.len(),
        forall|j: int| 0 <= j < i ==> s[j].0 != k,
    ensures
        find_key(s, k) == find_from(s, k, i),
    decreases i,
{
    if i > 0 {
        lemma_find_skip_step(s, k, 0, i);
    }
}

proof fn lemma_find_skip_step(s: Entries, k: KeyView, lo: int, i: int)
    requires
        0 <= lo <= i <= s.len(),
        forall|j: int| lo <= j < i ==> s[j].0 != k,
    ensures
        find_from(s, k, lo) == find_from(s, k, i),
    decreases i - lo,
{
    if lo < i {
        lemma_find_skip_step(s, k, lo + 1, i);
    }
}

/// The keys of a table, in order.
pub open spec fn keys_of(s: Entries) -> Seq<KeyView> {
    s.map_values(|e: (KeyView, ZvalView)| e.0)
}

/// Reading a key back after storing a value under it gives that value.
pub proof fn law_lookup_after_store(s: Entries, k: KeyView, v: ZvalView)
    ensures
        lookup(store(s, k, v), k) == Some(v),
{
    lemma_find_from(s, k, 0);
    let t = store(s, k, v);
    if find_key(s, k) >= 0 {
        let i = find_key(s, k);
        lemma_find_from(t, k, 0);
        assert forall|j: int| 0 <= j < i implies t[j].0 != k by {
            assert(t[j] == s[j]);
        }
        lemma_find_skip(t, k, i);
    } else {
        lemma_find_from(t, k, 0);
        assert forall|j: int| 0 <= j < s.len() implies t[j].0 != k by {
            assert(t[j] == s[j]);
        }
        lemma_find_skip(t, k, s.len() as int);
    }
}

/// Storing under one key leaves what every other key reads unchanged.
pub proof fn law_store_keeps_other_keys(s: Entries, k: KeyView, v: ZvalView, other: KeyView)
    requires
        other != k,
    ensures
        lookup(store(s, k, v), other) == lookup(s, other),
{
    lemma_find_from(s, k, 0);
    lemma_find_from(s, other, 0);
    let t = store(s, k, v);
    lemma_find_from(t, other, 0);
    let fo = find_key(s, other);
    let ft = find_key(t, other);
    if fo >= 0 {
        assert forall|j: int| 0 <= j < fo implies t[j].0 != other by {
            if j < s.len() {
                assert(t[j].0 == s[j].0 || t[j].0 == k);
            }
        }
        assert(t[fo].0 == other);
        lemma_find_skip(t, other, fo);
        assert(find_from(t, other, fo) == fo);
    } else {
        assert forall|j: int| 0 <= j < t.len() implies t[j].0 != other by {
            if j < s.len() {
                assert(t[j].0 == s[j].0 || t[j].0 == k);
            }
        }
        lemma_find_skip(t, other, t.len() as int);
    }
}

/// Storing keeps the keys and their order; a new key goes last.
pub proof fn law_store_keeps_key_order(s: Entries, k: KeyView, v: ZvalView)
    ensures
        keys_of(store(s, k, v)) == (if lookup(s, k) is Some {
            keys_of(s)
        } else {
            keys_of(s).push(k)
        }),
{
    lemma_find_from(s, k, 0);
    if find_key(s, k) >= 0 {
        assert(keys_of(store(s, k, v)) =~= keys_of(s));
    } else {
        assert(keys_of(store(s, k, v)) =~= keys_of(s).push(k));
    }
}

/// Storing keeps every key unique.
pub proof fn law_store_keeps_keys_unique(s: Entries, k: KeyView, v: ZvalView)
    requires
        unique_keys(s),
    ensures
        unique_keys(store(s, k, v)),
{
    lemma_find_from(s, k, 0);
    let t = store(s, k, v);
    if find_key(s, k) >= 0 {
        let i = find_key(s, k);
        assert forall|a: int, b: int| 0 <= a < t.len() && 0 <= b < t.len() && a != b implies t[a].0 != t[b].0 by {
            assert(t[a].0 == s[a].0);
            assert(t[b].0 == s[b].0);
        }
    } else {
        assert forall|a: int, b: int| 0 <= a < t.len() && 0 <= b < t.len() && a != b implies t[a].0 != t[b].0 by {
            if a < s.len() && b < s.len() {
                assert(t[a] == s[a]);
                assert(t[b] == s[b]);
            } else if a == s.len() {
                assert(t[b] == s[b]);
            } else {
                assert(t[a] == s[a]);
            }
        }
    }
}

/// In a table whose keys are unique, a removed key reads as absent, and
/// every other key reads as before.
pub proof fn law_lookup_after_erase(s: Entries, k: KeyView, other: KeyView)
    requires
        unique_keys(s),
    ensures
        lookup(erase(s, k), k) is None,
        other != k ==> lookup(erase(s, k), other) == lookup(s, other),
{
    lemma_find_from(s, k, 0);
    let t = erase(s, k);
    lemma_find_from(t, k, 0);
    if find_key(s, k) >= 0 {
        let i = find_key(s, k);
        assert forall|j: int| 0 <= j < t.len() implies t[j].0 != k by {
            if j < i {
                assert(t[j] == s[j]);
            } else {
                assert(t[j] == s[j + 1]);
                assert(s[j + 1].0 != s[i].0);
            }
        }
        lemma_find_skip(t, k, t.len() as int);
        if other != k {
            lemma_find_from(s, other, 0);
            lemma_find_from(t, other, 0);
            let fo = find_key(s, other);
            if fo >= 0 {
                let target = if fo < i { fo } else { fo - 1 };
                assert(fo != i);
                assert(t[target] == s[fo]);
                assert forall|j: int| 0 <= j < target implies t[j].0 != other by {
                    if j < i {
                        assert(t[j] == s[j]);
                    } else {
                        assert(t[j] == s[j + 1]);
                    }
                }
                lemma_find_skip(t, other, target);
            } else {
                assert forall|j: int| 0 <= j < t.len() implies t[j].0 != other by {
                    if j < i {
                        assert(t[j] == s[j]);
                    } else {
                        assert(t[j] == s[j + 1]);
                    }
                }
                lemma_find_skip(t, other, t.len() as int);
            }
        }
    } else {
        lemma_find_skip(t, k, t.len() as int);
    }
}

/// Whether two keys are the same key.
pub fn key_eq(a: &ArrayKey, b: &ArrayKey) -> (r: bool)
    ensures
        r == (key_view(*a) == key_view(*b)),
{
    match (a, b) {
        (ArrayKey::Long(x), ArrayKey::Long(y)) => *x == *y,
        (ArrayKey::Long(_), _) => false,
        (_, ArrayKey::Long(_)) => false,
        _ => {
            let sa: &str = match a {
                ArrayKey::String(s) => s.as_str(),
                ArrayKey::Str(s) => s,
                ArrayKey::Long(_) => "",
            };
            let sb: &str = match b {
                ArrayKey::String(s) => s.as_str(),
                ArrayKey::Str(s) => s,
                ArrayKey::Long(_) => "",
            };
            str_eq(sa, sb)
        },
    }
}

/// An owned copy of a key.
pub fn owned_key(k: &ArrayKey) -> (r: ArrayKey<'static>)
    ensures
        key_view(r) == key_view(*k),
{
    match k {
        ArrayKey::Long(n) => ArrayKey::Long(*n),
        ArrayKey::String(s) => ArrayKey::String(String::from_str(s.as_str())),
        ArrayKey::Str(s) => ArrayKey::String(String::from_str(s)),
    }
}

impl<'a> From<&'a str> for ArrayKey<'a> {
    fn from(s: &'a str) -> (r: ArrayKey<'a>)
        ensures
            r == ArrayKey::Str(s),
    {
        ArrayKey::Str(s)
    }
}

impl<'a> vstd::std_specs::convert::FromSpecImpl<&'a str> for ArrayKey<'a> {
    open spec fn obeys_from_spec() -> bool {
        true
    }

    open spec fn from_spec(v: &'a str) -> ArrayKey<'a> {
        ArrayKey::Str(v)
    }
}

impl<'a> From<String> for ArrayKey<'a> {
    fn from(s: String) -> (r: ArrayKey<'a>)
        ensures
            r == ArrayKey::<'a>::String(s),
    {
        ArrayKey::String(s)
    }
}

impl<'a> vstd::std_specs::convert::FromSpecImpl<String> for ArrayKey<'a> {
    open spec fn obeys_from_spec() -> bool {
        true
    }

    open spec fn from_spec(v: String) -> ArrayKey<'a> {
        ArrayKey::String(v)
    }
}

impl<'a> From<i64> for ArrayKey<'a> {
    fn from(n: i64) -> (r: ArrayKey<'a>)
        ensures
            r == ArrayKey::<'a>::Long(n),
    {
        ArrayKey::Long(n)
    }
}

impl<'a> vstd::std_specs::convert::FromSpecImpl<i64> for ArrayKey<'a> {
    open spec fn obeys_from_spec() -> bool {
        true
    }

    open spec fn from_spec(v: i64) -> ArrayKey<'a> {
        ArrayKey::Long(v)
    }
}

impl ZendHashTable {
    /// The position of the entry for `key`.
    fn find(&self, key: &ArrayKey) -> (r: Option<usize>)
        ensures
            match r {
                Some(i) => find_key(self@, key_view(*key)) == i && i < self.buckets@.len(),
                None => find_key(self@, key_view(*key)) == -1,
            },
    {
        let ghost kv = key_view(*key);
        proof {
            lemma_buckets_view(self.buckets@);
        }
        let mut i: usize = 0;
        while i < self.buckets.len()
            invariant
                i <= self.buckets@.len(),
                self@.len() == self.buckets@.len(),
                kv == key_view(*key),
                forall|j: int| 0 <= j < i ==> self@[j].0 != kv,
                forall|j: int|
                    0 <= j < self.buckets@.len() ==> #[trigger] self@[j] == (
                        key_view(self.buckets@[j].key),
                        crate::types::zval::zval_view(self.buckets@[j].val),
                    ),
            decreases self.buckets.len() - i,
        {
            if key_eq(&self.buckets[i].key, key) {
                proof {
                    lemma_find_skip(self@, kv, i as int);
                }
                return Some(i);
            }
            i = i + 1;
        }
        proof {
            lemma_find_skip(self@, kv, i as int);
        }
        None
    }

    /// The value stored under `key`.
    pub fn get<'k, K: Into<ArrayKey<'k>>>(&self, key: K) -> (r: Option<&Zval>)
        ensures
            K::obeys_into_spec() ==> match r {
                Some(z) => lookup(self@, key_view(key.into_spec())) == Some(z@),
                None => lookup(self@, key_view(key.into_spec())) is None,
            },
    {
        let k: ArrayKey<'k> = key.into();
        self.get_key(&k)
    }

    /// The value stored under the integer key `index`.
    pub fn get_index(&self, index: i64) -> (r: Option<&Zval>)
        ensures
            match r {
                Some(z) => lookup(self@, KeyView::Int(index)) == Some(z@),
                None => lookup(self@, KeyView::Int(index)) is None,
            },
    {
        self.get_key(&ArrayKey::Long(index))
    }

    fn get_key(&self, key: &ArrayKey) -> (r: Option<&Zval>)
        ensures
            match r {
                Some(z) => lookup(self@, key_view(*key)) == Some(z@),
                None => lookup(self@, key_view(*key)) is None,
            },
    {
        proof {
            lemma_buckets_view(self.buckets@);
        }
        match self.find(key) {
            Some(i) => Some(&self.buckets[i].val),
            None => None,
        }
    }

    /// Mutable access to the value stored under `key`.
    pub(crate) fn get_key_mut(&mut self, key: &ArrayKey) -> (r: Option<&mut Zval>)
        ensures
            match r {
                Some(z) => {
                    &&& lookup(old(self)@, key_view(*key)) == Some(z@)
                    &&& final(self)@ == old(self)@.update(
                        find_key(old(self)@, key_view(*key)),
                        (key_view(*key), final(z)@),
                    )
                },
                None => lookup(old(self)@, key_view(*key)) is None && final(self)@ == old(self)@,
            },
    {
        proof {
            lemma_buckets_view(self.buckets@);
        }
        match self.find(key) {
            Some(i) => {
                let ghost old_b = self.buckets@;
                proof {
                    lemma_find_from(self@, key_view(*key), 0);
                }
                let r = &mut self.buckets[i].val;
                proof {
                    let new_b = old_b.update(i as int, Bucket { key: old_b[i as int].key, val: *final(r) });
                    lemma_buckets_view(new_b);
                    assert(buckets_view(new_b) =~= buckets_view(old_b).update(
                        i as int,
                        (key_view(*key), crate::types::zval::zval_view(*final(r))),
                    ));
                }
                Some(r)
            },
            None => None,
        }
    }

    /// Stores `val` under the key, replacing an existing value in place or
    /// appending a new entry.
    pub(crate) fn store_key(&mut self, key: &ArrayKey, val: Zval) -> (r: &mut Zval)
        ensures
            *r == val,
            final(self)@ == store(old(self)@, key_view(*key), final(r)@),
            find_key(old(self)@, key_view(*key)) >= 0 ==> final(self)@.len() == old(self)@.len(),
    {
        proof {
            lemma_buckets_view(self.buckets@);
            lemma_find_from(self@, key_view(*key), 0);
        }
        let ghost old_b = self.buckets@;
        match self.find(key) {
            Some(i) => {
                self.buckets.set(i, Bucket { key: owned_key(key), val });
                let ghost mid = self.buckets@;
                let ghost nk = self.buckets@[i as int].key;
                let r = &mut self.buckets[i].val;
                proof {
                    let new_b = mid.update(i as int, Bucket { key: nk, val: *final(r) });
                    lemma_buckets_view(new_b);
                    assert(buckets_view(new_b) =~= buckets_view(old_b).update(
                        i as int,
                        (key_view(*key), crate::types::zval::zval_view(*final(r))),
                    ));
                }
                r
            },
            None => {
                self.buckets.push(Bucket { key: owned_key(key), val });
                let n = self.buckets.len() - 1;
                let ghost mid = self.buckets@;
                let ghost nk = self.buckets@[n as int].key;
                let r = &mut self.buckets[n].val;
                proof {
                    let new_b = mid.update(n as int, Bucket { key: nk, val: *final(r) });
                    assert(new_b =~= old_b.push(Bucket { key: nk, val: *final(r) }));
                    lemma_buckets_view(new_b);
                    assert(buckets_view(new_b) =~= buckets_view(old_b).push(
                        (key_view(*key), crate::types::zval::zval_view(*final(r))),
                    ));
                }
                r
            },
        }
    }

    /// Stores `val` under the key and hands back the value it replaced.
    pub(crate) fn replace_key(&mut self, key: &ArrayKey, val: Zval) -> (r: Option<Zval>)
        ensures
            final(self)@ == store(old(self)@, key_view(*key), val@),
            match r {
                Some(p) => lookup(old(self)@, key_view(*key)) == Some(p@),
                None => lookup(old(self)@, key_view(*key)) is None,
            },
    {
        proof {
            lemma_buckets_view(self.buckets@);
            lemma_find_from(self@, key_view(*key), 0);
        }
        let ghost old_b = self.buckets@;
        match self.find(key) {
            Some(i) => {
                let ghost v = val;
                let mut prev = val;
                std::mem::swap(&mut self.buckets[i].val, &mut prev);
                proof {
                    lemma_buckets_view(self.buckets@);
                    assert(self@ =~= buckets_view(old_b).update(i as int, (key_view(*key), v@)));
                }
                Some(prev)
            },
            None => {
                let ghost v = val;
                self.buckets.push(Bucket { key: owned_key(key), val });
                proof {
                    lemma_buckets_view(self.buckets@);
                    assert(self@ =~= buckets_view(old_b).push((key_view(*key), v@)));
                }
                None
            },
        }
    }

    /// Stores `val` under `key`.
    ///
    /// Fails, leaving the table unchanged, when `val` cannot be converted.
    pub fn insert<'k, K: Into<ArrayKey<'k>>, V: IntoZval>(&mut self, key: K, val: V) -> (r: Result<(), Error>)
        ensures
            val.zval_spec() is Some <==> r is Ok,
            r is Err ==> final(self)@ == old(self)@,
            K::obeys_into_spec() ==> (r is Ok ==> final(self)@ == store(
                old(self)@,
                key_view(key.into_spec()),
                val.zval_spec().unwrap(),
            )),
    {
        let k: ArrayKey<'k> = key.into();
        let z = val.into_zval(false);
        match z {
            Ok(z) => {
                let _ = self.store_key(&k, z);
                Ok(())
            },
            Err(e) => Err(e),
        }
    }

    /// Stores `val` under the integer key `index`.
    pub fn insert_at_index<V: IntoZval>(&mut self, index: i64, val: V) -> (r: Result<(), Error>)
        ensures
            val.zval_spec() is Some <==> r is Ok,
            r is Err ==> final(self)@ == old(self)@,
            r is Ok ==> final(self)@ == store(old(self)@, KeyView::Int(index), val.zval_spec().unwrap()),
    {
        let z = val.into_zval(false);
        match z {
            Ok(z) => {
                let _ = self.store_key(&ArrayKey::Long(index), z);
                Ok(())
            },
            Err(e) => Err(e),
        }
    }

    /// Removes the entry for `key`; `None` when there was none.
    pub fn remove<'k, K: Into<ArrayKey<'k>>>(&mut self, key: K) -> (r: Option<()>)
        ensures
            K::obeys_into_spec() ==> (r is Some <==> find_key(old(self)@, key_view(key.into_spec())) >= 0),
            K::obeys_into_spec() ==> final(self)@ == erase(old(self)@, key_view(key.into_spec())),
    {
        let k: ArrayKey<'k> = key.into();
        match self.take_key(&k) {
            Some(_) => Some(()),
            None => None,
        }
    }

    /// Removes the entry for `key` and hands back its value.
    pub(crate) fn take_key(&mut self, key: &ArrayKey) -> (r: Option<Zval>)
        ensures
            match r {
                Some(z) => lookup(old(self)@, key_view(*key)) == Some(z@),
                None => lookup(old(self)@, key_view(*key)) is None,
            },
            final(self)@ == erase(old(self)@, key_view(*key)),
    {
        proof {
            lemma_buckets_view(self.buckets@);
        }
        let ghost old_b = self.buckets@;
        match self.find(key) {
            Some(i) => {
                let b = self.buckets.remove(i);
                proof {
                    lemma_buckets_view(self.buckets@);
                    assert(self@ =~= buckets_view(old_b).remove(i as int));
                }
                Some(b.val)
            },
            None => None,
        }
    }

    /// The entry for `key`, occupied or vacant, for in-place manipulation.
    pub fn entry<'a, 'k, K: Into<ArrayKey<'k>>>(&'a mut self, key: K) -> (r: Entry<'a, 'k>)
        ensures
            call_ensures(K::into, (key,), r.entry_key()),
            K::obeys_into_spec() ==> r.entry_key() == key.into_spec(),
            r is Occupied <==> find_key(old(self)@, key_view(r.entry_key())) >= 0,
            match r {
                Entry::Occupied(e) => *e.ht == *old(self) && *final(e.ht) == *final(self),
                Entry::Vacant(e) => *e.ht == *old(self) && *final(e.ht) == *final(self),
            },
    {
        let k: ArrayKey<'k> = key.into();
        match self.find(&k) {
            Some(_) => Entry::Occupied(OccupiedEntry { ht: self, key: k }),
            None => Entry::Vacant(VacantEntry { ht: self, key: k }),
        }
    }
}

/// A table position that may or may not hold a value, from [`ZendHashTable::entry`].
pub enum Entry<'a, 'k> {
    /// The key is present.
    Occupied(OccupiedEntry<'a, 'k>),
    /// The key is absent.
    Vacant(VacantEntry<'a, 'k>),
}

/// The position of a key that is present.
pub struct OccupiedEntry<'a, 'k> {
    /// The table.
    pub ht: &'a mut ZendHashTable,
    /// The key.
    pub key: ArrayKey<'k>,
}

/// The position of a key that is absent.
pub struct VacantEntry<'a, 'k> {
    /// The table.
    pub ht: &'a mut ZendHashTable,
    /// The key.
    pub key: ArrayKey<'k>,
}

/// Resolves a position to its value: the caller's later writes through the
/// result land in the table, at the key's place.
pub open spec fn resolves_to(before: Entries, k: KeyView, after: Entries, now: ZvalView, later: ZvalView) -> bool {
    &&& lookup(before, k) == Some(now)
    &&& after == before.update(find_key(before, k), (k, later))
}

impl<'a, 'k> Entry<'a, 'k> {
    /// The key of the entry.
    pub open spec fn entry_key(self) -> ArrayKey<'k> {
        match self {
            Entry::Occupied(e) => e.key,
            Entry::Vacant(e) => e.key,
        }
    }

    /// The key of the entry.
    pub fn key(&self) -> (r: &ArrayKey<'k>)
        ensures
            *r == self.entry_key(),
    {
        match self {
            Entry::Occupied(e) => e.key(),
            Entry::Vacant(e) => e.key(),
        }
    }

    /// The value under the key, inserting `default` first if there is none.
    ///
    /// Fails with `InvalidPointer` on an occupied entry whose key has gone,
    /// and with the conversion's error when `default` cannot become a value.
    pub fn or_insert<V: IntoZval>(self, default: V) -> (r: Result<&'a mut Zval, Error>)
        ensures
            match self {
                Entry::Occupied(e) => match r {
                    Ok(z) => resolves_to(e.ht@, key_view(e.key), final(e.ht)@, z@, final(z)@),
                    Err(err) => err is InvalidPointer && lookup(e.ht@, key_view(e.key)) is None
                        && final(e.ht)@ == e.ht@,
                },
                Entry::Vacant(e) => match r {
                    Ok(z) => default.zval_spec() == Some(z@) && final(e.ht)@ == store(
                        e.ht@,
                        key_view(e.key),
                        final(z)@,
                    ),
                    Err(_) => default.zval_spec() is None && final(e.ht)@ == e.ht@,
                },
            },
    {
        match self {
            Entry::Occupied(entry) => match entry.into_mut() {
                Some(z) => Ok(z),
                None => Err(Error::InvalidPointer),
            },
            Entry::Vacant(entry) => entry.insert(default),
        }
    }

    /// The value under the key, inserting the result of `default` first if
    /// there is none; `default` runs only then.
    pub fn or_insert_with<V: IntoZval, F: FnOnce() -> V>(self, default: F) -> (r: Result<&'a mut Zval, Error>)
        requires
            self is Vacant ==> default.requires(()),
        ensures
            match self {
                Entry::Occupied(e) => match r {
                    Ok(z) => resolves_to(e.ht@, key_view(e.key), final(e.ht)@, z@, final(z)@),
                    Err(err) => err is InvalidPointer && lookup(e.ht@, key_view(e.key)) is None
                        && final(e.ht)@ == e.ht@,
                },
                Entry::Vacant(e) => exists|v: V| #![auto] default.ensures((), v) && match r {
                    Ok(z) => v.zval_spec() == Some(z@) && final(e.ht)@ == store(
                        e.ht@,
                        key_view(e.key),
                        final(z)@,
                    ),
                    Err(_) => v.zval_spec() is None && final(e.ht)@ == e.ht@,
                },
            },
    {
        match self {
            Entry::Occupied(entry) => match entry.into_mut() {
                Some(z) => Ok(z),
                None => Err(Error::InvalidPointer),
            },
            Entry::Vacant(entry) => {
                let v = default();
                entry.insert(v)
            },
        }
    }

    /// Like [`Entry::or_insert_with`], with the key handed to `default`.
    pub fn or_insert_with_key<V: IntoZval, F: FnOnce(&ArrayKey<'k>) -> V>(self, default: F) -> (r: Result<&'a mut Zval, Error>)
        requires
            self is Vacant ==> default.requires((&self.entry_key(),)),
        ensures
            match self {
                Entry::Occupied(e) => match r {
                    Ok(z) => resolves_to(e.ht@, key_view(e.key), final(e.ht)@, z@, final(z)@),
                    Err(err) => err is InvalidPointer && lookup(e.ht@, key_view(e.key)) is None
                        && final(e.ht)@ == e.ht@,
                },
                Entry::Vacant(e) => exists|v: V| #![auto] default.ensures((&e.key,), v) && match r {
                    Ok(z) => v.zval_spec() == Some(z@) && final(e.ht)@ == store(
                        e.ht@,
                        key_view(e.key),
                        final(z)@,
                    ),
                    Err(_) => v.zval_spec() is None && final(e.ht)@ == e.ht@,
                },
            },
    {
        match self {
            Entry::Occupied(entry) => match entry.into_mut() {
                Some(z) => Ok(z),
                None => Err(Error::InvalidPointer),
            },
            Entry::Vacant(entry) => {
                let v = default(entry.key());
                entry.insert(v)
            },
        }
    }

    /// Runs `f` on the value of an occupied entry; a vacant one passes
    /// through untouched.
    pub fn and_modify<F: FnOnce(&mut Zval)>(self, f: F) -> (r: Self)
        requires
            forall|a: (&mut Zval,)| #[trigger] f.requires(a),
        ensures
            match self {
                Entry::Occupied(e) => match r {
                    Entry::Occupied(e2) => {
                        &&& e2.key == e.key
                        &&& *final(e2.ht) == *final(e.ht)
                        &&& lookup(e.ht@, key_view(e.key)) is None ==> e2.ht@ == e.ht@
                        &&& lookup(e.ht@, key_view(e.key)) is Some ==> exists|m: &mut Zval|
                            #[trigger] f.ensures((m,), ()) && lookup(e.ht@, key_view(e.key)) == Some(m@)
                                && e2.ht@ == e.ht@.update(
                                find_key(e.ht@, key_view(e.key)),
                                (key_view(e.key), final(m)@),
                            )
                    },
                    Entry::Vacant(_) => false,
                },
                Entry::Vacant(_) => r == self,
            },
    {
        match self {
            Entry::Occupied(mut entry) => {
                match entry.ht.get_key_mut(&entry.key) {
                    Some(value) => {
                        f(value);
                    },
                    None => {},
                }
                Entry::Occupied(entry)
            },
            Entry::Vacant(entry) => Entry::Vacant(entry),
        }
    }

    /// The value under the key, inserting null first if there is none.
    pub fn or_default(self) -> (r: Result<&'a mut Zval, Error>)
        ensures
            match self {
                Entry::Occupied(e) => match r {
                    Ok(z) => resolves_to(e.ht@, key_view(e.key), final(e.ht)@, z@, final(z)@),
                    Err(err) => err is InvalidPointer && lookup(e.ht@, key_view(e.key)) is None
                        && final(e.ht)@ == e.ht@,
                },
                Entry::Vacant(e) => match r {
                    Ok(z) => z@ == ZvalView::Null && final(e.ht)@ == store(
                        e.ht@,
                        key_view(e.key),
                        final(z)@,
                    ),
                    Err(_) => false,
                },
            },
    {
        match self {
            Entry::Occupied(entry) => match entry.into_mut() {
                Some(z) => Ok(z),
                None => Err(Error::InvalidPointer),
            },
            Entry::Vacant(entry) => entry.insert(Zval::new()),
        }
    }
}

impl<'a, 'k> OccupiedEntry<'a, 'k> {
    /// The key of the entry.
    pub fn key(&self) -> (r: &ArrayKey<'k>)
        ensures
            *r == self.key,
    {
        &self.key
    }

    /// The value under the key; `None` if the key has gone.
    pub fn get(&self) -> (r: Option<&Zval>)
        ensures
            match r {
                Some(z) => lookup(old(self.ht)@, key_view(self.key)) == Some(z@),
                None => lookup(old(self.ht)@, key_view(self.key)) is None,
            },
    {
        self.ht.get_key(&self.key)
    }

    /// Mutable access to the value under the key.
    pub fn get_mut(&mut self) -> (r: Option<&mut Zval>)
        ensures
            final(self).key == old(self).key,
            match r {
                Some(z) => resolves_to(old(self).ht@, key_view(old(self).key), final(self).ht@, z@, final(z)@),
                None => lookup(old(self).ht@, key_view(old(self).key)) is None && final(self).ht@ == old(self).ht@,
            },
    {
        self.ht.get_key_mut(&self.key)
    }

    /// The value under the key, borrowed for as long as the table.
    pub fn into_mut(self) -> (r: Option<&'a mut Zval>)
        ensures
            match r {
                Some(z) => resolves_to(old(self.ht)@, key_view(self.key), final(self.ht)@, z@, final(z)@),
                None => lookup(old(self.ht)@, key_view(self.key)) is None && final(self.ht)@ == old(self.ht)@,
            },
    {
        self.ht.get_key_mut(&self.key)
    }

    /// Replaces the value under the key, handing back the one it had.
    pub fn insert<V: IntoZval>(&mut self, value: V) -> (r: Result<Option<Zval>, Error>)
        ensures
            final(self).key == old(self).key,
            value.zval_spec() is Some <==> r is Ok,
            r is Err ==> final(self).ht@ == old(self).ht@,
            match r {
                Ok(prev) => final(self).ht@ == store(old(self).ht@, key_view(old(self).key), value.zval_spec().unwrap())
                    && match prev {
                        Some(p) => lookup(old(self).ht@, key_view(old(self).key)) == Some(p@),
                        None => lookup(old(self).ht@, key_view(old(self).key)) is None,
                    },
                Err(_) => true,
            },
    {
        let z = value.into_zval(false);
        match z {
            Ok(z) => {
                let prev = self.ht.replace_key(&self.key, z);
                Ok(prev)
            },
            Err(e) => Err(e),
        }
    }

    /// Removes the entry, handing back the key and the value it had.
    pub fn remove_entry(self) -> (r: (ArrayKey<'k>, Option<Zval>))
        ensures
            r.0 == self.key,
            final(self.ht)@ == erase(old(self.ht)@, key_view(self.key)),
            match r.1 {
                Some(p) => lookup(old(self.ht)@, key_view(self.key)) == Some(p@),
                None => lookup(old(self.ht)@, key_view(self.key)) is None,
            },
    {
        let value = self.ht.take_key(&self.key);
        (self.key, value)
    }

    /// Removes the entry, handing back the value it had.
    pub fn remove(self) -> (r: Option<Zval>)
        ensures
            final(self.ht)@ == erase(old(self.ht)@, key_view(self.key)),
            match r {
                Some(p) => lookup(old(self.ht)@, key_view(self.key)) == Some(p@),
                None => lookup(old(self.ht)@, key_view(self.key)) is None,
            },
    {
        self.ht.take_key(&self.key)
    }
}

impl<'a, 'k> VacantEntry<'a, 'k> {
    /// The key of the entry.
    pub fn key(&self) -> (r: &ArrayKey<'k>)
        ensures
            *r == self.key,
    {
        &self.key
    }

    /// The key, taking the entry apart.
    pub fn into_key(self) -> (r: ArrayKey<'k>)
        ensures
            r == self.key,
            *final(self.ht) == *old(self.ht),
    {
        self.key
    }

    /// Stores `value` under the key and hands back access to it.
    pub fn insert<V: IntoZval>(self, value: V) -> (r: Result<&'a mut Zval, Error>)
        ensures
            match r {
                Ok(z) => value.zval_spec() == Some(z@) && final(self.ht)@ == store(
                    old(self.ht)@,
                    key_view(self.key),
                    final(z)@,
                ),
                Err(_) => value.zval_spec() is None && final(self.ht)@ == old(self.ht)@,
            },
    {
        let z = value.into_zval(false);
        match z {
            Ok(z) => Ok(self.ht.store_key(&self.key, z)),
            Err(e) => Err(e),
        }
    }
}

} // verus!
