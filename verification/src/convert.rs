//! Conversions between Rust values and [`Zval`]s.
use std::collections::{BTreeSet, HashSet};
use vstd::prelude::*;
use vstd::string::StringSliceAdditionalSpecFns;

use crate::error::Error;
use crate::types::zval::{ZendHashTable, ZendStr, Zval, ZvalView, buckets_view, lemma_buckets_view};

verus! {

/// A Rust value that can be stored in a [`Zval`].
pub trait IntoZval: Sized {
    /// The value the conversion produces, or `None` when it fails.
    spec fn zval_spec(&self) -> Option<ZvalView>;

    /// Converts the value into a new zval; strings are persistent when
    /// `persistent` is set.
    fn into_zval(self, persistent: bool) -> (r: Result<Zval, Error>)
        ensures
            match r {
                Ok(z) => self.zval_spec() == Some(z@),
                Err(_) => self.zval_spec() is None,
            },
    ;
}

/// A Rust value that can be read out of a [`Zval`].
pub trait FromZval: Sized {
    /// Whether `r` is what reading a value with content `z` gives.
    spec fn reads_as(z: ZvalView, r: Option<Self>) -> bool;

    /// Reads the value, or `None` when the zval holds something else.
    fn from_zval(zval: &Zval) -> (r: Option<Self>)
        ensures
            Self::reads_as(zval@, r),
    ;
}

impl IntoZval for i64 {
    open spec fn zval_spec(&self) -> Option<ZvalView> {
        Some(ZvalView::Long(*self))
    }

    fn into_zval(self, persistent: bool) -> (r: Result<Zval, Error>) {
        Ok(Zval::Long(self))
    }
}

impl IntoZval for i32 {
    open spec fn zval_spec(&self) -> Option<ZvalView> {
        Some(ZvalView::Long(*self as i64))
    }

    fn into_zval(self, persistent: bool) -> (r: Result<Zval, Error>) {
        Ok(Zval::Long(self as i64))
    }
}

impl IntoZval for bool {
    open spec fn zval_spec(&self) -> Option<ZvalView> {
        Some(if *self { ZvalView::True } else { ZvalView::False })
    }

    fn into_zval(self, persistent: bool) -> (r: Result<Zval, Error>) {
        Ok(if self { Zval::True } else { Zval::False })
    }
}

impl<'a> IntoZval for &'a str {
    open spec fn zval_spec(&self) -> Option<ZvalView> {
        Some(ZvalView::Str((*self).spec_bytes()))
    }

    fn into_zval(self, persistent: bool) -> (r: Result<Zval, Error>) {
        Ok(Zval::String(ZendStr::new(self, persistent)))
    }
}

impl IntoZval for String {
    open spec fn zval_spec(&self) -> Option<ZvalView> {
        Some(ZvalView::Str(vstd::utf8::encode_utf8(self@)))
    }

    fn into_zval(self, persistent: bool) -> (r: Result<Zval, Error>) {
        let z = Zval::String(ZendStr::new(self.as_str(), persistent));
        Ok(z)
    }
}

impl IntoZval for Zval {
    open spec fn zval_spec(&self) -> Option<ZvalView> {
        Some(self@)
    }

    fn into_zval(self, persistent: bool) -> (r: Result<Zval, Error>) {
        Ok(self)
    }
}

impl IntoZval for ZendHashTable {
    open spec fn zval_spec(&self) -> Option<ZvalView> {
        Some(ZvalView::Array(self@))
    }

    fn into_zval(self, persistent: bool) -> (r: Result<Zval, Error>) {
        Ok(Zval::Array(self))
    }
}

impl FromZval for i64 {
    open spec fn reads_as(z: ZvalView, r: Option<i64>) -> bool {
        r == (match z {
            ZvalView::Long(n) => Some(n),
            _ => None,
        })
    }

    fn from_zval(zval: &Zval) -> (r: Option<i64>) {
        zval.long()
    }
}

impl FromZval for i32 {
    open spec fn reads_as(z: ZvalView, r: Option<i32>) -> bool {
        r == (match z {
            ZvalView::Long(n) => if i32::MIN <= n <= i32::MAX {
                Some(n as i32)
            } else {
                None
            },
            _ => None,
        })
    }

    fn from_zval(zval: &Zval) -> (r: Option<i32>) {
        match zval.long() {
            Some(n) => if -2147483648i64 <= n && n <= 2147483647i64 {
                Some(n as i32)
            } else {
                None
            },
            None => None,
        }
    }
}

/// Reading an `i32` agrees with reading an `i64` and narrowing it
/// (`i32::try_from`): an `i32` is read only where the same number is read as
/// an `i64`, and every `i64` read in the `i32` range is read as that `i32`.
pub proof fn law_i32_reads_as_narrowed_i64(z: ZvalView, r32: Option<i32>, r64: Option<i64>)
    requires
        <i32 as FromZval>::reads_as(z, r32),
        <i64 as FromZval>::reads_as(z, r64),
    ensures
        r32 matches Some(x) ==> r64 == Some(x as i64),
        r64 is Some && i32::MIN <= r64->0 <= i32::MAX ==> r32 == Some(r64->0 as i32),
        r64 is Some && !(i32::MIN <= r64->0 <= i32::MAX) ==> r32 is None,
        r64 is None ==> r32 is None,
{
}

/// Storing a value and reading it back as the same type gives the value
/// back: for `i64`, `i32`, `bool` and `String`.
pub proof fn law_store_then_read_round_trips(
    a: i64,
    b: i32,
    c: bool,
    d: String,
    ra: Option<i64>,
    rb: Option<i32>,
    rc: Option<bool>,
    rd: Option<String>,
)
    requires
        <i64 as FromZval>::reads_as(a.zval_spec().unwrap(), ra),
        <i32 as FromZval>::reads_as(b.zval_spec().unwrap(), rb),
        <bool as FromZval>::reads_as(c.zval_spec().unwrap(), rc),
        <String as FromZval>::reads_as(d.zval_spec().unwrap(), rd),
    ensures
        ra == Some(a),
        rb == Some(b),
        rc == Some(c),
        rd matches Some(s) && s@ == d@,
{
    vstd::utf8::encode_utf8_valid_utf8(d@);
    vstd::utf8::encode_utf8_decode_utf8(d@);
}

impl FromZval for bool {
    open spec fn reads_as(z: ZvalView, r: Option<bool>) -> bool {
        r == (match z {
            ZvalView::True => Some(true),
            ZvalView::False => Some(false),
            _ => None,
        })
    }

    fn from_zval(zval: &Zval) -> (r: Option<bool>) {
        zval.bool()
    }
}

impl FromZval for String {
    open spec fn reads_as(z: ZvalView, r: Option<String>) -> bool {
        &&& r is Some <==> (z matches ZvalView::Str(b) && vstd::utf8::valid_utf8(b))
        &&& r matches Some(s) ==> (z matches ZvalView::Str(b) && s@ == vstd::utf8::decode_utf8(b))
    }

    fn from_zval(zval: &Zval) -> (r: Option<String>) {
        zval.string()
    }
}

impl Zval {
    /// Reads some type out of the value (see [`FromZval`]).
    pub fn extract<T: FromZval>(&self) -> (r: Option<T>)
        ensures
            T::reads_as(self@, r),
    {
        T::from_zval(self)
    }
}

/// Whether `V` is ordered the way vstd models `Ord` (true of the integer types
/// and of the others vstd proves it for).
pub open spec fn std_ordered<V: Ord>() -> bool {
    vstd::laws_cmp::obeys_cmp::<V>()
}

/// Whether `v` reads as a `V` that `set` holds.
pub open spec fn reads_into<V: FromZval>(v: ZvalView, set: Set<V>) -> bool {
    exists|x: V| #[trigger] V::reads_as(v, Some(x)) && set.contains(x)
}

/// Whether some value among `es` reads as `x`.
pub open spec fn read_from_some<V: FromZval>(es: Seq<(crate::types::zval::KeyView, ZvalView)>, x: V) -> bool {
    exists|i: int| 0 <= i < es.len() && #[trigger] V::reads_as(es[i].1, Some(x))
}

/// Whether every value among `es` reads as a `V`, each into an element of
/// `set`, and every element of `set` is what some value reads as.
pub open spec fn reads_into_set<V: FromZval>(es: Seq<(crate::types::zval::KeyView, ZvalView)>, set: Set<V>) -> bool {
    &&& forall|i: int| 0 <= i < es.len() ==> #[trigger] reads_into::<V>(es[i].1, set)
    &&& forall|x: V| #[trigger] set.contains(x) ==> read_from_some::<V>(es, x)
}

proof fn lemma_reads_into_set_push<V: FromZval>(
    es: Seq<(crate::types::zval::KeyView, ZvalView)>,
    i: int,
    set: Set<V>,
    x: V,
)
    requires
        0 <= i < es.len(),
        reads_into_set::<V>(es.take(i), set),
        V::reads_as(es[i].1, Some(x)),
    ensures
        reads_into_set::<V>(es.take(i + 1), set.insert(x)),
{
    let p = es.take(i + 1);
    let q = es.take(i);
    let s2 = set.insert(x);
    assert forall|j: int| 0 <= j < p.len() implies #[trigger] reads_into::<V>(p[j].1, s2) by {
        if j < i {
            assert(p[j] == q[j]);
            assert(reads_into::<V>(q[j].1, set));
            let y = choose|y: V| #[trigger] V::reads_as(q[j].1, Some(y)) && set.contains(y);
            assert(V::reads_as(p[j].1, Some(y)) && s2.contains(y));
        } else {
            assert(p[j] == es[i]);
            assert(V::reads_as(p[j].1, Some(x)) && s2.contains(x));
        }
    }
    assert forall|y: V| #[trigger] s2.contains(y) implies read_from_some::<V>(p, y) by {
        if y == x {
            assert(p[i] == es[i]);
            assert(0 <= i < p.len() && V::reads_as(p[i].1, Some(y)));
        } else {
            assert(set.contains(y));
            assert(read_from_some::<V>(q, y));
            let j = choose|j: int| 0 <= j < q.len() && #[trigger] V::reads_as(q[j].1, Some(y));
            assert(p[j] == q[j]);
            assert(0 <= j < p.len() && V::reads_as(p[j].1, Some(y)));
        }
    }
}

/// An array reads as the set of what its values read as; `None` when one of
/// them does not read as a `V`, or the value is not an array. What the set
/// holds is known where the order of `V` is one vstd models.
pub open spec fn set_reads_as<V: FromZval + Ord>(z: ZvalView, r: Option<BTreeSet<V>>) -> bool {
    match z {
        ZvalView::Array(es) => match r {
            Some(set) => std_ordered::<V>() ==> reads_into_set::<V>(es, set@),
            None => some_value_unreadable::<V>(es),
        },
        _ => r is None,
    }
}

/// Whether some value among `es` does not read as a `V`.
pub open spec fn some_value_unreadable<V: FromZval>(es: Seq<(crate::types::zval::KeyView, ZvalView)>) -> bool {
    exists|i: int| 0 <= i < es.len() && #[trigger] V::reads_as(es[i].1, None)
}

impl<V: FromZval + Ord> FromZval for BTreeSet<V> {
    /// An array reads as the set of what its values read as; `None` when one of
    /// them does not read as a `V`, or the value is not an array. What the set
    /// holds is known where the order of `V` is one vstd models.
    open spec fn reads_as(z: ZvalView, r: Option<BTreeSet<V>>) -> bool {
        set_reads_as::<V>(z, r)
    }

    fn from_zval(zval: &Zval) -> (r: Option<BTreeSet<V>>) {
        let t = match zval.array() {
            Some(t) => t,
            None => return None,
        };
        let ghost es = buckets_view(t.buckets@);
        proof {
            lemma_buckets_view(t.buckets@);
        }
        let mut set: BTreeSet<V> = BTreeSet::new();
        let n = t.buckets.len();
        let mut i: usize = 0;
        while i < n
            invariant
                n == t.buckets@.len(),
                i <= n,
                zval@ == ZvalView::Array(es),
                es == buckets_view(t.buckets@),
                es.len() == n,
                forall|j: int| 0 <= j < n ==> #[trigger] es[j].1 == t.buckets@[j].val@,
                std_ordered::<V>() ==> reads_into_set::<V>(es.take(i as int), set@),
            decreases n - i,
        {
            let v = match V::from_zval(&t.buckets[i].val) {
                Some(v) => v,
                None => {
                    assert(es[i as int].1 == t.buckets@[i as int].val@);
                    assert(0 <= i < es.len() && V::reads_as(es[i as int].1, None));
                    assert(some_value_unreadable::<V>(es));
                    return None;
                },
            };
            let ghost old_set = set@;
            let ghost x = v;
            assert(V::reads_as(es[i as int].1, Some(x)));
            set.insert(v);
            proof {
                if std_ordered::<V>() {
                    lemma_reads_into_set_push::<V>(es, i as int, old_set, x);
                }
            }
            i = i + 1;
        }
        proof {
            assert(es.take(n as int) =~= es);
        }
        Some(set)
    }
}

/// Whether `V` hashes and compares the way vstd models hash-table keys
/// (true of the integer types and the others vstd proves it for).
pub open spec fn std_hashed<V>() -> bool {
    vstd::std_specs::hash::obeys_key_model::<V>()
}

/// An array reads as the hash set of what its values read as; `None` when
/// one of them does not read as a `V`, or the value is not an array. What the
/// set holds is known where `V` hashes the way vstd models.
pub open spec fn hash_set_reads_as<V: FromZval>(z: ZvalView, r: Option<HashSet<V>>) -> bool {
    match z {
        ZvalView::Array(es) => match r {
            Some(set) => std_hashed::<V>() ==> reads_into_set::<V>(es, set@),
            None => some_value_unreadable::<V>(es),
        },
        _ => r is None,
    }
}

impl<V: FromZval + Eq + std::hash::Hash> FromZval for HashSet<V> {
    /// An array reads as the hash set of what its values read as (see
    /// [`hash_set_reads_as`]).
    open spec fn reads_as(z: ZvalView, r: Option<HashSet<V>>) -> bool {
        hash_set_reads_as::<V>(z, r)
    }

    fn from_zval(zval: &Zval) -> (r: Option<HashSet<V>>) {
        broadcast use vstd::std_specs::hash::group_hash_axioms;

        let t = match zval.array() {
            Some(t) => t,
            None => return None,
        };
        let ghost es = buckets_view(t.buckets@);
        proof {
            lemma_buckets_view(t.buckets@);
        }
        let mut set: HashSet<V> = HashSet::new();
        let n = t.buckets.len();
        let mut i: usize = 0;
        while i < n
            invariant
                n == t.buckets@.len(),
                i <= n,
                zval@ == ZvalView::Array(es),
                es == buckets_view(t.buckets@),
                es.len() == n,
                forall|j: int| 0 <= j < n ==> #[trigger] es[j].1 == t.buckets@[j].val@,
                std_hashed::<V>() ==> reads_into_set::<V>(es.take(i as int), set@),
            decreases n - i,
        {
            let v = match V::from_zval(&t.buckets[i].val) {
                Some(v) => v,
                None => {
                    assert(es[i as int].1 == t.buckets@[i as int].val@);
                    assert(0 <= i < es.len() && V::reads_as(es[i as int].1, None));
                    assert(some_value_unreadable::<V>(es));
                    return None;
                },
            };
            let ghost old_set = set@;
            let ghost x = v;
            assert(V::reads_as(es[i as int].1, Some(x)));
            set.insert(v);
            proof {
                if std_hashed::<V>() {
                    lemma_reads_into_set_push::<V>(es, i as int, old_set, x);
                }
            }
            i = i + 1;
        }
        proof {
            assert(es.take(n as int) =~= es);
        }
        Some(set)
    }
}

} // verus!
