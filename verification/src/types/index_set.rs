//! Conversions between PHP arrays and `indexmap`'s insertion-ordered sets of
//! strings.
use indexmap::IndexSet;
use vstd::prelude::*;

use crate::convert::{some_value_unreadable, FromZval, IntoZval};
use crate::error::Error;
use crate::types::array::lemma_find_from;
use crate::types::zval::{buckets_view, lemma_buckets_view, KeyView, ZendHashTable, Zval, ZvalView};

verus! {

#[verifier::external_type_specification]
#[verifier::external_body]
#[verifier::reject_recursive_types(T)]
#[verifier::reject_recursive_types(S)]
pub struct ExIndexSet<T, S>(IndexSet<T, S>);

/// The texts an insertion-ordered set of strings holds, in insertion order.
pub uninterp spec fn index_set_texts(s: IndexSet<String>) -> Seq<Seq<char>>;

/// Wraps `IndexSet::new`: an empty set.
#[verifier::external_body]
fn index_set_new() -> (r: IndexSet<String>)
    ensures
        index_set_texts(r) == Seq::<Seq<char>>::empty(),
{
    IndexSet::new()
}

/// Wraps `IndexSet::insert`: a text the set already holds leaves it as it
/// was and gives `false`; a new one goes last and gives `true`.
#[verifier::external_body]
fn index_set_insert(set: &mut IndexSet<String>, value: String) -> (r: bool)
    ensures
        index_set_texts(*old(set)).contains(value@) ==> !r && index_set_texts(*final(set))
            == index_set_texts(*old(set)),
        !index_set_texts(*old(set)).contains(value@) ==> r && index_set_texts(*final(set))
            == index_set_texts(*old(set)).push(value@),
{
    set.insert(value)
}

/// Wraps `IndexSet::into_iter`, collected: the set's strings in insertion
/// order.
#[verifier::external_body]
fn index_set_into_vec(set: IndexSet<String>) -> (r: Vec<String>)
    ensures
        r@.len() == index_set_texts(set).len(),
        forall|i: int| 0 <= i < r@.len() ==> (#[trigger] r@[i])@ == index_set_texts(set)[i],
{
    set.into_iter().collect()
}

/// The distinct texts of the string values of `es`, in the order they first
/// occur.
pub open spec fn distinct_texts(es: Seq<(KeyView, ZvalView)>) -> Seq<Seq<char>>
    decreases es.len(),
{
    if es.len() == 0 {
        Seq::empty()
    } else {
        let rest = distinct_texts(es.drop_last());
        let t = match es.last().1 {
            ZvalView::Str(b) => vstd::utf8::decode_utf8(b),
            _ => Seq::empty(),
        };
        if rest.contains(t) {
            rest
        } else {
            rest.push(t)
        }
    }
}

/// The array of a set's texts: the `i`-th under the integer key `i`.
pub open spec fn listed_texts(ts: Seq<Seq<char>>) -> Seq<(KeyView, ZvalView)> {
    Seq::new(ts.len(), |i: int| (KeyView::Int(i as i64), ZvalView::Str(vstd::utf8::encode_utf8(ts[i]))))
}

impl FromZval for IndexSet<String> {
    /// An array reads as the set of the texts of its values, in the order
    /// they first occur; `None` when one of its values is not a UTF-8
    /// string, or the value is not an array.
    open spec fn reads_as(z: ZvalView, r: Option<IndexSet<String>>) -> bool {
        match z {
            ZvalView::Array(es) => match r {
                Some(set) => index_set_texts(set) == distinct_texts(es),
                None => some_value_unreadable::<String>(es),
            },
            _ => r is None,
        }
    }

    fn from_zval(zval: &Zval) -> (r: Option<IndexSet<String>>) {
        let t = match zval.array() {
            Some(t) => t,
            None => return None,
        };
        let ghost es = buckets_view(t.buckets@);
        proof {
            lemma_buckets_view(t.buckets@);
        }
        let n = t.buckets.len();
        let mut set = index_set_new();
        let mut i: usize = 0;
        assert(es.take(0) =~= Seq::<(KeyView, ZvalView)>::empty());
        while i < n
            invariant
                n == t.buckets@.len(),
                i <= n,
                zval@ == ZvalView::Array(es),
                es == buckets_view(t.buckets@),
                es.len() == n,
                forall|j: int| 0 <= j < n ==> #[trigger] es[j].1 == t.buckets@[j].val@,
                index_set_texts(set) == distinct_texts(es.take(i as int)),
            decreases n - i,
        {
            let s = match String::from_zval(&t.buckets[i].val) {
                Some(s) => s,
                None => {
                    assert(es[i as int].1 == t.buckets@[i as int].val@);
                    assert(0 <= i < es.len() && <String as FromZval>::reads_as(es[i as int].1, None));
                    assert(some_value_unreadable::<String>(es));
                    return None;
                },
            };
            assert(es[i as int].1 == t.buckets@[i as int].val@);
            assert(es.take(i + 1).drop_last() =~= es.take(i as int));
            assert(es.take(i + 1).last() == es[i as int]);
            let _ = index_set_insert(&mut set, s);
            i = i + 1;
        }
        assert(es.take(n as int) =~= es);
        Some(set)
    }
}

impl IntoZval for IndexSet<String> {
    /// A set becomes a list of its strings in insertion order; one of more
    /// than `u32::MAX` strings, more than an array's capacity can hold,
    /// fails.
    open spec fn zval_spec(&self) -> Option<ZvalView> {
        if index_set_texts(*self).len() > u32::MAX {
            None
        } else {
            Some(ZvalView::Array(listed_texts(index_set_texts(*self))))
        }
    }

    fn into_zval(self, persistent: bool) -> (r: Result<Zval, Error>) {
        let ghost ts = index_set_texts(self);
        let items = index_set_into_vec(self);
        let n = items.len();
        if n > 0xFFFF_FFFFusize {
            return Err(Error::IntegerOverflow);
        }
        let mut ht = ZendHashTable::new();
        let mut i: usize = 0;
        assert(listed_texts(ts.take(0)) =~= Seq::<(KeyView, ZvalView)>::empty());
        while i < n
            invariant
                n == ts.len(),
                n <= 0xFFFF_FFFF,
                i <= n,
                items@.len() == n,
                forall|k: int| 0 <= k < n ==> (#[trigger] items@[k])@ == ts[k],
                ht@ == listed_texts(ts.take(i as int)),
            decreases n - i,
        {
            let s: &str = items[i].as_str();
            assert(s@ == ts[i as int]);
            proof {
                lemma_find_from(ht@, KeyView::Int(i as i64), 0);
                assert forall|k: int| 0 <= k < ht@.len() implies ht@[k].0 != KeyView::Int(i as i64) by {
                    assert(ht@[k].0 == KeyView::Int(k as i64));
                }
            }
            let _ = ht.insert_at_index(i as i64, s);
            assert(ht@ =~= listed_texts(ts.take(i + 1)));
            i = i + 1;
        }
        assert(ts.take(n as int) =~= ts);
        let mut z = Zval::new();
        z.set_hashtable(ht);
        Ok(z)
    }
}

} // verus!
