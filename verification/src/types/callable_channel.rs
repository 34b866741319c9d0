//! Identifiers and plain values that cross threads to reach PHP callables.
use std::collections::HashMap;
use std::collections::VecDeque;
use vstd::prelude::*;

use crate::convert::IntoZval;
use crate::error::Error;
use crate::types::array::{find_key, lemma_find_from, store, unique_keys};
use crate::types::zval::{
    ArrayKey as TableKey, KeyView, ZendHashTable, Zval, ZvalView, buckets_view, lemma_buckets_view,
};

verus! {

/// The identifier of a registered closure; it can be sent between threads.
#[derive(Debug, Clone, Copy, PartialEq, Eq, Hash)]
pub struct ClosureId(pub u64);

impl ClosureId {
    /// The identifier with the given number.
    pub fn from_u64(id: u64) -> (r: Self)
        ensures
            r.0 == id,
    {
        ClosureId(id)
    }

    /// The number of the identifier.
    pub fn as_u64(self) -> (r: u64)
        ensures
            r == self.0,
    {
        self.0
    }
}

/// The closures that other threads may call, each under its own identifier.
/// Identifiers are handed out in increasing order from 1 and never reused.
pub struct ClosureRegistry {
    closures: HashMap<u64, Zval>,
    next_id: u64,
}

impl ClosureRegistry {
    /// The registered closures by identifier number.
    pub closed spec fn spec_closures(&self) -> Map<u64, Zval> {
        self.closures@
    }

    /// The number the next registration gets.
    pub closed spec fn spec_next_id(&self) -> u64 {
        self.next_id
    }

    /// Every registered identifier was handed out before the next one, and
    /// none is 0.
    #[verifier::type_invariant]
    spec fn wf(&self) -> bool {
        &&& self.next_id >= 1
        &&& forall|id: u64| #[trigger] self.closures@.contains_key(id) ==> 1 <= id < self.next_id
    }

    /// An empty registry.
    pub fn new() -> (r: Self)
        ensures
            r.spec_closures() == Map::<u64, Zval>::empty(),
            r.spec_next_id() == 1,
    {
        ClosureRegistry { closures: HashMap::new(), next_id: 1 }
    }

    /// The number the next registration gets.
    pub fn next_id(&self) -> (r: u64)
        ensures
            r == self.spec_next_id(),
    {
        self.next_id
    }

    /// Registers `callable` under a fresh identifier, when the engine found it
    /// callable (`is_callable`); `None` otherwise, leaving the registry as it
    /// was.
    pub fn register_owned(&mut self, callable: Zval, is_callable: bool) -> (r: Option<ClosureId>)
        requires
            old(self).spec_next_id() < u64::MAX,
        ensures
            r is Some <==> is_callable,
            r is None ==> final(self).spec_closures() == old(self).spec_closures()
                && final(self).spec_next_id() == old(self).spec_next_id(),
            r matches Some(id) ==> {
                &&& id.0 == old(self).spec_next_id()
                &&& !old(self).spec_closures().contains_key(id.0)
                &&& final(self).spec_closures() == old(self).spec_closures().insert(id.0, callable)
                &&& final(self).spec_next_id() == old(self).spec_next_id() + 1
            },
    {
        broadcast use vstd::std_specs::hash::group_hash_axioms;

        proof {
            use_type_invariant(&*self);
        }
        if !is_callable {
            return None;
        }
        let id = self.next_id;
        let mut closures: HashMap<u64, Zval> = HashMap::new();
        std::mem::swap(&mut closures, &mut self.closures);
        closures.insert(id, callable);
        assert forall|k: u64| #[trigger] closures@.contains_key(k) implies 1 <= k < id + 1 by {
            if k != id {
                assert(old(self).spec_closures().contains_key(k));
            }
        }
        self.next_id = id + 1;
        self.closures = closures;
        Some(ClosureId(id))
    }

    /// Removes the closure `id`; whether there was one.
    pub fn unregister(&mut self, id: ClosureId) -> (r: bool)
        requires
        ensures
            r == old(self).spec_closures().contains_key(id.0),
            final(self).spec_closures() == old(self).spec_closures().remove(id.0),
            final(self).spec_next_id() == old(self).spec_next_id(),
    {
        broadcast use vstd::std_specs::hash::group_hash_axioms;

        proof {
            use_type_invariant(&*self);
        }
        let mut closures: HashMap<u64, Zval> = HashMap::new();
        std::mem::swap(&mut closures, &mut self.closures);
        let r = closures.remove(&id.0).is_some();
        assert forall|k: u64| #[trigger] closures@.contains_key(k) implies 1 <= k < self.next_id by {
            assert(old(self).spec_closures().contains_key(k));
        }
        self.closures = closures;
        r
    }

    /// Whether the closure `id` is registered.
    pub fn contains(&self, id: ClosureId) -> (r: bool)
        ensures
            r == self.spec_closures().contains_key(id.0),
    {
        broadcast use vstd::std_specs::hash::group_hash_axioms;

        self.closures.contains_key(&id.0)
    }

    /// The number of registered closures.
    pub fn len(&self) -> (r: usize)
        ensures
            r == self.spec_closures().len(),
    {
        broadcast use vstd::std_specs::hash::group_hash_axioms;

        self.closures.len()
    }

    /// Whether no closure is registered.
    pub fn is_empty(&self) -> (r: bool)
        ensures
            r == (self.spec_closures().len() == 0),
    {
        broadcast use vstd::std_specs::hash::group_hash_axioms;

        self.closures.len() == 0
    }

    /// The closure registered as `id`, or the error a call of it reports when
    /// there is none.
    pub fn lookup(&self, id: ClosureId) -> (r: Result<&Zval, String>)
        ensures
            match r {
                Ok(z) => self.spec_closures().contains_key(id.0) && *z == self.spec_closures()[id.0],
                Err(msg) => !self.spec_closures().contains_key(id.0) && msg@ == missing_closure_message(id.0),
            },
    {
        broadcast use vstd::std_specs::hash::group_hash_axioms;

        match self.closures.get(&id.0) {
            Some(z) => Ok(z),
            None => {
                let mut msg = String::from_str("Closure ClosureId(");
                crate::text::append_decimal(&mut msg, id.0);
                msg.append(") not found in registry");
                Err(msg)
            },
        }
    }
}

/// The error of a call of a closure that is not registered.
pub open spec fn missing_closure_message(id: u64) -> Seq<char> {
    "Closure ClosureId("@ + crate::text::dec(id as nat) + ") not found in registry"@
}

/// A key of a serialized array.
#[derive(Debug, Clone)]
pub enum ArrayKey {
    /// An integer key.
    Int(i64),
    /// A string key.
    String(String),
}

/// A value in a form that can be sent between threads: the plain PHP values
/// and arrays of them.
#[derive(Debug)]
pub enum SerializedValue {
    /// `null`.
    Null,
    /// A boolean.
    Bool(bool),
    /// An integer.
    Long(i64),
    /// A float, as its IEEE-754 bit pattern.
    Double(u64),
    /// A string.
    String(String),
    /// An array of key/value pairs, in order.
    Array(Vec<(ArrayKey, SerializedValue)>),
}

/// The abstract content of a [`SerializedValue`].
pub enum SerialView {
    Null,
    Bool(bool),
    Long(i64),
    Double(u64),
    Text(Seq<char>),
    Array(Seq<(KeyView, SerialView)>),
}

/// The abstract key of a serialized array key.
pub open spec fn serial_key_view(k: ArrayKey) -> KeyView {
    match k {
        ArrayKey::Int(i) => KeyView::Int(i),
        ArrayKey::String(s) => KeyView::Text(s@),
    }
}

/// The abstract content of a serialized value.
pub open spec fn serial_view(v: SerializedValue) -> SerialView
    decreases v,
{
    match v {
        SerializedValue::Null => SerialView::Null,
        SerializedValue::Bool(b) => SerialView::Bool(b),
        SerializedValue::Long(n) => SerialView::Long(n),
        SerializedValue::Double(b) => SerialView::Double(b),
        SerializedValue::String(s) => SerialView::Text(s@),
        SerializedValue::Array(items) => SerialView::Array(items_view(items@)),
    }
}

/// The abstract entries of a serialized array.
pub open spec fn items_view(s: Seq<(ArrayKey, SerializedValue)>) -> Seq<(KeyView, SerialView)>
    decreases s,
{
    if s.len() == 0 {
        Seq::empty()
    } else {
        items_view(s.drop_last()).push((serial_key_view(s.last().0), serial_view(s.last().1)))
    }
}

impl View for SerializedValue {
    type V = SerialView;

    open spec fn view(&self) -> SerialView {
        serial_view(*self)
    }
}

/// The abstract content of an optional serialized value.
pub open spec fn opt_serial(v: Option<SerializedValue>) -> Option<SerialView> {
    match v {
        Some(s) => Some(s@),
        None => None,
    }
}

/// What serializing a zval gives: `null`, booleans, integers, floats, UTF-8
/// strings, and arrays whose every value serializes; `None` for everything
/// else (objects, resources, references, strings that are not UTF-8).
pub open spec fn serialize(v: ZvalView) -> Option<SerialView>
    decreases v,
{
    match v {
        ZvalView::Null => Some(SerialView::Null),
        ZvalView::True => Some(SerialView::Bool(true)),
        ZvalView::False => Some(SerialView::Bool(false)),
        ZvalView::Long(n) => Some(SerialView::Long(n)),
        ZvalView::Double(b) => Some(SerialView::Double(b)),
        ZvalView::Str(b) => if vstd::utf8::valid_utf8(b) {
            Some(SerialView::Text(vstd::utf8::decode_utf8(b)))
        } else {
            None
        },
        ZvalView::Array(es) => match serialize_entries(es) {
            Some(s) => Some(SerialView::Array(s)),
            None => None,
        },
        _ => None,
    }
}

/// The serialized entries of an array, if every value serializes.
pub open spec fn serialize_entries(es: Seq<(KeyView, ZvalView)>) -> Option<Seq<(KeyView, SerialView)>>
    decreases es,
{
    if es.len() == 0 {
        Some(Seq::empty())
    } else {
        match serialize_entries(es.drop_last()) {
            Some(a) => match serialize(es.last().1) {
                Some(b) => Some(a.push((es.last().0, b))),
                None => None,
            },
            None => None,
        }
    }
}

/// The zval a serialized value turns back into: arrays are rebuilt by storing
/// each pair in order, so a later pair overrides an earlier one with its key.
pub open spec fn deserialize(s: SerialView) -> ZvalView
    decreases s,
{
    match s {
        SerialView::Null => ZvalView::Null,
        SerialView::Bool(b) => if b {
            ZvalView::True
        } else {
            ZvalView::False
        },
        SerialView::Long(n) => ZvalView::Long(n),
        SerialView::Double(b) => ZvalView::Double(b),
        SerialView::Text(t) => ZvalView::Str(vstd::utf8::encode_utf8(t)),
        SerialView::Array(es) => ZvalView::Array(deserialize_entries(es)),
    }
}

/// The table that storing the deserialized pairs in order builds.
pub open spec fn deserialize_entries(es: Seq<(KeyView, SerialView)>) -> Seq<(KeyView, ZvalView)>
    decreases es,
{
    if es.len() == 0 {
        Seq::empty()
    } else {
        store(deserialize_entries(es.drop_last()), es.last().0, deserialize(es.last().1))
    }
}

impl SerializedValue {
    /// Serializes a zval (see [`serialize`]); `None` when it holds something
    /// that cannot cross threads.
    pub fn from_zval(zval: &Zval) -> (r: Option<SerializedValue>)
        ensures
            opt_serial(r) == serialize(zval@),
        decreases zval,
    {
        match zval {
            Zval::Null => Some(SerializedValue::Null),
            Zval::True => Some(SerializedValue::Bool(true)),
            Zval::False => Some(SerializedValue::Bool(false)),
            Zval::Long(n) => Some(SerializedValue::Long(*n)),
            Zval::Double(b) => Some(SerializedValue::Double(*b)),
            Zval::String(_) => match zval.string() {
                Some(s) => Some(SerializedValue::String(s)),
                None => None,
            },
            Zval::Array(t) => {
                let n = t.buckets.len();
                let mut items: Vec<(ArrayKey, SerializedValue)> = Vec::new();
                let mut i: usize = 0;
                proof {
                    lemma_buckets_view(t.buckets@);
                    assert(buckets_view(t.buckets@).take(0) =~= Seq::<(KeyView, ZvalView)>::empty());
                }
                while i < n
                    invariant
                        *zval == Zval::Array(*t),
                        n == t.buckets@.len(),
                        i <= n,
                        buckets_view(t.buckets@).len() == n,
                        forall|j: int|
                            0 <= j < n ==> #[trigger] buckets_view(t.buckets@)[j] == (
                                crate::types::zval::key_view(t.buckets@[j].key),
                                t.buckets@[j].val@,
                            ),
                        serialize_entries(buckets_view(t.buckets@).take(i as int)) == Some(
                            items_view(items@),
                        ),
                    decreases n - i,
                {
                    let b = &t.buckets[i];
                    let key = match &b.key {
                        TableKey::Long(k) => ArrayKey::Int(*k),
                        TableKey::String(s) => ArrayKey::String(s.clone()),
                        TableKey::Str(s) => ArrayKey::String(String::from_str(s)),
                    };
                    let ghost es = buckets_view(t.buckets@).take(i + 1);
                    proof {
                        assert(es.drop_last() =~= buckets_view(t.buckets@).take(i as int));
                        assert(es.last() == buckets_view(t.buckets@)[i as int]);
                    }
                    let v = match SerializedValue::from_zval(&b.val) {
                        Some(v) => v,
                        None => {
                            proof {
                                lemma_serialize_entries_stuck(
                                    buckets_view(t.buckets@),
                                    (i + 1) as int,
                                );
                            }
                            return None;
                        },
                    };
                    let ghost old_items = items@;
                    items.push((key, v));
                    proof {
                        assert(items@.drop_last() =~= old_items);
                    }
                    i = i + 1;
                }
                proof {
                    assert(buckets_view(t.buckets@).take(n as int) =~= buckets_view(t.buckets@));
                }
                Some(SerializedValue::Array(items))
            },
            _ => None,
        }
    }
}

impl SerializedValue {
    /// Turns the value back into a zval (see [`deserialize`]).
    pub fn to_zval(&self) -> (r: Result<Zval, Error>)
        ensures
            r matches Ok(z) && z@ == deserialize(self@),
        decreases self,
    {
        match self {
            SerializedValue::Null => Ok(Zval::new()),
            SerializedValue::Bool(b) => (*b).into_zval(false),
            SerializedValue::Long(i) => (*i).into_zval(false),
            SerializedValue::Double(b) => Ok(Zval::Double(*b)),
            SerializedValue::String(s) => s.as_str().into_zval(false),
            SerializedValue::Array(items) => {
                let n = items.len();
                let mut arr = ZendHashTable::new();
                let mut i: usize = 0;
                proof {
                    lemma_items_view(items@);
                    assert(items_view(items@).take(0) =~= Seq::<(KeyView, SerialView)>::empty());
                }
                while i < n
                    invariant
                        *self == SerializedValue::Array(*items),
                        n == items@.len(),
                        i <= n,
                        items_view(items@).len() == n,
                        forall|j: int|
                            0 <= j < n ==> #[trigger] items_view(items@)[j] == (
                                serial_key_view(items@[j].0),
                                items@[j].1@,
                            ),
                        arr@ == deserialize_entries(items_view(items@).take(i as int)),
                    decreases n - i,
                {
                    let (key, val) = &items[i];
                    let ghost es = items_view(items@).take(i + 1);
                    proof {
                        assert(es.drop_last() =~= items_view(items@).take(i as int));
                        assert(es.last() == items_view(items@)[i as int]);
                    }
                    let zval = match val.to_zval() {
                        Ok(z) => z,
                        Err(e) => return Err(e),
                    };
                    match key {
                        ArrayKey::Int(k) => {
                            let _ = arr.insert_at_index(*k, zval);
                        },
                        ArrayKey::String(s) => {
                            let _ = arr.insert(s.as_str(), zval);
                        },
                    }
                    i = i + 1;
                }
                proof {
                    assert(items_view(items@).take(n as int) =~= items_view(items@));
                }
                arr.into_zval(false)
            },
        }
    }
}

proof fn lemma_items_view(s: Seq<(ArrayKey, SerializedValue)>)
    ensures
        items_view(s).len() == s.len(),
        forall|i: int|
            0 <= i < s.len() ==> #[trigger] items_view(s)[i] == (serial_key_view(s[i].0), s[i].1@),
    decreases s.len(),
{
    if s.len() > 0 {
        lemma_items_view(s.drop_last());
    }
}

/// Once a prefix of the entries fails to serialize, every longer prefix does.
proof fn lemma_serialize_entries_stuck(es: Seq<(KeyView, ZvalView)>, i: int)
    requires
        0 < i <= es.len(),
        serialize_entries(es.take(i)) is None,
    ensures
        serialize_entries(es) is None,
    decreases es.len() - i,
{
    if i < es.len() {
        assert(es.take(i + 1).drop_last() =~= es.take(i));
        lemma_serialize_entries_stuck(es, i + 1);
    } else {
        assert(es.take(i) =~= es);
    }
}

/// Every array in the value holds each key at most once, as every table
/// built through [`ZendHashTable`] does.
pub open spec fn view_wf(v: ZvalView) -> bool
    decreases v,
{
    match v {
        ZvalView::Array(es) => unique_keys(es) && entries_wf(es),
        _ => true,
    }
}

/// Every value of the entries is well formed (see [`view_wf`]).
pub open spec fn entries_wf(es: Seq<(KeyView, ZvalView)>) -> bool
    decreases es,
{
    es.len() == 0 || (entries_wf(es.drop_last()) && view_wf(es.last().1))
}

/// No key occurs twice among serialized pairs.
pub open spec fn serial_unique_keys(es: Seq<(KeyView, SerialView)>) -> bool {
    forall|i: int, j: int| 0 <= i < es.len() && 0 <= j < es.len() && i != j ==> es[i].0 != es[j].0
}

/// Every serialized array holds each key at most once.
pub open spec fn serial_wf(s: SerialView) -> bool
    decreases s,
{
    match s {
        SerialView::Array(es) => serial_unique_keys(es) && serial_entries_wf(es),
        _ => true,
    }
}

/// Every value of the serialized pairs is well formed (see [`serial_wf`]).
pub open spec fn serial_entries_wf(es: Seq<(KeyView, SerialView)>) -> bool
    decreases es,
{
    es.len() == 0 || (serial_entries_wf(es.drop_last()) && serial_wf(es.last().1))
}

proof fn lemma_serialize_round_trip(v: ZvalView)
    requires
        view_wf(v),
        serialize(v) is Some,
    ensures
        deserialize(serialize(v).unwrap()) == v,
    decreases v,
{
    match v {
        ZvalView::Str(b) => {
            vstd::utf8::decode_utf8_encode_utf8(b);
        },
        ZvalView::Array(es) => {
            lemma_serialize_entries_round_trip(es);
        },
        _ => {},
    }
}

proof fn lemma_serialize_entries_round_trip(es: Seq<(KeyView, ZvalView)>)
    requires
        unique_keys(es),
        entries_wf(es),
        serialize_entries(es) is Some,
    ensures
        deserialize_entries(serialize_entries(es).unwrap()) == es,
    decreases es,
{
    if es.len() > 0 {
        let p = es.drop_last();
        let k = es.last().0;
        assert(unique_keys(p)) by {
            assert forall|i: int, j: int| 0 <= i < p.len() && 0 <= j < p.len() && i != j implies p[i].0
                != p[j].0 by {
                assert(p[i] == es[i] && p[j] == es[j]);
            }
        }
        lemma_serialize_entries_round_trip(p);
        lemma_serialize_round_trip(es.last().1);
        let a = serialize_entries(p).unwrap();
        let b = serialize(es.last().1).unwrap();
        assert(a.push((k, b)).drop_last() =~= a);
        lemma_find_from(p, k, 0);
        if find_key(p, k) >= 0 {
            assert(p[find_key(p, k)] == es[find_key(p, k)]);
        }
        assert(store(p, k, es.last().1) =~= es);
    }
}

proof fn lemma_deserialize_round_trip(s: SerialView)
    requires
        serial_wf(s),
    ensures
        serialize(deserialize(s)) == Some(s),
    decreases s,
{
    match s {
        SerialView::Text(t) => {
            vstd::utf8::encode_utf8_valid_utf8(t);
            vstd::utf8::encode_utf8_decode_utf8(t);
        },
        SerialView::Array(es) => {
            lemma_deserialize_entries_round_trip(es);
        },
        _ => {},
    }
}

proof fn lemma_deserialize_entries_round_trip(es: Seq<(KeyView, SerialView)>)
    requires
        serial_unique_keys(es),
        serial_entries_wf(es),
    ensures
        serialize_entries(deserialize_entries(es)) == Some(es),
        deserialize_entries(es).len() == es.len(),
        forall|i: int| 0 <= i < es.len() ==> #[trigger] deserialize_entries(es)[i].0 == es[i].0,
    decreases es,
{
    if es.len() > 0 {
        let p = es.drop_last();
        let k = es.last().0;
        assert(serial_unique_keys(p)) by {
            assert forall|i: int, j: int| 0 <= i < p.len() && 0 <= j < p.len() && i != j implies p[i].0
                != p[j].0 by {
                assert(p[i] == es[i] && p[j] == es[j]);
            }
        }
        lemma_deserialize_entries_round_trip(p);
        lemma_deserialize_round_trip(es.last().1);
        let d = deserialize_entries(p);
        lemma_find_from(d, k, 0);
        if find_key(d, k) >= 0 {
            assert(d[find_key(d, k)].0 == p[find_key(d, k)].0);
            assert(p[find_key(d, k)] == es[find_key(d, k)]);
        }
        let full = d.push((k, deserialize(es.last().1)));
        assert(deserialize_entries(es) == full);
        assert(full.drop_last() =~= d);
        assert(p.push((k, es.last().1)) =~= es);
        assert forall|i: int| 0 <= i < es.len() implies #[trigger] deserialize_entries(es)[i].0 == es[i].0 by {
            if i < p.len() {
                assert(full[i] == d[i]);
                assert(p[i] == es[i]);
            }
        }
    }
}

/// Serializing a value and turning the result back into a zval gives the
/// same value, for every value that serializes and whose arrays hold each key
/// once.
pub proof fn law_serialize_round_trip(v: ZvalView)
    requires
        view_wf(v),
        serialize(v) is Some,
    ensures
        deserialize(serialize(v).unwrap()) == v,
{
    lemma_serialize_round_trip(v);
}

/// Turning a serialized value into a zval and serializing that gives the same
/// serialized value back, when its arrays hold each key once.
pub proof fn law_deserialize_round_trip(s: SerialView)
    requires
        serial_wf(s),
    ensures
        serialize(deserialize(s)) == Some(s),
{
    lemma_deserialize_round_trip(s);
}

impl From<()> for SerializedValue {
    fn from(unit: ()) -> (r: SerializedValue) {
        SerializedValue::Null
    }
}

impl vstd::std_specs::convert::FromSpecImpl<()> for SerializedValue {
    open spec fn obeys_from_spec() -> bool {
        true
    }

    open spec fn from_spec(v: ()) -> SerializedValue {
        SerializedValue::Null
    }
}

impl From<bool> for SerializedValue {
    fn from(b: bool) -> (r: SerializedValue) {
        SerializedValue::Bool(b)
    }
}

impl vstd::std_specs::convert::FromSpecImpl<bool> for SerializedValue {
    open spec fn obeys_from_spec() -> bool {
        true
    }

    open spec fn from_spec(v: bool) -> SerializedValue {
        SerializedValue::Bool(v)
    }
}

impl From<i64> for SerializedValue {
    fn from(i: i64) -> (r: SerializedValue) {
        SerializedValue::Long(i)
    }
}

impl vstd::std_specs::convert::FromSpecImpl<i64> for SerializedValue {
    open spec fn obeys_from_spec() -> bool {
        true
    }

    open spec fn from_spec(v: i64) -> SerializedValue {
        SerializedValue::Long(v)
    }
}

impl From<i32> for SerializedValue {
    fn from(i: i32) -> (r: SerializedValue) {
        SerializedValue::Long(i as i64)
    }
}

impl vstd::std_specs::convert::FromSpecImpl<i32> for SerializedValue {
    open spec fn obeys_from_spec() -> bool {
        true
    }

    open spec fn from_spec(v: i32) -> SerializedValue {
        SerializedValue::Long(v as i64)
    }
}

impl From<String> for SerializedValue {
    fn from(s: String) -> (r: SerializedValue) {
        SerializedValue::String(s)
    }
}

impl vstd::std_specs::convert::FromSpecImpl<String> for SerializedValue {
    open spec fn obeys_from_spec() -> bool {
        true
    }

    open spec fn from_spec(v: String) -> SerializedValue {
        SerializedValue::String(v)
    }
}

impl<'a> From<&'a str> for SerializedValue {
    fn from(s: &'a str) -> (r: SerializedValue)
        ensures
            r@ == SerialView::Text(s@),
    {
        SerializedValue::String(String::from_str(s))
    }
}

impl<'a> vstd::std_specs::convert::FromSpecImpl<&'a str> for SerializedValue {
    open spec fn obeys_from_spec() -> bool {
        false
    }

    open spec fn from_spec(v: &'a str) -> SerializedValue {
        arbitrary()
    }
}

/// What a callable request calls.
#[derive(Debug)]
pub enum CallableTarget {
    /// A named function, e.g. `strtoupper` or `MyClass::method`.
    Function(String),
    /// A registered closure.
    Closure(ClosureId),
}

/// A request to call a PHP function or closure; `reply` is where its
/// response goes.
#[derive(Debug)]
pub struct CallableRequest<R> {
    /// The request's identifier.
    pub id: u64,
    /// What is called.
    pub target: CallableTarget,
    /// The arguments.
    pub arguments: Vec<SerializedValue>,
    /// Where the response goes.
    pub reply: R,
}

/// The response to a request: its identifier and what the call came to.
#[derive(Debug)]
pub struct CallableResponse {
    /// The identifier of the request answered.
    pub id: u64,
    /// The call's serialized result, or why there is none.
    pub result: Result<SerializedValue, String>,
}

/// A callable resolved for a call on the PHP thread.
pub enum ResolvedCall<'a> {
    /// A function by name.
    Function(&'a str),
    /// A registered closure.
    Closure(&'a Zval),
}

/// The error of a call whose result cannot be serialized.
pub open spec fn unserializable_result_message() -> Seq<char> {
    "Failed to serialize return value (objects/resources not supported)"@
}

/// A queue of call requests that any thread may add to and the PHP thread
/// works off, oldest first. Request identifiers are handed out in increasing
/// order from 1.
pub struct CallableChannel<R> {
    pending: VecDeque<CallableRequest<R>>,
    next_id: u64,
    closure_registry: ClosureRegistry,
}

impl<R> CallableChannel<R> {
    /// The pending requests, oldest first.
    pub closed spec fn spec_pending(&self) -> Seq<CallableRequest<R>> {
        self.pending@
    }

    /// The identifier the next request gets.
    pub closed spec fn spec_next_id(&self) -> u64 {
        self.next_id
    }

    /// The closure registry.
    pub closed spec fn spec_registry(&self) -> ClosureRegistry {
        self.closure_registry
    }

    /// An empty channel with an empty registry.
    pub fn new() -> (r: Self)
        ensures
            r.spec_pending().len() == 0,
            r.spec_next_id() == 1,
            r.spec_registry().spec_closures() == Map::<u64, Zval>::empty(),
    {
        CallableChannel { pending: VecDeque::new(), next_id: 1, closure_registry: ClosureRegistry::new() }
    }

    /// The identifier the next request gets.
    pub fn next_id(&self) -> (r: u64)
        ensures
            r == self.spec_next_id(),
    {
        self.next_id
    }

    /// The closure registry.
    pub fn registry(&self) -> (r: &ClosureRegistry)
        ensures
            *r == self.spec_registry(),
    {
        &self.closure_registry
    }

    /// The closure registry, to register or unregister closures.
    pub fn registry_mut(&mut self) -> (r: &mut ClosureRegistry)
        ensures
            *r == old(self).spec_registry(),
            final(self).spec_registry() == *final(r),
            final(self).spec_pending() == old(self).spec_pending(),
            final(self).spec_next_id() == old(self).spec_next_id(),
    {
        &mut self.closure_registry
    }

    /// Queues a call of the function `function_name`; returns the request's
    /// identifier.
    pub fn queue_call(&mut self, function_name: String, arguments: Vec<SerializedValue>, reply: R) -> (r: u64)
        requires
            old(self).spec_next_id() < u64::MAX,
        ensures
            r == old(self).spec_next_id(),
            final(self).spec_next_id() == old(self).spec_next_id() + 1,
            final(self).spec_registry() == old(self).spec_registry(),
            final(self).spec_pending().len() == old(self).spec_pending().len() + 1,
            final(self).spec_pending().drop_last() == old(self).spec_pending(),
            final(self).spec_pending().last().id == r,
            final(self).spec_pending().last().target == CallableTarget::Function(function_name),
            final(self).spec_pending().last().arguments == arguments,
            final(self).spec_pending().last().reply == reply,
    {
        self.queue_request(CallableTarget::Function(function_name), arguments, reply)
    }

    /// Queues a call of the registered closure `closure_id`; returns the
    /// request's identifier.
    pub fn queue_closure_call(&mut self, closure_id: ClosureId, arguments: Vec<SerializedValue>, reply: R) -> (r:
        u64)
        requires
            old(self).spec_next_id() < u64::MAX,
        ensures
            r == old(self).spec_next_id(),
            final(self).spec_next_id() == old(self).spec_next_id() + 1,
            final(self).spec_registry() == old(self).spec_registry(),
            final(self).spec_pending().len() == old(self).spec_pending().len() + 1,
            final(self).spec_pending().drop_last() == old(self).spec_pending(),
            final(self).spec_pending().last().id == r,
            final(self).spec_pending().last().target == CallableTarget::Closure(closure_id),
            final(self).spec_pending().last().arguments == arguments,
            final(self).spec_pending().last().reply == reply,
    {
        self.queue_request(CallableTarget::Closure(closure_id), arguments, reply)
    }

    fn queue_request(&mut self, target: CallableTarget, arguments: Vec<SerializedValue>, reply: R) -> (r: u64)
        requires
            old(self).spec_next_id() < u64::MAX,
        ensures
            r == old(self).spec_next_id(),
            final(self).spec_next_id() == old(self).spec_next_id() + 1,
            final(self).spec_registry() == old(self).spec_registry(),
            final(self).spec_pending() == old(self).spec_pending().push(
                CallableRequest { id: r, target, arguments, reply },
            ),
    {
        let id = self.next_id;
        self.next_id = self.next_id + 1;
        self.pending.push_back(CallableRequest { id, target, arguments, reply });
        proof {
            assert(self.spec_pending().drop_last() =~= old(self).spec_pending());
        }
        id
    }

    /// Whether requests are waiting.
    pub fn has_pending(&self) -> (r: bool)
        ensures
            r == (self.spec_pending().len() > 0),
    {
        self.pending.len() > 0
    }

    /// The number of waiting requests.
    pub fn pending_count(&self) -> (r: usize)
        ensures
            r == self.spec_pending().len(),
    {
        self.pending.len()
    }

    /// Runs one request: its arguments become zvals, its target is resolved
    /// (a closure that is not registered fails with
    /// [`missing_closure_message`]), `call` makes the call, and its result is
    /// serialized (see [`call_outcome`]).
    fn execute_request<F>(&self, request: &CallableRequest<R>, call: &F) -> (r: Result<
        SerializedValue,
        String,
    >) where F: Fn(ResolvedCall, &Vec<Zval>) -> Result<Zval, String>
        requires
            forall|c: ResolvedCall, a: &Vec<Zval>| #[trigger] call.requires((c, a)),
        ensures
            executes(r, request, self.spec_registry(), call),
    {
        let n = request.arguments.len();
        let mut zval_args: Vec<Zval> = Vec::new();
        let mut i: usize = 0;
        while i < n
            invariant
                n == request.arguments@.len(),
                i <= n,
                zval_args@.len() == i,
                forall|k: int| 0 <= k < i ==> (#[trigger] zval_args@[k])@ == deserialize(request.arguments@[k]@),
            decreases n - i,
        {
            let z = request.arguments[i].to_zval().unwrap();
            zval_args.push(z);
            i = i + 1;
        }
        let resolved = match &request.target {
            CallableTarget::Function(name) => ResolvedCall::Function(name.as_str()),
            CallableTarget::Closure(id) => match self.closure_registry.lookup(*id) {
                Ok(z) => ResolvedCall::Closure(z),
                Err(msg) => return Err(msg),
            },
        };
        let out = call(resolved, &zval_args);
        let r = match out {
            Ok(z) => match SerializedValue::from_zval(&z) {
                Some(v) => Ok(v),
                None => Err(String::from_str("Failed to serialize return value (objects/resources not supported)")),
            },
            Err(e) => Err(e),
        };
        r
    }

    /// Takes the oldest waiting request off the queue, if any.
    pub fn next_request(&mut self) -> (r: Option<CallableRequest<R>>)
        requires
        ensures
            final(self).spec_next_id() == old(self).spec_next_id(),
            final(self).spec_registry() == old(self).spec_registry(),
            match r {
                Some(req) => old(self).spec_pending().len() > 0 && req == old(self).spec_pending()[0]
                    && final(self).spec_pending() == old(self).spec_pending().drop_first(),
                None => old(self).spec_pending().len() == 0 && final(self).spec_pending() == old(
                    self,
                ).spec_pending(),
            },
    {
        self.pending.pop_front()
    }

    /// Works off every waiting request, oldest first: each is run (see
    /// [`Self::execute_request`]) and its response, under its identifier, is
    /// handed with its `reply` to `send`. Returns how many were run.
    pub fn process_pending<F, S>(&mut self, call: &F, send: &S) -> (r: usize) where
        F: Fn(ResolvedCall, &Vec<Zval>) -> Result<Zval, String>,
        S: Fn(R, CallableResponse),

        requires
            forall|c: ResolvedCall, a: &Vec<Zval>| #[trigger] call.requires((c, a)),
            forall|reply: R, resp: CallableResponse| #[trigger] send.requires((reply, resp)),
        ensures
            r == old(self).spec_pending().len(),
            final(self).spec_pending().len() == 0,
            final(self).spec_next_id() == old(self).spec_next_id(),
            final(self).spec_registry() == old(self).spec_registry(),
            forall|k: int|
                #![trigger old(self).spec_pending()[k]]
                0 <= k < old(self).spec_pending().len() ==> exists|resp: CallableResponse|
                    #[trigger] call_ensures(send, (old(self).spec_pending()[k].reply, resp), ())
                        && answers(resp, old(self).spec_pending()[k], old(self).spec_registry(), call),
    {
        let ghost old_pending = self.spec_pending();
        let total = self.pending.len();
        let mut count: usize = 0;
        loop
            invariant
                total == old(self).spec_pending().len(),
                old_pending == old(self).spec_pending(),
                count + self.spec_pending().len() == total,
                self.spec_pending() == old_pending.subrange(count as int, total as int),
                self.spec_next_id() == old(self).spec_next_id(),
                self.spec_registry() == old(self).spec_registry(),
                forall|c: ResolvedCall, a: &Vec<Zval>| #[trigger] call.requires((c, a)),
                forall|reply: R, resp: CallableResponse| #[trigger] send.requires((reply, resp)),
                forall|k: int|
                    #![trigger old_pending[k]]
                    0 <= k < count ==> exists|resp: CallableResponse|
                        #[trigger] call_ensures(send, (old_pending[k].reply, resp), ())
                            && answers(resp, old_pending[k], old(self).spec_registry(), call),
            ensures
                count == old(self).spec_pending().len(),
                self.spec_pending().len() == 0,
                self.spec_next_id() == old(self).spec_next_id(),
                self.spec_registry() == old(self).spec_registry(),
                forall|k: int|
                    #![trigger old_pending[k]]
                    0 <= k < count ==> exists|resp: CallableResponse|
                        #[trigger] call_ensures(send, (old_pending[k].reply, resp), ())
                            && answers(resp, old_pending[k], old(self).spec_registry(), call),
            decreases self.spec_pending().len(),
        {
            let request = match self.pending.pop_front() {
                Some(req) => req,
                None => break,
            };
            proof {
                assert(request == old_pending[count as int]);
                assert(self.spec_pending() =~= old_pending.subrange(count + 1, total as int));
            }
            let result = self.execute_request(&request, call);
            let response = CallableResponse { id: request.id, result };
            let ghost resp = response;
            send(request.reply, response);
            proof {
                assert(call_ensures(send, (old_pending[count as int].reply, resp), ()));
                assert(answers(resp, old_pending[count as int], old(self).spec_registry(), call));
            }
            count = count + 1;
        }
        count
    }
}

/// The response's result as a value: the serialized value or the error's
/// text.
pub open spec fn result_view(r: Result<SerializedValue, String>) -> Result<SerialView, Seq<char>> {
    match r {
        Ok(v) => Ok(v@),
        Err(e) => Err(e@),
    }
}

/// What a call that returned `out` comes to: its value serialized (an error
/// with [`unserializable_result_message`] when it cannot be), or the call's
/// own error.
pub open spec fn call_outcome(out: Result<Zval, String>) -> Result<SerialView, Seq<char>> {
    match out {
        Ok(z) => match serialize(z@) {
            Some(v) => Ok(v),
            None => Err(unserializable_result_message()),
        },
        Err(e) => Err(e@),
    }
}

/// Whether `c` is what `target` resolves to with `registry`: the function of
/// that name, or the closure registered under that identifier.
pub open spec fn resolves(c: ResolvedCall, target: CallableTarget, registry: ClosureRegistry) -> bool {
    match target {
        CallableTarget::Function(name) => c matches ResolvedCall::Function(f) && f@ == name@,
        CallableTarget::Closure(id) => c matches ResolvedCall::Closure(z)
            && registry.spec_closures().contains_key(id.0) && *z == registry.spec_closures()[id.0],
    }
}

/// Whether the zvals `a` are the arguments `args` turned back into values,
/// one for one.
pub open spec fn converted_arguments(a: Seq<Zval>, args: Seq<SerializedValue>) -> bool {
    &&& a.len() == args.len()
    &&& forall|k: int| 0 <= k < a.len() ==> (#[trigger] a[k])@ == deserialize(args[k]@)
}

/// Whether `target` is a closure that `registry` does not hold.
pub open spec fn unregistered(target: CallableTarget, registry: ClosureRegistry) -> bool {
    match target {
        CallableTarget::Closure(cid) => !registry.spec_closures().contains_key(cid.0),
        _ => false,
    }
}

/// Whether `r` is what running `request` against `registry` with `call` can
/// come to: a call of a closure that `registry` does not hold fails with
/// [`missing_closure_message`]; any other request hands `call` its resolved
/// target and its converted arguments, and `r` follows from what `call`
/// returned (see [`call_outcome`]).
pub open spec fn executes<R, F: Fn(ResolvedCall, &Vec<Zval>) -> Result<Zval, String>>(
    r: Result<SerializedValue, String>,
    request: &CallableRequest<R>,
    registry: ClosureRegistry,
    call: &F,
) -> bool {
    if unregistered(request.target, registry) {
        match request.target {
            CallableTarget::Closure(cid) => r matches Err(m) && m@ == missing_closure_message(cid.0),
            _ => false,
        }
    } else {
        exists|c: ResolvedCall, a: &Vec<Zval>, out: Result<Zval, String>|
            #[trigger] call_ensures(call, (c, a), out) && resolves(c, request.target, registry)
                && converted_arguments(a@, request.arguments@) && result_view(r) == call_outcome(out)
    }
}

/// Whether `resp` answers `request` run against `registry` with `call`: it
/// carries the request's identifier and a result that running the request
/// can come to (see [`executes`]).
pub open spec fn answers<R, F: Fn(ResolvedCall, &Vec<Zval>) -> Result<Zval, String>>(
    resp: CallableResponse,
    request: CallableRequest<R>,
    registry: ClosureRegistry,
    call: &F,
) -> bool {
    &&& resp.id == request.id
    &&& executes(resp.result, &request, registry, call)
}

impl Default for ClosureRegistry {
    /// An empty registry.
    fn default() -> (r: Self)
        ensures
            r.spec_closures() == Map::<u64, Zval>::empty(),
            r.spec_next_id() == 1,
    {
        Self::new()
    }
}

impl<R> Default for CallableChannel<R> {
    /// An empty channel with an empty registry.
    fn default() -> (r: Self)
        ensures
            r.spec_pending().len() == 0,
            r.spec_next_id() == 1,
    {
        Self::new()
    }
}

} // verus!
