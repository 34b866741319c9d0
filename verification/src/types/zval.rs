//! The PHP value container and its hash table, as plain Rust data.
//!
//! A [`Zval`] holds one PHP value. Strings are byte strings, arrays are ordered
//! hash tables keyed by integers or strings, and objects, resources and pointers
//! are carried as opaque handles. Floating-point values are carried as their
//! IEEE-754 bit pattern.
use vstd::prelude::*;
use vstd::string::StringSliceAdditionalSpecFns;

use crate::error::Error;
use crate::flags::DataType;
use crate::text::dec_signed;

verus! {

/// The abstract key of a hash table entry.
pub enum KeyView {
    /// An integer key.
    Int(i64),
    /// A string key.
    Text(Seq<char>),
}

/// The abstract content of a [`Zval`].
pub enum ZvalView {
    Null,
    False,
    True,
    Long(i64),
    Double(u64),
    Str(Seq<u8>),
    Array(Seq<(KeyView, ZvalView)>),
    Object(u32),
    Resource(u64),
    Reference(Box<ZvalView>),
    Indirect(Box<ZvalView>),
    Ptr(u64),
}

/// A PHP string: a byte sequence plus the engine's allocation flags.
#[derive(Debug)]
pub struct ZendStr {
    pub(crate) bytes: Vec<u8>,
    pub(crate) interned: bool,
    pub(crate) persistent: bool,
}

/// An opaque reference to an engine object.
#[derive(Debug, Clone, Copy, PartialEq, Eq)]
pub struct ObjectHandle {
    /// The object's handle number.
    pub id: u32,
}

/// A key of a PHP array.
#[derive(Debug, Clone, PartialEq, Eq)]
pub enum ArrayKey<'a> {
    /// An integer key.
    Long(i64),
    /// An owned string key.
    String(String),
    /// A borrowed string key.
    Str(&'a str),
}

/// One entry of a hash table.
#[derive(Debug)]
pub struct Bucket {
    pub(crate) key: ArrayKey<'static>,
    pub(crate) val: Zval,
}

/// A PHP array: an insertion-ordered table of key/value pairs.
#[derive(Debug)]
pub struct ZendHashTable {
    pub(crate) buckets: Vec<Bucket>,
}

/// A PHP value.
#[derive(Debug)]
pub enum Zval {
    /// `null`.
    Null,
    /// `false`.
    False,
    /// `true`.
    True,
    /// An integer.
    Long(i64),
    /// A float, as its IEEE-754 bit pattern.
    Double(u64),
    /// A string.
    String(ZendStr),
    /// An array.
    Array(ZendHashTable),
    /// An object.
    Object(ObjectHandle),
    /// A resource handle.
    Resource(u64),
    /// A PHP reference to another value.
    Reference(Box<Zval>),
    /// An internal indirection to another value.
    Indirect(Box<Zval>),
    /// An internal pointer.
    Ptr(u64),
}

/// The abstract key of an [`ArrayKey`].
pub open spec fn key_view(k: ArrayKey) -> KeyView {
    match k {
        ArrayKey::Long(n) => KeyView::Int(n),
        ArrayKey::String(s) => KeyView::Text(s@),
        ArrayKey::Str(s) => KeyView::Text(s@),
    }
}

/// The abstract content of a value.
pub open(crate) spec fn zval_view(z: Zval) -> ZvalView
    decreases z,
{
    match z {
        Zval::Null => ZvalView::Null,
        Zval::False => ZvalView::False,
        Zval::True => ZvalView::True,
        Zval::Long(n) => ZvalView::Long(n),
        Zval::Double(b) => ZvalView::Double(b),
        Zval::String(s) => ZvalView::Str(s.bytes@),
        Zval::Array(t) => ZvalView::Array(buckets_view(t.buckets@)),
        Zval::Object(o) => ZvalView::Object(o.id),
        Zval::Resource(r) => ZvalView::Resource(r),
        Zval::Reference(b) => ZvalView::Reference(Box::new(zval_view(*b))),
        Zval::Indirect(b) => ZvalView::Indirect(Box::new(zval_view(*b))),
        Zval::Ptr(p) => ZvalView::Ptr(p),
    }
}

/// The abstract entries of a bucket sequence.
pub open(crate) spec fn buckets_view(s: Seq<Bucket>) -> Seq<(KeyView, ZvalView)>
    decreases s,
{
    if s.len() == 0 {
        Seq::empty()
    } else {
        buckets_view(s.drop_last()).push((key_view(s.last().key), zval_view(s.last().val)))
    }
}

impl View for Zval {
    type V = ZvalView;

    open(crate) spec fn view(&self) -> ZvalView {
        zval_view(*self)
    }
}

impl View for ZendHashTable {
    type V = Seq<(KeyView, ZvalView)>;

    open(crate) spec fn view(&self) -> Seq<(KeyView, ZvalView)> {
        buckets_view(self.buckets@)
    }
}

impl View for ZendStr {
    type V = Seq<u8>;

    open(crate) spec fn view(&self) -> Seq<u8> {
        self.bytes@
    }
}

pub(crate) proof fn lemma_buckets_view(s: Seq<Bucket>)
    ensures
        buckets_view(s).len() == s.len(),
        forall|i: int|
            0 <= i < s.len() ==> #[trigger] buckets_view(s)[i] == (
                key_view(s[i].key),
                zval_view(s[i].val),
            ),
    decreases s.len(),
{
    if s.len() > 0 {
        lemma_buckets_view(s.drop_last());
    }
}

/// The type of a value.
pub open spec fn view_type(v: ZvalView) -> DataType {
    match v {
        ZvalView::Null => DataType::Null,
        ZvalView::False => DataType::False,
        ZvalView::True => DataType::True,
        ZvalView::Long(_) => DataType::Long,
        ZvalView::Double(_) => DataType::Double,
        ZvalView::Str(_) => DataType::String,
        ZvalView::Array(_) => DataType::Array,
        ZvalView::Object(_) => DataType::Object(None),
        ZvalView::Resource(_) => DataType::Resource,
        ZvalView::Reference(_) => DataType::Reference,
        ZvalView::Indirect(_) => DataType::Indirect,
        ZvalView::Ptr(_) => DataType::Ptr,
    }
}

/// The value behind one level of reference or indirection.
pub open spec fn deref_view(v: ZvalView) -> ZvalView {
    match v {
        ZvalView::Reference(b) => *b,
        ZvalView::Indirect(b) => *b,
        _ => v,
    }
}

/// Whether `v` is a scalar (`int`, `float`, `string` or `bool`).
pub open spec fn view_is_scalar(v: ZvalView) -> bool {
    match v {
        ZvalView::Long(_) | ZvalView::Double(_) | ZvalView::Str(_) | ZvalView::True
        | ZvalView::False => true,
        _ => false,
    }
}

/// The truth value of an IEEE-754 double: false only for `0.0` and `-0.0`.
pub open spec fn double_is_true(bits: u64) -> bool {
    bits & 0x7FFF_FFFF_FFFF_FFFFu64 != 0
}

/// PHP's boolean coercion (`zend_is_true`).
pub open spec fn view_truthy(v: ZvalView) -> bool {
    match v {
        ZvalView::Null | ZvalView::False => false,
        ZvalView::True => true,
        ZvalView::Long(n) => n != 0,
        ZvalView::Double(b) => double_is_true(b),
        ZvalView::Str(s) => !(s.len() == 0 || (s.len() == 1 && s[0] == 48u8)),
        ZvalView::Array(a) => a.len() > 0,
        ZvalView::Reference(b) => view_truthy_flat(*b),
        _ => true,
    }
}

/// Boolean coercion of a value that is not itself a reference.
pub open spec fn view_truthy_flat(v: ZvalView) -> bool {
    match v {
        ZvalView::Null | ZvalView::False => false,
        ZvalView::True => true,
        ZvalView::Long(n) => n != 0,
        ZvalView::Double(b) => double_is_true(b),
        ZvalView::Str(s) => !(s.len() == 0 || (s.len() == 1 && s[0] == 48u8)),
        ZvalView::Array(a) => a.len() > 0,
        _ => true,
    }
}

/// The values PHP's documentation lists as false: `null`, `false`, the
/// integer 0, the floats 0.0 and -0.0, the empty string, the string `"0"`
/// and the empty array.
pub open spec fn php_false_value(v: ZvalView) -> bool {
    ||| v == ZvalView::Null
    ||| v == ZvalView::False
    ||| v == ZvalView::Long(0)
    ||| v == ZvalView::Double(0)
    ||| v == ZvalView::Double(0x8000_0000_0000_0000)
    ||| v == ZvalView::Str(Seq::empty())
    ||| v == ZvalView::Str(seq![48u8])
    ||| v == ZvalView::Array(Seq::empty())
}

proof fn lemma_flat_truthiness(v: ZvalView)
    ensures
        !view_truthy_flat(v) <==> php_false_value(v),
{
    match v {
        ZvalView::Double(b) => {
            assert((b & 0x7FFF_FFFF_FFFF_FFFFu64 == 0) <==> (b == 0 || b == 0x8000_0000_0000_0000u64))
                by (bit_vector);
        },
        ZvalView::Str(t) => {
            if t.len() == 0 {
                assert(t =~= Seq::<u8>::empty());
            } else if t.len() == 1 && t[0] == 48u8 {
                assert(t =~= seq![48u8]);
            } else {
                assert(t != Seq::<u8>::empty());
                assert(t != seq![48u8]) by {
                    if t == seq![48u8] {
                        assert(t.len() == 1 && t[0] == 48u8);
                    }
                }
            }
        },
        ZvalView::Array(a) => {
            if a.len() == 0 {
                assert(a =~= Seq::<(KeyView, ZvalView)>::empty());
            } else {
                assert(a != Seq::<(KeyView, ZvalView)>::empty());
            }
        },
        _ => {},
    }
}

/// A value coerces to `false` exactly when it is one of the values PHP's
/// documentation lists as false, or a reference to one; every object, and
/// every other value, coerces to `true`.
pub proof fn law_truthiness(v: ZvalView)
    ensures
        !view_truthy(v) <==> (php_false_value(v) || (v matches ZvalView::Reference(b) && php_false_value(*b))),
        v is Object ==> view_truthy(v),
{
    lemma_flat_truthiness(v);
    if let ZvalView::Reference(b) = v {
        lemma_flat_truthiness(*b);
    }
}

/// Wraps `std::str::from_utf8`: the text of `bytes` when they are valid UTF-8.
#[verifier::external_body]
pub fn utf8_str(bytes: &[u8]) -> (r: Option<&str>)
    ensures
        r is Some <==> vstd::utf8::valid_utf8(bytes@),
        r matches Some(s) ==> s@ == vstd::utf8::decode_utf8(bytes@),
{
    std::str::from_utf8(bytes).ok()
}

impl ZendStr {
    /// A new request-bound or persistent string with the bytes of `s`.
    pub fn new(s: &str, persistent: bool) -> (r: ZendStr)
        ensures
            r@ == s.spec_bytes(),
            r.spec_persistent() == persistent,
            !r.spec_interned(),
    {
        ZendStr { bytes: vstd::slice::slice_to_vec(s.as_bytes()), interned: false, persistent }
    }

    /// A new interned string with the bytes of `s`.
    pub fn new_interned(s: &str, persistent: bool) -> (r: ZendStr)
        ensures
            r@ == s.spec_bytes(),
            r.spec_persistent() == persistent,
            r.spec_interned(),
    {
        ZendStr { bytes: vstd::slice::slice_to_vec(s.as_bytes()), interned: true, persistent }
    }

    /// The number of bytes.
    pub fn len(&self) -> (r: usize)
        ensures
            r == self@.len(),
    {
        self.bytes.len()
    }

    /// Whether the string has no bytes.
    pub fn is_empty(&self) -> (r: bool)
        ensures
            r == (self@.len() == 0),
    {
        self.bytes.len() == 0
    }

    /// The raw bytes.
    pub fn as_bytes(&self) -> (r: &[u8])
        ensures
            r@ == self@,
    {
        self.bytes.as_slice()
    }

    /// The text of the string, if its bytes are valid UTF-8.
    pub fn as_str(&self) -> (r: Option<&str>)
        ensures
            r is Some <==> vstd::utf8::valid_utf8(self@),
            r matches Some(s) ==> s@ == vstd::utf8::decode_utf8(self@),
    {
        utf8_str(self.bytes.as_slice())
    }

    /// Whether the string is interned (spec view of the flag).
    pub closed spec fn spec_interned(&self) -> bool {
        self.interned
    }

    /// Whether the string is persistent (spec view of the flag).
    pub closed spec fn spec_persistent(&self) -> bool {
        self.persistent
    }

    /// Whether the engine keeps the string in its interned table.
    pub fn is_interned(&self) -> (r: bool)
        ensures
            r == self.spec_interned(),
    {
        self.interned
    }

    /// Whether the string survives between requests.
    pub fn is_persistent(&self) -> (r: bool)
        ensures
            r == self.spec_persistent(),
    {
        self.persistent
    }
}

impl Zval {
    /// A new zval holding `null`.
    pub fn new() -> (r: Zval)
        ensures
            r@ == ZvalView::Null,
    {
        Zval::Null
    }

    /// A zval holding `null`.
    pub fn null() -> (r: Zval)
        ensures
            r@ == ZvalView::Null,
    {
        let mut zval = Zval::new();
        zval.set_null();
        zval
    }

    /// A zval holding an empty array.
    pub fn new_array() -> (r: Zval)
        ensures
            r@ == ZvalView::Array(Seq::empty()),
    {
        let mut zval = Zval::new();
        zval.set_hashtable(ZendHashTable::new());
        zval
    }

    /// The type of the value.
    pub fn get_type(&self) -> (r: DataType)
        ensures
            r == view_type(self@),
    {
        match self {
            Zval::Null => DataType::Null,
            Zval::False => DataType::False,
            Zval::True => DataType::True,
            Zval::Long(_) => DataType::Long,
            Zval::Double(_) => DataType::Double,
            Zval::String(_) => DataType::String,
            Zval::Array(_) => DataType::Array,
            Zval::Object(_) => DataType::Object(None),
            Zval::Resource(_) => DataType::Resource,
            Zval::Reference(_) => DataType::Reference,
            Zval::Indirect(_) => DataType::Indirect,
            Zval::Ptr(_) => DataType::Ptr,
        }
    }

    /// The value behind a reference or indirection, or the value itself.
    pub fn dereference(&self) -> (r: &Zval)
        ensures
            r@ == deref_view(self@),
    {
        match self {
            Zval::Reference(b) => b,
            Zval::Indirect(b) => b,
            _ => self,
        }
    }

    /// Mutable access to the value behind a reference or indirection, or to the
    /// value itself.
    pub fn dereference_mut(&mut self) -> (r: &mut Zval)
        ensures
            r@ == deref_view(old(self)@),
            match *old(self) {
                Zval::Reference(_) => final(self)@ == ZvalView::Reference(Box::new(final(r)@)),
                Zval::Indirect(_) => final(self)@ == ZvalView::Indirect(Box::new(final(r)@)),
                _ => final(self)@ == final(r)@,
            },
    {
        match self {
            Zval::Reference(b) => b,
            Zval::Indirect(b) => b,
            _ => self,
        }
    }

    /// The integer, if the value is an integer.
    pub fn long(&self) -> (r: Option<i64>)
        ensures
            r == (match self@ {
                ZvalView::Long(n) => Some(n),
                _ => None,
            }),
    {
        match self {
            Zval::Long(n) => Some(*n),
            _ => None,
        }
    }

    /// The boolean, if the value is `true` or `false`.
    pub fn bool(&self) -> (r: Option<bool>)
        ensures
            r == (match self@ {
                ZvalView::True => Some(true),
                ZvalView::False => Some(false),
                _ => None,
            }),
    {
        if self.is_true() {
            Some(true)
        } else if self.is_false() {
            Some(false)
        } else {
            None
        }
    }

    /// The string, if the value is a string.
    pub fn zend_str(&self) -> (r: Option<&ZendStr>)
        ensures
            r is Some <==> self@ is Str,
            r matches Some(s) ==> self@ == ZvalView::Str(s@),
    {
        match self {
            Zval::String(s) => Some(s),
            _ => None,
        }
    }

    /// The bytes of the string, if the value is a string (the view of it as
    /// a run of unsigned bytes that PHP's `unpack` gives).
    pub fn binary(&self) -> (r: Option<Vec<u8>>)
        ensures
            r is Some <==> self@ is Str,
            r matches Some(v) ==> self@ == ZvalView::Str(v@),
    {
        match self {
            Zval::String(s) => Some(vstd::slice::slice_to_vec(s.as_bytes())),
            _ => None,
        }
    }

    /// The bytes of the string, borrowed, if the value is a string.
    pub fn binary_slice(&self) -> (r: Option<&[u8]>)
        ensures
            r is Some <==> self@ is Str,
            r matches Some(v) ==> self@ == ZvalView::Str(v@),
    {
        match self {
            Zval::String(s) => Some(s.as_bytes()),
            _ => None,
        }
    }

    /// Replaces the value with a request-bound string holding the bytes of
    /// `val`, which need not be UTF-8.
    pub fn set_binary(&mut self, val: Vec<u8>)
        ensures
            final(self)@ == ZvalView::Str(val@),
            *final(self) matches Zval::String(z) && !z.spec_persistent() && !z.spec_interned(),
    {
        *self = Zval::String(ZendStr { bytes: val, interned: false, persistent: false });
    }

    /// The text, if the value is a string holding valid UTF-8.
    pub fn str(&self) -> (r: Option<&str>)
        ensures
            r is Some <==> (self@ matches ZvalView::Str(b) && vstd::utf8::valid_utf8(b)),
            r matches Some(s) ==> (self@ matches ZvalView::Str(b) && s@ == vstd::utf8::decode_utf8(b)),
    {
        match self {
            Zval::String(s) => s.as_str(),
            _ => None,
        }
    }

    /// The text as an owned string, if the value is a string holding valid UTF-8.
    pub fn string(&self) -> (r: Option<String>)
        ensures
            r is Some <==> (self@ matches ZvalView::Str(b) && vstd::utf8::valid_utf8(b)),
            r matches Some(s) ==> (self@ matches ZvalView::Str(b) && s@ == vstd::utf8::decode_utf8(b)),
    {
        match self.str() {
            Some(s) => Some(String::from_str(s)),
            None => None,
        }
    }

    /// The resource handle, if the value is a resource.
    pub fn resource(&self) -> (r: Option<u64>)
        ensures
            r == (match self@ {
                ZvalView::Resource(h) => Some(h),
                _ => None,
            }),
    {
        match self {
            Zval::Resource(h) => Some(*h),
            _ => None,
        }
    }

    /// The array, if the value is an array.
    pub fn array(&self) -> (r: Option<&ZendHashTable>)
        ensures
            r is Some <==> self@ is Array,
            r matches Some(t) ==> self@ == ZvalView::Array(t@),
    {
        match self {
            Zval::Array(t) => Some(t),
            _ => None,
        }
    }

    /// Mutable access to the array, if the value is an array.
    pub fn array_mut(&mut self) -> (r: Option<&mut ZendHashTable>)
        ensures
            r is Some <==> old(self)@ is Array,
            r matches Some(t) ==> old(self)@ == ZvalView::Array(t@) && final(self)@
                == ZvalView::Array(final(t)@),
            r is None ==> final(self)@ == old(self)@,
    {
        match self {
            Zval::Array(t) => Some(t),
            _ => None,
        }
    }

    /// The object, if the value is an object.
    pub fn object(&self) -> (r: Option<ObjectHandle>)
        ensures
            r == (match self@ {
                ZvalView::Object(id) => Some(ObjectHandle { id }),
                _ => None,
            }),
    {
        match self {
            Zval::Object(o) => Some(*o),
            _ => None,
        }
    }

    /// The value behind an internal indirection.
    pub fn indirect(&self) -> (r: Option<&Zval>)
        ensures
            r is Some <==> self@ is Indirect,
            r matches Some(z) ==> self@ == ZvalView::Indirect(Box::new(z@)),
    {
        match self {
            Zval::Indirect(b) => Some(b),
            _ => None,
        }
    }

    /// The value behind a PHP reference.
    pub fn reference(&self) -> (r: Option<&Zval>)
        ensures
            r is Some <==> self@ is Reference,
            r matches Some(z) ==> self@ == ZvalView::Reference(Box::new(z@)),
    {
        match self {
            Zval::Reference(b) => Some(b),
            _ => None,
        }
    }

    /// Whether the value is an integer.
    pub fn is_long(&self) -> (r: bool)
        ensures
            r == (self@ is Long),
    {
        match self {
            Zval::Long(_) => true,
            _ => false,
        }
    }

    /// Whether the value is `null`.
    pub fn is_null(&self) -> (r: bool)
        ensures
            r == (self@ is Null),
    {
        match self {
            Zval::Null => true,
            _ => false,
        }
    }

    /// Whether the value is `true`.
    pub fn is_true(&self) -> (r: bool)
        ensures
            r == (self@ is True),
    {
        match self {
            Zval::True => true,
            _ => false,
        }
    }

    /// Whether the value is `false`.
    pub fn is_false(&self) -> (r: bool)
        ensures
            r == (self@ is False),
    {
        match self {
            Zval::False => true,
            _ => false,
        }
    }

    /// Whether the value is a boolean.
    pub fn is_bool(&self) -> (r: bool)
        ensures
            r == (self@ is True || self@ is False),
    {
        self.is_true() || self.is_false()
    }

    /// Whether the value is a float.
    pub fn is_double(&self) -> (r: bool)
        ensures
            r == (self@ is Double),
    {
        match self {
            Zval::Double(_) => true,
            _ => false,
        }
    }

    /// Whether the value is a string.
    pub fn is_string(&self) -> (r: bool)
        ensures
            r == (self@ is Str),
    {
        match self {
            Zval::String(_) => true,
            _ => false,
        }
    }

    /// Whether the value is a resource.
    pub fn is_resource(&self) -> (r: bool)
        ensures
            r == (self@ is Resource),
    {
        match self {
            Zval::Resource(_) => true,
            _ => false,
        }
    }

    /// Whether the value is an array.
    pub fn is_array(&self) -> (r: bool)
        ensures
            r == (self@ is Array),
    {
        match self {
            Zval::Array(_) => true,
            _ => false,
        }
    }

    /// Whether the value is an object.
    pub fn is_object(&self) -> (r: bool)
        ensures
            r == (self@ is Object),
    {
        match self {
            Zval::Object(_) => true,
            _ => false,
        }
    }

    /// Whether the value is a PHP reference.
    pub fn is_reference(&self) -> (r: bool)
        ensures
            r == (self@ is Reference),
    {
        match self {
            Zval::Reference(_) => true,
            _ => false,
        }
    }

    /// Whether the value is an internal indirection.
    pub fn is_indirect(&self) -> (r: bool)
        ensures
            r == (self@ is Indirect),
    {
        match self {
            Zval::Indirect(_) => true,
            _ => false,
        }
    }

    /// Whether the value is an internal pointer.
    pub fn is_ptr(&self) -> (r: bool)
        ensures
            r == (self@ is Ptr),
    {
        match self {
            Zval::Ptr(_) => true,
            _ => false,
        }
    }

    /// Whether the value is a scalar (`int`, `float`, `string` or `bool`), like
    /// PHP's `is_scalar()`.
    pub fn is_scalar(&self) -> (r: bool)
        ensures
            r == view_is_scalar(self@),
    {
        match self {
            Zval::Long(_) | Zval::Double(_) | Zval::String(_) | Zval::True | Zval::False => true,
            _ => false,
        }
    }

    /// PHP's boolean coercion: `false` for `null`, `false`, `0`, `0.0`, `-0.0`,
    /// `""`, `"0"` and the empty array, `true` for everything else. A reference is
    /// coerced through to its target.
    pub fn coerce_to_bool(&self) -> (r: bool)
        ensures
            r == view_truthy(self@),
    {
        match self {
            Zval::Reference(b) => b.truthy_flat(),
            _ => self.truthy_flat(),
        }
    }

    fn truthy_flat(&self) -> (r: bool)
        ensures
            r == view_truthy_flat(self@),
    {
        match self {
            Zval::Null | Zval::False => false,
            Zval::True => true,
            Zval::Long(n) => *n != 0,
            Zval::Double(b) => *b & 0x7FFF_FFFF_FFFF_FFFFu64 != 0,
            Zval::String(s) => {
                let n = s.bytes.len();
                !(n == 0 || (n == 1 && s.bytes[0] == 48u8))
            },
            Zval::Array(t) => {
                proof {
                    lemma_buckets_view(t.buckets@);
                }
                t.buckets.len() > 0
            },
            _ => true,
        }
    }

    /// Replaces the value with a string holding the bytes of `val`.
    pub fn set_string(&mut self, val: &str, persistent: bool) -> (r: Result<(), Error>)
        ensures
            r is Ok,
            final(self)@ == ZvalView::Str(val.spec_bytes()),
            *final(self) matches Zval::String(z) && z.spec_persistent() == persistent
                && !z.spec_interned(),
    {
        self.set_zend_string(ZendStr::new(val, persistent));
        Ok(())
    }

    /// Replaces the value with the given string.
    pub fn set_zend_string(&mut self, val: ZendStr)
        ensures
            final(self)@ == ZvalView::Str(val@),
            *final(self) == Zval::String(val),
    {
        *self = Zval::String(val);
    }

    /// Replaces the value with an interned string holding the bytes of `val`.
    pub fn set_interned_string(&mut self, val: &str, persistent: bool) -> (r: Result<(), Error>)
        ensures
            r is Ok,
            final(self)@ == ZvalView::Str(val.spec_bytes()),
            *final(self) matches Zval::String(z) && z.spec_persistent() == persistent
                && z.spec_interned(),
    {
        *self = Zval::String(ZendStr::new_interned(val, persistent));
        Ok(())
    }

    /// Replaces the value with an integer.
    pub fn set_long<T: Into<i64>>(&mut self, val: T)
        ensures
            call_ensures(T::into, (val,), final(self).long_payload()),
            final(self)@ is Long,
    {
        let v: i64 = val.into();
        *self = Zval::Long(v);
    }

    /// Replaces the value with a boolean.
    pub fn set_bool<T: Into<bool>>(&mut self, val: T)
        ensures
            final(self)@ is True || final(self)@ is False,
            call_ensures(T::into, (val,), final(self)@ is True),
    {
        let v: bool = val.into();
        *self = if v { Zval::True } else { Zval::False };
    }

    /// Replaces the value with `null`.
    pub fn set_null(&mut self)
        ensures
            final(self)@ == ZvalView::Null,
    {
        *self = Zval::Null;
    }

    /// Replaces the value with a resource handle.
    pub fn set_resource(&mut self, val: u64)
        ensures
            final(self)@ == ZvalView::Resource(val),
    {
        *self = Zval::Resource(val);
    }

    /// Replaces the value with an object.
    pub fn set_object(&mut self, val: ObjectHandle)
        ensures
            final(self)@ == ZvalView::Object(val.id),
    {
        *self = Zval::Object(val);
    }

    /// Replaces the value with an array.
    pub fn set_hashtable(&mut self, val: ZendHashTable)
        ensures
            final(self)@ == ZvalView::Array(val@),
    {
        *self = Zval::Array(val);
    }

    /// The integer payload (spec helper); `0` for other values.
    pub open spec fn long_payload(self) -> i64 {
        match self {
            Zval::Long(n) => n,
            _ => 0,
        }
    }
}

impl ZendHashTable {
    /// A new, empty table.
    pub fn new() -> (r: ZendHashTable)
        ensures
            r@ == Seq::<(KeyView, ZvalView)>::empty(),
    {
        ZendHashTable { buckets: Vec::new() }
    }

    /// The number of entries.
    pub fn len(&self) -> (r: usize)
        ensures
            r == self@.len(),
    {
        proof {
            lemma_buckets_view(self.buckets@);
        }
        self.buckets.len()
    }

    /// Whether the table has no entries.
    pub fn is_empty(&self) -> (r: bool)
        ensures
            r == (self@.len() == 0),
    {
        self.len() == 0
    }
}

} // verus!
