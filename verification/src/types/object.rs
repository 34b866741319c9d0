//! What the library reads of an engine object: its handle and its flags.
use vstd::prelude::*;

verus! {

/// `IS_OBJ_LAZY_UNINITIALIZED`: a virtual proxy, or a ghost not yet initialized.
pub const IS_OBJ_LAZY_UNINITIALIZED: u32 = 0x8000_0000;
/// `IS_OBJ_LAZY_PROXY`: a virtual proxy, initialized or not.
pub const IS_OBJ_LAZY_PROXY: u32 = 0x4000_0000;

/// An engine object, by its handle and extra flags.
#[derive(Debug, Clone, Copy, PartialEq, Eq)]
pub struct ZendObject {
    /// The object handle, unique among live objects.
    pub handle: u32,
    /// The `extra_flags` of the object.
    pub extra_flags: u32,
}

/// The lower-case hexadecimal digit of `d < 16`.
pub open spec fn hex_digit(d: nat) -> char {
    if d < 10 {
        ((d + 48) as u32) as char
    } else {
        ((d + 87) as u32) as char
    }
}

/// `n` in lower-case hexadecimal, zero-padded to `width` digits.
pub open spec fn hex_padded(n: nat, width: nat) -> Seq<char>
    decreases width,
{
    if width == 0 {
        Seq::empty()
    } else {
        hex_padded(n / 16, (width - 1) as nat).push(hex_digit(n % 16))
    }
}

fn hex_char(d: u32) -> (r: char)
    requires
        d < 16,
    ensures
        r == hex_digit(d as nat),
{
    let digits: [char; 16] = ['0', '1', '2', '3', '4', '5', '6', '7', '8', '9', 'a', 'b', 'c', 'd', 'e', 'f'];
    let c = digits[d as usize];
    assert(c == hex_digit(d as nat)) by {
        assert(digits@[d as int] == c);
    }
    c
}

fn append_hex_padded(out: &mut String, n: u32, width: u32)
    requires
        width <= 16,
    ensures
        final(out)@ == old(out)@ + hex_padded(n as nat, width as nat),
    decreases width,
{
    if width == 0 {
        assert(final(out)@ =~= old(out)@ + hex_padded(n as nat, width as nat)) by {
        }
        return;
    }
    append_hex_padded(out, n / 16, width - 1);
    crate::text::push_char(out, hex_char(n % 16));
    assert(out@ =~= old(out)@ + hex_padded(n as nat, width as nat));
}

impl ZendObject {
    /// The object handle.
    pub fn get_id(&self) -> (r: u32)
        ensures
            r == self.handle,
    {
        self.handle
    }

    /// The object's hash as `spl_object_hash` spells it: the handle in 16
    /// hexadecimal digits, then 16 zeros.
    pub fn hash(&self) -> (r: String)
        ensures
            r@ == hex_padded(self.handle as nat, 16) + hex_padded(0, 16),
    {
        let mut out = String::new();
        append_hex_padded(&mut out, self.handle, 16);
        append_hex_padded(&mut out, 0, 16);
        assert(out@ =~= hex_padded(self.handle as nat, 16) + hex_padded(0, 16));
        out
    }

    /// Whether the object is lazy: a proxy, or an uninitialized ghost.
    pub fn is_lazy(&self) -> (r: bool)
        ensures
            r == (self.extra_flags & (IS_OBJ_LAZY_UNINITIALIZED | IS_OBJ_LAZY_PROXY) != 0),
    {
        self.extra_flags & (IS_OBJ_LAZY_UNINITIALIZED | IS_OBJ_LAZY_PROXY) != 0
    }

    /// Whether the object is a lazy proxy.
    pub fn is_lazy_proxy(&self) -> (r: bool)
        ensures
            r == (self.extra_flags & IS_OBJ_LAZY_PROXY != 0),
    {
        self.extra_flags & IS_OBJ_LAZY_PROXY != 0
    }

    /// Whether the object is a lazy ghost: uninitialized, not a proxy.
    pub fn is_lazy_ghost(&self) -> (r: bool)
        ensures
            r == (self.extra_flags & IS_OBJ_LAZY_UNINITIALIZED != 0 && self.extra_flags & IS_OBJ_LAZY_PROXY == 0),
    {
        self.extra_flags & IS_OBJ_LAZY_UNINITIALIZED != 0 && self.extra_flags & IS_OBJ_LAZY_PROXY == 0
    }

    /// Whether a lazy object has been initialized; false for an object that
    /// is not lazy.
    pub fn is_lazy_initialized(&self) -> (r: bool)
        ensures
            r == (self.extra_flags & (IS_OBJ_LAZY_UNINITIALIZED | IS_OBJ_LAZY_PROXY) != 0
                && self.extra_flags & IS_OBJ_LAZY_UNINITIALIZED == 0),
    {
        if !self.is_lazy() {
            return false;
        }
        self.extra_flags & IS_OBJ_LAZY_UNINITIALIZED == 0
    }
}

/// Ways to ask whether an object has a property.
#[derive(Debug, Clone, Copy, PartialEq, Eq, PartialOrd, Ord)]
pub enum PropertyQuery {
    /// The property exists and is not `null` (`ZEND_PROPERTY_ISSET`).
    Isset,
    /// The property is not empty (`ZEND_ISEMPTY`).
    NotEmpty,
    /// The property exists (`ZEND_PROPERTY_EXISTS`).
    Exists,
}

/// `ZEND_PROPERTY_ISSET`.
pub const ZEND_PROPERTY_ISSET: u32 = 0x0;
/// `ZEND_ISEMPTY`.
pub const ZEND_ISEMPTY: u32 = 0x1;
/// `ZEND_PROPERTY_EXISTS`.
pub const ZEND_PROPERTY_EXISTS: u32 = 0x2;

impl PropertyQuery {
    /// The code the engine takes for the query.
    pub fn as_raw(&self) -> (r: u32)
        ensures
            r == (match self {
                PropertyQuery::Isset => ZEND_PROPERTY_ISSET,
                PropertyQuery::NotEmpty => ZEND_ISEMPTY,
                PropertyQuery::Exists => ZEND_PROPERTY_EXISTS,
            }),
    {
        match self {
            PropertyQuery::Isset => ZEND_PROPERTY_ISSET,
            PropertyQuery::NotEmpty => ZEND_ISEMPTY,
            PropertyQuery::Exists => ZEND_PROPERTY_EXISTS,
        }
    }
}

} // verus!
