//! The engine's `zend_type`: a bit mask plus an optional class-name or type-list
//! payload, built for function arguments, return values and typed properties.
//!
//! The layout follows PHP 8.3 and later, where class unions in argument info are
//! passed as a literal name and intersections and DNF types as pre-built lists.
use vstd::prelude::*;

use crate::flags::{
    DataType, IS_BOOL, IS_MIXED, MAY_BE_ANY, MAY_BE_BOOL, type_code,
};
use crate::types::php_type::{DnfTerm, PhpType};
use crate::text::{seq_join, views};

verus! {

/// `_ZEND_TYPE_NAME_BIT`: the payload is a class name string.
pub const _ZEND_TYPE_NAME_BIT: u32 = 0x0100_0000;
/// `_ZEND_TYPE_LITERAL_NAME_BIT`: the payload is a literal (C string) class name.
pub const _ZEND_TYPE_LITERAL_NAME_BIT: u32 = 0x0080_0000;
/// `_ZEND_TYPE_LIST_BIT`: the payload is a type list.
pub const _ZEND_TYPE_LIST_BIT: u32 = 0x0040_0000;
/// `_ZEND_TYPE_ARENA_BIT`: the list is not freed by the engine.
pub const _ZEND_TYPE_ARENA_BIT: u32 = 0x0010_0000;
/// `_ZEND_TYPE_INTERSECTION_BIT`: the list is an intersection.
pub const _ZEND_TYPE_INTERSECTION_BIT: u32 = 0x0008_0000;
/// `_ZEND_TYPE_UNION_BIT`: the list is a union.
pub const _ZEND_TYPE_UNION_BIT: u32 = 0x0004_0000;
/// `_ZEND_TYPE_NULLABLE_BIT` (the same bit as `MAY_BE_NULL`).
pub const _ZEND_TYPE_NULLABLE_BIT: u32 = 0x2;
/// `_ZEND_SEND_MODE_SHIFT`: position of the pass-by-reference flag.
pub const _ZEND_SEND_MODE_SHIFT: u32 = 25;
/// `_ZEND_IS_VARIADIC_BIT`.
pub const _ZEND_IS_VARIADIC_BIT: u32 = 0x0800_0000;

/// The payload of a [`ZendType`].
#[derive(Debug)]
pub enum TypePtr {
    /// No payload (primitive types).
    Null,
    /// A literal class name (or `|`-joined class names) for the engine to resolve.
    LiteralName(String),
    /// A class-name string owned by the engine; `interned` strings are never released.
    Str { text: String, interned: bool },
    /// A type list (`zend_type_list`).
    List(Vec<ZendType>),
}

/// A Zend type descriptor.
#[derive(Debug)]
pub struct ZendType {
    /// The payload.
    pub ptr: TypePtr,
    /// The type mask and flag bits.
    pub type_mask: u32,
}

impl TypePtr {
    /// Whether there is no payload.
    pub fn is_null(&self) -> (r: bool)
        ensures
            r == (*self is Null),
    {
        match self {
            TypePtr::Null => true,
            _ => false,
        }
    }
}

/// Whether `s` holds a NUL character.
pub open spec fn has_nul(s: Seq<char>) -> bool {
    exists|i: int| 0 <= i < s.len() && s[i] == '\0'
}

/// A class name that can be handed to the engine: non-empty and NUL-free.
pub open spec fn valid_class_name(s: Seq<char>) -> bool {
    s.len() > 0 && !has_nul(s)
}

/// Flags for pass-by-reference and variadic arguments (`_ZEND_ARG_INFO_FLAGS`).
pub open spec fn spec_arg_info_flags(pass_by_ref: bool, is_variadic: bool) -> u32 {
    (if pass_by_ref { 1u32 << _ZEND_SEND_MODE_SHIFT } else { 0u32 }) | (if is_variadic {
        _ZEND_IS_VARIADIC_BIT
    } else {
        0u32
    })
}

/// The argument flags carry the engine's send-by-reference bit (bit 25,
/// where `_ZEND_SEND_MODE_SHIFT` puts it) exactly for an argument passed by
/// reference, its variadic bit (bit 27) exactly for a variadic one, and no
/// other bit.
pub proof fn law_arg_info_flags_bits(pass_by_ref: bool, is_variadic: bool)
    ensures
        (spec_arg_info_flags(pass_by_ref, is_variadic) >> 25u32) & 1u32 == (if pass_by_ref {
            1u32
        } else {
            0u32
        }),
        (spec_arg_info_flags(pass_by_ref, is_variadic) >> 27u32) & 1u32 == (if is_variadic {
            1u32
        } else {
            0u32
        }),
        spec_arg_info_flags(pass_by_ref, is_variadic) & !0x0A00_0000u32 == 0,
{
    let f = spec_arg_info_flags(pass_by_ref, is_variadic);
    assert(1u32 << 25u32 == 0x0200_0000u32) by (bit_vector);
    if pass_by_ref && is_variadic {
        assert(f == 0x0A00_0000u32) by (bit_vector)
            requires
                f == 0x0200_0000u32 | 0x0800_0000u32,
        ;
    } else if pass_by_ref {
        assert(f == 0x0200_0000u32) by (bit_vector)
            requires
                f == 0x0200_0000u32 | 0u32,
        ;
    } else if is_variadic {
        assert(f == 0x0800_0000u32) by (bit_vector)
            requires
                f == 0u32 | 0x0800_0000u32,
        ;
    } else {
        assert(f == 0u32) by (bit_vector)
            requires
                f == 0u32 | 0u32,
        ;
    }
    assert((0x0A00_0000u32 >> 25u32) & 1u32 == 1u32) by (bit_vector);
    assert((0x0200_0000u32 >> 25u32) & 1u32 == 1u32) by (bit_vector);
    assert((0x0800_0000u32 >> 25u32) & 1u32 == 0u32) by (bit_vector);
    assert((0u32 >> 25u32) & 1u32 == 0u32) by (bit_vector);
    assert((0x0A00_0000u32 >> 27u32) & 1u32 == 1u32) by (bit_vector);
    assert((0x0200_0000u32 >> 27u32) & 1u32 == 0u32) by (bit_vector);
    assert((0x0800_0000u32 >> 27u32) & 1u32 == 1u32) by (bit_vector);
    assert((0u32 >> 27u32) & 1u32 == 0u32) by (bit_vector);
    assert(0x0A00_0000u32 & !0x0A00_0000u32 == 0) by (bit_vector);
    assert(0x0200_0000u32 & !0x0A00_0000u32 == 0) by (bit_vector);
    assert(0x0800_0000u32 & !0x0A00_0000u32 == 0) by (bit_vector);
    assert(0u32 & !0x0A00_0000u32 == 0) by (bit_vector);
}

/// The argument flags plus the nullable bit when null is allowed.
pub open spec fn spec_flags_nullable(pass_by_ref: bool, is_variadic: bool, allow_null: bool) -> u32 {
    spec_arg_info_flags(pass_by_ref, is_variadic) | (if allow_null {
        _ZEND_TYPE_NULLABLE_BIT
    } else {
        0u32
    })
}

/// The nullable flags are the argument flags plus the engine's nullable bit
/// (bit 1), set exactly when null is allowed.
pub proof fn law_flags_nullable_bits(pass_by_ref: bool, is_variadic: bool, allow_null: bool)
    ensures
        (spec_flags_nullable(pass_by_ref, is_variadic, allow_null) >> 1u32) & 1u32 == (if allow_null {
            1u32
        } else {
            0u32
        }),
        spec_flags_nullable(pass_by_ref, is_variadic, allow_null) & !2u32 == spec_arg_info_flags(
            pass_by_ref,
            is_variadic,
        ),
{
    law_arg_info_flags_bits(pass_by_ref, is_variadic);
    let f = spec_arg_info_flags(pass_by_ref, is_variadic);
    let g = spec_flags_nullable(pass_by_ref, is_variadic, allow_null);
    if allow_null {
        assert((g >> 1u32) & 1u32 == 1u32 && g & !2u32 == f) by (bit_vector)
            requires
                g == f | 2u32,
                f & !0x0A00_0000u32 == 0,
        ;
    } else {
        assert((g >> 1u32) & 1u32 == 0u32 && g & !2u32 == f) by (bit_vector)
            requires
                g == f | 0u32,
                f & !0x0A00_0000u32 == 0,
        ;
    }
}

/// The `MAY_BE_*` mask of a primitive type.
pub open spec fn spec_may_be(dt: DataType) -> u32 {
    let code = type_code(dt);
    if code == IS_BOOL {
        MAY_BE_BOOL
    } else if code == IS_MIXED {
        MAY_BE_ANY
    } else {
        1u32 << code
    }
}

/// The mask of a primitive type (`ZEND_TYPE_INIT_CODE`).
pub open spec fn spec_type_init_code(
    dt: DataType,
    pass_by_ref: bool,
    is_variadic: bool,
    allow_null: bool,
) -> u32 {
    spec_may_be(dt) | (if allow_null { _ZEND_TYPE_NULLABLE_BIT } else { 0u32 })
        | spec_arg_info_flags(pass_by_ref, is_variadic)
}

/// The OR of the `MAY_BE_*` masks of `types`, on top of `base`.
pub open spec fn may_be_union(base: u32, types: Seq<DataType>) -> u32
    decreases types.len(),
{
    if types.len() == 0 {
        base
    } else {
        may_be_union(base, types.drop_last()) | spec_may_be(types.last())
    }
}

/// `t` is a list entry naming class `name`.
pub open spec fn is_name_entry(t: ZendType, name: Seq<char>, interned: bool) -> bool {
    &&& t.type_mask == _ZEND_TYPE_NAME_BIT
    &&& t.ptr matches TypePtr::Str { text, interned: i } && text@ == name && i == interned
}

/// `p` is a list with one name entry per class name.
pub open spec fn is_class_list(p: TypePtr, names: Seq<String>, interned: bool) -> bool {
    &&& p matches TypePtr::List(v)
    &&& v@.len() == names.len()
    &&& forall|i: int| 0 <= i < names.len() ==> is_name_entry(#[trigger] v@[i], names[i]@, interned)
}

/// Every name is a valid class name.
pub open spec fn all_valid_names(names: Seq<String>) -> bool {
    forall|i: int| 0 <= i < names.len() ==> valid_class_name(#[trigger] names[i]@)
}

/// A DNF term the engine accepts: a valid single class, or an intersection of at
/// least two valid classes.
pub open spec fn spec_dnf_term_valid(t: DnfTerm) -> bool {
    match t {
        DnfTerm::Single(name) => valid_class_name(name@),
        DnfTerm::Intersection(names) => names@.len() >= 2 && all_valid_names(names@),
    }
}

/// The shape of a DNF list entry; `arena` tells whether inner lists carry the arena bit.
pub open spec fn is_dnf_entry(e: ZendType, t: DnfTerm, interned: bool) -> bool {
    match t {
        DnfTerm::Single(name) => is_name_entry(e, name@, interned),
        DnfTerm::Intersection(names) => {
            &&& e.type_mask == (if interned {
                _ZEND_TYPE_LIST_BIT | _ZEND_TYPE_INTERSECTION_BIT | _ZEND_TYPE_ARENA_BIT
            } else {
                _ZEND_TYPE_LIST_BIT | _ZEND_TYPE_INTERSECTION_BIT
            })
            &&& is_class_list(e.ptr, names@, interned)
        },
    }
}

/// `p` is a DNF list with one entry per term.
pub open spec fn is_dnf_list(p: TypePtr, terms: Seq<DnfTerm>, interned: bool) -> bool {
    &&& p matches TypePtr::List(v)
    &&& v@.len() == terms.len()
    &&& forall|i: int| 0 <= i < terms.len() ==> is_dnf_entry(#[trigger] v@[i], terms[i], interned)
}

/// Every intersection group of the term is short enough to count in a `u32`.
pub open spec fn term_countable(t: DnfTerm) -> bool {
    match t {
        DnfTerm::Single(_) => true,
        DnfTerm::Intersection(names) => names@.len() <= u32::MAX,
    }
}

/// A DNF type the engine accepts: at least two terms, all valid, and few enough to count.
pub open spec fn dnf_accepted(terms: Seq<DnfTerm>) -> bool {
    &&& terms.len() >= 2
    &&& terms.len() <= u32::MAX
    &&& forall|i: int| 0 <= i < terms.len() ==> spec_dnf_term_valid(#[trigger] terms[i])
    &&& forall|i: int| 0 <= i < terms.len() ==> term_countable(#[trigger] terms[i])
}

/// A class list the engine accepts: non-empty, valid names, few enough to count.
pub open spec fn class_list_accepted(names: Seq<String>) -> bool {
    names.len() > 0 && names.len() <= u32::MAX && all_valid_names(names)
}

/// Finds a NUL character in `s`.
pub fn contains_nul(s: &str) -> (r: bool)
    ensures
        r == has_nul(s@),
{
    let n = s.unicode_len();
    let mut i: usize = 0;
    while i < n
        invariant
            n == s@.len(),
            i <= n,
            forall|j: int| 0 <= j < i ==> s@[j] != '\0',
        decreases n - i,
    {
        if s.get_char(i) == '\0' {
            return true;
        }
        i = i + 1;
    }
    false
}

/// Whether `s` is a valid class name.
pub fn is_valid_class_name(s: &str) -> (r: bool)
    ensures
        r == valid_class_name(s@),
{
    s.unicode_len() > 0 && !contains_nul(s)
}

/// Whether every name is a valid class name.
fn all_names_valid(names: &Vec<String>) -> (r: bool)
    ensures
        r == all_valid_names(names@),
{
    let mut i: usize = 0;
    while i < names.len()
        invariant
            i <= names.len(),
            forall|j: int| 0 <= j < i ==> valid_class_name(#[trigger] names@[j]@),
        decreases names.len() - i,
    {
        if !is_valid_class_name(names[i].as_str()) {
            return false;
        }
        i = i + 1;
    }
    true
}

/// Copies a string character for character.
pub fn copy_string(s: &String) -> (r: String)
    ensures
        r@ == s@,
{
    String::from_str(s.as_str())
}

/// Builds a type list with one name entry per class name, or `None` when a name is
/// empty or holds a NUL, the list is empty, or it is too long to count.
fn build_class_list(class_names: &Vec<String>, interned: bool) -> (r: Option<TypePtr>)
    ensures
        r is Some <==> class_list_accepted(class_names@),
        r matches Some(p) ==> is_class_list(p, class_names@, interned),
{
    if class_names.len() == 0 {
        return None;
    }
    if !all_names_valid(class_names) {
        return None;
    }
    if class_names.len() > 0xFFFF_FFFFusize {
        return None;
    }
    let mut entries: Vec<ZendType> = Vec::new();
    let mut i: usize = 0;
    while i < class_names.len()
        invariant
            i <= class_names.len(),
            entries@.len() == i,
            forall|j: int|
                0 <= j < i ==> is_name_entry(#[trigger] entries@[j], class_names@[j]@, interned),
        decreases class_names.len() - i,
    {
        let text = copy_string(&class_names[i]);
        entries.push(ZendType { ptr: TypePtr::Str { text, interned }, type_mask: _ZEND_TYPE_NAME_BIT });
        i = i + 1;
    }
    Some(TypePtr::List(entries))
}

/// Whether a DNF term is one the engine accepts.
pub fn dnf_term_is_valid(term: &DnfTerm) -> (r: bool)
    ensures
        r == spec_dnf_term_valid(*term),
{
    match term {
        DnfTerm::Single(name) => is_valid_class_name(name.as_str()),
        DnfTerm::Intersection(names) => names.len() >= 2 && all_names_valid(names),
    }
}

/// Builds the list for a DNF type, given that every term is valid; `None` when an
/// intersection group is too long to count.
fn build_dnf_list(terms: &Vec<DnfTerm>, interned: bool) -> (r: Option<TypePtr>)
    requires
        forall|i: int| 0 <= i < terms@.len() ==> spec_dnf_term_valid(#[trigger] terms@[i]),
    ensures
        r is Some <==> forall|i: int| 0 <= i < terms@.len() ==> term_countable(#[trigger] terms@[i]),
        r matches Some(p) ==> is_dnf_list(p, terms@, interned),
{
    let mut entries: Vec<ZendType> = Vec::new();
    let mut i: usize = 0;
    while i < terms.len()
        invariant
            i <= terms.len(),
            entries@.len() == i,
            forall|k: int| 0 <= k < terms@.len() ==> spec_dnf_term_valid(#[trigger] terms@[k]),
            forall|j: int| 0 <= j < i ==> term_countable(#[trigger] terms@[j]),
            forall|j: int| 0 <= j < i ==> is_dnf_entry(#[trigger] entries@[j], terms@[j], interned),
        decreases terms.len() - i,
    {
        assert(spec_dnf_term_valid(terms@[i as int]));
        let entry = match &terms[i] {
            DnfTerm::Single(name) => ZendType {
                ptr: TypePtr::Str { text: copy_string(name), interned },
                type_mask: _ZEND_TYPE_NAME_BIT,
            },
            DnfTerm::Intersection(names) => {
                let list = build_class_list(names, interned);
                match list {
                    Some(p) => ZendType {
                        ptr: p,
                        type_mask: if interned {
                            _ZEND_TYPE_LIST_BIT | _ZEND_TYPE_INTERSECTION_BIT
                                | _ZEND_TYPE_ARENA_BIT
                        } else {
                            _ZEND_TYPE_LIST_BIT | _ZEND_TYPE_INTERSECTION_BIT
                        },
                    },
                    None => {
                        assert(!term_countable(terms@[i as int]));
                        return None;
                    },
                }
            },
        };
        entries.push(entry);
        i = i + 1;
    }
    Some(TypePtr::List(entries))
}

/// The `zend_type` of a single class in argument info: a literal name.
pub open spec fn is_literal_class(t: ZendType, name: Seq<char>, flags: u32) -> bool {
    &&& t.type_mask == flags | _ZEND_TYPE_LITERAL_NAME_BIT
    &&& t.ptr matches TypePtr::LiteralName(s) && s@ == name
}

/// Exact description of [`ZendType::empty_from_type`].
pub open spec fn empty_from_type_spec(
    dt: DataType,
    pass_by_ref: bool,
    is_variadic: bool,
    allow_null: bool,
    r: Option<ZendType>,
) -> bool {
    match dt {
        DataType::Object(Some(class)) => {
            &&& r is Some <==> !has_nul(class@)
            &&& r matches Some(t) ==> is_literal_class(
                t,
                class@,
                spec_flags_nullable(pass_by_ref, is_variadic, allow_null),
            )
        },
        _ => {
            &&& r is Some
            &&& r matches Some(t) ==> t.ptr is Null && t.type_mask == spec_type_init_code(
                dt,
                pass_by_ref,
                is_variadic,
                allow_null,
            )
        },
    }
}

/// Exact description of [`ZendType::empty_for_property`].
pub open spec fn empty_for_property_spec(ty: PhpType, allow_null: bool, r: Option<ZendType>) -> bool {
    let null_bit = if allow_null { _ZEND_TYPE_NULLABLE_BIT } else { 0u32 };
    match ty {
        PhpType::Simple(DataType::Object(Some(class))) => {
            &&& r is Some <==> valid_class_name(class@)
            &&& r matches Some(t) ==> t.type_mask == _ZEND_TYPE_NAME_BIT | null_bit && (t.ptr matches TypePtr::Str { text, interned } && text@ == class@ && !interned)
        },
        PhpType::Simple(dt) => {
            &&& r is Some
            &&& r matches Some(t) ==> t.ptr is Null && t.type_mask == spec_type_init_code(
                dt,
                false,
                false,
                allow_null,
            )
        },
        PhpType::Union(members) => {
            &&& r is Some
            &&& r matches Some(t) ==> t.ptr is Null && t.type_mask == may_be_union(
                null_bit,
                members@,
            )
        },
        PhpType::ClassUnion(names) => {
            &&& r is Some <==> class_list_accepted(names@)
            &&& r matches Some(t) ==> t.type_mask == _ZEND_TYPE_LIST_BIT | _ZEND_TYPE_UNION_BIT
                | null_bit && is_class_list(t.ptr, names@, false)
        },
        PhpType::Intersection(names) => {
            &&& r is Some <==> !allow_null && class_list_accepted(names@)
            &&& r matches Some(t) ==> t.type_mask == _ZEND_TYPE_LIST_BIT
                | _ZEND_TYPE_INTERSECTION_BIT && is_class_list(t.ptr, names@, false)
        },
        PhpType::Dnf(terms) => {
            &&& r is Some <==> dnf_accepted(terms@)
            &&& r matches Some(t) ==> t.type_mask == _ZEND_TYPE_LIST_BIT | _ZEND_TYPE_UNION_BIT
                | null_bit && is_dnf_list(t.ptr, terms@, false)
        },
    }
}

impl ZendType {
    /// Flags for pass-by-reference and variadic arguments (`_ZEND_ARG_INFO_FLAGS`).
    pub fn arg_info_flags(pass_by_ref: bool, is_variadic: bool) -> (r: u32)
        ensures
            r == spec_arg_info_flags(pass_by_ref, is_variadic),
    {
        (if pass_by_ref { 1u32 << _ZEND_SEND_MODE_SHIFT } else { 0u32 }) | (if is_variadic {
            _ZEND_IS_VARIADIC_BIT
        } else {
            0u32
        })
    }

    /// The argument flags plus the nullable bit when null is allowed.
    pub fn arg_info_flags_with_nullable(pass_by_ref: bool, is_variadic: bool, allow_null: bool) -> (r: u32)
        ensures
            r == spec_flags_nullable(pass_by_ref, is_variadic, allow_null),
    {
        Self::arg_info_flags(pass_by_ref, is_variadic) | (if allow_null {
            _ZEND_TYPE_NULLABLE_BIT
        } else {
            0u32
        })
    }

    /// The mask of a primitive type (`ZEND_TYPE_INIT_CODE`).
    pub fn type_init_code(dt: DataType, pass_by_ref: bool, is_variadic: bool, allow_null: bool) -> (r: u32)
        ensures
            r == spec_type_init_code(dt, pass_by_ref, is_variadic, allow_null),
    {
        primitive_may_be(dt) | (if allow_null { _ZEND_TYPE_NULLABLE_BIT } else { 0u32 })
            | Self::arg_info_flags(pass_by_ref, is_variadic)
    }

    /// An empty type container carrying only the argument flags.
    pub fn empty(pass_by_ref: bool, is_variadic: bool) -> (r: Self)
        ensures
            r.ptr is Null,
            r.type_mask == spec_arg_info_flags(pass_by_ref, is_variadic),
    {
        ZendType { ptr: TypePtr::Null, type_mask: Self::arg_info_flags(pass_by_ref, is_variadic) }
    }

    /// The type for a single data type in argument info; `None` when a class name
    /// holds a NUL character.
    pub fn empty_from_type(dt: DataType, pass_by_ref: bool, is_variadic: bool, allow_null: bool) -> (r: Option<Self>)
        ensures
            empty_from_type_spec(dt, pass_by_ref, is_variadic, allow_null, r),
    {
        match dt {
            DataType::Object(Some(class)) => Self::empty_from_class_type(
                class,
                pass_by_ref,
                is_variadic,
                allow_null,
            ),
            _ => Some(
                ZendType {
                    ptr: TypePtr::Null,
                    type_mask: Self::type_init_code(dt, pass_by_ref, is_variadic, allow_null),
                },
            ),
        }
    }

    fn empty_from_class_type(class_name: &str, pass_by_ref: bool, is_variadic: bool, allow_null: bool) -> (r: Option<Self>)
        ensures
            r is Some <==> !has_nul(class_name@),
            r matches Some(t) ==> is_literal_class(
                t,
                class_name@,
                spec_flags_nullable(pass_by_ref, is_variadic, allow_null),
            ),
    {
        if contains_nul(class_name) {
            return None;
        }
        let flags = Self::arg_info_flags_with_nullable(pass_by_ref, is_variadic, allow_null)
            | _ZEND_TYPE_LITERAL_NAME_BIT;
        Some(ZendType { ptr: TypePtr::LiteralName(String::from_str(class_name)), type_mask: flags })
    }

    /// The type for a class union in argument info: the `|`-joined names as one
    /// literal name. `None` when the list is empty or a name holds a NUL.
    pub fn empty_from_class_union(
        class_names: &Vec<String>,
        pass_by_ref: bool,
        is_variadic: bool,
        allow_null: bool,
    ) -> (r: Option<Self>)
        ensures
            r is Some <==> class_names@.len() > 0 && !has_nul(
                seq_join(views(class_names@), "|"@),
            ),
            r matches Some(t) ==> is_literal_class(
                t,
                seq_join(views(class_names@), "|"@),
                spec_flags_nullable(pass_by_ref, is_variadic, allow_null),
            ),
    {
        if class_names.len() == 0 {
            return None;
        }
        let type_mask = Self::arg_info_flags_with_nullable(pass_by_ref, is_variadic, allow_null)
            | _ZEND_TYPE_LITERAL_NAME_BIT;
        let mut joined = String::new();
        crate::text::append_joined(&mut joined, class_names, "|");
        assert(joined@ =~= seq_join(views(class_names@), "|"@));
        if contains_nul(joined.as_str()) {
            return None;
        }
        Some(ZendType { ptr: TypePtr::LiteralName(joined), type_mask })
    }

    /// The type for a class intersection in argument info: a persistent list of
    /// interned names. `None` when null is allowed (the nullable form is a DNF
    /// type), the list is empty, or a name is empty or holds a NUL.
    pub fn empty_from_class_intersection(
        class_names: &Vec<String>,
        pass_by_ref: bool,
        is_variadic: bool,
        allow_null: bool,
    ) -> (r: Option<Self>)
        ensures
            r is Some <==> !allow_null && class_list_accepted(class_names@),
            r matches Some(t) ==> t.type_mask == spec_arg_info_flags(pass_by_ref, is_variadic)
                | _ZEND_TYPE_LIST_BIT | _ZEND_TYPE_INTERSECTION_BIT | _ZEND_TYPE_ARENA_BIT
                && is_class_list(t.ptr, class_names@, true),
    {
        if class_names.len() == 0 || allow_null {
            return None;
        }
        let list = build_class_list(class_names, true);
        match list {
            Some(p) => Some(
                ZendType {
                    ptr: p,
                    type_mask: Self::arg_info_flags(pass_by_ref, is_variadic) | _ZEND_TYPE_LIST_BIT
                        | _ZEND_TYPE_INTERSECTION_BIT | _ZEND_TYPE_ARENA_BIT,
                },
            ),
            None => None,
        }
    }

    /// The type for a DNF type in argument info: a list of names and nested
    /// intersection lists. `None` for fewer than two terms or an invalid term.
    pub fn empty_from_dnf(terms: &Vec<DnfTerm>, pass_by_ref: bool, is_variadic: bool, allow_null: bool) -> (r: Option<Self>)
        ensures
            r is Some <==> dnf_accepted(terms@),
            r matches Some(t) ==> t.type_mask == spec_flags_nullable(
                pass_by_ref,
                is_variadic,
                allow_null,
            ) | _ZEND_TYPE_LIST_BIT | _ZEND_TYPE_UNION_BIT | _ZEND_TYPE_ARENA_BIT && is_dnf_list(
                t.ptr,
                terms@,
                true,
            ),
    {
        match checked_dnf_list(terms, true) {
            Some(p) => Some(
                ZendType {
                    ptr: p,
                    type_mask: Self::arg_info_flags_with_nullable(pass_by_ref, is_variadic, allow_null)
                        | _ZEND_TYPE_LIST_BIT | _ZEND_TYPE_UNION_BIT | _ZEND_TYPE_ARENA_BIT,
                },
            ),
            None => None,
        }
    }

    /// The type for a union of primitive types: the OR of their `MAY_BE_*` bits.
    /// `None` for an empty union.
    pub fn empty_from_primitive_union(
        types: &Vec<DataType>,
        pass_by_ref: bool,
        is_variadic: bool,
        allow_null: bool,
    ) -> (r: Option<Self>)
        ensures
            r is Some <==> types@.len() > 0,
            r matches Some(t) ==> t.ptr is Null && t.type_mask == may_be_union(
                spec_flags_nullable(pass_by_ref, is_variadic, allow_null),
                types@,
            ),
    {
        if types.len() == 0 {
            return None;
        }
        let base = Self::arg_info_flags_with_nullable(pass_by_ref, is_variadic, allow_null);
        Some(ZendType { ptr: TypePtr::Null, type_mask: or_may_be(base, types) })
    }

    /// The type for a typed property. Class names are engine-owned strings and
    /// unions, intersections and DNF types are lists the engine frees itself.
    pub fn empty_for_property(ty: &PhpType, allow_null: bool) -> (r: Option<Self>)
        ensures
            empty_for_property_spec(*ty, allow_null, r),
    {
        let null_bit = if allow_null { _ZEND_TYPE_NULLABLE_BIT } else { 0u32 };
        match ty {
            PhpType::Simple(DataType::Object(Some(class))) => {
                if !is_valid_class_name(class) {
                    return None;
                }
                Some(
                    ZendType {
                        ptr: TypePtr::Str { text: String::from_str(class), interned: false },
                        type_mask: _ZEND_TYPE_NAME_BIT | null_bit,
                    },
                )
            },
            PhpType::Simple(dt) => Some(
                ZendType {
                    ptr: TypePtr::Null,
                    type_mask: Self::type_init_code(*dt, false, false, allow_null),
                },
            ),
            PhpType::Union(members) => Some(
                ZendType { ptr: TypePtr::Null, type_mask: or_may_be(null_bit, members) },
            ),
            PhpType::ClassUnion(names) => {
                match build_class_list(names, false) {
                    Some(p) => Some(
                        ZendType {
                            ptr: p,
                            type_mask: _ZEND_TYPE_LIST_BIT | _ZEND_TYPE_UNION_BIT | null_bit,
                        },
                    ),
                    None => None,
                }
            },
            PhpType::Intersection(names) => {
                if allow_null {
                    return None;
                }
                match build_class_list(names, false) {
                    Some(p) => Some(
                        ZendType {
                            ptr: p,
                            type_mask: _ZEND_TYPE_LIST_BIT | _ZEND_TYPE_INTERSECTION_BIT,
                        },
                    ),
                    None => None,
                }
            },
            PhpType::Dnf(terms) => {
                match checked_dnf_list(terms, false) {
                    Some(p) => Some(
                        ZendType {
                            ptr: p,
                            type_mask: _ZEND_TYPE_LIST_BIT | _ZEND_TYPE_UNION_BIT | null_bit,
                        },
                    ),
                    None => None,
                }
            },
        }
    }
}

/// The `MAY_BE_*` mask of a primitive type.
pub fn primitive_may_be(dt: DataType) -> (r: u32)
    ensures
        r == spec_may_be(dt),
{
    let code = dt.as_u32();
    if code == IS_BOOL {
        MAY_BE_BOOL
    } else if code == IS_MIXED {
        MAY_BE_ANY
    } else {
        1u32 << code
    }
}

/// ORs the `MAY_BE_*` masks of `types` onto `base`.
fn or_may_be(base: u32, types: &Vec<DataType>) -> (r: u32)
    ensures
        r == may_be_union(base, types@),
{
    let mut mask = base;
    let mut i: usize = 0;
    while i < types.len()
        invariant
            i <= types.len(),
            mask == may_be_union(base, types@.take(i as int)),
        decreases types.len() - i,
    {
        assert(types@.take(i + 1).drop_last() =~= types@.take(i as int));
        mask = mask | primitive_may_be(types[i]);
        i = i + 1;
    }
    assert(types@.take(types.len() as int) =~= types@);
    mask
}

/// Checks a DNF type and builds its list, or `None` when the engine would refuse it.
fn checked_dnf_list(terms: &Vec<DnfTerm>, interned: bool) -> (r: Option<TypePtr>)
    ensures
        r is Some <==> dnf_accepted(terms@),
        r matches Some(p) ==> is_dnf_list(p, terms@, interned),
{
    if terms.len() < 2 {
        return None;
    }
    let mut i: usize = 0;
    while i < terms.len()
        invariant
            i <= terms.len(),
            forall|k: int| 0 <= k < i ==> spec_dnf_term_valid(#[trigger] terms@[k]),
        decreases terms.len() - i,
    {
        if !dnf_term_is_valid(&terms[i]) {
            return None;
        }
        i = i + 1;
    }
    if terms.len() > 0xFFFF_FFFFusize {
        return None;
    }
    build_dnf_list(terms, interned)
}

} // verus!
