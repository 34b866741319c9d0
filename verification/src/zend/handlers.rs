//! What the object handlers of a Rust-backed class decide: who may touch a
//! property, what a refused access reports, what a has-property query
//! answers, and how the property table of an object is filled.
use vstd::prelude::*;

use crate::describe::{ACC_PRIVATE, ACC_PROTECTED};
use crate::types::array::store;
use crate::types::zval::{view_truthy, KeyView, ZendHashTable, Zval, ZvalView};

verus! {

/// Whether code running in `calling_scope` (a class entry, `None` outside any
/// class) may touch a property with visibility `flags` of an object of class
/// `object_class`: public properties always; private ones only from the
/// object's own class; protected ones from the object's class or a class
/// `related` to it (one is a subclass of the other).
pub open spec fn access_allowed(flags: u32, calling_scope: Option<u64>, object_class: u64, related: bool) -> bool {
    if flags & ACC_PRIVATE == 0 && flags & ACC_PROTECTED == 0 {
        true
    } else if flags & ACC_PRIVATE != 0 {
        calling_scope == Some(object_class)
    } else {
        match calling_scope {
            None => false,
            Some(s) => s == object_class || related,
        }
    }
}

/// Whether the property may be touched (see [`access_allowed`]). `related`
/// is the engine's answer to whether either class is a subclass of the other.
pub fn check_property_access(flags: u32, calling_scope: Option<u64>, object_class: u64, related: bool) -> (r:
    bool)
    ensures
        r == access_allowed(flags, calling_scope, object_class, related),
{
    if flags & ACC_PRIVATE == 0 && flags & ACC_PROTECTED == 0 {
        return true;
    }
    if flags & ACC_PRIVATE != 0 {
        return match calling_scope {
            Some(s) => s == object_class,
            None => false,
        };
    }
    match calling_scope {
        None => false,
        Some(s) => s == object_class || related,
    }
}

/// The error a refused property access reports.
pub open spec fn access_error_text(class_name: Seq<char>, prop_name: Seq<char>, is_private: bool) -> Seq<char> {
    "Cannot access "@ + (if is_private {
        "private"@
    } else {
        "protected"@
    }) + " property "@ + class_name + "::$"@ + prop_name
}

/// The error a refused property access reports, e.g.
/// `Cannot access private property Foo::$bar`.
pub fn property_access_error(class_name: &str, prop_name: &str, is_private: bool) -> (r: String)
    ensures
        r@ == access_error_text(class_name@, prop_name@, is_private),
{
    let mut s = String::from_str("Cannot access ");
    if is_private {
        s.append("private");
    } else {
        s.append("protected");
    }
    s.append(" property ");
    s.append(class_name);
    s.append("::$");
    s.append(prop_name);
    s
}

/// The name a property has in an object's property table: private ones are
/// `"\0Class\0name"`, protected ones `"\0*\0name"`, public ones their name.
pub open spec fn mangled_name(class_name: Seq<char>, name: Seq<char>, flags: u32) -> Seq<char> {
    if flags & ACC_PRIVATE != 0 {
        seq!['\0'] + class_name + seq!['\0'] + name
    } else if flags & ACC_PROTECTED != 0 {
        seq!['\0', '*', '\0'] + name
    } else {
        name
    }
}

/// The name a property has in an object's property table (see
/// [`mangled_name`]).
pub fn mangle_property_name(class_name: &str, name: &str, flags: u32) -> (r: String)
    ensures
        r@ == mangled_name(class_name@, name@, flags),
{
    let mut s = String::new();
    if flags & ACC_PRIVATE != 0 {
        crate::text::push_char(&mut s, '\0');
        s.append(class_name);
        crate::text::push_char(&mut s, '\0');
        s.append(name);
    } else if flags & ACC_PROTECTED != 0 {
        crate::text::push_char(&mut s, '\0');
        crate::text::push_char(&mut s, '*');
        crate::text::push_char(&mut s, '\0');
        s.append(name);
    } else {
        s.append(name);
    }
    s
}

/// The answer of the has-property handler for a property.
#[derive(Debug, Clone, Copy, PartialEq, Eq)]
pub enum HasPropertyAnswer {
    /// The property is there (the handler returns 1).
    Yes,
    /// The class has no answer; the engine's standard handler decides.
    Standard,
    /// Reading the property failed: the handler throws the getter's error and
    /// returns 0.
    GetterFailed,
    /// The query kind is not one the engine defines.
    InvalidQuery,
}

/// What the has-property handler answers for query `has_set_exists` (0: set
/// and not `null`; 1: set and true; 2: exists), when `defined` says whether
/// the class defines the property and `value` is what reading it gave: the
/// property's value, or `Err` when its getter failed (`None` when it was not
/// read, as for query 2). A defined property is read for queries 0 and 1.
pub open spec fn has_property_spec(has_set_exists: i32, defined: bool, value: Option<Result<ZvalView, ()>>) -> HasPropertyAnswer {
    if has_set_exists == 0 || has_set_exists == 1 {
        if !defined {
            HasPropertyAnswer::Standard
        } else {
            match value {
                Some(Ok(v)) => if (has_set_exists == 0 && !(v is Null)) || (has_set_exists == 1 && view_truthy(v)) {
                    HasPropertyAnswer::Yes
                } else {
                    HasPropertyAnswer::Standard
                },
                Some(Err(_)) => HasPropertyAnswer::GetterFailed,
                None => HasPropertyAnswer::Standard,
            }
        }
    } else if has_set_exists == 2 {
        if defined {
            HasPropertyAnswer::Yes
        } else {
            HasPropertyAnswer::Standard
        }
    } else {
        HasPropertyAnswer::InvalidQuery
    }
}

/// The view of what reading a property gave.
pub open spec fn read_view(v: Option<Result<&Zval, ()>>) -> Option<Result<ZvalView, ()>> {
    match v {
        Some(Ok(z)) => Some(Ok(z@)),
        Some(Err(e)) => Some(Err(e)),
        None => None,
    }
}

/// What the has-property handler answers (see [`has_property_spec`]).
pub fn has_property_answer(has_set_exists: i32, defined: bool, value: Option<Result<&Zval, ()>>) -> (r: HasPropertyAnswer)
    ensures
        r == has_property_spec(has_set_exists, defined, read_view(value)),
{
    if has_set_exists == 0 || has_set_exists == 1 {
        if !defined {
            return HasPropertyAnswer::Standard;
        }
        match value {
            Some(Ok(v)) => {
                let set = if has_set_exists == 0 {
                    !v.is_null()
                } else {
                    v.coerce_to_bool()
                };
                if set {
                    HasPropertyAnswer::Yes
                } else {
                    HasPropertyAnswer::Standard
                }
            },
            Some(Err(_)) => HasPropertyAnswer::GetterFailed,
            None => HasPropertyAnswer::Standard,
        }
    } else if has_set_exists == 2 {
        if defined {
            HasPropertyAnswer::Yes
        } else {
            HasPropertyAnswer::Standard
        }
    } else {
        HasPropertyAnswer::InvalidQuery
    }
}

/// The error the has-property handler throws for an unknown query kind.
pub fn invalid_has_property_query_error() -> (r: String)
    ensures
        r@ == "Invalid value given for `has_set_exists` in struct `has_property` function."@,
{
    String::from_str("Invalid value given for `has_set_exists` in struct `has_property` function.")
}

/// A property of a class as the property table sees it: its name, its
/// visibility flags, and its value (`None` when its getter failed).
pub type PropertyRead = (String, u32, Option<Zval>);

/// The table that storing each readable property under its mangled name, in
/// order, builds on top of `base`; properties whose getter failed are left
/// out.
pub open spec fn property_table(base: Seq<(KeyView, ZvalView)>, class_name: Seq<char>, props: Seq<PropertyRead>) -> Seq<
    (KeyView, ZvalView),
>
    decreases props.len(),
{
    if props.len() == 0 {
        base
    } else {
        let rest = property_table(base, class_name, props.drop_last());
        let (name, flags, value) = props.last();
        match value {
            Some(v) => store(rest, KeyView::Text(mangled_name(class_name, name@, flags)), v@),
            None => rest,
        }
    }
}

/// Fills an object's property table with the class's properties (see
/// [`property_table`]).
pub fn fill_property_table(table: &mut ZendHashTable, class_name: &str, props: Vec<PropertyRead>)
    ensures
        final(table)@ == property_table(old(table)@, class_name@, props@),
{
    let ghost all = props@;
    let ghost start = table@;
    let mut rest = props;
    let mut i: usize = 0;
    let n = rest.len();
    proof {
        assert(all.take(0) =~= Seq::<PropertyRead>::empty());
    }
    while rest.len() > 0
        invariant
            n == all.len(),
            i + rest@.len() == n,
            rest@ == all.subrange(i as int, n as int),
            start == old(table)@,
            table@ == property_table(start, class_name@, all.take(i as int)),
        decreases rest@.len(),
    {
        let item = rest.remove(0);
        proof {
            assert(item == all[i as int]);
            assert(all.take(i + 1).drop_last() =~= all.take(i as int));
            assert(all.take(i + 1).last() == item);
        }
        let (name, flags, value) = item;
        match value {
            Some(v) => {
                let mangled = mangle_property_name(class_name, name.as_str(), flags);
                let _ = table.insert(mangled.as_str(), v);
            },
            None => {},
        }
        proof {
            assert(rest@ =~= all.subrange(i + 1, n as int));
        }
        i = i + 1;
    }
    proof {
        assert(all.take(n as int) =~= all);
    }
}

} // verus!
