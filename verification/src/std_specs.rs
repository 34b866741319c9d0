//! Contracts for the few std conversions that vstd leaves unspecified.
use vstd::prelude::*;

verus! {

/// The reflexive `From` impl of std (`impl<T> From<T> for T`), which hands its
/// argument back unchanged.
pub assume_specification<Same>[ <Same as From<Same>>::from ](t: Same) -> (r: Same)
    ensures
        r == t,
;


} // verus!
