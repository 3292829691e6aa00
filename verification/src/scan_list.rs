//! The bounded list of detected objects that a scan response carries.
//!
//! The list is a `heapless::Vec`, whose inside Verus does not see. What it
//! holds is named by `scan_objects`, and the functions of this file say of
//! each call what it does to those contents.

use vstd::prelude::*;
use crate::model::{ObjectData, SCAN_MAX};

verus! {

#[verifier::external_type_specification]
#[verifier::external_body]
#[verifier::reject_recursive_types(T)]
pub struct ExHeaplessVec<T, const N: usize>(heapless::Vec<T, N>);

/// The objects that a list holds, first pushed first.
pub uninterp spec fn scan_objects(list: heapless::Vec<ObjectData, SCAN_MAX>) -> Seq<ObjectData>;

/// `heapless::Vec::new`: a list that holds nothing.
#[verifier::external_body]
pub(crate) fn list_new() -> (list: heapless::Vec<ObjectData, SCAN_MAX>)
    ensures
        scan_objects(list) == Seq::<ObjectData>::empty(),
{
    heapless::Vec::new()
}

/// `heapless::Vec::len`: the number of objects held, which never passes the
/// capacity that the type fixes.
#[verifier::external_body]
pub(crate) fn list_len(list: &heapless::Vec<ObjectData, SCAN_MAX>) -> (n: usize)
    ensures
        n == scan_objects(*list).len(),
        n <= SCAN_MAX,
{
    list.len()
}

/// `heapless::Vec::push`: appends the object where there is room, and
/// where there is none leaves the list as it was and hands the object back.
#[verifier::external_body]
pub(crate) fn list_push(list: &mut heapless::Vec<ObjectData, SCAN_MAX>, item: ObjectData) -> (refused: Option<ObjectData>)
    ensures
        refused is None <==> scan_objects(*old(list)).len() < SCAN_MAX,
        refused is None ==> scan_objects(*final(list)) == scan_objects(*old(list)).push(item),
        refused is Some ==> refused == Some(item) && scan_objects(*final(list)) == scan_objects(
            *old(list),
        ),
{
    list.push(item).err()
}

/// Indexing of `heapless::Vec` through its slice: the object at a position
/// below the length.
#[verifier::external_body]
pub(crate) fn list_get(list: &heapless::Vec<ObjectData, SCAN_MAX>, i: usize) -> (item: ObjectData)
    requires
        i < scan_objects(*list).len(),
    ensures
        item == scan_objects(*list)[i as int],
{
    list[i]
}

} // verus!
