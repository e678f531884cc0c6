//! Requested fields, by name, in the order in which they were added.

use crate::models::Field;
use indexmap::IndexMap;
use std::collections::hash_map::RandomState;
use vstd::prelude::*;

verus! {

/// `indexmap::IndexMap`: a hash map that keeps its entries in the order in which their keys were
/// first inserted.
#[verifier::external_type_specification]
#[verifier::external_body]
#[verifier::reject_recursive_types(K)]
#[verifier::reject_recursive_types(V)]
#[verifier::reject_recursive_types(S)]
pub struct ExIndexMap<K, V, S>(IndexMap<K, V, S>);

/// The entries of a map, in their order.
pub uninterp spec fn field_map_entries(map: IndexMap<String, Field, RandomState>) -> Seq<
    (String, Field),
>;

/// `IndexMap::new`: a map without entries.
#[verifier::external_body]
pub(crate) fn new_field_map() -> (r: IndexMap<String, Field>)
    ensures
        field_map_entries(r) == Seq::<(String, Field)>::empty(),
{
    IndexMap::new()
}

/// `IndexMap::insert`: where no entry has the key, the new entry comes last, and nothing is
/// returned. Where an entry has it, that entry keeps its key and its place and gets the new value,
/// and the older value is returned.
#[verifier::external_body]
pub(crate) fn insert_field(
    map: &mut IndexMap<String, Field>,
    name: String,
    field: Field,
) -> (r: Option<Field>)
    ensures
        (forall|i: int|
            0 <= i < field_map_entries(*old(map)).len() ==> (#[trigger] field_map_entries(
                *old(map),
            )[i]).0@ != name@) ==> {
            &&& r is None
            &&& field_map_entries(*final(map)) == field_map_entries(*old(map)).push((name, field))
        },
        forall|i: int|
            0 <= i < field_map_entries(*old(map)).len() && (#[trigger] field_map_entries(
                *old(map),
            )[i]).0@ == name@ ==> {
                &&& r == Some(field_map_entries(*old(map))[i].1)
                &&& field_map_entries(*final(map)) == field_map_entries(*old(map)).update(
                    i,
                    (field_map_entries(*old(map))[i].0, field),
                )
            },
{
    map.insert(name, field)
}

/// `IndexMap::into_iter`, collected: the entries in their order.
#[verifier::external_body]
pub(crate) fn into_fields(map: IndexMap<String, Field>) -> (r: Vec<(String, Field)>)
    ensures
        r@ == field_map_entries(map),
{
    map.into_iter().collect()
}

} // verus!
