use vstd::prelude::*;

use ahash::AHashMap;

verus! {

/// `AHashMap`, whose contents Verus sees only through the names below.
#[verifier::external_type_specification]
#[verifier::external_body]
#[verifier::reject_recursive_types(K)]
#[verifier::reject_recursive_types(V)]
#[verifier::reject_recursive_types(S)]
pub struct ExAHashMap<K, V, S>(AHashMap<K, V, S>);

/// The hasher that `AHashMap` uses by default; it only appears in the map's
/// type.
#[verifier::external_type_specification]
#[verifier::external_body]
pub struct ExRandomState(ahash::RandomState);

/// A vertex as a key: its position, texture coordinate and normal index.
pub type VertexKey = (isize, Option<isize>, Option<isize>);

/// What a map keyed by whole vertices holds.
pub uninterp spec fn vertex_slots(m: AHashMap<VertexKey, u32>) -> Map<VertexKey, u32>;

/// Relies on `AHashMap::new`: the new map holds no entry.
#[verifier::external_body]
pub(crate) fn vertex_map_new() -> (m: AHashMap<VertexKey, u32>)
    ensures
        vertex_slots(m).is_empty(),
{
    AHashMap::new()
}


/// Relies on `AHashMap::get`: the value stored under the key, if any.
#[verifier::external_body]
pub(crate) fn vertex_map_get(m: &AHashMap<VertexKey, u32>, k: &VertexKey) -> (r: Option<u32>)
    ensures
        r == (if vertex_slots(*m).contains_key(*k) {
            Some(vertex_slots(*m)[*k])
        } else {
            None
        }),
{
    m.get(k).copied()
}

/// Relies on `AHashMap::insert`: the key now maps to the value and every
/// other entry stays.
#[verifier::external_body]
pub(crate) fn vertex_map_insert(m: &mut AHashMap<VertexKey, u32>, k: VertexKey, v: u32)
    ensures
        vertex_slots(*final(m)) == vertex_slots(*old(m)).insert(k, v),
{
    m.insert(k, v);
}


/// What a map keyed by the index of one attribute channel holds.
pub uninterp spec fn channel_slots(m: AHashMap<usize, u32>) -> Map<usize, u32>;

/// Relies on `AHashMap::new`: the new map holds no entry.
#[verifier::external_body]
pub(crate) fn channel_map_new() -> (m: AHashMap<usize, u32>)
    ensures
        channel_slots(m).is_empty(),
{
    AHashMap::new()
}

/// Relies on `AHashMap::get`: the value stored under the key, if any.
#[verifier::external_body]
pub(crate) fn channel_map_get(m: &AHashMap<usize, u32>, k: usize) -> (r: Option<u32>)
    ensures
        r == (if channel_slots(*m).contains_key(k) {
            Some(channel_slots(*m)[k])
        } else {
            None
        }),
{
    m.get(&k).copied()
}

/// Relies on `AHashMap::insert`: the key now maps to the value and every
/// other entry stays.
#[verifier::external_body]
pub(crate) fn channel_map_insert(m: &mut AHashMap<usize, u32>, k: usize, v: u32)
    ensures
        channel_slots(*final(m)) == channel_slots(*old(m)).insert(k, v),
{
    m.insert(k, v);
}


/// What a map keyed by the components of a point holds.
pub uninterp spec fn point_slots(m: AHashMap<Vec<u32>, u32>) -> Map<Seq<u32>, u32>;

/// Relies on `AHashMap::new`: the new map holds no entry.
#[verifier::external_body]
pub(crate) fn point_map_new() -> (m: AHashMap<Vec<u32>, u32>)
    ensures
        point_slots(m).is_empty(),
{
    AHashMap::new()
}

/// Relies on `AHashMap::get`: the value stored under the key, if any; keys
/// are equal when their elements are.
#[verifier::external_body]
pub(crate) fn point_map_get(m: &AHashMap<Vec<u32>, u32>, k: &Vec<u32>) -> (r: Option<u32>)
    ensures
        r == (if point_slots(*m).contains_key(k@) {
            Some(point_slots(*m)[k@])
        } else {
            None
        }),
{
    m.get(k).copied()
}

/// Relies on `AHashMap::insert`: the key now maps to the value and every
/// other entry stays.
#[verifier::external_body]
pub(crate) fn point_map_insert(m: &mut AHashMap<Vec<u32>, u32>, k: Vec<u32>, v: u32)
    ensures
        point_slots(*final(m)) == point_slots(*old(m)).insert(k@, v),
{
    m.insert(k, v);
}

} // verus!
