use vstd::prelude::*;

use ahash::AHashMap;

use crate::face::{
    accepted_faces, accepted_len, all_triangles, arities_of, expand_faces, uses_of, Face,
    VertexIndices,
};
use crate::maps::{channel_map_get, channel_map_insert, channel_map_new, channel_slots};
use crate::merge::{lemma_merged_shape, merge_identical_points, merged_indices, merged_points};
use crate::mesh::{
    as_u32, first_seen, gather, lemma_dedup, lemma_gather_push, lemma_index_of_unique,
    lemma_slots_u32, point, push_point, slots, Mesh, MeshView,
};
use crate::options::{LoadError, LoadOptions};
use crate::reorder::{reorder_data, reordered};
use crate::single::in_range;

verus! {

/// The index each use takes in a channel where some uses name none: a
/// missing index repeats the one before it, and the very first falls back
/// to the channel's first element.
pub open spec fn effective(ks: Seq<Option<isize>>) -> Seq<isize>
    decreases ks.len(),
{
    if ks.len() == 0 {
        seq![]
    } else {
        let p = effective(ks.drop_last());
        p.push(
            match ks.last() {
                Some(t) => t,
                None => if p.len() == 0 {
                    0
                } else {
                    p.last()
                },
            },
        )
    }
}

pub proof fn lemma_effective_len(ks: Seq<Option<isize>>)
    ensures
        effective(ks).len() == ks.len(),
    decreases ks.len(),
{
    if ks.len() > 0 {
        lemma_effective_len(ks.drop_last());
    }
}

/// Point `i` of a buffer with `d` components per point, for each index.
pub open spec fn point_at(buf: Seq<u32>, d: int) -> spec_fn(isize) -> Seq<u32> {
    |i: isize| point(buf, i as int, d)
}

/// `m` gives each element of the distinct indices `u` its position in `u`.
pub open spec fn slot_map(m: Map<usize, u32>, u: Seq<isize>) -> bool {
    &&& forall|j: int| 0 <= j < u.len() ==> 0 <= #[trigger] u[j] && m.contains_key(u[j] as usize) && m[u[j] as usize] == j as u32
    &&& forall|key: usize| #[trigger] m.contains_key(key) ==> exists|j: int| 0 <= j < u.len() && u[j] as usize == key
}

/// The last use of a channel names an index that is new and outside the
/// buffer.
pub open spec fn channel_fails(ks: Seq<Option<isize>>, buf: Seq<u32>, d: int) -> bool {
    let ek = effective(ks);
    &&& ks.len() > 0
    &&& !ek.drop_last().contains(ek.last())
    &&& !in_range(ek.last() as int, buf, d)
}

/// The last use of a channel names an index that no earlier use named.
pub open spec fn fresh(ks: Seq<Option<isize>>) -> bool {
    !effective(ks).drop_last().contains(effective(ks).last())
}

/// The state of one attribute channel after the uses `ks`.
pub open spec fn channel_state(
    data: Seq<u32>,
    idx: Seq<u32>,
    m: Map<usize, u32>,
    ks: Seq<Option<isize>>,
    buf: Seq<u32>,
    d: int,
) -> bool {
    let ek = effective(ks);
    let u = first_seen(ek);
    &&& forall|j: int| 0 <= j < u.len() ==> in_range(#[trigger] u[j] as int, buf, d)
    &&& data == gather(u, point_at(buf, d))
    &&& data.len() == d * u.len()
    &&& idx == as_u32(slots(ek))
    &&& slot_map(m, u)
}

proof fn lemma_slot_map_extend(m: Map<usize, u32>, u: Seq<isize>, t: isize)
    requires
        slot_map(m, u),
        !u.contains(t),
        0 <= t,
        u.len() < u32::MAX,
    ensures
        slot_map(m.insert(t as usize, u.len() as u32), u.push(t)),
{
    let m2 = m.insert(t as usize, u.len() as u32);
    let u2 = u.push(t);
    assert forall|j: int| 0 <= j < u2.len() implies 0 <= #[trigger] u2[j] && m2.contains_key(u2[j] as usize) && m2[u2[j] as usize] == j as u32 by {
        if j < u.len() {
            assert(u2[j] == u[j]);
            if u[j] as usize == t as usize {
                assert(u.contains(t));
            }
        }
    }
    assert forall|key: usize| #[trigger] m2.contains_key(key) implies exists|j: int| 0 <= j < u2.len() && u2[j] as usize == key by {
        if key == t as usize {
            assert(u2[u.len() as int] as usize == key);
        } else {
            let j = choose|j: int| 0 <= j < u.len() && u[j] as usize == key;
            assert(u2[j] as usize == key);
        }
    }
}

/// Adds one use to an attribute channel: a missing index repeats the last
/// one (or, first of all, falls back to the channel's first element); an
/// index seen before reuses its slot; a new one appends its point. Returns
/// `None` where a new index lies outside the buffer, else whether the index
/// was new.
fn add_channel_index(
    data: &mut Vec<u32>,
    idx: &mut Vec<u32>,
    map: &mut AHashMap<usize, u32>,
    key: Option<isize>,
    buf: &[u32],
    d: usize,
    Ghost(ks): Ghost<Seq<Option<isize>>>,
) -> (r: Option<bool>)
    requires
        1 <= d <= 3,
        channel_state(old(data)@, old(idx)@, channel_slots(*old(map)), ks, buf@, d as int),
        ks.len() < u32::MAX,
    ensures
        r is None <==> channel_fails(ks.push(key), buf@, d as int),
        r matches Some(f) ==> f == fresh(ks.push(key)),
        r is Some ==> channel_state(final(data)@, final(idx)@, channel_slots(*final(map)), ks.push(key), buf@, d as int),
        r is None ==> *final(data) == *old(data) && *final(idx) == *old(idx)
            && channel_slots(*final(map)) == channel_slots(*old(map)),
        key is Some && key->Some_0 >= 0 && channel_slots(*old(map)).contains_key(key->Some_0 as usize) ==> {
            &&& r == Some(false)
            &&& final(idx)@ == old(idx)@.push(channel_slots(*old(map))[key->Some_0 as usize])
        },
        r == Some(false) ==> *final(data) == *old(data) && channel_slots(*final(map)) == channel_slots(*old(map)),
        key is None && old(idx)@.len() > 0 ==> r == Some(false),
{
    let ghost ek = effective(ks);
    let ghost u = first_seen(ek);
    let ghost ks2 = ks.push(key);
    let ghost n0 = data@.len();
    proof {
        lemma_effective_len(ks);
        lemma_dedup(ek);
        assert(ks2.drop_last() =~= ks);
    }
    let ghost ek2 = effective(ks2);
    assert(ek2.drop_last() =~= ek);
    let eff: Option<isize> = match key {
        Some(t) => Some(t),
        None => if idx.len() == 0 {
            Some(0)
        } else {
            None
        },
    };
    match eff {
        None => {
            let last = idx[idx.len() - 1];
            idx.push(last);
            proof {
                let i = ek.len() - 1;
                assert(ek2.last() == ek[i]);
                let j = slots(ek)[i];
                assert(u[j] == ek2.last());
                lemma_index_of_unique(u, j);
                assert(ek.contains(ek2.last()));
                assert(ek2.drop_last().contains(ek2.last()));
                assert(idx@ =~= as_u32(slots(ek2)));
            }
            Some(false)
        },
        Some(t) => {
            if t < 0 {
                proof {
                    if ek.contains(t) {
                        let w = choose|w: int| 0 <= w < ek.len() && ek[w] == t;
                        let j = slots(ek)[w];
                        assert(in_range(u[j] as int, buf@, d as int));
                    }
                }
                return None;
            }
            match channel_map_get(map, t as usize) {
                Some(i) => {
                    idx.push(i);
                    proof {
                        let j = choose|j: int| 0 <= j < u.len() && u[j] as usize == t as usize;
                        assert(u[j] == t);
                        lemma_index_of_unique(u, j);
                        let w = choose|w: int| 0 <= w < ek.len() && ek[w] == u[j];
                        assert(ek2.drop_last().contains(ek2.last()));
                        assert(idx@ =~= as_u32(slots(ek2)));
                    }
                    Some(false)
                },
                None => {
                    proof {
                        if u.contains(t) {
                            let j = choose|j: int| 0 <= j < u.len() && u[j] == t;
                            assert(channel_slots(*map).contains_key(u[j] as usize));
                        }
                        if ek.contains(t) {
                            let w = choose|w: int| 0 <= w < ek.len() && ek[w] == t;
                            assert(u[slots(ek)[w]] == t);
                        }
                        assert(first_seen(ek2) == u.push(t));
                    }
                    if t as usize >= buf.len() / d {
                        return None;
                    }
                    assert(data@.len() as int / (d as int) == u.len()) by (nonlinear_arith)
                        requires
                            data@.len() == d * u.len(),
                            1 <= d,
                    ;
                    let next = (data.len() / d) as u32;
                    push_point(data, buf, t as usize, d);
                    idx.push(next);
                    channel_map_insert(map, t as usize, next);
                    proof {
                        lemma_gather_push(u, t, point_at(buf@, d as int));
                        lemma_slot_map_extend(channel_slots(*old(map)), u, t);
                        assert(idx@ =~= as_u32(slots(ek2)));
                        assert forall|j: int| 0 <= j < u.len() + 1 implies in_range(#[trigger] u.push(t)[j] as int, buf@, d as int) by {
                            if j < u.len() {
                                assert(u.push(t)[j] == u[j]);
                            }
                        }
                        assert(data@.len() == d * (u.len() + 1)) by (nonlinear_arith)
                            requires
                                data@.len() == n0 + d,
                                n0 == d * u.len(),
                        ;
                    }
                    Some(true)
                },
            }
        },
    }
}


/// The position index of each use, as a channel that never misses one.
pub open spec fn v_opts(s: Seq<VertexIndices>) -> Seq<Option<isize>> {
    s.map_values(|k: VertexIndices| Some(k.v))
}

/// The texture coordinate index of each use.
pub open spec fn vt_opts(s: Seq<VertexIndices>) -> Seq<Option<isize>> {
    s.map_values(|k: VertexIndices| k.vt)
}

/// The normal index of each use.
pub open spec fn vn_opts(s: Seq<VertexIndices>) -> Seq<Option<isize>> {
    s.map_values(|k: VertexIndices| k.vn)
}

/// The color stored with a position index, where colors are present.
pub open spec fn color_at(col: Seq<u32>) -> spec_fn(isize) -> Seq<u32> {
    |v: isize|
        if col.len() > 0 {
            point(col, v as int, 3)
        } else {
            seq![]
        }
}

/// The error that the last of the uses `s` raises with per-attribute
/// indices, if any: a new position outside its buffer, then its color, then
/// a new texture coordinate and a new normal index outside their (non-empty)
/// buffers.
pub open spec fn use_error(
    s: Seq<VertexIndices>,
    pos: Seq<u32>,
    col: Seq<u32>,
    tex: Seq<u32>,
    nor: Seq<u32>,
) -> Option<LoadError> {
    if channel_fails(v_opts(s), pos, 3) {
        Some(LoadError::FaceVertexOutOfBounds)
    } else if fresh(v_opts(s)) && col.len() > 0 && !in_range(s.last().v as int, col, 3) {
        Some(LoadError::FaceColorOutOfBounds)
    } else if tex.len() > 0 && channel_fails(vt_opts(s), tex, 2) {
        Some(LoadError::FaceTexCoordOutOfBounds)
    } else if nor.len() > 0 && channel_fails(vn_opts(s), nor, 3) {
        Some(LoadError::FaceNormalOutOfBounds)
    } else {
        None
    }
}

/// The error of the first of the uses `s` that raises one.
pub open spec fn multi_error(
    s: Seq<VertexIndices>,
    pos: Seq<u32>,
    col: Seq<u32>,
    tex: Seq<u32>,
    nor: Seq<u32>,
) -> Option<LoadError>
    decreases s.len(),
{
    if s.len() == 0 {
        None
    } else {
        match multi_error(s.drop_last(), pos, col, tex, nor) {
            Some(e) => Some(e),
            None => use_error(s, pos, col, tex, nor),
        }
    }
}

/// The mesh after the uses `s` have been added with per-attribute indices.
pub open spec fn multi_state(
    mesh: Mesh,
    pm: Map<usize, u32>,
    tm: Map<usize, u32>,
    nm: Map<usize, u32>,
    s: Seq<VertexIndices>,
    pos: Seq<u32>,
    col: Seq<u32>,
    tex: Seq<u32>,
    nor: Seq<u32>,
) -> bool {
    &&& multi_error(s, pos, col, tex, nor) is None
    &&& channel_state(mesh.positions@, mesh.indices@, pm, v_opts(s), pos, 3)
    &&& mesh.vertex_color@ == gather(first_seen(effective(v_opts(s))), color_at(col))
    &&& mesh.vertex_color@.len() == (if col.len() > 0 { 3 * first_seen(effective(v_opts(s))).len() } else { 0 })
    &&& tex.len() > 0 ==> channel_state(mesh.texcoords@, mesh.texcoord_indices@, tm, vt_opts(s), tex, 2)
    &&& tex.len() == 0 ==> mesh.texcoords@.len() == 0 && mesh.texcoord_indices@.len() == 0
    &&& nor.len() > 0 ==> channel_state(mesh.normals@, mesh.normal_indices@, nm, vn_opts(s), nor, 3)
    &&& nor.len() == 0 ==> mesh.normals@.len() == 0 && mesh.normal_indices@.len() == 0
}

/// Adds a vertex use with an index of its own for each attribute channel.
fn add_vertex_multi_index(
    mesh: &mut Mesh,
    index_map: &mut AHashMap<usize, u32>,
    normal_index_map: &mut AHashMap<usize, u32>,
    texcoord_index_map: &mut AHashMap<usize, u32>,
    vert: &VertexIndices,
    pos: &[u32],
    v_color: &[u32],
    texcoord: &[u32],
    normal: &[u32],
    Ghost(s): Ghost<Seq<VertexIndices>>,
) -> (r: Result<(), LoadError>)
    requires
        multi_state(
            *old(mesh),
            channel_slots(*old(index_map)),
            channel_slots(*old(texcoord_index_map)),
            channel_slots(*old(normal_index_map)),
            s,
            pos@,
            v_color@,
            texcoord@,
            normal@,
        ),
        s.len() < u32::MAX,
    ensures
        r is Ok ==> multi_state(
            *final(mesh),
            channel_slots(*final(index_map)),
            channel_slots(*final(texcoord_index_map)),
            channel_slots(*final(normal_index_map)),
            s.push(*vert),
            pos@,
            v_color@,
            texcoord@,
            normal@,
        ),
        r matches Err(e) ==> use_error(s.push(*vert), pos@, v_color@, texcoord@, normal@) == Some(e),
        r == Err::<(), LoadError>(LoadError::FaceVertexOutOfBounds) ==> *final(mesh) == *old(mesh)
            && channel_slots(*final(index_map)) == channel_slots(*old(index_map)),
        r == Err::<(), LoadError>(LoadError::FaceVertexOutOfBounds)
            || r == Err::<(), LoadError>(LoadError::FaceColorOutOfBounds) ==> {
            &&& channel_slots(*final(texcoord_index_map)) == channel_slots(*old(texcoord_index_map))
            &&& channel_slots(*final(normal_index_map)) == channel_slots(*old(normal_index_map))
        },
        texcoord@.len() == 0 ==> channel_slots(*final(texcoord_index_map)) == channel_slots(*old(texcoord_index_map))
            && final(mesh).texcoords == old(mesh).texcoords
            && final(mesh).texcoord_indices == old(mesh).texcoord_indices,
        normal@.len() == 0 ==> channel_slots(*final(normal_index_map)) == channel_slots(*old(normal_index_map))
            && final(mesh).normals == old(mesh).normals
            && final(mesh).normal_indices == old(mesh).normal_indices,
        texcoord@.len() > 0 && (match vert.vt {
            Some(t) => t >= 0 && channel_slots(*old(texcoord_index_map)).contains_key(t as usize),
            None => old(mesh).texcoord_indices@.len() > 0,
        }) ==> channel_slots(*final(texcoord_index_map)) == channel_slots(*old(texcoord_index_map))
            && final(mesh).texcoords == old(mesh).texcoords,
        normal@.len() > 0 && (match vert.vn {
            Some(t) => t >= 0 && channel_slots(*old(normal_index_map)).contains_key(t as usize),
            None => old(mesh).normal_indices@.len() > 0,
        }) ==> channel_slots(*final(normal_index_map)) == channel_slots(*old(normal_index_map))
            && final(mesh).normals == old(mesh).normals,
        vert.v >= 0 && channel_slots(*old(index_map)).contains_key(vert.v as usize) ==> {
            &&& final(mesh).indices@ == old(mesh).indices@.push(channel_slots(*old(index_map))[vert.v as usize])
            &&& final(mesh).positions == old(mesh).positions
            &&& final(mesh).vertex_color == old(mesh).vertex_color
            &&& channel_slots(*final(index_map)) == channel_slots(*old(index_map))
        },
        final(mesh).face_arities == old(mesh).face_arities,
        final(mesh).vertex_color_indices == old(mesh).vertex_color_indices,
        final(mesh).material_id == old(mesh).material_id,
{
    let ghost t = s.push(*vert);
    proof {
        assert(t.drop_last() =~= s);
        assert(v_opts(t) =~= v_opts(s).push(Some(vert.v)));
        assert(vt_opts(t) =~= vt_opts(s).push(vert.vt));
        assert(vn_opts(t) =~= vn_opts(s).push(vert.vn));
        lemma_effective_len(v_opts(s));
        lemma_dedup(effective(v_opts(s)));
    }
    let ghost u = first_seen(effective(v_opts(s)));
    let ghost ek2 = effective(v_opts(t));
    assert(v_opts(t).drop_last() =~= v_opts(s));
    assert(ek2.drop_last() =~= effective(v_opts(s)));
    let fresh_position = match add_channel_index(
        &mut mesh.positions,
        &mut mesh.indices,
        index_map,
        Some(vert.v),
        pos,
        3,
        Ghost(v_opts(s)),
    ) {
        None => {
            return Err(LoadError::FaceVertexOutOfBounds);
        },
        Some(f) => f,
    };
    if fresh_position && v_color.len() > 0 {
        let v = vert.v as usize;
        if v >= v_color.len() / 3 {
            return Err(LoadError::FaceColorOutOfBounds);
        }
        push_point(&mut mesh.vertex_color, v_color, v, 3);
    }
    proof {
        if fresh_position {
            assert(first_seen(ek2) == u.push(vert.v));
            assert(color_at(v_color@)(vert.v).len() == (if v_color@.len() > 0 { 3int } else { 0 }));
            lemma_gather_push(u, vert.v, color_at(v_color@));
        } else {
            let ek = effective(v_opts(s));
            let w = choose|w: int| 0 <= w < ek.len() && ek[w] == ek2.last();
            assert(u[slots(ek)[w]] == ek2.last());
            assert(first_seen(ek2) == u);
        }
    }
    if texcoord.len() > 0 {
        if add_channel_index(
            &mut mesh.texcoords,
            &mut mesh.texcoord_indices,
            texcoord_index_map,
            vert.vt,
            texcoord,
            2,
            Ghost(vt_opts(s)),
        ).is_none() {
            return Err(LoadError::FaceTexCoordOutOfBounds);
        }
    }
    if normal.len() > 0 {
        if add_channel_index(
            &mut mesh.normals,
            &mut mesh.normal_indices,
            normal_index_map,
            vert.vn,
            normal,
            3,
            Ghost(vn_opts(s)),
        ).is_none() {
            return Err(LoadError::FaceNormalOutOfBounds);
        }
    }
    Ok(())
}


/// A first error among the leading uses is the first error of all.
pub proof fn lemma_multi_error_prefix(
    s: Seq<VertexIndices>,
    m: int,
    pos: Seq<u32>,
    col: Seq<u32>,
    tex: Seq<u32>,
    nor: Seq<u32>,
)
    requires
        0 <= m <= s.len(),
        multi_error(s.take(m), pos, col, tex, nor) is Some,
    ensures
        multi_error(s, pos, col, tex, nor) == multi_error(s.take(m), pos, col, tex, nor),
    decreases s.len(),
{
    if m == s.len() {
        assert(s.take(m) =~= s);
    } else {
        assert(s.drop_last().take(m) =~= s.take(m));
        lemma_multi_error_prefix(s.drop_last(), m, pos, col, tex, nor);
    }
}

/// The position index of each use.
pub open spec fn v_keys(s: Seq<VertexIndices>) -> Seq<isize> {
    s.map_values(|k: VertexIndices| k.v)
}

pub proof fn lemma_effective_all_present(s: Seq<VertexIndices>)
    ensures
        effective(v_opts(s)) == v_keys(s),
    decreases s.len(),
{
    if s.len() > 0 {
        let d = s.drop_last();
        assert(v_opts(s).drop_last() =~= v_opts(d));
        lemma_effective_all_present(d);
        assert(v_keys(s) =~= v_keys(d).push(s.last().v));
    }
}

/// What exporting `faces` with per-attribute indices fails with, if
/// anything.
pub open spec fn multi_outcome(
    faces: Seq<Face>,
    pos: Seq<u32>,
    col: Seq<u32>,
    tex: Seq<u32>,
    nor: Seq<u32>,
    o: LoadOptions,
) -> Option<LoadError> {
    let us = uses_of(accepted_faces(faces, o), o);
    if us.len() > u32::MAX {
        Some(LoadError::GenericFailure)
    } else {
        match multi_error(us, pos, col, tex, nor) {
            Some(e) => Some(e),
            None => if accepted_len(faces, o) < faces.len() {
                Some(LoadError::InvalidPolygon)
            } else {
                None
            },
        }
    }
}

/// The mesh that per-attribute indexing of `faces` builds, before any
/// post-processing pass.
pub open spec fn multi_base(
    faces: Seq<Face>,
    pos: Seq<u32>,
    col: Seq<u32>,
    tex: Seq<u32>,
    nor: Seq<u32>,
    mat_id: Option<usize>,
    o: LoadOptions,
) -> MeshView {
    let acc = accepted_faces(faces, o);
    let us = uses_of(acc, o);
    let uv = first_seen(v_keys(us));
    let tk = effective(vt_opts(us));
    let nk = effective(vn_opts(us));
    MeshView {
        positions: gather(uv, point_at(pos, 3)),
        vertex_color: gather(uv, color_at(col)),
        normals: if nor.len() > 0 {
            gather(first_seen(nk), point_at(nor, 3))
        } else {
            seq![]
        },
        texcoords: if tex.len() > 0 {
            gather(first_seen(tk), point_at(tex, 2))
        } else {
            seq![]
        },
        indices: as_u32(slots(v_keys(us))),
        face_arities: if all_triangles(acc, o) {
            seq![]
        } else {
            arities_of(acc, o)
        },
        vertex_color_indices: seq![],
        texcoord_indices: if tex.len() > 0 {
            as_u32(slots(tk))
        } else {
            seq![]
        },
        normal_indices: if nor.len() > 0 {
            as_u32(slots(nk))
        } else {
            seq![]
        },
        material_id: mat_id,
    }
}

/// Merges bit-identical points in every channel; vertex colors get indices
/// of their own first.
pub open spec fn merge_pass(b: MeshView) -> MeshView {
    MeshView {
        positions: merged_points(b.positions, b.indices, 3),
        indices: merged_indices(b.positions, b.indices, 3),
        vertex_color: if b.vertex_color.len() > 0 {
            merged_points(b.vertex_color, b.indices, 3)
        } else {
            b.vertex_color
        },
        vertex_color_indices: if b.vertex_color.len() > 0 {
            merged_indices(b.vertex_color, b.indices, 3)
        } else {
            b.vertex_color_indices
        },
        normals: merged_points(b.normals, b.normal_indices, 3),
        normal_indices: merged_indices(b.normals, b.normal_indices, 3),
        texcoords: merged_points(b.texcoords, b.texcoord_indices, 2),
        texcoord_indices: merged_indices(b.texcoords, b.texcoord_indices, 2),
        ..b
    }
}

/// Lays texture coordinates and normals out along the position indices.
pub open spec fn reorder_pass(b: MeshView) -> MeshView {
    MeshView {
        texcoords: reordered(b.texcoords, b.texcoord_indices, b.indices, b.positions.len() as int, 2),
        texcoord_indices: seq![],
        normals: reordered(b.normals, b.normal_indices, b.indices, b.positions.len() as int, 3),
        normal_indices: seq![],
        ..b
    }
}

/// The mesh that per-attribute indexing of `faces` builds, with the
/// post-processing passes that the options ask for.
pub open spec fn multi_view(
    faces: Seq<Face>,
    pos: Seq<u32>,
    col: Seq<u32>,
    tex: Seq<u32>,
    nor: Seq<u32>,
    mat_id: Option<usize>,
    o: LoadOptions,
) -> MeshView {
    let b = multi_base(faces, pos, col, tex, nor, mat_id, o);
    let m = if o.merge_identical_points {
        merge_pass(b)
    } else {
        b
    };
    if o.reorder_data {
        reorder_pass(m)
    } else {
        m
    }
}

/// Every index array of a mesh names points of its buffer, and the texture
/// coordinate and normal indices run along the position indices.
pub open spec fn indexable(b: MeshView) -> bool {
    &&& b.positions.len() % 3 == 0
    &&& b.positions.len() / 3 <= u32::MAX
    &&& forall|i: int| 0 <= i < b.indices.len() ==> (#[trigger] b.indices[i] as int) < b.positions.len() / 3
    &&& b.normals.len() % 3 == 0
    &&& b.normals.len() / 3 <= u32::MAX
    &&& forall|i: int| 0 <= i < b.normal_indices.len() ==> (#[trigger] b.normal_indices[i] as int) < b.normals.len() / 3
    &&& b.normal_indices.len() > 0 ==> b.normal_indices.len() == b.indices.len()
    &&& b.texcoords.len() % 2 == 0
    &&& b.texcoords.len() / 2 <= u32::MAX
    &&& forall|i: int| 0 <= i < b.texcoord_indices.len() ==> (#[trigger] b.texcoord_indices[i] as int) < b.texcoords.len() / 2
    &&& b.texcoord_indices.len() > 0 ==> b.texcoord_indices.len() == b.indices.len()
}

proof fn lemma_channel_shape(
    data: Seq<u32>,
    idx: Seq<u32>,
    m: Map<usize, u32>,
    ks: Seq<Option<isize>>,
    buf: Seq<u32>,
    d: int,
)
    requires
        2 <= d <= 3,
        channel_state(data, idx, m, ks, buf, d),
        ks.len() <= u32::MAX,
    ensures
        data.len() as int % d == 0,
        data.len() as int / d == first_seen(effective(ks)).len(),
        data.len() as int / d <= u32::MAX,
        idx.len() == ks.len(),
        forall|i: int| 0 <= i < idx.len() ==> (#[trigger] idx[i] as int) < data.len() as int / d,
{
    let ek = effective(ks);
    lemma_effective_len(ks);
    lemma_dedup(ek);
    lemma_slots_u32(ek);
    let n = first_seen(ek).len();
    assert((d * n) % d == 0 && (d * n) / d == n) by (nonlinear_arith)
        requires
            2 <= d,
    ;
}

proof fn lemma_merge_pass_indexable(b: MeshView)
    requires
        indexable(b),
        b.vertex_color.len() > 0 ==> b.vertex_color.len() == b.positions.len(),
    ensures
        indexable(merge_pass(b)),
{
    lemma_merged_shape(b.positions, b.indices, 3);
    lemma_merged_shape(b.normals, b.normal_indices, 3);
    lemma_merged_shape(b.texcoords, b.texcoord_indices, 2);
    if b.vertex_color.len() > 0 {
        lemma_merged_shape(b.vertex_color, b.indices, 3);
    }
}

/// Exports faces to a mesh in which positions, texture coordinates and
/// normals each have indices of their own; afterwards merges identical
/// points and reorders data where the options ask for it. Fails as
/// `export_faces` does, channel by channel.
pub fn export_faces_multi_index(
    pos: &[u32],
    v_color: &[u32],
    texcoord: &[u32],
    normal: &[u32],
    faces: &[Face],
    mat_id: Option<usize>,
    load_options: &LoadOptions,
) -> (r: Result<Mesh, LoadError>)
    ensures
        r is Ok <==> multi_outcome(faces@, pos@, v_color@, texcoord@, normal@, *load_options) is None,
        r matches Err(e) ==> multi_outcome(faces@, pos@, v_color@, texcoord@, normal@, *load_options) == Some(e),
        r matches Ok(m) ==> m@ == multi_view(faces@, pos@, v_color@, texcoord@, normal@, mat_id, *load_options),
{
    let ex = expand_faces(faces, load_options);
    let ghost us = ex.uses@;
    if ex.uses.len() > u32::MAX as usize {
        return Err(LoadError::GenericFailure);
    }
    let mut mesh = Mesh {
        positions: Vec::new(),
        vertex_color: Vec::new(),
        normals: Vec::new(),
        texcoords: Vec::new(),
        indices: Vec::new(),
        face_arities: Vec::new(),
        vertex_color_indices: Vec::new(),
        texcoord_indices: Vec::new(),
        normal_indices: Vec::new(),
        material_id: mat_id,
    };
    let mut index_map = channel_map_new();
    let mut normal_index_map = channel_map_new();
    let mut texcoord_index_map = channel_map_new();
    let mut i: usize = 0;
    proof {
        let e = us.take(0);
        assert(e =~= Seq::<VertexIndices>::empty());
        assert(v_opts(e) =~= Seq::<Option<isize>>::empty());
        assert(vt_opts(e) =~= Seq::<Option<isize>>::empty());
        assert(vn_opts(e) =~= Seq::<Option<isize>>::empty());
        assert(mesh.indices@ =~= as_u32(slots(effective(v_opts(e)))));
        assert(mesh.texcoord_indices@ =~= as_u32(slots(effective(vt_opts(e)))));
        assert(mesh.normal_indices@ =~= as_u32(slots(effective(vn_opts(e)))));
    }
    while i < ex.uses.len()
        invariant
            us == ex.uses@,
            us == uses_of(accepted_faces(faces@, *load_options), *load_options),
            us.len() <= u32::MAX,
            i <= us.len(),
            multi_state(
                mesh,
                channel_slots(index_map),
                channel_slots(texcoord_index_map),
                channel_slots(normal_index_map),
                us.take(i as int),
                pos@,
                v_color@,
                texcoord@,
                normal@,
            ),
            mesh.face_arities@.len() == 0,
            mesh.vertex_color_indices@.len() == 0,
            mesh.material_id == mat_id,
        decreases us.len() - i,
    {
        let ghost prefix = us.take(i as int);
        assert(us.take(i + 1) =~= prefix.push(us[i as int]));
        match add_vertex_multi_index(
            &mut mesh,
            &mut index_map,
            &mut normal_index_map,
            &mut texcoord_index_map,
            &ex.uses[i],
            pos,
            v_color,
            texcoord,
            normal,
            Ghost(prefix),
        ) {
            Ok(()) => {},
            Err(e) => {
                proof {
                    let t = us.take(i + 1);
                    assert(t.drop_last() =~= prefix);
                    assert(multi_error(t, pos@, v_color@, texcoord@, normal@) == Some(e));
                    lemma_multi_error_prefix(us, i + 1, pos@, v_color@, texcoord@, normal@);
                }
                return Err(e);
            },
        }
        i = i + 1;
    }
    assert(us.take(i as int) =~= us);
    if !ex.complete {
        return Err(LoadError::InvalidPolygon);
    }
    if !ex.all_triangles {
        mesh.face_arities = ex.arities;
    }
    proof {
        lemma_effective_all_present(us);
        assert(ex.all_triangles ==> mesh.face_arities@ =~= Seq::<u32>::empty());
        assert(texcoord@.len() == 0 ==> mesh.texcoords@ =~= Seq::<u32>::empty());
        assert(texcoord@.len() == 0 ==> mesh.texcoord_indices@ =~= Seq::<u32>::empty());
        assert(normal@.len() == 0 ==> mesh.normals@ =~= Seq::<u32>::empty());
        assert(normal@.len() == 0 ==> mesh.normal_indices@ =~= Seq::<u32>::empty());
        assert(mesh.vertex_color_indices@ =~= Seq::<u32>::empty());
        assert(mesh@ == multi_base(faces@, pos@, v_color@, texcoord@, normal@, mat_id, *load_options));
        lemma_channel_shape(mesh.positions@, mesh.indices@, channel_slots(index_map), v_opts(us), pos@, 3);
        if texcoord@.len() > 0 {
            lemma_channel_shape(mesh.texcoords@, mesh.texcoord_indices@, channel_slots(texcoord_index_map), vt_opts(us), texcoord@, 2);
        }
        if normal@.len() > 0 {
            lemma_channel_shape(mesh.normals@, mesh.normal_indices@, channel_slots(normal_index_map), vn_opts(us), normal@, 3);
        }
        assert(indexable(mesh@));
        assert(mesh.vertex_color@.len() > 0 ==> mesh.vertex_color@.len() == mesh.positions@.len());
    }
    let ghost base = mesh@;
    if load_options.merge_identical_points {
        if mesh.vertex_color.len() > 0 {
            let vci = mesh.indices.clone();
            assert(vci@ =~= mesh.indices@);
            mesh.vertex_color_indices = vci;
            merge_identical_points::<3>(&mut mesh.vertex_color, &mut mesh.vertex_color_indices);
        }
        merge_identical_points::<3>(&mut mesh.positions, &mut mesh.indices);
        merge_identical_points::<3>(&mut mesh.normals, &mut mesh.normal_indices);
        merge_identical_points::<2>(&mut mesh.texcoords, &mut mesh.texcoord_indices);
        proof {
            lemma_merge_pass_indexable(base);
        }
        assert(mesh@ == merge_pass(base));
    }
    if load_options.reorder_data {
        let ghost before = mesh@;
        reorder_data(&mut mesh);
        assert(mesh.texcoord_indices@ =~= Seq::<u32>::empty());
        assert(mesh.normal_indices@ =~= Seq::<u32>::empty());
        assert(mesh@ == reorder_pass(before));
    }
    Ok(mesh)
}

} // verus!
