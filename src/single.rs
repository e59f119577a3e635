use vstd::prelude::*;

use ahash::AHashMap;

use crate::face::{
    accepted_faces, accepted_len, all_triangles, arities_of, expand_faces, uses_of, Face,
    VertexIndices,
};
use crate::maps::{vertex_map_get, vertex_map_insert, vertex_map_new, vertex_slots, VertexKey};
use crate::mesh::{
    as_u32, first_seen, gather, lemma_dedup, lemma_first_seen_prefix, lemma_gather_push,
    lemma_index_of_unique, point, push_point, slots, Mesh,
};
use crate::options::{LoadError, LoadOptions};

verus! {

/// Index `i` names a point of a flat buffer with `d` components per point.
pub open spec fn in_range(i: int, buf: Seq<u32>, d: int) -> bool {
    0 <= i < buf.len() as int / d
}

/// The error that a new vertex raises against the attribute buffers, if any:
/// its position first, then its texture coordinate and normal (where those
/// buffers are not empty), then its color (where colors are present).
pub open spec fn vertex_error(
    k: VertexIndices,
    pos: Seq<u32>,
    col: Seq<u32>,
    tex: Seq<u32>,
    nor: Seq<u32>,
) -> Option<LoadError> {
    if !in_range(k.v as int, pos, 3) {
        Some(LoadError::FaceVertexOutOfBounds)
    } else if tex.len() > 0 && k.vt is Some && !in_range(k.vt->Some_0 as int, tex, 2) {
        Some(LoadError::FaceTexCoordOutOfBounds)
    } else if nor.len() > 0 && k.vn is Some && !in_range(k.vn->Some_0 as int, nor, 3) {
        Some(LoadError::FaceNormalOutOfBounds)
    } else if col.len() > 0 && !in_range(k.v as int, col, 3) {
        Some(LoadError::FaceColorOutOfBounds)
    } else {
        None
    }
}

/// The error of the first vertex of `u` that raises one.
pub open spec fn first_vertex_error(
    u: Seq<VertexIndices>,
    pos: Seq<u32>,
    col: Seq<u32>,
    tex: Seq<u32>,
    nor: Seq<u32>,
) -> Option<LoadError>
    decreases u.len(),
{
    if u.len() == 0 {
        None
    } else {
        match first_vertex_error(u.drop_last(), pos, col, tex, nor) {
            Some(e) => Some(e),
            None => vertex_error(u.last(), pos, col, tex, nor),
        }
    }
}

/// The position a vertex carries.
pub open spec fn position_of(pos: Seq<u32>) -> spec_fn(VertexIndices) -> Seq<u32> {
    |k: VertexIndices| point(pos, k.v as int, 3)
}

/// The color a vertex carries, where colors are present.
pub open spec fn color_of(col: Seq<u32>) -> spec_fn(VertexIndices) -> Seq<u32> {
    |k: VertexIndices|
        if col.len() > 0 {
            point(col, k.v as int, 3)
        } else {
            seq![]
        }
}

/// The texture coordinate a vertex carries, where it names one and the
/// buffer is not empty.
pub open spec fn texcoord_of(tex: Seq<u32>) -> spec_fn(VertexIndices) -> Seq<u32> {
    |k: VertexIndices|
        if tex.len() > 0 && k.vt is Some {
            point(tex, k.vt->Some_0 as int, 2)
        } else {
            seq![]
        }
}

/// The normal a vertex carries, where it names one and the buffer is not
/// empty.
pub open spec fn normal_of(nor: Seq<u32>) -> spec_fn(VertexIndices) -> Seq<u32> {
    |k: VertexIndices|
        if nor.len() > 0 && k.vn is Some {
            point(nor, k.vn->Some_0 as int, 3)
        } else {
            seq![]
        }
}

/// The mesh after the vertex uses `s` have been added with a single index.
pub open spec fn single_state(
    mesh: Mesh,
    m: Map<VertexKey, u32>,
    s: Seq<VertexIndices>,
    pos: Seq<u32>,
    col: Seq<u32>,
    tex: Seq<u32>,
    nor: Seq<u32>,
) -> bool {
    let u = first_seen(s);
    &&& first_vertex_error(u, pos, col, tex, nor) is None
    &&& mesh.positions@ == gather(u, position_of(pos))
    &&& mesh.positions@.len() == 3 * u.len()
    &&& mesh.vertex_color@ == gather(u, color_of(col))
    &&& mesh.texcoords@ == gather(u, texcoord_of(tex))
    &&& mesh.normals@ == gather(u, normal_of(nor))
    &&& mesh.indices@ == as_u32(slots(s))
    &&& forall|j: int| 0 <= j < u.len() ==> #[trigger] m.contains_key(u[j].key()) && m[u[j].key()] == j as u32
    &&& forall|key: VertexKey| #[trigger] m.contains_key(key) ==> exists|j: int| 0 <= j < u.len() && u[j].key() == key
}

/// The slots of the distinct vertices `u` with one more vertex after them.
proof fn lemma_slots_extend(m: Map<VertexKey, u32>, u: Seq<VertexIndices>, vert: VertexIndices)
    requires
        forall|j: int| 0 <= j < u.len() ==> #[trigger] m.contains_key(u[j].key()) && m[u[j].key()] == j as u32,
        forall|key: VertexKey| #[trigger] m.contains_key(key) ==> exists|j: int| 0 <= j < u.len() && u[j].key() == key,
        !u.contains(vert),
        u.len() < u32::MAX,
    ensures
        ({
            let m2 = m.insert(vert.key(), u.len() as u32);
            let u2 = u.push(vert);
            &&& forall|j: int| 0 <= j < u2.len() ==> #[trigger] m2.contains_key(u2[j].key()) && m2[u2[j].key()] == j as u32
            &&& forall|key: VertexKey| #[trigger] m2.contains_key(key) ==> exists|j: int| 0 <= j < u2.len() && u2[j].key() == key
        }),
{
    let m2 = m.insert(vert.key(), u.len() as u32);
    let u2 = u.push(vert);
    assert forall|j: int| 0 <= j < u2.len() implies #[trigger] m2.contains_key(u2[j].key()) && m2[u2[j].key()] == j as u32 by {
        if j < u.len() {
            assert(u2[j] == u[j]);
            if u[j].key() == vert.key() {
                assert(u[j] == vert);
                assert(u.contains(vert));
            }
        }
    }
    assert forall|key: VertexKey| #[trigger] m2.contains_key(key) implies exists|j: int| 0 <= j < u2.len() && u2[j].key() == key by {
        if key == vert.key() {
            assert(u2[u.len() as int].key() == key);
        } else {
            let j = choose|j: int| 0 <= j < u.len() && u[j].key() == key;
            assert(u2[j].key() == key);
        }
    }
}

/// Adds a vertex use: reuses the index of an identical earlier vertex (the
/// buffers and the map stay as they are), or appends the vertex's attributes
/// and gives it the next index.
fn add_vertex(
    mesh: &mut Mesh,
    index_map: &mut AHashMap<VertexKey, u32>,
    vert: &VertexIndices,
    pos: &[u32],
    v_color: &[u32],
    texcoord: &[u32],
    normal: &[u32],
    Ghost(s): Ghost<Seq<VertexIndices>>,
) -> (r: Result<(), LoadError>)
    requires
        single_state(*old(mesh), vertex_slots(*old(index_map)), s, pos@, v_color@, texcoord@, normal@),
        s.len() < u32::MAX,
    ensures
        r is Ok ==> single_state(*final(mesh), vertex_slots(*final(index_map)), s.push(*vert), pos@, v_color@, texcoord@, normal@),
        r matches Err(e) ==> first_vertex_error(first_seen(s.push(*vert)), pos@, v_color@, texcoord@, normal@) == Some(e),
        r is Err ==> vertex_slots(*final(index_map)) == vertex_slots(*old(index_map))
            && final(mesh).indices == old(mesh).indices,
        vertex_slots(*old(index_map)).contains_key(vert.key()) ==> {
            &&& r is Ok
            &&& final(mesh).indices@ == old(mesh).indices@.push(vertex_slots(*old(index_map))[vert.key()])
            &&& final(mesh).positions == old(mesh).positions
            &&& final(mesh).texcoords == old(mesh).texcoords
            &&& final(mesh).normals == old(mesh).normals
            &&& final(mesh).vertex_color == old(mesh).vertex_color
            &&& vertex_slots(*final(index_map)) == vertex_slots(*old(index_map))
        },
        final(mesh).face_arities == old(mesh).face_arities,
        final(mesh).texcoord_indices == old(mesh).texcoord_indices,
        final(mesh).normal_indices == old(mesh).normal_indices,
        final(mesh).vertex_color_indices == old(mesh).vertex_color_indices,
        final(mesh).material_id == old(mesh).material_id,
{
    let ghost u = first_seen(s);
    let ghost t = s.push(*vert);
    proof {
        lemma_dedup(s);
        assert(t.drop_last() =~= s);
    }
    let key: VertexKey = (vert.v, vert.vt, vert.vn);
    match vertex_map_get(index_map, &key) {
        Some(i) => {
            mesh.indices.push(i);
            proof {
                let j = choose|j: int| 0 <= j < u.len() && u[j].key() == key;
                assert(u[j] == *vert);
                lemma_index_of_unique(u, j);
                assert(first_seen(t) == u);
                assert(mesh.indices@ =~= as_u32(slots(t)));
                assert(single_state(*mesh, vertex_slots(*index_map), t, pos@, v_color@, texcoord@, normal@));
            }
            Ok(())
        },
        None => {
            proof {
                if u.contains(*vert) {
                    let j = choose|j: int| 0 <= j < u.len() && u[j] == *vert;
                    assert(vertex_slots(*index_map).contains_key(u[j].key()));
                }
                assert(first_seen(t) == u.push(*vert));
                assert(u.push(*vert).drop_last() =~= u);
            }
            let v = vert.v;
            if v < 0 || v as usize >= pos.len() / 3 {
                return Err(LoadError::FaceVertexOutOfBounds);
            }
            let v = v as usize;
            assert(mesh.positions@.len() / 3 == u.len());
            let next = (mesh.positions.len() / 3) as u32;
            push_point(&mut mesh.positions, pos, v, 3);
            if texcoord.len() > 0 {
                if let Some(vt) = vert.vt {
                    if vt < 0 || vt as usize >= texcoord.len() / 2 {
                        return Err(LoadError::FaceTexCoordOutOfBounds);
                    }
                    let vt = vt as usize;
                    push_point(&mut mesh.texcoords, texcoord, vt, 2);
                }
            }
            if normal.len() > 0 {
                if let Some(vn) = vert.vn {
                    if vn < 0 || vn as usize >= normal.len() / 3 {
                        return Err(LoadError::FaceNormalOutOfBounds);
                    }
                    let vn = vn as usize;
                    push_point(&mut mesh.normals, normal, vn, 3);
                }
            }
            if v_color.len() > 0 {
                if v >= v_color.len() / 3 {
                    return Err(LoadError::FaceColorOutOfBounds);
                }
                push_point(&mut mesh.vertex_color, v_color, v, 3);
            }
            mesh.indices.push(next);
            vertex_map_insert(index_map, key, next);
            proof {
                lemma_gather_push(u, *vert, position_of(pos@));
                lemma_gather_push(u, *vert, texcoord_of(texcoord@));
                lemma_gather_push(u, *vert, normal_of(normal@));
                lemma_gather_push(u, *vert, color_of(v_color@));
                assert(mesh.texcoords@ =~= gather(u.push(*vert), texcoord_of(texcoord@)));
                assert(mesh.normals@ =~= gather(u.push(*vert), normal_of(normal@)));
                assert(mesh.vertex_color@ =~= gather(u.push(*vert), color_of(v_color@)));
                assert(mesh.indices@ =~= as_u32(slots(t)));
                lemma_slots_extend(vertex_slots(*old(index_map)), u, *vert);
            }
            Ok(())
        },
    }
}


/// A first error among the leading vertices is the first error of all.
pub proof fn lemma_first_vertex_error_prefix(
    u: Seq<VertexIndices>,
    m: int,
    pos: Seq<u32>,
    col: Seq<u32>,
    tex: Seq<u32>,
    nor: Seq<u32>,
)
    requires
        0 <= m <= u.len(),
        first_vertex_error(u.take(m), pos, col, tex, nor) is Some,
    ensures
        first_vertex_error(u, pos, col, tex, nor) == first_vertex_error(u.take(m), pos, col, tex, nor),
    decreases u.len(),
{
    if m == u.len() {
        assert(u.take(m) =~= u);
    } else {
        assert(u.drop_last().take(m) =~= u.take(m));
        lemma_first_vertex_error_prefix(u.drop_last(), m, pos, col, tex, nor);
    }
}

/// What exporting `faces` with a single index fails with, if anything.
pub open spec fn single_outcome(
    faces: Seq<Face>,
    pos: Seq<u32>,
    col: Seq<u32>,
    tex: Seq<u32>,
    nor: Seq<u32>,
    o: LoadOptions,
) -> Option<LoadError> {
    let us = uses_of(accepted_faces(faces, o), o);
    if us.len() > u32::MAX {
        Some(LoadError::GenericFailure)
    } else {
        match first_vertex_error(first_seen(us), pos, col, tex, nor) {
            Some(e) => Some(e),
            None => if accepted_len(faces, o) < faces.len() {
                Some(LoadError::InvalidPolygon)
            } else {
                None
            },
        }
    }
}

/// `m` is the mesh that exporting `faces` with a single index builds.
pub open spec fn single_mesh(
    m: Mesh,
    faces: Seq<Face>,
    pos: Seq<u32>,
    col: Seq<u32>,
    tex: Seq<u32>,
    nor: Seq<u32>,
    mat_id: Option<usize>,
    o: LoadOptions,
) -> bool {
    let acc = accepted_faces(faces, o);
    let us = uses_of(acc, o);
    let u = first_seen(us);
    &&& m.positions@ == gather(u, position_of(pos))
    &&& m.vertex_color@ == gather(u, color_of(col))
    &&& m.texcoords@ == gather(u, texcoord_of(tex))
    &&& m.normals@ == gather(u, normal_of(nor))
    &&& m.indices@ == as_u32(slots(us))
    &&& m.face_arities@ == (if all_triangles(acc, o) {
        Seq::<u32>::empty()
    } else {
        arities_of(acc, o)
    })
    &&& m.vertex_color_indices@.len() == 0
    &&& m.texcoord_indices@.len() == 0
    &&& m.normal_indices@.len() == 0
    &&& m.material_id == mat_id
}

/// Exports faces to a mesh with one index shared by all attributes.
///
/// Each distinct vertex (position, texture coordinate and normal index
/// together) is stored once, in order of first use; faces are triangulated
/// when the options ask for it. Fails with the error of the first new vertex
/// whose index lies outside its buffer, with `InvalidPolygon` at a polygon
/// that cannot be triangulated, and with `GenericFailure` where the vertex
/// uses do not fit 32-bit indices.
pub fn export_faces(
    pos: &[u32],
    v_color: &[u32],
    texcoord: &[u32],
    normal: &[u32],
    faces: &[Face],
    mat_id: Option<usize>,
    load_options: &LoadOptions,
) -> (r: Result<Mesh, LoadError>)
    ensures
        r is Ok <==> single_outcome(faces@, pos@, v_color@, texcoord@, normal@, *load_options) is None,
        r matches Err(e) ==> single_outcome(faces@, pos@, v_color@, texcoord@, normal@, *load_options) == Some(e),
        r matches Ok(m) ==> single_mesh(m, faces@, pos@, v_color@, texcoord@, normal@, mat_id, *load_options),
{
    let ex = expand_faces(faces, load_options);
    let ghost us = ex.uses@;
    if ex.uses.len() > u32::MAX as usize {
        return Err(LoadError::GenericFailure);
    }
    let mut mesh = Mesh {
        positions: Vec::new(),
        vertex_color: Vec::new(),
        normals: Vec::new(),
        texcoords: Vec::new(),
        indices: Vec::new(),
        face_arities: Vec::new(),
        vertex_color_indices: Vec::new(),
        texcoord_indices: Vec::new(),
        normal_indices: Vec::new(),
        material_id: mat_id,
    };
    let mut index_map = vertex_map_new();
    let mut i: usize = 0;
    proof {
        assert(us.take(0) =~= Seq::<VertexIndices>::empty());
        assert(mesh.indices@ =~= as_u32(slots(us.take(0))));
    }
    while i < ex.uses.len()
        invariant
            us == ex.uses@,
            us == uses_of(accepted_faces(faces@, *load_options), *load_options),
            us.len() <= u32::MAX,
            i <= us.len(),
            single_state(mesh, vertex_slots(index_map), us.take(i as int), pos@, v_color@, texcoord@, normal@),
            mesh.face_arities@.len() == 0,
            mesh.vertex_color_indices@.len() == 0,
            mesh.texcoord_indices@.len() == 0,
            mesh.normal_indices@.len() == 0,
            mesh.material_id == mat_id,
        decreases us.len() - i,
    {
        let ghost prefix = us.take(i as int);
        assert(us.take(i + 1) =~= prefix.push(us[i as int]));
        match add_vertex(&mut mesh, &mut index_map, &ex.uses[i], pos, v_color, texcoord, normal, Ghost(prefix)) {
            Ok(()) => {},
            Err(e) => {
                proof {
                    lemma_first_seen_prefix(us, i + 1);
                    let a = first_seen(us.take(i + 1));
                    assert(first_vertex_error(a, pos@, v_color@, texcoord@, normal@) == Some(e));
                    assert(first_seen(us).take(a.len() as int) == a);
                    lemma_first_vertex_error_prefix(first_seen(us), a.len() as int, pos@, v_color@, texcoord@, normal@);
                    assert(first_vertex_error(first_seen(us), pos@, v_color@, texcoord@, normal@) == Some(e));
                }
                return Err(e);
            },
        }
        i = i + 1;
    }
    assert(us.take(i as int) =~= us);
    if !ex.complete {
        return Err(LoadError::InvalidPolygon);
    }
    if !ex.all_triangles {
        mesh.face_arities = ex.arities;
    }
    assert(ex.all_triangles ==> mesh.face_arities@ =~= Seq::<u32>::empty());
    Ok(mesh)
}

} // verus!
