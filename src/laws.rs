//! Properties that relate the library's functions to one another.

use vstd::prelude::*;

use crate::face::{
    accepted_faces, all_triangles, arities_of, digits_value, face_arity, face_not_triangle,
    face_rejected, face_uses, isize_token, parse_vertex, split_on, token_vertices, uses_of, Face,
    VertexIndices,
};
use crate::merge::{chunks, lemma_chunks_of_gather, merged_indices, merged_points, whole};
use crate::mesh::{
    as_u32, first_seen, lemma_dedup, lemma_first_seen_prefix, lemma_gather_len,
    lemma_index_of_unique, lemma_slots_u32, point, slots, Mesh,
};
use crate::multi::{
    channel_fails, effective, lemma_effective_all_present, lemma_multi_error_prefix, multi_error,
    multi_base, multi_outcome, multi_view, point_at, use_error, v_keys, v_opts, vn_opts, vt_opts,
};
use crate::options::{LoadError, LoadOptions};
use crate::single::{
    first_vertex_error, in_range, lemma_first_vertex_error_prefix, position_of, single_mesh,
    single_outcome, vertex_error,
};

verus! {

/// Slots of distinct elements count up from zero.
pub proof fn lemma_dedup_distinct<K>(s: Seq<K>)
    requires
        s.no_duplicates(),
    ensures
        first_seen(s) == s,
        slots(s) == Seq::new(s.len(), |i: int| i),
    decreases s.len(),
{
    if s.len() > 0 {
        let d = s.drop_last();
        assert(d.no_duplicates());
        lemma_dedup_distinct(d);
        assert(!d.contains(s.last()));
        assert(s =~= d.push(s.last()));
        assert(slots(s) =~= Seq::new(s.len(), |i: int| i));
    }
}

/// Feeding the same vertex twice in a row stores it once: the second use
/// adds no element and takes the slot of the first.
pub proof fn law_dedup_idempotent<K>(s: Seq<K>, k: K)
    ensures
        first_seen(s.push(k).push(k)) == first_seen(s.push(k)),
        slots(s.push(k).push(k)).last() == slots(s.push(k)).last(),
        slots(s.push(k).push(k)).drop_last() == slots(s.push(k)),
{
    let t = s.push(k);
    let t2 = t.push(k);
    assert(t2.drop_last() =~= t);
    assert(t.drop_last() =~= s);
    lemma_dedup(t);
    let u = first_seen(t);
    let j = slots(t)[t.len() - 1];
    assert(u[j] == k);
    lemma_index_of_unique(u, j);
}

/// Merging makes indices of bit-identical points equal, and keeps each
/// distinct point exactly once: the merged buffer holds no point twice, and
/// each index names the point it named before.
pub proof fn law_merge_identical(points: Seq<u32>, indices: Seq<u32>, d: int, i: int, j: int)
    requires
        1 <= d,
        points.len() as int % d == 0,
        points.len() as int / d <= u32::MAX,
        0 <= i < indices.len(),
        0 <= j < indices.len(),
        (indices[i] as int) < points.len() as int / d,
        (indices[j] as int) < points.len() as int / d,
        chunks(points, d)[indices[i] as int] == chunks(points, d)[indices[j] as int],
    ensures
        merged_indices(points, indices, d)[i] == merged_indices(points, indices, d)[j],
        chunks(merged_points(points, indices, d), d).no_duplicates(),
        chunks(merged_points(points, indices, d), d)[merged_indices(points, indices, d)[i] as int]
            == chunks(points, d)[indices[i] as int],
{
    let cs = chunks(points, d);
    lemma_dedup(cs);
    let u0 = first_seen(cs);
    assert forall|w: int| 0 <= w < u0.len() implies (#[trigger] u0[w]).len() == d by {
        let z = choose|z: int| 0 <= z < cs.len() && cs[z] == u0[w];
        assert(d * z + d <= points.len()) by (nonlinear_arith)
            requires
                0 <= z < points.len() as int / d,
                1 <= d,
        ;
    }
    lemma_chunks_of_gather(u0, whole(), d);
    assert(Seq::new(u0.len(), |w: int| whole()(u0[w])) =~= u0);
    assert(0 <= slots(cs)[indices[i] as int] < u0.len());
    let a = indices[i] as int;
    let b = indices[j] as int;
    let u = first_seen(cs);
    lemma_index_of_unique(u, slots(cs)[a]);
    lemma_index_of_unique(u, slots(cs)[b]);
}


/// One face that can be exported is all the accepted faces there are.
proof fn lemma_one_face(f: Face, o: LoadOptions)
    requires
        !face_rejected(f, o),
    ensures
        accepted_faces(seq![f], o) == seq![f],
        uses_of(seq![f], o) == face_uses(f, o),
        arities_of(seq![f], o) == face_arity(f, o),
        all_triangles(seq![f], o) == !face_not_triangle(f, o),
{
    let fs = seq![f];
    assert(fs.drop_last() =~= Seq::<Face>::empty());
    assert(fs.take(1) =~= fs);
    assert(fs.last() == f);
    assert(uses_of(fs.drop_last(), o) == Seq::<VertexIndices>::empty());
    assert(uses_of(fs, o) =~= face_uses(f, o));
    assert(arities_of(fs.drop_last(), o) == Seq::<u32>::empty());
    assert(arities_of(fs, o) =~= face_arity(f, o));
    if face_not_triangle(f, o) {
        assert(face_not_triangle(fs[0], o));
    }
}

proof fn lemma_slots_three<K>(x0: K, x1: K, x2: K)
    requires
        x0 != x1,
        x0 != x2,
        x1 != x2,
    ensures
        first_seen(seq![x0, x1, x2]) == seq![x0, x1, x2],
        slots(seq![x0, x1, x2]) == seq![0int, 1, 2],
{
    let s = seq![x0, x1, x2];
    assert(s.no_duplicates());
    lemma_dedup_distinct(s);
    assert(slots(s) =~= seq![0int, 1, 2]);
}

proof fn lemma_slots_four<K>(x0: K, x1: K, x2: K, x3: K)
    requires
        seq![x0, x1, x2, x3].no_duplicates(),
    ensures
        first_seen(seq![x0, x1, x2, x3]) == seq![x0, x1, x2, x3],
        slots(seq![x0, x1, x2, x3]) == seq![0int, 1, 2, 3],
{
    let s = seq![x0, x1, x2, x3];
    lemma_dedup_distinct(s);
    assert(slots(s) =~= seq![0int, 1, 2, 3]);
}

proof fn lemma_slots_split_quad<K>(x0: K, x1: K, x2: K, x3: K)
    requires
        seq![x0, x1, x2, x3].no_duplicates(),
    ensures
        first_seen(seq![x0, x1, x2, x0, x2, x3]) == seq![x0, x1, x2, x3],
        slots(seq![x0, x1, x2, x0, x2, x3]) == seq![0int, 1, 2, 0, 2, 3],
{
    let q = seq![x0, x1, x2, x3];
    assert(q[0] != q[1] && q[0] != q[2] && q[0] != q[3] && q[1] != q[2] && q[1] != q[3] && q[2] != q[3]);
    let s3 = seq![x0, x1, x2];
    let s4 = seq![x0, x1, x2, x0];
    let s5 = seq![x0, x1, x2, x0, x2];
    let s6 = seq![x0, x1, x2, x0, x2, x3];
    lemma_slots_three(x0, x1, x2);
    assert(s4.drop_last() =~= s3);
    assert(s5.drop_last() =~= s4);
    assert(s6.drop_last() =~= s5);
    assert(s3.no_duplicates());
    lemma_index_of_unique(s3, 0);
    lemma_index_of_unique(s3, 2);
    assert(s3[0] == x0 && s3[2] == x2);
    assert(first_seen(s4) == s3);
    assert(slots(s4) =~= seq![0int, 1, 2, 0]);
    assert(first_seen(s5) == s3);
    assert(slots(s5) =~= seq![0int, 1, 2, 0, 2]);
    assert(!s3.contains(x3));
    assert(first_seen(s6) =~= q);
    assert(slots(s6) =~= seq![0int, 1, 2, 0, 2, 3]);
}

/// Index arrays as stored.
proof fn lemma_as_u32_small(ix: Seq<int>, expect: Seq<u32>)
    requires
        ix.len() == expect.len(),
        forall|i: int| 0 <= i < ix.len() ==> ix[i] == expect[i] as int,
    ensures
        as_u32(ix) == expect,
{
    assert(as_u32(ix) =~= expect);
}

/// With a single index, a triangle of three different positions gives
/// three positions (nine components) and the indices `[0, 1, 2]`.
pub proof fn law_single_triangle(
    m: Mesh,
    a: VertexIndices,
    b: VertexIndices,
    c: VertexIndices,
    pos: Seq<u32>,
    col: Seq<u32>,
    tex: Seq<u32>,
    nor: Seq<u32>,
    mat_id: Option<usize>,
    o: LoadOptions,
)
    requires
        a.v != b.v,
        a.v != c.v,
        b.v != c.v,
        single_outcome(seq![Face::Triangle(a, b, c)], pos, col, tex, nor, o) is None,
        single_mesh(m, seq![Face::Triangle(a, b, c)], pos, col, tex, nor, mat_id, o),
    ensures
        m.positions@.len() == 9,
        m.indices@ == seq![0u32, 1, 2],
{
    let f = Face::Triangle(a, b, c);
    lemma_one_face(f, o);
    let us = seq![a, b, c];
    assert(face_uses(f, o) == us);
    lemma_slots_three(a, b, c);
    lemma_as_u32_small(slots(us), seq![0u32, 1, 2]);
    let s1 = seq![a];
    let s2 = seq![a, b];
    assert(s2.drop_last() =~= s1);
    assert(us.drop_last() =~= s2);
    assert(s1.drop_last() =~= Seq::<VertexIndices>::empty());
    assert(first_vertex_error(us, pos, col, tex, nor) is None);
    assert(first_vertex_error(s2, pos, col, tex, nor) is None);
    assert(first_vertex_error(s1, pos, col, tex, nor) is None);
    assert(vertex_error(a, pos, col, tex, nor) is None);
    assert(vertex_error(b, pos, col, tex, nor) is None);
    assert(vertex_error(c, pos, col, tex, nor) is None);
    assert forall|j: int| 0 <= j < us.len() implies (#[trigger] position_of(pos)(us[j])).len() == 3 by {
        assert(in_range(us[j].v as int, pos, 3));
    }
    lemma_gather_len(us, position_of(pos), 3);
}

/// With a single index, a quad of four different vertices triangulates to
/// the indices `[0, 1, 2, 0, 2, 3]` and records no arity.
pub proof fn law_single_quad_triangulated(
    m: Mesh,
    a: VertexIndices,
    b: VertexIndices,
    c: VertexIndices,
    d: VertexIndices,
    pos: Seq<u32>,
    col: Seq<u32>,
    tex: Seq<u32>,
    nor: Seq<u32>,
    mat_id: Option<usize>,
    o: LoadOptions,
)
    requires
        o.triangulate,
        seq![a, b, c, d].no_duplicates(),
        single_outcome(seq![Face::Quad(a, b, c, d)], pos, col, tex, nor, o) is None,
        single_mesh(m, seq![Face::Quad(a, b, c, d)], pos, col, tex, nor, mat_id, o),
    ensures
        m.indices@ == seq![0u32, 1, 2, 0, 2, 3],
        m.face_arities@.len() == 0,
{
    let f = Face::Quad(a, b, c, d);
    lemma_one_face(f, o);
    let us = seq![a, b, c, a, c, d];
    assert(face_uses(f, o) == us);
    lemma_slots_split_quad(a, b, c, d);
    lemma_as_u32_small(slots(us), seq![0u32, 1, 2, 0, 2, 3]);
}

/// With a single index, a quad kept whole records the arity `[4]` and
/// indexes its four different vertices in order.
pub proof fn law_single_quad_kept(
    m: Mesh,
    a: VertexIndices,
    b: VertexIndices,
    c: VertexIndices,
    d: VertexIndices,
    pos: Seq<u32>,
    col: Seq<u32>,
    tex: Seq<u32>,
    nor: Seq<u32>,
    mat_id: Option<usize>,
    o: LoadOptions,
)
    requires
        !o.triangulate,
        seq![a, b, c, d].no_duplicates(),
        single_outcome(seq![Face::Quad(a, b, c, d)], pos, col, tex, nor, o) is None,
        single_mesh(m, seq![Face::Quad(a, b, c, d)], pos, col, tex, nor, mat_id, o),
    ensures
        m.indices@ == seq![0u32, 1, 2, 3],
        m.face_arities@ == seq![4u32],
{
    let f = Face::Quad(a, b, c, d);
    lemma_one_face(f, o);
    let us = seq![a, b, c, d];
    assert(face_uses(f, o) == us);
    lemma_slots_four(a, b, c, d);
    lemma_as_u32_small(slots(us), seq![0u32, 1, 2, 3]);
}


/// With per-attribute indices, a triangle of three different positions
/// gives three positions (nine components) and the indices `[0, 1, 2]`,
/// unless identical points are merged.
pub proof fn law_multi_triangle(
    m: Mesh,
    a: VertexIndices,
    b: VertexIndices,
    c: VertexIndices,
    pos: Seq<u32>,
    col: Seq<u32>,
    tex: Seq<u32>,
    nor: Seq<u32>,
    mat_id: Option<usize>,
    o: LoadOptions,
)
    requires
        !o.merge_identical_points,
        a.v != b.v,
        a.v != c.v,
        b.v != c.v,
        multi_outcome(seq![Face::Triangle(a, b, c)], pos, col, tex, nor, o) is None,
        m@ == multi_view(seq![Face::Triangle(a, b, c)], pos, col, tex, nor, mat_id, o),
    ensures
        m.positions@.len() == 9,
        m.indices@ == seq![0u32, 1, 2],
{
    let f = Face::Triangle(a, b, c);
    lemma_one_face(f, o);
    let us = seq![a, b, c];
    assert(face_uses(f, o) == us);
    let s1 = seq![a];
    let s2 = seq![a, b];
    assert(s2.drop_last() =~= s1);
    assert(us.drop_last() =~= s2);
    assert(s1.drop_last() =~= Seq::<VertexIndices>::empty());
    assert(v_keys(us) =~= seq![a.v, b.v, c.v]);
    assert(v_keys(s2) =~= seq![a.v, b.v]);
    assert(v_keys(s1) =~= seq![a.v]);
    lemma_slots_three(a.v, b.v, c.v);
    lemma_as_u32_small(slots(v_keys(us)), seq![0u32, 1, 2]);
    assert(multi_error(us, pos, col, tex, nor) is None);
    assert(multi_error(s2, pos, col, tex, nor) is None);
    assert(multi_error(s1, pos, col, tex, nor) is None);
    lemma_effective_all_present(s1);
    lemma_effective_all_present(s2);
    lemma_effective_all_present(us);
    assert(!channel_fails(v_opts(s1), pos, 3));
    assert(!channel_fails(v_opts(s2), pos, 3));
    assert(!channel_fails(v_opts(us), pos, 3));
    assert(seq![a.v, b.v].drop_last() =~= seq![a.v]);
    assert(seq![a.v, b.v, c.v].drop_last() =~= seq![a.v, b.v]);
    assert(seq![a.v].drop_last() =~= Seq::<isize>::empty());
    let vs = seq![a.v, b.v, c.v];
    assert forall|j: int| 0 <= j < vs.len() implies (#[trigger] point_at(pos, 3)(vs[j])).len() == 3 by {
        assert(in_range(vs[j] as int, pos, 3));
    }
    lemma_gather_len(vs, point_at(pos, 3), 3);
}

/// With per-attribute indices and no merging, a quad of four different
/// positions triangulates to the indices `[0, 1, 2, 0, 2, 3]` and records
/// no arity.
pub proof fn law_multi_quad_triangulated(
    m: Mesh,
    a: VertexIndices,
    b: VertexIndices,
    c: VertexIndices,
    d: VertexIndices,
    pos: Seq<u32>,
    col: Seq<u32>,
    tex: Seq<u32>,
    nor: Seq<u32>,
    mat_id: Option<usize>,
    o: LoadOptions,
)
    requires
        o.triangulate,
        !o.merge_identical_points,
        seq![a.v, b.v, c.v, d.v].no_duplicates(),
        multi_outcome(seq![Face::Quad(a, b, c, d)], pos, col, tex, nor, o) is None,
        m@ == multi_view(seq![Face::Quad(a, b, c, d)], pos, col, tex, nor, mat_id, o),
    ensures
        m.indices@ == seq![0u32, 1, 2, 0, 2, 3],
        m.face_arities@.len() == 0,
{
    let f = Face::Quad(a, b, c, d);
    lemma_one_face(f, o);
    let us = seq![a, b, c, a, c, d];
    assert(face_uses(f, o) == us);
    assert(v_keys(us) =~= seq![a.v, b.v, c.v, a.v, c.v, d.v]);
    lemma_slots_split_quad(a.v, b.v, c.v, d.v);
    lemma_as_u32_small(slots(v_keys(us)), seq![0u32, 1, 2, 0, 2, 3]);
}

/// With per-attribute indices and no merging, a quad kept whole records the
/// arity `[4]` and indexes its four different positions in order.
pub proof fn law_multi_quad_kept(
    m: Mesh,
    a: VertexIndices,
    b: VertexIndices,
    c: VertexIndices,
    d: VertexIndices,
    pos: Seq<u32>,
    col: Seq<u32>,
    tex: Seq<u32>,
    nor: Seq<u32>,
    mat_id: Option<usize>,
    o: LoadOptions,
)
    requires
        !o.triangulate,
        !o.merge_identical_points,
        seq![a.v, b.v, c.v, d.v].no_duplicates(),
        multi_outcome(seq![Face::Quad(a, b, c, d)], pos, col, tex, nor, o) is None,
        m@ == multi_view(seq![Face::Quad(a, b, c, d)], pos, col, tex, nor, mat_id, o),
    ensures
        m.indices@ == seq![0u32, 1, 2, 3],
        m.face_arities@ == seq![4u32],
{
    let f = Face::Quad(a, b, c, d);
    lemma_one_face(f, o);
    let us = seq![a, b, c, d];
    assert(face_uses(f, o) == us);
    assert(v_keys(us) =~= seq![a.v, b.v, c.v, d.v]);
    lemma_slots_four(a.v, b.v, c.v, d.v);
    lemma_as_u32_small(slots(v_keys(us)), seq![0u32, 1, 2, 3]);
}


/// With a single index, an out-of-range index of the first vertex use fails
/// the export with the error of its channel: the position first, then the
/// texture coordinate and the normal (where their buffers are not empty),
/// then the color (where colors are present).
pub proof fn law_single_out_of_bounds(
    faces: Seq<Face>,
    pos: Seq<u32>,
    col: Seq<u32>,
    tex: Seq<u32>,
    nor: Seq<u32>,
    o: LoadOptions,
)
    requires
        uses_of(accepted_faces(faces, o), o).len() > 0,
        uses_of(accepted_faces(faces, o), o).len() <= u32::MAX,
    ensures
        ({
            let k = uses_of(accepted_faces(faces, o), o)[0];
            let r = single_outcome(faces, pos, col, tex, nor, o);
            &&& !in_range(k.v as int, pos, 3) ==> r == Some(LoadError::FaceVertexOutOfBounds)
            &&& in_range(k.v as int, pos, 3) && tex.len() > 0 && k.vt is Some
                && !in_range(k.vt->Some_0 as int, tex, 2) ==> r == Some(LoadError::FaceTexCoordOutOfBounds)
            &&& in_range(k.v as int, pos, 3) && !(tex.len() > 0 && k.vt is Some && !in_range(k.vt->Some_0 as int, tex, 2))
                && nor.len() > 0 && k.vn is Some && !in_range(k.vn->Some_0 as int, nor, 3)
                ==> r == Some(LoadError::FaceNormalOutOfBounds)
            &&& vertex_error(k, pos, col, tex, nor) == Some(LoadError::FaceColorOutOfBounds)
                ==> r == Some(LoadError::FaceColorOutOfBounds)
        }),
{
    let us = uses_of(accepted_faces(faces, o), o);
    let k = us[0];
    lemma_first_seen_prefix(us, 1);
    assert(us.take(1) =~= seq![k]);
    assert(seq![k].drop_last() =~= Seq::<VertexIndices>::empty());
    let u = first_seen(us);
    assert(seq![k].no_duplicates());
    lemma_dedup_distinct(seq![k]);
    assert(u.take(1) == seq![k]);
    assert(seq![k].last() == k);
    assert(first_vertex_error(Seq::<VertexIndices>::empty(), pos, col, tex, nor) is None);
    assert(first_vertex_error(seq![k], pos, col, tex, nor) == vertex_error(k, pos, col, tex, nor));
    if vertex_error(k, pos, col, tex, nor) is Some {
        lemma_first_vertex_error_prefix(u, 1, pos, col, tex, nor);
    }
}

/// With per-attribute indices, an out-of-range index of the first vertex
/// use fails the export with the error of its channel: the position first,
/// then its color (where colors are present), then the texture coordinate
/// and the normal (where their buffers are not empty).
pub proof fn law_multi_out_of_bounds(
    faces: Seq<Face>,
    pos: Seq<u32>,
    col: Seq<u32>,
    tex: Seq<u32>,
    nor: Seq<u32>,
    o: LoadOptions,
)
    requires
        uses_of(accepted_faces(faces, o), o).len() > 0,
        uses_of(accepted_faces(faces, o), o).len() <= u32::MAX,
    ensures
        ({
            let k = uses_of(accepted_faces(faces, o), o)[0];
            let r = multi_outcome(faces, pos, col, tex, nor, o);
            let color_ok = col.len() == 0 || in_range(k.v as int, col, 3);
            let tex_bad = tex.len() > 0 && k.vt is Some && !in_range(k.vt->Some_0 as int, tex, 2);
            &&& !in_range(k.v as int, pos, 3) ==> r == Some(LoadError::FaceVertexOutOfBounds)
            &&& in_range(k.v as int, pos, 3) && !color_ok ==> r == Some(LoadError::FaceColorOutOfBounds)
            &&& in_range(k.v as int, pos, 3) && color_ok && tex_bad ==> r == Some(LoadError::FaceTexCoordOutOfBounds)
            &&& in_range(k.v as int, pos, 3) && color_ok && !tex_bad && tex.len() != 1 && nor.len() > 0
                && k.vn is Some && !in_range(k.vn->Some_0 as int, nor, 3)
                ==> r == Some(LoadError::FaceNormalOutOfBounds)
        }),
{
    let us = uses_of(accepted_faces(faces, o), o);
    let k = us[0];
    let s1 = us.take(1);
    assert(s1 =~= seq![k]);
    assert(s1.drop_last() =~= Seq::<VertexIndices>::empty());
    assert(v_opts(s1) =~= seq![Some(k.v)]);
    assert(vt_opts(s1) =~= seq![k.vt]);
    assert(vn_opts(s1) =~= seq![k.vn]);
    assert(seq![Some(k.v)].drop_last() =~= Seq::<Option<isize>>::empty());
    assert(seq![k.vt].drop_last() =~= Seq::<Option<isize>>::empty());
    assert(seq![k.vn].drop_last() =~= Seq::<Option<isize>>::empty());
    assert(effective(Seq::<Option<isize>>::empty()) == Seq::<isize>::empty());
    assert(seq![Some(k.v)].last() == Some(k.v));
    assert(effective(v_opts(s1)) =~= seq![k.v]);
    assert(effective(v_opts(s1)).drop_last() =~= Seq::<isize>::empty());
    assert(effective(vt_opts(s1)).drop_last() =~= Seq::<isize>::empty());
    assert(effective(vn_opts(s1)).drop_last() =~= Seq::<isize>::empty());
    assert(multi_error(Seq::<VertexIndices>::empty(), pos, col, tex, nor) is None);
    assert(multi_error(s1, pos, col, tex, nor) == use_error(s1, pos, col, tex, nor));
    if use_error(s1, pos, col, tex, nor) is Some {
        lemma_multi_error_prefix(us, 1, pos, col, tex, nor);
    }
}

/// A position index of `-1`, met after `n` positions, names the last of
/// them.
pub proof fn law_relative_position(n: int, tex_sz: int, norm_sz: int)
    requires
        1 <= n <= isize::MAX,
    ensures
        parse_vertex("-1"@, n, tex_sz, norm_sz) == Some(
            VertexIndices { v: (n - 1) as isize, vt: None, vn: None },
        ),
{
    reveal_strlit("-1");
    let s = "-1"@;
    assert(s.len() == 2 && s[0] == '-' && s[1] == '1');
    assert(s.drop_last() =~= seq!['-']);
    assert(seq!['-'].drop_last() =~= Seq::<char>::empty());
    let segs = split_on(s, '/');
    assert(split_on(Seq::<char>::empty(), '/') == seq![Seq::<char>::empty()]);
    assert(seq!['-'].last() == '-');
    assert(Seq::<char>::empty().push('-') =~= seq!['-']);
    assert(split_on(seq!['-'], '/') =~= seq![seq!['-']]);
    assert(seq!['-'].push('1') =~= s);
    assert(segs =~= seq![s]);
    assert(s.drop_first() =~= seq!['1']);
    assert(seq!['1'].drop_last() =~= Seq::<char>::empty());
    assert(seq!['1'].last() == '1');
    assert(digits_value(Seq::<char>::empty()) == 0);
    assert('1' as int - '0' as int == 1);
    assert(digits_value(seq!['1']) == 1);
    assert(isize_token(s) == Some(-1int));
}


proof fn lemma_no_vertex_error(u: Seq<VertexIndices>, pos: Seq<u32>, col: Seq<u32>, tex: Seq<u32>, nor: Seq<u32>)
    requires
        forall|i: int| 0 <= i < u.len() ==> (#[trigger] vertex_error(u[i], pos, col, tex, nor)) is None,
    ensures
        first_vertex_error(u, pos, col, tex, nor) is None,
    decreases u.len(),
{
    if u.len() > 0 {
        let d = u.drop_last();
        assert forall|i: int| 0 <= i < d.len() implies (#[trigger] vertex_error(d[i], pos, col, tex, nor)) is None by {
            assert(d[i] == u[i]);
        }
        lemma_no_vertex_error(d, pos, col, tex, nor);
        assert(vertex_error(u[u.len() - 1], pos, col, tex, nor) is None);
    }
}

/// With a single index, the export fails with the error of the first vertex
/// use that has an index outside its buffer (position, then texture
/// coordinate and normal where their buffers are not empty, then color
/// where colors are present).
pub proof fn law_single_first_failing_use(
    faces: Seq<Face>,
    pos: Seq<u32>,
    col: Seq<u32>,
    tex: Seq<u32>,
    nor: Seq<u32>,
    o: LoadOptions,
    j: int,
)
    requires
        uses_of(accepted_faces(faces, o), o).len() <= u32::MAX,
        0 <= j < uses_of(accepted_faces(faces, o), o).len(),
        forall|i: int| 0 <= i < j ==> (#[trigger] vertex_error(uses_of(accepted_faces(faces, o), o)[i], pos, col, tex, nor)) is None,
        vertex_error(uses_of(accepted_faces(faces, o), o)[j], pos, col, tex, nor) is Some,
    ensures
        single_outcome(faces, pos, col, tex, nor, o) == vertex_error(uses_of(accepted_faces(faces, o), o)[j], pos, col, tex, nor),
{
    let us = uses_of(accepted_faces(faces, o), o);
    let k = us[j];
    let p = us.take(j);
    let t = us.take(j + 1);
    assert(t.drop_last() =~= p);
    assert(t.last() == k);
    lemma_dedup(p);
    let u = first_seen(p);
    assert forall|i: int| 0 <= i < u.len() implies (#[trigger] vertex_error(u[i], pos, col, tex, nor)) is None by {
        let w = choose|w: int| 0 <= w < p.len() && p[w] == u[i];
        assert(p[w] == us[w]);
    }
    lemma_no_vertex_error(u, pos, col, tex, nor);
    if u.contains(k) {
        let i = choose|i: int| 0 <= i < u.len() && u[i] == k;
        assert(vertex_error(u[i], pos, col, tex, nor) is None);
    }
    assert(first_seen(t) == u.push(k));
    assert(u.push(k).drop_last() =~= u);
    assert(first_vertex_error(first_seen(t), pos, col, tex, nor) == vertex_error(k, pos, col, tex, nor));
    lemma_first_seen_prefix(us, j + 1);
    lemma_first_vertex_error_prefix(first_seen(us), first_seen(t).len() as int, pos, col, tex, nor);
}

proof fn lemma_no_use_error(s: Seq<VertexIndices>, n: int, pos: Seq<u32>, col: Seq<u32>, tex: Seq<u32>, nor: Seq<u32>)
    requires
        0 <= n <= s.len(),
        forall|i: int| 0 <= i < n ==> (#[trigger] use_error(s.take(i + 1), pos, col, tex, nor)) is None,
    ensures
        multi_error(s.take(n), pos, col, tex, nor) is None,
    decreases n,
{
    if n > 0 {
        lemma_no_use_error(s, n - 1, pos, col, tex, nor);
        assert(s.take(n).drop_last() =~= s.take(n - 1));
        let m = n - 1;
        assert(use_error(s.take(m + 1), pos, col, tex, nor) is None);
        assert(m + 1 == n);
    } else {
        assert(s.take(0) =~= Seq::<VertexIndices>::empty());
    }
}

/// With per-attribute indices, the export fails with the error of the first
/// vertex use that raises one (a new position outside its buffer, then its
/// color, then a new texture coordinate and normal index outside theirs).
pub proof fn law_multi_first_failing_use(
    faces: Seq<Face>,
    pos: Seq<u32>,
    col: Seq<u32>,
    tex: Seq<u32>,
    nor: Seq<u32>,
    o: LoadOptions,
    j: int,
)
    requires
        uses_of(accepted_faces(faces, o), o).len() <= u32::MAX,
        0 <= j < uses_of(accepted_faces(faces, o), o).len(),
        forall|i: int| 0 <= i < j ==> (#[trigger] use_error(uses_of(accepted_faces(faces, o), o).take(i + 1), pos, col, tex, nor)) is None,
        use_error(uses_of(accepted_faces(faces, o), o).take(j + 1), pos, col, tex, nor) is Some,
    ensures
        multi_outcome(faces, pos, col, tex, nor, o) == use_error(uses_of(accepted_faces(faces, o), o).take(j + 1), pos, col, tex, nor),
{
    let us = uses_of(accepted_faces(faces, o), o);
    lemma_no_use_error(us, j, pos, col, tex, nor);
    assert(us.take(j + 1).drop_last() =~= us.take(j));
    lemma_multi_error_prefix(us, j + 1, pos, col, tex, nor);
}


/// Without an error, every use names a position inside the buffer.
proof fn lemma_positions_in_range(s: Seq<VertexIndices>, pos: Seq<u32>, col: Seq<u32>, tex: Seq<u32>, nor: Seq<u32>)
    requires
        multi_error(s, pos, col, tex, nor) is None,
    ensures
        forall|k: int| 0 <= k < s.len() ==> in_range(#[trigger] s[k].v as int, pos, 3),
    decreases s.len(),
{
    if s.len() > 0 {
        let d = s.drop_last();
        lemma_positions_in_range(d, pos, col, tex, nor);
        lemma_effective_all_present(s);
        assert(v_keys(s).drop_last() =~= v_keys(d));
        assert(!channel_fails(v_opts(s), pos, 3));
        let last = s[s.len() - 1];
        if v_keys(d).contains(last.v) {
            let w = choose|w: int| 0 <= w < v_keys(d).len() && v_keys(d)[w] == last.v;
            assert(in_range(d[w].v as int, pos, 3));
        }
        assert forall|k: int| 0 <= k < s.len() implies in_range(#[trigger] s[k].v as int, pos, 3) by {
            if k < d.len() {
                assert(d[k] == s[k]);
            }
        }
    }
}

/// With per-attribute indices and merging, two vertex uses whose positions
/// are bit-identical end up with the same index, and the position buffer
/// holds that point exactly once.
pub proof fn law_multi_merge_positions(
    m: Mesh,
    faces: Seq<Face>,
    pos: Seq<u32>,
    col: Seq<u32>,
    tex: Seq<u32>,
    nor: Seq<u32>,
    mat_id: Option<usize>,
    o: LoadOptions,
    i: int,
    j: int,
)
    requires
        o.merge_identical_points,
        multi_outcome(faces, pos, col, tex, nor, o) is None,
        m@ == multi_view(faces, pos, col, tex, nor, mat_id, o),
        0 <= i < uses_of(accepted_faces(faces, o), o).len(),
        0 <= j < uses_of(accepted_faces(faces, o), o).len(),
        point(pos, uses_of(accepted_faces(faces, o), o)[i].v as int, 3)
            == point(pos, uses_of(accepted_faces(faces, o), o)[j].v as int, 3),
    ensures
        m.indices@[i] == m.indices@[j],
        chunks(m.positions@, 3).no_duplicates(),
        chunks(m.positions@, 3)[m.indices@[i] as int] == point(pos, uses_of(accepted_faces(faces, o), o)[i].v as int, 3),
{
    let us = uses_of(accepted_faces(faces, o), o);
    let b = multi_base(faces, pos, col, tex, nor, mat_id, o);
    let vk = v_keys(us);
    let uv = first_seen(vk);
    lemma_positions_in_range(us, pos, col, tex, nor);
    lemma_dedup(vk);
    lemma_slots_u32(vk);
    assert forall|w: int| 0 <= w < uv.len() implies (#[trigger] point_at(pos, 3)(uv[w])).len() == 3 by {
        let z = choose|z: int| 0 <= z < vk.len() && vk[z] == uv[w];
        assert(in_range(us[z].v as int, pos, 3));
    }
    lemma_chunks_of_gather(uv, point_at(pos, 3), 3);
    let cs = chunks(b.positions, 3);
    assert(b.positions.len() as int / 3 == uv.len());
    let xi = b.indices[i] as int;
    let xj = b.indices[j] as int;
    assert(xi == slots(vk)[i] && xj == slots(vk)[j]);
    assert(cs[xi] == point(pos, us[i].v as int, 3));
    assert(cs[xj] == point(pos, us[j].v as int, 3));
    law_merge_identical(b.positions, b.indices, 3, i, j);
}


/// A face line whose first token is `-1`, met after `n` positions, starts
/// with the last of them.
pub proof fn law_face_relative_position(tokens: Seq<&str>, n: int, tex_sz: int, norm_sz: int)
    requires
        1 <= n <= isize::MAX,
        tokens.len() > 0,
        tokens[0]@ == "-1"@,
    ensures
        token_vertices(tokens, n, tex_sz, norm_sz)[0] == (VertexIndices { v: (n - 1) as isize, vt: None, vn: None }),
{
    law_relative_position(n, tex_sz, norm_sz);
}

} // verus!
