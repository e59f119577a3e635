use vstd::prelude::*;

verus! {

/// A mesh assembled from the faces of one object.
///
/// Attribute values are IEEE-754 bit patterns of `f32` components: three
/// per position, color and normal, two per texture coordinate.
#[derive(Clone, Debug, Default)]
pub struct Mesh {
    /// Flattened positions, `[x, y, z, x, y, z, ...]`.
    pub positions: Vec<u32>,
    /// Flattened vertex colors; empty if the input has none.
    pub vertex_color: Vec<u32>,
    /// Flattened normals; empty if the input has none.
    pub normals: Vec<u32>,
    /// Flattened texture coordinates; empty if the input has none.
    pub texcoords: Vec<u32>,
    /// The index of each vertex use, face after face.
    pub indices: Vec<u32>,
    /// The number of vertices of each face; empty if every face is a
    /// triangle.
    pub face_arities: Vec<u32>,
    /// Indices into `vertex_color`, filled only when points are merged.
    pub vertex_color_indices: Vec<u32>,
    /// Indices into `texcoords` when attributes have their own indices.
    pub texcoord_indices: Vec<u32>,
    /// Indices into `normals` when attributes have their own indices.
    pub normal_indices: Vec<u32>,
    /// The material of the mesh, as an index into the material list.
    pub material_id: Option<usize>,
}

/// The contents of a mesh, as sequences.
pub struct MeshView {
    pub positions: Seq<u32>,
    pub vertex_color: Seq<u32>,
    pub normals: Seq<u32>,
    pub texcoords: Seq<u32>,
    pub indices: Seq<u32>,
    pub face_arities: Seq<u32>,
    pub vertex_color_indices: Seq<u32>,
    pub texcoord_indices: Seq<u32>,
    pub normal_indices: Seq<u32>,
    pub material_id: Option<usize>,
}

impl View for Mesh {
    type V = MeshView;

    open spec fn view(&self) -> MeshView {
        MeshView {
            positions: self.positions@,
            vertex_color: self.vertex_color@,
            normals: self.normals@,
            texcoords: self.texcoords@,
            indices: self.indices@,
            face_arities: self.face_arities@,
            vertex_color_indices: self.vertex_color_indices@,
            texcoord_indices: self.texcoord_indices@,
            normal_indices: self.normal_indices@,
            material_id: self.material_id,
        }
    }
}

/// A named mesh.
#[derive(Clone, Debug)]
pub struct Model {
    /// The geometry.
    pub mesh: Mesh,
    /// The name given by the `o` or `g` line that opened the object.
    pub name: String,
}

impl Model {
    /// Associates a name with a mesh.
    pub fn new(mesh: Mesh, name: String) -> (r: Model)
        ensures
            r.mesh == mesh,
            r.name == name,
    {
        Model { mesh, name }
    }
}

/// Point `i` of a flat buffer with `d` components per point.
pub open spec fn point(buf: Seq<u32>, i: int, d: int) -> Seq<u32> {
    buf.subrange(d * i, d * i + d)
}

/// The distinct elements of `s` in order of first appearance, and for each
/// element of `s` its position among them.
pub open spec fn dedup<K>(s: Seq<K>) -> (Seq<K>, Seq<int>)
    decreases s.len(),
{
    if s.len() == 0 {
        (seq![], seq![])
    } else {
        let (u, ix) = dedup(s.drop_last());
        let k = s.last();
        if u.contains(k) {
            (u, ix.push(u.index_of(k)))
        } else {
            (u.push(k), ix.push(u.len() as int))
        }
    }
}

/// The distinct elements of `s` in order of first appearance.
pub open spec fn first_seen<K>(s: Seq<K>) -> Seq<K> {
    dedup(s).0
}

/// For each element of `s`, its position in `first_seen(s)`.
pub open spec fn slots<K>(s: Seq<K>) -> Seq<int> {
    dedup(s).1
}

/// The pieces that `f` gives for the elements of `u`, concatenated.
pub open spec fn gather<K>(u: Seq<K>, f: spec_fn(K) -> Seq<u32>) -> Seq<u32>
    decreases u.len(),
{
    if u.len() == 0 {
        seq![]
    } else {
        gather(u.drop_last(), f) + f(u.last())
    }
}

/// Slots as stored in an index array.
pub open spec fn as_u32(ix: Seq<int>) -> Seq<u32> {
    ix.map_values(|x: int| x as u32)
}

pub proof fn lemma_dedup<K>(s: Seq<K>)
    ensures
        first_seen(s).no_duplicates(),
        first_seen(s).len() <= s.len(),
        slots(s).len() == s.len(),
        forall|i: int|
            0 <= i < s.len() ==> 0 <= #[trigger] slots(s)[i] < first_seen(s).len()
                && first_seen(s)[slots(s)[i]] == s[i],
        forall|j: int| 0 <= j < first_seen(s).len() ==> s.contains(#[trigger] first_seen(s)[j]),
    decreases s.len(),
{
    if s.len() > 0 {
        let d = s.drop_last();
        lemma_dedup(d);
        let (u, ix) = dedup(d);
        let k = s.last();
        if u.contains(k) {
            lemma_index_of_unique(u, u.index_of(k));
        }
        assert forall|j: int| 0 <= j < first_seen(s).len() implies s.contains(#[trigger] first_seen(s)[j]) by {
            if j < u.len() {
                let w = choose|w: int| 0 <= w < d.len() && d[w] == u[j];
                assert(s[w] == u[j]);
            } else {
                assert(s[s.len() - 1] == k);
            }
        }
        assert forall|i: int| 0 <= i < s.len() implies 0 <= #[trigger] slots(s)[i] < first_seen(s).len()
            && first_seen(s)[slots(s)[i]] == s[i] by {
            if i < d.len() {
                assert(slots(d)[i] == slots(s)[i]);
                assert(d[i] == s[i]);
            }
        }
    }
}

pub proof fn lemma_gather_push<K>(u: Seq<K>, k: K, f: spec_fn(K) -> Seq<u32>)
    ensures
        gather(u.push(k), f) == gather(u, f) + f(k),
{
    assert(u.push(k).drop_last() =~= u);
}

/// Appends point `i` of a flat buffer with `d` components per point.
pub fn push_point(out: &mut Vec<u32>, buf: &[u32], i: usize, d: usize)
    requires
        1 <= d,
        i < buf@.len() as int / (d as int),
    ensures
        final(out)@ == old(out)@ + point(buf@, i as int, d as int),
        final(out)@.len() == old(out)@.len() + d,
{
    assert(d * i + d <= buf@.len()) by (nonlinear_arith)
        requires
            1 <= d,
            i < buf@.len() as int / (d as int),
    ;
    let n = buf.len();
    assert(n == buf@.len());
    let base = d * i;
    let mut c: usize = 0;
    while c < d
        invariant
            c <= d,
            base == d * i,
            base + d <= buf@.len(),
            n == buf@.len(),
            out@ == old(out)@ + buf@.subrange(base as int, base + c),
        decreases d - c,
    {
        out.push(buf[base + c]);
        assert(buf@.subrange(base as int, base + c + 1) =~= buf@.subrange(base as int, base + c).push(buf@[base + c]));
        c = c + 1;
    }
}

/// The distinct elements of a prefix lead the distinct elements of the
/// whole.
pub proof fn lemma_first_seen_prefix<K>(s: Seq<K>, m: int)
    requires
        0 <= m <= s.len(),
    ensures
        first_seen(s.take(m)).len() <= first_seen(s).len(),
        first_seen(s).take(first_seen(s.take(m)).len() as int) == first_seen(s.take(m)),
    decreases s.len(),
{
    if m == s.len() {
        assert(s.take(m) =~= s);
        assert(first_seen(s).take(first_seen(s).len() as int) =~= first_seen(s));
    } else {
        let d = s.drop_last();
        assert(d.take(m) =~= s.take(m));
        lemma_first_seen_prefix(d, m);
        let a = first_seen(s.take(m));
        assert(first_seen(s).take(a.len() as int) =~= first_seen(d).take(a.len() as int));
    }
}

/// Pieces of `d` elements each gather into `d` elements per element.
pub proof fn lemma_gather_len<K>(u: Seq<K>, f: spec_fn(K) -> Seq<u32>, d: int)
    requires
        forall|j: int| 0 <= j < u.len() ==> (#[trigger] f(u[j])).len() == d,
    ensures
        gather(u, f).len() == d * u.len(),
    decreases u.len(),
{
    if u.len() > 0 {
        let p = u.drop_last();
        assert forall|j: int| 0 <= j < p.len() implies (#[trigger] f(p[j])).len() == d by {
            assert(p[j] == u[j]);
        }
        lemma_gather_len(p, f, d);
        assert(f(u[u.len() - 1]).len() == d);
        assert(d * p.len() + d == d * u.len()) by (nonlinear_arith)
            requires
                p.len() + 1 == u.len(),
        ;
    }
}

/// Slots of a short enough sequence are stored exactly in an index array.
pub proof fn lemma_slots_u32<K>(s: Seq<K>)
    requires
        s.len() <= u32::MAX,
    ensures
        as_u32(slots(s)).len() == s.len(),
        forall|i: int| 0 <= i < s.len() ==> (#[trigger] as_u32(slots(s))[i]) as int == slots(s)[i],
        forall|i: int| 0 <= i < s.len() ==> (#[trigger] as_u32(slots(s))[i]) < first_seen(s).len(),
{
    lemma_dedup(s);
    assert forall|i: int| 0 <= i < s.len() implies (#[trigger] as_u32(slots(s))[i]) as int == slots(s)[i] by {
        assert(0 <= slots(s)[i] < u32::MAX);
    }
}

/// In a sequence without duplicates, an element's index is where it stands.
pub proof fn lemma_index_of_unique<K>(u: Seq<K>, j: int)
    requires
        u.no_duplicates(),
        0 <= j < u.len(),
    ensures
        u.contains(u[j]),
        u.index_of(u[j]) == j,
{
    assert(u.contains(u[j]));
}

} // verus!
