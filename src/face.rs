use vstd::prelude::*;

use crate::maps::VertexKey;
use crate::options::LoadOptions;

verus! {

/// The attribute indices of one face vertex, zero-based and already resolved.
///
/// A resolved index may lie outside its attribute buffer (a relative index
/// that reaches before the first element resolves to a negative one); such
/// an index is reported when the face is exported. A missing texture
/// coordinate or normal index is `None`; every vertex has a position.
#[derive(Clone, Copy, Debug, PartialEq, Eq, Structural)]
pub struct VertexIndices {
    pub v: isize,
    pub vt: Option<isize>,
    pub vn: Option<isize>,
}

impl VertexIndices {
    /// The vertex as a de-duplication key.
    pub open spec fn key(self) -> VertexKey {
        (self.v, self.vt, self.vn)
    }
}

/// A face, by the number of its vertices.
#[derive(Clone, Debug)]
pub enum Face {
    Point(VertexIndices),
    Line(VertexIndices, VertexIndices),
    Triangle(VertexIndices, VertexIndices, VertexIndices),
    Quad(VertexIndices, VertexIndices, VertexIndices, VertexIndices),
    Polygon(Vec<VertexIndices>),
}

/// The vertices of a face, in order.
pub open spec fn face_vertices(f: Face) -> Seq<VertexIndices> {
    match f {
        Face::Point(a) => seq![a],
        Face::Line(a, b) => seq![a, b],
        Face::Triangle(a, b, c) => seq![a, b, c],
        Face::Quad(a, b, c, d) => seq![a, b, c, d],
        Face::Polygon(l) => l@,
    }
}

/// The face is of the variant that its number of vertices calls for.
pub open spec fn well_shaped(f: Face) -> bool {
    match f {
        Face::Polygon(l) => l@.len() >= 5,
        _ => true,
    }
}

/// The value of a string of decimal digits.
pub open spec fn digits_value(s: Seq<char>) -> int
    decreases s.len(),
{
    if s.len() == 0 {
        0
    } else {
        digits_value(s.drop_last()) * 10 + (s.last() as int - '0' as int)
    }
}

/// One or more decimal digits.
pub open spec fn all_digits(s: Seq<char>) -> bool {
    s.len() > 0 && forall|i: int| 0 <= i < s.len() ==> '0' <= #[trigger] s[i] <= '9'
}

/// The integer that a token writes: an optional `+` or `-` followed by
/// decimal digits, within the range of `isize`.
pub open spec fn isize_token(s: Seq<char>) -> Option<int> {
    if s.len() > 0 && s[0] == '-' && all_digits(s.drop_first())
        && -digits_value(s.drop_first()) >= isize::MIN {
        Some(-digits_value(s.drop_first()))
    } else if s.len() > 0 && s[0] == '+' && all_digits(s.drop_first())
        && digits_value(s.drop_first()) <= isize::MAX {
        Some(digits_value(s.drop_first()))
    } else if all_digits(s) && digits_value(s) <= isize::MAX {
        Some(digits_value(s))
    } else {
        None
    }
}

/// Relies on `<isize as FromStr>::from_str`: it accepts exactly an optional
/// sign followed by decimal digits whose value fits in `isize`.
#[verifier::external_body]
fn parse_isize(s: &str) -> (r: Option<isize>)
    ensures
        r matches Some(x) ==> isize_token(s@) == Some(x as int),
        r is None ==> isize_token(s@) is None,
{
    s.parse::<isize>().ok()
}


/// The pieces of `s` between occurrences of `sep`; always at least one.
pub open spec fn split_on(s: Seq<char>, sep: char) -> Seq<Seq<char>>
    decreases s.len(),
{
    if s.len() == 0 {
        seq![Seq::<char>::empty()]
    } else {
        let p = split_on(s.drop_last(), sep);
        if s.last() == sep {
            p.push(Seq::<char>::empty())
        } else {
            p.update(p.len() - 1, p.last().push(s.last()))
        }
    }
}

proof fn lemma_split_on_len(s: Seq<char>, sep: char)
    ensures
        split_on(s, sep).len() >= 1,
    decreases s.len(),
{
    if s.len() > 0 {
        lemma_split_on_len(s.drop_last(), sep);
    }
}

/// Pieces that are complete in a prefix of `s` stay as they are in `s`.
proof fn lemma_split_on_prefix(s: Seq<char>, i: int, sep: char)
    requires
        0 <= i <= s.len(),
    ensures
        split_on(s.take(i), sep).len() <= split_on(s, sep).len(),
        forall|j: int|
            0 <= j < split_on(s.take(i), sep).len() - 1 ==> #[trigger] split_on(s, sep)[j]
                == split_on(s.take(i), sep)[j],
        i < s.len() && s[i] == sep ==> split_on(s.take(i), sep).len() < split_on(s, sep).len()
            && split_on(s, sep)[split_on(s.take(i), sep).len() - 1] == split_on(s.take(i), sep).last(),
    decreases s.len(),
{
    lemma_split_on_len(s.take(i), sep);
    if i == s.len() {
        assert(s.take(i) =~= s);
    } else {
        let t = s.drop_last();
        assert(t.take(i) =~= s.take(i));
        lemma_split_on_prefix(t, i, sep);
        lemma_split_on_len(t, sep);
        if i == s.len() - 1 {
            assert(t =~= s.take(i));
        }
    }
}

/// A one-based file index `x` as a zero-based one; a negative `x` counts
/// back from `count`, the number of elements read so far.
pub open spec fn resolve_index(x: int, count: int) -> int {
    if x < 0 {
        count + x
    } else {
        x - 1
    }
}

/// Piece `k` of a vertex token belongs to one of the three channels and is
/// empty or an integer.
pub open spec fn segment_accepted(seg: Seq<char>, k: int) -> bool {
    k < 3 && (seg.len() == 0 || isize_token(seg) is Some)
}

/// The resolved index that piece `k` of a vertex token gives, if any.
pub open spec fn piece_index(segs: Seq<Seq<char>>, k: int, count: int) -> Option<isize> {
    if k < segs.len() && segs[k].len() > 0 {
        Some(resolve_index(isize_token(segs[k])->Some_0, count) as isize)
    } else {
        None
    }
}

/// The vertex that a token `v[/vt][/vn]` describes, given how many
/// positions, texture coordinates and normals precede it; `None` where the
/// token is malformed.
pub open spec fn parse_vertex(s: Seq<char>, pos_sz: int, tex_sz: int, norm_sz: int) -> Option<
    VertexIndices,
> {
    let segs = split_on(s, '/');
    if segs[0].len() > 0 && forall|k: int| 0 <= k < segs.len() ==> segment_accepted(#[trigger] segs[k], k) {
        Some(
            VertexIndices {
                v: piece_index(segs, 0, pos_sz)->Some_0,
                vt: piece_index(segs, 1, tex_sz),
                vn: piece_index(segs, 2, norm_sz),
            },
        )
    } else {
        None
    }
}

/// Resolves one non-empty piece of a vertex token against `count` elements;
/// `None` where it is no integer.
fn resolve_piece(seg: &str, count: usize) -> (r: Option<isize>)
    requires
        count <= isize::MAX,
    ensures
        r matches Some(x) ==> isize_token(seg@) is Some && x == resolve_index(
            isize_token(seg@)->Some_0,
            count as int,
        ),
        r is None ==> isize_token(seg@) is None,
{
    match parse_isize(seg) {
        None => None,
        Some(x) => {
            if x < 0 {
                Some(count as isize + x)
            } else {
                Some(x - 1)
            }
        },
    }
}

impl VertexIndices {
    /// Parses a face vertex token `v[/vt][/vn]`.
    ///
    /// Indices are one-based; a negative index counts back from the number
    /// of elements of its channel read so far (`pos_sz`, `tex_sz`,
    /// `norm_sz`). Returns `None` if the position is absent, a piece is not
    /// an integer, or the token has more than three pieces (even an empty
    /// fourth one).
    pub fn parse(face_str: &str, pos_sz: usize, tex_sz: usize, norm_sz: usize) -> (r: Option<
        VertexIndices,
    >)
        requires
            pos_sz <= isize::MAX,
            tex_sz <= isize::MAX,
            norm_sz <= isize::MAX,
        ensures
            r == parse_vertex(face_str@, pos_sz as int, tex_sz as int, norm_sz as int),
    {
        let ghost s = face_str@;
        let n = face_str.unicode_len();
        let mut vals: [Option<isize>; 3] = [None, None, None];
        let counts: [usize; 3] = [pos_sz, tex_sz, norm_sz];
        let mut k: usize = 0;
        let mut start: usize = 0;
        let mut i: usize = 0;
        assert(s.take(0) =~= Seq::<char>::empty());
        while i < n
            invariant
                n == s.len(),
                s == face_str@,
                counts@ == seq![pos_sz, tex_sz, norm_sz],
                pos_sz <= isize::MAX,
                tex_sz <= isize::MAX,
                norm_sz <= isize::MAX,
                start <= i <= n,
                k <= i,
                k < 3,
                split_on(s.take(i as int), '/').len() == k + 1,
                split_on(s.take(i as int), '/')[k as int] == s.subrange(start as int, i as int),
                forall|j: int| 0 <= j < k ==> segment_accepted(#[trigger] split_on(s.take(i as int), '/')[j], j),
                forall|j: int| 0 <= j < 3 ==> #[trigger] vals[j] == (if j < k { piece_index(split_on(s.take(i as int), '/'), j, counts@[j] as int) } else { None }),
            decreases n - i,
        {
            let ghost segs = split_on(s.take(i as int), '/');
            proof {
                assert(s.take(i + 1).drop_last() =~= s.take(i as int));
                assert(s.subrange(start as int, i + 1) =~= s.subrange(start as int, i as int).push(s[i as int]));
            }
            if face_str.get_char(i) == '/' {
                if start < i {
                    proof {
                        lemma_split_on_prefix(s, i as int, '/');
                    }
                    let seg = face_str.substring_char(start, i);
                    match resolve_piece(seg, counts[k]) {
                        None => {
                            assert(!segment_accepted(split_on(s, '/')[k as int], k as int));
                            return None;
                        },
                        Some(x) => {
                            vals[k] = Some(x);
                        },
                    }
                }
                if k == 2 {
                    proof {
                        lemma_split_on_prefix(s, i + 1, '/');
                        assert(split_on(s.take(i + 1), '/').len() == 4);
                        assert(!segment_accepted(split_on(s, '/')[3], 3));
                    }
                    return None;
                }
                k = k + 1;
                start = i + 1;
            }
            i = i + 1;
        }
        assert(s.take(n as int) =~= s);
        if start < n {
            let seg = face_str.substring_char(start, n);
            match resolve_piece(seg, counts[k]) {
                None => {
                    assert(!segment_accepted(split_on(s, '/')[k as int], k as int));
                    return None;
                },
                Some(x) => {
                    vals[k] = Some(x);
                },
            }
        }
        proof {
            lemma_split_on_len(s, '/');
        }
        match vals[0] {
            None => None,
            Some(v) => Some(VertexIndices { v, vt: vals[1], vn: vals[2] }),
        }
    }
}


/// Every token of a face line describes a vertex.
pub open spec fn tokens_parse(tokens: Seq<&str>, pos_sz: int, tex_sz: int, norm_sz: int) -> bool {
    forall|i: int| 0 <= i < tokens.len() ==> (#[trigger] parse_vertex(tokens[i]@, pos_sz, tex_sz, norm_sz)) is Some
}

/// The vertices that the tokens of a face line describe.
pub open spec fn token_vertices(tokens: Seq<&str>, pos_sz: int, tex_sz: int, norm_sz: int) -> Seq<
    VertexIndices,
> {
    Seq::new(tokens.len(), |i: int| parse_vertex(tokens[i]@, pos_sz, tex_sz, norm_sz)->Some_0)
}

/// Parses the vertex tokens of a face line and appends the face to `faces`.
///
/// Returns `false`, leaving `faces` as it was, if there is no token or a
/// token is malformed.
pub fn parse_face(
    face_str: &[&str],
    faces: &mut Vec<Face>,
    pos_sz: usize,
    tex_sz: usize,
    norm_sz: usize,
) -> (r: bool)
    requires
        pos_sz <= isize::MAX,
        tex_sz <= isize::MAX,
        norm_sz <= isize::MAX,
    ensures
        r == (face_str@.len() > 0 && tokens_parse(face_str@, pos_sz as int, tex_sz as int, norm_sz as int)),
        r ==> final(faces)@.len() == old(faces)@.len() + 1,
        r ==> final(faces)@.drop_last() == old(faces)@,
        r ==> face_vertices(final(faces)@.last()) == token_vertices(face_str@, pos_sz as int, tex_sz as int, norm_sz as int),
        r ==> well_shaped(final(faces)@.last()),
        !r ==> final(faces)@ == old(faces)@,
{
    let mut indices: Vec<VertexIndices> = Vec::new();
    let mut i: usize = 0;
    while i < face_str.len()
        invariant
            pos_sz <= isize::MAX,
            tex_sz <= isize::MAX,
            norm_sz <= isize::MAX,
            i <= face_str@.len(),
            indices@ == token_vertices(face_str@, pos_sz as int, tex_sz as int, norm_sz as int).take(i as int),
            tokens_parse(face_str@.take(i as int), pos_sz as int, tex_sz as int, norm_sz as int),
        decreases face_str@.len() - i,
    {
        match VertexIndices::parse(face_str[i], pos_sz, tex_sz, norm_sz) {
            Some(v) => {
                indices.push(v);
            },
            None => {
                return false;
            },
        }
        proof {
            assert(indices@ =~= token_vertices(face_str@, pos_sz as int, tex_sz as int, norm_sz as int).take(i + 1));
            assert forall|j: int| 0 <= j < i + 1 implies (#[trigger] parse_vertex(face_str@.take(i + 1)[j]@, pos_sz as int, tex_sz as int, norm_sz as int)) is Some by {
                if j < i {
                    assert(face_str@.take(i as int)[j] == face_str@.take(i + 1)[j]);
                }
            }
        }
        i = i + 1;
    }
    assert(face_str@.take(i as int) =~= face_str@);
    assert(indices@ =~= token_vertices(face_str@, pos_sz as int, tex_sz as int, norm_sz as int));
    let len = indices.len();
    if len == 0 {
        return false;
    }
    let face = if len == 1 {
        Face::Point(indices[0])
    } else if len == 2 {
        Face::Line(indices[0], indices[1])
    } else if len == 3 {
        Face::Triangle(indices[0], indices[1], indices[2])
    } else if len == 4 {
        Face::Quad(indices[0], indices[1], indices[2], indices[3])
    } else {
        Face::Polygon(indices)
    };
    proof {
        assert(face_vertices(face) =~= token_vertices(face_str@, pos_sz as int, tex_sz as int, norm_sz as int));
    }
    faces.push(face);
    assert(faces@.drop_last() =~= old(faces)@);
    true
}


/// The triangles of a fan around the first vertex of `l`, in order.
pub open spec fn fan(l: Seq<VertexIndices>) -> Seq<VertexIndices>
    decreases l.len(),
{
    if l.len() < 3 {
        seq![]
    } else {
        fan(l.drop_last()) + seq![l[0], l[l.len() - 2], l[l.len() - 1]]
    }
}

/// The vertex uses that a face contributes to the index array.
pub open spec fn face_uses(f: Face, o: LoadOptions) -> Seq<VertexIndices> {
    match f {
        Face::Point(a) => if o.ignore_points {
            seq![]
        } else if o.triangulate {
            seq![a, a, a]
        } else {
            seq![a]
        },
        Face::Line(a, b) => if o.ignore_lines {
            seq![]
        } else if o.triangulate {
            seq![a, b, b]
        } else {
            seq![a, b]
        },
        Face::Triangle(a, b, c) => seq![a, b, c],
        Face::Quad(a, b, c, d) => if o.triangulate {
            seq![a, b, c, a, c, d]
        } else {
            seq![a, b, c, d]
        },
        Face::Polygon(l) => if o.triangulate {
            fan(l@)
        } else {
            l@
        },
    }
}

/// A polygon with fewer than two vertices cannot be triangulated.
pub open spec fn face_rejected(f: Face, o: LoadOptions) -> bool {
    o.triangulate && f is Polygon && face_vertices(f).len() < 2
}

/// The arity that a face records, if any.
pub open spec fn face_arity(f: Face, o: LoadOptions) -> Seq<u32> {
    if o.triangulate {
        seq![]
    } else {
        match f {
            Face::Point(_) => if o.ignore_points {
                seq![]
            } else {
                seq![1u32]
            },
            Face::Line(_, _) => if o.ignore_lines {
                seq![]
            } else {
                seq![2u32]
            },
            Face::Triangle(_, _, _) => seq![3u32],
            Face::Quad(_, _, _, _) => seq![4u32],
            Face::Polygon(l) => seq![l@.len() as u32],
        }
    }
}

/// The face is kept with an arity other than three.
pub open spec fn face_not_triangle(f: Face, o: LoadOptions) -> bool {
    !o.triangulate && match f {
        Face::Point(_) => !o.ignore_points,
        Face::Line(_, _) => !o.ignore_lines,
        Face::Triangle(_, _, _) => false,
        _ => true,
    }
}

/// The number of leading faces that are not rejected.
pub open spec fn accepted_len(fs: Seq<Face>, o: LoadOptions) -> nat
    decreases fs.len(),
{
    if fs.len() == 0 {
        0
    } else if accepted_len(fs.drop_last(), o) < fs.len() - 1 {
        accepted_len(fs.drop_last(), o)
    } else if face_rejected(fs.last(), o) {
        (fs.len() - 1) as nat
    } else {
        fs.len()
    }
}

/// The vertex uses of a sequence of faces.
pub open spec fn uses_of(fs: Seq<Face>, o: LoadOptions) -> Seq<VertexIndices>
    decreases fs.len(),
{
    if fs.len() == 0 {
        seq![]
    } else {
        uses_of(fs.drop_last(), o) + face_uses(fs.last(), o)
    }
}

/// The arities recorded for a sequence of faces.
pub open spec fn arities_of(fs: Seq<Face>, o: LoadOptions) -> Seq<u32>
    decreases fs.len(),
{
    if fs.len() == 0 {
        seq![]
    } else {
        arities_of(fs.drop_last(), o) + face_arity(fs.last(), o)
    }
}

/// Every face is exported as a triangle (or dropped).
pub open spec fn all_triangles(fs: Seq<Face>, o: LoadOptions) -> bool {
    forall|i: int| 0 <= i < fs.len() ==> !face_not_triangle(#[trigger] fs[i], o)
}

/// The faces up to the first one that cannot be exported.
pub open spec fn accepted_faces(fs: Seq<Face>, o: LoadOptions) -> Seq<Face> {
    fs.take(accepted_len(fs, o) as int)
}

proof fn lemma_accepted_len_bound(fs: Seq<Face>, o: LoadOptions)
    ensures
        accepted_len(fs, o) <= fs.len(),
        forall|i: int| 0 <= i < accepted_len(fs, o) ==> !face_rejected(#[trigger] fs[i], o),
        accepted_len(fs, o) < fs.len() ==> face_rejected(fs[accepted_len(fs, o) as int], o),
    decreases fs.len(),
{
    if fs.len() > 0 {
        let d = fs.drop_last();
        lemma_accepted_len_bound(d, o);
        assert forall|i: int| 0 <= i < accepted_len(fs, o) implies !face_rejected(#[trigger] fs[i], o) by {
            if i < fs.len() - 1 {
                assert(d[i] == fs[i]);
            }
        }
    }
}

/// Appends the uses of one face that is not rejected.
fn push_face_uses(f: &Face, o: &LoadOptions, out: &mut Vec<VertexIndices>)
    requires
        !face_rejected(*f, *o),
    ensures
        final(out)@ == old(out)@ + face_uses(*f, *o),
{
    let ghost start = out@;
    match f {
        Face::Point(a) => {
            if !o.ignore_points {
                out.push(*a);
                if o.triangulate {
                    out.push(*a);
                    out.push(*a);
                }
            }
        },
        Face::Line(a, b) => {
            if !o.ignore_lines {
                out.push(*a);
                out.push(*b);
                if o.triangulate {
                    out.push(*b);
                }
            }
        },
        Face::Triangle(a, b, c) => {
            out.push(*a);
            out.push(*b);
            out.push(*c);
        },
        Face::Quad(a, b, c, d) => {
            out.push(*a);
            out.push(*b);
            out.push(*c);
            if o.triangulate {
                out.push(*a);
                out.push(*c);
                out.push(*d);
            } else {
                out.push(*d);
            }
        },
        Face::Polygon(l) => {
            if o.triangulate {
                let mut c: usize = 2;
                assert(out@ =~= start + fan(l@.take(2)));
                while c < l.len()
                    invariant
                        2 <= c <= l@.len(),
                        out@ == start + fan(l@.take(c as int)),
                    decreases l@.len() - c,
                {
                    out.push(l[0]);
                    out.push(l[c - 1]);
                    out.push(l[c]);
                    proof {
                        let t = l@.take(c + 1);
                        assert(t.drop_last() =~= l@.take(c as int));
                        assert(fan(t) == fan(t.drop_last()) + seq![t[0], t[t.len() - 2], t[t.len() - 1]]);
                    }
                    c = c + 1;
                }
                assert(l@.take(l@.len() as int) =~= l@);
            } else {
                let mut i: usize = 0;
                while i < l.len()
                    invariant
                        i <= l@.len(),
                        out@ == start + l@.take(i as int),
                    decreases l@.len() - i,
                {
                    out.push(l[i]);
                    assert(l@.take(i + 1) =~= l@.take(i as int).push(l@[i as int]));
                    i = i + 1;
                }
                assert(l@.take(l@.len() as int) =~= l@);
            }
        },
    }
    assert(out@ =~= start + face_uses(*f, *o));
}


/// The faces up to the first rejected one, expanded into vertex uses.
pub struct Expansion {
    /// The vertex uses, in order.
    pub uses: Vec<VertexIndices>,
    /// The recorded arities, in order.
    pub arities: Vec<u32>,
    /// No face was kept with an arity other than three.
    pub all_triangles: bool,
    /// No face was rejected.
    pub complete: bool,
}

/// Expands faces into the vertex uses of the index array, stopping at the
/// first face that cannot be exported.
pub fn expand_faces(faces: &[Face], o: &LoadOptions) -> (r: Expansion)
    ensures
        r.uses@ == uses_of(accepted_faces(faces@, *o), *o),
        r.arities@ == arities_of(accepted_faces(faces@, *o), *o),
        r.all_triangles == all_triangles(accepted_faces(faces@, *o), *o),
        r.complete == (accepted_len(faces@, *o) == faces@.len()),
{
    let ghost fs = faces@;
    let mut uses: Vec<VertexIndices> = Vec::new();
    let mut arities: Vec<u32> = Vec::new();
    let mut all_tri = true;
    let mut i: usize = 0;
    proof {
        lemma_accepted_len_bound(fs, *o);
        assert(fs.take(0) =~= Seq::<Face>::empty());
    }
    while i < faces.len()
        invariant
            fs == faces@,
            i <= fs.len(),
            forall|j: int| 0 <= j < i ==> !face_rejected(#[trigger] fs[j], *o),
            accepted_len(fs, *o) <= fs.len(),
            forall|j: int| 0 <= j < accepted_len(fs, *o) ==> !face_rejected(#[trigger] fs[j], *o),
            accepted_len(fs, *o) < fs.len() ==> face_rejected(fs[accepted_len(fs, *o) as int], *o),
            uses@ == uses_of(fs.take(i as int), *o),
            arities@ == arities_of(fs.take(i as int), *o),
            all_tri == all_triangles(fs.take(i as int), *o),
        decreases fs.len() - i,
    {
        let f = &faces[i];
        let ghost t = fs.take(i + 1);
        assert(t.drop_last() =~= fs.take(i as int));
        if o.triangulate {
            if let Face::Polygon(l) = f {
                if l.len() < 2 {
                    assert(accepted_len(fs, *o) == i);
                    return Expansion { uses, arities, all_triangles: all_tri, complete: false };
                }
            }
        }
        push_face_uses(f, o, &mut uses);
        match f {
            Face::Point(_) => {
                if !o.triangulate && !o.ignore_points {
                    arities.push(1);
                    all_tri = false;
                }
            },
            Face::Line(_, _) => {
                if !o.triangulate && !o.ignore_lines {
                    arities.push(2);
                    all_tri = false;
                }
            },
            Face::Triangle(_, _, _) => {
                if !o.triangulate {
                    arities.push(3);
                }
            },
            Face::Quad(_, _, _, _) => {
                if !o.triangulate {
                    arities.push(4);
                    all_tri = false;
                }
            },
            Face::Polygon(l) => {
                if !o.triangulate {
                    arities.push(l.len() as u32);
                    all_tri = false;
                }
            },
        }
        proof {
            assert(arities@ =~= arities_of(t, *o));
            if all_tri {
                assert forall|j: int| 0 <= j < t.len() implies !face_not_triangle(#[trigger] t[j], *o) by {
                    if j < i {
                        assert(t[j] == fs.take(i as int)[j]);
                    }
                }
            } else {
                if all_triangles(t, *o) {
                    assert(!face_not_triangle(t[i as int], *o));
                    assert forall|j: int| 0 <= j < i implies !face_not_triangle(#[trigger] fs.take(i as int)[j], *o) by {
                        assert(t[j] == fs.take(i as int)[j]);
                    }
                }
            }
        }
        i = i + 1;
    }
    assert(fs.take(i as int) =~= fs);
    assert(accepted_len(fs, *o) == fs.len());
    Expansion { uses, arities, all_triangles: all_tri, complete: true }
}

} // verus!
