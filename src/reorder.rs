use vstd::prelude::*;

use crate::mesh::{gather, lemma_gather_push, point, push_point, Mesh};

verus! {

/// The point that each channel index names, one after the other.
pub open spec fn gathered(buf: Seq<u32>, ci: Seq<u32>, d: int) -> Seq<u32> {
    gather(ci, |x: u32| point(buf, x as int, d))
}

/// `s` with point `p` (of `d` components) replaced by `vals`.
pub open spec fn write_point(s: Seq<u32>, p: int, vals: Seq<u32>, d: int) -> Seq<u32> {
    Seq::new(s.len(), |j: int| if d * p <= j < d * p + d { vals[j - d * p] } else { s[j] })
}

/// A buffer of `n` points of zeros in which, use after use, the point of
/// position index `idx[k]` takes the point that channel index `ci[k]` names.
pub open spec fn scattered(buf: Seq<u32>, ci: Seq<u32>, idx: Seq<u32>, n: int, d: int, k: int) -> Seq<u32>
    decreases k,
{
    if k <= 0 {
        Seq::new((d * n) as nat, |j: int| 0u32)
    } else {
        write_point(
            scattered(buf, ci, idx, n, d, k - 1),
            idx[k - 1] as int,
            point(buf, ci[k - 1] as int, d),
            d,
        )
    }
}

/// A channel laid out so that it needs no index array of its own, given
/// the length `plen` of the position buffer: per use where the channel's
/// buffer is longer than the position buffer, else per position.
pub open spec fn reordered(buf: Seq<u32>, ci: Seq<u32>, idx: Seq<u32>, plen: int, d: int) -> Seq<u32> {
    if ci.len() == 0 {
        buf
    } else if buf.len() > plen {
        gathered(buf, ci, d)
    } else {
        scattered(buf, ci, idx, plen / 3, d, ci.len() as int)
    }
}

/// Every use of the channel has a position index, and every index names a
/// point of its buffer.
pub open spec fn channel_indexable(buf: Seq<u32>, ci: Seq<u32>, idx: Seq<u32>, npos: int, d: int) -> bool {
    ci.len() > 0 ==> {
        &&& ci.len() == idx.len()
        &&& forall|k: int| 0 <= k < ci.len() ==> (#[trigger] ci[k] as int) < buf.len() as int / d
        &&& forall|k: int| 0 <= k < idx.len() ==> (#[trigger] idx[k] as int) < npos
    }
}

fn reorder_channel(buf: &Vec<u32>, ci: &Vec<u32>, idx: &Vec<u32>, plen: usize, d: usize) -> (r: Vec<u32>)
    requires
        2 <= d <= 3,
        channel_indexable(buf@, ci@, idx@, plen as int / 3, d as int),
    ensures
        r@ == reordered(buf@, ci@, idx@, plen as int, d as int),
{
    if ci.len() == 0 {
        return buf.clone();
    }
    let npos = plen / 3;
    assert(d * npos <= plen) by (nonlinear_arith)
        requires
            d <= 3,
            npos == plen as int / 3,
    ;
    let mut out: Vec<u32> = Vec::new();
    if buf.len() > plen {
        let mut k: usize = 0;
        while k < ci.len()
            invariant
                2 <= d <= 3,
                k <= ci@.len(),
                channel_indexable(buf@, ci@, idx@, npos as int, d as int),
                ci@.len() > 0,
                out@ == gathered(buf@, ci@.take(k as int), d as int),
            decreases ci@.len() - k,
        {
            push_point(&mut out, buf.as_slice(), ci[k] as usize, d);
            proof {
                lemma_gather_push(ci@.take(k as int), ci@[k as int], |x: u32| point(buf@, x as int, d as int));
                assert(ci@.take(k + 1) =~= ci@.take(k as int).push(ci@[k as int]));
            }
            k = k + 1;
        }
        assert(ci@.take(k as int) =~= ci@);
        return out;
    }
    let total = d * npos;
    let mut z: usize = 0;
    while z < total
        invariant
            z <= total,
            out@ == Seq::new(z as nat, |j: int| 0u32),
        decreases total - z,
    {
        out.push(0);
        assert(out@ =~= Seq::new((z + 1) as nat, |j: int| 0u32));
        z = z + 1;
    }
    assert(out@ =~= scattered(buf@, ci@, idx@, npos as int, d as int, 0));
    let mut k: usize = 0;
    while k < ci.len()
        invariant
            2 <= d <= 3,
            total == d * npos,
            k <= ci@.len(),
            channel_indexable(buf@, ci@, idx@, npos as int, d as int),
            ci@.len() > 0,
            out@ == scattered(buf@, ci@, idx@, npos as int, d as int, k as int),
            out@.len() == total,
        decreases ci@.len() - k,
    {
        let p = idx[k] as usize;
        let src = ci[k] as usize;
        assert(d * p + d <= total && d * src + d <= buf@.len()) by (nonlinear_arith)
            requires
                p < npos,
                src < buf@.len() as int / (d as int),
                total == d * npos,
                2 <= d,
        ;
        let ghost before = out@;
        let blen = buf.len();
        let dp = d * p;
        let ds = d * src;
        let mut c: usize = 0;
        while c < d
            invariant
                2 <= d <= 3,
                c <= d,
                dp == d * p,
                ds == d * src,
                blen == buf@.len(),
                d * p + d <= total,
                d * src + d <= buf@.len(),
                out@.len() == total,
                out@ == Seq::new(total as nat, |j: int| if d * p <= j < d * p + c { point(buf@, src as int, d as int)[j - d * p] } else { before[j] }),
            decreases d - c,
        {
            out.set(dp + c, buf[ds + c]);
            assert(out@ =~= Seq::new(total as nat, |j: int| if d * p <= j < d * p + c + 1 { point(buf@, src as int, d as int)[j - d * p] } else { before[j] }));
            c = c + 1;
        }
        assert(scattered(buf@, ci@, idx@, npos as int, d as int, k + 1) == write_point(before, p as int, point(buf@, src as int, d as int), d as int));
        assert(out@ =~= scattered(buf@, ci@, idx@, npos as int, d as int, k + 1));
        k = k + 1;
    }
    out
}

/// Lays texture coordinates and normals out so that `indices` drives them
/// too, and empties their own index arrays.
///
/// A channel whose buffer is longer than the position buffer is taken per
/// use: point `k` is the one that use `k` named. Otherwise it is taken per
/// position: the point of position `p` is the one named by the last use of
/// `p`, and zero where no use names `p`.
pub fn reorder_data(mesh: &mut Mesh)
    requires
        channel_indexable(old(mesh).texcoords@, old(mesh).texcoord_indices@, old(mesh).indices@, old(mesh).positions@.len() as int / 3, 2),
        channel_indexable(old(mesh).normals@, old(mesh).normal_indices@, old(mesh).indices@, old(mesh).positions@.len() as int / 3, 3),
    ensures
        final(mesh).texcoords@ == reordered(old(mesh).texcoords@, old(mesh).texcoord_indices@, old(mesh).indices@, old(mesh).positions@.len() as int, 2),
        final(mesh).normals@ == reordered(old(mesh).normals@, old(mesh).normal_indices@, old(mesh).indices@, old(mesh).positions@.len() as int, 3),
        final(mesh).texcoord_indices@.len() == 0,
        final(mesh).normal_indices@.len() == 0,
        final(mesh).positions == old(mesh).positions,
        final(mesh).indices == old(mesh).indices,
        final(mesh).vertex_color == old(mesh).vertex_color,
        final(mesh).vertex_color_indices == old(mesh).vertex_color_indices,
        final(mesh).face_arities == old(mesh).face_arities,
        final(mesh).material_id == old(mesh).material_id,
{
    let plen = mesh.positions.len();
    let texcoords = reorder_channel(&mesh.texcoords, &mesh.texcoord_indices, &mesh.indices, plen, 2);
    mesh.texcoords = texcoords;
    mesh.texcoord_indices = Vec::new();
    let normals = reorder_channel(&mesh.normals, &mesh.normal_indices, &mesh.indices, plen, 3);
    mesh.normals = normals;
    mesh.normal_indices = Vec::new();
}

} // verus!
