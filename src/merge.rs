use vstd::prelude::*;

use crate::maps::{point_map_get, point_map_insert, point_map_new, point_slots};
use crate::mesh::{
    first_seen, gather, lemma_dedup, lemma_gather_len, lemma_gather_push, lemma_index_of_unique,
    point, push_point, slots,
};

verus! {

/// The points of a flat buffer with `d` components per point.
pub open spec fn chunks(points: Seq<u32>, d: int) -> Seq<Seq<u32>> {
    Seq::new((points.len() as int / d) as nat, |j: int| point(points, j, d))
}

/// A point as its own piece of a flat buffer.
pub open spec fn whole() -> spec_fn(Seq<u32>) -> Seq<u32> {
    |p: Seq<u32>| p
}

/// The buffer after merging: each distinct point once, in order of first
/// appearance. Nothing changes where no index refers to the points.
pub open spec fn merged_points(points: Seq<u32>, indices: Seq<u32>, d: int) -> Seq<u32> {
    if indices.len() == 0 {
        points
    } else {
        gather(first_seen(chunks(points, d)), whole())
    }
}

/// The indices after merging: each refers to the merged copy of its point.
pub open spec fn merged_indices(points: Seq<u32>, indices: Seq<u32>, d: int) -> Seq<u32> {
    if indices.len() == 0 {
        indices
    } else {
        indices.map_values(|x: u32| slots(chunks(points, d))[x as int] as u32)
    }
}

/// `m` gives each of the distinct points `u` its position in `u`.
pub open spec fn point_slot_map(m: Map<Seq<u32>, u32>, u: Seq<Seq<u32>>) -> bool {
    &&& forall|j: int| 0 <= j < u.len() ==> #[trigger] m.contains_key(u[j]) && m[u[j]] == j as u32
    &&& forall|key: Seq<u32>| #[trigger] m.contains_key(key) ==> exists|j: int| 0 <= j < u.len() && u[j] == key
}

proof fn lemma_point_slot_map_extend(m: Map<Seq<u32>, u32>, u: Seq<Seq<u32>>, k: Seq<u32>)
    requires
        point_slot_map(m, u),
        !u.contains(k),
        u.len() < u32::MAX,
    ensures
        point_slot_map(m.insert(k, u.len() as u32), u.push(k)),
{
    let m2 = m.insert(k, u.len() as u32);
    let u2 = u.push(k);
    assert forall|j: int| 0 <= j < u2.len() implies #[trigger] m2.contains_key(u2[j]) && m2[u2[j]] == j as u32 by {
        if j < u.len() {
            assert(u2[j] == u[j]);
        }
    }
    assert forall|key: Seq<u32>| #[trigger] m2.contains_key(key) implies exists|j: int| 0 <= j < u2.len() && u2[j] == key by {
        if key == k {
            assert(u2[u.len() as int] == key);
        } else {
            let j = choose|j: int| 0 <= j < u.len() && u[j] == key;
            assert(u2[j] == key);
        }
    }
}

/// Merges points whose components are bit-identical, keeping the first
/// copy of each in order, and makes the indices refer to the kept copies.
/// A point has `N` components. Nothing changes if `indices` is empty.
pub fn merge_identical_points<const N: usize>(points: &mut Vec<u32>, indices: &mut Vec<u32>)
    requires
        1 <= N,
        old(points)@.len() as int % (N as int) == 0,
        old(points)@.len() as int / (N as int) <= u32::MAX,
        forall|i: int| 0 <= i < old(indices)@.len() ==> (#[trigger] old(indices)@[i]) < old(points)@.len() as int / (N as int),
    ensures
        final(points)@ == merged_points(old(points)@, old(indices)@, N as int),
        final(indices)@ == merged_indices(old(points)@, old(indices)@, N as int),
{
    if indices.len() == 0 {
        return;
    }
    let ghost cs = chunks(points@, N as int);
    let n = points.len() / N;
    let mut compressed: Vec<u32> = Vec::new();
    let mut canonical = point_map_new();
    let mut out: Vec<u32> = Vec::new();
    let mut j: usize = 0;
    assert(cs.take(0) =~= Seq::<Seq<u32>>::empty());
    assert(compressed@ =~= slots(cs.take(0)).map_values(|x: int| x as u32));
    while j < n
        invariant
            1 <= N,
            n == points@.len() as int / (N as int),
            n <= u32::MAX,
            cs == chunks(points@, N as int),
            j <= n,
            compressed@ == slots(cs.take(j as int)).map_values(|x: int| x as u32),
            out@ == gather(first_seen(cs.take(j as int)), whole()),
            out@.len() == N * first_seen(cs.take(j as int)).len(),
            point_slot_map(point_slots(canonical), first_seen(cs.take(j as int))),
        decreases n - j,
    {
        let ghost s = cs.take(j as int);
        let ghost u = first_seen(s);
        let ghost t = cs.take(j + 1);
        proof {
            lemma_dedup(s);
            assert(t.drop_last() =~= s);
            assert(t.last() == cs[j as int]);
        }
        let mut key: Vec<u32> = Vec::new();
        push_point(&mut key, points.as_slice(), j, N);
        assert(key@ =~= cs[j as int]);
        match point_map_get(&canonical, &key) {
            Some(other) => {
                compressed.push(other);
                proof {
                    let w = choose|w: int| 0 <= w < u.len() && u[w] == key@;
                    lemma_index_of_unique(u, w);
                    assert(compressed@ =~= slots(t).map_values(|x: int| x as u32));
                }
            },
            None => {
                proof {
                    if u.contains(key@) {
                        let w = choose|w: int| 0 <= w < u.len() && u[w] == key@;
                        assert(point_slots(canonical).contains_key(u[w]));
                    }
                    assert(first_seen(t) == u.push(key@));
                    lemma_gather_push(u, key@, whole());
                    lemma_point_slot_map_extend(point_slots(canonical), u, key@);
                }
                assert(out@.len() as int / (N as int) == u.len()) by (nonlinear_arith)
                    requires
                        out@.len() == N * u.len(),
                        1 <= N,
                ;
                let index = (out.len() / N) as u32;
                compressed.push(index);
                push_point(&mut out, points.as_slice(), j, N);
                point_map_insert(&mut canonical, key, index);
                proof {
                    assert(compressed@ =~= slots(t).map_values(|x: int| x as u32));
                    assert(out@.len() == N * (u.len() + 1)) by (nonlinear_arith)
                        requires
                            out@.len() == N * u.len() + N,
                    ;
                }
            },
        }
        j = j + 1;
    }
    assert(cs.take(n as int) =~= cs);
    proof {
        lemma_dedup(cs);
    }
    let ghost old_indices = indices@;
    *points = out;
    let mut i: usize = 0;
    while i < indices.len()
        invariant
            cs == chunks(old(points)@, N as int),
            n == cs.len(),
            old_indices == old(indices)@,
            indices@.len() == old_indices.len(),
            i <= indices@.len(),
            compressed@ == slots(cs).map_values(|x: int| x as u32),
            compressed@.len() == n,
            forall|k: int| 0 <= k < old_indices.len() ==> (#[trigger] old_indices[k]) < n,
            forall|k: int| 0 <= k < i ==> #[trigger] indices@[k] == slots(cs)[old_indices[k] as int] as u32,
            forall|k: int| i <= k < indices@.len() ==> #[trigger] indices@[k] == old_indices[k],
        decreases indices@.len() - i,
    {
        let x = indices[i];
        assert(old_indices[i as int] == x);
        indices.set(i, compressed[x as usize]);
        assert(compressed@[x as int] == slots(cs)[x as int] as u32);
        i = i + 1;
    }
    assert(indices@ =~= merged_indices(old(points)@, old_indices, N as int));
}


/// Points of `d` components gathered into a flat buffer split back into
/// the same points.
pub proof fn lemma_chunks_of_gather<K>(u: Seq<K>, f: spec_fn(K) -> Seq<u32>, d: int)
    requires
        1 <= d,
        forall|j: int| 0 <= j < u.len() ==> (#[trigger] f(u[j])).len() == d,
    ensures
        gather(u, f).len() == d * u.len(),
        chunks(gather(u, f), d) == Seq::new(u.len(), |j: int| f(u[j])),
    decreases u.len(),
{
    lemma_gather_len(u, f, d);
    let n = u.len();
    let all = gather(u, f);
    assert((d * n) / d == n) by (nonlinear_arith)
        requires
            1 <= d,
    ;
    if n > 0 {
        let p = u.drop_last();
        assert forall|j: int| 0 <= j < p.len() implies (#[trigger] f(p[j])).len() == d by {
            assert(p[j] == u[j]);
        }
        lemma_chunks_of_gather(p, f, d);
        let g = gather(p, f);
        assert((d * (n - 1)) / d == n - 1) by (nonlinear_arith)
            requires
                1 <= d,
        ;
        let x = f(u.last());
        assert(all == g + x);
        assert forall|j: int| 0 <= j < n implies #[trigger] chunks(all, d)[j] == f(u[j]) by {
            assert(d * j + d <= d * n && d * j >= 0) by (nonlinear_arith)
                requires
                    0 <= j < n,
                    1 <= d,
            ;
            if j < n - 1 {
                assert(d * j + d <= d * (n - 1)) by (nonlinear_arith)
                    requires
                        0 <= j < n - 1,
                        1 <= d,
                ;
                assert(chunks(g, d)[j] == f(p[j]));
                assert(p[j] == u[j]);
                assert(chunks(all, d)[j] =~= chunks(g, d)[j]);
            } else {
                assert(d * j == d * (n - 1));
                assert(chunks(all, d)[j] =~= x);
            }
        }
    }
    assert(chunks(all, d) =~= Seq::new(u.len(), |j: int| f(u[j])));
}

/// Merging keeps a flat buffer of whole points and indices that name them.
pub proof fn lemma_merged_shape(points: Seq<u32>, indices: Seq<u32>, d: int)
    requires
        1 <= d,
        points.len() as int % d == 0,
        points.len() as int / d <= u32::MAX,
        forall|i: int| 0 <= i < indices.len() ==> (#[trigger] indices[i] as int) < points.len() as int / d,
    ensures
        merged_points(points, indices, d).len() as int % d == 0,
        merged_points(points, indices, d).len() as int / d <= points.len() as int / d,
        merged_indices(points, indices, d).len() == indices.len(),
        forall|i: int|
            0 <= i < indices.len() ==> (#[trigger] merged_indices(points, indices, d)[i] as int)
                < merged_points(points, indices, d).len() as int / d,
{
    if indices.len() > 0 {
        let cs = chunks(points, d);
        let u = first_seen(cs);
        lemma_dedup(cs);
        assert forall|j: int| 0 <= j < u.len() implies (#[trigger] whole()(u[j])).len() == d by {
            let w = choose|w: int| 0 <= w < cs.len() && cs[w] == u[j];
            assert(d * w + d <= points.len()) by (nonlinear_arith)
                requires
                    0 <= w < points.len() as int / d,
                    1 <= d,
            ;
        }
        lemma_gather_len(u, whole(), d);
        assert((d * u.len()) % d == 0 && (d * u.len()) / d == u.len()) by (nonlinear_arith)
            requires
                1 <= d,
        ;
        assert forall|i: int| 0 <= i < indices.len() implies (#[trigger] merged_indices(points, indices, d)[i] as int)
            < merged_points(points, indices, d).len() as int / d by {
            let x = indices[i] as int;
            assert(0 <= slots(cs)[x] < u.len());
        }
    }
}

} // verus!
