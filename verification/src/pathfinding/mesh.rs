use vstd::prelude::*;

verus! {

/// How many of the nine vertex pairs of two triangles name the same polygon vertex.
pub open spec fn shared_vertex_pairs(a: Seq<usize>, b: Seq<usize>) -> int {
    (if a[0] == b[0] { 1int } else { 0int }) + (if a[0] == b[1] { 1int } else { 0int }) + (if a[0]
        == b[2] {
        1int
    } else {
        0int
    }) + (if a[1] == b[0] { 1int } else { 0int }) + (if a[1] == b[1] { 1int } else { 0int }) + (
    if a[1] == b[2] {
        1int
    } else {
        0int
    }) + (if a[2] == b[0] { 1int } else { 0int }) + (if a[2] == b[1] { 1int } else { 0int }) + (
    if a[2] == b[2] {
        1int
    } else {
        0int
    })
}

/// Whether two triangles (given by the polygon indices of their vertices) share an edge,
/// that is, at least two vertex pairs match.
pub open spec fn triangles_share_edge(a: Seq<usize>, b: Seq<usize>) -> bool {
    shared_vertex_pairs(a, b) >= 2
}

/// Whether triangle `a` shares an edge with triangle `b`: at least two of the nine vertex
/// pairs name the same polygon vertex.
pub fn shares_edge(a: &[usize; 3], b: &[usize; 3]) -> (r: bool)
    ensures
        r == triangles_share_edge(a@, b@),
{
    let mut shared: u32 = 0;
    let mut i: usize = 0;
    while i < 3
        invariant
            i <= 3,
            shared <= 3 * i,
            shared == partial_pairs(a@, b@, i as int),
        decreases 3 - i,
    {
        let mut j: usize = 0;
        while j < 3
            invariant
                i < 3,
                j <= 3,
                shared <= 3 * i + j,
                shared == partial_pairs(a@, b@, i as int) + row_pairs(a@, b@, i as int, j as int),
            decreases 3 - j,
        {
            if a[i] == b[j] {
                shared = shared + 1;
            }
            j = j + 1;
        }
        i = i + 1;
    }
    assert(partial_pairs(a@, b@, 3) == shared_vertex_pairs(a@, b@)) by {
        reveal_with_fuel(partial_pairs, 4);
        reveal_with_fuel(row_pairs, 4);
    }
    shared >= 2
}

/// Matches of `a[i]` against the first `j` vertices of `b`.
pub open spec fn row_pairs(a: Seq<usize>, b: Seq<usize>, i: int, j: int) -> int
    decreases j,
{
    if j <= 0 {
        0
    } else {
        row_pairs(a, b, i, j - 1) + if a[i] == b[j - 1] {
            1int
        } else {
            0int
        }
    }
}

/// Matches of the first `i` vertices of `a` against all of `b`.
pub open spec fn partial_pairs(a: Seq<usize>, b: Seq<usize>, i: int) -> int
    decreases i,
{
    if i <= 0 {
        0
    } else {
        partial_pairs(a, b, i - 1) + row_pairs(a, b, i - 1, 3)
    }
}

/// The triangles other than `k` that share an edge with triangle `k`, in increasing order,
/// among the first `n` triangles.
pub open spec fn adjacent_upto(tris: Seq<[usize; 3]>, k: int, n: int) -> Seq<usize>
    decreases n,
{
    if n <= 0 {
        Seq::empty()
    } else {
        let prev = adjacent_upto(tris, k, n - 1);
        if n - 1 != k && triangles_share_edge(tris[k]@, tris[n - 1]@) {
            prev.push((n - 1) as usize)
        } else {
            prev
        }
    }
}

/// The triangles adjacent to triangle `k`: every other triangle that shares an edge with it,
/// in increasing order.
pub open spec fn adjacent_triangles(tris: Seq<[usize; 3]>, k: int) -> Seq<usize> {
    adjacent_upto(tris, k, tris.len() as int)
}

/// Sharing an edge is symmetric.
pub proof fn lemma_share_edge_symmetric(a: Seq<usize>, b: Seq<usize>)
    ensures
        triangles_share_edge(a, b) == triangles_share_edge(b, a),
{
}

/// Builds the adjacency lists of a triangulation: `adjacency[k]` lists, in increasing order,
/// every other triangle that shares an edge with triangle `k`.
pub fn build_triangle_adjacency(triangles: &[[usize; 3]]) -> (adjacency: Vec<Vec<usize>>)
    ensures
        adjacency@.len() == triangles@.len(),
        forall|k: int|
            0 <= k < triangles@.len() ==> (#[trigger] adjacency@[k])@ == adjacent_triangles(
                triangles@,
                k,
            ),
{
    let n = triangles.len();
    let mut adjacency: Vec<Vec<usize>> = Vec::new();
    let mut m: usize = 0;
    while m < n
        invariant
            n == triangles@.len(),
            m <= n,
            adjacency@.len() == m,
            forall|k: int| 0 <= k < m ==> (#[trigger] adjacency@[k])@ == Seq::<usize>::empty(),
        decreases n - m,
    {
        adjacency.push(Vec::new());
        m = m + 1;
    }
    let mut i: usize = 0;
    while i < n
        invariant
            n == triangles@.len(),
            i <= n,
            adjacency@.len() == n,
            // lists of rows already processed are complete
            forall|k: int| 0 <= k < i ==> (#[trigger] adjacency@[k])@ == adjacent_triangles(triangles@, k),
            // lists of later rows hold the earlier rows that share an edge
            forall|k: int| i <= k < n ==> (#[trigger] adjacency@[k])@ == adjacent_upto(triangles@, k, i as int),
        decreases n - i,
    {
        let mut j: usize = i + 1;
        assert(adjacency@[i as int]@ == adjacent_upto(triangles@, i as int, i as int));
        assert(adjacent_upto(triangles@, i as int, i + 1) == adjacent_upto(triangles@, i as int, i as int));
        while j < n
            invariant
                n == triangles@.len(),
                i < n,
                i + 1 <= j <= n,
                adjacency@.len() == n,
                forall|k: int| 0 <= k < i ==> (#[trigger] adjacency@[k])@ == adjacent_triangles(triangles@, k),
                adjacency@[i as int]@ == adjacent_upto(triangles@, i as int, j as int),
                forall|k: int| i < k < n && k < j ==> (#[trigger] adjacency@[k])@ == adjacent_upto(triangles@, k, i + 1),
                forall|k: int| i < k < n && k >= j ==> (#[trigger] adjacency@[k])@ == adjacent_upto(triangles@, k, i as int),
            decreases n - j,
        {
            let ghost before = adjacency@;
            if shares_edge(&triangles[i], &triangles[j]) {
                adjacency[i].push(j);
                adjacency[j].push(i);
            }
            proof {
                lemma_share_edge_symmetric(triangles@[i as int]@, triangles@[j as int]@);
                assert(adjacency@[j as int]@ == adjacent_upto(triangles@, j as int, i + 1));
            }
            j = j + 1;
        }
        i = i + 1;
    }
    adjacency
}

/// Adjacency is symmetric and never relates a triangle to itself.
pub proof fn law_adjacency_symmetric(tris: Seq<[usize; 3]>, k: int, l: int)
    requires
        tris.len() <= usize::MAX,
        0 <= k < tris.len(),
        0 <= l < tris.len(),
    ensures
        adjacent_triangles(tris, k).contains(l as usize) <==> (l != k && triangles_share_edge(
            tris[k]@,
            tris[l]@,
        )),
        adjacent_triangles(tris, k).contains(l as usize) <==> adjacent_triangles(tris, l).contains(
            k as usize,
        ),
{
    lemma_adjacent_upto_contains(tris, k, tris.len() as int, l);
    lemma_adjacent_upto_contains(tris, l, tris.len() as int, k);
    lemma_share_edge_symmetric(tris[k]@, tris[l]@);
}

proof fn lemma_adjacent_upto_contains(tris: Seq<[usize; 3]>, k: int, n: int, l: int)
    requires
        tris.len() <= usize::MAX,
        0 <= k < tris.len(),
        0 <= l < tris.len(),
        n <= tris.len(),
    ensures
        adjacent_upto(tris, k, n).contains(l as usize) <==> (l < n && l != k
            && triangles_share_edge(tris[k]@, tris[l]@)),
        forall|x: int|
            0 <= x < adjacent_upto(tris, k, n).len() ==> #[trigger] adjacent_upto(tris, k, n)[x]
                < n,
    decreases n,
{
    if n > 0 {
        lemma_adjacent_upto_contains(tris, k, n - 1, l);
        let prev = adjacent_upto(tris, k, n - 1);
        if n - 1 != k && triangles_share_edge(tris[k]@, tris[n - 1]@) {
            let pp = prev.push((n - 1) as usize);
            assert(pp[prev.len() as int] == (n - 1) as usize);
            assert forall|x: int| 0 <= x < pp.len() implies #[trigger] pp[x] < n by {
                if x < prev.len() {
                    assert(pp[x] == prev[x]);
                }
            }
            if l < n - 1 && pp.contains(l as usize) {
                let x = choose|x: int| 0 <= x < pp.len() && #[trigger] pp[x] == l as usize;
                if x < prev.len() {
                    assert(prev[x] == l as usize);
                }
            }
            if l < n - 1 && prev.contains(l as usize) {
                let x = choose|x: int| 0 <= x < prev.len() && #[trigger] prev[x] == l as usize;
                assert(pp[x] == l as usize);
            }
            if l == n - 1 {
                assert(pp.contains(l as usize));
            }
        } else {
            if l == n - 1 && prev.contains(l as usize) {
                let x = choose|x: int| 0 <= x < prev.len() && #[trigger] prev[x] == l as usize;
                assert(prev[x] < n - 1);
            }
        }
    }
}

/// Which vertex of a triangle is written first, and in which turn, does not matter: rotating
/// or swapping the vertices of either triangle keeps the number of matching vertex pairs, so
/// keeps whether the two share an edge.
pub proof fn law_share_edge_ignores_vertex_order(a: Seq<usize>, b: Seq<usize>)
    requires
        a.len() == 3,
        b.len() == 3,
    ensures
        shared_vertex_pairs(a, b) == shared_vertex_pairs(seq![a[1], a[2], a[0]], b),
        shared_vertex_pairs(a, b) == shared_vertex_pairs(seq![a[1], a[0], a[2]], b),
        shared_vertex_pairs(a, b) == shared_vertex_pairs(a, seq![b[1], b[2], b[0]]),
        shared_vertex_pairs(a, b) == shared_vertex_pairs(a, seq![b[1], b[0], b[2]]),
        triangles_share_edge(a, b) == triangles_share_edge(seq![a[1], a[2], a[0]], b),
        triangles_share_edge(a, b) == triangles_share_edge(seq![a[1], a[0], a[2]], b),
        triangles_share_edge(a, b) == triangles_share_edge(a, seq![b[1], b[2], b[0]]),
        triangles_share_edge(a, b) == triangles_share_edge(a, seq![b[1], b[0], b[2]]),
{
}

/// Two triangles, each with three different vertices, share an edge exactly when they have
/// two different vertices in common.
pub proof fn law_share_edge_common_vertices(a: Seq<usize>, b: Seq<usize>)
    requires
        a.len() == 3,
        b.len() == 3,
        a[0] != a[1] && a[0] != a[2] && a[1] != a[2],
        b[0] != b[1] && b[0] != b[2] && b[1] != b[2],
    ensures
        triangles_share_edge(a, b) <==> exists|x: usize, y: usize|
            x != y && a.contains(x) && a.contains(y) && #[trigger] b.contains(x) && #[trigger] b.contains(y),
{
    let in_b0 = a[0] == b[0] || a[0] == b[1] || a[0] == b[2];
    let in_b1 = a[1] == b[0] || a[1] == b[1] || a[1] == b[2];
    let in_b2 = a[2] == b[0] || a[2] == b[1] || a[2] == b[2];
    assert(b.contains(a[0]) <==> in_b0) by {
        if b.contains(a[0]) {
            let k = choose|k: int| 0 <= k < b.len() && b[k] == a[0];
        }
    }
    assert(b.contains(a[1]) <==> in_b1) by {
        if b.contains(a[1]) {
            let k = choose|k: int| 0 <= k < b.len() && b[k] == a[1];
        }
    }
    assert(b.contains(a[2]) <==> in_b2) by {
        if b.contains(a[2]) {
            let k = choose|k: int| 0 <= k < b.len() && b[k] == a[2];
        }
    }
    assert(a.contains(a[0]) && a.contains(a[1]) && a.contains(a[2]));
    if triangles_share_edge(a, b) {
        if in_b0 && in_b1 {
            assert(b.contains(a[0]) && b.contains(a[1]));
        } else if in_b0 && in_b2 {
            assert(b.contains(a[0]) && b.contains(a[2]));
        } else {
            assert(in_b1 && in_b2);
            assert(b.contains(a[1]) && b.contains(a[2]));
        }
    }
    if exists|x: usize, y: usize|
        x != y && a.contains(x) && a.contains(y) && #[trigger] b.contains(x) && #[trigger] b.contains(y) {
        let (x, y) = choose|x: usize, y: usize|
            x != y && a.contains(x) && a.contains(y) && #[trigger] b.contains(x) && #[trigger] b.contains(y);
        let i = choose|i: int| 0 <= i < a.len() && a[i] == x;
        let j = choose|j: int| 0 <= j < a.len() && a[j] == y;
        assert(b.contains(a[i]) && b.contains(a[j]) && i != j);
    }
}

} // verus!
