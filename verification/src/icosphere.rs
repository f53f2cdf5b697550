//! The wave shell: an icosahedron whose triangles are split again and again.
//!
//! A mesh starts from the twelve corners of an icosahedron. Every further vertex
//! lies between two earlier ones, so a mesh is given by those pairs and by its
//! triangles. The positions follow from the pairs.

use std::collections::HashMap;
use vstd::arithmetic::power::*;
use vstd::prelude::*;

verus! {

/// The number of corners of an icosahedron.
pub const CORNERS: u32 = 12;

/// A triangle by the numbers of its vertices, in the order in which they are wound.
#[derive(Clone, Copy, PartialEq, Eq, Debug, Structural)]
pub struct Triangle {
    pub a: u32,
    pub b: u32,
    pub c: u32,
}

/// Vertex `CORNERS + i` lies halfway between the two vertices of `midpoints[i]`.
pub struct Mesh {
    pub midpoints: Vec<(u32, u32)>,
    pub triangles: Vec<Triangle>,
}

/// The mathematical content of a mesh.
#[verifier::ext_equal]
pub struct MeshModel {
    pub midpoints: Seq<(u32, u32)>,
    pub triangles: Seq<Triangle>,
}

impl View for Mesh {
    type V = MeshModel;

    open spec fn view(&self) -> MeshModel {
        MeshModel { midpoints: self.midpoints@, triangles: self.triangles@ }
    }
}

impl MeshModel {
    /// How many vertices the mesh has.
    pub open spec fn vertex_count(self) -> int {
        CORNERS + self.midpoints.len()
    }
}

/// Side `j` of a triangle, from its first vertex to its second.
pub open spec fn side(t: Triangle, j: int) -> (u32, u32) {
    if j == 0 {
        (t.a, t.b)
    } else if j == 1 {
        (t.b, t.c)
    } else {
        (t.c, t.a)
    }
}

/// The vertex that side `j` of a triangle leaves out.
pub open spec fn opposite(t: Triangle, j: int) -> u32 {
    if j == 0 {
        t.c
    } else if j == 1 {
        t.a
    } else {
        t.b
    }
}

/// A side without its direction.
pub open spec fn edge(s: (u32, u32)) -> (u32, u32) {
    if s.0 < s.1 {
        s
    } else {
        (s.1, s.0)
    }
}

/// The directed sides of all triangles, triangle by triangle.
pub open spec fn sides(tris: Seq<Triangle>) -> Seq<(u32, u32)> {
    Seq::new(3 * tris.len(), |k: int| side(tris[k / 3], k % 3))
}

/// The undirected sides of all triangles, triangle by triangle.
pub open spec fn edges(tris: Seq<Triangle>) -> Seq<(u32, u32)> {
    Seq::new(3 * tris.len(), |k: int| edge(side(tris[k / 3], k % 3)))
}

/// A sequence without the elements that occurred before.
pub open spec fn firsts(s: Seq<(u32, u32)>) -> Seq<(u32, u32)>
    decreases s.len(),
{
    if s.len() == 0 {
        Seq::empty()
    } else {
        let before = firsts(s.drop_last());
        if before.contains(s.last()) {
            before
        } else {
            before.push(s.last())
        }
    }
}

/// The vertex between the ends of `s`, where the edges `es` got the numbers from
/// `base` on.
pub open spec fn between(base: int, es: Seq<(u32, u32)>, s: (u32, u32)) -> u32 {
    (base + es.index_of(edge(s))) as u32
}

/// The four parts of a triangle: one at each corner, then the one in the middle.
pub open spec fn part(t: Triangle, base: int, es: Seq<(u32, u32)>, j: int) -> Triangle {
    let ab = between(base, es, side(t, 0));
    let bc = between(base, es, side(t, 1));
    let ca = between(base, es, side(t, 2));
    if j == 0 {
        Triangle { a: t.a, b: ab, c: ca }
    } else if j == 1 {
        Triangle { a: t.b, b: bc, c: ab }
    } else if j == 2 {
        Triangle { a: t.c, b: ca, c: bc }
    } else {
        Triangle { a: ab, b: bc, c: ca }
    }
}

/// The parts of all triangles, triangle by triangle.
pub open spec fn parts(tris: Seq<Triangle>, base: int, es: Seq<(u32, u32)>) -> Seq<Triangle> {
    Seq::new(4 * tris.len(), |k: int| part(tris[k / 4], base, es, k % 4))
}

/// The mesh after one more splitting: each edge gets one vertex, numbered in the
/// order in which the triangles come to their edges.
pub open spec fn split(m: MeshModel) -> MeshModel {
    let es = firsts(edges(m.triangles));
    MeshModel {
        midpoints: m.midpoints + es,
        triangles: parts(m.triangles, m.vertex_count(), es),
    }
}

/// The twenty triangles of the icosahedron.
pub open spec fn icosahedron() -> Seq<Triangle> {
    seq![
        Triangle { a: 0, b: 11, c: 5 },
        Triangle { a: 0, b: 5, c: 1 },
        Triangle { a: 0, b: 1, c: 7 },
        Triangle { a: 0, b: 7, c: 10 },
        Triangle { a: 0, b: 10, c: 11 },
        Triangle { a: 1, b: 5, c: 9 },
        Triangle { a: 5, b: 11, c: 4 },
        Triangle { a: 11, b: 10, c: 2 },
        Triangle { a: 10, b: 7, c: 6 },
        Triangle { a: 7, b: 1, c: 8 },
        Triangle { a: 3, b: 9, c: 4 },
        Triangle { a: 3, b: 4, c: 2 },
        Triangle { a: 3, b: 2, c: 6 },
        Triangle { a: 3, b: 6, c: 8 },
        Triangle { a: 3, b: 8, c: 9 },
        Triangle { a: 4, b: 9, c: 5 },
        Triangle { a: 2, b: 4, c: 11 },
        Triangle { a: 6, b: 2, c: 10 },
        Triangle { a: 8, b: 6, c: 7 },
        Triangle { a: 9, b: 8, c: 1 },
    ]
}

/// The icosahedron after `subdiv` splittings.
pub open spec fn icosphere(subdiv: nat) -> MeshModel
    decreases subdiv,
{
    if subdiv == 0 {
        MeshModel { midpoints: Seq::empty(), triangles: icosahedron() }
    } else {
        split(icosphere((subdiv - 1) as nat))
    }
}

proof fn lemma_firsts(s: Seq<(u32, u32)>)
    ensures
        firsts(s).no_duplicates(),
        forall|e: (u32, u32)|
            #![trigger firsts(s).contains(e)]
            #![trigger s.contains(e)]
            firsts(s).contains(e) <==> s.contains(e),
        firsts(s).len() <= s.len(),
    decreases s.len(),
{
    if s.len() > 0 {
        let init = s.drop_last();
        lemma_firsts(init);
        assert(s =~= init.push(s.last()));
        let before = firsts(init);
        assert forall|e: (u32, u32)|
            #![trigger firsts(s).contains(e)]
            #![trigger s.contains(e)]
            firsts(s).contains(e) <==> s.contains(e) by {
            if s.contains(e) && e != s.last() {
                let i = choose|i: int| 0 <= i < s.len() && s[i] == e;
                assert(init[i] == e);
                assert(init.contains(e));
                assert(before.contains(e));
                let j = choose|j: int| 0 <= j < before.len() && before[j] == e;
                assert(before.push(s.last())[j] == e);
            }
            if s.contains(e) && e == s.last() && !before.contains(e) {
                assert(firsts(s)[before.len() as int] == e);
            }
            if firsts(s).contains(e) {
                if before.contains(e) {
                    assert(init.contains(e));
                    let i = choose|i: int| 0 <= i < init.len() && init[i] == e;
                    assert(s[i] == e);
                } else {
                    assert(e == s.last());
                    assert(s[s.len() - 1] == e);
                }
            }
        }
    }
}

proof fn lemma_firsts_push(s: Seq<(u32, u32)>, e: (u32, u32))
    ensures
        firsts(s.push(e)) == (if firsts(s).contains(e) {
            firsts(s)
        } else {
            firsts(s).push(e)
        }),
{
    assert(s.push(e).drop_last() =~= s);
}

proof fn lemma_firsts_take(s: Seq<(u32, u32)>, n: int)
    requires
        0 <= n <= s.len(),
    ensures
        firsts(s.take(n)).is_prefix_of(firsts(s)),
    decreases s.len(),
{
    if n == s.len() {
        assert(s.take(n) =~= s);
    } else {
        lemma_firsts_take(s.drop_last(), n);
        assert(s.drop_last().take(n) =~= s.take(n));
    }
}

proof fn lemma_index_in_prefix(p: Seq<(u32, u32)>, s: Seq<(u32, u32)>, e: (u32, u32))
    requires
        p.is_prefix_of(s),
        s.no_duplicates(),
        p.contains(e),
    ensures
        p.index_of(e) == s.index_of(e),
        0 <= p.index_of(e) < p.len(),
        p[p.index_of(e)] == e,
{
    let i = p.index_of(e);
    assert(p[i] == e);
    assert(s[i] == e);
    assert(s.contains(e));
    assert(s[s.index_of(e)] == e);
}

/// What taking one more edge into account does to the distinct ones.
proof fn lemma_split_step(all: Seq<(u32, u32)>, n: int)
    requires
        0 <= n < all.len(),
    ensures
        firsts(all.take(n)).no_duplicates(),
        firsts(all.take(n)).len() <= firsts(all).len(),
        !firsts(all.take(n)).contains(all[n]) ==> firsts(all.take(n)).len() < firsts(all).len(),
        firsts(all.take(n + 1)) == (if firsts(all.take(n)).contains(all[n]) {
            firsts(all.take(n))
        } else {
            firsts(all.take(n)).push(all[n])
        }),
        firsts(all.take(n + 1)).contains(all[n]),
        firsts(all.take(n + 1)).index_of(all[n]) == firsts(all).index_of(all[n]),
{
    let before = firsts(all.take(n));
    let e = all[n];
    assert(all.take(n + 1) =~= all.take(n).push(e));
    lemma_firsts(all);
    lemma_firsts(all.take(n));
    lemma_firsts_push(all.take(n), e);
    lemma_firsts_take(all, n);
    lemma_firsts_take(all, n + 1);
    let after = firsts(all.take(n + 1));
    if !before.contains(e) {
        assert(after[before.len() as int] == e);
    }
    lemma_index_in_prefix(after, firsts(all), e);
}

/// A side the other way round.
pub open spec fn turned(s: (u32, u32)) -> (u32, u32) {
    (s.1, s.0)
}

/// Whether `(i, j)` is a side of one of the triangles.
pub open spec fn is_side(tris: Seq<Triangle>, i: int, j: int) -> bool {
    0 <= i < tris.len() && 0 <= j < 3
}

/// Whether some triangle has the side `s`.
pub open spec fn has_side(tris: Seq<Triangle>, s: (u32, u32)) -> bool {
    exists|i: int, j: int| is_side(tris, i, j) && #[trigger] side(tris[i], j) == s
}

/// Whether the triangles form a closed surface: no side is a point, each side
/// occurs once and once turned round, and the two triangles at an edge are not
/// the two faces of one and the same triangle.
pub open spec fn closed_surface(tris: Seq<Triangle>) -> bool {
    &&& forall|i: int, j: int|
        is_side(tris, i, j) ==> (#[trigger] side(tris[i], j)).0 != side(tris[i], j).1
    &&& forall|i: int, j: int, p: int, q: int|
        is_side(tris, i, j) && is_side(tris, p, q) && #[trigger] side(tris[i], j)
            == #[trigger] side(tris[p], q) ==> i == p && j == q
    &&& forall|i: int, j: int|
        is_side(tris, i, j) ==> has_side(tris, turned(#[trigger] side(tris[i], j)))
    &&& forall|i: int, j: int, p: int, q: int|
        is_side(tris, i, j) && is_side(tris, p, q) && #[trigger] side(tris[i], j) == turned(
            #[trigger] side(tris[p], q),
        ) ==> opposite(tris[i], j) != opposite(tris[p], q)
}

/// Whether every triangle has its vertices among the first `count`.
pub open spec fn vertices_below(tris: Seq<Triangle>, count: int) -> bool {
    forall|i: int|
        0 <= i < tris.len() ==> (#[trigger] tris[i]).a < count && tris[i].b < count && tris[i].c
            < count
}

/// What splitting a closed surface starts from.
spec fn splits(tris: Seq<Triangle>, base: int, es: Seq<(u32, u32)>) -> bool {
    &&& closed_surface(tris)
    &&& vertices_below(tris, base)
    &&& es == firsts(edges(tris))
    &&& 0 <= base
    &&& base + es.len() <= u32::MAX
}

proof fn lemma_edge_is_known(tris: Seq<Triangle>, base: int, es: Seq<(u32, u32)>, i: int, j: int)
    requires
        splits(tris, base, es),
        is_side(tris, i, j),
    ensures
        es.contains(edge(side(tris[i], j))),
        base <= between(base, es, side(tris[i], j)) < base + es.len(),
        es[between(base, es, side(tris[i], j)) - base] == edge(side(tris[i], j)),
{
    let all = edges(tris);
    lemma_firsts(all);
    assert((3 * i + j) / 3 == i && (3 * i + j) % 3 == j);
    assert(all[3 * i + j] == edge(side(tris[i], j)));
    assert(all.contains(edge(side(tris[i], j))));
}

/// Two sides have the same midpoint only where they are the same or each other's turn.
proof fn lemma_midpoint_of(
    tris: Seq<Triangle>,
    base: int,
    es: Seq<(u32, u32)>,
    i: int,
    j: int,
    p: int,
    q: int,
)
    requires
        splits(tris, base, es),
        is_side(tris, i, j),
        is_side(tris, p, q),
        between(base, es, side(tris[i], j)) == between(base, es, side(tris[p], q)),
    ensures
        (i == p && j == q) || side(tris[i], j) == turned(side(tris[p], q)),
{
    lemma_edge_is_known(tris, base, es, i, j);
    lemma_edge_is_known(tris, base, es, p, q);
    let s = side(tris[i], j);
    let t = side(tris[p], q);
    assert(edge(s) == edge(t));
    assert(s == t || s == turned(t));
}

/// Two midpoints belong to no more than one triangle.
proof fn lemma_two_midpoints(
    tris: Seq<Triangle>,
    base: int,
    es: Seq<(u32, u32)>,
    i: int,
    j: int,
    k: int,
    p: int,
    q: int,
    r: int,
)
    requires
        splits(tris, base, es),
        is_side(tris, i, j),
        is_side(tris, i, k),
        is_side(tris, p, q),
        is_side(tris, p, r),
        j != k,
        between(base, es, side(tris[i], j)) == between(base, es, side(tris[p], q)),
        between(base, es, side(tris[i], k)) == between(base, es, side(tris[p], r)),
    ensures
        i == p,
        j == q,
        k == r,
{
    lemma_midpoint_of(tris, base, es, i, j, p, q);
    lemma_midpoint_of(tris, base, es, i, k, p, r);
    let t = tris[i];
    let w = tris[p];
    assert(side(t, 0).0 != side(t, 0).1);
    assert(side(t, 1).0 != side(t, 1).1);
    assert(side(t, 2).0 != side(t, 2).1);
    assert(side(w, 0).0 != side(w, 0).1);
    assert(side(w, 1).0 != side(w, 1).1);
    assert(side(w, 2).0 != side(w, 2).1);
}

/// One splitting of a closed surface gives a closed surface.
pub proof fn law_split_stays_closed(tris: Seq<Triangle>, base: int)
    requires
        closed_surface(tris),
        vertices_below(tris, base),
        base + firsts(edges(tris)).len() <= u32::MAX,
    ensures
        closed_surface(parts(tris, base, firsts(edges(tris)))),
        vertices_below(parts(tris, base, firsts(edges(tris))), base + firsts(edges(tris)).len()),
{
    let es = firsts(edges(tris));
    let finer = parts(tris, base, es);
    if tris.len() > 0 {
        assert(tris[0].a < base);
        assert(splits(tris, base, es));
        lemma_parts_below(tris, base, es);
        assert forall|x: int, r: int| is_side(finer, x, r) implies (#[trigger] side(
            finer[x],
            r,
        )).0 != side(finer[x], r).1 by {
            lemma_part_side_is_no_point(tris, base, es, x / 4, x % 4, r);
        }
        assert forall|x: int, r: int, y: int, s: int|
            is_side(finer, x, r) && is_side(finer, y, s) && #[trigger] side(finer[x], r)
                == #[trigger] side(finer[y], s) implies x == y && r == s by {
            lemma_part_sides_differ(tris, base, es, x / 4, x % 4, r, y / 4, y % 4, s);
        }
        assert forall|x: int, r: int| is_side(finer, x, r) implies has_side(
            finer,
            turned(#[trigger] side(finer[x], r)),
        ) by {
            lemma_part_side_turned(tris, base, es, x / 4, x % 4, r);
        }
        assert forall|x: int, r: int, y: int, s: int|
            is_side(finer, x, r) && is_side(finer, y, s) && #[trigger] side(finer[x], r) == turned(
                #[trigger] side(finer[y], s),
            ) implies opposite(finer[x], r) != opposite(finer[y], s) by {
            lemma_part_sides_fold(tris, base, es, x / 4, x % 4, r, y / 4, y % 4, s);
        }
    } else {
        assert(finer.len() == 0);
    }
}

proof fn lemma_parts_below(tris: Seq<Triangle>, base: int, es: Seq<(u32, u32)>)
    requires
        splits(tris, base, es),
    ensures
        vertices_below(parts(tris, base, es), base + es.len()),
{
    let finer = parts(tris, base, es);
    assert forall|x: int| 0 <= x < finer.len() implies (#[trigger] finer[x]).a < base + es.len()
        && finer[x].b < base + es.len() && finer[x].c < base + es.len() by {
        let t = tris[x / 4];
        lemma_edge_is_known(tris, base, es, x / 4, 0);
        lemma_edge_is_known(tris, base, es, x / 4, 1);
        lemma_edge_is_known(tris, base, es, x / 4, 2);
    }
}

proof fn lemma_part_side_is_no_point(
    tris: Seq<Triangle>,
    base: int,
    es: Seq<(u32, u32)>,
    i: int,
    j: int,
    r: int,
)
    requires
        splits(tris, base, es),
        0 <= i < tris.len(),
        0 <= j < 4,
        0 <= r < 3,
    ensures
        side(part(tris[i], base, es, j), r).0 != side(part(tris[i], base, es, j), r).1,
{
    lemma_inner_midpoints(tris, base, es, i);
}

/// The midpoints of one triangle's sides are new and differ from each other.
proof fn lemma_inner_midpoints(tris: Seq<Triangle>, base: int, es: Seq<(u32, u32)>, i: int)
    requires
        splits(tris, base, es),
        0 <= i < tris.len(),
    ensures
        tris[i].a < base,
        tris[i].b < base,
        tris[i].c < base,
        between(base, es, side(tris[i], 0)) >= base,
        between(base, es, side(tris[i], 1)) >= base,
        between(base, es, side(tris[i], 2)) >= base,
        between(base, es, side(tris[i], 0)) != between(base, es, side(tris[i], 1)),
        between(base, es, side(tris[i], 1)) != between(base, es, side(tris[i], 2)),
        between(base, es, side(tris[i], 2)) != between(base, es, side(tris[i], 0)),
{
    let t = tris[i];
    lemma_edge_is_known(tris, base, es, i, 0);
    lemma_edge_is_known(tris, base, es, i, 1);
    lemma_edge_is_known(tris, base, es, i, 2);
    assert(side(t, 0).0 != side(t, 0).1);
    assert(side(t, 1).0 != side(t, 1).1);
    assert(side(t, 2).0 != side(t, 2).1);
}

/// What two triangles' midpoints tell of the triangles.
proof fn lemma_midpoints_of_pair(
    tris: Seq<Triangle>,
    base: int,
    es: Seq<(u32, u32)>,
    i: int,
    p: int,
)
    requires
        splits(tris, base, es),
        0 <= i < tris.len(),
        0 <= p < tris.len(),
    ensures
        forall|j: int, q: int|
            0 <= j < 3 && 0 <= q < 3 && #[trigger] between(base, es, side(tris[i], j))
                == #[trigger] between(base, es, side(tris[p], q)) ==> (i == p && j == q)
                || side(tris[i], j) == turned(side(tris[p], q)),
        forall|j: int, k: int, q: int, r: int|
            0 <= j < 3 && 0 <= k < 3 && 0 <= q < 3 && 0 <= r < 3 && j != k && #[trigger] between(
                base,
                es,
                side(tris[i], j),
            ) == #[trigger] between(base, es, side(tris[p], q)) && #[trigger] between(
                base,
                es,
                side(tris[i], k),
            ) == #[trigger] between(base, es, side(tris[p], r)) ==> i == p && j == q && k == r,
{
    assert forall|j: int, q: int|
        0 <= j < 3 && 0 <= q < 3 && #[trigger] between(base, es, side(tris[i], j))
            == #[trigger] between(base, es, side(tris[p], q)) implies (i == p && j == q) || side(
        tris[i],
        j,
    ) == turned(side(tris[p], q)) by {
        lemma_midpoint_of(tris, base, es, i, j, p, q);
    }
    assert forall|j: int, k: int, q: int, r: int|
        0 <= j < 3 && 0 <= k < 3 && 0 <= q < 3 && 0 <= r < 3 && j != k && #[trigger] between(
            base,
            es,
            side(tris[i], j),
        ) == #[trigger] between(base, es, side(tris[p], q)) && #[trigger] between(
            base,
            es,
            side(tris[i], k),
        ) == #[trigger] between(base, es, side(tris[p], r)) implies i == p && j == q && k == r by {
        lemma_two_midpoints(tris, base, es, i, j, k, p, q, r);
    }
}

#[verifier::rlimit(60)]
#[verifier::spinoff_prover]
proof fn lemma_part_sides_differ(
    tris: Seq<Triangle>,
    base: int,
    es: Seq<(u32, u32)>,
    i: int,
    j: int,
    r: int,
    p: int,
    q: int,
    s: int,
)
    requires
        splits(tris, base, es),
        0 <= i < tris.len(),
        0 <= j < 4,
        0 <= r < 3,
        0 <= p < tris.len(),
        0 <= q < 4,
        0 <= s < 3,
        side(part(tris[i], base, es, j), r) == side(part(tris[p], base, es, q), s),
    ensures
        i == p,
        j == q,
        r == s,
{
    lemma_inner_midpoints(tris, base, es, i);
    lemma_inner_midpoints(tris, base, es, p);
    lemma_midpoints_of_pair(tris, base, es, i, p);
    let t = tris[i];
    let w = tris[p];
    assert(side(t, 0).0 != side(t, 0).1);
    assert(side(t, 1).0 != side(t, 1).1);
    assert(side(t, 2).0 != side(t, 2).1);
}

proof fn lemma_part_side_turned(
    tris: Seq<Triangle>,
    base: int,
    es: Seq<(u32, u32)>,
    i: int,
    j: int,
    r: int,
)
    requires
        splits(tris, base, es),
        0 <= i < tris.len(),
        0 <= j < 4,
        0 <= r < 3,
    ensures
        has_side(parts(tris, base, es), turned(side(part(tris[i], base, es, j), r))),
{
    let finer = parts(tris, base, es);
    let t = tris[i];
    let wanted = turned(side(part(t, base, es, j), r));
    assert(finer[4 * i] == part(t, base, es, 0));
    assert(finer[4 * i + 1] == part(t, base, es, 1));
    assert(finer[4 * i + 2] == part(t, base, es, 2));
    assert(finer[4 * i + 3] == part(t, base, es, 3));
    if j == 3 {
        // The part in the middle touches the one at the corner where its side ends.
        let corner = if r == 2 { 0 } else { r + 1 };
        assert(side(finer[4 * i + corner], 1) == wanted);
    } else if r == 1 {
        let into = if j == 0 { 2 } else { j - 1 };
        assert(side(finer[4 * i + 3], into) == wanted);
    } else {
        // Half of an old side: the other half-side lies in the neighbour.
        let k = if r == 0 {
            j
        } else if j == 0 {
            2
        } else {
            j - 1
        };
        assert(is_side(tris, i, k));
        assert(has_side(tris, turned(side(t, k))));
        let (p, q) = choose|p: int, q: int|
            is_side(tris, p, q) && #[trigger] side(tris[p], q) == turned(side(t, k));
        let w = tris[p];
        assert(edge(side(w, q)) == edge(side(t, k))) by {
            assert(side(t, k).0 != side(t, k).1);
        }
        assert(finer[4 * p] == part(w, base, es, 0));
        assert(finer[4 * p + 1] == part(w, base, es, 1));
        assert(finer[4 * p + 2] == part(w, base, es, 2));
        if r == 0 {
            let corner = if q == 2 { 0 } else { q + 1 };
            assert(side(finer[4 * p + corner], 2) == wanted);
        } else {
            assert(side(finer[4 * p + q], 0) == wanted);
        }
    }
}

#[verifier::rlimit(60)]
#[verifier::spinoff_prover]
proof fn lemma_part_sides_fold(
    tris: Seq<Triangle>,
    base: int,
    es: Seq<(u32, u32)>,
    i: int,
    j: int,
    r: int,
    p: int,
    q: int,
    s: int,
)
    requires
        splits(tris, base, es),
        0 <= i < tris.len(),
        0 <= j < 4,
        0 <= r < 3,
        0 <= p < tris.len(),
        0 <= q < 4,
        0 <= s < 3,
        side(part(tris[i], base, es, j), r) == turned(side(part(tris[p], base, es, q), s)),
    ensures
        opposite(part(tris[i], base, es, j), r) != opposite(part(tris[p], base, es, q), s),
{
    lemma_inner_midpoints(tris, base, es, i);
    lemma_inner_midpoints(tris, base, es, p);
    lemma_midpoints_of_pair(tris, base, es, i, p);
    let t = tris[i];
    let w = tris[p];
    assert(side(t, 0).0 != side(t, 0).1);
    assert(side(t, 1).0 != side(t, 1).1);
    assert(side(t, 2).0 != side(t, 2).1);
}

/// Half as many edges as sides: each edge is a side of two triangles.
proof fn lemma_edge_count(tris: Seq<Triangle>)
    requires
        closed_surface(tris),
    ensures
        2 * firsts(edges(tris)).len() == 3 * tris.len(),
{
    let ss = sides(tris);
    let es = firsts(edges(tris));
    lemma_firsts(edges(tris));
    assert forall|k: int| 0 <= k < ss.len() implies #[trigger] ss[k] == side(tris[k / 3], k % 3)
        && is_side(tris, k / 3, k % 3) by {}
    assert(ss.no_duplicates()) by {
        assert forall|k: int, l: int| 0 <= k < ss.len() && 0 <= l < ss.len() && k != l implies ss[k]
            != ss[l] by {
            assert(ss[k] == side(tris[k / 3], k % 3));
            assert(ss[l] == side(tris[l / 3], l % 3));
        }
    }
    ss.unique_seq_to_set();
    es.unique_seq_to_set();
    vstd::seq_lib::seq_to_set_is_finite(ss);
    let all = ss.to_set();
    let up = |s: (u32, u32)| s.0 < s.1;
    let down = |s: (u32, u32)| s.1 < s.0;
    let ups = all.filter(up);
    let downs = all.filter(down);
    all.lemma_len_filter(up);
    all.lemma_len_filter(down);
    let turn = |s: (u32, u32)| turned(s);
    assert forall|s: (u32, u32)| #[trigger] all.contains(s) implies all.contains(turned(s)) && s.0
        != s.1 by {
        let k = choose|k: int| 0 <= k < ss.len() && ss[k] == s;
        assert(side(tris[k / 3], k % 3) == s);
        assert(has_side(tris, turned(s)));
        let (i, j) = choose|i: int, j: int|
            is_side(tris, i, j) && #[trigger] side(tris[i], j) == turned(s);
        assert((3 * i + j) / 3 == i && (3 * i + j) % 3 == j);
        assert(ss[3 * i + j] == turned(s));
        assert(ss.contains(turned(s)));
    }
    assert(ups.map(turn) =~= downs) by {
        assert forall|s: (u32, u32)| downs.contains(s) implies ups.map(turn).contains(s) by {
            assert(all.contains(s));
            assert(ups.contains(turned(s)));
            assert(turn(turned(s)) == s);
        }
        assert forall|s: (u32, u32)| ups.map(turn).contains(s) implies downs.contains(s) by {
            let r = choose|r: (u32, u32)| ups.contains(r) && turn(r) == s;
            assert(all.contains(r));
        }
    }
    vstd::set_lib::lemma_map_size(ups, downs, turn);
    assert(all =~= ups + downs);
    assert(ups.disjoint(downs));
    vstd::set_lib::lemma_set_disjoint_lens(ups, downs);
    assert(es.to_set() =~= ups) by {
        assert forall|e: (u32, u32)| es.to_set().contains(e) <==> ups.contains(e) by {
            if ups.contains(e) {
                let k = choose|k: int| 0 <= k < ss.len() && ss[k] == e;
                assert(edges(tris)[k] == e);
                assert(edges(tris).contains(e));
            }
            if es.contains(e) {
                assert(edges(tris).contains(e));
                let k = choose|k: int| 0 <= k < edges(tris).len() && edges(tris)[k] == e;
                assert(e == edge(ss[k]));
                assert(ss.contains(ss[k]));
                assert(all.contains(ss[k]));
                assert(all.contains(turned(ss[k])));
            }
        }
    }
}

proof fn lemma_icosahedron_sides_turned(i: int, j: int)
    requires
        is_side(icosahedron(), i, j),
    ensures
        has_side(icosahedron(), turned(side(icosahedron()[i], j))),
{
    let tris = icosahedron();
    assert(side(tris[4], 2) == turned(side(tris[0], 0)));
    assert(side(tris[6], 0) == turned(side(tris[0], 1)));
    assert(side(tris[1], 0) == turned(side(tris[0], 2)));
    assert(side(tris[0], 2) == turned(side(tris[1], 0)));
    assert(side(tris[5], 0) == turned(side(tris[1], 1)));
    assert(side(tris[2], 0) == turned(side(tris[1], 2)));
    assert(side(tris[1], 2) == turned(side(tris[2], 0)));
    assert(side(tris[9], 0) == turned(side(tris[2], 1)));
    assert(side(tris[3], 0) == turned(side(tris[2], 2)));
    assert(side(tris[2], 2) == turned(side(tris[3], 0)));
    assert(side(tris[8], 0) == turned(side(tris[3], 1)));
    assert(side(tris[4], 0) == turned(side(tris[3], 2)));
    assert(side(tris[3], 2) == turned(side(tris[4], 0)));
    assert(side(tris[7], 0) == turned(side(tris[4], 1)));
    assert(side(tris[0], 0) == turned(side(tris[4], 2)));
    assert(side(tris[1], 1) == turned(side(tris[5], 0)));
    assert(side(tris[15], 1) == turned(side(tris[5], 1)));
    assert(side(tris[19], 2) == turned(side(tris[5], 2)));
    assert(side(tris[0], 1) == turned(side(tris[6], 0)));
    assert(side(tris[16], 1) == turned(side(tris[6], 1)));
    assert(side(tris[15], 2) == turned(side(tris[6], 2)));
    assert(side(tris[4], 1) == turned(side(tris[7], 0)));
    assert(side(tris[17], 1) == turned(side(tris[7], 1)));
    assert(side(tris[16], 2) == turned(side(tris[7], 2)));
    assert(side(tris[3], 1) == turned(side(tris[8], 0)));
    assert(side(tris[18], 1) == turned(side(tris[8], 1)));
    assert(side(tris[17], 2) == turned(side(tris[8], 2)));
    assert(side(tris[2], 1) == turned(side(tris[9], 0)));
    assert(side(tris[19], 1) == turned(side(tris[9], 1)));
    assert(side(tris[18], 2) == turned(side(tris[9], 2)));
    assert(side(tris[14], 2) == turned(side(tris[10], 0)));
    assert(side(tris[15], 0) == turned(side(tris[10], 1)));
    assert(side(tris[11], 0) == turned(side(tris[10], 2)));
    assert(side(tris[10], 2) == turned(side(tris[11], 0)));
    assert(side(tris[16], 0) == turned(side(tris[11], 1)));
    assert(side(tris[12], 0) == turned(side(tris[11], 2)));
    assert(side(tris[11], 2) == turned(side(tris[12], 0)));
    assert(side(tris[17], 0) == turned(side(tris[12], 1)));
    assert(side(tris[13], 0) == turned(side(tris[12], 2)));
    assert(side(tris[12], 2) == turned(side(tris[13], 0)));
    assert(side(tris[18], 0) == turned(side(tris[13], 1)));
    assert(side(tris[14], 0) == turned(side(tris[13], 2)));
    assert(side(tris[13], 2) == turned(side(tris[14], 0)));
    assert(side(tris[19], 0) == turned(side(tris[14], 1)));
    assert(side(tris[10], 0) == turned(side(tris[14], 2)));
    assert(side(tris[10], 1) == turned(side(tris[15], 0)));
    assert(side(tris[5], 1) == turned(side(tris[15], 1)));
    assert(side(tris[6], 2) == turned(side(tris[15], 2)));
    assert(side(tris[11], 1) == turned(side(tris[16], 0)));
    assert(side(tris[6], 1) == turned(side(tris[16], 1)));
    assert(side(tris[7], 2) == turned(side(tris[16], 2)));
    assert(side(tris[12], 1) == turned(side(tris[17], 0)));
    assert(side(tris[7], 1) == turned(side(tris[17], 1)));
    assert(side(tris[8], 2) == turned(side(tris[17], 2)));
    assert(side(tris[13], 1) == turned(side(tris[18], 0)));
    assert(side(tris[8], 1) == turned(side(tris[18], 1)));
    assert(side(tris[9], 2) == turned(side(tris[18], 2)));
    assert(side(tris[14], 1) == turned(side(tris[19], 0)));
    assert(side(tris[9], 1) == turned(side(tris[19], 1)));
    assert(side(tris[5], 2) == turned(side(tris[19], 2)));
    assert(i == 0 || i == 1 || i == 2 || i == 3 || i == 4 || i == 5 || i == 6 || i == 7 || i == 8
        || i == 9 || i == 10 || i == 11 || i == 12 || i == 13 || i == 14 || i == 15 || i == 16
        || i == 17 || i == 18 || i == 19);
}

proof fn lemma_icosahedron_sides_differ(i: int, j: int, p: int, q: int)
    requires
        is_side(icosahedron(), i, j),
        is_side(icosahedron(), p, q),
    ensures
        side(icosahedron()[i], j) == side(icosahedron()[p], q) ==> i == p && j == q,
{
    let tris = icosahedron();
    assert(i == 0 || i == 1 || i == 2 || i == 3 || i == 4 || i == 5 || i == 6 || i == 7 || i == 8
        || i == 9 || i == 10 || i == 11 || i == 12 || i == 13 || i == 14 || i == 15 || i == 16
        || i == 17 || i == 18 || i == 19);
    assert(p == 0 || p == 1 || p == 2 || p == 3 || p == 4 || p == 5 || p == 6 || p == 7 || p == 8
        || p == 9 || p == 10 || p == 11 || p == 12 || p == 13 || p == 14 || p == 15 || p == 16
        || p == 17 || p == 18 || p == 19);
}

proof fn lemma_icosahedron_folds(i: int, j: int, p: int, q: int)
    requires
        is_side(icosahedron(), i, j),
        is_side(icosahedron(), p, q),
    ensures
        side(icosahedron()[i], j) == turned(side(icosahedron()[p], q)) ==> opposite(
            icosahedron()[i],
            j,
        ) != opposite(icosahedron()[p], q),
{
    let tris = icosahedron();
    assert(i == 0 || i == 1 || i == 2 || i == 3 || i == 4 || i == 5 || i == 6 || i == 7 || i == 8
        || i == 9 || i == 10 || i == 11 || i == 12 || i == 13 || i == 14 || i == 15 || i == 16
        || i == 17 || i == 18 || i == 19);
    assert(p == 0 || p == 1 || p == 2 || p == 3 || p == 4 || p == 5 || p == 6 || p == 7 || p == 8
        || p == 9 || p == 10 || p == 11 || p == 12 || p == 13 || p == 14 || p == 15 || p == 16
        || p == 17 || p == 18 || p == 19);
}

proof fn lemma_icosahedron()
    ensures
        closed_surface(icosahedron()),
        vertices_below(icosahedron(), CORNERS as int),
        icosahedron().len() == 20,
{
    let tris = icosahedron();
    assert forall|i: int, j: int| is_side(tris, i, j) implies (#[trigger] side(tris[i], j)).0
        != side(tris[i], j).1 by {
        assert(i == 0 || i == 1 || i == 2 || i == 3 || i == 4 || i == 5 || i == 6 || i == 7
            || i == 8 || i == 9 || i == 10 || i == 11 || i == 12 || i == 13 || i == 14 || i == 15
            || i == 16 || i == 17 || i == 18 || i == 19);
    }
    assert forall|i: int, j: int, p: int, q: int|
        is_side(tris, i, j) && is_side(tris, p, q) && #[trigger] side(tris[i], j)
            == #[trigger] side(tris[p], q) implies i == p && j == q by {
        lemma_icosahedron_sides_differ(i, j, p, q);
    }
    assert forall|i: int, j: int| is_side(tris, i, j) implies has_side(
        tris,
        turned(#[trigger] side(tris[i], j)),
    ) by {
        lemma_icosahedron_sides_turned(i, j);
    }
    assert forall|i: int, j: int, p: int, q: int|
        is_side(tris, i, j) && is_side(tris, p, q) && #[trigger] side(tris[i], j) == turned(
            #[trigger] side(tris[p], q),
        ) implies opposite(tris[i], j) != opposite(tris[p], q) by {
        lemma_icosahedron_folds(i, j, p, q);
    }
}

/// One number for an edge.
pub open spec fn edge_key(e: (u32, u32)) -> int {
    e.0 * 0x1_0000_0000 + e.1
}

/// Whether the cache knows exactly the edges `done`, each with its vertex.
spec fn caches(cache: Map<u64, u32>, done: Seq<(u32, u32)>, base: int) -> bool {
    &&& forall|e: (u32, u32)| #[trigger] done.contains(e) <==> cache.contains_key(
        edge_key(e) as u64,
    )
    &&& forall|e: (u32, u32)| #[trigger] done.contains(e) ==> cache[edge_key(e) as u64] == base
        + done.index_of(e)
}

/// The vertex halfway between `u` and `v`, which is made where there is none yet.
fn middle(
    cache: &mut HashMap<u64, u32>,
    midpoints: &mut Vec<(u32, u32)>,
    start: usize,
    u: u32,
    v: u32,
) -> (m: u32)
    requires
        start <= old(midpoints)@.len(),
        !old(midpoints)@.skip(start as int).contains(edge((u, v))) ==> CORNERS + old(
            midpoints,
        )@.len() < u32::MAX,
        old(midpoints)@.skip(start as int).no_duplicates(),
        caches(old(cache)@, old(midpoints)@.skip(start as int), CORNERS + start),
    ensures
        final(midpoints)@.len() >= old(midpoints)@.len(),
        final(midpoints)@.take(start as int) == old(midpoints)@.take(start as int),
        final(midpoints)@.skip(start as int) == ({
            let done = old(midpoints)@.skip(start as int);
            if done.contains(edge((u, v))) {
                done
            } else {
                done.push(edge((u, v)))
            }
        }),
        final(midpoints)@.skip(start as int).contains(edge((u, v))),
        caches(final(cache)@, final(midpoints)@.skip(start as int), CORNERS + start),
        m == CORNERS + start + final(midpoints)@.skip(start as int).index_of(edge((u, v))),
{
    broadcast use vstd::std_specs::hash::group_hash_axioms;

    let (lo, hi): (u32, u32) = if u < v {
        (u, v)
    } else {
        (v, u)
    };
    let key: u64 = lo as u64 * 0x1_0000_0000 + hi as u64;
    let ghost done = midpoints@.skip(start as int);
    let ghost e = edge((u, v));
    assert(e == (lo, hi));
    assert(key == edge_key(e));
    if let Some(m) = cache.get(&key) {
        assert(done.contains(e));
        return *m;
    }
    assert(!done.contains(e));
    let m: u32 = CORNERS + midpoints.len() as u32;
    midpoints.push((lo, hi));
    cache.insert(key, m);
    proof {
        let after = midpoints@.skip(start as int);
        assert(after =~= done.push(e));
        assert(midpoints@.take(start as int) =~= old(midpoints)@.take(start as int));
        assert(after[done.len() as int] == e);
        assert(after.no_duplicates());
        assert forall|f: (u32, u32)| #[trigger] after.contains(f) <==> cache@.contains_key(
            edge_key(f) as u64,
        ) by {
            assert(edge_key(f) as u64 == key ==> f == e);
            if done.contains(f) {
                assert(after[done.index_of(f)] == f);
            }
        }
        assert forall|f: (u32, u32)| #[trigger] after.contains(f) implies cache@[edge_key(
            f,
        ) as u64] == CORNERS + start + after.index_of(f) by {
            assert(edge_key(f) as u64 == key ==> f == e);
            if f != e {
                assert(done.contains(f));
                lemma_index_in_prefix(done, after, f);
            }
        }
    }
    m
}

/// Splits every triangle into four.
fn split_mesh(mesh: Mesh) -> (finer: Mesh)
    requires
        split(mesh@).vertex_count() <= u32::MAX,
    ensures
        finer@ == split(mesh@),
{
    let ghost tris = mesh.triangles@;
    let ghost all = edges(tris);
    let ghost es = firsts(all);
    let start: usize = mesh.midpoints.len();
    let ghost base = CORNERS + start;
    let triangles = mesh.triangles;
    let mut midpoints = mesh.midpoints;
    let ghost given = midpoints@;
    let mut cache: HashMap<u64, u32> = HashMap::new();
    let mut finer: Vec<Triangle> = Vec::new();
    proof {
        lemma_firsts(all);
        assert(midpoints@.skip(start as int) =~= firsts(all.take(0)));
        assert(midpoints@.take(start as int) =~= given);
    }
    for i in 0..triangles.len()
        invariant
            tris == triangles@,
            all == edges(tris),
            es == firsts(all),
            es.no_duplicates(),
            start == given.len(),
            base == CORNERS + start,
            base + es.len() <= u32::MAX,
            start <= midpoints@.len(),
            midpoints@.take(start as int) == given,
            midpoints@.skip(start as int) == firsts(all.take(3 * i)),
            caches(cache@, firsts(all.take(3 * i)), base),
            finer@ == parts(tris, base, es).take(4 * i),
    {
        let t: Triangle = triangles[i];
        proof {
            lemma_split_step(all, 3 * i);
            lemma_split_step(all, 3 * i + 1);
            lemma_split_step(all, 3 * i + 2);
            assert(all[3 * i] == edge(side(t, 0)));
            assert(all[3 * i + 1] == edge(side(t, 1)));
            assert(all[3 * i + 2] == edge(side(t, 2)));
        }
        let ab: u32 = middle(&mut cache, &mut midpoints, start, t.a, t.b);
        let bc: u32 = middle(&mut cache, &mut midpoints, start, t.b, t.c);
        let ca: u32 = middle(&mut cache, &mut midpoints, start, t.c, t.a);
        finer.push(Triangle { a: t.a, b: ab, c: ca });
        finer.push(Triangle { a: t.b, b: bc, c: ab });
        finer.push(Triangle { a: t.c, b: ca, c: bc });
        finer.push(Triangle { a: ab, b: bc, c: ca });
        proof {
            assert(ab == between(base, es, side(t, 0)));
            assert(bc == between(base, es, side(t, 1)));
            assert(ca == between(base, es, side(t, 2)));
            assert(finer@ =~= parts(tris, base, es).take(4 * (i + 1)));
        }
    }
    proof {
        assert(all.take(3 * triangles.len() as int) =~= all);
        assert(midpoints@ =~= given + es);
        assert(parts(tris, base, es).take(4 * triangles.len() as int) =~= parts(tris, base, es));
    }
    Mesh { midpoints, triangles: finer }
}

/// The deepest splitting whose vertices still have 32-bit numbers.
pub const MAX_SUBDIV: u32 = 14;

/// Each splitting makes four triangles of one, the shell has by Euler's formula as
/// many vertices as half its triangles and two more, and it stays a closed surface
/// whose triangles name existing vertices only.
pub proof fn law_icosphere_is_closed(subdiv: nat)
    requires
        subdiv <= MAX_SUBDIV,
    ensures
        icosphere(subdiv).triangles.len() == 20 * pow(4, subdiv),
        icosphere(subdiv).vertex_count() == 10 * pow(4, subdiv) + 2,
        icosphere(subdiv).vertex_count() <= u32::MAX,
        vertices_below(icosphere(subdiv).triangles, icosphere(subdiv).vertex_count()),
        closed_surface(icosphere(subdiv).triangles),
    decreases subdiv,
{
    reveal(pow);
    if subdiv == 0 {
        lemma_icosahedron();
    } else {
        let before = icosphere((subdiv - 1) as nat);
        law_icosphere_is_closed((subdiv - 1) as nat);
        lemma_edge_count(before.triangles);
        assert(pow(4, subdiv) == 4 * pow(4, (subdiv - 1) as nat));
        lemma_pow_increases(4, subdiv, MAX_SUBDIV as nat);
        assert(pow(4, 14) == 268_435_456) by {
            reveal_with_fuel(pow, 15);
        }
        law_split_stays_closed(before.triangles, before.vertex_count());
    }
}

/// Every vertex that splitting adds lies between two earlier vertices, so that its
/// position can be worked out in the order of the numbers.
pub proof fn law_midpoints_come_later(subdiv: nat)
    requires
        subdiv <= MAX_SUBDIV,
    ensures
        forall|i: int|
            0 <= i < icosphere(subdiv).midpoints.len() ==> (#[trigger] icosphere(
                subdiv,
            ).midpoints[i]).0 < icosphere(subdiv).midpoints[i].1 < CORNERS + i,
    decreases subdiv,
{
    if subdiv > 0 {
        let before = icosphere((subdiv - 1) as nat);
        law_midpoints_come_later((subdiv - 1) as nat);
        law_icosphere_is_closed((subdiv - 1) as nat);
        let all = edges(before.triangles);
        let es = firsts(all);
        lemma_firsts(all);
        let after = icosphere(subdiv).midpoints;
        assert forall|i: int| 0 <= i < after.len() implies (#[trigger] after[i]).0 < after[i].1
            < CORNERS + i by {
            if i < before.midpoints.len() {
                assert(after[i] == before.midpoints[i]);
            } else {
                let e = es[i - before.midpoints.len()];
                assert(after[i] == e);
                assert(es.contains(e));
                assert(all.contains(e));
                let k = choose|k: int| 0 <= k < all.len() && all[k] == e;
                assert(is_side(before.triangles, k / 3, k % 3));
                let t = before.triangles[k / 3];
                let s = side(t, k % 3);
                assert(s.0 != s.1);
                assert(t.a < before.vertex_count());
            }
        }
    }
}

/// No pair of vertices gets two midpoints in one splitting.
pub proof fn law_one_midpoint_per_edge(m: MeshModel)
    ensures
        split(m).midpoints.skip(m.midpoints.len() as int).no_duplicates(),
        forall|e: (u32, u32)| #[trigger]
            split(m).midpoints.skip(m.midpoints.len() as int).contains(e) <==> edges(
                m.triangles,
            ).contains(e),
{
    let es = firsts(edges(m.triangles));
    lemma_firsts(edges(m.triangles));
    assert(split(m).midpoints.skip(m.midpoints.len() as int) =~= es);
}

/// Builds the shell of `subdiv` splittings: the pairs that its further vertices lie
/// between, and its triangles.
pub fn build_icosphere(subdiv: u32) -> (mesh: Mesh)
    requires
        subdiv <= MAX_SUBDIV,
    ensures
        mesh@ == icosphere(subdiv as nat),
{
    let triangles: Vec<Triangle> = vec![
        Triangle { a: 0, b: 11, c: 5 },
        Triangle { a: 0, b: 5, c: 1 },
        Triangle { a: 0, b: 1, c: 7 },
        Triangle { a: 0, b: 7, c: 10 },
        Triangle { a: 0, b: 10, c: 11 },
        Triangle { a: 1, b: 5, c: 9 },
        Triangle { a: 5, b: 11, c: 4 },
        Triangle { a: 11, b: 10, c: 2 },
        Triangle { a: 10, b: 7, c: 6 },
        Triangle { a: 7, b: 1, c: 8 },
        Triangle { a: 3, b: 9, c: 4 },
        Triangle { a: 3, b: 4, c: 2 },
        Triangle { a: 3, b: 2, c: 6 },
        Triangle { a: 3, b: 6, c: 8 },
        Triangle { a: 3, b: 8, c: 9 },
        Triangle { a: 4, b: 9, c: 5 },
        Triangle { a: 2, b: 4, c: 11 },
        Triangle { a: 6, b: 2, c: 10 },
        Triangle { a: 8, b: 6, c: 7 },
        Triangle { a: 9, b: 8, c: 1 },
    ];
    let mut mesh = Mesh { midpoints: Vec::new(), triangles };
    assert(mesh@ =~= icosphere(0));
    for done in 0..subdiv
        invariant
            subdiv <= MAX_SUBDIV,
            mesh@ == icosphere(done as nat),
    {
        proof {
            law_icosphere_is_closed((done + 1) as nat);
        }
        mesh = split_mesh(mesh);
    }
    mesh
}

impl Mesh {
    /// The vertex numbers of the triangles one after the other, as an index buffer
    /// holds them.
    pub fn indices(&self) -> (ibuf: Vec<u32>)
        ensures
            ibuf@ == sides(self@.triangles).map_values(|s: (u32, u32)| s.0),
            ibuf@.len() == 3 * self.triangles@.len(),
            forall|i: int|
                0 <= i < self.triangles@.len() ==> {
                    let t = #[trigger] self.triangles@[i];
                    ibuf@[3 * i] == t.a && ibuf@[3 * i + 1] == t.b && ibuf@[3 * i + 2] == t.c
                },
    {
        let mut ibuf: Vec<u32> = Vec::new();
        let ghost wanted = sides(self@.triangles).map_values(|s: (u32, u32)| s.0);
        for i in 0..self.triangles.len()
            invariant
                wanted == sides(self@.triangles).map_values(|s: (u32, u32)| s.0),
                ibuf@ == wanted.take(3 * i),
        {
            let t: Triangle = self.triangles[i];
            ibuf.push(t.a);
            ibuf.push(t.b);
            ibuf.push(t.c);
            assert(ibuf@ =~= wanted.take(3 * (i + 1)));
        }
        assert(wanted.take(3 * self.triangles.len() as int) =~= wanted);
        assert forall|i: int| 0 <= i < self.triangles@.len() implies ({
            let t = #[trigger] self.triangles@[i];
            ibuf@[3 * i] == t.a && ibuf@[3 * i + 1] == t.b && ibuf@[3 * i + 2] == t.c
        }) by {
            assert((3 * i) / 3 == i && (3 * i) % 3 == 0);
            assert((3 * i + 1) / 3 == i && (3 * i + 1) % 3 == 1);
            assert((3 * i + 2) / 3 == i && (3 * i + 2) % 3 == 2);
        }
        ibuf
    }
}

/// A length: so many wholes and so many times the golden ratio.
#[verifier::ext_equal]
pub struct Golden {
    pub wholes: int,
    pub ratios: int,
}

/// The sum of two lengths.
pub open spec fn golden_sum(a: Golden, b: Golden) -> Golden {
    Golden { wholes: a.wholes + b.wholes, ratios: a.ratios + b.ratios }
}

/// A length the other way.
pub open spec fn golden_minus(a: Golden) -> Golden {
    Golden { wholes: -a.wholes, ratios: -a.ratios }
}

/// A length times a coordinate of a corner, which is zero, one or the golden ratio, or the
/// other way. The golden ratio times itself is itself and one.
pub open spec fn golden_times(a: Golden, k: Golden) -> Golden {
    if k.wholes == 1 {
        a
    } else if k.wholes == -1 {
        golden_minus(a)
    } else if k.ratios == 1 {
        Golden { wholes: a.ratios, ratios: a.wholes + a.ratios }
    } else if k.ratios == -1 {
        golden_minus(Golden { wholes: a.ratios, ratios: a.wholes + a.ratios })
    } else {
        Golden { wholes: 0, ratios: 0 }
    }
}

/// A corner of the icosahedron, by its three coordinates.
pub struct Corner {
    pub x: Golden,
    pub y: Golden,
    pub z: Golden,
}

/// The corners in their order: those of three golden rectangles, one in each plane.
pub open spec fn corner(v: int) -> Corner {
    let none = Golden { wholes: 0, ratios: 0 };
    let one = Golden { wholes: 1, ratios: 0 };
    let ratio = Golden { wholes: 0, ratios: 1 };
    if v < 4 {
        Corner {
            x: if v % 2 == 0 {
                golden_minus(one)
            } else {
                one
            },
            y: if v < 2 {
                ratio
            } else {
                golden_minus(ratio)
            },
            z: none,
        }
    } else if v < 8 {
        Corner {
            x: none,
            y: if v % 2 == 0 {
                golden_minus(one)
            } else {
                one
            },
            z: if v < 6 {
                ratio
            } else {
                golden_minus(ratio)
            },
        }
    } else {
        Corner {
            x: if v < 10 {
                ratio
            } else {
                golden_minus(ratio)
            },
            y: none,
            z: if v % 2 == 0 {
                golden_minus(one)
            } else {
                one
            },
        }
    }
}

/// The scalar product of two corners.
pub open spec fn golden_dot(a: Corner, b: Corner) -> Golden {
    golden_sum(
        golden_sum(golden_times(a.x, b.x), golden_times(a.y, b.y)),
        golden_times(a.z, b.z),
    )
}

/// Six times the volume between three corners and the center, above zero where they are
/// wound round the outside.
pub open spec fn golden_volume(a: Corner, b: Corner, c: Corner) -> Golden {
    let x = golden_sum(golden_times(b.y, c.z), golden_minus(golden_times(b.z, c.y)));
    let y = golden_sum(golden_times(b.z, c.x), golden_minus(golden_times(b.x, c.z)));
    let z = golden_sum(golden_times(b.x, c.y), golden_minus(golden_times(b.y, c.x)));
    golden_sum(
        golden_sum(golden_times(x, a.x), golden_times(y, a.y)),
        golden_times(z, a.z),
    )
}

/// The shell starts from a regular icosahedron: all corners are equally far from the
/// center, all sides of all triangles are equally long, and all triangles are wound round
/// the outside.
pub proof fn law_icosahedron_is_regular(i: int)
    requires
        0 <= i < icosahedron().len(),
    ensures
        icosahedron().len() == 20,
        ({
            let t = icosahedron()[i];
            let a = corner(t.a as int);
            let b = corner(t.b as int);
            let c = corner(t.c as int);
            let far = Golden { wholes: 2, ratios: 1 };
            let near = Golden { wholes: 0, ratios: 1 };
            &&& golden_dot(a, a) == far && golden_dot(b, b) == far && golden_dot(c, c) == far
            &&& golden_dot(a, b) == near && golden_dot(b, c) == near && golden_dot(c, a) == near
            &&& golden_volume(a, b, c) == (Golden { wholes: 2, ratios: 2 })
        }),
{
    assert(i == 0 || i == 1 || i == 2 || i == 3 || i == 4 || i == 5 || i == 6 || i == 7 || i == 8
        || i == 9 || i == 10 || i == 11 || i == 12 || i == 13 || i == 14 || i == 15 || i == 16 || i
        == 17 || i == 18 || i == 19);
}

/// Whether a vertex of a mesh lies halfway between two others.
pub open spec fn lies_between(m: MeshModel, v: u32, p: u32, q: u32) -> bool {
    &&& 12 <= v < 12 + m.midpoints.len()
    &&& m.midpoints[v - 12] == (p, q) || m.midpoints[v - 12] == (q, p)
}

/// Splitting makes four triangles of one, wound as it was: each of its corners with the
/// midpoints of the two sides that meet there, and the three midpoints. The vertices that
/// were there stay.
pub proof fn law_split_makes_four(m: MeshModel, i: int)
    requires
        closed_surface(m.triangles),
        vertices_below(m.triangles, m.vertex_count()),
        split(m).vertex_count() <= u32::MAX,
        0 <= i < m.triangles.len(),
    ensures
        ({
            let t = m.triangles[i];
            let finer = split(m);
            let p = finer.triangles[4 * i];
            let q = finer.triangles[4 * i + 1];
            let r = finer.triangles[4 * i + 2];
            let s = finer.triangles[4 * i + 3];
            &&& finer.triangles.len() == 4 * m.triangles.len()
            &&& finer.midpoints.take(m.midpoints.len() as int) == m.midpoints
            &&& p.a == t.a && q.a == t.b && r.a == t.c
            &&& lies_between(finer, s.a, t.a, t.b)
            &&& lies_between(finer, s.b, t.b, t.c)
            &&& lies_between(finer, s.c, t.c, t.a)
            &&& p.b == s.a && p.c == s.c
            &&& q.b == s.b && q.c == s.a
            &&& r.b == s.c && r.c == s.b
        }),
{
    let base = m.vertex_count();
    let es = firsts(edges(m.triangles));
    lemma_edge_is_known(m.triangles, base, es, i, 0);
    lemma_edge_is_known(m.triangles, base, es, i, 1);
    lemma_edge_is_known(m.triangles, base, es, i, 2);
    assert((4 * i) / 4 == i && (4 * i) % 4 == 0);
    assert((4 * i + 1) / 4 == i && (4 * i + 1) % 4 == 1);
    assert((4 * i + 2) / 4 == i && (4 * i + 2) % 4 == 2);
    assert((4 * i + 3) / 4 == i && (4 * i + 3) % 4 == 3);
    let finer = split(m);
    assert(finer.midpoints.take(m.midpoints.len() as int) =~= m.midpoints);
    let t = m.triangles[i];
    let s = part(t, base, es, 3);
    assert(finer.midpoints[s.a - 12] == es[s.a - base]);
    assert(finer.midpoints[s.b - 12] == es[s.b - base]);
    assert(finer.midpoints[s.c - 12] == es[s.c - base]);
}

/// The shell is split as often as it is asked to be.
pub proof fn law_icosphere_is_split(subdiv: nat)
    ensures
        icosphere(0).triangles == icosahedron(),
        icosphere(0).midpoints.len() == 0,
        icosphere(subdiv + 1) == split(icosphere(subdiv)),
{
}

/// The numbers of the vertices that splitting adds: one more for an edge that has none yet.
pub open spec fn with_edge(known: Seq<(u32, u32)>, e: (u32, u32)) -> Seq<(u32, u32)> {
    if known.contains(e) {
        known
    } else {
        known.push(e)
    }
}

/// The vertices that splitting adds are numbered in the order in which the triangles come
/// to their sides: one more triangle adds the edges from its first vertex to its second,
/// to its third and back, as far as they are not there yet, behind all that are.
pub proof fn law_edges_are_numbered_in_turn(m: MeshModel, t: Triangle)
    ensures
        ({
            let more = MeshModel { midpoints: m.midpoints, triangles: m.triangles.push(t) };
            let n = m.midpoints.len() as int;
            split(more).midpoints.skip(n) == with_edge(
                with_edge(
                    with_edge(split(m).midpoints.skip(n), edge((t.a, t.b))),
                    edge((t.b, t.c)),
                ),
                edge((t.c, t.a)),
            )
        }),
        m.triangles.len() == 0 ==> split(m).midpoints == m.midpoints,
        forall|p: u32, q: u32|
            edge((p, q)) == edge((q, p)) && (edge((p, q)) == (p, q) || edge((p, q)) == (q, p)),
{
    let more = m.triangles.push(t);
    let n = m.triangles.len();
    let all = edges(m.triangles);
    let e0 = edge((t.a, t.b));
    let e1 = edge((t.b, t.c));
    let e2 = edge((t.c, t.a));
    let after = edges(more);
    let wanted = all.push(e0).push(e1).push(e2);
    assert(after.len() == wanted.len());
    assert forall|k: int| 0 <= k < after.len() implies after[k] == wanted[k] by {
        if k < 3 * n {
            assert(k / 3 < n);
            assert(more[k / 3] == m.triangles[k / 3]);
        } else {
            assert(k / 3 == n && k % 3 == k - 3 * n);
            assert(more[k / 3] == t);
        }
    }
    assert(after =~= wanted);
    lemma_firsts_push(all, e0);
    lemma_firsts_push(all.push(e0), e1);
    lemma_firsts_push(all.push(e0).push(e1), e2);
    let first = m.midpoints.len() as int;
    assert(split(m).midpoints.skip(first) =~= firsts(all));
    let whole = split(MeshModel { midpoints: m.midpoints, triangles: more });
    assert(whole.midpoints.skip(first) =~= firsts(after));
    if m.triangles.len() == 0 {
        assert(all =~= Seq::<(u32, u32)>::empty());
        assert(split(m).midpoints =~= m.midpoints);
    }
}

/// No splitting is left out that 32-bit numbers allow: one more than the deepest would have
/// more vertices than there are numbers.
pub proof fn law_deepest_splitting()
    ensures
        10 * pow(4, MAX_SUBDIV as nat) + 2 <= u32::MAX,
        10 * pow(4, (MAX_SUBDIV + 1) as nat) + 2 > u32::MAX,
        CORNERS == 12,
{
    reveal_with_fuel(pow, 16);
}

} // verus!
