use vstd::prelude::*;
use vstd::relations::injective_on;
use vstd::set_lib::{
    lemma_int_range, lemma_len_subset, lemma_map_size, lemma_set_disjoint_lens, set_int_range,
};
use crate::subdiv_surface::points_of;
use crate::consistency::{
    lemma_add_triangle_appends, lemma_add_triangle_sizes, lemma_add_triangle_used,
    lemma_add_triangle_wf,
};
use crate::model::ModelView;
use crate::triangle::Triangle;
use crate::vertex::VertexView;

verus! {

impl<P> ModelView<P> {
    /// Every edge is a side of at least one triangle.
    pub open spec fn every_edge_used(self) -> bool {
        forall|e: int| 0 <= e < self.edges.len() ==> (#[trigger] self.edges[e]).triangles.len() > 0
    }

    /// Every triangle has three different corners.
    pub open spec fn triangles_proper(self) -> bool {
        forall|t: int| 0 <= t < self.triangles.len() ==> (#[trigger] self.triangles[t]).is_proper()
    }

    /// No two triangles have two sides in common.
    pub open spec fn triangles_apart(self) -> bool {
        forall|s: int, t: int, x: usize, y: usize|
            0 <= s < self.triangles.len() && 0 <= t < self.triangles.len() && s != t && x != y
                && (#[trigger] self.triangles[s].has_side(x)) && self.triangles[s].has_side(y)
                && self.triangles[t].has_side(x) && (#[trigger] self.triangles[t].has_side(y))
                ==> false
    }

    /// The meshes for which a pass doubles the edges and adds three for
    /// each triangle: every edge lies in a triangle, every triangle has
    /// three different corners, and no two triangles share two sides.
    pub open spec fn is_regular(self) -> bool {
        self.every_edge_used() && self.triangles_proper() && self.triangles_apart()
    }

    /// The corners of the child `which` of the triangle `t` of this mesh:
    /// child 0 sits at the corner `v0`, child 1 at `v1`, child 2 in the
    /// middle and child 3 at `v2`.
    pub open spec fn child_corners(self, t: Triangle, which: int) -> (usize, usize, usize) {
        if which == 0 {
            (self.vertex_point(t.v0), t.e0, t.e2)
        } else if which == 1 {
            (t.e0, self.vertex_point(t.v1), t.e1)
        } else if which == 2 {
            (t.e0, t.e1, t.e2)
        } else {
            (t.e2, t.e1, self.vertex_point(t.v2))
        }
    }
}

/// The three corners of a triangle, in winding order.
pub open spec fn corners(t: Triangle) -> (usize, usize, usize) {
    (t.v0, t.v1, t.v2)
}

/// True if each of `points` carries its place as identifier and has no
/// adjacency.
pub open spec fn points_fresh<P>(points: Seq<VertexView<P>>) -> bool {
    forall|i: int| 0 <= i < points.len() ==> (#[trigger] points[i]).id == i && points[i].is_bare()
}

/// Replacing one triangle by its four children adds no vertex, four
/// triangles with the corners of the children, and takes no edge away.
pub proof fn lemma_children_shape<P>(n: ModelView<P>, coarse: ModelView<P>, t: Triangle)
    ensures
        ({
            let after = n.with_children(coarse, t);
            let base = n.triangles.len() as int;
            &&& after.arena.len() == n.arena.len()
            &&& after.triangles.len() == base + 4
            &&& n.edges.len() <= after.edges.len() <= n.edges.len() + 12
            &&& forall|k: int| 0 <= k < base ==> #[trigger] after.triangles[k] == n.triangles[k]
            &&& corners(after.triangles[base]) == coarse.child_corners(t, 0)
            &&& corners(after.triangles[base + 1]) == coarse.child_corners(t, 1)
            &&& corners(after.triangles[base + 2]) == coarse.child_corners(t, 2)
            &&& corners(after.triangles[base + 3]) == coarse.child_corners(t, 3)
        }),
{
    let nv0 = coarse.vertex_point(t.v0);
    let nv1 = coarse.vertex_point(t.v1);
    let nv2 = coarse.vertex_point(t.v2);
    let n1 = n.add_triangle(nv0, t.e0, t.e2);
    let n2 = n1.add_triangle(t.e0, nv1, t.e1);
    let n3 = n2.add_triangle(t.e0, t.e1, t.e2);
    let n4 = n3.add_triangle(t.e2, t.e1, nv2);
    lemma_add_triangle_sizes(n, nv0, t.e0, t.e2);
    lemma_add_triangle_sizes(n1, t.e0, nv1, t.e1);
    lemma_add_triangle_sizes(n2, t.e0, t.e1, t.e2);
    lemma_add_triangle_sizes(n3, t.e2, t.e1, nv2);
    lemma_add_triangle_appends(n, nv0, t.e0, t.e2);
    lemma_add_triangle_appends(n1, t.e0, nv1, t.e1);
    lemma_add_triangle_appends(n2, t.e0, t.e1, t.e2);
    lemma_add_triangle_appends(n3, t.e2, t.e1, nv2);
    let base = n.triangles.len() as int;
    assert(n4.triangles[base] == n3.triangles[base]);
    assert(n3.triangles[base] == n2.triangles[base]);
    assert(n2.triangles[base] == n1.triangles[base]);
    assert(n4.triangles[base + 1] == n3.triangles[base + 1]);
    assert(n3.triangles[base + 1] == n2.triangles[base + 1]);
    assert(n4.triangles[base + 2] == n3.triangles[base + 2]);
    assert forall|k: int| 0 <= k < base implies #[trigger] n4.triangles[k] == n.triangles[k] by {
        assert(n4.triangles[k] == n3.triangles[k]);
        assert(n3.triangles[k] == n2.triangles[k]);
        assert(n2.triangles[k] == n1.triangles[k]);
        assert(n1.triangles[k] == n.triangles[k]);
    }
}

/// The mesh built from the children of the first `upto` triangles has the
/// given points as its vertices and four triangles for each of them: the
/// children, in order, with the corners that the refinement pattern gives.
pub proof fn lemma_refined_shape<P>(m: ModelView<P>, points: Seq<VertexView<P>>, upto: int)
    requires
        0 <= upto,
    ensures
        m.refined_upto(points, upto).arena.len() == points.len(),
        m.refined_upto(points, upto).triangles.len() == 4 * upto,
        m.refined_upto(points, upto).edges.len() <= 12 * upto,
        forall|i: int|
            0 <= i < 4 * upto ==> corners(#[trigger] m.refined_upto(points, upto).triangles[i])
                == m.child_corners(m.triangles[i / 4], i % 4),
    decreases upto,
{
    if upto > 0 {
        let before = m.refined_upto(points, upto - 1);
        let after = m.refined_upto(points, upto);
        let t = m.triangles[upto - 1];
        lemma_refined_shape(m, points, upto - 1);
        lemma_children_shape(before, m, t);
        assert forall|i: int| 0 <= i < 4 * upto implies corners(#[trigger] after.triangles[i])
            == m.child_corners(m.triangles[i / 4], i % 4) by {
            if i < 4 * (upto - 1) {
                assert(after.triangles[i] == before.triangles[i]);
            } else {
                assert(i / 4 == upto - 1);
            }
        }
    }
}

/// A later stage of the refined mesh has all the edges of an earlier one.
pub proof fn lemma_refined_edges_grow<P>(
    m: ModelView<P>,
    points: Seq<VertexView<P>>,
    lo: int,
    hi: int,
)
    requires
        0 <= lo <= hi,
    ensures
        m.refined_upto(points, lo).edges.len() <= m.refined_upto(points, hi).edges.len(),
    decreases hi - lo,
{
    if lo < hi {
        lemma_refined_edges_grow(m, points, lo, hi - 1);
        lemma_children_shape(m.refined_upto(points, hi - 1), m, m.triangles[hi - 1]);
    }
}

/// Every stage of the refined mesh is consistent, and each of its edges
/// lies in a triangle, where the coarse mesh is consistent and the refined
/// mesh fits the machine.
pub proof fn lemma_refined_wf<P>(m: ModelView<P>, points: Seq<VertexView<P>>, upto: int)
    requires
        m.wf(),
        0 <= upto <= m.triangles.len(),
        points_fresh(points),
        points.len() == m.edges.len() + m.arena.len(),
        points.len() <= usize::MAX,
        m.refined(points).edges.len() <= usize::MAX,
        4 * m.triangles.len() <= usize::MAX,
    ensures
        m.refined_upto(points, upto).wf(),
        m.refined_upto(points, upto).every_edge_used(),
    decreases upto,
{
    if upto <= 0 {
        let n = ModelView::of_points(points);
        assert forall|v: int| 0 <= v < n.arena.len() implies #[trigger] n.vertex_ok(v) by {
            assert(points[v].is_bare());
        }
    } else {
        let n0 = m.refined_upto(points, upto - 1);
        let t = m.triangles[upto - 1];
        lemma_refined_wf(m, points, upto - 1);
        lemma_refined_shape(m, points, upto - 1);
        lemma_refined_shape(m, points, upto);
        lemma_refined_edges_grow(m, points, upto, m.triangles.len() as int);
        assert(m.triangle_ok(upto - 1));
        let nv0 = m.vertex_point(t.v0);
        let nv1 = m.vertex_point(t.v1);
        let nv2 = m.vertex_point(t.v2);
        let n1 = n0.add_triangle(nv0, t.e0, t.e2);
        let n2 = n1.add_triangle(t.e0, nv1, t.e1);
        let n3 = n2.add_triangle(t.e0, t.e1, t.e2);
        let n4 = n3.add_triangle(t.e2, t.e1, nv2);
        assert(n4 == m.refined_upto(points, upto));
        lemma_add_triangle_sizes(n0, nv0, t.e0, t.e2);
        lemma_add_triangle_sizes(n1, t.e0, nv1, t.e1);
        lemma_add_triangle_sizes(n2, t.e0, t.e1, t.e2);
        lemma_add_triangle_sizes(n3, t.e2, t.e1, nv2);
        lemma_add_triangle_wf(n0, nv0, t.e0, t.e2);
        lemma_add_triangle_used(n0, nv0, t.e0, t.e2);
        lemma_add_triangle_wf(n1, t.e0, nv1, t.e1);
        lemma_add_triangle_used(n1, t.e0, nv1, t.e1);
        lemma_add_triangle_wf(n2, t.e0, t.e1, t.e2);
        lemma_add_triangle_used(n2, t.e0, t.e1, t.e2);
        lemma_add_triangle_wf(n3, t.e2, t.e1, nv2);
        lemma_add_triangle_used(n3, t.e2, t.e1, nv2);
    }
}

/// The identifiers below `bound`.
pub open spec fn ids_below(bound: int) -> Set<usize> {
    Set::new(|id: usize| id < bound)
}

/// There are `bound` identifiers below `bound`.
pub proof fn lemma_ids_below(bound: int)
    requires
        0 <= bound <= usize::MAX,
    ensures
        ids_below(bound).finite(),
        ids_below(bound).len() == bound,
{
    let f = |i: int| i as usize;
    lemma_int_range(0, bound);
    assert(set_int_range(0, bound).map(f) =~= ids_below(bound)) by {
        assert forall|id: usize| ids_below(bound).contains(id) implies set_int_range(0, bound).map(
            f,
        ).contains(id) by {
            assert(set_int_range(0, bound).contains(id as int) && id == f(id as int));
        }
    }
    assert(injective_on(f, set_int_range(0, bound)));
    lemma_map_size(set_int_range(0, bound), ids_below(bound), f);
}

/// The refined mesh as the stage that has taken every triangle in: it is
/// consistent at every stage, has the children of every triangle as its
/// triangles, and each of its edges lies in one of them.
proof fn lemma_refined_facts<P>(coarse: ModelView<P>, fine: ModelView<P>)
    requires
        coarse.wf(),
        fine.wf(),
        fine.arena.len() == coarse.edges.len() + coarse.arena.len(),
        fine == coarse.refined(points_of(fine.arena)),
    ensures
        fine.every_edge_used(),
        fine.triangles.len() == 4 * coarse.triangles.len(),
        forall|i: int|
            0 <= i < fine.triangles.len() ==> corners(#[trigger] fine.triangles[i])
                == coarse.child_corners(coarse.triangles[i / 4], i % 4),
{
    let points = points_of(fine.arena);
    assert(points_fresh(points));
    lemma_refined_shape(coarse, points, coarse.triangles.len() as int);
    lemma_refined_wf(coarse, points, coarse.triangles.len() as int);
}

/// A pass puts four triangles in the place of each triangle: the children
/// of the triangle `t` stand at the places `4 t` to `4 t + 3`, with the
/// corners that the refinement pattern gives.
pub proof fn theorem_triangle_count<P>(coarse: ModelView<P>, fine: ModelView<P>)
    requires
        coarse.wf(),
        fine.wf(),
        fine.arena.len() == coarse.edges.len() + coarse.arena.len(),
        fine == coarse.refined(points_of(fine.arena)),
    ensures
        fine.triangles.len() == 4 * coarse.triangles.len(),
        forall|t: int, which: int|
            0 <= t < coarse.triangles.len() && 0 <= which < 4 ==> corners(
                #[trigger] fine.triangles[4 * t + which],
            ) == coarse.child_corners(coarse.triangles[t], which),
{
    lemma_refined_facts(coarse, fine);
    assert forall|t: int, which: int|
        0 <= t < coarse.triangles.len() && 0 <= which < 4 implies corners(
            #[trigger] fine.triangles[4 * t + which],
        ) == coarse.child_corners(coarse.triangles[t], which) by {
        assert((4 * t + which) / 4 == t && (4 * t + which) % 4 == which);
    }
}

/// After a pass on a mesh in which every edge lies in a triangle, the mesh
/// has a vertex for each vertex and one for each edge of the mesh before:
/// `V + E` vertices.
pub proof fn theorem_vertex_count<P>(coarse: ModelView<P>, fine: ModelView<P>)
    requires
        coarse.wf(),
        fine.wf(),
        fine.arena.len() == coarse.edges.len() + coarse.arena.len(),
        fine == coarse.refined(points_of(fine.arena)),
        coarse.every_edge_used(),
    ensures
        coarse.vertices.dom().finite(),
        fine.vertices.dom().finite(),
        fine.vertices.dom().len() == coarse.vertices.dom().len() + coarse.edges.len(),
{
    lemma_refined_facts(coarse, fine);
    let edge_count = coarse.edges.len() as int;
    let vertex_count = coarse.arena.len() as int;
    let shift = |v: usize| (edge_count + v) as usize;
    let old_ids = coarse.vertices.dom();
    let edge_ids = ids_below(edge_count);
    let moved_ids = old_ids.map(shift);
    lemma_ids_below(edge_count);
    lemma_ids_below(vertex_count);
    assert(old_ids.subset_of(ids_below(vertex_count))) by {
        assert forall|id: usize| old_ids.contains(id) implies ids_below(vertex_count).contains(
            id,
        ) by {
            assert(coarse.vertices.contains_key(id));
        }
    }
    lemma_len_subset(old_ids, ids_below(vertex_count));
    assert(injective_on(shift, old_ids)) by {
        assert forall|x: usize, y: usize|
            old_ids.contains(x) && old_ids.contains(y) && #[trigger] shift(x) == #[trigger] shift(
                y,
            ) implies x == y by {
            assert(coarse.vertices.contains_key(x) && coarse.vertices.contains_key(y));
        }
    }
    lemma_map_size(old_ids, moved_ids, shift);
    assert(edge_ids.disjoint(moved_ids)) by {
        assert forall|id: usize| edge_ids.contains(id) && moved_ids.contains(id) implies false by {
            let v = choose|v: usize| old_ids.contains(v) && id == shift(v);
            assert(coarse.vertices.contains_key(v));
        }
    }
    lemma_set_disjoint_lens(edge_ids, moved_ids);
    assert(fine.vertices.dom() =~= edge_ids + moved_ids) by {
        assert forall|id: usize| fine.vertices.dom().contains(id) implies (edge_ids
            + moved_ids).contains(id) by {
            assert(fine.vertices.contains_key(id));
            assert(fine.vertex_ok(id as int));
            let ft = fine.arena[id as int].triangles[0];
            assert(fine.corner_of(id, ft));
            let child = fine.triangles[ft as int];
            assert(corners(child) == coarse.child_corners(
                coarse.triangles[ft as int / 4],
                ft as int % 4,
            ));
            let q = ft as int / 4;
            let t = coarse.triangles[q];
            assert(coarse.triangle_ok(q));
            if id < edge_count {
            } else {
                let v = if id == coarse.vertex_point(t.v0) {
                    t.v0
                } else if id == coarse.vertex_point(t.v1) {
                    t.v1
                } else {
                    t.v2
                };
                assert(old_ids.contains(v) && id == shift(v));
            }
        }
        assert forall|id: usize| (edge_ids + moved_ids).contains(id) implies fine.vertices.dom().contains(
            id,
        ) by {
            if edge_ids.contains(id) {
                assert(coarse.edge_ok(id as int));
                let q = coarse.edges[id as int].triangles[0];
                assert(coarse.side_of(id, q));
                let child = fine.triangles[4 * q + 2];
                assert(corners(child) == coarse.child_corners(
                    coarse.triangles[(4 * q + 2) / 4],
                    (4 * q + 2) % 4,
                ));
                assert(fine.triangle_ok(4 * q + 2));
            } else {
                let v = choose|v: usize| old_ids.contains(v) && id == shift(v);
                assert(coarse.vertices.contains_key(v));
                assert(coarse.vertex_ok(v as int));
                let q = coarse.arena[v as int].triangles[0];
                assert(coarse.corner_of(v, q));
                let t = coarse.triangles[q as int];
                let which: int = if t.v0 == v {
                    0
                } else if t.v1 == v {
                    1
                } else {
                    3
                };
                let child = fine.triangles[4 * q + which];
                assert(corners(child) == coarse.child_corners(
                    coarse.triangles[(4 * q + which) / 4],
                    (4 * q + which) % 4,
                ));
                assert(fine.triangle_ok(4 * q + which));
            }
        }
    }
}

impl<P> ModelView<P> {
    /// The two ends of the edge that a pass makes for the number `code`.
    ///
    /// The numbers below `2 E` stand for the halves of the edges: `2 e` for
    /// the half of `e` at its end `a`, from the edge point of `e` to the
    /// vertex point of `a`, and `2 e + 1` for the half at its end `b`. The
    /// numbers from `2 E` on stand for the edges inside the triangles:
    /// `2 E + 3 t`, `2 E + 3 t + 1` and `2 E + 3 t + 2` for the edges between
    /// the edge points of the first and second, second and third, third and
    /// first side of the triangle `t`.
    pub open spec fn ends_for(self, code: int) -> (usize, usize) {
        let edge_count = self.edges.len() as int;
        if code < 2 * edge_count {
            let e = self.edges[code / 2];
            if code % 2 == 0 {
                ((code / 2) as usize, self.vertex_point(e.a))
            } else {
                ((code / 2) as usize, self.vertex_point(e.b))
            }
        } else {
            let rest = code - 2 * edge_count;
            let t = self.triangles[rest / 3];
            if rest % 3 == 0 {
                (t.e0, t.e1)
            } else if rest % 3 == 1 {
                (t.e1, t.e2)
            } else {
                (t.e2, t.e0)
            }
        }
    }

    /// The number of the half of the edge `e` at its end `v`.
    pub open spec fn half_code(self, e: usize, v: usize) -> int {
        if self.edges[e as int].a == v {
            2 * e
        } else {
            2 * e + 1
        }
    }

    /// The number of the inner edge `which` of the triangle `t`.
    pub open spec fn inner_code(self, t: int, which: int) -> int {
        2 * self.edges.len() + 3 * t + which
    }

    /// An edge of this mesh between the ends for `code`, if there is one.
    pub open spec fn edge_between(self, ends: (usize, usize)) -> int {
        choose|j: int| 0 <= j < self.edges.len() && self.edges[j].connects(ends.0, ends.1)
    }
}

/// In a regular mesh the three sides of a triangle are three different
/// edges, and the two ends of an edge two different vertices.
proof fn lemma_regular_distinct<P>(m: ModelView<P>)
    requires
        m.wf(),
        m.is_regular(),
    ensures
        forall|t: int|
            0 <= t < m.triangles.len() ==> {
                let tri = #[trigger] m.triangles[t];
                tri.e0 != tri.e1 && tri.e1 != tri.e2 && tri.e2 != tri.e0
            },
        forall|e: int| 0 <= e < m.edges.len() ==> (#[trigger] m.edges[e]).a != m.edges[e].b,
{
    assert forall|t: int| 0 <= t < m.triangles.len() implies {
        let tri = #[trigger] m.triangles[t];
        tri.e0 != tri.e1 && tri.e1 != tri.e2 && tri.e2 != tri.e0
    } by {
        assert(m.triangle_ok(t));
    }
    assert forall|e: int| 0 <= e < m.edges.len() implies (#[trigger] m.edges[e]).a
        != m.edges[e].b by {
        assert(m.edge_ok(e));
        let q = m.edges[e].triangles[0];
        assert(m.side_of(e as usize, q));
        assert(m.triangle_ok(q as int));
        assert(m.triangles[q as int].is_proper());
    }
}

/// For every number below `2 E + 3 F` the refined mesh has an edge between
/// the ends for that number.
proof fn lemma_code_has_edge<P>(coarse: ModelView<P>, fine: ModelView<P>, code: int)
    requires
        coarse.wf(),
        fine.wf(),
        fine.arena.len() == coarse.edges.len() + coarse.arena.len(),
        fine == coarse.refined(points_of(fine.arena)),
        coarse.every_edge_used(),
        0 <= code < 2 * coarse.edges.len() + 3 * coarse.triangles.len(),
    ensures
        exists|j: int|
            0 <= j < fine.edges.len() && (#[trigger] fine.edges[j]).connects(
                coarse.ends_for(code).0,
                coarse.ends_for(code).1,
            ),
{
    lemma_refined_facts(coarse, fine);
    let edge_count = coarse.edges.len() as int;
    let ends = coarse.ends_for(code);
    if code < 2 * edge_count {
        let e = code / 2;
        let edge = coarse.edges[e];
        assert(coarse.edge_ok(e));
        let q = edge.triangles[0] as int;
        assert(coarse.side_of(e as usize, q as usize));
        let t = coarse.triangles[q];
        assert(coarse.triangle_ok(q));
        let end = if code % 2 == 0 {
            edge.a
        } else {
            edge.b
        };
        let which: int = if e == t.e0 {
            if end == t.v0 {
                0
            } else {
                1
            }
        } else if e == t.e1 {
            if end == t.v1 {
                1
            } else {
                3
            }
        } else {
            if end == t.v2 {
                3
            } else {
                0
            }
        };
        let child = fine.triangles[4 * q + which];
        assert(corners(child) == coarse.child_corners(
            coarse.triangles[(4 * q + which) / 4],
            (4 * q + which) % 4,
        ));
        assert(fine.triangle_ok(4 * q + which));
        let j = if e == t.e0 {
            child.e0
        } else if e == t.e1 {
            child.e1
        } else {
            child.e2
        };
        assert(fine.edges[j as int].connects(ends.0, ends.1));
    } else {
        let rest = code - 2 * edge_count;
        let q = rest / 3;
        let t = coarse.triangles[q];
        let child = fine.triangles[4 * q + 2];
        assert(corners(child) == coarse.child_corners(
            coarse.triangles[(4 * q + 2) / 4],
            (4 * q + 2) % 4,
        ));
        assert(fine.triangle_ok(4 * q + 2));
        let j = if rest % 3 == 0 {
            child.e0
        } else if rest % 3 == 1 {
            child.e1
        } else {
            child.e2
        };
        assert(fine.edges[j as int].connects(ends.0, ends.1));
    }
}

/// Every edge of the refined mesh lies between the ends for some number
/// below `2 E + 3 F`.
proof fn lemma_edge_has_code<P>(coarse: ModelView<P>, fine: ModelView<P>, j: int)
    requires
        coarse.wf(),
        fine.wf(),
        fine.arena.len() == coarse.edges.len() + coarse.arena.len(),
        fine == coarse.refined(points_of(fine.arena)),
        0 <= j < fine.edges.len(),
    ensures
        exists|code: int|
            0 <= code < 2 * coarse.edges.len() + 3 * coarse.triangles.len() && fine.edges[j].connects(
                (#[trigger] coarse.ends_for(code)).0,
                coarse.ends_for(code).1,
            ),
{
    lemma_refined_facts(coarse, fine);
    assert(fine.edge_ok(j));
    let ft = fine.edges[j].triangles[0] as int;
    assert(fine.side_of(j as usize, ft as usize));
    let child = fine.triangles[ft];
    assert(fine.triangle_ok(ft));
    assert(corners(child) == coarse.child_corners(coarse.triangles[ft / 4], ft % 4));
    let q = ft / 4;
    let which = ft % 4;
    let t = coarse.triangles[q];
    assert(coarse.triangle_ok(q));
    let side: int = if j == child.e0 {
        0
    } else if j == child.e1 {
        1
    } else {
        2
    };
    let code: int = if which == 0 {
        if side == 0 {
            coarse.half_code(t.e0, t.v0)
        } else if side == 1 {
            coarse.inner_code(q, 2)
        } else {
            coarse.half_code(t.e2, t.v0)
        }
    } else if which == 1 {
        if side == 0 {
            coarse.half_code(t.e0, t.v1)
        } else if side == 1 {
            coarse.half_code(t.e1, t.v1)
        } else {
            coarse.inner_code(q, 0)
        }
    } else if which == 2 {
        coarse.inner_code(q, side)
    } else {
        if side == 0 {
            coarse.inner_code(q, 1)
        } else if side == 1 {
            coarse.half_code(t.e1, t.v2)
        } else {
            coarse.half_code(t.e2, t.v2)
        }
    };
    assert(0 <= code < 2 * coarse.edges.len() + 3 * coarse.triangles.len());
    assert(fine.edges[j].connects(coarse.ends_for(code).0, coarse.ends_for(code).1));
}

/// In a regular mesh no edge lies between the ends for two different
/// numbers.
proof fn lemma_codes_apart<P>(coarse: ModelView<P>, c1: int, c2: int, a: usize, b: usize)
    requires
        coarse.wf(),
        coarse.is_regular(),
        coarse.edges.len() + coarse.arena.len() <= usize::MAX,
        0 <= c1 < 2 * coarse.edges.len() + 3 * coarse.triangles.len(),
        0 <= c2 < 2 * coarse.edges.len() + 3 * coarse.triangles.len(),
        c1 != c2,
        (a == coarse.ends_for(c1).0 && b == coarse.ends_for(c1).1) || (a == coarse.ends_for(c1).1
            && b == coarse.ends_for(c1).0),
    ensures
        !((a == coarse.ends_for(c2).0 && b == coarse.ends_for(c2).1) || (a == coarse.ends_for(
            c2,
        ).1 && b == coarse.ends_for(c2).0)),
{
    lemma_regular_distinct(coarse);
    let edge_count = coarse.edges.len() as int;
    if c1 < 2 * edge_count {
        assert(coarse.edge_ok(c1 / 2));
    } else {
        let q1 = (c1 - 2 * edge_count) / 3;
        assert(coarse.triangle_ok(q1));
    }
    if c2 < 2 * edge_count {
        assert(coarse.edge_ok(c2 / 2));
    } else {
        let q2 = (c2 - 2 * edge_count) / 3;
        assert(coarse.triangle_ok(q2));
    }
    if c1 >= 2 * edge_count && c2 >= 2 * edge_count {
        let q1 = (c1 - 2 * edge_count) / 3;
        let q2 = (c2 - 2 * edge_count) / 3;
        let t1 = coarse.triangles[q1];
        let t2 = coarse.triangles[q2];
        if q1 != q2 {
            if (a == coarse.ends_for(c2).0 && b == coarse.ends_for(c2).1) || (a
                == coarse.ends_for(c2).1 && b == coarse.ends_for(c2).0) {
                assert(coarse.triangles[q1].has_side(a) && coarse.triangles[q1].has_side(b));
                assert(coarse.triangles[q2].has_side(a) && coarse.triangles[q2].has_side(b));
                assert(a != b);
                assert(false);
            }
        }
    }
}

/// After a pass on a regular mesh with `E` edges and `F` triangles the mesh
/// has `2 E + 3 F` edges: two halves of every edge and three edges inside
/// every triangle.
pub proof fn theorem_edge_count<P>(coarse: ModelView<P>, fine: ModelView<P>)
    requires
        coarse.wf(),
        fine.wf(),
        fine.arena.len() == coarse.edges.len() + coarse.arena.len(),
        fine == coarse.refined(points_of(fine.arena)),
        coarse.is_regular(),
    ensures
        fine.edges.len() == 2 * coarse.edges.len() + 3 * coarse.triangles.len(),
{
    let total = (2 * coarse.edges.len() + 3 * coarse.triangles.len()) as int;
    let codes = set_int_range(0, total);
    let places = set_int_range(0, fine.edges.len() as int);
    let place_of = |code: int| fine.edge_between(coarse.ends_for(code));
    lemma_int_range(0, total);
    lemma_int_range(0, fine.edges.len() as int);
    assert forall|code: int| codes.contains(code) implies {
        let j = #[trigger] place_of(code);
        0 <= j < fine.edges.len() && fine.edges[j].connects(
            coarse.ends_for(code).0,
            coarse.ends_for(code).1,
        )
    } by {
        lemma_code_has_edge(coarse, fine, code);
    }
    assert(injective_on(place_of, codes)) by {
        assert forall|c1: int, c2: int|
            codes.contains(c1) && codes.contains(c2) && #[trigger] place_of(c1) == #[trigger] place_of(
                c2,
            ) implies c1 == c2 by {
            if c1 != c2 {
                let edge = fine.edges[place_of(c1)];
                lemma_codes_apart(coarse, c1, c2, edge.a, edge.b);
            }
        }
    }
    assert(codes.map(place_of) =~= places) by {
        assert forall|j: int| places.contains(j) implies codes.map(place_of).contains(j) by {
            lemma_edge_has_code(coarse, fine, j);
            let code = choose|code: int|
                0 <= code < 2 * coarse.edges.len() + 3 * coarse.triangles.len()
                    && fine.edges[j].connects(
                    (#[trigger] coarse.ends_for(code)).0,
                    coarse.ends_for(code).1,
                );
            let k = place_of(code);
            assert(codes.contains(code));
            assert(fine.edges[k].connects(fine.edges[j].a, fine.edges[j].b));
            assert(k == j);
        }
        assert forall|j: int| codes.map(place_of).contains(j) implies places.contains(j) by {
            let code = choose|code: int| codes.contains(code) && j == place_of(code);
            assert(0 <= place_of(code) < fine.edges.len());
        }
    }
    lemma_map_size(codes, places, place_of);
}

/// Two different triangles of the refined mesh have at most one side in
/// common, where that holds of the regular mesh that was refined.
proof fn lemma_children_apart<P>(
    coarse: ModelView<P>,
    fine: ModelView<P>,
    s: int,
    t: int,
    x: usize,
    y: usize,
)
    requires
        coarse.wf(),
        fine.wf(),
        fine.arena.len() == coarse.edges.len() + coarse.arena.len(),
        fine == coarse.refined(points_of(fine.arena)),
        coarse.is_regular(),
        0 <= s < fine.triangles.len(),
        0 <= t < fine.triangles.len(),
        fine.triangles[s].has_side(x) && fine.triangles[s].has_side(y),
        fine.triangles[t].has_side(x) && fine.triangles[t].has_side(y),
    ensures
        s == t || x == y,
{
    if s != t && x != y {
        lemma_refined_facts(coarse, fine);
        lemma_regular_distinct(coarse);
        let first = fine.triangles[s];
        let second = fine.triangles[t];
        let qs = s / 4;
        let qt = t / 4;
        let ts = coarse.triangles[qs];
        let tt = coarse.triangles[qt];
        assert(fine.triangle_ok(s));
        assert(fine.triangle_ok(t));
        assert(coarse.triangle_ok(qs));
        assert(coarse.triangle_ok(qt));
        assert(corners(first) == coarse.child_corners(ts, s % 4));
        assert(corners(second) == coarse.child_corners(tt, t % 4));
        assert(first.is_proper());
        assert(second.is_proper());
        assert(second.has_corner(first.v0) && second.has_corner(first.v1) && second.has_corner(
            first.v2,
        ));
        if qs != qt {
            let (p, q) = if s % 4 == 0 {
                (ts.e0, ts.e2)
            } else if s % 4 == 3 {
                (ts.e2, ts.e1)
            } else {
                (ts.e0, ts.e1)
            };
            assert(coarse.triangles[qs].has_side(p) && coarse.triangles[qs].has_side(q));
            assert(coarse.triangles[qt].has_side(p) && coarse.triangles[qt].has_side(q));
            assert(p != q);
        }
    }
}

/// A pass on a regular mesh gives a regular mesh, so that the counts of a
/// further pass follow from the counts of this one.
pub proof fn theorem_regular_is_kept<P>(coarse: ModelView<P>, fine: ModelView<P>)
    requires
        coarse.wf(),
        fine.wf(),
        fine.arena.len() == coarse.edges.len() + coarse.arena.len(),
        fine == coarse.refined(points_of(fine.arena)),
        coarse.is_regular(),
    ensures
        fine.is_regular(),
{
    lemma_refined_facts(coarse, fine);
    lemma_regular_distinct(coarse);
    assert forall|i: int| 0 <= i < fine.triangles.len() implies (#[trigger] fine.triangles[i]).is_proper() by {
        assert(coarse.triangle_ok(i / 4));
        assert(corners(fine.triangles[i]) == coarse.child_corners(coarse.triangles[i / 4], i % 4));
    }
    assert forall|s: int, t: int, x: usize, y: usize|
        0 <= s < fine.triangles.len() && 0 <= t < fine.triangles.len() && s != t && x != y
            && (#[trigger] fine.triangles[s].has_side(x)) && fine.triangles[s].has_side(y)
            && fine.triangles[t].has_side(x) && (#[trigger] fine.triangles[t].has_side(
            y,
        )) implies false by {
        lemma_children_apart(coarse, fine, s, t, x, y);
    }
}

impl<P> ModelView<P> {
    /// How many vertices, edges and triangles the mesh has.
    pub open spec fn counts(self) -> (int, int, int) {
        (self.vertices.dom().len() as int, self.edges.len() as int, self.triangles.len() as int)
    }
}

/// How many vertices, edges and triangles a regular mesh has after
/// `passes` passes, from how many it has before: each pass turns `V`, `E`,
/// `F` into `V + E`, `2 E + 3 F`, `4 F`.
pub open spec fn counts_after(before: (int, int, int), passes: nat) -> (int, int, int)
    decreases passes,
{
    if passes == 0 {
        before
    } else {
        let (v, e, f) = counts_after(before, (passes - 1) as nat);
        (v + e, 2 * e + 3 * f, 4 * f)
    }
}

} // verus!
