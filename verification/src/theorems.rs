use vstd::prelude::*;
use crate::consistency::{
    lemma_add_triangle_appends, lemma_add_triangle_sizes, lemma_add_triangle_wf,
};
use crate::model::ModelView;
use crate::stencil::{blended, center_weight, ring_weight, Stencil, Weight};
use crate::subdiv_surface::{is_edge_point, is_subdivision};

verus! {

/// True if `p` and `q` are the ends of one of the three sides of the
/// triangle with corners `v0`, `v1`, `v2`.
pub open spec fn is_side(v0: usize, v1: usize, v2: usize, p: usize, q: usize) -> bool {
    ||| (p == v0 && q == v1) || (p == v1 && q == v0)
    ||| (p == v1 && q == v2) || (p == v2 && q == v1)
    ||| (p == v2 && q == v0) || (p == v0 && q == v2)
}

/// Two triangles that are added one after the other and share a side share
/// the edge: the mesh then holds exactly one edge between the two ends of
/// that side, and this edge lists both triangles.
pub proof fn theorem_shared_edge_is_reused<P>(
    m: ModelView<P>,
    a0: usize,
    a1: usize,
    a2: usize,
    b0: usize,
    b1: usize,
    b2: usize,
    p: usize,
    q: usize,
)
    requires
        m.wf(),
        m.has_vertex(a0) && m.has_vertex(a1) && m.has_vertex(a2),
        m.has_vertex(b0) && m.has_vertex(b1) && m.has_vertex(b2),
        m.add_triangle(a0, a1, a2).add_triangle(b0, b1, b2).edges.len() <= usize::MAX,
        m.add_triangle(a0, a1, a2).add_triangle(b0, b1, b2).triangles.len() <= usize::MAX,
        is_side(a0, a1, a2, p, q),
        is_side(b0, b1, b2, p, q),
    ensures
        ({
            let n = m.add_triangle(a0, a1, a2).add_triangle(b0, b1, b2);
            let first = m.triangles.len() as usize;
            let second = (m.triangles.len() + 1) as usize;
            exists|e: usize|
                {
                    &&& #[trigger] n.joins(e, p, q)
                    &&& n.edges[e as int].triangles.contains(first)
                    &&& n.edges[e as int].triangles.contains(second)
                    &&& forall|other: usize| n.joins(other, p, q) ==> other == e
                }
        }),
{
    let m1 = m.add_triangle(a0, a1, a2);
    let n = m1.add_triangle(b0, b1, b2);
    let first = m.triangles.len() as usize;
    let second = (m.triangles.len() + 1) as usize;
    lemma_add_triangle_sizes(m, a0, a1, a2);
    lemma_add_triangle_sizes(m1, b0, b1, b2);
    lemma_add_triangle_wf(m, a0, a1, a2);
    lemma_add_triangle_appends(m, a0, a1, a2);
    lemma_add_triangle_wf(m1, b0, b1, b2);
    lemma_add_triangle_appends(m1, b0, b1, b2);
    assert(n.triangle_ok(first as int));
    assert(n.triangle_ok(second as int));
    let ta = n.triangles[first as int];
    let tb = n.triangles[second as int];
    assert(ta == m1.triangles[first as int]);
    assert(ta.v0 == a0 && ta.v1 == a1 && ta.v2 == a2);
    assert(tb.v0 == b0 && tb.v1 == b1 && tb.v2 == b2);
    let ea = if n.joins(ta.e0, p, q) {
        ta.e0
    } else if n.joins(ta.e1, p, q) {
        ta.e1
    } else {
        ta.e2
    };
    let eb = if n.joins(tb.e0, p, q) {
        tb.e0
    } else if n.joins(tb.e1, p, q) {
        tb.e1
    } else {
        tb.e2
    };
    assert(n.joins(ea, p, q));
    assert(n.joins(eb, p, q));
    assert(n.edges[ea as int].triangles.contains(first));
    assert(n.edges[eb as int].triangles.contains(second));
    assert forall|other: usize| n.joins(other, p, q) implies other == ea by {
        assert(n.edges[other as int].connects(n.edges[ea as int].a, n.edges[ea as int].b));
    }
    assert(eb == ea);
}

/// The edge point of a boundary edge is the midpoint of its two ends: each
/// end weighs one half and nothing else has a part in it, whatever the
/// rest of the mesh is.
pub proof fn theorem_boundary_edge_point_is_midpoint<P>(m: ModelView<P>, edge: usize)
    requires
        edge < m.edges.len(),
        m.edges[edge as int].triangles.len() != 2,
    ensures
        m.edge_stencil(edge) == seq![
            (Weight::Ratio { num: 1, den: 2 }, m.position(m.edges[edge as int].a)),
            (Weight::Ratio { num: 1, den: 2 }, m.position(m.edges[edge as int].b)),
        ],
{
}

/// After a pass, the vertex on a boundary edge lies where `blend` puts the
/// midpoint of the two ends of that edge.
pub proof fn theorem_boundary_edge_point_after_pass<P, F: Fn(&Stencil<P>) -> P>(
    blend: &F,
    coarse: ModelView<P>,
    fine: ModelView<P>,
    edge: usize,
)
    requires
        is_subdivision(blend, coarse, fine),
        edge < coarse.edges.len(),
        coarse.edges[edge as int].triangles.len() != 2,
    ensures
        blended(
            blend,
            seq![
                (Weight::Ratio { num: 1, den: 2 }, coarse.position(coarse.edges[edge as int].a)),
                (Weight::Ratio { num: 1, den: 2 }, coarse.position(coarse.edges[edge as int].b)),
            ],
            fine.arena[edge as int].position,
        ),
{
    theorem_boundary_edge_point_is_midpoint(coarse, edge);
    assert(is_edge_point(blend, coarse, edge, fine.arena[edge as int]));
}

/// With exactly three adjacent vertices each of them weighs 3/16, as a
/// fraction and not by the cosine formula, and the vertex itself 7/16.
pub proof fn theorem_valence_three_weight<P>(m: ModelView<P>, vertex: usize)
    requires
        m.adjacent_vertices(vertex).len() == 3,
    ensures
        ring_weight(3) == (Weight::Ratio { num: 3, den: 16 }),
        center_weight(3) == (Weight::Ratio { num: 7, den: 16 }),
        m.vertex_stencil(vertex) == Some(
            seq![
                (Weight::Ratio { num: 7, den: 16 }, m.position(vertex)),
                (Weight::Ratio { num: 3, den: 16 }, m.position(m.adjacent_vertices(vertex)[0])),
                (Weight::Ratio { num: 3, den: 16 }, m.position(m.adjacent_vertices(vertex)[1])),
                (Weight::Ratio { num: 3, den: 16 }, m.position(m.adjacent_vertices(vertex)[2])),
            ],
        ),
{
    let ring = m.adjacent_vertices(vertex);
    let expected = seq![
        (Weight::Ratio { num: 7, den: 16 }, m.position(vertex)),
        (Weight::Ratio { num: 3, den: 16 }, m.position(ring[0])),
        (Weight::Ratio { num: 3, den: 16 }, m.position(ring[1])),
        (Weight::Ratio { num: 3, den: 16 }, m.position(ring[2])),
    ];
    assert(m.vertex_stencil(vertex).unwrap() =~= expected);
}

/// For every other number of adjacent vertices, three or more, the weights
/// are those of the cosine formula for that number.
pub proof fn theorem_other_valence_weight(valence: usize)
    requires
        valence >= 4,
    ensures
        ring_weight(valence) == (Weight::LoopRing { valence }),
        center_weight(valence) == (Weight::LoopCenter { valence }),
{
}

} // verus!
