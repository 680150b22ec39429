use vstd::prelude::*;
use crate::consistency::lemma_add_triangle_keeps_points;
use crate::counting::{
    theorem_edge_count, theorem_regular_is_kept, theorem_triangle_count, theorem_vertex_count,
};
use crate::index_map::{entries, index_map_get, index_map_insert, index_map_new, IndexMap};
use crate::model::{Model, ModelView};
use crate::stencil::{
    accepts_stencils, apply, blended, center_weight, center_weight_of, corner_center_weight,
    corner_ring_weight, edge_end_weight, edge_wing_weight, midpoint_weight, ring_weight,
    ring_weight_of, Stencil, Weight,
};
use crate::triangle::Triangle;
use crate::vertex::{Vertex, VertexView};

verus! {

impl<P> ModelView<P> {
    /// Where the vertex at slot `vertex` lies.
    pub open spec fn position(self, vertex: usize) -> P {
        self.arena[vertex as int].position
    }

    /// The rule for the new vertex on the edge `edge`.
    ///
    /// On a boundary edge it is the midpoint of the two ends. On an
    /// interior edge the two ends weigh 3/8 each, and the corners across
    /// from the edge in its first and in its second triangle 1/8 each.
    pub open spec fn edge_stencil(self, edge: usize) -> Seq<(Weight, P)> {
        let e = self.edges[edge as int];
        let a = self.position(e.a);
        let b = self.position(e.b);
        if e.is_boundary() {
            seq![(midpoint_weight(), a), (midpoint_weight(), b)]
        } else {
            let left = self.triangles[e.triangles[0] as int].opposite(e);
            let right = self.triangles[e.triangles[1] as int].opposite(e);
            seq![
                (edge_end_weight(), a),
                (edge_end_weight(), b),
                (edge_wing_weight(), self.position(left)),
                (edge_wing_weight(), self.position(right)),
            ]
        }
    }

    /// True if the edge at place `k` of the edge list of `vertex` is a
    /// boundary edge.
    pub open spec fn boundary_at(self, vertex: usize, k: int) -> bool {
        self.edges[self.arena[vertex as int].edges[k] as int].is_boundary()
    }

    /// True if one of the first `upto` edges of `vertex` is a boundary edge.
    pub open spec fn touches_boundary(self, vertex: usize, upto: int) -> bool {
        exists|k: int| 0 <= k < upto && self.boundary_at(vertex, k)
    }

    /// The vertex at the other end of the edge at place `k` of the edge
    /// list of `vertex`.
    pub open spec fn neighbor_at(self, vertex: usize, k: int) -> usize {
        self.edges[self.arena[vertex as int].edges[k] as int].other_vertex(vertex)
    }

    /// The other ends of the first `upto` edges of `vertex`, in the order of
    /// its edge list: of all of them, or of the boundary edges alone.
    pub open spec fn neighbors(self, vertex: usize, upto: int, boundary_only: bool) -> Seq<usize>
        decreases upto,
    {
        if upto <= 0 {
            Seq::empty()
        } else {
            let rest = self.neighbors(vertex, upto - 1, boundary_only);
            if !boundary_only || self.boundary_at(vertex, upto - 1) {
                rest.push(self.neighbor_at(vertex, upto - 1))
            } else {
                rest
            }
        }
    }

    /// The vertices that count as adjacent to `vertex` when it is moved:
    /// where a boundary edge ends in it, the other ends of its boundary
    /// edges; else the other ends of all its edges.
    pub open spec fn adjacent_vertices(self, vertex: usize) -> Seq<usize> {
        let n = self.arena[vertex as int].edges.len() as int;
        self.neighbors(vertex, n, self.touches_boundary(vertex, n))
    }

    /// One term of weight `weight` for each vertex of `ring`.
    pub open spec fn ring_terms(self, ring: Seq<usize>, weight: Weight) -> Seq<(Weight, P)> {
        Seq::new(ring.len(), |i: int| (weight, self.position(ring[i])))
    }

    /// The rule for the new place of `vertex`, by the number `n` of its
    /// adjacent vertices. With fewer than two the vertex stays where it is
    /// and there is no rule. With two it weighs 3/4 and each of them 1/8.
    /// With three or more each of them weighs `alpha`, 3/16 where `n` is 3,
    /// and the vertex `1 - n alpha`.
    pub open spec fn vertex_stencil(self, vertex: usize) -> Option<Seq<(Weight, P)>> {
        let ring = self.adjacent_vertices(vertex);
        let p = self.position(vertex);
        if ring.len() < 2 {
            None
        } else if ring.len() == 2 {
            Some(
                seq![
                    (corner_center_weight(), p),
                    (corner_ring_weight(), self.position(ring[0])),
                    (corner_ring_weight(), self.position(ring[1])),
                ],
            )
        } else {
            Some(
                seq![(center_weight(ring.len() as usize), p)] + self.ring_terms(
                    ring,
                    ring_weight(ring.len() as usize),
                ),
            )
        }
    }

    /// The new vertex that stands for the vertex `vertex` of this model
    /// after a pass: the edge points come first, one for each edge.
    pub open spec fn vertex_point(self, vertex: usize) -> usize {
        (self.edges.len() + vertex) as usize
    }

    /// The model that holds the given vertices and nothing else.
    pub open spec fn of_points(points: Seq<VertexView<P>>) -> Self {
        ModelView {
            vertices: Map::empty(),
            arena: points,
            edges: Seq::empty(),
            triangles: Seq::empty(),
        }
    }

    /// This model with the four triangles that replace the triangle `t` of
    /// `coarse`: the corner triangle at `v0`, the one at `v1`, the centre
    /// triangle and the corner triangle at `v2`.
    pub open spec fn with_children(self, coarse: ModelView<P>, t: Triangle) -> Self {
        let nv0 = coarse.vertex_point(t.v0);
        let nv1 = coarse.vertex_point(t.v1);
        let nv2 = coarse.vertex_point(t.v2);
        self.add_triangle(nv0, t.e0, t.e2).add_triangle(t.e0, nv1, t.e1).add_triangle(
            t.e0,
            t.e1,
            t.e2,
        ).add_triangle(t.e2, t.e1, nv2)
    }

    /// The mesh built on `points` from the children of the first `upto`
    /// triangles of this model.
    pub open spec fn refined_upto(self, points: Seq<VertexView<P>>, upto: int) -> Self
        decreases upto,
    {
        if upto <= 0 {
            Self::of_points(points)
        } else {
            self.refined_upto(points, upto - 1).with_children(self, self.triangles[upto - 1])
        }
    }

    /// The mesh after one pass whose new vertices are `points`: first the
    /// edge point of each edge, then the vertex point of each vertex.
    pub open spec fn refined(self, points: Seq<VertexView<P>>) -> Self {
        self.refined_upto(points, self.triangles.len() as int)
    }
}

/// The vertices of `arena` without their adjacency.
pub open spec fn points_of<P>(arena: Seq<VertexView<P>>) -> Seq<VertexView<P>> {
    Seq::new(
        arena.len(),
        |i: int| VertexView::bare(arena[i].id, arena[i].position, arena[i].index),
    )
}

/// True if `point` can be the new vertex on the edge `edge` of `coarse`:
/// its position is what `blend` gives for the rule of the edge, and its
/// lineage mark is that of the end `a`.
pub open spec fn is_edge_point<P, F: Fn(&Stencil<P>) -> P>(
    blend: &F,
    coarse: ModelView<P>,
    edge: usize,
    point: VertexView<P>,
) -> bool {
    &&& point.index == coarse.arena[coarse.edges[edge as int].a as int].index
    &&& blended(blend, coarse.edge_stencil(edge), point.position)
}

/// True if `point` can be the new vertex for the vertex `vertex` of
/// `coarse`: it keeps the lineage mark, and its position is the old one
/// where there is no rule, else what `blend` gives for the rule.
pub open spec fn is_vertex_point<P, F: Fn(&Stencil<P>) -> P>(
    blend: &F,
    coarse: ModelView<P>,
    vertex: usize,
    point: VertexView<P>,
) -> bool {
    &&& point.index == coarse.arena[vertex as int].index
    &&& match coarse.vertex_stencil(vertex) {
        None => point.position == coarse.position(vertex),
        Some(terms) => blended(blend, terms, point.position),
    }
}

/// True if `fine` is `coarse` after one pass of Loop subdivision with
/// `blend`: it has an edge point for every edge and then a vertex point for
/// every vertex, and its topology is that of the four children of every
/// triangle, added in order to a mesh that held those points alone.
pub open spec fn is_subdivision<P, F: Fn(&Stencil<P>) -> P>(
    blend: &F,
    coarse: ModelView<P>,
    fine: ModelView<P>,
) -> bool {
    &&& fine.arena.len() == coarse.edges.len() + coarse.arena.len()
    &&& fine == coarse.refined(points_of(fine.arena))
    &&& forall|e: int|
        0 <= e < coarse.edges.len() ==> is_edge_point(
            blend,
            coarse,
            e as usize,
            #[trigger] fine.arena[e],
        )
    &&& forall|v: int|
        0 <= v < coarse.arena.len() ==> is_vertex_point(
            blend,
            coarse,
            v as usize,
            #[trigger] fine.arena[coarse.edges.len() + v],
        )
}

/// True if `end` is `start` after `passes` passes with `blend`.
pub open spec fn reached<P, F: Fn(&Stencil<P>) -> P>(
    blend: &F,
    start: ModelView<P>,
    end: ModelView<P>,
    passes: nat,
) -> bool
    decreases passes,
{
    if passes == 0 {
        end == start
    } else {
        exists|mid: ModelView<P>|
            reached(blend, start, mid, (passes - 1) as nat) && #[trigger] is_subdivision(
                blend,
                mid,
                end,
            )
    }
}

proof fn lemma_neighbors_without_boundary<P>(m: ModelView<P>, vertex: usize, upto: int)
    requires
        !m.touches_boundary(vertex, upto),
    ensures
        m.neighbors(vertex, upto, true).len() == 0,
    decreases upto,
{
    if upto > 0 {
        assert(!m.boundary_at(vertex, upto - 1));
        assert(!m.touches_boundary(vertex, upto - 1)) by {
            if m.touches_boundary(vertex, upto - 1) {
                let k = choose|k: int| 0 <= k < upto - 1 && m.boundary_at(vertex, k);
                assert(0 <= k < upto && m.boundary_at(vertex, k));
            }
        }
        lemma_neighbors_without_boundary(m, vertex, upto - 1);
    }
}

/// The position of a vertex of the arena.
fn position_of<P: Copy>(model: &Model<P>, vertex: usize) -> (p: P)
    requires
        model@.has_vertex(vertex),
    ensures
        p == model@.position(vertex),
{
    model.arena[vertex].position
}

/// The rule for the new vertex on an edge of the model.
pub fn edge_stencil<P: Copy>(model: &Model<P>, edge: usize) -> (s: Stencil<P>)
    requires
        model@.wf(),
        edge < model@.edges.len(),
    ensures
        s@ == model@.edge_stencil(edge),
        s.wf(),
{
    assert(model@.edge_ok(edge as int));
    let e = &model.edges[edge];
    assert(e@ == model@.edges[edge as int]);
    let a = position_of(model, e.a);
    let b = position_of(model, e.b);
    let mut terms: Vec<(Weight, P)> = Vec::new();
    if e.is_boundary() {
        terms.push((Weight::Ratio { num: 1, den: 2 }, a));
        terms.push((Weight::Ratio { num: 1, den: 2 }, b));
    } else {
        let t0 = e.triangles[0];
        let t1 = e.triangles[1];
        assert(model@.side_of(edge, e@.triangles[0]));
        assert(model@.side_of(edge, e@.triangles[1]));
        assert(model@.triangle_ok(t0 as int));
        assert(model@.triangle_ok(t1 as int));
        assert(model@.ids_in_order());
        let left = model.triangles[t0].get_opposite_vertex(e);
        let right = model.triangles[t1].get_opposite_vertex(e);
        terms.push((Weight::Ratio { num: 3, den: 8 }, a));
        terms.push((Weight::Ratio { num: 3, den: 8 }, b));
        terms.push((Weight::Ratio { num: 1, den: 8 }, position_of(model, left)));
        terms.push((Weight::Ratio { num: 1, den: 8 }, position_of(model, right)));
    }
    assert(terms@ =~= model@.edge_stencil(edge));
    Stencil { terms }
}

/// The new vertex on an edge of the model, under the identifier `id`.
pub fn subdivide_edge<P: Copy, F: Fn(&Stencil<P>) -> P>(
    model: &Model<P>,
    edge: usize,
    id: usize,
    blend: &F,
) -> (point: Vertex<P>)
    requires
        model@.wf(),
        edge < model@.edges.len(),
        accepts_stencils(blend),
    ensures
        point@.id == id,
        point@.is_bare(),
        is_edge_point(blend, model@, edge, point@),
{
    assert(model@.edge_ok(edge as int));
    assert(model.edges[edge as int]@ == model@.edges[edge as int]);
    let stencil = edge_stencil(model, edge);
    let position = apply(blend, &stencil);
    let a = model.edges[edge].a;
    Vertex::with_index(id, position, model.arena[a].index)
}

/// The vertices that count as adjacent to `vertex` when it is moved.
///
/// The edges of the vertex are walked in their stored order. Up to the
/// first boundary edge every other end is taken; that edge empties the
/// list, and from it on only the other ends of boundary edges are taken.
pub fn get_adjacent_vertices<P>(model: &Model<P>, vertex: usize) -> (ring: Vec<usize>)
    requires
        model@.wf(),
        model@.has_vertex(vertex),
    ensures
        ring@ == model@.adjacent_vertices(vertex),
        forall|i: int| 0 <= i < ring@.len() ==> model@.has_vertex(#[trigger] ring@[i]),
{
    assert(model@.vertex_ok(vertex as int));
    let list = &model.arena[vertex].edges;
    assert(list@ == model@.arena[vertex as int].edges);
    let mut ring: Vec<usize> = Vec::with_capacity(list.len());
    let mut is_boundary = false;
    let mut k: usize = 0;
    while k < list.len()
        invariant
            0 <= k <= list.len(),
            model@.wf(),
            model@.has_vertex(vertex),
            model@.vertex_ok(vertex as int),
            list@ == model@.arena[vertex as int].edges,
            is_boundary == model@.touches_boundary(vertex, k as int),
            ring@ == model@.neighbors(vertex, k as int, is_boundary),
            forall|i: int| 0 <= i < ring@.len() ==> model@.has_vertex(#[trigger] ring@[i]),
        decreases list.len() - k,
    {
        let e = list[k];
        assert(model@.edge_at(list@[k as int], vertex));
        assert(model@.edge_ok(e as int));
        let edge = &model.edges[e];
        assert(edge@ == model@.edges[e as int]);
        let is_boundary_edge = edge.is_boundary();
        assert(is_boundary_edge == model@.boundary_at(vertex, k as int));
        proof {
            if is_boundary_edge {
                assert(0 <= k < k + 1 && model@.boundary_at(vertex, k as int));
            } else if model@.touches_boundary(vertex, k + 1) {
                let j = choose|j: int| 0 <= j < k + 1 && model@.boundary_at(vertex, j);
                assert(0 <= j < k && model@.boundary_at(vertex, j));
            } else if model@.touches_boundary(vertex, k as int) {
                let j = choose|j: int| 0 <= j < k && model@.boundary_at(vertex, j);
                assert(0 <= j < k + 1 && model@.boundary_at(vertex, j));
            }
        }
        if is_boundary_edge && !is_boundary {
            proof {
                lemma_neighbors_without_boundary(model@, vertex, k as int);
            }
            ring.clear();
            is_boundary = true;
            assert(ring@ =~= model@.neighbors(vertex, k as int, true));
        }
        if !is_boundary || is_boundary_edge {
            ring.push(edge.get_other_vertex(vertex));
        }
        k += 1;
    }
    ring
}

/// The rule for the new place of a vertex of the model, if it moves.
pub fn vertex_stencil<P: Copy>(model: &Model<P>, vertex: usize) -> (r: Option<Stencil<P>>)
    requires
        model@.wf(),
        model@.has_vertex(vertex),
    ensures
        match r {
            Some(s) => model@.vertex_stencil(vertex) == Some(s@) && s.wf(),
            None => model@.vertex_stencil(vertex) is None,
        },
{
    let ring = get_adjacent_vertices(model, vertex);
    let n = ring.len();
    let p = position_of(model, vertex);
    if n < 2 {
        None
    } else if n < 3 {
        let mut terms: Vec<(Weight, P)> = Vec::new();
        terms.push((Weight::Ratio { num: 3, den: 4 }, p));
        terms.push((Weight::Ratio { num: 1, den: 8 }, position_of(model, ring[0])));
        terms.push((Weight::Ratio { num: 1, den: 8 }, position_of(model, ring[1])));
        assert(terms@ =~= model@.vertex_stencil(vertex).unwrap());
        Some(Stencil { terms })
    } else {
        let alpha = ring_weight_of(n);
        let mut terms: Vec<(Weight, P)> = Vec::new();
        terms.push((center_weight_of(n), p));
        let mut i: usize = 0;
        while i < n
            invariant
                0 <= i <= n,
                n == ring@.len(),
                n >= 3,
                alpha == ring_weight(n),
                terms@.len() == i + 1,
                terms@[0] == (center_weight(n), p),
                forall|j: int|
                    0 <= j < i ==> (#[trigger] terms@[j + 1]) == (alpha, model@.position(ring@[j])),
                forall|j: int| 0 <= j < ring@.len() ==> model@.has_vertex(#[trigger] ring@[j]),
            decreases n - i,
        {
            terms.push((alpha, position_of(model, ring[i])));
            i += 1;
        }
        assert(terms@ =~= model@.vertex_stencil(vertex).unwrap()) by {
            let expected = model@.vertex_stencil(vertex).unwrap();
            assert(expected.len() == n + 1);
            assert forall|j: int| 0 <= j < terms@.len() implies terms@[j] == expected[j] by {
                if j > 0 {
                    assert(terms@[(j - 1) + 1] == (alpha, model@.position(ring@[j - 1])));
                }
            }
        }
        Some(Stencil { terms })
    }
}

/// The new vertex for a vertex of the model, under the identifier `id`.
pub fn move_vertex<P: Copy, F: Fn(&Stencil<P>) -> P>(
    model: &Model<P>,
    vertex: usize,
    id: usize,
    blend: &F,
) -> (point: Vertex<P>)
    requires
        model@.wf(),
        model@.has_vertex(vertex),
        accepts_stencils(blend),
    ensures
        point@.id == id,
        point@.is_bare(),
        is_vertex_point(blend, model@, vertex, point@),
{
    let index = model.arena[vertex].index;
    match vertex_stencil(model, vertex) {
        None => Vertex::with_index(id, position_of(model, vertex), index),
        Some(stencil) => Vertex::with_index(id, apply(blend, &stencil), index),
    }
}

/// The map from each of the first `count` edges to its edge point, which
/// has the same number.
pub open spec fn edge_point_map(count: int) -> Map<usize, usize> {
    Map::new(|e: usize| e < count, |e: usize| e)
}

/// The map from each of the first `count` vertices to its vertex point,
/// which comes `offset` places later.
pub open spec fn vertex_point_map(offset: int, count: int) -> Map<usize, usize> {
    Map::new(|v: usize| v < count, |v: usize| (offset + v) as usize)
}

/// The views of the vertices of `points`, in order.
pub open spec fn views_of<P>(points: Seq<Vertex<P>>) -> Seq<VertexView<P>> {
    Seq::new(points.len(), |i: int| points[i]@)
}

/// True if each of `points` carries its place as identifier and has no
/// adjacency.
pub open spec fn fresh_points<P>(points: Seq<Vertex<P>>) -> bool {
    forall|i: int| 0 <= i < points.len() ==> (#[trigger] points[i])@.id == i && points[i]@.is_bare()
}

/// The value stored under a key that the map holds.
fn lookup(map: &IndexMap, key: usize) -> (value: usize)
    requires
        entries(*map).contains_key(key),
    ensures
        value == entries(*map)[key],
{
    index_map_get(map, key).unwrap()
}

/// Appends the edge point of every edge to `points` and records under
/// each edge the identifier of its edge point.
fn place_edge_points<P: Copy, F: Fn(&Stencil<P>) -> P>(
    model: &Model<P>,
    blend: &F,
    points: &mut Vec<Vertex<P>>,
) -> (edge_points: IndexMap)
    requires
        model@.wf(),
        accepts_stencils(blend),
        old(points)@.len() == 0,
    ensures
        final(points)@.len() == model@.edges.len(),
        fresh_points(final(points)@),
        entries(edge_points) == edge_point_map(model@.edges.len() as int),
        forall|e: int|
            0 <= e < model@.edges.len() ==> is_edge_point(
                blend,
                model@,
                e as usize,
                (#[trigger] final(points)@[e])@,
            ),
{
    let mut edge_points = index_map_new();
    let count = model.edges.len();
    assert(count == model@.edges.len());
    let mut e: usize = 0;
    while e < count
        invariant
            0 <= e <= count,
            count == model@.edges.len(),
            model@.wf(),
            accepts_stencils(blend),
            points@.len() == e,
            fresh_points(points@),
            entries(edge_points) =~= edge_point_map(e as int),
            forall|i: int|
                0 <= i < e ==> is_edge_point(blend, model@, i as usize, (#[trigger] points@[i])@),
        decreases count - e,
    {
        let id = points.len();
        let point = subdivide_edge(model, e, id, blend);
        points.push(point);
        index_map_insert(&mut edge_points, e, id);
        e += 1;
    }
    edge_points
}

/// Appends the vertex point of every vertex to `points` and records under
/// each vertex the identifier of its vertex point.
fn place_vertex_points<P: Copy, F: Fn(&Stencil<P>) -> P>(
    model: &Model<P>,
    blend: &F,
    points: &mut Vec<Vertex<P>>,
) -> (vertex_points: IndexMap)
    requires
        model@.wf(),
        accepts_stencils(blend),
        old(points)@.len() == model@.edges.len(),
        fresh_points(old(points)@),
    ensures
        final(points)@.len() == model@.edges.len() + model@.arena.len(),
        fresh_points(final(points)@),
        entries(vertex_points) == vertex_point_map(
            model@.edges.len() as int,
            model@.arena.len() as int,
        ),
        forall|e: int|
            0 <= e < model@.edges.len() ==> (#[trigger] final(points)@[e]) == old(points)@[e],
        forall|v: int|
            0 <= v < model@.arena.len() ==> is_vertex_point(
                blend,
                model@,
                v as usize,
                (#[trigger] final(points)@[model@.edges.len() + v])@,
            ),
{
    let mut vertex_points = index_map_new();
    let count = model.arena.len();
    let ghost offset = model@.edges.len() as int;
    assert(count == model@.arena.len());
    let mut v: usize = 0;
    while v < count
        invariant
            0 <= v <= count,
            count == model@.arena.len(),
            offset == model@.edges.len(),
            offset == old(points)@.len(),
            model@.wf(),
            accepts_stencils(blend),
            points@.len() == offset + v,
            fresh_points(points@),
            entries(vertex_points) =~= vertex_point_map(offset, v as int),
            forall|e: int| 0 <= e < offset ==> (#[trigger] points@[e]) == old(points)@[e],
            forall|i: int|
                0 <= i < v ==> is_vertex_point(
                    blend,
                    model@,
                    i as usize,
                    (#[trigger] points@[offset + i])@,
                ),
        decreases count - v,
    {
        let id = points.len();
        let point = move_vertex(model, v, id, blend);
        let ghost before = points@;
        points.push(point);
        index_map_insert(&mut vertex_points, v, id);
        proof {
            assert forall|i: int| 0 <= i < v + 1 implies is_vertex_point(
                blend,
                model@,
                i as usize,
                (#[trigger] points@[offset + i])@,
            ) by {
                if i < v {
                    assert(points@[offset + i] == before[offset + i]);
                }
            }
        }
        v += 1;
    }
    vertex_points
}

/// Adds to `fine` the four triangles that replace one triangle of the
/// coarse mesh: the corner triangle at its first corner, the one at its
/// second, the centre triangle and the corner triangle at its third.
/// `nv0`, `nv1`, `nv2` are the vertex points of the corners and `ev0`,
/// `ev1`, `ev2` the edge points of the sides.
fn add_children<P>(
    fine: &mut Model<P>,
    nv0: usize,
    nv1: usize,
    nv2: usize,
    ev0: usize,
    ev1: usize,
    ev2: usize,
)
    requires
        old(fine)@.wf(),
        old(fine)@.has_vertex(nv0),
        old(fine)@.has_vertex(nv1),
        old(fine)@.has_vertex(nv2),
        old(fine)@.has_vertex(ev0),
        old(fine)@.has_vertex(ev1),
        old(fine)@.has_vertex(ev2),
    ensures
        final(fine)@.wf(),
        final(fine)@ == old(fine)@.add_triangle(nv0, ev0, ev2).add_triangle(ev0, nv1, ev1).add_triangle(
            ev0,
            ev1,
            ev2,
        ).add_triangle(ev2, ev1, nv2),
        final(fine)@.arena.len() == old(fine)@.arena.len(),
        forall|i: int|
            0 <= i < old(fine)@.arena.len() ==> (#[trigger] final(fine)@.arena[i]).same_point(
                old(fine)@.arena[i],
            ),
{
    let ghost m0 = fine@;
    fine.add_triangle(nv0, ev0, ev2);
    let ghost m1 = fine@;
    proof {
        lemma_add_triangle_keeps_points(m0, nv0, ev0, ev2);
    }
    fine.add_triangle(ev0, nv1, ev1);
    let ghost m2 = fine@;
    proof {
        lemma_add_triangle_keeps_points(m1, ev0, nv1, ev1);
    }
    fine.add_triangle(ev0, ev1, ev2);
    let ghost m3 = fine@;
    proof {
        lemma_add_triangle_keeps_points(m2, ev0, ev1, ev2);
    }
    fine.add_triangle(ev2, ev1, nv2);
    proof {
        lemma_add_triangle_keeps_points(m3, ev2, ev1, nv2);
        assert forall|i: int| 0 <= i < m0.arena.len() implies (#[trigger] fine@.arena[i]).same_point(
            m0.arena[i],
        ) by {
            assert(m1.arena[i].same_point(m0.arena[i]));
            assert(m2.arena[i].same_point(m1.arena[i]));
            assert(m3.arena[i].same_point(m2.arena[i]));
        }
    }
}

/// Builds the refined mesh on `points`: for every triangle of `model`, in
/// order, its four children, whose corners are found through the two maps.
fn rebuild<P>(
    model: &Model<P>,
    points: Vec<Vertex<P>>,
    edge_points: &IndexMap,
    vertex_points: &IndexMap,
) -> (fine: Model<P>)
    requires
        model@.wf(),
        points@.len() == model@.edges.len() + model@.arena.len(),
        fresh_points(points@),
        entries(*edge_points) == edge_point_map(model@.edges.len() as int),
        entries(*vertex_points) == vertex_point_map(
            model@.edges.len() as int,
            model@.arena.len() as int,
        ),
    ensures
        fine@.wf(),
        fine@ == model@.refined(views_of(points@)),
        fine@.arena.len() == points@.len(),
        forall|i: int|
            0 <= i < points@.len() ==> (#[trigger] fine@.arena[i]).same_point(points@[i]@),
{
    let ghost fresh = views_of(points@);
    let ghost edge_count = model@.edges.len() as int;
    let ghost vertex_count = model@.arena.len() as int;
    assert(points.len() == edge_count + vertex_count);
    let mut fine = Model {
        vertices: index_map_new(),
        arena: points,
        edges: Vec::new(),
        triangles: Vec::new(),
    };
    proof {
        assert(fine@.arena =~= fresh);
        assert(fine@.edges =~= Seq::empty());
        assert(fine@ == ModelView::of_points(fresh));
        assert(fine.arena.len() == fresh.len());
        assert forall|v: int| 0 <= v < fine@.arena.len() implies #[trigger] fine@.vertex_ok(v) by {
            assert(points@[v]@.is_bare());
        }
        assert(fine@.wf());
    }
    let count = model.triangles.len();
    let mut k: usize = 0;
    while k < count
        invariant
            0 <= k <= count,
            count == model@.triangles.len(),
            edge_count == model@.edges.len(),
            vertex_count == model@.arena.len(),
            edge_count + vertex_count <= usize::MAX,
            fresh.len() == edge_count + vertex_count,
            model@.wf(),
            entries(*edge_points) == edge_point_map(edge_count),
            entries(*vertex_points) == vertex_point_map(edge_count, vertex_count),
            fine@.wf(),
            fine@.arena.len() == edge_count + vertex_count,
            fine@ == model@.refined_upto(fresh, k as int),
            forall|i: int| 0 <= i < fresh.len() ==> (#[trigger] fine@.arena[i]).same_point(fresh[i]),
        decreases count - k,
    {
        let t = model.triangles[k];
        assert(model@.triangle_ok(k as int));
        let ev0 = lookup(edge_points, t.e0);
        let ev1 = lookup(edge_points, t.e1);
        let ev2 = lookup(edge_points, t.e2);
        let nv0 = lookup(vertex_points, t.v0);
        let nv1 = lookup(vertex_points, t.v1);
        let nv2 = lookup(vertex_points, t.v2);
        assert(nv0 == model@.vertex_point(t.v0));
        assert(nv1 == model@.vertex_point(t.v1));
        assert(nv2 == model@.vertex_point(t.v2));
        let ghost m0 = fine@;
        add_children(&mut fine, nv0, nv1, nv2, ev0, ev1, ev2);
        proof {
            assert(fine@ == m0.with_children(model@, t));
            assert forall|i: int| 0 <= i < fresh.len() implies (#[trigger] fine@.arena[i]).same_point(
                fresh[i],
            ) by {
                assert(m0.arena[i].same_point(fresh[i]));
            }
        }
        k += 1;
    }
    fine
}

/// A fresh point in a mesh is, without its adjacency, what it was.
proof fn lemma_points_recovered<P>(arena: Seq<VertexView<P>>, points: Seq<Vertex<P>>)
    requires
        arena.len() == points.len(),
        fresh_points(points),
        forall|i: int| 0 <= i < points.len() ==> (#[trigger] arena[i]).same_point(points[i]@),
    ensures
        points_of(arena) == views_of(points),
{
    assert forall|i: int| 0 <= i < points.len() implies points_of(arena)[i] == views_of(points)[i] by {
        assert(arena[i].same_point(points[i]@));
        assert(points[i]@.is_bare());
    }
    assert(points_of(arena) =~= views_of(points));
}

/// One pass of Loop subdivision.
///
/// Every edge of `model` gets an edge point and every vertex a vertex
/// point; where a rule prescribes a position, `blend` computes it from the
/// rule's stencil. Every triangle is replaced by four, in a new mesh that
/// is built from nothing but these points.
pub fn subdivide_once<P: Copy, F: Fn(&Stencil<P>) -> P>(model: Model<P>, blend: &F) -> (fine: Model<P>)
    requires
        model@.wf(),
        accepts_stencils(blend),
    ensures
        fine@.wf(),
        is_subdivision(blend, model@, fine@),
        fine@.triangles.len() == 4 * model@.triangles.len(),
        model@.every_edge_used() ==> fine@.vertices.dom().len() == model@.vertices.dom().len()
            + model@.edges.len(),
        model@.is_regular() ==> fine@.edges.len() == 2 * model@.edges.len() + 3
            * model@.triangles.len(),
        model@.is_regular() ==> fine@.is_regular(),
{
    let mut points: Vec<Vertex<P>> = Vec::new();
    let edge_points = place_edge_points(&model, blend, &mut points);
    let ghost edge_part = points@;
    let vertex_points = place_vertex_points(&model, blend, &mut points);
    let ghost all = points@;
    let fine = rebuild(&model, points, &edge_points, &vertex_points);
    proof {
        let coarse = model@;
        lemma_points_recovered(fine@.arena, all);
        assert forall|e: int| 0 <= e < coarse.edges.len() implies is_edge_point(
            blend,
            coarse,
            e as usize,
            #[trigger] fine@.arena[e],
        ) by {
            assert(fine@.arena[e].same_point(all[e]@));
            assert(all[e] == edge_part[e]);
            assert(is_edge_point(blend, coarse, e as usize, edge_part[e]@));
        }
        assert forall|v: int| 0 <= v < coarse.arena.len() implies is_vertex_point(
            blend,
            coarse,
            v as usize,
            #[trigger] fine@.arena[coarse.edges.len() + v],
        ) by {
            assert(fine@.arena[coarse.edges.len() + v].same_point(all[coarse.edges.len() + v]@));
            assert(is_vertex_point(blend, coarse, v as usize, all[coarse.edges.len() + v]@));
        }
        theorem_triangle_count(coarse, fine@);
        if coarse.every_edge_used() {
            theorem_vertex_count(coarse, fine@);
        }
        if coarse.is_regular() {
            theorem_edge_count(coarse, fine@);
            theorem_regular_is_kept(coarse, fine@);
        }
    }
    fine
}

} // verus!
