use vstd::prelude::*;
use crate::model::ModelView;
use crate::triangle::Triangle;

verus! {

/// True if `longer` is `shorter` followed by zero or more copies of `item`.
pub open spec fn extended_by(longer: Seq<usize>, shorter: Seq<usize>, item: usize) -> bool {
    &&& shorter.len() <= longer.len()
    &&& forall|k: int| 0 <= k < shorter.len() ==> longer[k] == shorter[k]
    &&& forall|k: int| shorter.len() <= k < longer.len() ==> longer[k] == item
}

proof fn lemma_extended_contains(longer: Seq<usize>, shorter: Seq<usize>, item: usize, x: usize)
    requires
        extended_by(longer, shorter, item),
        shorter.contains(x),
    ensures
        longer.contains(x),
{
    let k = choose|k: int| 0 <= k < shorter.len() && shorter[k] == x;
    assert(longer[k] == x);
}

/// What the search of an edge list answers: an edge of the list that joins
/// the two vertices, and `None` only where the list holds no such edge
/// from the starting place on.
pub proof fn lemma_first_joining<P>(
    m: ModelView<P>,
    list: Seq<usize>,
    v0: usize,
    v1: usize,
    from: int,
)
    requires
        0 <= from,
    ensures
        match m.first_joining(list, v0, v1, from) {
            Some(edge) => m.joins(edge, v0, v1) && list.contains(edge),
            None => forall|k: int| from <= k < list.len() ==> !m.joins(#[trigger] list[k], v0, v1),
        },
    decreases list.len() - from,
{
    if from < list.len() && !m.joins(list[from], v0, v1) {
        lemma_first_joining(m, list, v0, v1, from + 1);
    }
}

/// In a consistent model the search from `v0` finds the edge between `v0`
/// and `v1` wherever the model has one.
pub proof fn lemma_find_edge<P>(m: ModelView<P>, v0: usize, v1: usize)
    requires
        m.linked(),
        m.has_vertex(v0),
        m.has_vertex(v1),
    ensures
        match m.find_edge(v0, v1) {
            Some(edge) => m.joins(edge, v0, v1),
            None => forall|j: int| 0 <= j < m.edges.len() ==> !(#[trigger] m.edges[j]).connects(v0, v1),
        },
{
    let list = m.arena[v0 as int].edges;
    lemma_first_joining(m, list, v0, v1, 0);
    if m.find_edge(v0, v1) is None {
        assert forall|j: int| 0 <= j < m.edges.len() implies !(#[trigger] m.edges[j]).connects(
            v0,
            v1,
        ) by {
            if m.edges[j].connects(v0, v1) {
                assert(m.edge_ok(j));
                assert(list.contains(j as usize));
                let k = choose|k: int| 0 <= k < list.len() && list[k] == j as usize;
                assert(m.joins(list[k], v0, v1));
            }
        }
    }
}

/// `get_or_create_edge` keeps a consistent model consistent, answers with
/// an edge between the two vertices, and leaves everything else as it was.
pub proof fn lemma_with_edge_linked<P>(m: ModelView<P>, v0: usize, v1: usize)
    requires
        m.linked(),
        m.has_vertex(v0),
        m.has_vertex(v1),
        m.with_edge(v0, v1).edges.len() <= usize::MAX,
    ensures
        m.with_edge(v0, v1).linked(),
        m.with_edge(v0, v1).joins(m.edge_for(v0, v1), v0, v1),
        m.with_edge(v0, v1).vertices == m.vertices,
        m.with_edge(v0, v1).triangles == m.triangles,
        m.with_edge(v0, v1).arena.len() == m.arena.len(),
        m.with_edge(v0, v1).edges.len() >= m.edges.len(),
        forall|j: int|
            0 <= j < m.edges.len() ==> (#[trigger] m.with_edge(v0, v1).edges[j]) == m.edges[j],
        forall|v: int|
            0 <= v < m.arena.len() ==> (#[trigger] m.with_edge(v0, v1).arena[v]).triangles
                == m.arena[v].triangles,
        m.registered_used() ==> m.with_edge(v0, v1).registered_used(),
{
    lemma_find_edge(m, v0, v1);
    let n = m.with_edge(v0, v1);
    if m.find_edge(v0, v1) is None {
        let e = m.edges.len() as usize;
        let m1 = m.push_edge(v0, v1);
        let m2 = m1.vertex_add_edge(v0, e);
        assert(n == m2.vertex_add_edge(v1, e));
        assert(n.edges == m.edges.push(n.edges[e as int]));
        assert(n.edges[e as int].a == v0 && n.edges[e as int].b == v1);
        assert(n.edges[e as int].triangles.len() == 0);
        assert forall|v: int| 0 <= v < n.arena.len() implies extended_by(
            (#[trigger] n.arena[v]).edges,
            m.arena[v].edges,
            e,
        ) && n.arena[v].triangles == m.arena[v].triangles && n.arena[v].id == m.arena[v].id by {}
        assert(n.arena[v0 as int].edges.last() == e);
        assert(n.arena[v1 as int].edges.last() == e);
        assert(n.arena[v0 as int].edges.contains(e));
        assert(n.arena[v1 as int].edges.contains(e));
        assert(n.ids_in_order());
        assert(n.registry_ok()) by {
            assert forall|id: usize| #[trigger] n.vertices.contains_key(id) implies n.has_vertex(id)
                && n.vertices[id] == id by {
                assert(m.vertices.contains_key(id));
            }
        }
        assert(n.edges_unique()) by {
            assert forall|i: int, j: int|
                0 <= i < n.edges.len() && 0 <= j < n.edges.len() && (#[trigger] n.edges[i]).connects(
                    (#[trigger] n.edges[j]).a,
                    n.edges[j].b,
                ) implies i == j by {
                if i < e && j < e {
                    assert(m.edges[i].connects(m.edges[j].a, m.edges[j].b));
                } else if i < e {
                    assert(m.edges[i].connects(v0, v1));
                } else if j < e {
                    assert(m.edges[j].connects(v0, v1));
                }
            }
        }
        assert forall|v: int| 0 <= v < n.arena.len() implies #[trigger] n.vertex_ok(v) by {
            assert(m.vertex_ok(v));
            assert(extended_by(n.arena[v].edges, m.arena[v].edges, e));
            assert forall|k: int| 0 <= k < n.arena[v].edges.len() implies n.edge_at(
                #[trigger] n.arena[v].edges[k],
                v as usize,
            ) by {
                if k < m.arena[v].edges.len() {
                    assert(m.edge_at(m.arena[v].edges[k], v as usize));
                }
            }
            assert forall|k: int| 0 <= k < n.arena[v].triangles.len() implies n.corner_of(
                v as usize,
                #[trigger] n.arena[v].triangles[k],
            ) by {
                assert(m.corner_of(v as usize, m.arena[v].triangles[k]));
            }
        }
        assert forall|j: int| 0 <= j < n.edges.len() implies #[trigger] n.edge_ok(j) by {
            if j < e {
                assert(m.edge_ok(j));
                let edge = m.edges[j];
                assert(extended_by(n.arena[edge.a as int].edges, m.arena[edge.a as int].edges, e));
                assert(extended_by(n.arena[edge.b as int].edges, m.arena[edge.b as int].edges, e));
                lemma_extended_contains(
                    n.arena[edge.a as int].edges,
                    m.arena[edge.a as int].edges,
                    e,
                    j as usize,
                );
                lemma_extended_contains(
                    n.arena[edge.b as int].edges,
                    m.arena[edge.b as int].edges,
                    e,
                    j as usize,
                );
                assert forall|k: int| 0 <= k < n.edges[j].triangles.len() implies n.side_of(
                    j as usize,
                    #[trigger] n.edges[j].triangles[k],
                ) by {
                    assert(m.side_of(j as usize, m.edges[j].triangles[k]));
                }
            }
        }
        assert forall|t: int| 0 <= t < n.triangles.len() implies #[trigger] n.triangle_ok(t) by {
            assert(m.triangle_ok(t));
            let tri = m.triangles[t];
            assert(n.edges[tri.e0 as int] == m.edges[tri.e0 as int]);
            assert(n.edges[tri.e1 as int] == m.edges[tri.e1 as int]);
            assert(n.edges[tri.e2 as int] == m.edges[tri.e2 as int]);
            assert(n.arena[tri.v0 as int].triangles == m.arena[tri.v0 as int].triangles);
            assert(n.arena[tri.v1 as int].triangles == m.arena[tri.v1 as int].triangles);
            assert(n.arena[tri.v2 as int].triangles == m.arena[tri.v2 as int].triangles);
        }
    }
}

/// Recording a triangle whose corners belong to the mesh and whose sides
/// join them keeps a consistent model consistent.
pub proof fn lemma_record_triangle_linked<P>(
    m: ModelView<P>,
    v0: usize,
    v1: usize,
    v2: usize,
    e0: usize,
    e1: usize,
    e2: usize,
)
    requires
        m.linked(),
        m.has_vertex(v0) && m.vertices.contains_key(v0),
        m.has_vertex(v1) && m.vertices.contains_key(v1),
        m.has_vertex(v2) && m.vertices.contains_key(v2),
        m.joins(e0, v0, v1),
        m.joins(e1, v1, v2),
        m.joins(e2, v2, v0),
        m.triangles.len() < usize::MAX,
    ensures
        m.record_triangle(v0, v1, v2, e0, e1, e2).linked(),
{
    let t = m.triangles.len() as usize;
    let tri = Triangle { id: t, v0, v1, v2, e0, e1, e2 };
    let n = m.record_triangle(v0, v1, v2, e0, e1, e2);
    assert(n.triangles == m.triangles.push(tri));
    assert(n.vertices == m.vertices);
    assert(n.arena.len() == m.arena.len());
    assert(n.edges.len() == m.edges.len());
    assert forall|v: int| 0 <= v < n.arena.len() implies extended_by(
        (#[trigger] n.arena[v]).triangles,
        m.arena[v].triangles,
        t,
    ) && n.arena[v].edges == m.arena[v].edges && n.arena[v].id == m.arena[v].id && (v != v0 && v
        != v1 && v != v2 ==> n.arena[v].triangles == m.arena[v].triangles) by {}
    assert forall|j: int| 0 <= j < n.edges.len() implies extended_by(
        (#[trigger] n.edges[j]).triangles,
        m.edges[j].triangles,
        t,
    ) && n.edges[j].a == m.edges[j].a && n.edges[j].b == m.edges[j].b && n.edges[j].id
        == m.edges[j].id && (j != e0 && j != e1 && j != e2 ==> n.edges[j].triangles
        == m.edges[j].triangles) by {}
    assert(n.arena[v0 as int].triangles.last() == t);
    assert(n.arena[v1 as int].triangles.last() == t);
    assert(n.arena[v2 as int].triangles.last() == t);
    assert(n.edges[e0 as int].triangles.last() == t);
    assert(n.edges[e1 as int].triangles.last() == t);
    assert(n.edges[e2 as int].triangles.last() == t);
    assert(n.ids_in_order());
    assert(n.registry_ok()) by {
        assert forall|id: usize| #[trigger] n.vertices.contains_key(id) implies n.has_vertex(id)
            && n.vertices[id] == id by {
            assert(m.vertices.contains_key(id));
        }
    }
    assert(n.edges_unique()) by {
        assert forall|i: int, j: int|
            0 <= i < n.edges.len() && 0 <= j < n.edges.len() && (#[trigger] n.edges[i]).connects(
                (#[trigger] n.edges[j]).a,
                n.edges[j].b,
            ) implies i == j by {
            assert(m.edges[i].connects(m.edges[j].a, m.edges[j].b));
        }
    }
    assert forall|v: int| 0 <= v < n.arena.len() implies #[trigger] n.vertex_ok(v) by {
        assert(m.vertex_ok(v));
        assert(extended_by(n.arena[v].triangles, m.arena[v].triangles, t));
        assert forall|k: int| 0 <= k < n.arena[v].edges.len() implies n.edge_at(
            #[trigger] n.arena[v].edges[k],
            v as usize,
        ) by {
            assert(m.edge_at(m.arena[v].edges[k], v as usize));
        }
        assert forall|k: int| 0 <= k < n.arena[v].triangles.len() implies n.corner_of(
            v as usize,
            #[trigger] n.arena[v].triangles[k],
        ) by {
            if k < m.arena[v].triangles.len() {
                assert(m.corner_of(v as usize, m.arena[v].triangles[k]));
            }
        }
    }
    assert forall|j: int| 0 <= j < n.edges.len() implies #[trigger] n.edge_ok(j) by {
        assert(m.edge_ok(j));
        assert(extended_by(n.edges[j].triangles, m.edges[j].triangles, t));
        assert forall|k: int| 0 <= k < n.edges[j].triangles.len() implies n.side_of(
            j as usize,
            #[trigger] n.edges[j].triangles[k],
        ) by {
            if k < m.edges[j].triangles.len() {
                assert(m.side_of(j as usize, m.edges[j].triangles[k]));
            }
        }
    }
    assert forall|k: int| 0 <= k < n.triangles.len() implies #[trigger] n.triangle_ok(k) by {
        if k < t {
            assert(m.triangle_ok(k));
            let old = m.triangles[k];
            lemma_extended_contains(
                n.arena[old.v0 as int].triangles,
                m.arena[old.v0 as int].triangles,
                t,
                k as usize,
            );
            lemma_extended_contains(
                n.arena[old.v1 as int].triangles,
                m.arena[old.v1 as int].triangles,
                t,
                k as usize,
            );
            lemma_extended_contains(
                n.arena[old.v2 as int].triangles,
                m.arena[old.v2 as int].triangles,
                t,
                k as usize,
            );
            lemma_extended_contains(
                n.edges[old.e0 as int].triangles,
                m.edges[old.e0 as int].triangles,
                t,
                k as usize,
            );
            lemma_extended_contains(
                n.edges[old.e1 as int].triangles,
                m.edges[old.e1 as int].triangles,
                t,
                k as usize,
            );
            lemma_extended_contains(
                n.edges[old.e2 as int].triangles,
                m.edges[old.e2 as int].triangles,
                t,
                k as usize,
            );
        }
    }
}

/// A new vertex in the arena, bare and not part of the mesh, keeps a
/// consistent model consistent.
pub proof fn lemma_with_vertex_wf<P>(m: ModelView<P>, position: P, index: Option<usize>)
    requires
        m.wf(),
        m.arena.len() < usize::MAX,
    ensures
        m.with_vertex(position, index).wf(),
{
    let n = m.with_vertex(position, index);
    assert forall|v: int| 0 <= v < n.arena.len() implies #[trigger] n.vertex_ok(v) by {
        if v < m.arena.len() {
            assert(m.vertex_ok(v));
            assert(n.arena[v] == m.arena[v]);
        }
    }
    assert forall|j: int| 0 <= j < n.edges.len() implies #[trigger] n.edge_ok(j) by {
        assert(m.edge_ok(j));
        assert(n.arena[m.edges[j].a as int] == m.arena[m.edges[j].a as int]);
        assert(n.arena[m.edges[j].b as int] == m.arena[m.edges[j].b as int]);
    }
    assert forall|k: int| 0 <= k < n.triangles.len() implies #[trigger] n.triangle_ok(k) by {
        assert(m.triangle_ok(k));
        let t = m.triangles[k];
        assert(n.arena[t.v0 as int] == m.arena[t.v0 as int]);
        assert(n.arena[t.v1 as int] == m.arena[t.v1 as int]);
        assert(n.arena[t.v2 as int] == m.arena[t.v2 as int]);
    }
    assert forall|id: usize| #[trigger] n.vertices.contains_key(id) implies n.has_vertex(id)
        && n.vertices[id] == id && n.arena[id as int].triangles.len() > 0 by {
        assert(m.vertices.contains_key(id));
        assert(n.arena[id as int] == m.arena[id as int]);
    }
}

/// Naming a vertex of the arena among those of the mesh keeps a consistent
/// model consistent.
pub proof fn lemma_register_linked<P>(m: ModelView<P>, vertex: usize)
    requires
        m.linked(),
        m.has_vertex(vertex),
    ensures
        m.register(vertex).linked(),
{
    let n = m.register(vertex);
    assert forall|v: int| 0 <= v < n.arena.len() implies #[trigger] n.vertex_ok(v) by {
        assert(m.vertex_ok(v));
    }
    assert forall|j: int| 0 <= j < n.edges.len() implies #[trigger] n.edge_ok(j) by {
        assert(m.edge_ok(j));
    }
    assert forall|k: int| 0 <= k < n.triangles.len() implies #[trigger] n.triangle_ok(k) by {
        assert(m.triangle_ok(k));
    }
}

/// The three sides that `add_triangle` gets or creates, one after the
/// other, still join their corners when the third is there, and the
/// corners still belong to the mesh.
pub proof fn lemma_joins_kept<P>(m0: ModelView<P>, v0: usize, v1: usize, v2: usize)
    requires
        m0.linked(),
        m0.has_vertex(v0),
        m0.has_vertex(v1),
        m0.has_vertex(v2),
        m0.with_edge(v0, v1).with_edge(v1, v2).with_edge(v2, v0).edges.len() <= usize::MAX,
    ensures
        ({
            let m1 = m0.with_edge(v0, v1);
            let m2 = m1.with_edge(v1, v2);
            let m3 = m2.with_edge(v2, v0);
            &&& m3.linked()
            &&& m3.vertices == m0.vertices
            &&& m3.triangles == m0.triangles
            &&& m3.arena.len() == m0.arena.len()
            &&& m3.edges.len() <= m0.edges.len() + 3
            &&& m3.joins(m0.edge_for(v0, v1), v0, v1)
            &&& m3.joins(m1.edge_for(v1, v2), v1, v2)
            &&& m3.joins(m2.edge_for(v2, v0), v2, v0)
        }),
{
    let e0 = m0.edge_for(v0, v1);
    let m1 = m0.with_edge(v0, v1);
    let e1 = m1.edge_for(v1, v2);
    let m2 = m1.with_edge(v1, v2);
    let m3 = m2.with_edge(v2, v0);
    assert(m1.edges.len() >= m0.edges.len() && m1.arena.len() == m0.arena.len());
    assert(m2.edges.len() >= m1.edges.len() && m2.arena.len() == m1.arena.len());
    assert(m3.edges.len() >= m2.edges.len());
    lemma_with_edge_linked(m0, v0, v1);
    lemma_with_edge_linked(m1, v1, v2);
    lemma_with_edge_linked(m2, v2, v0);
    assert(m2.edges[e0 as int] == m1.edges[e0 as int]);
    assert(m3.edges[e0 as int] == m2.edges[e0 as int]);
    assert(m3.edges[e1 as int] == m2.edges[e1 as int]);
}

/// After `add_triangle` every vertex of the mesh lists a triangle, where
/// that held before.
pub proof fn lemma_corners_used<P>(m: ModelView<P>, v0: usize, v1: usize, v2: usize)
    requires
        m.wf(),
        m.has_vertex(v0),
        m.has_vertex(v1),
        m.has_vertex(v2),
        m.with_sides(v0, v1, v2).edges.len() <= usize::MAX,
    ensures
        m.add_triangle(v0, v1, v2).registered_used(),
{
    reveal(ModelView::add_triangle);
    let r0 = m.register(v0);
    let r1 = r0.register(v1);
    let m0 = r1.register(v2);
    lemma_register_linked(m, v0);
    lemma_register_linked(r0, v1);
    lemma_register_linked(r1, v2);
    let e0 = m0.edge_for(v0, v1);
    let m1 = m0.with_edge(v0, v1);
    let e1 = m1.edge_for(v1, v2);
    let m2 = m1.with_edge(v1, v2);
    let e2 = m2.edge_for(v2, v0);
    let m3 = m2.with_edge(v2, v0);
    let n = m3.record_triangle(v0, v1, v2, e0, e1, e2);
    let t = m3.triangles.len() as usize;
    assert(m1.arena.len() == m0.arena.len() && m2.arena.len() == m1.arena.len() && m3.arena.len()
        == m2.arena.len());
    lemma_joins_kept(m0, v0, v1, v2);
    assert forall|id: usize| #[trigger] n.vertices.contains_key(id) implies n.arena[id as int].triangles.len()
        > 0 by {
        assert(m0.vertices.contains_key(id));
        assert(m0.has_vertex(id));
        if id == v0 || id == v1 || id == v2 {
            assert(n.arena[id as int].triangles.last() == t);
        } else {
            assert(m.vertices.contains_key(id));
            assert(m1.arena[id as int].triangles == m0.arena[id as int].triangles);
            assert(m2.arena[id as int].triangles == m1.arena[id as int].triangles);
            assert(m3.arena[id as int].triangles == m2.arena[id as int].triangles);
            assert(n.arena[id as int].triangles == m3.arena[id as int].triangles);
        }
    }
}

/// `add_triangle` keeps a consistent model consistent.
pub proof fn lemma_add_triangle_wf<P>(m: ModelView<P>, v0: usize, v1: usize, v2: usize)
    requires
        m.wf(),
        m.has_vertex(v0),
        m.has_vertex(v1),
        m.has_vertex(v2),
        m.add_triangle(v0, v1, v2).edges.len() <= usize::MAX,
        m.add_triangle(v0, v1, v2).triangles.len() <= usize::MAX,
    ensures
        m.add_triangle(v0, v1, v2).wf(),
{
    reveal(ModelView::add_triangle);
    let r0 = m.register(v0);
    let r1 = r0.register(v1);
    let m0 = r1.register(v2);
    lemma_register_linked(m, v0);
    lemma_register_linked(r0, v1);
    lemma_register_linked(r1, v2);
    let e0 = m0.edge_for(v0, v1);
    let m1 = m0.with_edge(v0, v1);
    let e1 = m1.edge_for(v1, v2);
    let m2 = m1.with_edge(v1, v2);
    let e2 = m2.edge_for(v2, v0);
    let m3 = m2.with_edge(v2, v0);
    let n = m3.record_triangle(v0, v1, v2, e0, e1, e2);
    assert(n == m.add_triangle(v0, v1, v2));
    assert(n.edges.len() == m3.edges.len());
    assert(m3 == m.with_sides(v0, v1, v2));
    lemma_joins_kept(m0, v0, v1, v2);
    lemma_record_triangle_linked(m3, v0, v1, v2, e0, e1, e2);
    lemma_corners_used(m, v0, v1, v2);
}

/// `add_triangle` changes no identifier, position or lineage mark of a
/// vertex, and adds no vertex.
pub proof fn lemma_add_triangle_keeps_points<P>(m: ModelView<P>, v0: usize, v1: usize, v2: usize)
    requires
        m.has_vertex(v0),
        m.has_vertex(v1),
        m.has_vertex(v2),
    ensures
        m.add_triangle(v0, v1, v2).arena.len() == m.arena.len(),
        forall|i: int|
            0 <= i < m.arena.len() ==> (#[trigger] m.add_triangle(v0, v1, v2).arena[i]).same_point(
                m.arena[i],
            ),
{
    reveal(ModelView::add_triangle);
}

/// `add_triangle` puts one triangle with the given corners behind the
/// triangles that were there, names the corners among the vertices of the
/// mesh, and leaves the rest of both as it was.
pub proof fn lemma_add_triangle_appends<P>(m: ModelView<P>, v0: usize, v1: usize, v2: usize)
    ensures
        ({
            let n = m.add_triangle(v0, v1, v2);
            &&& n.triangles.len() == m.triangles.len() + 1
            &&& n.triangles.last().v0 == v0
            &&& n.triangles.last().v1 == v1
            &&& n.triangles.last().v2 == v2
            &&& forall|k: int| 0 <= k < m.triangles.len() ==> #[trigger] n.triangles[k] == m.triangles[k]
            &&& n.vertices == m.vertices.insert(v0, v0).insert(v1, v1).insert(v2, v2)
        }),
{
    reveal(ModelView::add_triangle);
}

/// `add_triangle` adds no vertex, one triangle and at most three edges.
pub proof fn lemma_add_triangle_sizes<P>(m: ModelView<P>, v0: usize, v1: usize, v2: usize)
    ensures
        m.add_triangle(v0, v1, v2).arena.len() == m.arena.len(),
        m.add_triangle(v0, v1, v2).triangles.len() == m.triangles.len() + 1,
        m.edges.len() <= m.add_triangle(v0, v1, v2).edges.len() <= m.edges.len() + 3,
{
    reveal(ModelView::add_triangle);
    let m0 = m.register(v0).register(v1).register(v2);
    let m1 = m0.with_edge(v0, v1);
    let m2 = m1.with_edge(v1, v2);
    let m3 = m2.with_edge(v2, v0);
    assert(m0.edges.len() <= m1.edges.len() <= m0.edges.len() + 1);
    assert(m1.edges.len() <= m2.edges.len() <= m1.edges.len() + 1);
    assert(m2.edges.len() <= m3.edges.len() <= m2.edges.len() + 1);
    assert(m1.arena.len() == m0.arena.len());
    assert(m2.arena.len() == m1.arena.len());
    assert(m3.arena.len() == m2.arena.len());
}

/// After `add_triangle` every edge lies in a triangle, where that held
/// before: the edges that it creates are sides of the new triangle.
pub proof fn lemma_add_triangle_used<P>(m: ModelView<P>, v0: usize, v1: usize, v2: usize)
    requires
        m.wf(),
        m.has_vertex(v0),
        m.has_vertex(v1),
        m.has_vertex(v2),
        m.add_triangle(v0, v1, v2).edges.len() <= usize::MAX,
        forall|e: int| 0 <= e < m.edges.len() ==> (#[trigger] m.edges[e]).triangles.len() > 0,
    ensures
        forall|e: int|
            0 <= e < m.add_triangle(v0, v1, v2).edges.len() ==> (#[trigger] m.add_triangle(
                v0,
                v1,
                v2,
            ).edges[e]).triangles.len() > 0,
{
    reveal(ModelView::add_triangle);
    let r0 = m.register(v0);
    let r1 = r0.register(v1);
    let m0 = r1.register(v2);
    lemma_register_linked(m, v0);
    lemma_register_linked(r0, v1);
    lemma_register_linked(r1, v2);
    let e0 = m0.edge_for(v0, v1);
    let m1 = m0.with_edge(v0, v1);
    let e1 = m1.edge_for(v1, v2);
    let m2 = m1.with_edge(v1, v2);
    let e2 = m2.edge_for(v2, v0);
    let m3 = m2.with_edge(v2, v0);
    let n = m3.record_triangle(v0, v1, v2, e0, e1, e2);
    let t = m3.triangles.len() as usize;
    assert(n.edges.len() == m3.edges.len());
    assert(m0.edges.len() <= m1.edges.len() <= m0.edges.len() + 1);
    assert(m1.edges.len() <= m2.edges.len() <= m1.edges.len() + 1);
    assert(m2.edges.len() <= m3.edges.len() <= m2.edges.len() + 1);
    assert(m1.arena.len() == m0.arena.len());
    assert(m2.arena.len() == m1.arena.len());
    lemma_with_edge_linked(m0, v0, v1);
    lemma_with_edge_linked(m1, v1, v2);
    lemma_with_edge_linked(m2, v2, v0);
    lemma_joins_kept(m0, v0, v1, v2);
    assert forall|e: int| 0 <= e < n.edges.len() implies (#[trigger] n.edges[e]).triangles.len()
        > 0 by {
        if e == e0 || e == e1 || e == e2 {
            assert(n.edges[e].triangles.last() == t);
        } else {
            assert(n.edges[e] == m3.edges[e]);
            assert(e < m0.edges.len());
            assert(m1.edges[e] == m0.edges[e]);
            assert(m2.edges[e] == m1.edges[e]);
            assert(m3.edges[e] == m2.edges[e]);
            assert(m0.edges[e] == m.edges[e]);
        }
    }
}

} // verus!
