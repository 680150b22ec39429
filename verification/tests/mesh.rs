use loop_subdivision::{Edge, Model, StaleReference, TopologyMismatch, Triangle, Vertex};
use std::hash::{Hash, Hasher};

#[test]
fn vertex_starts_without_adjacency() {
    let v = Vertex::new(4, 'p');
    assert_eq!(v.id, 4);
    assert_eq!(v.position, 'p');
    assert!(v.edges.is_empty());
    assert!(v.triangles.is_empty());
    assert_eq!(v.index, None);
    let w = Vertex::with_index(5, 'q', Some(9));
    assert_eq!(w.id, 5);
    assert_eq!(w.index, Some(9));
    assert!(w.edges.is_empty());
    assert!(w.triangles.is_empty());
}

#[test]
fn vertex_records_edges_and_triangles_in_order() {
    let mut v = Vertex::new(0, ());
    v.add_edge(3);
    v.add_edge(1);
    v.add_triangle(7);
    v.add_triangle(7);
    assert_eq!(v.edges, vec![3, 1]);
    assert_eq!(v.triangles, vec![7, 7]);
}

#[test]
fn entities_are_equal_by_identifier() {
    assert!(Vertex::new(1, 1.5) == Vertex::new(1, 2.5));
    assert!(Vertex::new(1, 1.5) != Vertex::new(2, 1.5));
    assert!(Edge::new(3, 0, 1) == Edge::new(3, 5, 6));
    assert!(Edge::new(3, 0, 1) != Edge::new(4, 0, 1));
    assert!(Triangle::new(2, 0, 1, 2, 0, 1, 2) == Triangle::new(2, 5, 6, 7, 8, 9, 10));
    assert!(Triangle::new(2, 0, 1, 2, 0, 1, 2) != Triangle::new(3, 0, 1, 2, 0, 1, 2));
}

#[test]
fn edge_knows_its_ends() {
    let mut e = Edge::new(0, 10, 20);
    assert_eq!((e.a(), e.b()), (10, 20));
    assert!(e.has(10));
    assert!(e.has(20));
    assert!(!e.has(0));
    assert!(e.connects(10, 20));
    assert!(e.connects(20, 10));
    assert!(!e.connects(10, 10));
    assert_eq!(e.get_other_vertex(10), 20);
    assert_eq!(e.get_other_vertex(20), 10);
    assert!(e.is_boundary());
    e.add_triangle(0);
    assert!(e.is_boundary());
    e.add_triangle(1);
    assert!(!e.is_boundary());
    e.add_triangle(2);
    assert!(e.is_boundary());
    assert_eq!(e.triangles, vec![0, 1, 2]);
}

#[test]
fn triangle_finds_the_corner_across_a_side() {
    let t = Triangle::new(0, 10, 11, 12, 0, 1, 2);
    assert_eq!((t.v0(), t.v1(), t.v2()), (10, 11, 12));
    assert_eq!((t.e0(), t.e1(), t.e2()), (0, 1, 2));
    assert_eq!(t.get_opposite_vertex(&Edge::new(0, 10, 11)), 12);
    assert_eq!(t.get_opposite_vertex(&Edge::new(1, 11, 12)), 10);
    assert_eq!(t.get_opposite_vertex(&Edge::new(2, 12, 10)), 11);
    assert_eq!(t.get_opposite_vertex(&Edge::new(0, 11, 10)), 12);
}

#[test]
fn empty_model_holds_nothing() {
    let model: Model<u8> = Model::default();
    assert_eq!(model.vertex_count(), 0);
    assert!(model.arena.is_empty());
    assert!(model.edges.is_empty());
    assert!(model.triangles.is_empty());
    assert!(model.vertex(0).is_none());
}

#[test]
fn vertex_joins_the_mesh_with_its_first_triangle() {
    let mut model = Model::new();
    let a = model.new_vertex("a");
    let b = model.new_vertex("b");
    let c = model.new_vertex("c");
    let d = model.new_vertex_with_index("d", Some(1));
    assert_eq!((a, b, c, d), (0, 1, 2, 3));
    assert_eq!(model.vertex_count(), 0);
    assert!(model.vertex(a).is_none());
    model.add_triangle(a, b, c);
    assert_eq!(model.vertex_count(), 3);
    assert_eq!(model.vertex(b).map(|v| v.position), Some("b"));
    assert!(model.vertex(d).is_none());
    assert!(model.vertex(17).is_none());
    model.add_triangle(a, c, d);
    assert_eq!(model.vertex_count(), 4);
    assert_eq!(model.vertex(d).map(|v| (v.id, v.position, v.index)), Some((3, "d", Some(1))));
    model.add_triangle(a, b, c);
    assert_eq!(model.vertex_count(), 4);
}

#[test]
fn add_triangle_links_corners_and_sides() {
    let mut model = Model::new();
    let a = model.new_vertex(());
    let b = model.new_vertex(());
    let c = model.new_vertex(());
    model.add_triangle(a, b, c);
    assert_eq!(model.edges.len(), 3);
    assert_eq!((model.edges[0].a, model.edges[0].b), (a, b));
    assert_eq!((model.edges[1].a, model.edges[1].b), (b, c));
    assert_eq!((model.edges[2].a, model.edges[2].b), (c, a));
    for (place, edge) in model.edges.iter().enumerate() {
        assert_eq!(edge.id, place);
        assert_eq!(edge.triangles, vec![0]);
    }
    let t = model.triangles[0];
    assert_eq!(t.id, 0);
    assert_eq!((t.v0, t.v1, t.v2), (a, b, c));
    assert_eq!((t.e0, t.e1, t.e2), (0, 1, 2));
    assert_eq!(model.arena[a].edges, vec![0, 2]);
    assert_eq!(model.arena[b].edges, vec![0, 1]);
    assert_eq!(model.arena[c].edges, vec![1, 2]);
    assert_eq!(model.arena[a].triangles, vec![0]);
    assert_eq!(model.arena[b].triangles, vec![0]);
    assert_eq!(model.arena[c].triangles, vec![0]);
}

#[test]
fn shared_edge_is_reused() {
    let mut model = Model::new();
    let v0 = model.new_vertex(());
    let v1 = model.new_vertex(());
    let v2 = model.new_vertex(());
    let v3 = model.new_vertex(());
    model.add_triangle(v0, v1, v2);
    model.add_triangle(v0, v2, v3);
    assert_eq!(model.edges.len(), 5);
    let between: Vec<usize> =
        model.edges.iter().filter(|e| e.connects(v0, v2)).map(|e| e.id).collect();
    assert_eq!(between, vec![2]);
    assert_eq!(model.edges[2].triangles, vec![0, 1]);
    assert_eq!(model.triangles[1].e0, 2);
    assert_eq!(model.arena[v0].edges, vec![0, 2, 4]);
    assert_eq!(model.arena[v2].edges, vec![1, 2, 3]);
    assert_eq!(model.find_edge(v0, v2), Some(2));
    assert_eq!(model.find_edge(v2, v0), Some(2));
    assert_eq!(model.find_edge(v1, v3), None);
}

#[test]
fn get_or_create_edge_makes_an_edge_once() {
    let mut model = Model::new();
    let a = model.new_vertex(());
    let b = model.new_vertex(());
    let c = model.new_vertex(());
    assert_eq!(model.get_or_create_edge(a, b), 0);
    assert_eq!(model.get_or_create_edge(b, a), 0);
    assert_eq!(model.get_or_create_edge(a, b), 0);
    assert_eq!(model.get_or_create_edge(b, c), 1);
    assert_eq!(model.edges.len(), 2);
    assert_eq!(model.arena[a].edges, vec![0]);
    assert_eq!(model.arena[b].edges, vec![0, 1]);
    assert_eq!(model.arena[c].edges, vec![1]);
    assert!(model.edges[0].triangles.is_empty());
    assert_eq!(model.vertex_count(), 0);
}

#[test]
fn edge_from_a_vertex_to_itself_is_kept_apart() {
    let mut model = Model::new();
    let a = model.new_vertex(());
    let b = model.new_vertex(());
    assert_eq!(model.get_or_create_edge(a, b), 0);
    assert_eq!(model.get_or_create_edge(a, a), 1);
    assert_eq!(model.get_or_create_edge(a, a), 1);
    assert_eq!(model.arena[a].edges, vec![0, 1, 1]);
    assert_eq!(model.get_or_create_edge(b, a), 0);
}

fn two_triangles() -> Model<char> {
    let mut model = Model::new();
    let a = model.new_vertex('a');
    let b = model.new_vertex('b');
    let c = model.new_vertex('c');
    let d = model.new_vertex('d');
    model.add_triangle(a, b, c);
    model.add_triangle(a, c, d);
    model
}

#[test]
fn meshes_built_by_add_triangle_are_consistent() {
    let empty: Model<char> = Model::new();
    assert!(empty.is_consistent());
    let mut model = two_triangles();
    assert!(model.is_consistent());
    let spare = model.new_vertex('e');
    assert!(model.is_consistent());
    model.get_or_create_edge(spare, 0);
    assert!(model.is_consistent());
    model.add_triangle(spare, spare, 1);
    assert!(model.is_consistent());
}

#[test]
fn stale_edge_reference_is_inconsistent() {
    let mut model = two_triangles();
    model.arena[1].edges.push(17);
    assert!(!model.is_consistent());
}

#[test]
fn edge_missing_on_its_end_is_inconsistent() {
    let mut model = two_triangles();
    model.arena[0].edges.pop();
    assert!(!model.is_consistent());
}

#[test]
fn triangle_missing_on_its_side_is_inconsistent() {
    let mut model = two_triangles();
    model.edges[2].triangles.pop();
    assert!(!model.is_consistent());
}

#[test]
fn foreign_triangle_on_a_vertex_is_inconsistent() {
    let mut model = two_triangles();
    model.arena[1].triangles.push(1);
    assert!(!model.is_consistent());
}

#[test]
fn second_edge_between_two_vertices_is_inconsistent() {
    let mut model = two_triangles();
    let id = model.edges.len();
    model.edges.push(Edge::new(id, 1, 0));
    model.arena[0].edges.push(id);
    model.arena[1].edges.push(id);
    assert!(!model.is_consistent());
}

#[test]
fn wrong_identifier_is_inconsistent() {
    let mut model = two_triangles();
    model.triangles[1].id = 5;
    assert!(!model.is_consistent());
    let mut model = two_triangles();
    model.edges[3].id = 0;
    assert!(!model.is_consistent());
    let mut model = two_triangles();
    model.arena[2].id = 3;
    assert!(!model.is_consistent());
}

#[test]
fn side_that_does_not_join_its_corners_is_inconsistent() {
    let mut model = two_triangles();
    model.triangles[0].e0 = 1;
    assert!(!model.is_consistent());
}

#[test]
fn try_add_triangle_reports_the_first_stale_vertex() {
    let mut model = two_triangles();
    assert_eq!(model.try_add_triangle(0, 9, 8), Err(StaleReference { vertex: 9 }));
    assert_eq!(model.try_add_triangle(7, 9, 8), Err(StaleReference { vertex: 7 }));
    assert_eq!(model.try_add_triangle(0, 1, 4), Err(StaleReference { vertex: 4 }));
    assert_eq!(model.triangles.len(), 2);
    assert_eq!(model.edges.len(), 5);
    assert_eq!(model.vertex_count(), 4);
    assert_eq!(model.try_add_triangle(1, 3, 2), Ok(()));
    assert_eq!(model.triangles.len(), 3);
    assert_eq!(model.edges.len(), 6);
    assert!(model.is_consistent());
}

#[test]
fn try_get_or_create_edge_reports_the_first_stale_vertex() {
    let mut model = two_triangles();
    assert_eq!(model.try_get_or_create_edge(4, 0), Err(StaleReference { vertex: 4 }));
    assert_eq!(model.try_get_or_create_edge(0, 5), Err(StaleReference { vertex: 5 }));
    assert_eq!(model.try_get_or_create_edge(6, 5), Err(StaleReference { vertex: 6 }));
    assert_eq!(model.edges.len(), 5);
    assert_eq!(model.try_get_or_create_edge(2, 0), Ok(2));
    assert_eq!(model.try_get_or_create_edge(1, 3), Ok(5));
}

#[test]
fn try_get_opposite_vertex_reports_a_foreign_edge() {
    let t = Triangle::new(4, 10, 11, 12, 0, 1, 2);
    assert_eq!(t.try_get_opposite_vertex(&Edge::new(1, 11, 12)), Ok(10));
    assert_eq!(
        t.try_get_opposite_vertex(&Edge::new(3, 11, 12)),
        Err(TopologyMismatch { triangle: 4, edge: 3 })
    );
}

fn hash_of<T: Hash>(value: &T) -> u64 {
    let mut hasher = std::collections::hash_map::DefaultHasher::new();
    value.hash(&mut hasher);
    hasher.finish()
}

#[test]
fn entities_hash_by_identifier() {
    assert_eq!(hash_of(&Vertex::new(1, 'a')), hash_of(&Vertex::new(1, 'b')));
    assert_ne!(hash_of(&Vertex::new(1, 'a')), hash_of(&Vertex::new(2, 'a')));
    assert_eq!(hash_of(&Edge::new(3, 0, 1)), hash_of(&Edge::new(3, 5, 6)));
    assert_ne!(hash_of(&Edge::new(3, 0, 1)), hash_of(&Edge::new(4, 0, 1)));
    assert_eq!(
        hash_of(&Triangle::new(2, 0, 1, 2, 0, 1, 2)),
        hash_of(&Triangle::new(2, 5, 6, 7, 8, 9, 10))
    );
    assert_eq!(hash_of(&Edge::new(3, 0, 1)), hash_of(&3usize));
}

#[test]
fn vertex_ids_lists_the_vertices_of_the_mesh_in_rising_order() {
    let mut model = Model::new();
    let a = model.new_vertex('a');
    let b = model.new_vertex('b');
    let c = model.new_vertex('c');
    let d = model.new_vertex('d');
    let e = model.new_vertex('e');
    assert_eq!(model.vertex_ids(), Vec::<usize>::new());
    model.add_triangle(e, c, a);
    assert_eq!(model.vertex_ids(), vec![a, c, e]);
    model.add_triangle(c, a, d);
    assert_eq!(model.vertex_ids(), vec![a, c, d, e]);
    assert!(model.vertex(b).is_none());
}

#[test]
fn vertex_of_the_mesh_without_a_triangle_is_inconsistent() {
    let mut model = Model::new();
    let a = model.new_vertex(());
    let b = model.new_vertex(());
    let c = model.new_vertex(());
    model.add_triangle(a, b, c);
    assert!(model.is_consistent());
    model.triangles.pop();
    for vertex in model.arena.iter_mut() {
        vertex.triangles.clear();
    }
    for edge in model.edges.iter_mut() {
        edge.triangles.clear();
    }
    assert_eq!(model.vertex_count(), 3);
    assert!(!model.is_consistent());
}

#[test]
fn corner_across_a_side_of_a_triangle_with_a_doubled_corner() {
    let t = Triangle::new(0, 5, 5, 6, 0, 1, 1);
    assert_eq!(t.get_opposite_vertex(&Edge::new(1, 5, 6)), 6);
    assert_eq!(t.get_opposite_vertex(&Edge::new(0, 5, 5)), 6);
}
