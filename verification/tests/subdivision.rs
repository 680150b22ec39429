use glam::Vec3;
use loop_subdivision::subdiv_surface::{
    edge_stencil, get_adjacent_vertices, move_vertex, subdivide_edge, vertex_stencil,
};
use loop_subdivision::{subdivide_once, Model, Stencil, Weight};

fn alpha(valence: usize) -> f32 {
    let n = valence as f32;
    (1.0 / n) * (5.0 / 8.0 - (3.0 / 8.0 + 0.25 * (std::f32::consts::TAU / n).cos()).powi(2))
}

fn value(weight: Weight) -> f32 {
    match weight {
        Weight::Ratio { num, den } => num as f32 / den as f32,
        Weight::LoopRing { valence } => alpha(valence),
        Weight::LoopCenter { valence } => 1.0 - valence as f32 * alpha(valence),
    }
}

fn blend(stencil: &Stencil<Vec3>) -> Vec3 {
    let mut sum = Vec3::ZERO;
    for (weight, position) in stencil.terms.iter() {
        sum += *position * value(*weight);
    }
    sum
}

fn quad(first: Vec3, second: Vec3, third: Vec3, fourth: Vec3) -> Model<Vec3> {
    let mut model = Model::default();
    let v0 = model.new_vertex(first);
    let v1 = model.new_vertex(second);
    let v2 = model.new_vertex(third);
    let v3 = model.new_vertex(fourth);
    model.add_triangle(v0, v1, v2);
    model.add_triangle(v0, v2, v3);
    model
}

fn square(scale: f32) -> Model<Vec3> {
    quad(
        Vec3::new(-1.0, -1.0, 0.0) * scale,
        Vec3::new(1.0, -1.0, 0.0) * scale,
        Vec3::new(1.0, 1.0, 0.0) * scale,
        Vec3::new(-1.0, 1.0, 0.0) * scale,
    )
}

fn tetrahedron() -> Model<Vec3> {
    let mut model = Model::default();
    let a = model.new_vertex(Vec3::new(16.0, 0.0, 0.0));
    let b = model.new_vertex(Vec3::new(0.0, 16.0, 0.0));
    let c = model.new_vertex(Vec3::new(0.0, 0.0, 16.0));
    let d = model.new_vertex(Vec3::new(0.0, 0.0, 0.0));
    model.add_triangle(a, b, c);
    model.add_triangle(a, c, d);
    model.add_triangle(a, d, b);
    model.add_triangle(b, d, c);
    model
}

fn fan() -> Model<Vec3> {
    let mut model = Model::default();
    let centre = model.new_vertex(Vec3::new(0.0, 0.0, 16.0));
    let mut ring = Vec::new();
    for i in 0..6 {
        let angle = std::f32::consts::TAU * i as f32 / 6.0;
        ring.push(model.new_vertex(Vec3::new(angle.cos(), angle.sin(), 0.0)));
    }
    for i in 0..6 {
        model.add_triangle(centre, ring[i], ring[(i + 1) % 6]);
    }
    model
}

#[test]
fn test_subdivide() {
    const SCALE: f32 = 10.0;

    let model = square(SCALE);

    println!("model: {model:#?}");

    model.subdivide(1, &blend);
}

#[test]
fn square_has_four_vertices_five_edges_two_triangles() {
    let model = square(1.0);
    assert_eq!(model.vertex_count(), 4);
    assert_eq!(model.edges.len(), 5);
    assert_eq!(model.triangles.len(), 2);
}

#[test]
fn one_pass_on_the_square_gives_nine_sixteen_eight() {
    let fine = subdivide_once(square(1.0), &blend);
    assert_eq!(fine.vertex_count(), 9);
    assert_eq!(fine.edges.len(), 16);
    assert_eq!(fine.triangles.len(), 8);
}

#[test]
fn one_pass_on_a_closed_mesh_follows_the_count_formula() {
    let coarse = tetrahedron();
    assert_eq!(coarse.vertex_count(), 4);
    assert_eq!(coarse.edges.len(), 6);
    assert_eq!(coarse.triangles.len(), 4);
    let fine = subdivide_once(coarse, &blend);
    assert_eq!(fine.vertex_count(), 4 + 6);
    assert_eq!(fine.edges.len(), 2 * 6 + 3 * 4);
    assert_eq!(fine.triangles.len(), 4 * 4);
}

#[test]
fn two_passes_follow_the_count_formula_twice() {
    let fine = square(1.0).subdivide(2, &blend);
    assert_eq!(fine.vertex_count(), 9 + 16);
    assert_eq!(fine.edges.len(), 2 * 16 + 3 * 8);
    assert_eq!(fine.triangles.len(), 32);
}

#[test]
fn two_triangles_on_the_same_corners_fall_short_of_the_edge_formula() {
    let mut model = Model::default();
    let a = model.new_vertex(Vec3::new(0.0, 0.0, 0.0));
    let b = model.new_vertex(Vec3::new(1.0, 0.0, 0.0));
    let c = model.new_vertex(Vec3::new(0.0, 1.0, 0.0));
    model.add_triangle(a, b, c);
    model.add_triangle(a, c, b);
    assert_eq!(model.edges.len(), 3);
    let fine = subdivide_once(model, &blend);
    assert_eq!(fine.triangles.len(), 8);
    assert_eq!(fine.vertex_count(), 6);
    assert_eq!(fine.edges.len(), 9);
}

#[test]
fn no_pass_returns_the_mesh_unchanged() {
    let before = square(3.0);
    let after = square(3.0).subdivide(0, &blend);
    assert_eq!(after.vertex_count(), before.vertex_count());
    assert_eq!(after.edges.len(), before.edges.len());
    assert_eq!(after.triangles.len(), before.triangles.len());
    assert_eq!(after.arena.len(), before.arena.len());
    for (a, b) in after.arena.iter().zip(before.arena.iter()) {
        assert_eq!(a.id, b.id);
        assert_eq!(a.position, b.position);
        assert_eq!(a.edges, b.edges);
        assert_eq!(a.triangles, b.triangles);
    }
}

#[test]
fn boundary_edge_point_is_the_exact_midpoint() {
    let model = quad(
        Vec3::new(0.1, 0.2, 0.3),
        Vec3::new(4.7, -0.9, 2.5),
        Vec3::new(3.3, 8.1, -1.7),
        Vec3::new(-0.4, 16.6, 8.2),
    );
    for edge in model.edges.iter() {
        if edge.triangles.len() != 2 {
            let a = model.arena[edge.a].position;
            let b = model.arena[edge.b].position;
            let stencil = edge_stencil(&model, edge.id);
            assert_eq!(stencil.terms.len(), 2);
            assert_eq!(stencil.terms[0], (Weight::Ratio { num: 1, den: 2 }, a));
            assert_eq!(stencil.terms[1], (Weight::Ratio { num: 1, den: 2 }, b));
            let point = subdivide_edge(&model, edge.id, 0, &blend);
            assert_eq!(point.position, (a + b) * 0.5);
        }
    }
    let fine = subdivide_once(square(1.0), &blend);
    assert_eq!(fine.arena[0].position, Vec3::new(0.0, -1.0, 0.0));
    assert_eq!(fine.arena[1].position, Vec3::new(1.0, 0.0, 0.0));
    assert_eq!(fine.arena[3].position, Vec3::new(0.0, 1.0, 0.0));
    assert_eq!(fine.arena[4].position, Vec3::new(-1.0, 0.0, 0.0));
}

#[test]
fn interior_edge_point_weighs_ends_and_wings() {
    let model = quad(
        Vec3::new(0.0, 0.0, 0.0),
        Vec3::new(4.0, 0.0, 0.0),
        Vec3::new(4.0, 8.0, 0.0),
        Vec3::new(0.0, 16.0, 8.0),
    );
    let diagonal = 2;
    assert_eq!(model.edges[diagonal].triangles, vec![0, 1]);
    assert_eq!((model.edges[diagonal].a, model.edges[diagonal].b), (2, 0));
    let stencil = edge_stencil(&model, diagonal);
    assert_eq!(
        stencil.terms,
        vec![
            (Weight::Ratio { num: 3, den: 8 }, Vec3::new(4.0, 8.0, 0.0)),
            (Weight::Ratio { num: 3, den: 8 }, Vec3::new(0.0, 0.0, 0.0)),
            (Weight::Ratio { num: 1, den: 8 }, Vec3::new(4.0, 0.0, 0.0)),
            (Weight::Ratio { num: 1, den: 8 }, Vec3::new(0.0, 16.0, 8.0)),
        ]
    );
    let fine = subdivide_once(model, &blend);
    assert_eq!(fine.arena[diagonal].position, Vec3::new(2.0, 5.0, 1.0));
}

#[test]
fn edge_point_takes_the_lineage_mark_of_end_a() {
    let mut model = Model::default();
    let v0 = model.new_vertex_with_index(Vec3::new(0.0, 0.0, 0.0), Some(70));
    let v1 = model.new_vertex_with_index(Vec3::new(1.0, 0.0, 0.0), Some(71));
    let v2 = model.new_vertex(Vec3::new(0.0, 1.0, 0.0));
    model.add_triangle(v0, v1, v2);
    let fine = subdivide_once(model, &blend);
    assert_eq!(fine.arena[0].index, Some(70));
    assert_eq!(fine.arena[1].index, Some(71));
    assert_eq!(fine.arena[2].index, None);
    assert_eq!(fine.arena[3].index, Some(70));
    assert_eq!(fine.arena[4].index, Some(71));
    assert_eq!(fine.arena[5].index, None);
}

#[test]
fn vertex_with_two_neighbours_follows_the_corner_rule() {
    let model = quad(
        Vec3::new(0.0, 0.0, 0.0),
        Vec3::new(8.0, 0.0, 0.0),
        Vec3::new(8.0, 8.0, 0.0),
        Vec3::new(0.0, 16.0, 8.0),
    );
    assert_eq!(get_adjacent_vertices(&model, 0), vec![1, 3]);
    assert_eq!(get_adjacent_vertices(&model, 1), vec![0, 2]);
    assert_eq!(get_adjacent_vertices(&model, 2), vec![1, 3]);
    assert_eq!(get_adjacent_vertices(&model, 3), vec![2, 0]);
    let stencil = vertex_stencil(&model, 1).unwrap();
    assert_eq!(
        stencil.terms,
        vec![
            (Weight::Ratio { num: 3, den: 4 }, Vec3::new(8.0, 0.0, 0.0)),
            (Weight::Ratio { num: 1, den: 8 }, Vec3::new(0.0, 0.0, 0.0)),
            (Weight::Ratio { num: 1, den: 8 }, Vec3::new(8.0, 8.0, 0.0)),
        ]
    );
    let fine = subdivide_once(model, &blend);
    assert_eq!(fine.arena[5 + 1].position, Vec3::new(7.0, 1.0, 0.0));
    assert_eq!(fine.arena[5 + 0].position, Vec3::new(1.0, 2.0, 1.0));
}

#[test]
fn vertex_with_three_neighbours_weighs_them_three_sixteenths() {
    let model = tetrahedron();
    for vertex in 0..4 {
        let stencil = vertex_stencil(&model, vertex).unwrap();
        assert_eq!(stencil.terms.len(), 4);
        assert_eq!(stencil.terms[0].0, Weight::Ratio { num: 7, den: 16 });
        assert_eq!(stencil.terms[0].1, model.arena[vertex].position);
        for term in stencil.terms[1..].iter() {
            assert_eq!(term.0, Weight::Ratio { num: 3, den: 16 });
        }
    }
    assert_eq!(get_adjacent_vertices(&model, 0), vec![1, 2, 3]);
    let moved = move_vertex(&model, 0, 99, &blend);
    assert_eq!(moved.id, 99);
    assert_eq!(moved.position, Vec3::new(7.0, 3.0, 3.0));
    let fine = subdivide_once(model, &blend);
    assert_eq!(fine.arena[6].position, Vec3::new(7.0, 3.0, 3.0));
    assert_eq!(fine.arena[6 + 3].position, Vec3::new(3.0, 3.0, 3.0));
}

#[test]
fn vertex_with_six_neighbours_gets_the_cosine_weights() {
    let model = fan();
    assert_eq!(model.vertex_count(), 7);
    assert_eq!(model.edges.len(), 12);
    let ring = get_adjacent_vertices(&model, 0);
    assert_eq!(ring, vec![1, 2, 3, 4, 5, 6]);
    let stencil = vertex_stencil(&model, 0).unwrap();
    assert_eq!(stencil.terms.len(), 7);
    assert_eq!(stencil.terms[0].0, Weight::LoopCenter { valence: 6 });
    for term in stencil.terms[1..].iter() {
        assert_eq!(term.0, Weight::LoopRing { valence: 6 });
    }
    assert!((alpha(6) - 1.0 / 16.0).abs() < 1e-6);
    let fine = subdivide_once(model, &blend);
    assert_eq!(fine.vertex_count(), 7 + 12);
    assert_eq!(fine.edges.len(), 2 * 12 + 3 * 6);
    assert_eq!(fine.triangles.len(), 24);
    let centre = fine.arena[12].position;
    assert!((centre - Vec3::new(0.0, 0.0, 10.0)).length() < 1e-4);
}

#[test]
fn vertex_with_fewer_than_two_neighbours_stays_in_place() {
    let mut model = square(1.0);
    let lonely = model.new_vertex_with_index(Vec3::new(5.0, 6.0, 7.0), Some(3));
    assert_eq!(get_adjacent_vertices(&model, lonely), Vec::<usize>::new());
    assert!(vertex_stencil(&model, lonely).is_none());
    let moved = move_vertex(&model, lonely, 0, &blend);
    assert_eq!(moved.position, Vec3::new(5.0, 6.0, 7.0));
    assert_eq!(moved.index, Some(3));
    let fine = subdivide_once(model, &blend);
    assert_eq!(fine.arena.len(), 5 + 5);
    assert_eq!(fine.arena[5 + lonely].position, Vec3::new(5.0, 6.0, 7.0));
    assert_eq!(fine.arena[5 + lonely].index, Some(3));
    assert!(fine.vertex(5 + lonely).is_none());
    assert_eq!(fine.vertex_count(), 9);
}

#[test]
fn first_boundary_edge_discards_the_neighbours_taken_before() {
    let mut model = Model::default();
    let a = model.new_vertex(Vec3::new(0.0, 0.0, 0.0));
    let b = model.new_vertex(Vec3::new(1.0, 0.0, 0.0));
    let c = model.new_vertex(Vec3::new(1.0, 1.0, 0.0));
    let d = model.new_vertex(Vec3::new(0.0, 1.0, 0.0));
    model.add_triangle(c, a, b);
    model.add_triangle(c, d, a);
    assert_eq!(model.arena[a].edges, vec![0, 1, 4]);
    assert_eq!(model.edges[0].triangles.len(), 2);
    assert_eq!(model.edges[1].triangles.len(), 1);
    assert_eq!(model.edges[4].triangles.len(), 1);
    assert_eq!(get_adjacent_vertices(&model, a), vec![b, d]);
}

#[test]
fn new_triangles_follow_the_one_to_four_pattern() {
    let fine = subdivide_once(square(1.0), &blend);
    let corners: Vec<(usize, usize, usize)> =
        fine.triangles.iter().map(|t| (t.v0, t.v1, t.v2)).collect();
    assert_eq!(
        corners,
        vec![
            (5, 0, 2),
            (0, 6, 1),
            (0, 1, 2),
            (2, 1, 7),
            (5, 2, 4),
            (2, 7, 3),
            (2, 3, 4),
            (4, 3, 8),
        ]
    );
    for (place, triangle) in fine.triangles.iter().enumerate() {
        assert_eq!(triangle.id, place);
    }
}

#[test]
fn positions_after_one_pass_on_the_square() {
    let fine = subdivide_once(square(1.0), &blend);
    let positions: Vec<Vec3> = fine.arena.iter().map(|v| v.position).collect();
    assert_eq!(
        positions,
        vec![
            Vec3::new(0.0, -1.0, 0.0),
            Vec3::new(1.0, 0.0, 0.0),
            Vec3::new(0.0, 0.0, 0.0),
            Vec3::new(0.0, 1.0, 0.0),
            Vec3::new(-1.0, 0.0, 0.0),
            Vec3::new(-0.75, -0.75, 0.0),
            Vec3::new(0.75, -0.75, 0.0),
            Vec3::new(0.75, 0.75, 0.0),
            Vec3::new(-0.75, 0.75, 0.0),
        ]
    );
}

#[test]
fn refined_meshes_are_consistent() {
    assert!(subdivide_once(square(1.0), &blend).is_consistent());
    assert!(tetrahedron().subdivide(2, &blend).is_consistent());
    assert!(fan().subdivide(1, &blend).is_consistent());
}

#[test]
fn edge_without_a_triangle_is_a_boundary_edge() {
    let mut model = square(1.0);
    let far = model.new_vertex(Vec3::new(3.0, 5.0, 7.0));
    let loose = model.get_or_create_edge(far, 1);
    assert_eq!(loose, 5);
    assert!(model.edges[loose].triangles.is_empty());
    let stencil = edge_stencil(&model, loose);
    assert_eq!(
        stencil.terms,
        vec![
            (Weight::Ratio { num: 1, den: 2 }, Vec3::new(3.0, 5.0, 7.0)),
            (Weight::Ratio { num: 1, den: 2 }, Vec3::new(1.0, -1.0, 0.0)),
        ]
    );
    let fine = subdivide_once(model, &blend);
    assert_eq!(fine.arena[loose].position, Vec3::new(2.0, 2.0, 3.5));
    assert_eq!(fine.arena.len(), 6 + 5);
    assert_eq!(fine.triangles.len(), 8);
    assert_eq!(fine.vertex_count(), 9);
    assert_eq!(fine.edges.len(), 16);
}

#[test]
fn edge_with_three_triangles_is_a_boundary_edge() {
    let mut model = Model::default();
    let a = model.new_vertex(Vec3::new(0.0, 0.0, 0.0));
    let b = model.new_vertex(Vec3::new(2.0, 0.0, 0.0));
    let c = model.new_vertex(Vec3::new(0.0, 2.0, 0.0));
    let d = model.new_vertex(Vec3::new(0.0, -2.0, 0.0));
    let e = model.new_vertex(Vec3::new(0.0, 0.0, 2.0));
    model.add_triangle(a, b, c);
    model.add_triangle(b, a, d);
    model.add_triangle(a, b, e);
    assert_eq!(model.edges[0].triangles, vec![0, 1, 2]);
    let stencil = edge_stencil(&model, 0);
    assert_eq!(
        stencil.terms,
        vec![
            (Weight::Ratio { num: 1, den: 2 }, Vec3::new(0.0, 0.0, 0.0)),
            (Weight::Ratio { num: 1, den: 2 }, Vec3::new(2.0, 0.0, 0.0)),
        ]
    );
    assert_eq!(get_adjacent_vertices(&model, a), vec![b, c, d, e]);
    let fine = subdivide_once(model, &blend);
    assert_eq!(fine.arena[0].position, Vec3::new(1.0, 0.0, 0.0));
    assert_eq!(fine.vertex_count(), 5 + 7);
    assert_eq!(fine.edges.len(), 2 * 7 + 3 * 3);
    assert_eq!(fine.triangles.len(), 12);
}
