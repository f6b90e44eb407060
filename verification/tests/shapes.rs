//! Tests for the vector algebra, the shape factories, rotation, merging,
//! and the four-dimensional projection.

use asciigraphix::fixed::UNIT;
use asciigraphix::point::{Point, Point4};
use asciigraphix::rotation::PlaneRot;
use asciigraphix::shape::{Edge, Face, Shape, Shape4};

const U: i64 = UNIT;

#[test]
fn point_arithmetic() {
    let a = Point(1, 2, 3);
    let b = Point(10, 20, 30);
    assert_eq!(a.add(b), Point(11, 22, 33));
    assert_eq!(b.sub(a), Point(9, 18, 27));
    assert_eq!(a.scale(-2), Point(-2, -4, -6));
    assert_eq!(a.dot(&b), 10 + 40 + 90);
}

#[test]
fn point4_arithmetic() {
    let a = Point4(1, 2, 3, 4);
    let b = Point4(10, 20, 30, 40);
    assert_eq!(a.add(b), Point4(11, 22, 33, 44));
    assert_eq!(b.sub(a), Point4(9, 18, 27, 36));
    assert_eq!(a.scale(3), Point4(3, 6, 9, 12));
    assert_eq!(a.dot(&b), 10 + 40 + 90 + 160);
    assert_eq!(Point4(1, 2, 2, 0).magnitude(), 3);
}

#[test]
fn point_set_overwrites() {
    let mut p = Point(1, 2, 3);
    p.set(Point(7, 8, 9));
    assert_eq!(p, Point(7, 8, 9));
    let mut q = Point4(1, 2, 3, 4);
    q.set(Point4(5, 6, 7, 8));
    assert_eq!(q, Point4(5, 6, 7, 8));
}

#[test]
fn magnitude_is_floored_length() {
    assert_eq!(Point(3, 4, 0).magnitude(), 5);
    assert_eq!(Point(1, 1, 1).magnitude(), 1);
    assert_eq!(Point(1, 1, 0).magnitude(), 1);
    assert_eq!(Point(0, 0, -7).magnitude(), 7);
    assert_eq!(Point(0, 0, 0).magnitude(), 0);
}

#[test]
fn unit_scales_to_one_world_unit() {
    let v = Point(3 * U, 4 * U, 0);
    assert_eq!(v.unit(), Some(Point(600_000, 800_000, 0)));
    assert_eq!(Point(0, 0, 0).unit(), None);
    assert_eq!(Point4(0, 0, 0, 0).unit(), None);
    assert_eq!(
        Point4(0, 0, 5 * U, 0).unit(),
        Some(Point4(0, 0, U, 0))
    );
}

#[test]
fn cross_of_axes() {
    let x = Point(1, 0, 0);
    let y = Point(0, 1, 0);
    assert_eq!(x.cross(&y), Point(0, 0, 1));
    assert_eq!(y.cross(&x), Point(0, 0, -1));
}

#[test]
fn orthogonal_basis_of_y_direction() {
    // Looking along +y: the z axis is picked (ties between x and z
    // resolve toward z), giving right = +x and up = -z.
    let basis = Point(0, 7 * U, 0).orthogonal_basis().unwrap();
    assert_eq!(basis.0, Point(0, U, 0));
    assert_eq!(basis.1, Point(U, 0, 0));
    assert_eq!(basis.2, Point(0, 0, -U));
    assert_eq!(Point(0, 0, 0).orthogonal_basis(), None);
}

#[test]
fn plane_rot_stays_on_unit_disc() {
    assert!(PlaneRot::new(U, 0).is_some());
    assert!(PlaneRot::new(0, -U).is_some());
    assert!(PlaneRot::new(707_106, 707_106).is_some());
    assert!(PlaneRot::new(U, 1).is_none());
    assert_eq!(PlaneRot::identity(), PlaneRot { c: U, s: 0 });
    assert_eq!(PlaneRot::quarter_turn(), PlaneRot { c: 0, s: U });
}

#[test]
fn rotation_quarter_turn_lands_on_z_axis() {
    // A unit vector on the x axis turned a quarter turn in the x-z
    // plane lands on the z axis (negative side, by the engine's sign
    // convention).
    let mut line = Shape::generate_line(Point(U, 0, 0), Point(2 * U, 0, 0));
    let id = PlaneRot::identity();
    let q = PlaneRot::quarter_turn();
    line.rotate(&Point(0, 0, 0), (id, q, id));
    assert_eq!(line.vertices[0], Point(0, 0, -U));
    assert_eq!(line.vertices[1], Point(0, 0, -2 * U));
}

#[test]
fn rotation_single_plane_angles_add() {
    // Two quarter turns in the x-z plane equal one half turn there.
    let mut twice = Shape::generate_line(Point(U, 0, 0), Point(0, 3 * U, 0));
    let mut once = Shape::generate_line(Point(U, 0, 0), Point(0, 3 * U, 0));
    let id = PlaneRot::identity();
    let q = PlaneRot::quarter_turn();
    let half = PlaneRot { c: -U, s: 0 };
    let pivot = Point(0, 0, 0);
    twice.rotate(&pivot, (id, q, id));
    twice.rotate(&pivot, (id, q, id));
    once.rotate(&pivot, (id, half, id));
    assert_eq!(twice.vertices[0], once.vertices[0]);
    assert_eq!(twice.vertices[1], once.vertices[1]);
    assert_eq!(twice.vertices[0], Point(-U, 0, 0));
}

#[test]
fn rotation_preserves_pivot_distance() {
    // Axis-aligned quarter turns are exact even in fixed point, so the
    // squared distance to the pivot is preserved, not only bounded.
    let pivot = Point(U, U, U);
    let mut cube = Shape::generate_cube(pivot, 2 * U);
    let before: Vec<i64> = cube
        .vertices
        .iter()
        .map(|v| {
            let dx = v.0 - pivot.0;
            let dy = v.1 - pivot.1;
            let dz = v.2 - pivot.2;
            dx * dx + dy * dy + dz * dz
        })
        .collect();
    let id = PlaneRot::identity();
    let q = PlaneRot::quarter_turn();
    cube.rotate(&pivot, (q, id, id));
    let after: Vec<i64> = cube
        .vertices
        .iter()
        .map(|v| {
            let dx = v.0 - pivot.0;
            let dy = v.1 - pivot.1;
            let dz = v.2 - pivot.2;
            dx * dx + dy * dy + dz * dz
        })
        .collect();
    assert_eq!(before, after);
}

#[test]
fn rotation_keeps_topology() {
    let mut cube = Shape::generate_cube(Point(0, 0, 0), 2 * U);
    let id = PlaneRot::identity();
    let q = PlaneRot::quarter_turn();
    cube.rotate(&Point(0, 0, 0), (id, q, q));
    assert_eq!(cube.vertices.len(), 8);
    assert_eq!(cube.edges.len(), 12);
    assert_eq!(cube.center, Some(Point(0, 0, 0)));
}

#[test]
fn generate_line_shape() {
    let line = Shape::generate_line(Point(0, 0, 0), Point(5 * U, 0, 0));
    assert_eq!(line.vertices, vec![Point(0, 0, 0), Point(5 * U, 0, 0)]);
    assert_eq!(line.edges, vec![Edge(0, 1)]);
    assert!(line.faces.is_empty());
    assert_eq!(line.center, None);
}

#[test]
fn cube_factory_invariant() {
    // Eight vertices, twelve edges, the input center stored, and every
    // edge joining two vertices that differ in exactly one coordinate
    // by exactly the edge length.
    let center = Point(3, -7, 11);
    let len: i64 = 2 * U;
    let cube = Shape::generate_cube(center, len);
    assert_eq!(cube.vertices.len(), 8);
    assert_eq!(cube.edges.len(), 12);
    assert_eq!(cube.center, Some(center));
    assert_eq!(cube.faces, vec![Face(0, 1, 2)]);
    for e in &cube.edges {
        let a = cube.vertices[e.0];
        let b = cube.vertices[e.1];
        let dx = (a.0 - b.0).abs();
        let dy = (a.1 - b.1).abs();
        let dz = (a.2 - b.2).abs();
        let diffs = [dx, dy, dz];
        assert_eq!(diffs.iter().filter(|d| **d == len).count(), 1);
        assert_eq!(diffs.iter().filter(|d| **d == 0).count(), 2);
    }
    assert_eq!(cube.vertices[0], Point(3 - U, -7 - U, 11 - U));
    assert_eq!(cube.vertices[6], Point(3 + U, -7 + U, 11 + U));
}

#[test]
fn grid_radiates_on_all_axes() {
    let grid = Shape::generate_grid(3);
    assert_eq!(grid.vertices.len(), 18);
    assert_eq!(grid.vertices[0], Point(0, 0, 0));
    assert_eq!(grid.vertices[2], Point(-U, 0, 0));
    assert_eq!(grid.vertices[3], Point(U, 0, 0));
    assert_eq!(grid.vertices[5], Point(2 * U, 0, 0));
    assert_eq!(grid.vertices[8], Point(0, -U, 0));
    assert_eq!(grid.vertices[9], Point(0, U, 0));
    assert_eq!(grid.vertices[14], Point(0, 0, -U));
    assert_eq!(grid.vertices[17], Point(0, 0, 2 * U));
    assert!(grid.edges.is_empty());
    assert_eq!(grid.center, None);
}

#[test]
fn ring_samples_circle() {
    let center = Point(U, U, U);
    let radius: i64 = 10 * U;
    let ring = Shape::generate_ring(radius, center);
    assert_eq!(ring.vertices.len(), 100);
    assert_eq!(ring.vertices[0], Point(U, 11 * U, U));
    assert!(ring.edges.is_empty());
    assert_eq!(ring.center, Some(center));
    for v in &ring.vertices {
        let dx = v.0 - center.0;
        let dy = v.1 - center.1;
        assert_eq!(v.2, center.2);
        assert!(dx * dx + dy * dy <= radius * radius);
    }
    // The second sample has turned by exactly the coarse step,
    // clockwise from the top of the circle.
    assert_eq!(
        ring.vertices[1],
        Point(U + 627_580, U + 9_980_280, U)
    );
}

#[test]
fn parallelepiped_corners() {
    let s = Point(0, 0, 0);
    let a = Point(25 * U, 0, 0);
    let b = Point(5 * U, 10 * U, 5 * U);
    let c = Point(0, 0, 10 * U);
    let shape = Shape::generate_parallelepiped(s, a, b, c);
    assert_eq!(shape.vertices.len(), 8);
    assert_eq!(shape.edges.len(), 12);
    assert_eq!(shape.center, Some(s));
    assert_eq!(shape.vertices[1], Point(25 * U, 0, 0));
    assert_eq!(shape.vertices[2], Point(0, 0, 10 * U));
    assert_eq!(shape.vertices[3], Point(25 * U, 0, 10 * U));
    assert_eq!(shape.vertices[4], Point(5 * U, 10 * U, 5 * U));
    assert_eq!(shape.vertices[7], Point(30 * U, 10 * U, 15 * U));
    assert_eq!(shape.edges[0], Edge(0, 1));
    assert_eq!(shape.edges[11], Edge(3, 7));
}

#[test]
fn combine_preserves_topology() {
    // The merged shape owns both vertex lists, and every edge and face
    // index of the second shape is offset by the first shape's vertex
    // count.
    let cube = Shape::generate_cube(Point(0, 0, 0), 2 * U);
    let line = Shape::generate_line(Point(9, 9, 9), Point(8, 8, 8));
    let merged = cube.combine(&line);
    assert_eq!(merged.vertices.len(), 8 + 2);
    assert_eq!(merged.edges.len(), 12 + 1);
    assert_eq!(merged.vertices[8], Point(9, 9, 9));
    assert_eq!(merged.vertices[9], Point(8, 8, 8));
    for k in 0..12 {
        assert_eq!(merged.edges[k], cube.edges[k]);
    }
    assert_eq!(merged.edges[12], Edge(0 + 8, 1 + 8));
    assert_eq!(merged.faces.len(), 1);
    assert_eq!(merged.center, None);

    let both = merged.combine(&cube);
    assert_eq!(both.faces.len(), 2);
    assert_eq!(both.faces[1], Face(0 + 10, 1 + 10, 2 + 10));
}

#[test]
fn tesseract_structure() {
    let l: i64 = 10 * U;
    let start = Point4(-l / 2, -l / 2, -l / 2, -l / 2);
    let a = Point4(l, 0, 0, 0);
    let b = Point4(0, l, 0, 0);
    let c = Point4(0, 0, l, 0);
    let d = Point4(0, 0, 0, l);
    let tess = Shape4::generate_4d_paralellepiped(start, a, b, c, d);
    assert_eq!(tess.vertices.len(), 16);
    assert_eq!(tess.edges.len(), 32);
    assert_eq!(tess.center, None);
    assert_eq!(tess.vertices[0], start);
    assert_eq!(tess.vertices[1], Point4(l / 2, -l / 2, -l / 2, -l / 2));
    assert_eq!(tess.vertices[15], Point4(l / 2, l / 2, l / 2, l / 2));
    // With axis-aligned generators, every edge joins two corners that
    // differ in exactly one coordinate, by exactly the generator
    // length: the 4-cube's edge graph.
    for e in &tess.edges {
        let p = tess.vertices[e.0];
        let q = tess.vertices[e.1];
        let diffs = [
            (p.0 - q.0).abs(),
            (p.1 - q.1).abs(),
            (p.2 - q.2).abs(),
            (p.3 - q.3).abs(),
        ];
        assert_eq!(diffs.iter().filter(|v| **v == l).count(), 1);
        assert_eq!(diffs.iter().filter(|v| **v == 0).count(), 3);
    }
}

#[test]
fn rotation_4d_turns_into_w() {
    // A quarter turn in the x-w plane sends the x axis to the w axis.
    let start = Point4(0, 0, 0, 0);
    let a = Point4(U, 0, 0, 0);
    let b = Point4(0, U, 0, 0);
    let c = Point4(0, 0, U, 0);
    let d = Point4(0, 0, 0, U);
    let mut tess = Shape4::generate_4d_paralellepiped(start, a, b, c, d);
    let id = PlaneRot::identity();
    let q = PlaneRot::quarter_turn();
    tess.rotate(&Point4(0, 0, 0, 0), (id, id, id, q, id, id));
    // Corner 1 was start + a == (U, 0, 0, 0); x-w quarter turn maps
    // (x, w) to (w, -x).
    assert_eq!(tess.vertices[1], Point4(0, 0, 0, -U));
    // Corner 4 was start + d == (0, 0, 0, U); it maps onto the x axis.
    assert_eq!(tess.vertices[4], Point4(U, 0, 0, 0));
    // The topology is untouched by rotation.
    assert_eq!(tess.vertices.len(), 16);
    assert_eq!(tess.edges.len(), 32);
    assert_eq!(tess.center, None);
}

#[test]
fn projection_drops_w() {
    let l: i64 = 7 * U;
    let start = Point4(1, 2, 3, 4);
    let a = Point4(l, 0, 0, 0);
    let b = Point4(0, l, 0, 0);
    let c = Point4(0, 0, l, 0);
    let d = Point4(0, 0, 0, l);
    let tess = Shape4::generate_4d_paralellepiped(start, a, b, c, d);
    let flat = tess.project_to_3d();
    assert_eq!(flat.vertices.len(), tess.vertices.len());
    for (i, v) in tess.vertices.iter().enumerate() {
        assert_eq!(flat.vertices[i], Point(v.0, v.1, v.2));
    }
    assert_eq!(flat.edges, tess.edges);
    assert!(flat.faces.is_empty());
    assert_eq!(flat.center, None);
}
