//! The shape model: vertex lists plus edge lists (pairs of vertex
//! indices), factory constructors for the engine's primitives, in-place
//! rotation about a pivot, merging of two shapes, and the projection of
//! four-dimensional shapes down to three dimensions.

use crate::fixed::{
    abs_val, lemma_abs_le_of_sq_le, lemma_sq_nonneg, MAX_COORD, UNIT, VERTEX_DENSITY,
};
use crate::point::{coord_in_range, Point, Point4};
use crate::rotation::{rot_u_fx, rot_v_fx, rotate3, rotate4, rotate_pair, PlaneRot};
use vstd::prelude::*;

verus! {

/// The indices of the two vertices an edge connects.
#[derive(Debug, Clone, PartialEq, Eq, Structural)]
pub struct Edge(pub usize, pub usize);

/// The indices of the three vertices a face touches. Faces are carried
/// for completeness but never rasterized.
#[derive(Debug, Clone, PartialEq, Eq, Structural)]
pub struct Face(pub usize, pub usize, pub usize);

/// A three-dimensional shape: vertices, edges, faces, and an optional
/// center used as the default rotation pivot.
#[derive(Debug)]
pub struct Shape {
    pub vertices: Vec<Point>,
    pub edges: Vec<Edge>,
    pub faces: Vec<Face>,
    pub center: Option<Point>,
}

/// A four-dimensional shape: vertices and edges only.
#[derive(Debug)]
pub struct Shape4 {
    pub vertices: Vec<Point4>,
    pub edges: Vec<Edge>,
    pub center: Option<Point4>,
}

impl Shape {
    /// Every edge references two existing vertices.
    pub open spec fn edges_valid(self) -> bool {
        forall|i: int|
            0 <= i < self.edges@.len() ==> (#[trigger] self.edges@[i]).0 < self.vertices@.len()
                && self.edges@[i].1 < self.vertices@.len()
    }

    /// Every face references three existing vertices.
    pub open spec fn faces_valid(self) -> bool {
        forall|i: int|
            0 <= i < self.faces@.len() ==> (#[trigger] self.faces@[i]).0 < self.vertices@.len()
                && self.faces@[i].1 < self.vertices@.len() && self.faces@[i].2
                < self.vertices@.len()
    }

    /// Well-formed: all edge and face indices are in bounds.
    pub open spec fn wf(self) -> bool {
        self.edges_valid() && self.faces_valid()
    }

    /// Every vertex coordinate is within the engine's accepted range.
    pub open spec fn bounded(self) -> bool {
        forall|i: int|
            0 <= i < self.vertices@.len() ==> (#[trigger] self.vertices@[i]).in_range()
    }
}

/// The `k`-th tesseract edge, as executable data.
fn tess_edge_at(k: usize) -> (r: (usize, usize))
    requires
        k < 32,
    ensures
        (r.0 as int, r.1 as int) == tess_edge(k as int),
        r.0 < 16 && r.1 < 16,
{
    if k == 0 {
        (0, 1)
    } else if k == 1 {
        (0, 2)
    } else if k == 2 {
        (0, 3)
    } else if k == 3 {
        (0, 4)
    } else if k == 4 {
        (1, 5)
    } else if k == 5 {
        (1, 6)
    } else if k == 6 {
        (1, 7)
    } else if k == 7 {
        (2, 6)
    } else if k == 8 {
        (2, 8)
    } else if k == 9 {
        (2, 9)
    } else if k == 10 {
        (3, 7)
    } else if k == 11 {
        (3, 8)
    } else if k == 12 {
        (3, 10)
    } else if k == 13 {
        (4, 5)
    } else if k == 14 {
        (4, 9)
    } else if k == 15 {
        (4, 10)
    } else if k == 16 {
        (5, 12)
    } else if k == 17 {
        (5, 13)
    } else if k == 18 {
        (6, 11)
    } else if k == 19 {
        (6, 12)
    } else if k == 20 {
        (7, 11)
    } else if k == 21 {
        (7, 13)
    } else if k == 22 {
        (8, 11)
    } else if k == 23 {
        (8, 14)
    } else if k == 24 {
        (9, 12)
    } else if k == 25 {
        (9, 14)
    } else if k == 26 {
        (10, 13)
    } else if k == 27 {
        (10, 14)
    } else if k == 28 {
        (11, 15)
    } else if k == 29 {
        (12, 15)
    } else if k == 30 {
        (13, 15)
    } else {
        (14, 15)
    }
}

impl Shape4 {
    /// Every edge references two existing vertices.
    pub open spec fn edges_valid(self) -> bool {
        forall|i: int|
            0 <= i < self.edges@.len() ==> (#[trigger] self.edges@[i]).0 < self.vertices@.len()
                && self.edges@[i].1 < self.vertices@.len()
    }

    /// Every vertex coordinate is within the engine's accepted range.
    pub open spec fn bounded(self) -> bool {
        forall|i: int|
            0 <= i < self.vertices@.len() ==> (#[trigger] self.vertices@[i]).in_range()
    }
}

/// Componentwise sum of two points, over the integers, truncated into
/// `i64` coordinates.
pub open spec fn padd(p: Point, q: Point) -> Point {
    Point((p.0 + q.0) as i64, (p.1 + q.1) as i64, (p.2 + q.2) as i64)
}

/// Componentwise sum of two 4-points.
pub open spec fn padd4(p: Point4, q: Point4) -> Point4 {
    Point4((p.0 + q.0) as i64, (p.1 + q.1) as i64, (p.2 + q.2) as i64, (p.3 + q.3) as i64)
}

/// The `k`-th vertex of the cube with the given center and edge length:
/// on each axis the low face sits half an edge length below the center
/// (rounded down) and the high face exactly one edge length above the
/// low one.
pub open spec fn cube_vertex(center: Point, length: i64, k: int) -> Point {
    let xlo = center.0 - length / 2;
    let ylo = center.1 - length / 2;
    let zlo = center.2 - length / 2;
    Point(
        (if k == 2 || k == 3 || k == 6 || k == 7 {
            xlo + length
        } else {
            xlo
        }) as i64,
        (if k >= 4 {
            ylo + length
        } else {
            ylo
        }) as i64,
        (if k == 1 || k == 2 || k == 5 || k == 6 {
            zlo + length
        } else {
            zlo
        }) as i64,
    )
}

/// The `k`-th edge of the cube: four around the bottom face, four around
/// the top face, four verticals.
pub open spec fn cube_edge(k: int) -> (int, int) {
    if k == 0 {
        (0, 1)
    } else if k == 1 {
        (1, 2)
    } else if k == 2 {
        (2, 3)
    } else if k == 3 {
        (0, 3)
    } else if k == 4 {
        (4, 5)
    } else if k == 5 {
        (5, 6)
    } else if k == 6 {
        (6, 7)
    } else if k == 7 {
        (4, 7)
    } else if k == 8 {
        (0, 4)
    } else if k == 9 {
        (1, 5)
    } else if k == 10 {
        (2, 6)
    } else {
        (3, 7)
    }
}

/// Two cube vertices joined by an edge differ in exactly one coordinate,
/// and there by exactly the edge length.
pub open spec fn edge_span_one(a: Point, b: Point, len: int) -> bool {
    ||| (abs_val(a.0 - b.0) == len && a.1 == b.1 && a.2 == b.2)
    ||| (a.0 == b.0 && abs_val(a.1 - b.1) == len && a.2 == b.2)
    ||| (a.0 == b.0 && a.1 == b.1 && abs_val(a.2 - b.2) == len)
}

/// The `k`-th edge of a parallelepiped, in construction order.
pub open spec fn para_edge(k: int) -> (int, int) {
    if k == 0 {
        (0, 1)
    } else if k == 1 {
        (2, 3)
    } else if k == 2 {
        (0, 2)
    } else if k == 3 {
        (1, 3)
    } else if k == 4 {
        (4, 5)
    } else if k == 5 {
        (6, 7)
    } else if k == 6 {
        (4, 6)
    } else if k == 7 {
        (5, 7)
    } else if k == 8 {
        (0, 4)
    } else if k == 9 {
        (1, 5)
    } else if k == 10 {
        (2, 6)
    } else {
        (3, 7)
    }
}

/// Fixed-point cosine of the ring's angular step, `2 * 3.14 / 100`
/// radians (the engine's deliberately coarse circle constant).
pub const RING_STEP_COS: i64 = 998_028;

/// Fixed-point sine of the ring's angular step.
pub const RING_STEP_SIN: i64 = 62_758;

/// Offset of the `k`-th ring sample from the ring's center, in the x–y
/// plane: the first sample sits one radius above the center along y, and
/// each later sample is the previous one turned by the ring's angular
/// step.
pub open spec fn ring_offset(radius: int, k: int) -> (int, int)
    decreases k,
{
    if k <= 0 {
        (0, radius)
    } else {
        let prev = ring_offset(radius, k - 1);
        (
            rot_u_fx(prev.0, prev.1, RING_STEP_COS as int, RING_STEP_SIN as int),
            rot_v_fx(prev.0, prev.1, RING_STEP_COS as int, RING_STEP_SIN as int),
        )
    }
}

impl Shape {
    /// Rotates every vertex in place about `pivot`, applying the three
    /// planar rotations in the engine's fixed order: the y rotor in the
    /// x–z plane, then the x rotor in the z–y plane, then the z rotor in
    /// the x–y plane.
    #[verifier::loop_isolation(false)]
    pub fn rotate(&mut self, pivot: &Point, rots: (PlaneRot, PlaneRot, PlaneRot))
        requires
            old(self).bounded(),
            pivot.in_range(),
            rots.0.wf(),
            rots.1.wf(),
            rots.2.wf(),
        ensures
            final(self).vertices@.len() == old(self).vertices@.len(),
            forall|i: int|
                0 <= i < old(self).vertices@.len() ==> final(self).vertices@[i] == rotate3(
                    old(self).vertices@[i],
                    *pivot,
                    rots.0,
                    rots.1,
                    rots.2,
                ),
            final(self).edges == old(self).edges,
            final(self).faces == old(self).faces,
            final(self).center == old(self).center,
    {
        let n = self.vertices.len();
        let mut i: usize = 0;
        while i < n
            invariant
                self.vertices@.len() == n,
                forall|j: int|
                    0 <= j < i ==> self.vertices@[j] == rotate3(
                        old(self).vertices@[j],
                        *pivot,
                        rots.0,
                        rots.1,
                        rots.2,
                    ),
                forall|j: int| i <= j < n ==> self.vertices@[j] == old(self).vertices@[j],
                self.edges == old(self).edges,
                self.faces == old(self).faces,
                self.center == old(self).center,
            decreases n - i,
        {
            let v = self.vertices[i];
            let x0 = v.0 - pivot.0;
            let y0 = v.1 - pivot.1;
            let z0 = v.2 - pivot.2;
            let (x1, z1) = rotate_pair(x0, z0, &rots.1);
            let (z2, y2) = rotate_pair(z1, y0, &rots.0);
            let (x3, y3) = rotate_pair(x1, y2, &rots.2);
            self.vertices.set(i, Point(x3 + pivot.0, y3 + pivot.1, z2 + pivot.2));
            i += 1;
        }
    }

    /// Merges two shapes into a new one: the vertex lists are
    /// concatenated, and every edge and face index of the second shape
    /// is renumbered upward by the first shape's vertex count, so all
    /// indices keep referencing the vertices they referenced before.
    /// The merged shape has no center.
    #[verifier::loop_isolation(false)]
    pub fn combine(&self, s2: &Shape) -> (r: Shape)
        requires
            self.wf(),
            s2.wf(),
            self.vertices@.len() + s2.vertices@.len() <= usize::MAX,
        ensures
            r.vertices@ == self.vertices@ + s2.vertices@,
            r.edges@.len() == self.edges@.len() + s2.edges@.len(),
            forall|i: int| 0 <= i < self.edges@.len() ==> r.edges@[i] == self.edges@[i],
            forall|i: int|
                0 <= i < s2.edges@.len() ==> (#[trigger] r.edges@[self.edges@.len() + i]).0
                    == s2.edges@[i].0 + self.vertices@.len() && r.edges@[self.edges@.len() + i].1
                    == s2.edges@[i].1 + self.vertices@.len(),
            r.faces@.len() == self.faces@.len() + s2.faces@.len(),
            forall|i: int| 0 <= i < self.faces@.len() ==> r.faces@[i] == self.faces@[i],
            forall|i: int|
                0 <= i < s2.faces@.len() ==> (#[trigger] r.faces@[self.faces@.len() + i]).0
                    == s2.faces@[i].0 + self.vertices@.len() && r.faces@[self.faces@.len() + i].1
                    == s2.faces@[i].1 + self.vertices@.len() && r.faces@[self.faces@.len() + i].2
                    == s2.faces@[i].2 + self.vertices@.len(),
            r.center is None,
            r.wf(),
    {
        let n = self.vertices.len();
        let total = n + s2.vertices.len();
        let mut vertices: Vec<Point> = Vec::new();
        let mut edges: Vec<Edge> = Vec::new();
        let mut faces: Vec<Face> = Vec::new();
        let mut i: usize = 0;
        while i < self.vertices.len()
            invariant
                i <= self.vertices@.len(),
                vertices@.len() == i,
                forall|j: int| 0 <= j < i ==> vertices@[j] == self.vertices@[j],
            decreases self.vertices@.len() - i,
        {
            vertices.push(self.vertices[i]);
            i += 1;
        }
        let mut i: usize = 0;
        while i < s2.vertices.len()
            invariant
                i <= s2.vertices@.len(),
                vertices@.len() == n + i,
                forall|j: int| 0 <= j < n ==> vertices@[j] == self.vertices@[j],
                forall|j: int| 0 <= j < i ==> vertices@[n + j] == s2.vertices@[j],
            decreases s2.vertices@.len() - i,
        {
            vertices.push(s2.vertices[i]);
            i += 1;
        }
        let mut i: usize = 0;
        while i < self.edges.len()
            invariant
                i <= self.edges@.len(),
                edges@.len() == i,
                forall|j: int| 0 <= j < i ==> edges@[j] == self.edges@[j],
                forall|j: int|
                    0 <= j < i ==> (#[trigger] edges@[j]).0 < total && edges@[j].1 < total,
            decreases self.edges@.len() - i,
        {
            let e = &self.edges[i];
            edges.push(Edge(e.0, e.1));
            i += 1;
        }
        let mut i: usize = 0;
        while i < s2.edges.len()
            invariant
                i <= s2.edges@.len(),
                edges@.len() == self.edges@.len() + i,
                forall|j: int| 0 <= j < self.edges@.len() ==> edges@[j] == self.edges@[j],
                forall|j: int|
                    0 <= j < i ==> (#[trigger] edges@[self.edges@.len() + j]).0 == s2.edges@[j].0
                        + n && edges@[self.edges@.len() + j].1 == s2.edges@[j].1 + n,
                forall|j: int|
                    0 <= j < edges@.len() ==> (#[trigger] edges@[j]).0 < total && edges@[j].1
                        < total,
            decreases s2.edges@.len() - i,
        {
            let e = &s2.edges[i];
            edges.push(Edge(e.0 + n, e.1 + n));
            i += 1;
        }
        let mut i: usize = 0;
        while i < self.faces.len()
            invariant
                i <= self.faces@.len(),
                faces@.len() == i,
                forall|j: int| 0 <= j < i ==> faces@[j] == self.faces@[j],
                forall|j: int|
                    0 <= j < i ==> (#[trigger] faces@[j]).0 < total && faces@[j].1 < total
                        && faces@[j].2 < total,
            decreases self.faces@.len() - i,
        {
            let f = &self.faces[i];
            faces.push(Face(f.0, f.1, f.2));
            i += 1;
        }
        let mut i: usize = 0;
        while i < s2.faces.len()
            invariant
                i <= s2.faces@.len(),
                faces@.len() == self.faces@.len() + i,
                forall|j: int| 0 <= j < self.faces@.len() ==> faces@[j] == self.faces@[j],
                forall|j: int|
                    0 <= j < i ==> (#[trigger] faces@[self.faces@.len() + j]).0 == s2.faces@[j].0
                        + n && faces@[self.faces@.len() + j].1 == s2.faces@[j].1 + n
                        && faces@[self.faces@.len() + j].2 == s2.faces@[j].2 + n,
                forall|j: int|
                    0 <= j < faces@.len() ==> (#[trigger] faces@[j]).0 < total && faces@[j].1
                        < total && faces@[j].2 < total,
            decreases s2.faces@.len() - i,
        {
            let f = &s2.faces[i];
            faces.push(Face(f.0 + n, f.1 + n, f.2 + n));
            i += 1;
        }
        proof {
            assert(vertices@ =~= self.vertices@ + s2.vertices@);
        }
        Shape { vertices, edges, faces, center: None }
    }

    /// Builds the two-vertex, one-edge line segment from `start` to
    /// `end`.
    pub fn generate_line(start: Point, end: Point) -> (r: Shape)
        ensures
            r.vertices@.len() == 2,
            r.vertices@[0] == start,
            r.vertices@[1] == end,
            r.edges@.len() == 1,
            r.edges@[0].0 == 0 && r.edges@[0].1 == 1,
            r.faces@.len() == 0,
            r.center is None,
            r.wf(),
    {
        let mut vertices: Vec<Point> = Vec::new();
        vertices.push(start);
        vertices.push(end);
        let mut edges: Vec<Edge> = Vec::new();
        edges.push(Edge(0, 1));
        Shape { vertices, edges, faces: Vec::new(), center: None }
    }

    /// Builds a cube: eight vertices, twelve edges (four around the
    /// bottom face, four around the top, four verticals), one recorded
    /// face, and the given center stored as the rotation pivot. Each
    /// edge joins two vertices that differ in exactly one coordinate by
    /// exactly `length`.
    pub fn generate_cube(center: Point, length: i64) -> (r: Shape)
        requires
            0 <= length,
            coord_in_range(center.0 - length) && coord_in_range(center.0 + length),
            coord_in_range(center.1 - length) && coord_in_range(center.1 + length),
            coord_in_range(center.2 - length) && coord_in_range(center.2 + length),
        ensures
            r.vertices@.len() == 8,
            forall|k: int| 0 <= k < 8 ==> r.vertices@[k] == cube_vertex(center, length, k),
            r.edges@.len() == 12,
            forall|k: int|
                0 <= k < 12 ==> ((#[trigger] r.edges@[k]).0 as int, r.edges@[k].1 as int)
                    == cube_edge(k),
            forall|k: int|
                0 <= k < 12 ==> edge_span_one(
                    r.vertices@[(#[trigger] r.edges@[k]).0 as int],
                    r.vertices@[r.edges@[k].1 as int],
                    length as int,
                ),
            r.faces@.len() == 1,
            r.faces@[0].0 == 0 && r.faces@[0].1 == 1 && r.faces@[0].2 == 2,
            r.center == Some(center),
            r.wf(),
            r.bounded(),
    {
        let half: i64 = ((length as u64) / 2) as i64;
        let xlo = center.0 - half;
        let ylo = center.1 - half;
        let zlo = center.2 - half;
        let xhi = xlo + length;
        let yhi = ylo + length;
        let zhi = zlo + length;
        let mut vertices: Vec<Point> = Vec::new();
        let mut edges: Vec<Edge> = Vec::new();
        let mut faces: Vec<Face> = Vec::new();
        vertices.push(Point(xlo, ylo, zlo));
        vertices.push(Point(xlo, ylo, zhi));
        vertices.push(Point(xhi, ylo, zhi));
        vertices.push(Point(xhi, ylo, zlo));
        edges.push(Edge(0, 1));
        edges.push(Edge(1, 2));
        edges.push(Edge(2, 3));
        edges.push(Edge(0, 3));
        vertices.push(Point(xlo, yhi, zlo));
        vertices.push(Point(xlo, yhi, zhi));
        vertices.push(Point(xhi, yhi, zhi));
        vertices.push(Point(xhi, yhi, zlo));
        edges.push(Edge(4, 5));
        edges.push(Edge(5, 6));
        edges.push(Edge(6, 7));
        edges.push(Edge(4, 7));
        edges.push(Edge(0, 4));
        edges.push(Edge(1, 5));
        edges.push(Edge(2, 6));
        edges.push(Edge(3, 7));
        faces.push(Face(0, 1, 2));
        Shape { vertices, edges, faces, center: Some(center) }
    }

    /// Builds the axis grid: for each axis, `length` pairs of points
    /// radiating from the origin in both directions, one world unit
    /// apart; no edges.
    #[verifier::loop_isolation(false)]
    pub fn generate_grid(length: usize) -> (r: Shape)
        requires
            length * UNIT <= MAX_COORD,
        ensures
            r.vertices@.len() == 6 * length,
            forall|k: int|
                0 <= k < length ==> #[trigger] r.vertices@[2 * k] == Point(
                    (-(k * UNIT)) as i64,
                    0i64,
                    0i64,
                ) && r.vertices@[2 * k + 1] == Point((k * UNIT) as i64, 0i64, 0i64),
            forall|k: int|
                0 <= k < length ==> #[trigger] r.vertices@[2 * length + 2 * k] == Point(
                    0i64,
                    (-(k * UNIT)) as i64,
                    0i64,
                ) && r.vertices@[2 * length + 2 * k + 1] == Point(0i64, (k * UNIT) as i64, 0i64),
            forall|k: int|
                0 <= k < length ==> #[trigger] r.vertices@[4 * length + 2 * k] == Point(
                    0i64,
                    0i64,
                    (-(k * UNIT)) as i64,
                ) && r.vertices@[4 * length + 2 * k + 1] == Point(0i64, 0i64, (k * UNIT) as i64),
            r.edges@.len() == 0,
            r.faces@.len() == 0,
            r.center is None,
            r.wf(),
            r.bounded(),
    {
        let mut vertices: Vec<Point> = Vec::new();
        let mut k: usize = 0;
        while k < length
            invariant
                k <= length,
                vertices@.len() == 2 * k,
                forall|j: int| 0 <= j < vertices@.len() ==> (#[trigger] vertices@[j]).in_range(),
                forall|j: int|
                    0 <= j < k ==> #[trigger] vertices@[2 * j] == Point((-(j * UNIT)) as i64, 0i64, 0i64)
                        && vertices@[2 * j + 1] == Point((j * UNIT) as i64, 0i64, 0i64),
            decreases length - k,
        {
            let ghost pre = vertices@;
            let c: i64 = (k as i64) * UNIT;
            vertices.push(Point(-c, 0, 0));
            vertices.push(Point(c, 0, 0));
            proof {
                assert forall|j: int|
                    0 <= j < k + 1 implies #[trigger] vertices@[2 * j] == Point(
                    (-(j * UNIT)) as i64,
                    0i64,
                    0i64,
                ) && vertices@[2 * j + 1] == Point((j * UNIT) as i64, 0i64, 0i64) by {
                    if j < k {
                        assert(vertices@[2 * j] == pre[2 * j]);
                        assert(vertices@[2 * j + 1] == pre[2 * j + 1]);
                    } else {
                        assert(vertices@[2 * j] == Point((-c) as i64, 0i64, 0i64));
                        assert(vertices@[2 * j + 1] == Point(c, 0i64, 0i64));
                    }
                }
            }
            k += 1;
        }
        let mut k: usize = 0;
        while k < length
            invariant
                k <= length,
                vertices@.len() == 2 * length + 2 * k,
                forall|j: int| 0 <= j < vertices@.len() ==> (#[trigger] vertices@[j]).in_range(),
                forall|j: int|
                    0 <= j < length ==> #[trigger] vertices@[2 * j] == Point((-(j * UNIT)) as i64, 0i64, 0i64)
                        && vertices@[2 * j + 1] == Point((j * UNIT) as i64, 0i64, 0i64),
                forall|j: int|
                    0 <= j < k ==> #[trigger] vertices@[2 * length + 2 * j] == Point(
                        0i64,
                        (-(j * UNIT)) as i64,
                        0i64,
                    ) && vertices@[2 * length + 2 * j + 1] == Point(
                        0i64,
                        (j * UNIT) as i64,
                        0i64,
                    ),
            decreases length - k,
        {
            let ghost pre = vertices@;
            let c: i64 = (k as i64) * UNIT;
            vertices.push(Point(0, -c, 0));
            vertices.push(Point(0, c, 0));
            proof {
                assert forall|j: int|
                    0 <= j < length implies #[trigger] vertices@[2 * j] == Point(
                    (-(j * UNIT)) as i64,
                    0i64,
                    0i64,
                ) && vertices@[2 * j + 1] == Point((j * UNIT) as i64, 0i64, 0i64) by {
                    assert(vertices@[2 * j] == pre[2 * j]);
                    assert(vertices@[2 * j + 1] == pre[2 * j + 1]);
                }
                assert forall|j: int|
                    0 <= j < k + 1 implies #[trigger] vertices@[2 * length + 2 * j] == Point(
                    0i64,
                    (-(j * UNIT)) as i64,
                    0i64,
                ) && vertices@[2 * length + 2 * j + 1] == Point(0i64, (j * UNIT) as i64, 0i64) by {
                    if j < k {
                        assert(vertices@[2 * length + 2 * j] == pre[2 * length + 2 * j]);
                        assert(vertices@[2 * length + 2 * j + 1] == pre[2 * length + 2 * j + 1]);
                    } else {
                        assert(vertices@[2 * length + 2 * j] == Point(0i64, (-c) as i64, 0i64));
                        assert(vertices@[2 * length + 2 * j + 1] == Point(0i64, c, 0i64));
                    }
                }
            }
            k += 1;
        }
        let mut k: usize = 0;
        while k < length
            invariant
                k <= length,
                vertices@.len() == 4 * length + 2 * k,
                forall|j: int| 0 <= j < vertices@.len() ==> (#[trigger] vertices@[j]).in_range(),
                forall|j: int|
                    0 <= j < length ==> #[trigger] vertices@[2 * j] == Point((-(j * UNIT)) as i64, 0i64, 0i64)
                        && vertices@[2 * j + 1] == Point((j * UNIT) as i64, 0i64, 0i64),
                forall|j: int|
                    0 <= j < length ==> #[trigger] vertices@[2 * length + 2 * j] == Point(
                        0i64,
                        (-(j * UNIT)) as i64,
                        0i64,
                    ) && vertices@[2 * length + 2 * j + 1] == Point(
                        0i64,
                        (j * UNIT) as i64,
                        0i64,
                    ),
                forall|j: int|
                    0 <= j < k ==> #[trigger] vertices@[4 * length + 2 * j] == Point(
                        0i64,
                        0i64,
                        (-(j * UNIT)) as i64,
                    ) && vertices@[4 * length + 2 * j + 1] == Point(
                        0i64,
                        0i64,
                        (j * UNIT) as i64,
                    ),
            decreases length - k,
        {
            let ghost pre = vertices@;
            let c: i64 = (k as i64) * UNIT;
            vertices.push(Point(0, 0, -c));
            vertices.push(Point(0, 0, c));
            proof {
                assert forall|j: int|
                    0 <= j < length implies #[trigger] vertices@[2 * j] == Point(
                    (-(j * UNIT)) as i64,
                    0i64,
                    0i64,
                ) && vertices@[2 * j + 1] == Point((j * UNIT) as i64, 0i64, 0i64) by {
                    assert(vertices@[2 * j] == pre[2 * j]);
                    assert(vertices@[2 * j + 1] == pre[2 * j + 1]);
                }
                assert forall|j: int|
                    0 <= j < length implies #[trigger] vertices@[2 * length + 2 * j] == Point(
                    0i64,
                    (-(j * UNIT)) as i64,
                    0i64,
                ) && vertices@[2 * length + 2 * j + 1] == Point(0i64, (j * UNIT) as i64, 0i64) by {
                    assert(vertices@[2 * length + 2 * j] == pre[2 * length + 2 * j]);
                    assert(vertices@[2 * length + 2 * j + 1] == pre[2 * length + 2 * j + 1]);
                }
                assert forall|j: int|
                    0 <= j < k + 1 implies #[trigger] vertices@[4 * length + 2 * j] == Point(
                    0i64,
                    0i64,
                    (-(j * UNIT)) as i64,
                ) && vertices@[4 * length + 2 * j + 1] == Point(0i64, 0i64, (j * UNIT) as i64) by {
                    if j < k {
                        assert(vertices@[4 * length + 2 * j] == pre[4 * length + 2 * j]);
                        assert(vertices@[4 * length + 2 * j + 1] == pre[4 * length + 2 * j + 1]);
                    } else {
                        assert(vertices@[4 * length + 2 * j] == Point(0i64, 0i64, (-c) as i64));
                        assert(vertices@[4 * length + 2 * j + 1] == Point(0i64, 0i64, c));
                    }
                }
            }
            k += 1;
        }
        Shape { vertices, edges: Vec::new(), faces: Vec::new(), center: None }
    }

    /// Builds a ring: one hundred point samples around a circle of the
    /// given radius in the x–y plane, offset by `center`; no edges, so
    /// the ring renders as a point cloud. The first sample sits one
    /// radius above the center along y, and each later sample is the
    /// previous one turned by the ring's coarse angular step.
    #[verifier::loop_isolation(false)]
    #[verifier::rlimit(50)]
    pub fn generate_ring(radius: i64, center: Point) -> (r: Shape)
        requires
            0 <= radius,
            coord_in_range(center.0 - radius) && coord_in_range(center.0 + radius),
            coord_in_range(center.1 - radius) && coord_in_range(center.1 + radius),
            coord_in_range(center.2 as int),
        ensures
            r.vertices@.len() == VERTEX_DENSITY,
            forall|k: int|
                0 <= k < VERTEX_DENSITY ==> #[trigger] r.vertices@[k] == Point(
                    (center.0 + ring_offset(radius as int, k).0) as i64,
                    (center.1 + ring_offset(radius as int, k).1) as i64,
                    center.2,
                ),
            r.edges@.len() == 0,
            r.faces@.len() == 0,
            r.center == Some(center),
            r.wf(),
            r.bounded(),
    {
        let step = PlaneRot { c: RING_STEP_COS, s: RING_STEP_SIN };
        proof {
            assert(step.wf()) by (nonlinear_arith)
                requires
                    step.c == 998_028i64,
                    step.s == 62_758i64,
            ;
        }
        let mut vertices: Vec<Point> = Vec::new();
        let mut u: i64 = 0;
        let mut v: i64 = radius;
        let mut k: usize = 0;
        while k < VERTEX_DENSITY
            invariant
                k <= VERTEX_DENSITY,
                vertices@.len() == k,
                forall|j: int| 0 <= j < vertices@.len() ==> (#[trigger] vertices@[j]).in_range(),
                (u as int, v as int) == ring_offset(radius as int, k as int),
                u * u + v * v <= radius * radius,
                -radius <= u <= radius,
                -radius <= v <= radius,
                forall|j: int|
                    0 <= j < k ==> #[trigger] vertices@[j] == Point(
                        (center.0 + ring_offset(radius as int, j).0) as i64,
                        (center.1 + ring_offset(radius as int, j).1) as i64,
                        center.2,
                    ),
            decreases VERTEX_DENSITY - k,
        {
            vertices.push(Point(center.0 + u, center.1 + v, center.2));
            let (nu, nv) = rotate_pair(u, v, &step);
            proof {
                crate::rotation::lemma_rot_fx_bounds(
                    u as int,
                    v as int,
                    step.c as int,
                    step.s as int,
                    radius as int,
                );
                lemma_sq_nonneg(nu as int);
                lemma_sq_nonneg(nv as int);
                lemma_abs_le_of_sq_le(nu as int, radius as int);
                lemma_abs_le_of_sq_le(nv as int, radius as int);
            }
            u = nu;
            v = nv;
            k += 1;
        }
        Shape { vertices, edges: Vec::new(), faces: Vec::new(), center: Some(center) }
    }

    /// Builds a parallelepiped spanned by the three edge vectors `a`,
    /// `b`, `c` from the corner `start`: eight vertices (all partial
    /// sums), twelve edges joining vertices that differ by exactly one
    /// edge vector, with `start` stored as the rotation pivot.
    pub fn generate_parallelepiped(start: Point, a: Point, b: Point, c: Point) -> (r: Shape)
        requires
            abs_val(start.0 as int) + abs_val(a.0 as int) + abs_val(b.0 as int) + abs_val(
                c.0 as int,
            ) <= MAX_COORD,
            abs_val(start.1 as int) + abs_val(a.1 as int) + abs_val(b.1 as int) + abs_val(
                c.1 as int,
            ) <= MAX_COORD,
            abs_val(start.2 as int) + abs_val(a.2 as int) + abs_val(b.2 as int) + abs_val(
                c.2 as int,
            ) <= MAX_COORD,
        ensures
            r.vertices@.len() == 8,
            r.vertices@[0] == start,
            r.vertices@[1] == padd(start, a),
            r.vertices@[2] == padd(start, c),
            r.vertices@[3] == padd(padd(start, c), a),
            r.vertices@[4] == padd(start, b),
            r.vertices@[5] == padd(padd(start, b), a),
            r.vertices@[6] == padd(padd(start, b), c),
            r.vertices@[7] == padd(padd(padd(start, b), c), a),
            r.edges@.len() == 12,
            forall|k: int|
                0 <= k < 12 ==> ((#[trigger] r.edges@[k]).0 as int, r.edges@[k].1 as int)
                    == para_edge(k),
            r.faces@.len() == 0,
            r.center == Some(start),
            r.wf(),
            r.bounded(),
    {
        let mut vertices: Vec<Point> = Vec::new();
        let mut edges: Vec<Edge> = Vec::new();
        vertices.push(start);
        vertices.push(start.add(a));
        edges.push(Edge(0, 1));
        vertices.push(start.add(c));
        vertices.push(start.add(c).add(a));
        edges.push(Edge(2, 3));
        edges.push(Edge(0, 2));
        edges.push(Edge(1, 3));
        vertices.push(start.add(b));
        vertices.push(start.add(b).add(a));
        edges.push(Edge(4, 5));
        vertices.push(start.add(b).add(c));
        vertices.push(start.add(b).add(c).add(a));
        edges.push(Edge(6, 7));
        edges.push(Edge(4, 6));
        edges.push(Edge(5, 7));
        edges.push(Edge(0, 4));
        edges.push(Edge(1, 5));
        edges.push(Edge(2, 6));
        edges.push(Edge(3, 7));
        Shape { vertices, edges, faces: Vec::new(), center: Some(start) }
    }
}

/// Largest coordinate magnitude accepted for the corner and each
/// generator of the four-dimensional parallelepiped: a fifth of
/// [`MAX_COORD`], so that every corner (a sum of the corner point and up
/// to four generators) stays in range.
pub const TESS_LIMIT: i64 = 2_000_000_000_000_000;

/// All four coordinates are small enough to serve as a tesseract corner
/// or generator.
pub open spec fn tess_gen_ok(p: Point4) -> bool {
    -TESS_LIMIT <= p.0 <= TESS_LIMIT && -TESS_LIMIT <= p.1 <= TESS_LIMIT && -TESS_LIMIT <= p.2
        <= TESS_LIMIT && -TESS_LIMIT <= p.3 <= TESS_LIMIT
}

/// The `k`-th edge of the four-dimensional parallelepiped: the 4-cube's
/// edge graph, joining the vertex pairs whose generator sets differ by
/// exactly one generator.
pub open spec fn tess_edge(k: int) -> (int, int) {
    if k == 0 {
        (0, 1)
    } else if k == 1 {
        (0, 2)
    } else if k == 2 {
        (0, 3)
    } else if k == 3 {
        (0, 4)
    } else if k == 4 {
        (1, 5)
    } else if k == 5 {
        (1, 6)
    } else if k == 6 {
        (1, 7)
    } else if k == 7 {
        (2, 6)
    } else if k == 8 {
        (2, 8)
    } else if k == 9 {
        (2, 9)
    } else if k == 10 {
        (3, 7)
    } else if k == 11 {
        (3, 8)
    } else if k == 12 {
        (3, 10)
    } else if k == 13 {
        (4, 5)
    } else if k == 14 {
        (4, 9)
    } else if k == 15 {
        (4, 10)
    } else if k == 16 {
        (5, 12)
    } else if k == 17 {
        (5, 13)
    } else if k == 18 {
        (6, 11)
    } else if k == 19 {
        (6, 12)
    } else if k == 20 {
        (7, 11)
    } else if k == 21 {
        (7, 13)
    } else if k == 22 {
        (8, 11)
    } else if k == 23 {
        (8, 14)
    } else if k == 24 {
        (9, 12)
    } else if k == 25 {
        (9, 14)
    } else if k == 26 {
        (10, 13)
    } else if k == 27 {
        (10, 14)
    } else if k == 28 {
        (11, 15)
    } else if k == 29 {
        (12, 15)
    } else if k == 30 {
        (13, 15)
    } else {
        (14, 15)
    }
}

impl Shape4 {
    /// Builds the sixteen tesseract corners, one for every subset of the
    /// four generators, in the engine's construction order.
    #[verifier::rlimit(100)]
    fn tess_vertices(start: Point4, a: Point4, b: Point4, c: Point4, d: Point4) -> (r: Vec<
        Point4,
    >)
        requires
            tess_gen_ok(start),
            tess_gen_ok(a),
            tess_gen_ok(b),
            tess_gen_ok(c),
            tess_gen_ok(d),
        ensures
            r@.len() == 16,
            r@[0] == start,
            r@[1] == padd4(start, a),
            r@[2] == padd4(start, b),
            r@[3] == padd4(start, c),
            r@[4] == padd4(start, d),
            r@[5] == padd4(padd4(start, a), d),
            r@[6] == padd4(padd4(start, a), b),
            r@[7] == padd4(padd4(start, a), c),
            r@[8] == padd4(padd4(start, b), c),
            r@[9] == padd4(padd4(start, b), d),
            r@[10] == padd4(padd4(start, c), d),
            r@[11] == padd4(padd4(padd4(start, a), b), c),
            r@[12] == padd4(padd4(padd4(start, a), b), d),
            r@[13] == padd4(padd4(padd4(start, a), c), d),
            r@[14] == padd4(padd4(padd4(start, b), c), d),
            r@[15] == padd4(padd4(padd4(padd4(start, a), b), c), d),
            forall|i: int| 0 <= i < 16 ==> (#[trigger] r@[i]).in_range(),
    {
        let sa = start.add(a);
        let sb = start.add(b);
        let sc = start.add(c);
        let sd = start.add(d);
        let sad = sa.add(d);
        let sab = sa.add(b);
        let sac = sa.add(c);
        let sbc = sb.add(c);
        let sbd = sb.add(d);
        let scd = sc.add(d);
        let sabc = sab.add(c);
        let sabd = sab.add(d);
        let sacd = sac.add(d);
        let sbcd = sbc.add(d);
        let sabcd = sabc.add(d);
        let mut vertices: Vec<Point4> = Vec::new();
        vertices.push(start);
        vertices.push(sa);
        vertices.push(sb);
        vertices.push(sc);
        vertices.push(sd);
        vertices.push(sad);
        vertices.push(sab);
        vertices.push(sac);
        vertices.push(sbc);
        vertices.push(sbd);
        vertices.push(scd);
        vertices.push(sabc);
        vertices.push(sabd);
        vertices.push(sacd);
        vertices.push(sbcd);
        vertices.push(sabcd);
        vertices
    }

    /// Builds a four-dimensional parallelepiped ("tesseract") spanned by
    /// the four generator vectors `a`, `b`, `c`, `d` from the corner
    /// `start`: sixteen vertices, one for every subset of the
    /// generators, and the 4-cube's thirty-two edges. No center is
    /// stored.
    #[verifier::rlimit(50)]
    pub fn generate_4d_paralellepiped(
        start: Point4,
        a: Point4,
        b: Point4,
        c: Point4,
        d: Point4,
    ) -> (r: Shape4)
        requires
            tess_gen_ok(start),
            tess_gen_ok(a),
            tess_gen_ok(b),
            tess_gen_ok(c),
            tess_gen_ok(d),
        ensures
            r.vertices@.len() == 16,
            r.vertices@[0] == start,
            r.vertices@[1] == padd4(start, a),
            r.vertices@[2] == padd4(start, b),
            r.vertices@[3] == padd4(start, c),
            r.vertices@[4] == padd4(start, d),
            r.vertices@[5] == padd4(padd4(start, a), d),
            r.vertices@[6] == padd4(padd4(start, a), b),
            r.vertices@[7] == padd4(padd4(start, a), c),
            r.vertices@[8] == padd4(padd4(start, b), c),
            r.vertices@[9] == padd4(padd4(start, b), d),
            r.vertices@[10] == padd4(padd4(start, c), d),
            r.vertices@[11] == padd4(padd4(padd4(start, a), b), c),
            r.vertices@[12] == padd4(padd4(padd4(start, a), b), d),
            r.vertices@[13] == padd4(padd4(padd4(start, a), c), d),
            r.vertices@[14] == padd4(padd4(padd4(start, b), c), d),
            r.vertices@[15] == padd4(padd4(padd4(padd4(start, a), b), c), d),
            r.edges@.len() == 32,
            forall|k: int|
                0 <= k < 32 ==> ((#[trigger] r.edges@[k]).0 as int, r.edges@[k].1 as int)
                    == tess_edge(k),
            r.center is None,
            r.edges_valid(),
            r.bounded(),
    {
        let vertices = Self::tess_vertices(start, a, b, c, d);
        let mut edges: Vec<Edge> = Vec::new();
        let mut k: usize = 0;
        while k < 32
            invariant
                k <= 32,
                edges@.len() == k,
                forall|j: int|
                    0 <= j < k ==> ((#[trigger] edges@[j]).0 as int, edges@[j].1 as int)
                        == tess_edge(j) && edges@[j].0 < 16 && edges@[j].1 < 16,
            decreases 32 - k,
        {
            let e = tess_edge_at(k);
            edges.push(Edge(e.0, e.1));
            k += 1;
        }
        Shape4 { vertices, edges, center: None }
    }

    /// Rotates one vertex about `pivot` through the six ordered planes.
    #[verifier::rlimit(50)]
    fn rotate_vertex(
        v: Point4,
        pivot: &Point4,
        rots: (PlaneRot, PlaneRot, PlaneRot, PlaneRot, PlaneRot, PlaneRot),
    ) -> (r: Point4)
        requires
            v.in_range(),
            pivot.in_range(),
            rots.0.wf(),
            rots.1.wf(),
            rots.2.wf(),
            rots.3.wf(),
            rots.4.wf(),
            rots.5.wf(),
        ensures
            r == rotate4(v, *pivot, rots.0, rots.1, rots.2, rots.3, rots.4, rots.5),
    {
        let x0 = v.0 - pivot.0;
        let y0 = v.1 - pivot.1;
        let z0 = v.2 - pivot.2;
        let w0 = v.3 - pivot.3;
        let (x1, z1) = rotate_pair(x0, z0, &rots.2);
        let (z2, y2) = rotate_pair(z1, y0, &rots.1);
        let (x3, y3) = rotate_pair(x1, y2, &rots.0);
        let (x4, w4) = rotate_pair(x3, w0, &rots.3);
        let (y5, w5) = rotate_pair(y3, w4, &rots.4);
        let (z6, w6) = rotate_pair(z2, w5, &rots.5);
        Point4(x4 + pivot.0, y5 + pivot.1, z6 + pivot.2, w6 + pivot.3)
    }

    /// Rotates every vertex in place about `pivot`, applying the six
    /// planar rotations in the engine's fixed order: x–z, z–y, x–y,
    /// x–w, y–w, z–w, parameterized by the rotors
    /// `(xy, yz, xz, wx, wy, wz)` in that role order.
    #[verifier::loop_isolation(false)]
    pub fn rotate(
        &mut self,
        pivot: &Point4,
        rots: (PlaneRot, PlaneRot, PlaneRot, PlaneRot, PlaneRot, PlaneRot),
    )
        requires
            old(self).bounded(),
            pivot.in_range(),
            rots.0.wf(),
            rots.1.wf(),
            rots.2.wf(),
            rots.3.wf(),
            rots.4.wf(),
            rots.5.wf(),
        ensures
            final(self).vertices@.len() == old(self).vertices@.len(),
            forall|i: int|
                0 <= i < old(self).vertices@.len() ==> final(self).vertices@[i] == rotate4(
                    old(self).vertices@[i],
                    *pivot,
                    rots.0,
                    rots.1,
                    rots.2,
                    rots.3,
                    rots.4,
                    rots.5,
                ),
            final(self).edges == old(self).edges,
            final(self).center == old(self).center,
    {
        let n = self.vertices.len();
        let mut i: usize = 0;
        while i < n
            invariant
                self.vertices@.len() == n,
                forall|j: int|
                    0 <= j < i ==> self.vertices@[j] == rotate4(
                        old(self).vertices@[j],
                        *pivot,
                        rots.0,
                        rots.1,
                        rots.2,
                        rots.3,
                        rots.4,
                        rots.5,
                    ),
                forall|j: int| i <= j < n ==> self.vertices@[j] == old(self).vertices@[j],
                self.edges == old(self).edges,
                self.center == old(self).center,
            decreases n - i,
        {
            let v = self.vertices[i];
            let nv = Self::rotate_vertex(v, pivot, rots);
            self.vertices.set(i, nv);
            i += 1;
        }
    }

    /// Projects the shape down to three dimensions by dropping every
    /// vertex's fourth coordinate; the edge list is copied unchanged, in
    /// content and order. No scaling or perspective is applied.
    #[verifier::loop_isolation(false)]
    pub fn project_to_3d(&self) -> (r: Shape)
        ensures
            r.vertices@.len() == self.vertices@.len(),
            forall|i: int|
                0 <= i < self.vertices@.len() ==> #[trigger] r.vertices@[i] == Point(
                    self.vertices@[i].0,
                    self.vertices@[i].1,
                    self.vertices@[i].2,
                ),
            r.edges@ == self.edges@,
            r.faces@.len() == 0,
            r.center is None,
    {
        let mut vertices: Vec<Point> = Vec::new();
        let mut i: usize = 0;
        while i < self.vertices.len()
            invariant
                i <= self.vertices@.len(),
                vertices@.len() == i,
                forall|j: int|
                    0 <= j < i ==> #[trigger] vertices@[j] == Point(
                        self.vertices@[j].0,
                        self.vertices@[j].1,
                        self.vertices@[j].2,
                    ),
            decreases self.vertices@.len() - i,
        {
            let v = self.vertices[i];
            vertices.push(Point(v.0, v.1, v.2));
            i += 1;
        }
        let mut edges: Vec<Edge> = Vec::new();
        let mut i: usize = 0;
        while i < self.edges.len()
            invariant
                i <= self.edges@.len(),
                edges@.len() == i,
                forall|j: int| 0 <= j < i ==> edges@[j] == self.edges@[j],
            decreases self.edges@.len() - i,
        {
            let e = &self.edges[i];
            edges.push(Edge(e.0, e.1));
            i += 1;
        }
        proof {
            assert(edges@ =~= self.edges@);
        }
        Shape { vertices, edges, faces: Vec::new(), center: None }
    }
}

} // verus!
