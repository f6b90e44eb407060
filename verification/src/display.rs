//! The camera and depth-buffered rasterizer: a pixel grid, a camera
//! position with an orthonormal frame and a focal length, perspective
//! projection of world points to pixels, and the depth-priority write
//! rule that resolves two samples landing on the same pixel.

use crate::fixed::{
    div_round, div_round_i128, div_tz, div_tz_i128, lemma_div_tz_bound, lemma_mul_bounds,
    MAX_COORD, UNIT, VERTEX_DENSITY,
};
use crate::point::{spec_basis, Point};
use crate::shape::{Edge, Shape};
use vstd::arithmetic::div_mod::lemma_fundamental_div_mod_converse;
use vstd::arithmetic::mul::{lemma_mul_is_commutative, lemma_mul_is_distributive_add_other_way};
use vstd::prelude::*;

verus! {

/// Largest focal length the camera accepts (one million world units):
/// keeps the perspective-divide numerator inside an `i128`.
pub const FOCAL_LIMIT: i64 = 1_000_000_000_000;

/// Color paired with an occupied cell in the flat render output.
pub const RENDER_FG: u32 = 0x00FE_0000;

/// Color paired with an empty cell in the flat render output.
pub const RENDER_BG: u32 = 0x000A_0A0A;

/// A character-cell display: a depth buffer of `y_size` rows by
/// `x_size` columns, a camera position, the camera's orthonormal frame
/// `(forward, right, up)`, and a focal length. The buffer is fully
/// rebuilt by every render pass.
pub struct Display {
    pub x_size: usize,
    pub y_size: usize,
    pub pixels: Vec<Vec<Option<i64>>>,
    pub cam_pos: Point,
    pub cam_unit_vectors: (Point, Point, Point),
    pub cam_focal: i64,
}

/// One empty depth-buffer row.
pub open spec fn empty_row(x: nat) -> Seq<Option<i64>> {
    Seq::new(x, |j: int| None)
}

/// An empty depth buffer of the given dimensions.
pub open spec fn empty_grid(x: nat, y: nat) -> Seq<Seq<Option<i64>>> {
    Seq::new(y, |i: int| empty_row(x))
}

/// The depth-priority write rule for one cell: an empty cell takes the
/// new depth; an occupied cell is overwritten only when the new depth
/// is strictly greater, so the farther sample wins.
pub open spec fn merge_depth(cur: Option<i64>, d: i64) -> Option<i64> {
    match cur {
        None => Some(d),
        Some(k) => if d > k {
            Some(d)
        } else {
            Some(k)
        },
    }
}

/// The grid after writing depth `d` at row `y`, column `x` under the
/// depth-priority rule.
pub open spec fn write_cell(g: Seq<Seq<Option<i64>>>, y: int, x: int, d: i64) -> Seq<
    Seq<Option<i64>>,
> {
    g.update(y, g[y].update(x, merge_depth(g[y][x], d)))
}

/// The point sample at parameter `c` of [`VERTEX_DENSITY`] along the
/// edge from `a` to `b`: `a + (b - a) * c / VERTEX_DENSITY`, each
/// coordinate rounded toward zero.
pub open spec fn edge_sample(a: Point, b: Point, c: int) -> Point {
    Point(
        (a.0 + div_tz((b.0 - a.0) * c, VERTEX_DENSITY as int)) as i64,
        (a.1 + div_tz((b.1 - a.1) * c, VERTEX_DENSITY as int)) as i64,
        (a.2 + div_tz((b.2 - a.2) * c, VERTEX_DENSITY as int)) as i64,
    )
}

impl Display {
    /// The depth buffer as a sequence of rows.
    pub open spec fn grid(self) -> Seq<Seq<Option<i64>>> {
        self.pixels@.map_values(|row: Vec<Option<i64>>| row@)
    }

    /// Well-formed: the buffer has the declared dimensions and the
    /// camera state is within the engine's ranges (frame coordinates at
    /// most [`UNIT`], as normalization produces them).
    pub open spec fn wf(self) -> bool {
        &&& self.pixels@.len() == self.y_size
        &&& forall|i: int|
            0 <= i < self.y_size ==> (#[trigger] self.pixels@[i])@.len() == self.x_size
        &&& self.cam_pos.in_range()
        &&& frame_vec_ok(self.cam_unit_vectors.0)
        &&& frame_vec_ok(self.cam_unit_vectors.1)
        &&& frame_vec_ok(self.cam_unit_vectors.2)
        &&& -FOCAL_LIMIT <= self.cam_focal <= FOCAL_LIMIT
    }

    /// The camera-forward component of `p` relative to the camera,
    /// scaled by [`UNIT`]: positive exactly when `p` lies in front of
    /// the camera.
    pub open spec fn depth_dot(self, p: Point) -> int {
        rel_dot(p, self.cam_pos, self.cam_unit_vectors.0)
    }

    /// The camera-right component of `p` relative to the camera, scaled
    /// by [`UNIT`].
    pub open spec fn x_dot(self, p: Point) -> int {
        rel_dot(p, self.cam_pos, self.cam_unit_vectors.1)
    }

    /// The camera-up component of `p` relative to the camera, scaled by
    /// [`UNIT`].
    pub open spec fn y_dot(self, p: Point) -> int {
        rel_dot(p, self.cam_pos, self.cam_unit_vectors.2)
    }

    /// The column `p` projects to: the perspective divide
    /// `focal * x_cam / depth`, rounded to the nearest integer, plus
    /// half the display width.
    pub open spec fn px_of(self, p: Point) -> int {
        div_round(self.cam_focal * self.x_dot(p), self.depth_dot(p) * UNIT) + self.x_size / 2
    }

    /// The row `p` projects to, with the row index growing along the
    /// camera-up component.
    pub open spec fn py_of(self, p: Point) -> int {
        div_round(self.cam_focal * self.y_dot(p), self.depth_dot(p) * UNIT) + self.y_size / 2
    }

    /// The depth stored for `p`: its forward component in fixed-point
    /// coordinates (the [`UNIT`] scale divided back out, toward zero).
    pub open spec fn depth_val(self, p: Point) -> int {
        div_tz(self.depth_dot(p), UNIT as int)
    }

    /// Whether `p` produces a pixel at all: it must lie strictly in
    /// front of the camera and project inside the grid.
    pub open spec fn visible(self, p: Point) -> bool {
        self.depth_dot(p) > 0 && 0 <= self.px_of(p) < self.x_size && 0 <= self.py_of(p)
            < self.y_size
    }

    /// The grid after projecting the single point `p`: unchanged when
    /// `p` is culled or lands outside the grid, otherwise one cell
    /// written under the depth-priority rule.
    pub open spec fn proj_point(self, g: Seq<Seq<Option<i64>>>, p: Point) -> Seq<Seq<Option<i64>>> {
        if self.visible(p) {
            write_cell(g, self.py_of(p), self.px_of(p), self.depth_val(p) as i64)
        } else {
            g
        }
    }

    /// The grid after projecting the first `n` points of `vs`, in
    /// order.
    pub open spec fn proj_points_upto(
        self,
        g: Seq<Seq<Option<i64>>>,
        vs: Seq<Point>,
        n: int,
    ) -> Seq<Seq<Option<i64>>>
        decreases n,
    {
        if n <= 0 {
            g
        } else {
            self.proj_point(self.proj_points_upto(g, vs, n - 1), vs[n - 1])
        }
    }

    /// The grid after projecting the first `n` samples of the edge from
    /// `a` to `b`, in order.
    pub open spec fn proj_edge_upto(
        self,
        g: Seq<Seq<Option<i64>>>,
        a: Point,
        b: Point,
        n: int,
    ) -> Seq<Seq<Option<i64>>>
        decreases n,
    {
        if n <= 0 {
            g
        } else {
            self.proj_point(self.proj_edge_upto(g, a, b, n - 1), edge_sample(a, b, n - 1))
        }
    }

    /// The grid after rasterizing the first `n` edges of `es`, each as
    /// [`VERTEX_DENSITY`] point samples, in order.
    pub open spec fn proj_edges_upto(
        self,
        g: Seq<Seq<Option<i64>>>,
        vs: Seq<Point>,
        es: Seq<Edge>,
        n: int,
    ) -> Seq<Seq<Option<i64>>>
        decreases n,
    {
        if n <= 0 {
            g
        } else {
            self.proj_edge_upto(
                self.proj_edges_upto(g, vs, es, n - 1),
                vs[es[n - 1].0 as int],
                vs[es[n - 1].1 as int],
                VERTEX_DENSITY as int,
            )
        }
    }

    /// The complete render pass: an empty grid, then every vertex
    /// projected in order, then every edge rasterized in order.
    pub open spec fn render_grid(self, vs: Seq<Point>, es: Seq<Edge>) -> Seq<Seq<Option<i64>>> {
        self.proj_edges_upto(
            self.proj_points_upto(
                empty_grid(self.x_size as nat, self.y_size as nat),
                vs,
                vs.len() as int,
            ),
            vs,
            es,
            es.len() as int,
        )
    }
}

/// The dot product of `p - origin` with `axis`, over the integers.
pub open spec fn rel_dot(p: Point, origin: Point, axis: Point) -> int {
    (p.0 - origin.0) * axis.0 + (p.1 - origin.1) * axis.1 + (p.2 - origin.2) * axis.2
}

/// A camera-frame vector: every coordinate at most [`UNIT`] in
/// magnitude.
pub open spec fn frame_vec_ok(v: Point) -> bool {
    -UNIT <= v.0 <= UNIT && -UNIT <= v.1 <= UNIT && -UNIT <= v.2 <= UNIT
}

/// A point the projector accepts: every coordinate within three times
/// the engine's coordinate range, which admits every edge sample of a
/// bounded shape.
pub open spec fn projectable(p: Point) -> bool {
    -3 * MAX_COORD <= p.0 <= 3 * MAX_COORD && -3 * MAX_COORD <= p.1 <= 3 * MAX_COORD && -3
        * MAX_COORD <= p.2 <= 3 * MAX_COORD
}

/// A world point on or behind the camera plane (forward component not
/// positive) never changes the grid: behind-plane culling.
pub proof fn lemma_behind_camera_invisible(d: Display, g: Seq<Seq<Option<i64>>>, p: Point)
    requires
        d.depth_dot(p) <= 0,
    ensures
        d.proj_point(g, p) == g,
{
}

/// The depth-priority rule for two samples on the same pixel: when two
/// visible points land on the same cell of an empty grid, the cell
/// ends up holding the larger depth — the farther sample wins,
/// whichever order they are written in.
pub proof fn lemma_farther_wins(d: Display, g: Seq<Seq<Option<i64>>>, p: Point, q: Point)
    requires
        d.visible(p),
        d.visible(q),
        i64::MIN <= d.depth_val(p) <= i64::MAX,
        i64::MIN <= d.depth_val(q) <= i64::MAX,
        d.px_of(p) == d.px_of(q),
        d.py_of(p) == d.py_of(q),
        0 <= d.py_of(p) < g.len(),
        0 <= d.px_of(p) < g[d.py_of(p)].len(),
        g[d.py_of(p)][d.px_of(p)] is None,
    ensures
        d.proj_point(d.proj_point(g, p), q)[d.py_of(p)][d.px_of(p)] == Some(
            (if d.depth_val(p) >= d.depth_val(q) {
                d.depth_val(p)
            } else {
                d.depth_val(q)
            }) as i64,
        ),
{
    let y = d.py_of(p);
    let x = d.px_of(p);
    let g1 = d.proj_point(g, p);
    assert(g1[y][x] == Some(d.depth_val(p) as i64));
    assert(d.proj_point(g1, q)[y][x] == merge_depth(g1[y][x], d.depth_val(q) as i64));
}

impl Display {
    /// Builds a display: an all-empty depth buffer of the given size
    /// and a camera at `cam_pos` looking along `cam_direction`, whose
    /// orthonormal frame is derived once, here. Returns `None` exactly
    /// when the frame derivation degenerates (in particular for the
    /// zero direction).
    #[verifier::loop_isolation(false)]
    pub fn new(
        x_size: usize,
        y_size: usize,
        cam_pos: Point,
        cam_direction: Point,
        cam_focal: i64,
    ) -> (r: Option<Display>)
        requires
            cam_pos.in_range(),
            cam_direction.in_range(),
            -FOCAL_LIMIT <= cam_focal <= FOCAL_LIMIT,
        ensures
            r is Some <==> spec_basis(cam_direction) is Some,
            r matches Some(d) ==> {
                &&& d.wf()
                &&& d.x_size == x_size
                &&& d.y_size == y_size
                &&& d.cam_pos == cam_pos
                &&& Some(d.cam_unit_vectors) == spec_basis(cam_direction)
                &&& d.cam_focal == cam_focal
                &&& d.grid() == empty_grid(x_size as nat, y_size as nat)
            },
    {
        let basis = match cam_direction.orthogonal_basis() {
            Some(b) => b,
            None => {
                return None;
            },
        };
        let mut pixels: Vec<Vec<Option<i64>>> = Vec::new();
        let mut y: usize = 0;
        while y < y_size
            invariant
                y <= y_size,
                pixels@.len() == y,
                forall|i: int| 0 <= i < y ==> (#[trigger] pixels@[i])@ == empty_row(x_size as nat),
            decreases y_size - y,
        {
            let mut row: Vec<Option<i64>> = Vec::new();
            let mut x: usize = 0;
            while x < x_size
                invariant
                    x <= x_size,
                    row@.len() == x,
                    forall|j: int| 0 <= j < x ==> (#[trigger] row@[j]) is None,
                decreases x_size - x,
            {
                row.push(None);
                x += 1;
            }
            proof {
                assert(row@ =~= empty_row(x_size as nat));
            }
            pixels.push(row);
            y += 1;
        }
        let d = Display {
            x_size,
            y_size,
            pixels,
            cam_pos,
            cam_unit_vectors: basis,
            cam_focal,
        };
        proof {
            assert(d.grid() =~= empty_grid(x_size as nat, y_size as nat));
        }
        Some(d)
    }

    /// Projects one world point into the depth buffer: camera-relative
    /// components, behind-plane culling, perspective divide with
    /// round-to-nearest, bounds check, then the depth-priority write.
    /// The half-size centering offset is added after rounding, so the
    /// fractional half of an odd size is dropped.
    #[verifier::rlimit(50)]
    pub fn project_point(&mut self, point: &Point)
        requires
            old(self).wf(),
            projectable(*point),
        ensures
            final(self).grid() == old(self).proj_point(old(self).grid(), *point),
            final(self).wf(),
            final(self).x_size == old(self).x_size,
            final(self).y_size == old(self).y_size,
            final(self).cam_pos == old(self).cam_pos,
            final(self).cam_unit_vectors == old(self).cam_unit_vectors,
            final(self).cam_focal == old(self).cam_focal,
    {
        let rx = point.0 - self.cam_pos.0;
        let ry = point.1 - self.cam_pos.1;
        let rz = point.2 - self.cam_pos.2;
        proof {
            let m = 4 * MAX_COORD as int;
            lemma_mul_bounds(rx as int, self.cam_unit_vectors.0.0 as int, m, UNIT as int);
            lemma_mul_bounds(ry as int, self.cam_unit_vectors.0.1 as int, m, UNIT as int);
            lemma_mul_bounds(rz as int, self.cam_unit_vectors.0.2 as int, m, UNIT as int);
            lemma_mul_bounds(rx as int, self.cam_unit_vectors.1.0 as int, m, UNIT as int);
            lemma_mul_bounds(ry as int, self.cam_unit_vectors.1.1 as int, m, UNIT as int);
            lemma_mul_bounds(rz as int, self.cam_unit_vectors.1.2 as int, m, UNIT as int);
            lemma_mul_bounds(rx as int, self.cam_unit_vectors.2.0 as int, m, UNIT as int);
            lemma_mul_bounds(ry as int, self.cam_unit_vectors.2.1 as int, m, UNIT as int);
            lemma_mul_bounds(rz as int, self.cam_unit_vectors.2.2 as int, m, UNIT as int);
        }
        let zdot: i128 = rx as i128 * self.cam_unit_vectors.0.0 as i128 + ry as i128
            * self.cam_unit_vectors.0.1 as i128 + rz as i128 * self.cam_unit_vectors.0.2 as i128;
        if zdot <= 0 {
            return ;
        }
        let xdot: i128 = rx as i128 * self.cam_unit_vectors.1.0 as i128 + ry as i128
            * self.cam_unit_vectors.1.1 as i128 + rz as i128 * self.cam_unit_vectors.1.2 as i128;
        let ydot: i128 = rx as i128 * self.cam_unit_vectors.2.0 as i128 + ry as i128
            * self.cam_unit_vectors.2.1 as i128 + rz as i128 * self.cam_unit_vectors.2.2 as i128;
        proof {
            let span = 12 * MAX_COORD as int * UNIT as int;
            assert(0 < zdot <= span);
            lemma_mul_bounds(zdot as int, UNIT as int, span, UNIT as int);
            lemma_mul_bounds(self.cam_focal as int, xdot as int, FOCAL_LIMIT as int, span);
            lemma_mul_bounds(self.cam_focal as int, ydot as int, FOCAL_LIMIT as int, span);
        }
        let zu: i128 = zdot * UNIT as i128;
        let px: i128 = div_round_i128(self.cam_focal as i128 * xdot, zu) + (self.x_size
            / 2) as i128;
        let py: i128 = div_round_i128(self.cam_focal as i128 * ydot, zu) + (self.y_size
            / 2) as i128;
        if px < 0 || py < 0 {
            return ;
        }
        if px >= self.x_size as i128 || py >= self.y_size as i128 {
            return ;
        }
        let x = px as usize;
        let y = py as usize;
        proof {
            lemma_div_tz_bound(zdot as int, UNIT as int, 12 * MAX_COORD as int);
        }
        let d: i64 = div_tz_i128(zdot, UNIT as i128) as i64;
        let ghost oldgrid = self.grid();
        let row: &mut Vec<Option<i64>> = &mut self.pixels[y];
        let cur: Option<i64> = row[x];
        let nv: Option<i64> = match cur {
            None => Some(d),
            Some(k) => if d > k {
                Some(d)
            } else {
                Some(k)
            },
        };
        row.set(x, nv);
        proof {
            assert(self.grid() =~~= write_cell(oldgrid, py as int, px as int, d));
        }
    }
}

/// Two displays agree on everything the projection depends on: sizes,
/// camera position, frame, and focal length.
pub open spec fn same_camera(d1: Display, d2: Display) -> bool {
    d1.x_size == d2.x_size && d1.y_size == d2.y_size && d1.cam_pos == d2.cam_pos
        && d1.cam_unit_vectors == d2.cam_unit_vectors && d1.cam_focal == d2.cam_focal
}

/// Projection of one point depends only on the camera, not on the
/// depth buffer the display happens to hold.
proof fn lemma_same_camera_proj(d1: Display, d2: Display, g: Seq<Seq<Option<i64>>>, p: Point)
    requires
        same_camera(d1, d2),
    ensures
        d1.proj_point(g, p) == d2.proj_point(g, p),
{
    assert(d1.depth_dot(p) == d2.depth_dot(p));
    assert(d1.px_of(p) == d2.px_of(p));
    assert(d1.py_of(p) == d2.py_of(p));
}

proof fn lemma_same_camera_points_upto(
    d1: Display,
    d2: Display,
    g: Seq<Seq<Option<i64>>>,
    vs: Seq<Point>,
    n: int,
)
    requires
        same_camera(d1, d2),
    ensures
        d1.proj_points_upto(g, vs, n) == d2.proj_points_upto(g, vs, n),
    decreases n,
{
    if n > 0 {
        lemma_same_camera_points_upto(d1, d2, g, vs, n - 1);
        lemma_same_camera_proj(d1, d2, d1.proj_points_upto(g, vs, n - 1), vs[n - 1]);
    }
}

proof fn lemma_same_camera_edge_upto(
    d1: Display,
    d2: Display,
    g: Seq<Seq<Option<i64>>>,
    a: Point,
    b: Point,
    n: int,
)
    requires
        same_camera(d1, d2),
    ensures
        d1.proj_edge_upto(g, a, b, n) == d2.proj_edge_upto(g, a, b, n),
    decreases n,
{
    if n > 0 {
        lemma_same_camera_edge_upto(d1, d2, g, a, b, n - 1);
        lemma_same_camera_proj(d1, d2, d1.proj_edge_upto(g, a, b, n - 1), edge_sample(a, b, n - 1));
    }
}

proof fn lemma_same_camera_edges_upto(
    d1: Display,
    d2: Display,
    g: Seq<Seq<Option<i64>>>,
    vs: Seq<Point>,
    es: Seq<Edge>,
    n: int,
)
    requires
        same_camera(d1, d2),
    ensures
        d1.proj_edges_upto(g, vs, es, n) == d2.proj_edges_upto(g, vs, es, n),
    decreases n,
{
    if n > 0 {
        lemma_same_camera_edges_upto(d1, d2, g, vs, es, n - 1);
        lemma_same_camera_edge_upto(
            d1,
            d2,
            d1.proj_edges_upto(g, vs, es, n - 1),
            vs[es[n - 1].0 as int],
            vs[es[n - 1].1 as int],
            VERTEX_DENSITY as int,
        );
    }
}

/// The `(depth, color)` pair a depth-buffer cell flattens to: the
/// stored depth with the foreground color, or depth zero with the
/// background color for an empty cell.
pub open spec fn flat_cell(c: Option<i64>) -> (i64, u32) {
    match c {
        Some(p) => (p, RENDER_FG),
        None => (0i64, RENDER_BG),
    }
}

/// The glyph a depth-buffer cell prints as: a space when empty,
/// otherwise one of four characters by depth bucket, nearer samples
/// drawn heavier.
pub open spec fn glyph_of(c: Option<i64>) -> char {
    match c {
        None => ' ',
        Some(p) => if p < 10 * UNIT {
            '#'
        } else if p < 30 * UNIT {
            '*'
        } else if p < 50 * UNIT {
            '-'
        } else {
            '.'
        },
    }
}

impl Display {
    /// Projects every vertex of the list, in order.
    #[verifier::loop_isolation(false)]
    fn project_vertices(&mut self, vertices: &Vec<Point>)
        requires
            old(self).wf(),
            forall|i: int| 0 <= i < vertices@.len() ==> (#[trigger] vertices@[i]).in_range(),
        ensures
            final(self).grid() == old(self).proj_points_upto(
                old(self).grid(),
                vertices@,
                vertices@.len() as int,
            ),
            final(self).wf(),
            same_camera(*final(self), *old(self)),
    {
        let n = vertices.len();
        let mut i: usize = 0;
        while i < n
            invariant
                i <= n,
                self.wf(),
                same_camera(*self, *old(self)),
                self.grid() == old(self).proj_points_upto(old(self).grid(), vertices@, i as int),
            decreases n - i,
        {
            let p = vertices[i];
            let ghost pre = *self;
            self.project_point(&p);
            proof {
                lemma_same_camera_proj(pre, *old(self), pre.grid(), p);
            }
            i += 1;
        }
    }

    /// Rasterizes every edge, in order, as [`VERTEX_DENSITY`] point
    /// samples between its two endpoints (the parameter runs from zero
    /// up to, but not including, one).
    #[verifier::loop_isolation(false)]
    fn project_edges(&mut self, vertices: &Vec<Point>, edges: &Vec<Edge>)
        requires
            old(self).wf(),
            forall|i: int| 0 <= i < vertices@.len() ==> (#[trigger] vertices@[i]).in_range(),
            forall|i: int|
                0 <= i < edges@.len() ==> (#[trigger] edges@[i]).0 < vertices@.len()
                    && edges@[i].1 < vertices@.len(),
        ensures
            final(self).grid() == old(self).proj_edges_upto(
                old(self).grid(),
                vertices@,
                edges@,
                edges@.len() as int,
            ),
            final(self).wf(),
            same_camera(*final(self), *old(self)),
    {
        let m = edges.len();
        let mut i: usize = 0;
        while i < m
            invariant
                i <= m,
                self.wf(),
                same_camera(*self, *old(self)),
                self.grid() == old(self).proj_edges_upto(
                    old(self).grid(),
                    vertices@,
                    edges@,
                    i as int,
                ),
            decreases m - i,
        {
            let e = &edges[i];
            let a = vertices[e.0];
            let b = vertices[e.1];
            let ghost gstart = self.grid();
            let mut c: usize = 0;
            while c < VERTEX_DENSITY
                invariant
                    c <= VERTEX_DENSITY,
                    self.wf(),
                    same_camera(*self, *old(self)),
                    self.grid() == old(self).proj_edge_upto(gstart, a, b, c as int),
                decreases VERTEX_DENSITY - c,
            {
                proof {
                    lemma_mul_bounds(
                        b.0 - a.0,
                        c as int,
                        2 * MAX_COORD as int,
                        VERTEX_DENSITY as int,
                    );
                    lemma_mul_bounds(
                        b.1 - a.1,
                        c as int,
                        2 * MAX_COORD as int,
                        VERTEX_DENSITY as int,
                    );
                    lemma_mul_bounds(
                        b.2 - a.2,
                        c as int,
                        2 * MAX_COORD as int,
                        VERTEX_DENSITY as int,
                    );
                    lemma_div_tz_bound(
                        (b.0 - a.0) * c as int,
                        VERTEX_DENSITY as int,
                        2 * MAX_COORD as int,
                    );
                    lemma_div_tz_bound(
                        (b.1 - a.1) * c as int,
                        VERTEX_DENSITY as int,
                        2 * MAX_COORD as int,
                    );
                    lemma_div_tz_bound(
                        (b.2 - a.2) * c as int,
                        VERTEX_DENSITY as int,
                        2 * MAX_COORD as int,
                    );
                }
                let sx: i64 = a.0 + div_tz_i128(
                    (b.0 - a.0) as i128 * c as i128,
                    VERTEX_DENSITY as i128,
                ) as i64;
                let sy: i64 = a.1 + div_tz_i128(
                    (b.1 - a.1) as i128 * c as i128,
                    VERTEX_DENSITY as i128,
                ) as i64;
                let sz: i64 = a.2 + div_tz_i128(
                    (b.2 - a.2) as i128 * c as i128,
                    VERTEX_DENSITY as i128,
                ) as i64;
                let sample = Point(sx, sy, sz);
                proof {
                    assert(sample == edge_sample(a, b, c as int));
                }
                let ghost pre = *self;
                self.project_point(&sample);
                proof {
                    lemma_same_camera_proj(pre, *old(self), pre.grid(), sample);
                }
                c += 1;
            }
            i += 1;
        }
    }

    /// One full projection pass: clears the depth buffer, then projects
    /// every vertex and rasterizes every edge of the shape.
    #[verifier::loop_isolation(false)]
    fn project(&mut self, shape: &Shape)
        requires
            old(self).wf(),
            shape.bounded(),
            shape.edges_valid(),
        ensures
            final(self).grid() == old(self).render_grid(shape.vertices@, shape.edges@),
            final(self).wf(),
            same_camera(*final(self), *old(self)),
    {
        let mut pixels: Vec<Vec<Option<i64>>> = Vec::new();
        let mut y: usize = 0;
        while y < self.y_size
            invariant
                y <= self.y_size,
                pixels@.len() == y,
                forall|i: int|
                    0 <= i < y ==> (#[trigger] pixels@[i])@ == empty_row(self.x_size as nat),
            decreases self.y_size - y,
        {
            let mut row: Vec<Option<i64>> = Vec::new();
            let mut x: usize = 0;
            while x < self.x_size
                invariant
                    x <= self.x_size,
                    row@.len() == x,
                    forall|j: int| 0 <= j < x ==> (#[trigger] row@[j]) is None,
                decreases self.x_size - x,
            {
                row.push(None);
                x += 1;
            }
            proof {
                assert(row@ =~= empty_row(self.x_size as nat));
            }
            pixels.push(row);
            y += 1;
        }
        self.pixels = pixels;
        proof {
            assert(self.grid() =~= empty_grid(self.x_size as nat, self.y_size as nat));
        }
        let ghost cleared = *self;
        self.project_vertices(&shape.vertices);
        let ghost dotted = *self;
        self.project_edges(&shape.vertices, &shape.edges);
        proof {
            lemma_same_camera_points_upto(
                cleared,
                *old(self),
                cleared.grid(),
                shape.vertices@,
                shape.vertices@.len() as int,
            );
            lemma_same_camera_edges_upto(
                dotted,
                *old(self),
                dotted.grid(),
                shape.vertices@,
                shape.edges@,
                shape.edges@.len() as int,
            );
        }
    }

    /// Renders the shape and returns the depth buffer flattened
    /// row-major into `(depth, color)` pairs: the stored depth with the
    /// foreground color for an occupied cell, depth zero with the
    /// background color otherwise.
    #[verifier::loop_isolation(false)]
    pub fn render(&mut self, shape: &Shape) -> (result: Vec<(i64, u32)>)
        requires
            old(self).wf(),
            old(self).x_size * old(self).y_size <= usize::MAX,
            shape.bounded(),
            shape.edges_valid(),
        ensures
            final(self).grid() == old(self).render_grid(shape.vertices@, shape.edges@),
            final(self).wf(),
            same_camera(*final(self), *old(self)),
            result@.len() == old(self).x_size * old(self).y_size,
            forall|idx: int|
                0 <= idx < result@.len() ==> #[trigger] result@[idx] == flat_cell(
                    final(self).grid()[idx / (old(self).x_size as int)][idx % (
                    old(self).x_size as int)],
                ),
    {
        self.project(shape);
        let xs = self.x_size;
        let mut result: Vec<(i64, u32)> = Vec::new();
        let mut y: usize = 0;
        while y < self.y_size
            invariant
                y <= self.y_size,
                xs == self.x_size,
                result@.len() == y * xs,
                forall|idx: int|
                    0 <= idx < result@.len() ==> #[trigger] result@[idx] == flat_cell(
                        self.grid()[idx / (xs as int)][idx % (xs as int)],
                    ),
            decreases self.y_size - y,
        {
            let row = &self.pixels[y];
            let mut x: usize = 0;
            while x < xs
                invariant
                    x <= xs,
                    y < self.y_size,
                    row == &self.pixels[y as int],
                    result@.len() == y * xs + x,
                    forall|idx: int|
                        0 <= idx < result@.len() ==> #[trigger] result@[idx] == flat_cell(
                            self.grid()[idx / (xs as int)][idx % (xs as int)],
                        ),
                decreases xs - x,
            {
                let cell: Option<i64> = row[x];
                let v: (i64, u32) = match cell {
                    None => (0, RENDER_BG),
                    Some(p) => (p, RENDER_FG),
                };
                proof {
                    lemma_fundamental_div_mod_converse(
                        y * xs + x,
                        xs as int,
                        y as int,
                        x as int,
                    );
                    assert(self.grid()[y as int] == self.pixels@[y as int]@);
                }
                result.push(v);
                x += 1;
            }
            proof {
                lemma_mul_is_distributive_add_other_way(xs as int, y as int, 1);
            }
            y += 1;
        }
        proof {
            lemma_mul_is_commutative(self.y_size as int, xs as int);
        }
        result
    }

    /// Renders the shape and returns the depth buffer as rows of
    /// glyphs, one character per cell, with depth binned into four
    /// buckets and empty cells drawn as spaces.
    #[verifier::loop_isolation(false)]
    pub fn render_rows(&mut self, shape: &Shape) -> (rows: Vec<Vec<char>>)
        requires
            old(self).wf(),
            shape.bounded(),
            shape.edges_valid(),
        ensures
            final(self).grid() == old(self).render_grid(shape.vertices@, shape.edges@),
            final(self).wf(),
            same_camera(*final(self), *old(self)),
            rows@.len() == old(self).y_size,
            forall|yy: int|
                0 <= yy < rows@.len() ==> (#[trigger] rows@[yy])@.len() == old(self).x_size,
            forall|yy: int, xx: int|
                0 <= yy < rows@.len() && 0 <= xx < old(self).x_size ==> (#[trigger] rows@[yy]@[xx])
                    == glyph_of(final(self).grid()[yy][xx]),
    {
        self.project(shape);
        let xs = self.x_size;
        let mut rows: Vec<Vec<char>> = Vec::new();
        let mut y: usize = 0;
        while y < self.y_size
            invariant
                y <= self.y_size,
                xs == self.x_size,
                rows@.len() == y,
                forall|yy: int| 0 <= yy < y ==> (#[trigger] rows@[yy])@.len() == xs,
                forall|yy: int, xx: int|
                    0 <= yy < y && 0 <= xx < xs ==> (#[trigger] rows@[yy]@[xx]) == glyph_of(
                        self.grid()[yy][xx],
                    ),
            decreases self.y_size - y,
        {
            let row = &self.pixels[y];
            let mut out: Vec<char> = Vec::new();
            let mut x: usize = 0;
            while x < xs
                invariant
                    x <= xs,
                    y < self.y_size,
                    row == &self.pixels[y as int],
                    out@.len() == x,
                    forall|xx: int|
                        0 <= xx < x ==> (#[trigger] out@[xx]) == glyph_of(
                            self.grid()[y as int][xx],
                        ),
                decreases xs - x,
            {
                let cell: Option<i64> = row[x];
                let g: char = match cell {
                    None => ' ',
                    Some(p) => if p < 10 * UNIT {
                        '#'
                    } else if p < 30 * UNIT {
                        '*'
                    } else if p < 50 * UNIT {
                        '-'
                    } else {
                        '.'
                    },
                };
                proof {
                    assert(self.grid()[y as int] == self.pixels@[y as int]@);
                }
                out.push(g);
                x += 1;
            }
            rows.push(out);
            y += 1;
        }
        rows
    }
}

} // verus!
