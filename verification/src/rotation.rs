//! Planar rotations in fixed point: a rotor type holding a scaled cosine
//! and sine, the single-plane rotation step, and the laws the step obeys
//! (exact isometry before rounding, angle addition, and norm
//! non-increase after rounding).

use crate::fixed::{
    abs_val, div_tz, div_tz_i128, lemma_div_tz_bound, lemma_div_tz_exact, lemma_div_tz_square,
    lemma_mul_bounds, MAX_COORD, UNIT,
};
use crate::point::{Point, Point4};
use vstd::arithmetic::mul::{
    lemma_mul_inequality, lemma_mul_inequality_converse, lemma_mul_is_associative,
    lemma_mul_is_commutative, lemma_mul_is_distributive_add,
    lemma_mul_is_distributive_add_other_way, lemma_mul_is_distributive_sub,
    lemma_mul_is_distributive_sub_other_way,
};
use vstd::prelude::*;

verus! {

/// Largest coordinate magnitude accepted by a single planar rotation
/// step. Every step at most doubles a coordinate's magnitude, so starting
/// from coordinates within [`MAX_COORD`] of a pivot, six chained steps
/// stay far inside this span.
pub const ROT_SPAN: i64 = 2_000_000_000_000_000_000;

/// A planar rotor: the cosine and sine of a rotation angle, scaled by
/// [`UNIT`] and truncated toward zero. Truncation keeps the pair on or
/// inside the fixed-point unit circle, which is all the engine needs.
#[derive(Debug, Clone, Copy, PartialEq, Eq, Structural)]
pub struct PlaneRot {
    pub c: i64,
    pub s: i64,
}

impl PlaneRot {
    /// The pair lies on or inside the fixed-point unit circle.
    pub open spec fn wf(self) -> bool {
        self.c * self.c + self.s * self.s <= UNIT * UNIT
    }

    /// Builds a rotor from a scaled cosine and sine; rejects pairs
    /// outside the fixed-point unit circle.
    pub fn new(c: i64, s: i64) -> (r: Option<PlaneRot>)
        ensures
            r is Some <==> c * c + s * s <= UNIT * UNIT,
            r matches Some(p) ==> p == (PlaneRot { c, s }) && p.wf(),
    {
        proof {
            lemma_mul_bounds(c as int, c as int, 0x8000_0000_0000_0000, 0x8000_0000_0000_0000);
            lemma_mul_bounds(s as int, s as int, 0x8000_0000_0000_0000, 0x8000_0000_0000_0000);
            assert(0 <= c * c) by (nonlinear_arith);
            assert(0 <= s * s) by (nonlinear_arith);
        }
        let cc: i128 = c as i128 * c as i128;
        let ss: i128 = s as i128 * s as i128;
        if cc <= UNIT as i128 * UNIT as i128 - ss {
            Some(PlaneRot { c, s })
        } else {
            None
        }
    }

    /// The rotation by angle zero.
    pub fn identity() -> (r: PlaneRot)
        ensures
            r == (PlaneRot { c: UNIT, s: 0i64 }),
            r.wf(),
    {
        PlaneRot { c: UNIT, s: 0 }
    }

    /// A quarter turn: cosine zero, sine one.
    pub fn quarter_turn() -> (r: PlaneRot)
        ensures
            r == (PlaneRot { c: 0i64, s: UNIT }),
            r.wf(),
    {
        PlaneRot { c: 0, s: UNIT }
    }
}

/// First coordinate of a planar rotation of `(u, v)` by the rotor
/// `(c, s)`, before rescaling: `u*c + v*s`.
pub open spec fn rot_u(u: int, v: int, c: int, s: int) -> int {
    u * c + v * s
}

/// Second coordinate of a planar rotation before rescaling:
/// `v*c - u*s`.
pub open spec fn rot_v(u: int, v: int, c: int, s: int) -> int {
    v * c - u * s
}

/// First coordinate of the fixed-point planar rotation: the unscaled
/// rotation divided by [`UNIT`], rounded toward zero.
pub open spec fn rot_u_fx(u: int, v: int, c: int, s: int) -> int {
    div_tz(rot_u(u, v, c, s), UNIT as int)
}

/// Second coordinate of the fixed-point planar rotation.
pub open spec fn rot_v_fx(u: int, v: int, c: int, s: int) -> int {
    div_tz(rot_v(u, v, c, s), UNIT as int)
}

/// A rotor's components are at most [`UNIT`] in magnitude.
pub proof fn lemma_rot_components(r: PlaneRot)
    requires
        r.wf(),
    ensures
        -UNIT <= r.c <= UNIT,
        -UNIT <= r.s <= UNIT,
{
    assert(-UNIT <= r.c <= UNIT && -UNIT <= r.s <= UNIT) by (nonlinear_arith)
        requires
            r.c * r.c + r.s * r.s <= UNIT * UNIT,
            UNIT == 1_000_000,
    ;
}

/// A planar rotation is an isometry, up to the rotor's own squared
/// length: before rescaling, the squared norm of the rotated pair equals
/// the squared norm of the input pair times `c*c + s*s`. With a rotor on
/// the fixed-point unit circle (`c*c + s*s == UNIT*UNIT`), the squared
/// norm is scaled by exactly `UNIT*UNIT`.
pub proof fn lemma_plane_rotation_isometric(u: int, v: int, c: int, s: int)
    ensures
        rot_u(u, v, c, s) * rot_u(u, v, c, s) + rot_v(u, v, c, s) * rot_v(u, v, c, s) == (u * u + v
            * v) * (c * c + s * s),
{
    let a = u * c;
    let b = v * s;
    let d = v * c;
    let e = u * s;
    lemma_mul_is_distributive_add_other_way(a + b, a, b);
    lemma_mul_is_distributive_add(a, a, b);
    lemma_mul_is_distributive_add(b, a, b);
    lemma_mul_is_commutative(b, a);
    lemma_mul_is_distributive_sub_other_way(d - e, d, e);
    lemma_mul_is_distributive_sub(d, d, e);
    lemma_mul_is_distributive_sub(e, d, e);
    lemma_mul_is_commutative(e, d);
    assert((u * c) * (u * c) == (u * u) * (c * c)) by (nonlinear_arith);
    assert((v * s) * (v * s) == (v * v) * (s * s)) by (nonlinear_arith);
    assert((v * c) * (v * c) == (v * v) * (c * c)) by (nonlinear_arith);
    assert((u * s) * (u * s) == (u * u) * (s * s)) by (nonlinear_arith);
    assert((u * c) * (v * s) == (v * c) * (u * s)) by (nonlinear_arith);
    lemma_mul_is_distributive_add_other_way(c * c + s * s, u * u, v * v);
    lemma_mul_is_distributive_add(u * u, c * c, s * s);
    lemma_mul_is_distributive_add(v * v, c * c, s * s);
}

/// Rotating by one rotor and then by a second, without intermediate
/// rescaling, equals one rotation by the product rotor
/// `(c1*c2 - s1*s2, s1*c2 + c1*s2)` — the angle-addition law. Two
/// successive rotations in the same plane therefore compose to a single
/// rotation by the summed angle; the fixed-point versions differ from
/// this only by the rounding of each step.
pub proof fn lemma_plane_rotations_compose(u: int, v: int, c1: int, s1: int, c2: int, s2: int)
    ensures
        rot_u(rot_u(u, v, c1, s1), rot_v(u, v, c1, s1), c2, s2) == rot_u(
            u,
            v,
            c1 * c2 - s1 * s2,
            s1 * c2 + c1 * s2,
        ),
        rot_v(rot_u(u, v, c1, s1), rot_v(u, v, c1, s1), c2, s2) == rot_v(
            u,
            v,
            c1 * c2 - s1 * s2,
            s1 * c2 + c1 * s2,
        ),
{
    lemma_mul_is_distributive_add_other_way(c2, u * c1, v * s1);
    lemma_mul_is_distributive_sub_other_way(s2, v * c1, u * s1);
    lemma_mul_is_distributive_sub_other_way(c2, v * c1, u * s1);
    lemma_mul_is_distributive_add_other_way(s2, u * c1, v * s1);
    lemma_mul_is_associative(u, c1, c2);
    lemma_mul_is_associative(v, s1, c2);
    lemma_mul_is_associative(v, c1, s2);
    lemma_mul_is_associative(u, s1, s2);
    lemma_mul_is_associative(v, c1, c2);
    lemma_mul_is_associative(u, s1, c2);
    lemma_mul_is_associative(u, c1, s2);
    lemma_mul_is_associative(v, s1, s2);
    lemma_mul_is_distributive_sub(u, c1 * c2, s1 * s2);
    lemma_mul_is_distributive_add(v, s1 * c2, c1 * s2);
    lemma_mul_is_distributive_sub(v, c1 * c2, s1 * s2);
    lemma_mul_is_distributive_add(u, s1 * c2, c1 * s2);
}

/// Bounds for one fixed-point planar step: each output coordinate is
/// bounded by twice the input bound, and the squared norm of the pair
/// does not increase.
pub proof fn lemma_rot_fx_bounds(u: int, v: int, c: int, s: int, m: int)
    requires
        c * c + s * s <= UNIT * UNIT,
        0 <= m,
        -m <= u <= m,
        -m <= v <= m,
    ensures
        -2 * m <= rot_u_fx(u, v, c, s) <= 2 * m,
        -2 * m <= rot_v_fx(u, v, c, s) <= 2 * m,
        rot_u_fx(u, v, c, s) * rot_u_fx(u, v, c, s) + rot_v_fx(u, v, c, s) * rot_v_fx(u, v, c, s)
            <= u * u + v * v,
{
    let nu = rot_u(u, v, c, s);
    let nv = rot_v(u, v, c, s);
    let k = (UNIT * UNIT) as int;
    assert(-UNIT <= c <= UNIT && -UNIT <= s <= UNIT) by (nonlinear_arith)
        requires
            c * c + s * s <= UNIT * UNIT,
            UNIT == 1_000_000,
    ;
    lemma_mul_bounds(u, c, m, UNIT as int);
    lemma_mul_bounds(v, s, m, UNIT as int);
    lemma_mul_bounds(v, c, m, UNIT as int);
    lemma_mul_bounds(u, s, m, UNIT as int);
    assert((2 * m) * UNIT == 2 * (m * UNIT));
    lemma_div_tz_bound(nu, UNIT as int, 2 * m);
    lemma_div_tz_bound(nv, UNIT as int, 2 * m);
    lemma_plane_rotation_isometric(u, v, c, s);
    lemma_div_tz_square(nu, UNIT as int);
    lemma_div_tz_square(nv, UNIT as int);
    let qu = rot_u_fx(u, v, c, s);
    let qv = rot_v_fx(u, v, c, s);
    assert(0 <= u * u) by (nonlinear_arith);
    assert(0 <= v * v) by (nonlinear_arith);
    lemma_mul_inequality(c * c + s * s, k, u * u + v * v);
    lemma_mul_is_commutative(c * c + s * s, u * u + v * v);
    lemma_mul_is_commutative(k, u * u + v * v);
    lemma_mul_is_distributive_add_other_way(k, qu * qu, qv * qv);
    lemma_mul_inequality_converse(qu * qu + qv * qv, u * u + v * v, k);
}

/// For an axis-aligned rotor — a quarter or half turn, whose scaled
/// cosine and sine are exactly zero and plus or minus [`UNIT`] — the
/// fixed-point planar step involves no rounding at all, and the
/// squared norm of the pair is preserved exactly, not merely bounded.
pub proof fn lemma_axis_rotation_preserves_norm(u: int, v: int, c: int, s: int)
    requires
        (c == 0 && (s == UNIT || s == -UNIT)) || (s == 0 && (c == UNIT || c == -UNIT)),
    ensures
        rot_u_fx(u, v, c, s) * rot_u_fx(u, v, c, s) + rot_v_fx(u, v, c, s) * rot_v_fx(u, v, c, s)
            == u * u + v * v,
{
    lemma_div_tz_exact(u, UNIT as int);
    lemma_div_tz_exact(v, UNIT as int);
    lemma_div_tz_exact(-u, UNIT as int);
    lemma_div_tz_exact(-v, UNIT as int);
    assert(u * UNIT == UNIT * u && v * UNIT == UNIT * v && (-u) * UNIT == -(u * UNIT) && (-v)
        * UNIT == -(v * UNIT)) by (nonlinear_arith);
    assert((-u) * (-u) == u * u && (-v) * (-v) == v * v) by (nonlinear_arith);
}

/// One fixed-point planar rotation step on a coordinate pair.
pub fn rotate_pair(u: i64, v: i64, rot: &PlaneRot) -> (r: (i64, i64))
    requires
        rot.wf(),
        -ROT_SPAN <= u <= ROT_SPAN,
        -ROT_SPAN <= v <= ROT_SPAN,
    ensures
        r.0 == rot_u_fx(u as int, v as int, rot.c as int, rot.s as int),
        r.1 == rot_v_fx(u as int, v as int, rot.c as int, rot.s as int),
        abs_val(r.0 as int) <= abs_val(u as int) + abs_val(v as int),
        abs_val(r.1 as int) <= abs_val(v as int) + abs_val(u as int),
{
    proof {
        lemma_rot_components(*rot);
        lemma_mul_bounds(u as int, rot.c as int, ROT_SPAN as int, UNIT as int);
        lemma_mul_bounds(v as int, rot.s as int, ROT_SPAN as int, UNIT as int);
        lemma_mul_bounds(v as int, rot.c as int, ROT_SPAN as int, UNIT as int);
        lemma_mul_bounds(u as int, rot.s as int, ROT_SPAN as int, UNIT as int);
        lemma_mul_bounds(u as int, rot.c as int, abs_val(u as int), UNIT as int);
        lemma_mul_bounds(v as int, rot.s as int, abs_val(v as int), UNIT as int);
        lemma_mul_bounds(v as int, rot.c as int, abs_val(v as int), UNIT as int);
        lemma_mul_bounds(u as int, rot.s as int, abs_val(u as int), UNIT as int);
        lemma_mul_is_distributive_add_other_way(
            UNIT as int,
            abs_val(u as int),
            abs_val(v as int),
        );
        let nu = rot_u(u as int, v as int, rot.c as int, rot.s as int);
        let nv = rot_v(u as int, v as int, rot.c as int, rot.s as int);
        lemma_div_tz_bound(nu, UNIT as int, abs_val(u as int) + abs_val(v as int));
        lemma_div_tz_bound(nv, UNIT as int, abs_val(u as int) + abs_val(v as int));
    }
    let nu: i128 = u as i128 * rot.c as i128 + v as i128 * rot.s as i128;
    let nv: i128 = v as i128 * rot.c as i128 - u as i128 * rot.s as i128;
    let qu: i128 = div_tz_i128(nu, UNIT as i128);
    let qv: i128 = div_tz_i128(nv, UNIT as i128);
    (qu as i64, qv as i64)
}

/// Rotates a point about a pivot through the engine's three ordered
/// planes: first the x–z plane (by `ry`), then the z–y plane (by `rx`),
/// then the x–y plane (by `rz`), each step reading the already-rotated
/// result of the previous one.
pub open spec fn rotate3(p: Point, pivot: Point, rx: PlaneRot, ry: PlaneRot, rz: PlaneRot) -> Point {
    let x0 = p.0 - pivot.0;
    let y0 = p.1 - pivot.1;
    let z0 = p.2 - pivot.2;
    let x1 = rot_u_fx(x0, z0, ry.c as int, ry.s as int);
    let z1 = rot_v_fx(x0, z0, ry.c as int, ry.s as int);
    let z2 = rot_u_fx(z1, y0, rx.c as int, rx.s as int);
    let y2 = rot_v_fx(z1, y0, rx.c as int, rx.s as int);
    let x3 = rot_u_fx(x1, y2, rz.c as int, rz.s as int);
    let y3 = rot_v_fx(x1, y2, rz.c as int, rz.s as int);
    Point((x3 + pivot.0) as i64, (y3 + pivot.1) as i64, (z2 + pivot.2) as i64)
}

/// Rotates a 4-point about a pivot through the engine's six ordered
/// planes: x–z, z–y, x–y, x–w, y–w, z–w, each parameterized by its own
/// rotor and reading the already-rotated result of the previous step.
pub open spec fn rotate4(
    p: Point4,
    pivot: Point4,
    rxy: PlaneRot,
    ryz: PlaneRot,
    rxz: PlaneRot,
    rwx: PlaneRot,
    rwy: PlaneRot,
    rwz: PlaneRot,
) -> Point4 {
    let x0 = p.0 - pivot.0;
    let y0 = p.1 - pivot.1;
    let z0 = p.2 - pivot.2;
    let w0 = p.3 - pivot.3;
    let x1 = rot_u_fx(x0, z0, rxz.c as int, rxz.s as int);
    let z1 = rot_v_fx(x0, z0, rxz.c as int, rxz.s as int);
    let z2 = rot_u_fx(z1, y0, ryz.c as int, ryz.s as int);
    let y2 = rot_v_fx(z1, y0, ryz.c as int, ryz.s as int);
    let x3 = rot_u_fx(x1, y2, rxy.c as int, rxy.s as int);
    let y3 = rot_v_fx(x1, y2, rxy.c as int, rxy.s as int);
    let x4 = rot_u_fx(x3, w0, rwx.c as int, rwx.s as int);
    let w4 = rot_v_fx(x3, w0, rwx.c as int, rwx.s as int);
    let y5 = rot_u_fx(y3, w4, rwy.c as int, rwy.s as int);
    let w5 = rot_v_fx(y3, w4, rwy.c as int, rwy.s as int);
    let z6 = rot_u_fx(z2, w5, rwz.c as int, rwz.s as int);
    let w6 = rot_v_fx(z2, w5, rwz.c as int, rwz.s as int);
    Point4(
        (x4 + pivot.0) as i64,
        (y5 + pivot.1) as i64,
        (z6 + pivot.2) as i64,
        (w6 + pivot.3) as i64,
    )
}

/// Rotation is pivot-invariant on magnitude, up to fixed-point rounding:
/// a full three-plane rotation about a pivot never moves a vertex farther
/// from the pivot. (Exact preservation holds before rounding, by
/// [`lemma_plane_rotation_isometric`]; each step's truncating division
/// can only shrink the distance.)
pub proof fn lemma_rotate3_pivot_distance(
    p: Point,
    pivot: Point,
    rx: PlaneRot,
    ry: PlaneRot,
    rz: PlaneRot,
)
    requires
        p.in_range(),
        pivot.in_range(),
        rx.wf(),
        ry.wf(),
        rz.wf(),
    ensures
        rotate3(p, pivot, rx, ry, rz).dist_sq(pivot) <= p.dist_sq(pivot),
{
    let x0 = p.0 - pivot.0;
    let y0 = p.1 - pivot.1;
    let z0 = p.2 - pivot.2;
    let m = 2 * MAX_COORD as int;
    lemma_rot_fx_bounds(x0, z0, ry.c as int, ry.s as int, m);
    let x1 = rot_u_fx(x0, z0, ry.c as int, ry.s as int);
    let z1 = rot_v_fx(x0, z0, ry.c as int, ry.s as int);
    lemma_rot_fx_bounds(z1, y0, rx.c as int, rx.s as int, 2 * m);
    let z2 = rot_u_fx(z1, y0, rx.c as int, rx.s as int);
    let y2 = rot_v_fx(z1, y0, rx.c as int, rx.s as int);
    lemma_rot_fx_bounds(x1, y2, rz.c as int, rz.s as int, 4 * m);
    let x3 = rot_u_fx(x1, y2, rz.c as int, rz.s as int);
    let y3 = rot_v_fx(x1, y2, rz.c as int, rz.s as int);
    assert(rotate3(p, pivot, rx, ry, rz).0 == x3 + pivot.0);
    assert(rotate3(p, pivot, rx, ry, rz).1 == y3 + pivot.1);
    assert(rotate3(p, pivot, rx, ry, rz).2 == z2 + pivot.2);
}

/// The four-dimensional analogue of [`lemma_rotate3_pivot_distance`]: a
/// full six-plane rotation about a pivot never moves a vertex farther
/// from the pivot.
pub proof fn lemma_rotate4_pivot_distance(
    p: Point4,
    pivot: Point4,
    rxy: PlaneRot,
    ryz: PlaneRot,
    rxz: PlaneRot,
    rwx: PlaneRot,
    rwy: PlaneRot,
    rwz: PlaneRot,
)
    requires
        p.in_range(),
        pivot.in_range(),
        rxy.wf(),
        ryz.wf(),
        rxz.wf(),
        rwx.wf(),
        rwy.wf(),
        rwz.wf(),
    ensures
        rotate4(p, pivot, rxy, ryz, rxz, rwx, rwy, rwz).dist_sq(pivot) <= p.dist_sq(pivot),
{
    let x0 = p.0 - pivot.0;
    let y0 = p.1 - pivot.1;
    let z0 = p.2 - pivot.2;
    let w0 = p.3 - pivot.3;
    let m = 2 * MAX_COORD as int;
    lemma_rot_fx_bounds(x0, z0, rxz.c as int, rxz.s as int, m);
    let x1 = rot_u_fx(x0, z0, rxz.c as int, rxz.s as int);
    let z1 = rot_v_fx(x0, z0, rxz.c as int, rxz.s as int);
    lemma_rot_fx_bounds(z1, y0, ryz.c as int, ryz.s as int, 2 * m);
    let z2 = rot_u_fx(z1, y0, ryz.c as int, ryz.s as int);
    let y2 = rot_v_fx(z1, y0, ryz.c as int, ryz.s as int);
    lemma_rot_fx_bounds(x1, y2, rxy.c as int, rxy.s as int, 4 * m);
    let x3 = rot_u_fx(x1, y2, rxy.c as int, rxy.s as int);
    let y3 = rot_v_fx(x1, y2, rxy.c as int, rxy.s as int);
    lemma_rot_fx_bounds(x3, w0, rwx.c as int, rwx.s as int, 8 * m);
    let x4 = rot_u_fx(x3, w0, rwx.c as int, rwx.s as int);
    let w4 = rot_v_fx(x3, w0, rwx.c as int, rwx.s as int);
    lemma_rot_fx_bounds(y3, w4, rwy.c as int, rwy.s as int, 16 * m);
    let y5 = rot_u_fx(y3, w4, rwy.c as int, rwy.s as int);
    let w5 = rot_v_fx(y3, w4, rwy.c as int, rwy.s as int);
    lemma_rot_fx_bounds(z2, w5, rwz.c as int, rwz.s as int, 32 * m);
    let z6 = rot_u_fx(z2, w5, rwz.c as int, rwz.s as int);
    let w6 = rot_v_fx(z2, w5, rwz.c as int, rwz.s as int);
    assert(rotate4(p, pivot, rxy, ryz, rxz, rwx, rwy, rwz).0 == x4 + pivot.0);
    assert(rotate4(p, pivot, rxy, ryz, rxz, rwx, rwy, rwz).1 == y5 + pivot.1);
    assert(rotate4(p, pivot, rxy, ryz, rxz, rwx, rwy, rwz).2 == z6 + pivot.2);
    assert(rotate4(p, pivot, rxy, ryz, rxz, rwx, rwy, rwz).3 == w6 + pivot.3);
}

} // verus!
