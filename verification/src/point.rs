//! Vector algebra on fixed-point three- and four-dimensional points:
//! addition, subtraction, scaling, dot product, magnitude, normalization,
//! cross product (three dimensions only), and orthonormal-basis
//! construction from a direction vector.

use crate::fixed::{
    abs_val, div_tz, div_tz_i128, isqrt_u128, lemma_div_tz_bound, lemma_sqrt_floor, sqrt_floor,
    MAX_COORD, UNIT,
};
use vstd::arithmetic::mul::lemma_mul_inequality;
use vstd::prelude::*;

verus! {

/// A coordinate the engine accepts: small enough that every intermediate
/// product of the geometry pipeline fits in an `i128`.
pub open spec fn coord_in_range(x: int) -> bool {
    -MAX_COORD <= x <= MAX_COORD
}

/// Largest coordinate magnitude accepted by the cross product, which
/// multiplies two coordinates into an `i64`.
pub const CROSS_LIMIT: i64 = 2_000_000_000;

/// A three-dimensional point (or vector), each coordinate a fixed-point
/// `i64` with [`UNIT`] sub-units per world unit.
#[derive(Debug, Clone, Copy, PartialEq, Eq, Structural)]
pub struct Point(pub i64, pub i64, pub i64);

/// A four-dimensional point, used for hyper-solid vertices and their
/// rotation pivots.
#[derive(Debug, Clone, Copy, PartialEq, Eq, Structural)]
pub struct Point4(pub i64, pub i64, pub i64, pub i64);

/// Dot product of two three-dimensional vectors, over the integers.
pub open spec fn spec_dot(a: Point, b: Point) -> int {
    a.0 * b.0 + a.1 * b.1 + a.2 * b.2
}

/// Dot product of two four-dimensional vectors, over the integers.
pub open spec fn spec_dot4(a: Point4, b: Point4) -> int {
    a.0 * b.0 + a.1 * b.1 + a.2 * b.2 + a.3 * b.3
}

/// Cross product of two three-dimensional vectors, over the integers.
pub open spec fn spec_cross(a: Point, b: Point) -> (int, int, int) {
    (a.1 * b.2 - a.2 * b.1, a.2 * b.0 - a.0 * b.2, a.0 * b.1 - a.1 * b.0)
}

/// The normalization of `p`: each coordinate is scaled by [`UNIT`] and
/// divided (toward zero) by the floor of `p`'s Euclidean length, so the
/// result has length close to one world unit.
pub open spec fn spec_unit(p: Point) -> Point {
    let m = sqrt_floor(p.norm_sq());
    Point(
        div_tz(p.0 * UNIT, m) as i64,
        div_tz(p.1 * UNIT, m) as i64,
        div_tz(p.2 * UNIT, m) as i64,
    )
}

impl Point {
    /// All three coordinates are within the engine's accepted range.
    pub open spec fn in_range(self) -> bool {
        coord_in_range(self.0 as int) && coord_in_range(self.1 as int) && coord_in_range(
            self.2 as int,
        )
    }

    /// Squared Euclidean length, over the integers.
    pub open spec fn norm_sq(self) -> int {
        self.0 * self.0 + self.1 * self.1 + self.2 * self.2
    }

    /// Squared Euclidean distance to `o`, over the integers.
    pub open spec fn dist_sq(self, o: Point) -> int {
        (self.0 - o.0) * (self.0 - o.0) + (self.1 - o.1) * (self.1 - o.1) + (self.2 - o.2) * (
        self.2 - o.2)
    }

    /// Overwrites this point with `p`.
    pub fn set(&mut self, p: Point)
        ensures
            *final(self) == p,
    {
        self.0 = p.0;
        self.1 = p.1;
        self.2 = p.2;
    }

    /// Componentwise sum.
    pub fn add(self, rhs: Point) -> (r: Point)
        requires
            i64::MIN <= self.0 + rhs.0 <= i64::MAX,
            i64::MIN <= self.1 + rhs.1 <= i64::MAX,
            i64::MIN <= self.2 + rhs.2 <= i64::MAX,
        ensures
            r.0 == self.0 + rhs.0,
            r.1 == self.1 + rhs.1,
            r.2 == self.2 + rhs.2,
    {
        Point(self.0 + rhs.0, self.1 + rhs.1, self.2 + rhs.2)
    }

    /// Componentwise difference.
    pub fn sub(self, rhs: Point) -> (r: Point)
        requires
            i64::MIN <= self.0 - rhs.0 <= i64::MAX,
            i64::MIN <= self.1 - rhs.1 <= i64::MAX,
            i64::MIN <= self.2 - rhs.2 <= i64::MAX,
        ensures
            r.0 == self.0 - rhs.0,
            r.1 == self.1 - rhs.1,
            r.2 == self.2 - rhs.2,
    {
        Point(self.0 - rhs.0, self.1 - rhs.1, self.2 - rhs.2)
    }

    /// Componentwise scaling by an integer factor.
    pub fn scale(self, k: i64) -> (r: Point)
        requires
            i64::MIN <= self.0 * k <= i64::MAX,
            i64::MIN <= self.1 * k <= i64::MAX,
            i64::MIN <= self.2 * k <= i64::MAX,
        ensures
            r.0 == self.0 * k,
            r.1 == self.1 * k,
            r.2 == self.2 * k,
    {
        let x: i128 = self.0 as i128 * k as i128;
        let y: i128 = self.1 as i128 * k as i128;
        let z: i128 = self.2 as i128 * k as i128;
        Point(x as i64, y as i64, z as i64)
    }

    /// Floor of the Euclidean length. Total: the three squares always fit
    /// in an unsigned 128-bit sum.
    pub fn magnitude(&self) -> (r: u64)
        ensures
            r == sqrt_floor(self.norm_sq()),
            r * r <= self.norm_sq() < (r + 1) * (r + 1),
    {
        let a: i128 = self.0 as i128;
        let b: i128 = self.1 as i128;
        let c: i128 = self.2 as i128;
        proof {
            lemma_square_range(a as int);
            lemma_square_range(b as int);
            lemma_square_range(c as int);
        }
        let s: u128 = (a * a) as u128 + (b * b) as u128 + (c * c) as u128;
        let r: u128 = isqrt_u128(s);
        proof {
            lemma_sqrt_floor(self.norm_sq());
        }
        r as u64
    }

    /// Dot product. The result is exact; the range bound on the inputs
    /// keeps the three products inside an `i128`.
    pub fn dot(&self, rhs: &Point) -> (r: i128)
        requires
            self.in_range(),
            rhs.in_range(),
        ensures
            r == spec_dot(*self, *rhs),
    {
        proof {
            lemma_prod_bound(self.0 as int, rhs.0 as int, MAX_COORD as int);
            lemma_prod_bound(self.1 as int, rhs.1 as int, MAX_COORD as int);
            lemma_prod_bound(self.2 as int, rhs.2 as int, MAX_COORD as int);
        }
        self.0 as i128 * rhs.0 as i128 + self.1 as i128 * rhs.1 as i128 + self.2 as i128
            * rhs.2 as i128
    }

    /// The vector scaled to (almost) unit world length, or `None` for the
    /// zero vector, whose direction is undefined.
    pub fn unit(&self) -> (r: Option<Point>)
        requires
            self.in_range(),
        ensures
            r is None <==> *self == Point(0i64, 0i64, 0i64),
            r matches Some(u) ==> u == spec_unit(*self) && abs_val(u.0 as int) <= UNIT && abs_val(
                u.1 as int,
            ) <= UNIT && abs_val(u.2 as int) <= UNIT,
    {
        let m: u64 = self.magnitude();
        if m == 0 {
            proof {
                lemma_zero_magnitude(*self);
            }
            None
        } else {
            proof {
                lemma_zero_magnitude(*self);
                lemma_unit_bounds(*self);
            }
            let x: i128 = div_tz_i128(self.0 as i128 * UNIT as i128, m as i128);
            let y: i128 = div_tz_i128(self.1 as i128 * UNIT as i128, m as i128);
            let z: i128 = div_tz_i128(self.2 as i128 * UNIT as i128, m as i128);
            Some(Point(x as i64, y as i64, z as i64))
        }
    }

    /// Cross product. The range bound keeps each product of two
    /// coordinates, and their difference, inside an `i64`.
    pub fn cross(&self, other: &Point) -> (r: Point)
        requires
            abs_val(self.0 as int) <= CROSS_LIMIT,
            abs_val(self.1 as int) <= CROSS_LIMIT,
            abs_val(self.2 as int) <= CROSS_LIMIT,
            abs_val(other.0 as int) <= CROSS_LIMIT,
            abs_val(other.1 as int) <= CROSS_LIMIT,
            abs_val(other.2 as int) <= CROSS_LIMIT,
        ensures
            (r.0 as int, r.1 as int, r.2 as int) == spec_cross(*self, *other),
            abs_val(r.0 as int) <= 2 * CROSS_LIMIT * CROSS_LIMIT,
            abs_val(r.1 as int) <= 2 * CROSS_LIMIT * CROSS_LIMIT,
            abs_val(r.2 as int) <= 2 * CROSS_LIMIT * CROSS_LIMIT,
    {
        proof {
            lemma_prod_bound(self.1 as int, other.2 as int, CROSS_LIMIT as int);
            lemma_prod_bound(self.2 as int, other.1 as int, CROSS_LIMIT as int);
            lemma_prod_bound(self.2 as int, other.0 as int, CROSS_LIMIT as int);
            lemma_prod_bound(self.0 as int, other.2 as int, CROSS_LIMIT as int);
            lemma_prod_bound(self.0 as int, other.1 as int, CROSS_LIMIT as int);
            lemma_prod_bound(self.1 as int, other.0 as int, CROSS_LIMIT as int);
        }
        let x: i128 = self.1 as i128 * other.2 as i128 - self.2 as i128 * other.1 as i128;
        let y: i128 = self.2 as i128 * other.0 as i128 - self.0 as i128 * other.2 as i128;
        let z: i128 = self.0 as i128 * other.1 as i128 - self.1 as i128 * other.0 as i128;
        Point(x as i64, y as i64, z as i64)
    }
}

impl Point4 {
    /// All four coordinates are within the engine's accepted range.
    pub open spec fn in_range(self) -> bool {
        coord_in_range(self.0 as int) && coord_in_range(self.1 as int) && coord_in_range(
            self.2 as int,
        ) && coord_in_range(self.3 as int)
    }

    /// Squared Euclidean length, over the integers.
    pub open spec fn norm_sq(self) -> int {
        self.0 * self.0 + self.1 * self.1 + self.2 * self.2 + self.3 * self.3
    }

    /// Squared Euclidean distance to `o`, over the integers.
    pub open spec fn dist_sq(self, o: Point4) -> int {
        (self.0 - o.0) * (self.0 - o.0) + (self.1 - o.1) * (self.1 - o.1) + (self.2 - o.2) * (
        self.2 - o.2) + (self.3 - o.3) * (self.3 - o.3)
    }

    /// Overwrites this point with `p`.
    pub fn set(&mut self, p: Point4)
        ensures
            *final(self) == p,
    {
        self.0 = p.0;
        self.1 = p.1;
        self.2 = p.2;
        self.3 = p.3;
    }

    /// Componentwise sum.
    pub fn add(self, rhs: Point4) -> (r: Point4)
        requires
            i64::MIN <= self.0 + rhs.0 <= i64::MAX,
            i64::MIN <= self.1 + rhs.1 <= i64::MAX,
            i64::MIN <= self.2 + rhs.2 <= i64::MAX,
            i64::MIN <= self.3 + rhs.3 <= i64::MAX,
        ensures
            r.0 == self.0 + rhs.0,
            r.1 == self.1 + rhs.1,
            r.2 == self.2 + rhs.2,
            r.3 == self.3 + rhs.3,
    {
        Point4(self.0 + rhs.0, self.1 + rhs.1, self.2 + rhs.2, self.3 + rhs.3)
    }

    /// Componentwise difference.
    pub fn sub(self, rhs: Point4) -> (r: Point4)
        requires
            i64::MIN <= self.0 - rhs.0 <= i64::MAX,
            i64::MIN <= self.1 - rhs.1 <= i64::MAX,
            i64::MIN <= self.2 - rhs.2 <= i64::MAX,
            i64::MIN <= self.3 - rhs.3 <= i64::MAX,
        ensures
            r.0 == self.0 - rhs.0,
            r.1 == self.1 - rhs.1,
            r.2 == self.2 - rhs.2,
            r.3 == self.3 - rhs.3,
    {
        Point4(self.0 - rhs.0, self.1 - rhs.1, self.2 - rhs.2, self.3 - rhs.3)
    }

    /// Componentwise scaling by an integer factor.
    pub fn scale(self, k: i64) -> (r: Point4)
        requires
            i64::MIN <= self.0 * k <= i64::MAX,
            i64::MIN <= self.1 * k <= i64::MAX,
            i64::MIN <= self.2 * k <= i64::MAX,
            i64::MIN <= self.3 * k <= i64::MAX,
        ensures
            r.0 == self.0 * k,
            r.1 == self.1 * k,
            r.2 == self.2 * k,
            r.3 == self.3 * k,
    {
        let x: i128 = self.0 as i128 * k as i128;
        let y: i128 = self.1 as i128 * k as i128;
        let z: i128 = self.2 as i128 * k as i128;
        let w: i128 = self.3 as i128 * k as i128;
        Point4(x as i64, y as i64, z as i64, w as i64)
    }

    /// Floor of the Euclidean length. The range bound keeps the sum of
    /// four squares inside a `u128`.
    pub fn magnitude(&self) -> (r: u64)
        requires
            self.in_range(),
        ensures
            r == sqrt_floor(self.norm_sq()),
            r * r <= self.norm_sq() < (r + 1) * (r + 1),
    {
        proof {
            lemma_prod_bound(self.0 as int, self.0 as int, MAX_COORD as int);
            lemma_prod_bound(self.1 as int, self.1 as int, MAX_COORD as int);
            lemma_prod_bound(self.2 as int, self.2 as int, MAX_COORD as int);
            lemma_prod_bound(self.3 as int, self.3 as int, MAX_COORD as int);
            lemma_square_range(self.0 as int);
            lemma_square_range(self.1 as int);
            lemma_square_range(self.2 as int);
            lemma_square_range(self.3 as int);
        }
        let a: i128 = self.0 as i128;
        let b: i128 = self.1 as i128;
        let c: i128 = self.2 as i128;
        let d: i128 = self.3 as i128;
        let s: u128 = (a * a) as u128 + (b * b) as u128 + (c * c) as u128 + (d * d) as u128;
        let r: u128 = isqrt_u128(s);
        proof {
            lemma_sqrt_floor(self.norm_sq());
        }
        r as u64
    }

    /// Dot product. Exact over the integers.
    pub fn dot(&self, rhs: &Point4) -> (r: i128)
        requires
            self.in_range(),
            rhs.in_range(),
        ensures
            r == spec_dot4(*self, *rhs),
    {
        proof {
            lemma_prod_bound(self.0 as int, rhs.0 as int, MAX_COORD as int);
            lemma_prod_bound(self.1 as int, rhs.1 as int, MAX_COORD as int);
            lemma_prod_bound(self.2 as int, rhs.2 as int, MAX_COORD as int);
            lemma_prod_bound(self.3 as int, rhs.3 as int, MAX_COORD as int);
        }
        self.0 as i128 * rhs.0 as i128 + self.1 as i128 * rhs.1 as i128 + self.2 as i128
            * rhs.2 as i128 + self.3 as i128 * rhs.3 as i128
    }

    /// The vector scaled to (almost) unit world length, or `None` for the
    /// zero vector.
    pub fn unit(&self) -> (r: Option<Point4>)
        requires
            self.in_range(),
        ensures
            r is None <==> *self == Point4(0i64, 0i64, 0i64, 0i64),
            r matches Some(u) ==> {
                let m = sqrt_floor(self.norm_sq());
                u.0 == div_tz(self.0 * UNIT, m) as i64 && u.1 == div_tz(self.1 * UNIT, m) as i64
                    && u.2 == div_tz(self.2 * UNIT, m) as i64 && u.3 == div_tz(
                    self.3 * UNIT,
                    m,
                ) as i64 && abs_val(u.0 as int) <= UNIT && abs_val(u.1 as int) <= UNIT && abs_val(
                    u.2 as int,
                ) <= UNIT && abs_val(u.3 as int) <= UNIT
            },
    {
        let m: u64 = self.magnitude();
        if m == 0 {
            proof {
                lemma_zero_magnitude4(*self);
            }
            None
        } else {
            proof {
                lemma_zero_magnitude4(*self);
                lemma_unit_bounds4(*self);
            }
            let x: i128 = div_tz_i128(self.0 as i128 * UNIT as i128, m as i128);
            let y: i128 = div_tz_i128(self.1 as i128 * UNIT as i128, m as i128);
            let z: i128 = div_tz_i128(self.2 as i128 * UNIT as i128, m as i128);
            let w: i128 = div_tz_i128(self.3 as i128 * UNIT as i128, m as i128);
            Some(Point4(x as i64, y as i64, z as i64, w as i64))
        }
    }
}

/// Cross product with the integer products truncated into `i64`
/// coordinates.
pub open spec fn spec_cross_pt(a: Point, b: Point) -> Point {
    Point(
        (a.1 * b.2 - a.2 * b.1) as i64,
        (a.2 * b.0 - a.0 * b.2) as i64,
        (a.0 * b.1 - a.1 * b.0) as i64,
    )
}

/// The coordinate axis least aligned with `p`, scaled to one world
/// unit: the x axis when the x coordinate is strictly smallest in
/// magnitude, otherwise the y axis when it is strictly smaller than the
/// z coordinate's magnitude, otherwise the z axis. Ties therefore
/// resolve away from x and toward z.
pub open spec fn pick_axis(p: Point) -> Point {
    if abs_val(p.0 as int) < abs_val(p.1 as int) && abs_val(p.0 as int) < abs_val(p.2 as int) {
        Point(UNIT, 0i64, 0i64)
    } else if abs_val(p.1 as int) < abs_val(p.2 as int) {
        Point(0i64, UNIT, 0i64)
    } else {
        Point(0i64, 0i64, UNIT)
    }
}

/// The orthonormal frame derived from a direction vector: the
/// normalized direction, the normalized cross product of it with the
/// picked axis, and the normalized cross product of it with that second
/// vector. `None` whenever a normalization degenerates, in particular
/// for the zero direction.
pub open spec fn spec_basis(p: Point) -> Option<(Point, Point, Point)> {
    if p == Point(0i64, 0i64, 0i64) {
        None
    } else {
        let u0 = spec_unit(p);
        let c1 = spec_cross_pt(u0, pick_axis(p));
        if c1 == Point(0i64, 0i64, 0i64) {
            None
        } else {
            let u1 = spec_unit(c1);
            let c2 = spec_cross_pt(u0, u1);
            if c2 == Point(0i64, 0i64, 0i64) {
                None
            } else {
                Some((u0, u1, spec_unit(c2)))
            }
        }
    }
}

/// Magnitude of a coordinate.
fn abs_i64(x: i64) -> (r: i64)
    requires
        x > i64::MIN,
    ensures
        r == abs_val(x as int),
{
    if x < 0 {
        -x
    } else {
        x
    }
}

impl Point {
    /// Derives the camera's orthonormal frame from this direction
    /// vector, as [`spec_basis`] describes: pick the coordinate axis
    /// least aligned with the direction, then complete the frame with
    /// two normalized cross products. Returns `None` exactly when a
    /// normalization degenerates.
    pub fn orthogonal_basis(&self) -> (r: Option<(Point, Point, Point)>)
        requires
            self.in_range(),
        ensures
            r == spec_basis(*self),
            r matches Some(b) ==> abs_val(b.0.0 as int) <= UNIT && abs_val(b.0.1 as int) <= UNIT
                && abs_val(b.0.2 as int) <= UNIT && abs_val(b.1.0 as int) <= UNIT && abs_val(
                b.1.1 as int,
            ) <= UNIT && abs_val(b.1.2 as int) <= UNIT && abs_val(b.2.0 as int) <= UNIT && abs_val(
                b.2.1 as int,
            ) <= UNIT && abs_val(b.2.2 as int) <= UNIT,
    {
        let u0 = match self.unit() {
            Some(u) => u,
            None => {
                return None;
            },
        };
        let axis = if abs_i64(self.0) < abs_i64(self.1) && abs_i64(self.0) < abs_i64(self.2) {
            Point(UNIT, 0, 0)
        } else if abs_i64(self.1) < abs_i64(self.2) {
            Point(0, UNIT, 0)
        } else {
            Point(0, 0, UNIT)
        };
        proof {
            lemma_cross_of_units_in_range(u0, axis);
        }
        let c1 = u0.cross(&axis);
        let u1 = match c1.unit() {
            Some(u) => u,
            None => {
                return None;
            },
        };
        proof {
            lemma_cross_of_units_in_range(u0, u1);
        }
        let c2 = u0.cross(&u1);
        let u2 = match c2.unit() {
            Some(u) => u,
            None => {
                return None;
            },
        };
        Some((u0, u1, u2))
    }
}

/// The cross product of two vectors whose coordinates are at most
/// [`UNIT`] in magnitude stays far inside the engine's coordinate
/// range.
proof fn lemma_cross_of_units_in_range(a: Point, b: Point)
    requires
        abs_val(a.0 as int) <= UNIT,
        abs_val(a.1 as int) <= UNIT,
        abs_val(a.2 as int) <= UNIT,
        abs_val(b.0 as int) <= UNIT,
        abs_val(b.1 as int) <= UNIT,
        abs_val(b.2 as int) <= UNIT,
    ensures
        -2 * UNIT * UNIT <= a.1 * b.2 - a.2 * b.1 <= 2 * UNIT * UNIT,
        -2 * UNIT * UNIT <= a.2 * b.0 - a.0 * b.2 <= 2 * UNIT * UNIT,
        -2 * UNIT * UNIT <= a.0 * b.1 - a.1 * b.0 <= 2 * UNIT * UNIT,
{
    crate::fixed::lemma_mul_bounds(a.0 as int, b.1 as int, UNIT as int, UNIT as int);
    crate::fixed::lemma_mul_bounds(a.0 as int, b.2 as int, UNIT as int, UNIT as int);
    crate::fixed::lemma_mul_bounds(a.1 as int, b.0 as int, UNIT as int, UNIT as int);
    crate::fixed::lemma_mul_bounds(a.1 as int, b.2 as int, UNIT as int, UNIT as int);
    crate::fixed::lemma_mul_bounds(a.2 as int, b.0 as int, UNIT as int, UNIT as int);
    crate::fixed::lemma_mul_bounds(a.2 as int, b.1 as int, UNIT as int, UNIT as int);
}

/// A square of an `i64` is non-negative and at most `2^126`.
proof fn lemma_square_range(a: int)
    requires
        -0x8000_0000_0000_0000 <= a <= 0x7fff_ffff_ffff_ffff,
    ensures
        0 <= a * a <= 0x4000_0000_0000_0000_0000_0000_0000_0000,
{
    assert(0 <= a * a <= 0x4000_0000_0000_0000_0000_0000_0000_0000) by (nonlinear_arith)
        requires
            -0x8000_0000_0000_0000 <= a <= 0x7fff_ffff_ffff_ffff,
    ;
}

/// A product of two integers bounded by `m` in magnitude is bounded by
/// `m * m`.
proof fn lemma_prod_bound(a: int, b: int, m: int)
    requires
        0 <= m,
        -m <= a <= m,
        -m <= b <= m,
    ensures
        -(m * m) <= a * b <= m * m,
{
    assert(-(m * m) <= a * b <= m * m) by (nonlinear_arith)
        requires
            0 <= m,
            -m <= a <= m,
            -m <= b <= m,
    ;
}

/// A point has magnitude zero exactly when it is the origin.
proof fn lemma_zero_magnitude(p: Point)
    ensures
        (sqrt_floor(p.norm_sq()) == 0) <==> (p == Point(0i64, 0i64, 0i64)),
{
    let n = p.norm_sq();
    let s = sqrt_floor(n);
    lemma_sqrt_floor(n);
    lemma_square_range(p.0 as int);
    lemma_square_range(p.1 as int);
    lemma_square_range(p.2 as int);
    if p.0 != 0 || p.1 != 0 || p.2 != 0 {
        assert(n >= 1) by (nonlinear_arith)
            requires
                p.0 != 0 || p.1 != 0 || p.2 != 0,
                n == p.0 * p.0 + p.1 * p.1 + p.2 * p.2,
        ;
        assert(s >= 1) by (nonlinear_arith)
            requires
                s >= 0,
                n >= 1,
                n < (s + 1) * (s + 1),
        ;
    }
}

/// A 4-point has magnitude zero exactly when it is the origin.
proof fn lemma_zero_magnitude4(p: Point4)
    ensures
        (sqrt_floor(p.norm_sq()) == 0) <==> (p == Point4(0i64, 0i64, 0i64, 0i64)),
{
    let n = p.norm_sq();
    let s = sqrt_floor(n);
    lemma_sqrt_floor(n);
    lemma_square_range(p.0 as int);
    lemma_square_range(p.1 as int);
    lemma_square_range(p.2 as int);
    lemma_square_range(p.3 as int);
    if p.0 != 0 || p.1 != 0 || p.2 != 0 || p.3 != 0 {
        assert(n >= 1) by (nonlinear_arith)
            requires
                p.0 != 0 || p.1 != 0 || p.2 != 0 || p.3 != 0,
                n == p.0 * p.0 + p.1 * p.1 + p.2 * p.2 + p.3 * p.3,
        ;
        assert(s >= 1) by (nonlinear_arith)
            requires
                s >= 0,
                n >= 1,
                n < (s + 1) * (s + 1),
        ;
    }
}

/// No coordinate exceeds the vector's Euclidean length, so each scaled
/// and divided coordinate of the normalized vector is at most [`UNIT`].
proof fn lemma_unit_coord(k: int, n: int, rest: int)
    requires
        n == k * k + rest,
        rest >= 0,
        sqrt_floor(n) >= 1,
    ensures
        -sqrt_floor(n) * UNIT <= k * UNIT <= sqrt_floor(n) * UNIT,
        -UNIT <= div_tz(k * UNIT, sqrt_floor(n)) <= UNIT,
{
    let m = sqrt_floor(n);
    lemma_sqrt_floor(n);
    assert(-m <= k <= m) by (nonlinear_arith)
        requires
            0 <= m,
            k * k <= n,
            n < (m + 1) * (m + 1),
    ;
    lemma_mul_inequality(k, m, UNIT as int);
    lemma_mul_inequality(-m, k, UNIT as int);
    lemma_div_tz_bound(k * UNIT, m, UNIT as int);
    assert(UNIT * m == m * UNIT) by (nonlinear_arith);
}

proof fn lemma_unit_bounds(p: Point)
    requires
        sqrt_floor(p.norm_sq()) >= 1,
    ensures
        ({
            let m = sqrt_floor(p.norm_sq());
            -UNIT <= div_tz(p.0 * UNIT, m) <= UNIT && -UNIT <= div_tz(p.1 * UNIT, m) <= UNIT
                && -UNIT <= div_tz(p.2 * UNIT, m) <= UNIT
        }),
{
    lemma_square_range(p.0 as int);
    lemma_square_range(p.1 as int);
    lemma_square_range(p.2 as int);
    lemma_unit_coord(p.0 as int, p.norm_sq(), p.1 * p.1 + p.2 * p.2);
    lemma_unit_coord(p.1 as int, p.norm_sq(), p.0 * p.0 + p.2 * p.2);
    lemma_unit_coord(p.2 as int, p.norm_sq(), p.0 * p.0 + p.1 * p.1);
}

proof fn lemma_unit_bounds4(p: Point4)
    requires
        sqrt_floor(p.norm_sq()) >= 1,
    ensures
        ({
            let m = sqrt_floor(p.norm_sq());
            -UNIT <= div_tz(p.0 * UNIT, m) <= UNIT && -UNIT <= div_tz(p.1 * UNIT, m) <= UNIT
                && -UNIT <= div_tz(p.2 * UNIT, m) <= UNIT && -UNIT <= div_tz(p.3 * UNIT, m)
                <= UNIT
        }),
{
    lemma_square_range(p.0 as int);
    lemma_square_range(p.1 as int);
    lemma_square_range(p.2 as int);
    lemma_square_range(p.3 as int);
    lemma_unit_coord(p.0 as int, p.norm_sq(), p.1 * p.1 + p.2 * p.2 + p.3 * p.3);
    lemma_unit_coord(p.1 as int, p.norm_sq(), p.0 * p.0 + p.2 * p.2 + p.3 * p.3);
    lemma_unit_coord(p.2 as int, p.norm_sq(), p.0 * p.0 + p.1 * p.1 + p.3 * p.3);
    lemma_unit_coord(p.3 as int, p.norm_sq(), p.0 * p.0 + p.1 * p.1 + p.2 * p.2);
}

} // verus!
