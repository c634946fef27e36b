//! Two-dimensional vectors with exact integer coordinates.
//!
//! The coordinate system is screen-like: `x` grows to the right and `y`
//! grows downward, so the clockwise quarter turn maps `(1, 0)` to `(0, -1)`.
//!
//! Lengths are measured with the floor of the Euclidean norm, and
//! normalization scales a vector so that its length is (up to rounding)
//! `NORM_ONE` rather than one, since unit vectors are not representable
//! in integers.

use crate::math::{
    div_trunc, div_trunc_i64, isqrt, lemma_div_trunc_bound, lemma_sqrt_floor_bounds, sqrt_floor,
};
use vstd::prelude::*;

verus! {

/// Fixed-point scale of a normalized vector: `norm` returns a vector of
/// length close to `NORM_ONE` pointing the same way as its input.
pub const NORM_ONE: i64 = 1024;

/// Largest coordinate magnitude accepted by `len` and `norm`; keeps the
/// sum of the squared coordinates inside `i64`.
pub const LEN_COORD_MAX: i64 = 0x4000_0000;

#[derive(Clone, Copy, Debug, PartialEq, Eq, Structural)]
pub struct Point {
    pub x: i64,
    pub y: i64,
}

impl Point {
    /// Both coordinates are zero.
    pub open spec fn is_zero(self) -> bool {
        self.x == 0 && self.y == 0
    }

    /// Coordinates small enough for `len` and `norm`.
    pub open spec fn len_bounded(self) -> bool {
        &&& -LEN_COORD_MAX <= self.x <= LEN_COORD_MAX
        &&& -LEN_COORD_MAX <= self.y <= LEN_COORD_MAX
    }

    /// Squared Euclidean length.
    pub open spec fn len_sq(self) -> int {
        self.x * self.x + self.y * self.y
    }

    /// Floor of the Euclidean length.
    pub open spec fn spec_len(self) -> int {
        sqrt_floor(self.len_sq() as nat) as int
    }

    pub open spec fn spec_add(self, other: Point) -> Point {
        Point { x: (self.x + other.x) as i64, y: (self.y + other.y) as i64 }
    }

    pub open spec fn spec_sub(self, other: Point) -> Point {
        Point { x: (self.x - other.x) as i64, y: (self.y - other.y) as i64 }
    }

    /// Quarter turn clockwise on a y-down screen.
    pub open spec fn spec_rot_cw(self) -> Point {
        Point { x: self.y, y: (-self.x) as i64 }
    }

    /// Quarter turn counter-clockwise on a y-down screen.
    pub open spec fn spec_rot_ccw(self) -> Point {
        Point { x: (-self.y) as i64, y: self.x }
    }

    /// The vector rescaled to length roughly `NORM_ONE`: each coordinate is
    /// multiplied by `NORM_ONE` and divided (rounding toward zero) by the
    /// floor of the length.
    pub open spec fn normalized(self) -> Point {
        Point {
            x: div_trunc(self.x * NORM_ONE, self.spec_len()) as i64,
            y: div_trunc(self.y * NORM_ONE, self.spec_len()) as i64,
        }
    }

    pub fn new(x: i64, y: i64) -> (r: Self)
        ensures
            r.x == x,
            r.y == y,
    {
        Point { x, y }
    }

    /// Componentwise sum.
    pub fn add(self, other: Point) -> (r: Self)
        requires
            i64::MIN <= self.x + other.x <= i64::MAX,
            i64::MIN <= self.y + other.y <= i64::MAX,
        ensures
            r.x == self.x + other.x,
            r.y == self.y + other.y,
            r == self.spec_add(other),
    {
        Point { x: self.x + other.x, y: self.y + other.y }
    }

    /// Componentwise difference.
    pub fn sub(self, other: Point) -> (r: Self)
        requires
            i64::MIN <= self.x - other.x <= i64::MAX,
            i64::MIN <= self.y - other.y <= i64::MAX,
        ensures
            r.x == self.x - other.x,
            r.y == self.y - other.y,
            r == self.spec_sub(other),
    {
        Point { x: self.x - other.x, y: self.y - other.y }
    }

    /// Scaling by an integer factor; multiplication commutes, so this is
    /// the one form of the original's two scalar products.
    pub fn mul(self, k: i64) -> (r: Self)
        requires
            i64::MIN <= self.x * k <= i64::MAX,
            i64::MIN <= self.y * k <= i64::MAX,
        ensures
            r.x == self.x * k,
            r.y == self.y * k,
    {
        Point { x: self.x * k, y: self.y * k }
    }

    /// Floor of the Euclidean length.
    pub fn len(&self) -> (r: i64)
        requires
            self.len_bounded(),
        ensures
            0 <= r <= 0x8000_0000,
            r == self.spec_len(),
    {
        proof {
            assert(0 <= self.x * self.x <= 0x1000_0000_0000_0000
                && 0 <= self.y * self.y <= 0x1000_0000_0000_0000) by (nonlinear_arith)
                requires
                    -0x4000_0000 <= self.x <= 0x4000_0000,
                    -0x4000_0000 <= self.y <= 0x4000_0000,
            ;
        }
        let xx: i64 = self.x * self.x;
        let yy: i64 = self.y * self.y;
        let s: u64 = (xx + yy) as u64;
        let r: u64 = isqrt(s);
        proof {
            assert(r <= 0x8000_0000) by (nonlinear_arith)
                requires
                    r * r <= 0x2000_0000_0000_0001,
            ;
        }
        r as i64
    }

    /// The vector rescaled to point the same way with length roughly
    /// `NORM_ONE`. The zero vector has no direction, so it is ruled out by
    /// precondition rather than letting a division fail.
    pub fn norm(&self) -> (r: Self)
        requires
            self.len_bounded(),
            !self.is_zero(),
        ensures
            r == self.normalized(),
            -NORM_ONE <= r.x <= NORM_ONE,
            -NORM_ONE <= r.y <= NORM_ONE,
    {
        let l: i64 = self.len();
        proof {
            lemma_len_positive(*self);
            lemma_norm_bounds(*self);
            assert(-0x1_0000_0000_0000 <= self.x * NORM_ONE <= 0x1_0000_0000_0000
                && -0x1_0000_0000_0000 <= self.y * NORM_ONE <= 0x1_0000_0000_0000)
                by (nonlinear_arith)
                requires
                    -0x4000_0000 <= self.x <= 0x4000_0000,
                    -0x4000_0000 <= self.y <= 0x4000_0000,
                    NORM_ONE == 1024,
            ;
        }
        let nx: i64 = div_trunc_i64(self.x * NORM_ONE, l);
        let ny: i64 = div_trunc_i64(self.y * NORM_ONE, l);
        Point { x: nx, y: ny }
    }

    /// `norm`, with the zero vector rejected as an explicit `None` instead
    /// of a precondition violation.
    pub fn try_norm(&self) -> (r: Option<Point>)
        requires
            self.len_bounded(),
        ensures
            match r {
                Some(u) => !self.is_zero() && u == self.normalized(),
                None => self.is_zero(),
            },
    {
        if self.x == 0 && self.y == 0 {
            None
        } else {
            Some(self.norm())
        }
    }

    /// Quarter turn clockwise: `(1, 0)` becomes `(0, -1)` in the y-down
    /// screen convention.
    pub fn rotate_90_clockwise(&self) -> (r: Self)
        requires
            self.x > i64::MIN,
        ensures
            r.x == self.y,
            r.y == -self.x,
            r == self.spec_rot_cw(),
    {
        Point { x: self.y, y: -self.x }
    }

    /// Quarter turn counter-clockwise: `(1, 0)` becomes `(0, 1)` in the
    /// y-down screen convention.
    pub fn rotate_90_counter_clockwise(&self) -> (r: Self)
        requires
            self.y > i64::MIN,
        ensures
            r.x == -self.y,
            r.y == self.x,
            r == self.spec_rot_ccw(),
    {
        Point { x: -self.y, y: self.x }
    }
}

/// Squared Euclidean distance between two points.
pub open spec fn dist_sq(a: Point, b: Point) -> int {
    (a.x - b.x) * (a.x - b.x) + (a.y - b.y) * (a.y - b.y)
}

/// A vector with a nonzero coordinate has length at least one.
pub proof fn lemma_len_positive(p: Point)
    requires
        !p.is_zero(),
    ensures
        p.spec_len() >= 1,
        p.len_sq() >= 1,
{
    assert(p.len_sq() >= 1) by (nonlinear_arith)
        requires
            !(p.x == 0 && p.y == 0),
    ;
    lemma_sqrt_floor_bounds(p.len_sq() as nat);
    if p.spec_len() == 0 {
        assert(false);
    }
}

/// No coordinate of a vector exceeds the floor of the vector's length, so
/// the coordinates of `normalized` stay within `NORM_ONE` in magnitude.
pub proof fn lemma_norm_bounds(p: Point)
    requires
        !p.is_zero(),
    ensures
        -p.spec_len() <= p.x <= p.spec_len(),
        -p.spec_len() <= p.y <= p.spec_len(),
        -NORM_ONE <= p.normalized().x <= NORM_ONE,
        -NORM_ONE <= p.normalized().y <= NORM_ONE,
{
    lemma_len_positive(p);
    lemma_sqrt_floor_bounds(p.len_sq() as nat);
    let l: int = p.spec_len();
    assert(-l <= p.x <= l && -l <= p.y <= l) by (nonlinear_arith)
        requires
            l >= 1,
            p.x * p.x + p.y * p.y < (l + 1) * (l + 1),
            p.x * p.x + p.y * p.y >= l * l,
    ;
    assert(-(NORM_ONE * l) <= p.x * NORM_ONE <= NORM_ONE * l
        && -(NORM_ONE * l) <= p.y * NORM_ONE <= NORM_ONE * l) by (nonlinear_arith)
        requires
            l >= 1,
            -l <= p.x <= l,
            -l <= p.y <= l,
            NORM_ONE == 1024,
    ;
    lemma_div_trunc_bound(p.x * NORM_ONE, l, NORM_ONE as int);
    lemma_div_trunc_bound(p.y * NORM_ONE, l, NORM_ONE as int);
}

} // verus!
