//! The piecewise cubic Bezier engine: control points, transient segments,
//! global evaluation of position and tangent, and the ribbon outline.
//!
//! The global parameter `t` is a fixed-point `i64` scaled by `PARAM_ONE`:
//! its quotient by `PARAM_ONE` selects a segment and its remainder is the
//! local parameter. Every evaluation result is stated exactly as a quotient
//! of an integer polynomial in the control coordinates.

use crate::math::{
    div_trunc, div_trunc_i64, lemma_div_trunc_bound, lemma_div_trunc_multiple, lemma_mul_abs_le,
    lemma_mul_le,
};
use crate::point::{dist_sq, lemma_norm_bounds, Point, NORM_ONE};
use vstd::arithmetic::div_mod::{
    lemma_div_multiples_vanish, lemma_fundamental_div_mod, lemma_mod_bound,
};
use vstd::pervasive::VecAdditionalExecFns;
use vstd::prelude::*;

verus! {

/// One unit of the global parameter: `t == PARAM_ONE` is the start of the
/// second segment.
pub const PARAM_ONE: i64 = 1024;

/// Scale of the derivative numerator: `PARAM_ONE` squared.
pub const PARAM_SQ: i64 = PARAM_ONE * PARAM_ONE;

/// Scale of the position numerator: `PARAM_ONE` cubed.
pub const PARAM_CUBE: i64 = PARAM_SQ * PARAM_ONE;

/// Largest control-coordinate magnitude under which the cubic polynomial
/// is evaluated without overflowing `i64`.
pub const COORD_MAX: i64 = 0x10_0000;

/// A control point within `COORD_MAX` in every coordinate.
pub open spec fn in_coord_bounds(p: Point) -> bool {
    &&& -COORD_MAX <= p.x <= COORD_MAX
    &&& -COORD_MAX <= p.y <= COORD_MAX
}

/// One knot of the piecewise curve: an on-curve anchor and the incoming
/// and outgoing tangent-control positions. No invariant is enforced after
/// construction; the fields are freely mutable.
#[derive(Clone, Copy, Debug, PartialEq, Eq, Structural)]
pub struct BezierPoint {
    pub origin: Point,
    pub handle_a: Point,
    pub handle_b: Point,
}

impl BezierPoint {
    pub open spec fn bounded(self) -> bool {
        &&& in_coord_bounds(self.origin)
        &&& in_coord_bounds(self.handle_a)
        &&& in_coord_bounds(self.handle_b)
    }

    /// Three-handle form: both tangent handles supplied explicitly, so the
    /// joint may be asymmetric.
    pub fn new(origin: Point, handle_a: Point, handle_b: Point) -> (r: Self)
        ensures
            r.origin == origin,
            r.handle_a == handle_a,
            r.handle_b == handle_b,
    {
        BezierPoint { origin, handle_a, handle_b }
    }

    /// Two-handle convenience form: `handle_b` is placed at
    /// `origin + (handle_a - origin)`, the default smooth joint.
    pub fn symmetric(origin: Point, handle_a: Point) -> (r: Self)
        ensures
            r.origin == origin,
            r.handle_a == handle_a,
            r.handle_b.x == origin.x + (handle_a.x - origin.x),
            r.handle_b.y == origin.y + (handle_a.y - origin.y),
    {
        BezierPoint { origin, handle_a, handle_b: handle_a }
    }
}

/// Numerator of the explicit cubic Bezier position at local parameter
/// `n / PARAM_ONE`, scaled by `PARAM_CUBE`.
pub open spec fn bez_coord(p0: int, p1: int, p2: int, p3: int, n: int) -> int {
    (PARAM_ONE - n) * (PARAM_ONE - n) * (PARAM_ONE - n) * p0
        + 3 * ((PARAM_ONE - n) * (PARAM_ONE - n)) * n * p1
        + 3 * (PARAM_ONE - n) * (n * n) * p2
        + n * n * n * p3
}

/// Numerator of the cubic Bezier derivative with respect to the local
/// parameter, scaled by `PARAM_SQ`.
pub open spec fn deriv_coord(p0: int, p1: int, p2: int, p3: int, n: int) -> int {
    3 * ((PARAM_ONE - n) * (PARAM_ONE - n)) * (p1 - p0)
        + 6 * ((PARAM_ONE - n) * n) * (p2 - p1)
        + 3 * (n * n) * (p3 - p2)
}

/// Exact position on the segment spanned by control points `a` and `b`,
/// with each coordinate rounded toward zero.
pub open spec fn seg_curve(a: BezierPoint, b: BezierPoint, n: int) -> Point {
    Point {
        x: div_trunc(
            bez_coord(
                a.origin.x as int,
                a.handle_b.x as int,
                b.handle_a.x as int,
                b.origin.x as int,
                n,
            ),
            PARAM_CUBE as int,
        ) as i64,
        y: div_trunc(
            bez_coord(
                a.origin.y as int,
                a.handle_b.y as int,
                b.handle_a.y as int,
                b.origin.y as int,
                n,
            ),
            PARAM_CUBE as int,
        ) as i64,
    }
}

/// Exact tangent on the segment spanned by `a` and `b`, rounded toward zero.
pub open spec fn seg_deriv(a: BezierPoint, b: BezierPoint, n: int) -> Point {
    Point {
        x: div_trunc(
            deriv_coord(
                a.origin.x as int,
                a.handle_b.x as int,
                b.handle_a.x as int,
                b.origin.x as int,
                n,
            ),
            PARAM_SQ as int,
        ) as i64,
        y: div_trunc(
            deriv_coord(
                a.origin.y as int,
                a.handle_b.y as int,
                b.handle_a.y as int,
                b.origin.y as int,
                n,
            ),
            PARAM_SQ as int,
        ) as i64,
    }
}

/// The position numerator stays within eight weighted coordinate units.
pub proof fn lemma_bez_coord_bound(p0: int, p1: int, p2: int, p3: int, n: int)
    requires
        0 <= n <= PARAM_ONE,
        -COORD_MAX <= p0 <= COORD_MAX,
        -COORD_MAX <= p1 <= COORD_MAX,
        -COORD_MAX <= p2 <= COORD_MAX,
        -COORD_MAX <= p3 <= COORD_MAX,
    ensures
        -((8 * COORD_MAX) * PARAM_CUBE) <= bez_coord(p0, p1, p2, p3, n) <= (8 * COORD_MAX)
            * PARAM_CUBE,
{
    let s1: int = PARAM_ONE - n;
    lemma_mul_le(s1, 1024, s1, 1024);
    lemma_mul_le(s1 * s1, 1048576, s1, 1024);
    lemma_mul_le(n, 1024, n, 1024);
    lemma_mul_le(n * n, 1048576, n, 1024);
    lemma_mul_le(3 * (s1 * s1), 3145728, n, 1024);
    lemma_mul_le(3 * s1, 3072, n * n, 1048576);
    lemma_mul_abs_le(s1 * s1 * s1, 1073741824, p0, COORD_MAX as int);
    lemma_mul_abs_le(3 * (s1 * s1) * n, 3221225472, p1, COORD_MAX as int);
    lemma_mul_abs_le(3 * s1 * (n * n), 3221225472, p2, COORD_MAX as int);
    lemma_mul_abs_le(n * n * n, 1073741824, p3, COORD_MAX as int);
}

/// The derivative numerator stays within twenty-four weighted coordinate
/// units.
pub proof fn lemma_deriv_coord_bound(p0: int, p1: int, p2: int, p3: int, n: int)
    requires
        0 <= n <= PARAM_ONE,
        -COORD_MAX <= p0 <= COORD_MAX,
        -COORD_MAX <= p1 <= COORD_MAX,
        -COORD_MAX <= p2 <= COORD_MAX,
        -COORD_MAX <= p3 <= COORD_MAX,
    ensures
        -((24 * COORD_MAX) * PARAM_SQ) <= deriv_coord(p0, p1, p2, p3, n) <= (24 * COORD_MAX)
            * PARAM_SQ,
{
    let s1: int = PARAM_ONE - n;
    lemma_mul_le(s1, 1024, s1, 1024);
    lemma_mul_le(s1, 1024, n, 1024);
    lemma_mul_le(n, 1024, n, 1024);
    lemma_mul_abs_le(3 * (s1 * s1), 3145728, p1 - p0, 2 * COORD_MAX as int);
    lemma_mul_abs_le(6 * (s1 * n), 6291456, p2 - p1, 2 * COORD_MAX as int);
    lemma_mul_abs_le(3 * (n * n), 3145728, p3 - p2, 2 * COORD_MAX as int);
}

/// Evaluates the position numerator in `i64`.
fn bez_num(p0: i64, p1: i64, p2: i64, p3: i64, n: i64) -> (r: i64)
    requires
        0 <= n <= PARAM_ONE,
        -COORD_MAX <= p0 <= COORD_MAX,
        -COORD_MAX <= p1 <= COORD_MAX,
        -COORD_MAX <= p2 <= COORD_MAX,
        -COORD_MAX <= p3 <= COORD_MAX,
    ensures
        r == bez_coord(p0 as int, p1 as int, p2 as int, p3 as int, n as int),
{
    let s1: i64 = PARAM_ONE - n;
    proof {
        lemma_mul_le(s1 as int, 1024, s1 as int, 1024);
        lemma_mul_le(s1 as int * s1 as int, 1048576, s1 as int, 1024);
        lemma_mul_le(n as int, 1024, n as int, 1024);
        lemma_mul_le(n as int * n as int, 1048576, n as int, 1024);
        lemma_mul_le(3 * (s1 as int * s1 as int), 3145728, n as int, 1024);
        lemma_mul_le(3 * s1 as int, 3072, n as int * n as int, 1048576);
    }
    let w0: i64 = s1 * s1 * s1;
    let w1: i64 = 3 * (s1 * s1) * n;
    let w2: i64 = 3 * s1 * (n * n);
    let w3: i64 = n * n * n;
    proof {
        lemma_mul_abs_le(w0 as int, 1073741824, p0 as int, COORD_MAX as int);
        lemma_mul_abs_le(w1 as int, 3221225472, p1 as int, COORD_MAX as int);
        lemma_mul_abs_le(w2 as int, 3221225472, p2 as int, COORD_MAX as int);
        lemma_mul_abs_le(w3 as int, 1073741824, p3 as int, COORD_MAX as int);
    }
    w0 * p0 + w1 * p1 + w2 * p2 + w3 * p3
}

/// Evaluates the derivative numerator in `i64`.
fn deriv_num(p0: i64, p1: i64, p2: i64, p3: i64, n: i64) -> (r: i64)
    requires
        0 <= n <= PARAM_ONE,
        -COORD_MAX <= p0 <= COORD_MAX,
        -COORD_MAX <= p1 <= COORD_MAX,
        -COORD_MAX <= p2 <= COORD_MAX,
        -COORD_MAX <= p3 <= COORD_MAX,
    ensures
        r == deriv_coord(p0 as int, p1 as int, p2 as int, p3 as int, n as int),
{
    let s1: i64 = PARAM_ONE - n;
    let d1: i64 = p1 - p0;
    let d2: i64 = p2 - p1;
    let d3: i64 = p3 - p2;
    proof {
        lemma_mul_le(s1 as int, 1024, s1 as int, 1024);
        lemma_mul_le(s1 as int, 1024, n as int, 1024);
        lemma_mul_le(n as int, 1024, n as int, 1024);
    }
    let u0: i64 = 3 * (s1 * s1);
    let u1: i64 = 6 * (s1 * n);
    let u2: i64 = 3 * (n * n);
    proof {
        lemma_mul_abs_le(u0 as int, 3145728, d1 as int, 2 * COORD_MAX as int);
        lemma_mul_abs_le(u1 as int, 6291456, d2 as int, 2 * COORD_MAX as int);
        lemma_mul_abs_le(u2 as int, 3145728, d3 as int, 2 * COORD_MAX as int);
    }
    u0 * d1 + u1 * d2 + u2 * d3
}

/// A transient view over two adjacent control points, evaluated in the
/// standard cubic Bezier form with `p0 = point_a.origin`,
/// `p1 = point_a.handle_b`, `p2 = point_b.handle_a`, `p3 = point_b.origin`.
#[derive(Debug, Clone, Copy)]
pub struct BezierSegment<'a> {
    pub point_a: &'a BezierPoint,
    pub point_b: &'a BezierPoint,
}

impl BezierSegment<'_> {
    /// Position on this segment at local parameter `n / PARAM_ONE`.
    pub fn curve(&self, n: i64) -> (r: Point)
        requires
            0 <= n <= PARAM_ONE,
            self.point_a.bounded(),
            self.point_b.bounded(),
        ensures
            r == seg_curve(*self.point_a, *self.point_b, n as int),
            -8 * COORD_MAX <= r.x <= 8 * COORD_MAX,
            -8 * COORD_MAX <= r.y <= 8 * COORD_MAX,
    {
        let nx: i64 = bez_num(
            self.point_a.origin.x,
            self.point_a.handle_b.x,
            self.point_b.handle_a.x,
            self.point_b.origin.x,
            n,
        );
        let ny: i64 = bez_num(
            self.point_a.origin.y,
            self.point_a.handle_b.y,
            self.point_b.handle_a.y,
            self.point_b.origin.y,
            n,
        );
        proof {
            lemma_bez_coord_bound(
                self.point_a.origin.x as int,
                self.point_a.handle_b.x as int,
                self.point_b.handle_a.x as int,
                self.point_b.origin.x as int,
                n as int,
            );
            lemma_bez_coord_bound(
                self.point_a.origin.y as int,
                self.point_a.handle_b.y as int,
                self.point_b.handle_a.y as int,
                self.point_b.origin.y as int,
                n as int,
            );
            lemma_div_trunc_bound(nx as int, PARAM_CUBE as int, 8 * COORD_MAX as int);
            lemma_div_trunc_bound(ny as int, PARAM_CUBE as int, 8 * COORD_MAX as int);
        }
        Point { x: div_trunc_i64(nx, PARAM_CUBE), y: div_trunc_i64(ny, PARAM_CUBE) }
    }

    /// Tangent of this segment at local parameter `n / PARAM_ONE`, taken
    /// with respect to the local parameter.
    pub fn derivative(&self, n: i64) -> (r: Point)
        requires
            0 <= n <= PARAM_ONE,
            self.point_a.bounded(),
            self.point_b.bounded(),
        ensures
            r == seg_deriv(*self.point_a, *self.point_b, n as int),
            -24 * COORD_MAX <= r.x <= 24 * COORD_MAX,
            -24 * COORD_MAX <= r.y <= 24 * COORD_MAX,
            r.len_bounded(),
    {
        let nx: i64 = deriv_num(
            self.point_a.origin.x,
            self.point_a.handle_b.x,
            self.point_b.handle_a.x,
            self.point_b.origin.x,
            n,
        );
        let ny: i64 = deriv_num(
            self.point_a.origin.y,
            self.point_a.handle_b.y,
            self.point_b.handle_a.y,
            self.point_b.origin.y,
            n,
        );
        proof {
            lemma_deriv_coord_bound(
                self.point_a.origin.x as int,
                self.point_a.handle_b.x as int,
                self.point_b.handle_a.x as int,
                self.point_b.origin.x as int,
                n as int,
            );
            lemma_deriv_coord_bound(
                self.point_a.origin.y as int,
                self.point_a.handle_b.y as int,
                self.point_b.handle_a.y as int,
                self.point_b.origin.y as int,
                n as int,
            );
            lemma_div_trunc_bound(nx as int, PARAM_SQ as int, 24 * COORD_MAX as int);
            lemma_div_trunc_bound(ny as int, PARAM_SQ as int, 24 * COORD_MAX as int);
        }
        Point { x: div_trunc_i64(nx, PARAM_SQ), y: div_trunc_i64(ny, PARAM_SQ) }
    }
}

/// Every control point is within `COORD_MAX`.
pub open spec fn wf_points(ps: Seq<BezierPoint>) -> bool {
    forall|i: int| 0 <= i < ps.len() ==> (#[trigger] ps[i]).bounded()
}

/// Global position: `t / PARAM_ONE` selects a segment and the remainder is
/// the local parameter. Negative parameters, parameters at or beyond the
/// last segment, and curves with fewer than two control points give no
/// result.
pub open spec fn curve_spec(ps: Seq<BezierPoint>, t: int) -> Option<Point> {
    if 0 <= t && ps.len() >= 2 && t < PARAM_ONE * (ps.len() - 1) {
        Some(
            seg_curve(
                ps[t / (PARAM_ONE as int)],
                ps[t / (PARAM_ONE as int) + 1],
                t % (PARAM_ONE as int),
            ),
        )
    } else {
        None
    }
}

/// Global tangent, under the same domain rules as `curve_spec`.
pub open spec fn deriv_spec(ps: Seq<BezierPoint>, t: int) -> Option<Point> {
    if 0 <= t && ps.len() >= 2 && t < PARAM_ONE * (ps.len() - 1) {
        Some(
            seg_deriv(
                ps[t / (PARAM_ONE as int)],
                ps[t / (PARAM_ONE as int) + 1],
                t % (PARAM_ONE as int),
            ),
        )
    } else {
        None
    }
}

/// An ordered sequence of control points; insertion order is segment order.
#[derive(Clone, Debug)]
pub struct BezierCurve {
    points: Vec<BezierPoint>,
}

impl View for BezierCurve {
    type V = Seq<BezierPoint>;

    closed spec fn view(&self) -> Seq<BezierPoint> {
        self.points@
    }
}

impl Default for BezierCurve {
    fn default() -> (r: Self)
        ensures
            r@ == Seq::<BezierPoint>::empty(),
    {
        BezierCurve { points: Vec::new() }
    }
}

/// The coordinates of a point are small enough for curve evaluation.
fn coord_bounds_check(p: &Point) -> (b: bool)
    ensures
        b == in_coord_bounds(*p),
{
    -COORD_MAX <= p.x && p.x <= COORD_MAX && -COORD_MAX <= p.y && p.y <= COORD_MAX
}

/// All three features of a control point are within `COORD_MAX`.
fn control_point_check(p: &BezierPoint) -> (b: bool)
    ensures
        b == p.bounded(),
{
    coord_bounds_check(&p.origin) && coord_bounds_check(&p.handle_a) && coord_bounds_check(
        &p.handle_b,
    )
}

impl BezierCurve {
    pub open spec fn wf(&self) -> bool {
        wf_points(self@)
    }

    pub fn new() -> (r: Self)
        ensures
            r@ == Seq::<BezierPoint>::empty(),
    {
        BezierCurve { points: Vec::new() }
    }

    /// Appends a control point at the end; no validation is performed.
    pub fn add_point(&mut self, p: BezierPoint)
        ensures
            final(self)@ == old(self)@.push(p),
    {
        self.points.push(p);
    }

    pub fn get(&self, idx: usize) -> (r: Option<&BezierPoint>)
        ensures
            match r {
                Some(p) => idx < self@.len() && *p == self@[idx as int],
                None => idx >= self@.len(),
            },
    {
        if idx < self.points.len() {
            Some(&self.points[idx])
        } else {
            None
        }
    }

    /// Read-write access to a control point. An index out of bounds is a
    /// programming error, ruled out by precondition.
    pub fn get_mut(&mut self, idx: usize) -> (r: &mut BezierPoint)
        requires
            idx < old(self)@.len(),
        ensures
            *r == old(self)@[idx as int],
            final(self)@ == old(self)@.update(idx as int, *final(r)),
    {
        &mut self.points[idx]
    }

    pub fn as_slice(&self) -> (r: &[BezierPoint])
        ensures
            r@ == self@,
    {
        self.points.as_slice()
    }

    pub fn as_mut_slice(&mut self) -> (r: &mut [BezierPoint])
        ensures
            r@ == old(self)@,
            final(r)@ == final(self)@,
    {
        self.points.as_mut_slice()
    }

    /// Whether every control point is within `COORD_MAX`, the explicit
    /// validation expected before evaluation.
    pub fn check_bounded(&self) -> (b: bool)
        ensures
            b == self.wf(),
    {
        let mut i: usize = 0;
        while i < self.points.len()
            invariant
                i <= self@.len(),
                forall|j: int| 0 <= j < i ==> (#[trigger] self@[j]).bounded(),
            decreases self@.len() - i,
        {
            if !control_point_check(&self.points[i]) {
                return false;
            }
            i = i + 1;
        }
        true
    }

    /// The point along the curve for the global parameter `t`.
    pub fn curve(&self, t: i64) -> (r: Option<Point>)
        requires
            self.wf(),
        ensures
            r == curve_spec(self@, t as int),
            t < 0 ==> r is None,
            self@.len() < 2 ==> r is None,
            t >= PARAM_ONE * (self@.len() - 1) ==> r is None,
            (0 <= t && 2 <= self@.len() && t < PARAM_ONE * (self@.len() - 1)) ==> r is Some,
    {
        if t < 0 {
            return None;
        }
        let count: usize = self.points.len();
        if count < 2 {
            return None;
        }
        proof {
            lemma_fundamental_div_mod(t as int, PARAM_ONE as int);
            lemma_mod_bound(t as int, PARAM_ONE as int);
        }
        let seg_u: u64 = (t as u64) / (PARAM_ONE as u64);
        if seg_u >= (count - 1) as u64 {
            return None;
        }
        let seg: usize = seg_u as usize;
        let n: i64 = ((t as u64) % (PARAM_ONE as u64)) as i64;
        let s = BezierSegment { point_a: &self.points[seg], point_b: &self.points[seg + 1] };
        Some(s.curve(n))
    }

    /// The tangent of the curve for the global parameter `t`, with respect
    /// to the local segment parameter.
    pub fn derivative(&self, t: i64) -> (r: Option<Point>)
        requires
            self.wf(),
        ensures
            r == deriv_spec(self@, t as int),
            t < 0 ==> r is None,
            self@.len() < 2 ==> r is None,
            t >= PARAM_ONE * (self@.len() - 1) ==> r is None,
            (0 <= t && 2 <= self@.len() && t < PARAM_ONE * (self@.len() - 1)) ==> r is Some,
    {
        if t < 0 {
            return None;
        }
        let count: usize = self.points.len();
        if count < 2 {
            return None;
        }
        proof {
            lemma_fundamental_div_mod(t as int, PARAM_ONE as int);
            lemma_mod_bound(t as int, PARAM_ONE as int);
        }
        let seg_u: u64 = (t as u64) / (PARAM_ONE as u64);
        if seg_u >= (count - 1) as u64 {
            return None;
        }
        let seg: usize = seg_u as usize;
        let n: i64 = ((t as u64) % (PARAM_ONE as u64)) as i64;
        let s = BezierSegment { point_a: &self.points[seg], point_b: &self.points[seg + 1] };
        Some(s.derivative(n))
    }
}

/// Moves one draggable feature of the first two control points by `m`:
/// index 1 is the first anchor, 2 the first point's outgoing handle, 3 the
/// second point's incoming handle, 4 the second anchor. Any other index is
/// a programming error, ruled out by precondition.
pub fn move_point(idx: usize, curve: &mut BezierCurve, m: Point)
    requires
        1 <= idx <= 4,
        old(curve)@.len() >= 2,
        old(curve).wf(),
        in_coord_bounds(m),
    ensures
        idx == 1 ==> final(curve)@ == old(curve)@.update(
            0,
            (BezierPoint {
                origin: old(curve)@[0].origin.spec_add(m),
                handle_a: old(curve)@[0].handle_a,
                handle_b: old(curve)@[0].handle_b,
            }),
        ),
        idx == 2 ==> final(curve)@ == old(curve)@.update(
            0,
            (BezierPoint {
                origin: old(curve)@[0].origin,
                handle_a: old(curve)@[0].handle_a,
                handle_b: old(curve)@[0].handle_b.spec_add(m),
            }),
        ),
        idx == 3 ==> final(curve)@ == old(curve)@.update(
            1,
            (BezierPoint {
                origin: old(curve)@[1].origin,
                handle_a: old(curve)@[1].handle_a.spec_add(m),
                handle_b: old(curve)@[1].handle_b,
            }),
        ),
        idx == 4 ==> final(curve)@ == old(curve)@.update(
            1,
            (BezierPoint {
                origin: old(curve)@[1].origin.spec_add(m),
                handle_a: old(curve)@[1].handle_a,
                handle_b: old(curve)@[1].handle_b,
            }),
        ),
{
    if idx == 1 {
        let mut p: BezierPoint = control_point_at(curve, 0);
        p.origin = p.origin.add(m);
        curve.points.set(0, p);
    } else if idx == 2 {
        let mut p: BezierPoint = control_point_at(curve, 0);
        p.handle_b = p.handle_b.add(m);
        curve.points.set(0, p);
    } else if idx == 3 {
        let mut p: BezierPoint = control_point_at(curve, 1);
        p.handle_a = p.handle_a.add(m);
        curve.points.set(1, p);
    } else {
        let mut p: BezierPoint = control_point_at(curve, 1);
        p.origin = p.origin.add(m);
        curve.points.set(1, p);
    }
}

/// Copies the control point at `idx`.
fn control_point_at(curve: &BezierCurve, idx: usize) -> (r: BezierPoint)
    requires
        idx < curve@.len(),
    ensures
        r == curve@[idx as int],
{
    curve.points[idx]
}

/// Number of samples the ribbon outline takes across `[0, PARAM_ONE)`.
pub const MESH_LEN: usize = 64;

/// Parameter step between consecutive outline samples: `PARAM_ONE`
/// divided by `MESH_LEN`.
pub const MESH_STEP: i64 = 16;

/// Half the width of the ribbon outline, in coordinate units.
pub const HALF_WIDTH: i64 = 15;

/// The outline's precondition: at least two control points, and none of
/// the sampled tangents of the first segment is zero (a zero tangent has
/// no direction to thicken along).
pub open spec fn meshable(ps: Seq<BezierPoint>) -> bool {
    &&& ps.len() >= 2
    &&& forall|i: int|
        0 <= i < MESH_LEN ==> !(#[trigger] seg_deriv(ps[0], ps[1], i * MESH_STEP)).is_zero()
}

/// Half-width offset at sample `i`: the tangent, normalized, turned a
/// quarter clockwise, and rescaled from `NORM_ONE` to `HALF_WIDTH` units.
pub open spec fn mesh_offset(ps: Seq<BezierPoint>, i: int) -> Point {
    let rot = seg_deriv(ps[0], ps[1], i * MESH_STEP).normalized().spec_rot_cw();
    Point {
        x: div_trunc(rot.x * HALF_WIDTH, NORM_ONE as int) as i64,
        y: div_trunc(rot.y * HALF_WIDTH, NORM_ONE as int) as i64,
    }
}

/// Outline pair at sample `i`: the curve point pushed to either side by
/// the half-width offset.
pub open spec fn mesh_sample(ps: Seq<BezierPoint>, i: int) -> (Point, Point) {
    let p = seg_curve(ps[0], ps[1], i * MESH_STEP);
    let o = mesh_offset(ps, i);
    (p.spec_add(o), p.spec_sub(o))
}

/// A lazy, restartable cursor over the outline pairs of a curve. Sample
/// `i` covers parameter `i * MESH_STEP`, so the domain traced is
/// `[0, PARAM_ONE)` — the first segment — whatever the number of segments.
pub struct BezierCurveMesh<'a> {
    curve: &'a BezierCurve,
    idx: usize,
}

impl<'a> BezierCurveMesh<'a> {
    /// The control points the cursor walks over.
    pub closed spec fn points(&self) -> Seq<BezierPoint> {
        self.curve@
    }

    /// The index of the next sample to be produced.
    pub closed spec fn pos(&self) -> int {
        self.idx as int
    }

    /// The next outline pair, or nothing once all samples are spent.
    pub fn next(&mut self) -> (r: Option<(Point, Point)>)
        requires
            wf_points(old(self).points()),
            meshable(old(self).points()),
        ensures
            final(self).points() == old(self).points(),
            old(self).pos() >= MESH_LEN ==> r is None && final(self).pos() == old(self).pos(),
            old(self).pos() < MESH_LEN ==> r == Some(
                mesh_sample(old(self).points(), old(self).pos()),
            ) && final(self).pos() == old(self).pos() + 1,
    {
        if self.idx >= MESH_LEN {
            return None;
        }
        let t: i64 = (self.idx as i64) * MESH_STEP;
        let s = BezierSegment { point_a: &self.curve.points[0], point_b: &self.curve.points[1] };
        let p = s.curve(t);
        let d = s.derivative(t);
        proof {
            assert(!seg_deriv(
                old(self).points()[0],
                old(self).points()[1],
                old(self).pos() * MESH_STEP,
            ).is_zero());
        }
        let u = d.norm();
        let rot = u.rotate_90_clockwise();
        proof {
            lemma_div_trunc_bound(rot.x * HALF_WIDTH, NORM_ONE as int, HALF_WIDTH as int);
            lemma_div_trunc_bound(rot.y * HALF_WIDTH, NORM_ONE as int, HALF_WIDTH as int);
        }
        let ox: i64 = div_trunc_i64(rot.x * HALF_WIDTH, NORM_ONE);
        let oy: i64 = div_trunc_i64(rot.y * HALF_WIDTH, NORM_ONE);
        let o = Point { x: ox, y: oy };
        let pa = p.add(o);
        let pb = p.sub(o);
        self.idx = self.idx + 1;
        Some((pa, pb))
    }
}

impl BezierCurve {
    /// A fresh outline cursor, starting at the first sample.
    pub fn mesh(&self) -> (r: BezierCurveMesh)
        ensures
            r.points() == self@,
            r.pos() == 0,
    {
        BezierCurveMesh { curve: self, idx: 0 }
    }

    /// All `MESH_LEN` outline pairs, in sample order.
    pub fn mesh_points(&self) -> (r: Vec<(Point, Point)>)
        requires
            self.wf(),
            meshable(self@),
        ensures
            r@.len() == MESH_LEN,
            forall|i: int| 0 <= i < MESH_LEN ==> r@[i] == mesh_sample(self@, i),
    {
        let mut m: BezierCurveMesh = self.mesh();
        let mut out: Vec<(Point, Point)> = Vec::new();
        while out.len() < MESH_LEN
            invariant
                m.points() == self@,
                wf_points(self@),
                meshable(self@),
                m.pos() == out@.len(),
                out@.len() <= MESH_LEN,
                forall|i: int| 0 <= i < out@.len() ==> out@[i] == mesh_sample(self@, i),
            decreases MESH_LEN - out@.len(),
        {
            let item = m.next();
            match item {
                Some(pair) => {
                    out.push(pair);
                },
                None => {
                    proof {
                        assert(false);
                    }
                },
            }
        }
        out
    }

    /// Whether the outline's precondition holds, as a run-time check: at
    /// least two control points, and no sampled tangent of the first
    /// segment is zero. This is the fail-fast test expected before the
    /// outline is consumed.
    pub fn can_mesh(&self) -> (b: bool)
        requires
            self.wf(),
        ensures
            b == meshable(self@),
    {
        if self.points.len() < 2 {
            return false;
        }
        let mut i: usize = 0;
        while i < MESH_LEN
            invariant
                self.wf(),
                self@.len() >= 2,
                i <= MESH_LEN,
                forall|j: int|
                    0 <= j < i ==> !(#[trigger] seg_deriv(
                        self@[0],
                        self@[1],
                        j * MESH_STEP,
                    )).is_zero(),
            decreases MESH_LEN - i,
        {
            let t: i64 = (i as i64) * MESH_STEP;
            let s = BezierSegment { point_a: &self.points[0], point_b: &self.points[1] };
            let d = s.derivative(t);
            if d.x == 0 && d.y == 0 {
                proof {
                    assert(seg_deriv(self@[0], self@[1], (i as int) * MESH_STEP).is_zero());
                }
                return false;
            }
            i = i + 1;
        }
        true
    }
}

/// Segment positions stay within eight coordinate units of the control
/// bound, and the stored coordinate equals the exact quotient.
pub proof fn lemma_seg_curve_bounds(a: BezierPoint, b: BezierPoint, n: int)
    requires
        a.bounded(),
        b.bounded(),
        0 <= n <= PARAM_ONE,
    ensures
        -8 * COORD_MAX <= seg_curve(a, b, n).x <= 8 * COORD_MAX,
        -8 * COORD_MAX <= seg_curve(a, b, n).y <= 8 * COORD_MAX,
{
    lemma_bez_coord_bound(
        a.origin.x as int,
        a.handle_b.x as int,
        b.handle_a.x as int,
        b.origin.x as int,
        n,
    );
    lemma_bez_coord_bound(
        a.origin.y as int,
        a.handle_b.y as int,
        b.handle_a.y as int,
        b.origin.y as int,
        n,
    );
    lemma_div_trunc_bound(
        bez_coord(a.origin.x as int, a.handle_b.x as int, b.handle_a.x as int, b.origin.x as int, n),
        PARAM_CUBE as int,
        8 * COORD_MAX as int,
    );
    lemma_div_trunc_bound(
        bez_coord(a.origin.y as int, a.handle_b.y as int, b.handle_a.y as int, b.origin.y as int, n),
        PARAM_CUBE as int,
        8 * COORD_MAX as int,
    );
}

/// The Bernstein weights collapse at the ends of a segment: at the local
/// parameter 0 only `p0` remains, at `PARAM_ONE` only `p3`.
pub proof fn lemma_bez_coord_ends(p0: int, p1: int, p2: int, p3: int)
    ensures
        bez_coord(p0, p1, p2, p3, 0) == (PARAM_CUBE as int) * p0,
        bez_coord(p0, p1, p2, p3, PARAM_ONE as int) == (PARAM_CUBE as int) * p3,
{
    let s: int = PARAM_ONE as int;
    assert(s == 1024);
    let e0: int = bez_coord(p0, p1, p2, p3, 0);
    assert(e0 == (s - 0) * (s - 0) * (s - 0) * p0 + 3 * ((s - 0) * (s - 0)) * 0 * p1 + 3 * (s - 0)
        * (0 * 0) * p2 + 0 * 0 * 0 * p3);
    assert(e0 == 1073741824 * p0) by (nonlinear_arith)
        requires
            s == 1024,
            e0 == (s - 0) * (s - 0) * (s - 0) * p0 + 3 * ((s - 0) * (s - 0)) * 0 * p1 + 3 * (s - 0)
                * (0 * 0) * p2 + 0 * 0 * 0 * p3,
    ;
    let e1: int = bez_coord(p0, p1, p2, p3, s);
    assert(e1 == (s - s) * (s - s) * (s - s) * p0 + 3 * ((s - s) * (s - s)) * s * p1 + 3 * (s - s)
        * (s * s) * p2 + s * s * s * p3);
    assert(e1 == 1073741824 * p3) by (nonlinear_arith)
        requires
            s == 1024,
            e1 == (s - s) * (s - s) * (s - s) * p0 + 3 * ((s - s) * (s - s)) * s * p1 + 3 * (s - s)
                * (s * s) * p2 + s * s * s * p3,
    ;
    assert((PARAM_CUBE as int) == 1073741824);
    assert((PARAM_CUBE as int) * p0 == 1073741824 * p0);
    assert((PARAM_CUBE as int) * p3 == 1073741824 * p3);
}

/// The curve passes exactly through its anchors: at the integer parameter
/// `k` the position is control point `k`'s origin.
pub proof fn lemma_curve_at_origin(ps: Seq<BezierPoint>, k: int)
    requires
        0 <= k < ps.len() - 1,
    ensures
        curve_spec(ps, k * PARAM_ONE) == Some(ps[k].origin),
{
    let t: int = k * PARAM_ONE;
    lemma_fundamental_div_mod(t, PARAM_ONE as int);
    lemma_div_multiples_vanish(k, PARAM_ONE as int);
    assert(t / (PARAM_ONE as int) == k);
    assert(t % (PARAM_ONE as int) == 0);
    let a: BezierPoint = ps[k];
    let b: BezierPoint = ps[k + 1];
    lemma_bez_coord_ends(
        a.origin.x as int,
        a.handle_b.x as int,
        b.handle_a.x as int,
        b.origin.x as int,
    );
    lemma_bez_coord_ends(
        a.origin.y as int,
        a.handle_b.y as int,
        b.handle_a.y as int,
        b.origin.y as int,
    );
    lemma_div_trunc_multiple(a.origin.x as int, PARAM_CUBE as int);
    lemma_div_trunc_multiple(a.origin.y as int, PARAM_CUBE as int);
    assert(seg_curve(a, b, 0) == a.origin);
}

/// Joint continuity: evaluating at an integer boundary yields that knot's
/// anchor, and one integer later the next knot's anchor.
pub proof fn lemma_curve_at_knots(ps: Seq<BezierPoint>, k: int)
    requires
        0 <= k < ps.len() - 1,
    ensures
        curve_spec(ps, k * PARAM_ONE) == Some(ps[k].origin),
        k + 1 < ps.len() - 1 ==> curve_spec(ps, (k + 1) * PARAM_ONE) == Some(ps[k + 1].origin),
{
    lemma_curve_at_origin(ps, k);
    if k + 1 < ps.len() - 1 {
        lemma_curve_at_origin(ps, k + 1);
    }
}

/// Adjacent segments meet exactly at their shared anchor: the end of the
/// segment into `b` and the start of the segment out of `b` are both
/// `b.origin`.
pub proof fn lemma_segment_continuity(a: BezierPoint, b: BezierPoint, c: BezierPoint)
    ensures
        seg_curve(a, b, PARAM_ONE as int) == b.origin,
        seg_curve(b, c, 0) == b.origin,
{
    lemma_bez_coord_ends(
        a.origin.x as int,
        a.handle_b.x as int,
        b.handle_a.x as int,
        b.origin.x as int,
    );
    lemma_bez_coord_ends(
        a.origin.y as int,
        a.handle_b.y as int,
        b.handle_a.y as int,
        b.origin.y as int,
    );
    lemma_bez_coord_ends(
        b.origin.x as int,
        b.handle_b.x as int,
        c.handle_a.x as int,
        c.origin.x as int,
    );
    lemma_bez_coord_ends(
        b.origin.y as int,
        b.handle_b.y as int,
        c.handle_a.y as int,
        c.origin.y as int,
    );
    lemma_div_trunc_multiple(b.origin.x as int, PARAM_CUBE as int);
    lemma_div_trunc_multiple(b.origin.y as int, PARAM_CUBE as int);
}

/// Each outline pair lies symmetrically about the curve point it samples:
/// the two points sit at exactly opposite offsets from it, hence at equal
/// squared distance, and the offset's direction (before the final
/// rescaling) is exactly perpendicular to the normalized tangent.
pub proof fn lemma_mesh_pair_geometry(ps: Seq<BezierPoint>, i: int)
    requires
        wf_points(ps),
        meshable(ps),
        0 <= i < MESH_LEN,
    ensures
        curve_spec(ps, i * MESH_STEP) == Some(seg_curve(ps[0], ps[1], i * MESH_STEP)),
        ({
            let p = seg_curve(ps[0], ps[1], i * MESH_STEP);
            let o = mesh_offset(ps, i);
            let a = mesh_sample(ps, i).0;
            let b = mesh_sample(ps, i).1;
            &&& a.x - p.x == o.x && a.y - p.y == o.y
            &&& b.x - p.x == -o.x && b.y - p.y == -o.y
            &&& -HALF_WIDTH <= o.x <= HALF_WIDTH && -HALF_WIDTH <= o.y <= HALF_WIDTH
            &&& dist_sq(a, p) == dist_sq(b, p)
        }),
        ({
            let u = seg_deriv(ps[0], ps[1], i * MESH_STEP).normalized();
            u.spec_rot_cw().x * u.x + u.spec_rot_cw().y * u.y == 0
        }),
{
    let t: int = i * MESH_STEP;
    assert(0 <= t <= PARAM_ONE);
    assert(ps[0].bounded());
    assert(ps[1].bounded());
    lemma_seg_curve_bounds(ps[0], ps[1], t);
    let d: Point = seg_deriv(ps[0], ps[1], i * MESH_STEP);
    assert(!d.is_zero());
    lemma_norm_bounds(d);
    let u: Point = d.normalized();
    let rot: Point = u.spec_rot_cw();
    assert(rot.x == u.y && rot.y == -u.x);
    lemma_div_trunc_bound(rot.x * HALF_WIDTH, NORM_ONE as int, HALF_WIDTH as int);
    lemma_div_trunc_bound(rot.y * HALF_WIDTH, NORM_ONE as int, HALF_WIDTH as int);
    let o: Point = mesh_offset(ps, i);
    let p: Point = seg_curve(ps[0], ps[1], i * MESH_STEP);
    let a: Point = mesh_sample(ps, i).0;
    let b: Point = mesh_sample(ps, i).1;
    assert(a.x - p.x == o.x && a.y - p.y == o.y);
    assert(b.x - p.x == -o.x && b.y - p.y == -o.y);
    assert(o.x * o.x + o.y * o.y == (-o.x) * (-o.x) + (-o.y) * (-o.y)) by (nonlinear_arith);
    assert(dist_sq(a, p) == dist_sq(b, p));
    assert(rot.x * u.x + rot.y * u.y == 0) by (nonlinear_arith)
        requires
            rot.x == u.y,
            rot.y == -u.x,
    ;
    assert(t / (PARAM_ONE as int) == 0);
    assert(t % (PARAM_ONE as int) == t);
}

/// The outline is a pure function of the control points: any two full
/// traversals of the same, unmodified sequence produce identical pairs.
pub proof fn lemma_mesh_deterministic(
    ps: Seq<BezierPoint>,
    s1: Seq<(Point, Point)>,
    s2: Seq<(Point, Point)>,
)
    requires
        s1.len() == MESH_LEN,
        forall|i: int| 0 <= i < MESH_LEN ==> #[trigger] s1[i] == mesh_sample(ps, i),
        s2.len() == MESH_LEN,
        forall|i: int| 0 <= i < MESH_LEN ==> #[trigger] s2[i] == mesh_sample(ps, i),
    ensures
        s1 == s2,
{
    assert(s1 =~= s2);
}

} // verus!
