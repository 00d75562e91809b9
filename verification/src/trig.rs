//! Fixed-point trigonometry: unit directions of angles, and arc tangents.
//!
//! Angles are radians in millionths.  A direction is computed from a short
//! alternating series on the first octant and a square root, so that its two
//! components always describe a vector of length one, up to rounding.

use vstd::prelude::*;
use crate::fixed::{
    ONE, floor_sqrt, is_floor_sqrt, isqrt, lemma_floor_sqrt_exists, lemma_floor_sqrt_is, lemma_mul_fraction,
    mul_fraction,
};

verus! {

/// A full turn.
pub const TWO_PI: i64 = 6_283_185;

/// Half a turn.
pub const PI: i64 = 3_141_593;

/// A quarter turn.
pub const HALF_PI: i64 = 1_570_796;

/// An eighth of a turn.
pub const QUARTER_PI: i64 = 785_398;

/// The cosine and the sine of an angle, in millionths.
#[derive(Clone, Copy, PartialEq, Eq, Structural, Debug)]
pub struct Direction {
    pub cos: i64,
    pub sin: i64,
}

/// The sine of an angle `x` of the first octant, `0 <= x <= QUARTER_PI`:
/// `x - x^3/3! + x^5/5! - x^7/7! + x^9/9!`, in nested form.
pub open spec fn sin_octant(x: int) -> int {
    let x2 = x * x / (ONE as int);
    let u4 = ONE - x2 / 72;
    let u3 = ONE - (x2 * u4 / (ONE as int)) / 42;
    let u2 = ONE - (x2 * u3 / (ONE as int)) / 20;
    let u1 = ONE - (x2 * u2 / (ONE as int)) / 6;
    x * u1 / (ONE as int)
}

/// The cosine of an angle of the first octant: what is left of the unit
/// length beside the sine.
pub open spec fn cos_octant(x: int) -> int {
    floor_sqrt(ONE * ONE - sin_octant(x) * sin_octant(x))
}

/// Cosine and sine of an angle of the first quadrant, `0 <= x <= HALF_PI`.
pub open spec fn quadrant_spec(x: int) -> (int, int) {
    if x <= QUARTER_PI {
        (cos_octant(x), sin_octant(x))
    } else {
        (sin_octant(HALF_PI - x), cos_octant(HALF_PI - x))
    }
}

/// Cosine and sine of an angle of the upper half turn, `0 <= x < PI`.
pub open spec fn half_turn_spec(x: int) -> (int, int) {
    if x <= HALF_PI {
        quadrant_spec(x)
    } else {
        let (c, s) = quadrant_spec(PI - x);
        (-c, s)
    }
}

/// Cosine and sine of any angle.
pub open spec fn cos_sin(angle: int) -> (int, int) {
    let r = angle % (TWO_PI as int);
    if r < PI {
        half_turn_spec(r)
    } else {
        let (c, s) = half_turn_spec(r - PI);
        (-c, -s)
    }
}

/// The series behind the arc tangent, for `0 <= h <= ONE / 2`:
/// `h - h^3/3 + h^5/5 - ... - h^15/15`, in nested form.
pub open spec fn arctan_series(h: int) -> int {
    let h2 = h * h / (ONE as int);
    let a6 = 76_923 - h2 * 66_666 / (ONE as int);
    let a5 = 90_909 - h2 * a6 / (ONE as int);
    let a4 = 111_111 - h2 * a5 / (ONE as int);
    let a3 = 142_857 - h2 * a4 / (ONE as int);
    let a2 = 200_000 - h2 * a3 / (ONE as int);
    let a1 = 333_333 - h2 * a2 / (ONE as int);
    let a0 = ONE - h2 * a1 / (ONE as int);
    h * a0 / (ONE as int)
}

/// The arc tangent of a slope `0 <= t <= ONE`: twice the arc tangent of the
/// half-angle slope `t / (1 + sqrt(1 + t^2))`.
pub open spec fn arctan_unit(t: int) -> int {
    let root = floor_sqrt(ONE * ONE + t * t);
    2 * arctan_series(t * ONE / (ONE + root))
}

/// The arc tangent of a non-negative slope; a slope above one goes through
/// its reciprocal.
pub open spec fn arctan_nonneg(t: int) -> int {
    if t <= ONE {
        arctan_unit(t)
    } else {
        HALF_PI - arctan_unit(ONE * ONE / t)
    }
}

/// The arc tangent of any slope; it is odd in its argument.
pub open spec fn arctan_spec(t: int) -> int {
    if t < 0 {
        -arctan_nonneg(-t)
    } else {
        arctan_nonneg(t)
    }
}

impl Direction {
    /// The direction of `angle`.
    pub open spec fn at(angle: int) -> Direction {
        let (c, s) = cos_sin(angle);
        Direction { cos: c as i64, sin: s as i64 }
    }

    /// The vector is one long, up to the rounding of its components:
    /// the squares add up to `ONE * ONE`, less at most `2 * ONE`.
    pub open spec fn unit(self) -> bool {
        ONE * ONE - 2 * ONE <= self.cos * self.cos + self.sin * self.sin <= ONE * ONE
    }

    /// The vector points into the quarter of the plane that `angle` lies
    /// in: the sine is not negative in the first half turn and not positive
    /// in the second, the cosine is not negative in the first and the last
    /// quarter and not positive in between.
    pub open spec fn in_quarter_of(self, angle: int) -> bool {
        let r = angle % (TWO_PI as int);
        &&& r < PI ==> self.sin >= 0
        &&& r >= PI ==> self.sin <= 0
        &&& r <= HALF_PI || r > PI + HALF_PI ==> self.cos >= 0
        &&& HALF_PI < r <= PI + HALF_PI ==> self.cos <= 0
    }

    /// The direction of `angle`, whatever its size or sign.
    pub fn of_angle(angle: i64) -> (d: Direction)
        ensures
            d == Direction::at(angle as int),
            (d.cos as int, d.sin as int) == cos_sin(angle as int),
            d.unit(),
            d.in_quarter_of(angle as int),
            -ONE <= d.cos <= ONE,
            -ONE <= d.sin <= ONE,
    {
        let r: i64 = match angle.checked_rem_euclid(TWO_PI) {
            Some(v) => v,
            None => 0,
        };
        if r < PI {
            let (c, s) = half_turn(r);
            Direction { cos: c, sin: s }
        } else {
            let (c, s) = half_turn(r - PI);
            assert((-c) * (-c) == c * c && (-s) * (-s) == s * s) by (nonlinear_arith);
            Direction { cos: -c, sin: -s }
        }
    }
}

/// Two components that a square root ties together are a unit vector.
proof fn lemma_unit_from_root(s: int, c: int)
    requires
        0 <= s <= ONE,
        is_floor_sqrt(ONE * ONE - s * s, c),
    ensures
        0 <= c <= ONE,
        ONE * ONE - 2 * ONE <= c * c + s * s <= ONE * ONE,
{
    assert(c <= ONE) by (nonlinear_arith)
        requires
            0 <= c,
            c * c <= ONE * ONE - s * s,
            0 <= s * s,
    ;
    assert(0 <= s * s) by (nonlinear_arith);
    assert((c + 1) * (c + 1) == c * c + 2 * c + 1) by (nonlinear_arith);
}

/// On the first octant the sine lies between zero and the angle, and it
/// forms a unit vector with the cosine.
pub proof fn lemma_octant_unit(x: int)
    requires
        0 <= x <= QUARTER_PI,
    ensures
        0 <= sin_octant(x) <= x,
        0 <= cos_octant(x) <= ONE,
        ONE * ONE - 2 * ONE <= cos_octant(x) * cos_octant(x) + sin_octant(x) * sin_octant(x) <= ONE * ONE,
{
    lemma_mul_fraction(x, x);
    let x2 = x * x / (ONE as int);
    let u4 = ONE - x2 / 72;
    lemma_mul_fraction(x2, u4);
    let u3 = ONE - (x2 * u4 / (ONE as int)) / 42;
    lemma_mul_fraction(x2, u3);
    let u2 = ONE - (x2 * u3 / (ONE as int)) / 20;
    lemma_mul_fraction(x2, u2);
    let u1 = ONE - (x2 * u2 / (ONE as int)) / 6;
    lemma_mul_fraction(x, u1);
    let s = sin_octant(x);
    assert(0 <= s * s <= ONE * ONE) by (nonlinear_arith)
        requires
            0 <= s <= ONE,
    ;
    lemma_floor_sqrt_exists(ONE * ONE - s * s);
    lemma_unit_from_root(s, cos_octant(x));
}

/// The direction of every angle is a unit vector, up to rounding, and points
/// into the quarter of the plane that the angle lies in.
pub proof fn lemma_direction_unit(angle: int)
    ensures
        Direction::at(angle).unit(),
        Direction::at(angle).in_quarter_of(angle),
        -ONE <= Direction::at(angle).cos <= ONE,
        -ONE <= Direction::at(angle).sin <= ONE,
        (Direction::at(angle).cos as int, Direction::at(angle).sin as int) == cos_sin(angle),
{
    let r = angle % (TWO_PI as int);
    let h = if r < PI { r } else { r - PI };
    let q = if h <= HALF_PI { h } else { PI - h };
    let o = if q <= QUARTER_PI { q } else { HALF_PI - q };
    lemma_octant_unit(o);
    let (c, s) = cos_sin(angle);
    assert(c * c + s * s == cos_octant(o) * cos_octant(o) + sin_octant(o) * sin_octant(o)) by {
        let co = cos_octant(o);
        let so = sin_octant(o);
        assert((-co) * (-co) == co * co && (-so) * (-so) == so * so) by (nonlinear_arith);
    }
}

/// A full turn more or less changes no direction.
pub proof fn lemma_direction_periodic(angle: int, turns: int)
    ensures
        Direction::at(angle + turns * TWO_PI) == Direction::at(angle),
{
    assert((angle + turns * TWO_PI) % (TWO_PI as int) == angle % (TWO_PI as int)) by (nonlinear_arith);
}

/// The directions of the four axis angles are exact.
pub proof fn lemma_axis_directions()
    ensures
        Direction::at(0) == (Direction { cos: ONE, sin: 0 }),
        Direction::at(HALF_PI as int) == (Direction { cos: 0, sin: ONE }),
        Direction::at(PI as int) == (Direction { cos: -1_000_000i64, sin: 0 }),
        Direction::at(PI + HALF_PI) == (Direction { cos: 0, sin: -1_000_000i64 }),
{
    assert(sin_octant(0) == 0);
    assert(is_floor_sqrt(ONE * ONE - 0 * 0, ONE as int)) by (nonlinear_arith);
    lemma_floor_sqrt_is(ONE * ONE - 0 * 0, ONE as int);
    assert(cos_octant(0) == ONE);
}

/// Sine and cosine of a first-octant angle.
fn octant(x: i64) -> (r: (i64, i64))
    requires
        0 <= x <= QUARTER_PI,
    ensures
        r.0 == sin_octant(x as int),
        r.1 == cos_octant(x as int),
        0 <= r.0 <= ONE,
        0 <= r.1 <= ONE,
        ONE * ONE - 2 * ONE <= r.0 * r.0 + r.1 * r.1 <= ONE * ONE,
{
    let x2: i64 = mul_fraction(x, x);
    let u4: i64 = ONE - x2 / 72;
    let u3: i64 = ONE - mul_fraction(x2, u4) / 42;
    let u2: i64 = ONE - mul_fraction(x2, u3) / 20;
    let u1: i64 = ONE - mul_fraction(x2, u2) / 6;
    let s: i64 = mul_fraction(x, u1);
    assert(0 <= s * s <= ONE * ONE) by (nonlinear_arith)
        requires
            0 <= s <= ONE,
    ;
    let rest: u64 = (ONE * ONE - s * s) as u64;
    let c: u64 = isqrt(rest);
    proof {
        lemma_unit_from_root(s as int, c as int);
    }
    (s, c as i64)
}

/// Cosine and sine of a first-quadrant angle.
fn quadrant(x: i64) -> (r: (i64, i64))
    requires
        0 <= x <= HALF_PI,
    ensures
        (r.0 as int, r.1 as int) == quadrant_spec(x as int),
        0 <= r.0 <= ONE,
        0 <= r.1 <= ONE,
        ONE * ONE - 2 * ONE <= r.0 * r.0 + r.1 * r.1 <= ONE * ONE,
{
    if x <= QUARTER_PI {
        let (s, c) = octant(x);
        (c, s)
    } else {
        let (s, c) = octant(HALF_PI - x);
        (s, c)
    }
}

/// Cosine and sine of an angle of the upper half turn.
fn half_turn(x: i64) -> (r: (i64, i64))
    requires
        0 <= x < PI,
    ensures
        (r.0 as int, r.1 as int) == half_turn_spec(x as int),
        -ONE <= r.0 <= ONE,
        0 <= r.1 <= ONE,
        x <= HALF_PI ==> r.0 >= 0,
        x > HALF_PI ==> r.0 <= 0,
        ONE * ONE - 2 * ONE <= r.0 * r.0 + r.1 * r.1 <= ONE * ONE,
{
    if x <= HALF_PI {
        quadrant(x)
    } else {
        let (c, s) = quadrant(PI - x);
        assert((-c) * (-c) == c * c) by (nonlinear_arith);
        (-c, s)
    }
}

/// The arc tangent series of a half-angle slope.
fn arctan_half(h: i64) -> (r: i64)
    requires
        0 <= h <= ONE / 2,
    ensures
        r == arctan_series(h as int),
        0 <= r <= h,
{
    let h2: i64 = mul_fraction(h, h);
    let a6: i64 = 76_923 - mul_fraction(h2, 66_666);
    let a5: i64 = 90_909 - mul_fraction(h2, a6);
    let a4: i64 = 111_111 - mul_fraction(h2, a5);
    let a3: i64 = 142_857 - mul_fraction(h2, a4);
    let a2: i64 = 200_000 - mul_fraction(h2, a3);
    let a1: i64 = 333_333 - mul_fraction(h2, a2);
    let a0: i64 = ONE - mul_fraction(h2, a1);
    mul_fraction(h, a0)
}

/// The arc tangent of a slope between zero and one.
fn arctan_of_unit(t: i64) -> (r: i64)
    requires
        0 <= t <= ONE,
    ensures
        r == arctan_unit(t as int),
        0 <= r <= t,
{
    assert(0 <= t * t <= ONE * ONE) by (nonlinear_arith)
        requires
            0 <= t <= ONE,
    ;
    let root: u64 = isqrt((ONE * ONE + t * t) as u64);
    assert(ONE <= root <= 2 * ONE) by (nonlinear_arith)
        requires
            0 <= root,
            root * root <= ONE * ONE + t * t,
            ONE * ONE + t * t < (root + 1) * (root + 1),
            0 <= t * t <= ONE * ONE,
    ;
    let h: i64 = (t * ONE) / (ONE + root as i64);
    assert(0 <= h && 2 * h <= t) by (nonlinear_arith)
        requires
            h == (t * ONE) / (ONE + root),
            ONE <= root,
            0 <= t,
    ;
    2 * arctan_half(h)
}

/// The arc tangent of `t`, a slope in millionths, in millionths of a radian.
/// It is odd in `t`, has the sign of `t`, stays within a quarter turn, and
/// for a slope of at most one is no larger than the slope.
pub fn arctan(t: i64) -> (r: i64)
    ensures
        r == arctan_spec(t as int),
        -HALF_PI <= r <= HALF_PI,
        t >= 0 ==> r >= 0,
        t <= 0 ==> r <= 0,
        -ONE <= t <= ONE ==> -ONE <= r <= ONE && (t >= 0 ==> r <= t) && (t <= 0 ==> t <= r),
{
    if t >= 0 {
        arctan_of_nonneg(t)
    } else if t == i64::MIN {
        assert(ONE * ONE / (-(t as int)) == 0);
        -(HALF_PI - arctan_of_unit(0))
    } else {
        -arctan_of_nonneg(-t)
    }
}

/// The arc tangent of a non-negative slope.
fn arctan_of_nonneg(t: i64) -> (r: i64)
    requires
        0 <= t,
    ensures
        r == arctan_nonneg(t as int),
        0 <= r <= HALF_PI,
        t <= ONE ==> r <= t,
{
    if t <= ONE {
        arctan_of_unit(t)
    } else {
        let inverse: i64 = (ONE * ONE) / t;
        assert(0 <= inverse <= ONE) by (nonlinear_arith)
            requires
                inverse == (ONE * ONE) / (t as int),
                t > ONE,
        ;
        HALF_PI - arctan_of_unit(inverse)
    }
}

} // verus!
