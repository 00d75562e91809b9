//! Shading: from distances to indices of the 256-colour palette.
//!
//! Walls are warm and graded by distance on a logarithmic scale, ceilings
//! are blue and floors grey, both graded by how far a pixel lies from the
//! wall slice of its column.

use vstd::prelude::*;
use crate::fixed::ONE;

verus! {

/// Walls nearer than this are shaded as if they stood here.
pub const NEAREST: i64 = 100_000;

/// Walls farther than this are shaded as if they stood here.
pub const FARTHEST: i64 = 15_000_000;

/// The darkest of the seven far wall colours.
pub const FAR_BASE: u8 = 88;

/// The darkest of the six near wall colours.
pub const NEAR_BASE: u8 = 220;

/// The ceiling colour next to the wall slice.
pub const CEILING_BASE: u8 = 39;

/// The floor colour next to the wall slice.
pub const FLOOR_BASE: u8 = 238;

/// `d` brought into `NEAREST ..= FARTHEST`.
pub open spec fn clamped(d: int) -> int {
    if d < NEAREST {
        NEAREST as int
    } else if d > FARTHEST {
        FARTHEST as int
    } else {
        d
    }
}

/// The brightness of a wall at distance `v - 1`, in twelfths:
/// `12 * (1 - log16(v))` rounded down, for `ONE <= v <= 16 * ONE`.
///
/// Since `12 * log16(v) = log2(v^3)`, this is the largest `k` for which
/// `v^3 * 2^k` still fits under `2^12`.
pub open spec fn brightness(v: int) -> int {
    let cube = v * v * v;
    let top = 4096 * (ONE * ONE * ONE);
    if cube * 2048 <= top {
        11
    } else if cube * 1024 <= top {
        10
    } else if cube * 512 <= top {
        9
    } else if cube * 256 <= top {
        8
    } else if cube * 128 <= top {
        7
    } else if cube * 64 <= top {
        6
    } else if cube * 32 <= top {
        5
    } else if cube * 16 <= top {
        4
    } else if cube * 8 <= top {
        3
    } else if cube * 4 <= top {
        2
    } else if cube * 2 <= top {
        1
    } else {
        0
    }
}

/// Two to the power `k`.
pub open spec fn two_to(k: int) -> int
    decreases k,
{
    if k <= 0 {
        1
    } else {
        2 * two_to(k - 1)
    }
}

/// The brightness `k` of `v` is the whole part of `12 * (1 - log16(v))`:
/// `2^k <= (16 / v)^3 < 2^(k + 1)`, with `v` taken in units of `ONE`.
pub proof fn lemma_brightness_brackets(v: int)
    requires
        NEAREST + ONE <= v <= FARTHEST + ONE,
    ensures
        v * v * v * two_to(brightness(v)) <= 4096 * (ONE * ONE * ONE),
        4096 * (ONE * ONE * ONE) < v * v * v * two_to(brightness(v) + 1),
{
    reveal_with_fuel(two_to, 14);
    assert(two_to(0) == 1 && two_to(1) == 2 && two_to(2) == 4 && two_to(3) == 8);
    assert(two_to(4) == 16 && two_to(5) == 32 && two_to(6) == 64 && two_to(7) == 128);
    assert(two_to(8) == 256 && two_to(9) == 512 && two_to(10) == 1024 && two_to(11) == 2048);
    assert(two_to(12) == 4096);
    lemma_brightness_bounds(v);
    lemma_cube_monotonic(v, 16 * ONE);
    lemma_cube_monotonic(NEAREST + ONE, v);
    assert((16 * ONE) * (16 * ONE) * (16 * ONE) == 4096 * (ONE * ONE * ONE)) by (nonlinear_arith);
    assert((NEAREST + ONE) * (NEAREST + ONE) * (NEAREST + ONE) * 4096 > 4096 * (ONE * ONE * ONE))
        by (nonlinear_arith);
}

/// The colour of a wall at distance `d`.  The distance is clamped, its
/// logarithm `n = 1 - ln(d + 1) / ln(16)` taken, and the result split in two
/// bands: walls with `n > 1/2` get `NEAR_BASE + 12 * (n - 1/2)`, the others
/// `FAR_BASE + 12 * n`, both rounded down.
pub open spec fn wall_shade(d: int) -> int {
    let v = clamped(d) + ONE;
    if v < 4 * ONE {
        NEAR_BASE + (brightness(v) - 6)
    } else {
        FAR_BASE + brightness(v)
    }
}

/// The step, from 0 to 6, of a gradient at `dist` of its length; a `dist`
/// outside `0 ..= ONE` counts as the nearer end.
pub open spec fn gradient_step(dist: int) -> int {
    if dist <= 0 {
        0
    } else if dist >= ONE {
        6
    } else {
        6 * dist / (ONE as int)
    }
}

/// The colour of a ceiling pixel at `dist` from the top of the wall slice.
pub open spec fn ceiling_shade(dist: int) -> int {
    CEILING_BASE + gradient_step(dist)
}

/// The colour of a floor pixel at `dist` from the foot of the wall slice.
pub open spec fn floor_shade(dist: int) -> int {
    FLOOR_BASE + gradient_step(dist)
}

/// A wall farther away is never shown in a brighter colour: within a band
/// the index falls with the distance, and every near colour lies above every
/// far one.
pub proof fn lemma_wall_shade_monotonic(d1: int, d2: int)
    requires
        d1 <= d2,
    ensures
        wall_shade(d1) >= wall_shade(d2),
{
    let v1 = clamped(d1) + ONE;
    let v2 = clamped(d2) + ONE;
    lemma_cube_monotonic(v1, v2);
    lemma_brightness_bounds(v1);
    lemma_brightness_bounds(v2);
}

/// Cubes of positive numbers keep their order.
proof fn lemma_cube_monotonic(a: int, b: int)
    requires
        0 <= a <= b,
    ensures
        a * a * a <= b * b * b,
{
    assert(a * a <= b * b) by (nonlinear_arith)
        requires
            0 <= a <= b,
    ;
    assert(a * a * a <= b * b * b) by (nonlinear_arith)
        requires
            0 <= a <= b,
            0 <= a * a <= b * b,
    ;
}

/// The range of the brightness in each band.
pub proof fn lemma_brightness_bounds(v: int)
    requires
        NEAREST + ONE <= v <= FARTHEST + ONE,
    ensures
        0 <= brightness(v) <= 11,
        v < 4 * ONE ==> 6 <= brightness(v),
        v >= 4 * ONE ==> brightness(v) <= 6,
{
    let cube = v * v * v;
    if v < 4 * ONE {
        lemma_cube_monotonic(v, 4 * ONE - 1);
        assert((4 * ONE - 1) * (4 * ONE - 1) * (4 * ONE - 1) * 64 <= 4096 * (ONE * ONE * ONE)) by (nonlinear_arith);
    } else {
        lemma_cube_monotonic(4 * ONE, v);
        assert((4 * ONE) * (4 * ONE) * (4 * ONE) * 128 > 4096 * (ONE * ONE * ONE)) by (nonlinear_arith);
    }
}

/// The colour of a wall at `distance`.
pub fn distance_to_color(distance: i128) -> (c: u8)
    ensures
        c == wall_shade(distance as int),
        (NEAR_BASE <= c <= NEAR_BASE + 5) || (FAR_BASE <= c <= FAR_BASE + 6),
{
    let d: i128 = if distance < NEAREST as i128 {
        NEAREST as i128
    } else if distance > FARTHEST as i128 {
        FARTHEST as i128
    } else {
        distance
    };
    let v: i128 = d + 1_000_000;
    proof {
        lemma_brightness_bounds(v as int);
        lemma_cube_monotonic(v as int, 16_000_000);
        lemma_cube_monotonic(0, v as int);
        assert(16_000_000int * 16_000_000 * 16_000_000 == 4_096_000_000_000_000_000_000);
        assert(ONE * ONE * ONE == 1_000_000_000_000_000_000) by (nonlinear_arith);
        assert(0 <= v * v <= 16_000_000 * 16_000_000) by (nonlinear_arith)
            requires
                0 <= v <= 16_000_000,
        ;
    }
    let cube: i128 = v * v * v;
    let top: i128 = 4_096_000_000_000_000_000_000;
    let level: u8 = if cube * 2048 <= top {
        11
    } else if cube * 1024 <= top {
        10
    } else if cube * 512 <= top {
        9
    } else if cube * 256 <= top {
        8
    } else if cube * 128 <= top {
        7
    } else if cube * 64 <= top {
        6
    } else if cube * 32 <= top {
        5
    } else if cube * 16 <= top {
        4
    } else if cube * 8 <= top {
        3
    } else if cube * 4 <= top {
        2
    } else if cube * 2 <= top {
        1
    } else {
        0
    };
    if v < 4_000_000 {
        NEAR_BASE + (level - 6)
    } else {
        FAR_BASE + level
    }
}

/// The step of a gradient at `dist` of its length.
fn step_at(dist: i64) -> (s: u8)
    ensures
        s == gradient_step(dist as int),
        s <= 6,
{
    if dist <= 0 {
        0
    } else if dist >= ONE {
        6
    } else {
        ((6 * dist) / ONE) as u8
    }
}

/// The colour of a ceiling pixel: lightest next to the wall slice, darker
/// with the distance from it, in seven steps over one screen height.
pub fn ceiling_color(dist: i64) -> (c: u8)
    ensures
        c == ceiling_shade(dist as int),
        CEILING_BASE <= c <= CEILING_BASE + 6,
{
    CEILING_BASE + step_at(dist)
}

/// The colour of a floor pixel: graded like the ceiling, in greys.
pub fn floor_color(dist: i64) -> (c: u8)
    ensures
        c == floor_shade(dist as int),
        FLOOR_BASE <= c <= FLOOR_BASE + 6,
{
    FLOOR_BASE + step_at(dist)
}

} // verus!
