//! Ray casting: the distance from a point to the nearest wall along a ray.
//!
//! A ray is walked through the grid one cell boundary at a time.  For each
//! axis the walk keeps the distance along the ray to the next boundary that
//! crosses that axis, and always takes the nearer of the two.  The distance
//! at which the ray enters a wall, or leaves the grid, is the result.

use vstd::prelude::*;
use crate::fixed::ONE;
use crate::grid::{Cell, Grid, MAX_SIDE};
use crate::trig::{Direction, HALF_PI, PI, lemma_axis_directions, lemma_direction_unit};

verus! {

/// A direction component smaller than this counts as zero.
pub const EPSILON: i64 = 100;

/// The stride given to an axis the ray runs along without ever crossing it.
pub const FAR: i128 = 1_000_000_000_000_000_000_000_000;

/// Absolute value.
pub open spec fn magnitude(v: int) -> int {
    if v < 0 {
        -v
    } else {
        v
    }
}

/// The distance along the ray between two crossings of one axis: the
/// reciprocal of the direction's component on that axis, or `FAR` where the
/// component is all but zero.
pub open spec fn stride(component: int) -> int {
    if magnitude(component) < EPSILON {
        FAR as int
    } else {
        ONE * ONE / magnitude(component)
    }
}

/// The cell index changes by this much at each crossing.
pub open spec fn pace(component: int) -> int {
    if component < 0 {
        -1
    } else {
        1
    }
}

/// How far coordinate `p` lies from the far edge of cell `cell`, seen in the
/// direction of travel.
pub open spec fn reach(p: int, cell: int, component: int) -> int {
    if component < 0 {
        p - cell * ONE
    } else {
        (cell + 1) * ONE - p
    }
}

/// The distance along the ray from coordinate `p` to the first crossing:
/// the reach of the cell that holds `p`, in strides.
pub open spec fn first_crossing(p: int, component: int) -> int {
    reach(p, p / (ONE as int), component) * stride(component) / (ONE as int)
}

/// How many cells of a side of length `side` lie ahead of `cell`, `cell`
/// included, in the direction of travel.
pub open spec fn cells_ahead(side: int, cell: int, component: int) -> int {
    let ahead = if component < 0 {
        cell + 1
    } else {
        side - cell
    };
    if ahead < 0 {
        0
    } else {
        ahead
    }
}

/// The walk from cell `(cx, cy)`, with `sx` and `sy` the distances to the
/// next crossing of each axis.  The nearer crossing is taken; ties go to the
/// y axis.  The walk ends at the first crossing into a wall or out of the grid,
/// and its value is the distance to that crossing.
pub open spec fn walk(grid: Grid, dir: Direction, cx: int, cy: int, sx: int, sy: int) -> int
    decreases cells_ahead(grid.cols(), cx, dir.cos as int) + cells_ahead(grid.lines(), cy, dir.sin as int),
{
    if sx < sy {
        let nx = cx + pace(dir.cos as int);
        if grid.cell(nx, cy) == Cell::Wall {
            sx
        } else {
            walk(grid, dir, nx, cy, sx + stride(dir.cos as int), sy)
        }
    } else {
        let ny = cy + pace(dir.sin as int);
        if grid.cell(cx, ny) == Cell::Wall {
            sy
        } else {
            walk(grid, dir, cx, ny, sx, sy + stride(dir.sin as int))
        }
    }
}

/// The distance from `(x, y)` to the nearest wall in direction `dir`.
pub open spec fn distance_toward(grid: Grid, x: int, y: int, dir: Direction) -> int {
    walk(
        grid,
        dir,
        x / (ONE as int),
        y / (ONE as int),
        first_crossing(x, dir.cos as int),
        first_crossing(y, dir.sin as int),
    )
}

/// The distance from `(x, y)` to the nearest wall along the ray at `angle`.
pub open spec fn distance_at(grid: Grid, x: int, y: int, angle: int) -> int {
    distance_toward(grid, x, y, Direction::at(angle))
}

/// A stride times the component it belongs to never exceeds one.
proof fn lemma_stride_product(component: int)
    requires
        magnitude(component) >= EPSILON,
    ensures
        0 <= stride(component),
        stride(component) * magnitude(component) <= ONE * ONE,
{
    let m = magnitude(component);
    assert(0 <= (ONE * ONE) / m && ((ONE * ONE) / m) * m <= ONE * ONE) by (nonlinear_arith)
        requires
            m >= 100,
    ;
}

/// The first crossing lies no farther along the ray than the cell's edge.
proof fn lemma_first_crossing(p: int, component: int)
    ensures
        0 <= first_crossing(p, component),
        magnitude(component) >= EPSILON ==> first_crossing(p, component) * magnitude(component) <= reach(
            p,
            p / (ONE as int),
            component,
        ) * ONE,
{
    let gap = reach(p, p / (ONE as int), component);
    let m = magnitude(component);
    let d = stride(component);
    assert(0 <= gap <= ONE);
    if m >= EPSILON {
        lemma_stride_product(component);
    }
    assert(0 <= d);
    assert(0 <= gap * d) by (nonlinear_arith)
        requires
            0 <= gap,
            0 <= d,
    ;
    let s = gap * d / (ONE as int);
    assert(s == first_crossing(p, component));
    if m >= EPSILON {
        assert(s * m <= gap * ONE) by (nonlinear_arith)
            requires
                s * ONE <= gap * d,
                d * m <= ONE * ONE,
                0 <= gap,
                0 <= m,
                0 <= s,
                0 <= d,
        ;
    }
}

/// Along the whole walk the distances to the next crossings stay within the
/// reach of the current cell, and so does the result.
proof fn lemma_walk_within_grid(grid: Grid, dir: Direction, x: int, y: int, cx: int, cy: int, sx: int, sy: int)
    requires
        grid.well_formed(),
        grid.contains(cx, cy),
        0 <= x < grid.cols() * ONE,
        0 <= y < grid.lines() * ONE,
        0 <= sx,
        0 <= sy,
        magnitude(dir.cos as int) >= EPSILON ==> sx * magnitude(dir.cos as int) <= reach(x, cx, dir.cos as int)
            * ONE,
        magnitude(dir.sin as int) >= EPSILON ==> sy * magnitude(dir.sin as int) <= reach(y, cy, dir.sin as int)
            * ONE,
    ensures
        0 <= walk(grid, dir, cx, cy, sx, sy),
        magnitude(dir.cos as int) >= EPSILON ==> walk(grid, dir, cx, cy, sx, sy) * magnitude(dir.cos as int)
            <= grid.cols() * ONE * ONE,
        magnitude(dir.sin as int) >= EPSILON ==> walk(grid, dir, cx, cy, sx, sy) * magnitude(dir.sin as int)
            <= grid.lines() * ONE * ONE,
    decreases cells_ahead(grid.cols(), cx, dir.cos as int) + cells_ahead(grid.lines(), cy, dir.sin as int),
{
    let mc = magnitude(dir.cos as int);
    let ms = magnitude(dir.sin as int);
    let w = grid.cols();
    let h = grid.lines();
    if sx < sy {
        let nx = cx + pace(dir.cos as int);
        if grid.cell(nx, cy) == Cell::Wall {
            if mc >= EPSILON {
                assert(sx * mc <= w * ONE * ONE) by (nonlinear_arith)
                    requires
                        sx * mc <= reach(x, cx, dir.cos as int) * ONE,
                        reach(x, cx, dir.cos as int) <= w * ONE,
                ;
            }
            if ms >= EPSILON {
                assert(sx * ms <= h * ONE * ONE) by (nonlinear_arith)
                    requires
                        0 <= sx < sy,
                        0 <= ms,
                        sy * ms <= reach(y, cy, dir.sin as int) * ONE,
                        reach(y, cy, dir.sin as int) <= h * ONE,
                ;
            }
        } else {
            let d = stride(dir.cos as int);
            if mc >= EPSILON {
                lemma_stride_product(dir.cos as int);
                assert((sx + d) * mc <= reach(x, nx, dir.cos as int) * ONE) by (nonlinear_arith)
                    requires
                        sx * mc <= reach(x, cx, dir.cos as int) * ONE,
                        d * mc <= ONE * ONE,
                        reach(x, nx, dir.cos as int) == reach(x, cx, dir.cos as int) + ONE,
                ;
            }
            lemma_walk_within_grid(grid, dir, x, y, nx, cy, sx + d, sy);
        }
    } else {
        let ny = cy + pace(dir.sin as int);
        if grid.cell(cx, ny) == Cell::Wall {
            if ms >= EPSILON {
                assert(sy * ms <= h * ONE * ONE) by (nonlinear_arith)
                    requires
                        sy * ms <= reach(y, cy, dir.sin as int) * ONE,
                        reach(y, cy, dir.sin as int) <= h * ONE,
                ;
            }
            if mc >= EPSILON {
                assert(sy * mc <= w * ONE * ONE) by (nonlinear_arith)
                    requires
                        0 <= sy <= sx,
                        0 <= mc,
                        sx * mc <= reach(x, cx, dir.cos as int) * ONE,
                        reach(x, cx, dir.cos as int) <= w * ONE,
                ;
            }
        } else {
            let d = stride(dir.sin as int);
            if ms >= EPSILON {
                lemma_stride_product(dir.sin as int);
                assert((sy + d) * ms <= reach(y, ny, dir.sin as int) * ONE) by (nonlinear_arith)
                    requires
                        sy * ms <= reach(y, cy, dir.sin as int) * ONE,
                        d * ms <= ONE * ONE,
                        reach(y, ny, dir.sin as int) == reach(y, cy, dir.sin as int) + ONE,
                ;
            }
            lemma_walk_within_grid(grid, dir, x, y, cx, ny, sx, sy + d);
        }
    }
}

/// A ray cast from inside the grid meets its wall inside the grid: on each
/// axis that the ray is not parallel to, the distance times the direction's
/// component on that axis is at most the length of that side.
pub proof fn lemma_hit_within_grid(grid: Grid, x: int, y: int, dir: Direction)
    requires
        grid.well_formed(),
        grid.contains(x / (ONE as int), y / (ONE as int)),
    ensures
        0 <= distance_toward(grid, x, y, dir),
        magnitude(dir.cos as int) >= EPSILON ==> distance_toward(grid, x, y, dir) * magnitude(dir.cos as int)
            <= grid.cols() * ONE * ONE,
        magnitude(dir.sin as int) >= EPSILON ==> distance_toward(grid, x, y, dir) * magnitude(dir.sin as int)
            <= grid.lines() * ONE * ONE,
{
    lemma_first_crossing(x, dir.cos as int);
    lemma_first_crossing(y, dir.sin as int);
    lemma_walk_within_grid(
        grid,
        dir,
        x,
        y,
        x / (ONE as int),
        y / (ONE as int),
        first_crossing(x, dir.cos as int),
        first_crossing(y, dir.sin as int),
    );
}

/// A ray cast from inside the grid, at an angle that is clear of both axes,
/// meets its wall at a distance that is not negative and not longer than the
/// diagonal of the grid, up to the rounding of the direction: the square of
/// the distance, less two millionths of it, is at most the square of the
/// diagonal.
pub proof fn lemma_cast_within_diagonal(grid: Grid, x: int, y: int, angle: int)
    requires
        grid.well_formed(),
        grid.contains(x / (ONE as int), y / (ONE as int)),
        magnitude(Direction::at(angle).cos as int) >= EPSILON,
        magnitude(Direction::at(angle).sin as int) >= EPSILON,
    ensures
        0 <= distance_at(grid, x, y, angle),
        distance_at(grid, x, y, angle) * distance_at(grid, x, y, angle) * (ONE - 2) <= (grid.cols() * grid.cols()
            + grid.lines() * grid.lines()) * (ONE * ONE * ONE),
{
    let dir = Direction::at(angle);
    lemma_direction_unit(angle);
    lemma_hit_within_grid(grid, x, y, dir);
    let d = distance_at(grid, x, y, angle);
    let c = magnitude(dir.cos as int);
    let s = magnitude(dir.sin as int);
    let w = grid.cols();
    let h = grid.lines();
    assert(c * c + s * s == dir.cos * dir.cos + dir.sin * dir.sin) by (nonlinear_arith)
        requires
            c == magnitude(dir.cos as int),
            s == magnitude(dir.sin as int),
    ;
    let unit = ONE * ONE;
    let dd = d * d;
    let ww = w * w;
    let hh = h * h;
    assert(0 <= dd) by (nonlinear_arith)
        requires
            dd == d * d,
    ;
    assert(dd * (c * c) <= ww * (unit * unit)) by (nonlinear_arith)
        requires
            0 <= d,
            0 <= c,
            0 <= w,
            d * c <= w * unit,
            dd == d * d,
            ww == w * w,
    ;
    assert(dd * (s * s) <= hh * (unit * unit)) by (nonlinear_arith)
        requires
            0 <= d,
            0 <= s,
            0 <= h,
            d * s <= h * unit,
            dd == d * d,
            hh == h * h,
    ;
    assert(dd * (unit - 2 * ONE) <= dd * (c * c) + dd * (s * s)) by (nonlinear_arith)
        requires
            0 <= dd,
            unit - 2 * ONE <= c * c + s * s,
    ;
    assert(unit * unit == 1_000_000_000_000_000_000_000_000 && unit - 2 * ONE == 999_998_000_000) by (nonlinear_arith)
        requires
            unit == 1_000_000 * 1_000_000,
    ;
    assert(ONE * ONE * ONE == 1_000_000_000_000_000_000) by (nonlinear_arith);
    assert(dd * 999_998_000_000 <= dd * (c * c) + dd * (s * s));
    assert(ww * (unit * unit) == ww * 1_000_000_000_000_000_000_000_000);
    assert(hh * (unit * unit) == hh * 1_000_000_000_000_000_000_000_000);
    assert(dd * 999_998_000_000 <= (ww + hh) * 1_000_000_000_000_000_000_000_000);
    assert(dd * 999_998 <= (ww + hh) * 1_000_000_000_000_000_000);
}

/// The walk never returns less than the nearer of its two next crossings.
proof fn lemma_walk_at_least(grid: Grid, dir: Direction, cx: int, cy: int, sx: int, sy: int, low: int)
    requires
        low <= sx,
        low <= sy,
    ensures
        low <= walk(grid, dir, cx, cy, sx, sy),
    decreases cells_ahead(grid.cols(), cx, dir.cos as int) + cells_ahead(grid.lines(), cy, dir.sin as int),
{
    let dx = stride(dir.cos as int);
    let dy = stride(dir.sin as int);
    assert(0 <= dx && 0 <= dy) by (nonlinear_arith)
        requires
            dx == stride(dir.cos as int),
            dy == stride(dir.sin as int),
    ;
    if sx < sy {
        let nx = cx + pace(dir.cos as int);
        if grid.cell(nx, cy) != Cell::Wall {
            lemma_walk_at_least(grid, dir, nx, cy, sx + dx, sy, low);
        }
    } else {
        let ny = cy + pace(dir.sin as int);
        if grid.cell(cx, ny) != Cell::Wall {
            lemma_walk_at_least(grid, dir, cx, ny, sx, sy + dy, low);
        }
    }
}

/// From a point that lies on no grid line, every ray travels some way before
/// it meets a wall.
pub proof fn lemma_cast_positive(grid: Grid, x: int, y: int, angle: int)
    requires
        x % (ONE as int) != 0,
        y % (ONE as int) != 0,
    ensures
        distance_at(grid, x, y, angle) > 0,
{
    let dir = Direction::at(angle);
    lemma_direction_unit(angle);
    lemma_crossing_positive(x, dir.cos as int);
    lemma_crossing_positive(y, dir.sin as int);
    lemma_walk_at_least(
        grid,
        dir,
        x / (ONE as int),
        y / (ONE as int),
        first_crossing(x, dir.cos as int),
        first_crossing(y, dir.sin as int),
        1,
    );
}

/// Off the grid lines the first crossing is some way off.
proof fn lemma_crossing_positive(p: int, component: int)
    requires
        p % (ONE as int) != 0,
        -ONE <= component <= ONE,
    ensures
        first_crossing(p, component) >= 1,
{
    let gap = reach(p, p / (ONE as int), component);
    let d = stride(component);
    assert(1 <= gap <= ONE);
    assert(d >= ONE) by (nonlinear_arith)
        requires
            d == stride(component),
            -ONE <= component <= ONE,
    ;
    assert(gap * d >= ONE) by (nonlinear_arith)
        requires
            1 <= gap,
            d >= ONE,
    ;
}

/// The cell `steps` cells ahead of `(cx, cy)` along the unit step `(ux, uy)`.
pub open spec fn cell_ahead(grid: Grid, cx: int, cy: int, ux: int, uy: int, steps: int) -> Cell {
    grid.cell(cx + steps * ux, cy + steps * uy)
}

/// A walk along the x axis that cannot be overtaken by a crossing of the y
/// axis ends at the face of the first wall.
proof fn lemma_walk_along_x(grid: Grid, dir: Direction, cx: int, cy: int, sx: int, sy: int, k: int)
    requires
        dir.sin == 0,
        dir.cos == ONE || dir.cos == -ONE,
        k >= 1,
        forall|j: int| 1 <= j < k ==> #[trigger] cell_ahead(grid, cx, cy, pace(dir.cos as int), 0, j) == Cell::Empty,
        cell_ahead(grid, cx, cy, pace(dir.cos as int), 0, k) == Cell::Wall,
        sx + k * ONE < sy,
    ensures
        walk(grid, dir, cx, cy, sx, sy) == sx + (k - 1) * ONE,
    decreases k,
{
    let p = pace(dir.cos as int);
    let nx = cx + p;
    assert(stride(dir.cos as int) == ONE);
    assert(grid.cell(nx, cy) == cell_ahead(grid, cx, cy, p, 0, 1));
    if k > 1 {
        assert forall|j: int| 1 <= j < k - 1 implies #[trigger] cell_ahead(grid, nx, cy, p, 0, j) == Cell::Empty by {
            assert(cell_ahead(grid, nx, cy, p, 0, j) == cell_ahead(grid, cx, cy, p, 0, j + 1));
        }
        assert(cell_ahead(grid, nx, cy, p, 0, k - 1) == cell_ahead(grid, cx, cy, p, 0, k));
        lemma_walk_along_x(grid, dir, nx, cy, sx + ONE, sy, k - 1);
    }
}

/// A walk along the y axis that cannot be overtaken by a crossing of the x
/// axis ends at the face of the first wall.
proof fn lemma_walk_along_y(grid: Grid, dir: Direction, cx: int, cy: int, sx: int, sy: int, k: int)
    requires
        dir.cos == 0,
        dir.sin == ONE || dir.sin == -ONE,
        k >= 1,
        forall|j: int| 1 <= j < k ==> #[trigger] cell_ahead(grid, cx, cy, 0, pace(dir.sin as int), j) == Cell::Empty,
        cell_ahead(grid, cx, cy, 0, pace(dir.sin as int), k) == Cell::Wall,
        sy + k * ONE <= sx,
    ensures
        walk(grid, dir, cx, cy, sx, sy) == sy + (k - 1) * ONE,
    decreases k,
{
    let p = pace(dir.sin as int);
    let ny = cy + p;
    assert(stride(dir.sin as int) == ONE);
    assert(grid.cell(cx, ny) == cell_ahead(grid, cx, cy, 0, p, 1));
    if k > 1 {
        assert forall|j: int| 1 <= j < k - 1 implies #[trigger] cell_ahead(grid, cx, ny, 0, p, j) == Cell::Empty by {
            assert(cell_ahead(grid, cx, ny, 0, p, j) == cell_ahead(grid, cx, cy, 0, p, j + 1));
        }
        assert(cell_ahead(grid, cx, ny, 0, p, k - 1) == cell_ahead(grid, cx, cy, 0, p, k));
        lemma_walk_along_y(grid, dir, cx, ny, sx, sy + ONE, k - 1);
    }
}

/// The angle of the axis with number `quarter`: 0 looks along x, 1 along y,
/// 2 against x, 3 against y.
pub open spec fn axis_angle(quarter: int) -> int {
    if quarter == 0 {
        0
    } else if quarter == 1 {
        HALF_PI as int
    } else if quarter == 2 {
        PI as int
    } else {
        PI + HALF_PI
    }
}

/// The step on the x axis when looking along axis `quarter`.
pub open spec fn axis_ux(quarter: int) -> int {
    if quarter == 0 {
        1
    } else if quarter == 2 {
        -1
    } else {
        0
    }
}

/// The step on the y axis when looking along axis `quarter`.
pub open spec fn axis_uy(quarter: int) -> int {
    if quarter == 1 {
        1
    } else if quarter == 3 {
        -1
    } else {
        0
    }
}

/// The distance from `(x, y)` to the near face of the cell `k` cells ahead
/// along axis `quarter`.
pub open spec fn face_distance(x: int, y: int, quarter: int, k: int) -> int {
    let cx = x / (ONE as int);
    let cy = y / (ONE as int);
    if quarter == 0 {
        (cx + k) * ONE - x
    } else if quarter == 1 {
        (cy + k) * ONE - y
    } else if quarter == 2 {
        x - (cx - k + 1) * ONE
    } else {
        y - (cy - k + 1) * ONE
    }
}

/// A ray cast straight along an axis, with `k - 1` empty cells and then a
/// wall ahead of it, returns exactly the distance to the face of that wall.
/// From a point with whole coordinates looking along x or y, that is `k`.
pub proof fn lemma_cast_along_axis(grid: Grid, x: int, y: int, quarter: int, k: int)
    requires
        grid.well_formed(),
        0 <= quarter < 4,
        k >= 1,
        forall|j: int|
            1 <= j < k ==> #[trigger] cell_ahead(
                grid,
                x / (ONE as int),
                y / (ONE as int),
                axis_ux(quarter),
                axis_uy(quarter),
                j,
            ) == Cell::Empty,
        cell_ahead(grid, x / (ONE as int), y / (ONE as int), axis_ux(quarter), axis_uy(quarter), k) == Cell::Wall,
    ensures
        distance_at(grid, x, y, axis_angle(quarter)) == face_distance(x, y, quarter, k),
        (quarter == 0 && x % (ONE as int) == 0) || (quarter == 1 && y % (ONE as int) == 0) ==> distance_at(
            grid,
            x,
            y,
            axis_angle(quarter),
        ) == k * ONE,
{
    lemma_axis_directions();
    grid.lemma_sides_bounded();
    let dir = Direction::at(axis_angle(quarter));
    let cx = x / (ONE as int);
    let cy = y / (ONE as int);
    let ux = axis_ux(quarter);
    let uy = axis_uy(quarter);
    let sx = first_crossing(x, dir.cos as int);
    let sy = first_crossing(y, dir.sin as int);
    assert(k <= MAX_SIDE + 1) by {
        if k >= 2 {
            assert(cell_ahead(grid, cx, cy, ux, uy, 1) == Cell::Empty);
            assert(cell_ahead(grid, cx, cy, ux, uy, k - 1) == Cell::Empty);
            assert(grid.contains(cx + 1 * ux, cy + 1 * uy));
            assert(grid.contains(cx + (k - 1) * ux, cy + (k - 1) * uy));
            assert((k - 1) * ux + (k - 1) * uy == k - 1 || (k - 1) * ux + (k - 1) * uy == 1 - k)
                by (nonlinear_arith)
                requires
                    (ux == 1 && uy == 0) || (ux == -1 && uy == 0) || (ux == 0 && uy == 1) || (ux == 0 && uy
                        == -1),
            ;
            assert(1 * ux + 1 * uy == 1 || 1 * ux + 1 * uy == -1);
            assert((k - 1) * ux == 0 || (k - 1) * uy == 0) by (nonlinear_arith)
                requires
                    ux == 0 || uy == 0,
            ;
        }
    }
    if quarter == 0 || quarter == 2 {
        assert(stride(dir.cos as int) == ONE);
        assert(stride(dir.sin as int) == FAR);
        let gap = reach(x, cx, dir.cos as int);
        assert(sx == gap) by {
            assert(gap * ONE / (ONE as int) == gap) by (nonlinear_arith);
        }
        let rest = reach(y, cy, 0);
        assert(1 <= rest <= ONE);
        assert(sy >= 1_000_000_000_000_000_000) by {
            assert(rest * FAR >= FAR) by (nonlinear_arith)
                requires
                    1 <= rest,
            ;
        }
        lemma_walk_along_x(grid, dir, cx, cy, sx, sy, k);
    } else {
        assert(stride(dir.sin as int) == ONE);
        assert(stride(dir.cos as int) == FAR);
        let gap = reach(y, cy, dir.sin as int);
        assert(sy == gap) by {
            assert(gap * ONE / (ONE as int) == gap) by (nonlinear_arith);
        }
        let rest = reach(x, cx, 0);
        assert(1 <= rest <= ONE);
        assert(sx >= 1_000_000_000_000_000_000) by {
            assert(rest * FAR >= FAR) by (nonlinear_arith)
                requires
                    1 <= rest,
            ;
        }
        lemma_walk_along_y(grid, dir, cx, cy, sx, sy, k);
    }
}

/// The stride of one axis.
fn stride_of(component: i64) -> (s: i128)
    ensures
        s == stride(component as int),
        0 <= s <= FAR,
{
    let size: i128 = if component < 0 { -(component as i128) } else { component as i128 };
    if size < EPSILON as i128 {
        FAR
    } else {
        let unit: i128 = (ONE as i128) * (ONE as i128);
        let s: i128 = unit / size;
        assert(0 <= s <= FAR) by (nonlinear_arith)
            requires
                s == 1_000_000_000_000int / (size as int),
                size >= 100,
        ;
        s
    }
}

/// The cell that holds coordinate `p`.
fn cell_of(p: i64) -> (c: i64)
    ensures
        c == (p as int) / (ONE as int),
        -10_000_000_000_000 <= c <= 10_000_000_000_000,
{
    match p.checked_div_euclid(ONE) {
        Some(c) => c,
        None => 0,
    }
}

/// The distance to the first crossing of one axis.
fn first_crossing_of(p: i64, component: i64) -> (s: i128)
    ensures
        s == first_crossing(p as int, component as int),
        0 <= s <= FAR,
{
    let cell: i64 = cell_of(p);
    let base: i128 = (cell as i128) * 1_000_000;
    let gap: i128 = if component < 0 {
        (p as i128) - base
    } else {
        base + 1_000_000 - (p as i128)
    };
    let d: i128 = stride_of(component);
    assert(0 <= gap * d <= ONE * FAR && gap * d <= ONE * d) by (nonlinear_arith)
        requires
            0 <= gap <= ONE,
            0 <= d <= FAR,
    ;
    (gap * d) / (ONE as i128)
}

/// The distance from `(x, y)` to the nearest wall in direction `dir`.
///
/// The walk starts in the cell that holds `(x, y)` and needs no cap on its
/// length: everything outside the grid is wall.
pub fn cast_toward(grid: &Grid, x: i64, y: i64, dir: Direction) -> (d: i128)
    ensures
        d == distance_toward(*grid, x as int, y as int, dir),
        d >= 0,
{
    let w: usize = grid.width();
    let h: usize = grid.height();
    let dx: i128 = stride_of(dir.cos);
    let dy: i128 = stride_of(dir.sin);
    let px: i64 = if dir.cos < 0 { -1 } else { 1 };
    let py: i64 = if dir.sin < 0 { -1 } else { 1 };
    let mut cx: i64 = cell_of(x);
    let mut cy: i64 = cell_of(y);
    let mut sx: i128 = first_crossing_of(x, dir.cos);
    let mut sy: i128 = first_crossing_of(y, dir.sin);
    let ghost mut n: int = 0;
    loop
        invariant
            w == grid.cols(),
            h == grid.lines(),
            w <= MAX_SIDE,
            h <= MAX_SIDE,
            dx == stride(dir.cos as int),
            dy == stride(dir.sin as int),
            0 <= dx <= FAR,
            0 <= dy <= FAR,
            px == pace(dir.cos as int),
            py == pace(dir.sin as int),
            -10_000_000_000_000 <= cx <= 10_000_000_000_000,
            -10_000_000_000_000 <= cy <= 10_000_000_000_000,
            0 <= n,
            n >= 1 ==> n + cells_ahead(w as int, cx as int, dir.cos as int) + cells_ahead(
                h as int,
                cy as int,
                dir.sin as int,
            ) <= 1 + w + h,
            0 <= sx <= FAR * (n + 1),
            0 <= sy <= FAR * (n + 1),
            walk(*grid, dir, cx as int, cy as int, sx as int, sy as int) == distance_toward(
                *grid,
                x as int,
                y as int,
                dir,
            ),
        decreases
            cells_ahead(w as int, cx as int, dir.cos as int) + cells_ahead(h as int, cy as int, dir.sin as int),
    {
        if sx < sy {
            let nx: i64 = cx + px;
            match grid.lookup(nx, cy) {
                Cell::Wall => {
                    return sx;
                },
                Cell::Empty => {},
            }
            cx = nx;
            sx = sx + dx;
        } else {
            let ny: i64 = cy + py;
            match grid.lookup(cx, ny) {
                Cell::Wall => {
                    return sy;
                },
                Cell::Empty => {},
            }
            cy = ny;
            sy = sy + dy;
        }
        proof {
            n = n + 1;
        }
    }
}

/// The distance from `(x, y)` to the nearest wall along the ray at `angle`.
pub fn cast_ray(grid: &Grid, x: i64, y: i64, angle: i64) -> (d: i128)
    ensures
        d == distance_at(*grid, x as int, y as int, angle as int),
        d >= 0,
{
    cast_toward(grid, x, y, Direction::of_angle(angle))
}

} // verus!
