//! Frames: one ray per screen column, painted into a buffer of colour
//! indices with two pixel rows for every character row.

use vstd::prelude::*;
use crate::fixed::{ONE, mul_fixed};
use crate::grid::Grid;
use crate::player::Player;
use crate::ray::{cast_ray, distance_at};
use crate::shade::{
    ceiling_color, ceiling_shade, distance_to_color, floor_color, floor_shade, gradient_step, wall_shade,
};
use crate::text::{
    free_of, half_block, home, lemma_controls_free_of_erase, lemma_free_of_concat, line_break, push_half_block,
    push_home, push_line_break, push_reset, push_select_colors, reset, select_colors,
};
use crate::trig::{TWO_PI, arctan, arctan_spec};

verus! {

/// Half the width of the view, as the slope of its outermost ray.
pub const FOV: i64 = 660_000;

/// Walls nearer than this are drawn as if they stood here.
pub const NEAR_PLANE: i64 = 100_000;

/// Largest width or height of a screen, in character cells.
pub const MAX_SCREEN: usize = 65_535;

/// The wall of one screen column: pixel rows `top .. bottom` show the wall,
/// in colour `color`; the ceiling lies above them, the floor below.
#[derive(Clone, Copy, PartialEq, Eq, Structural, Debug)]
pub struct Slice {
    pub top: u32,
    pub bottom: u32,
    pub color: u8,
}

/// Where column `col` of `width` lies across the view, from `-ONE` at the
/// left edge to `ONE` at the right.
pub open spec fn camera_offset(col: int, width: int) -> int {
    2 * col * ONE / width - ONE
}

/// The angle of the ray through column `col`: the heading, plus the angle
/// under which the column is seen, brought into one turn.
pub open spec fn ray_angle(heading: int, col: int, width: int) -> int {
    (heading + arctan_spec(mul_fixed(camera_offset(col, width), FOV as int))) % (TWO_PI as int)
}

/// The height in pixels of a wall at `distance`, on a screen `rows` pixels high.
pub open spec fn slice_height(rows: int, distance: int) -> int {
    rows * ONE / (if distance < NEAR_PLANE {
        NEAR_PLANE as int
    } else {
        distance
    })
}

/// The first pixel row of a wall slice `tall` pixels high, centred on a
/// screen of `rows` pixel rows.
pub open spec fn slice_top(rows: int, tall: int) -> int {
    if tall >= rows {
        0
    } else {
        (rows - tall) / 2
    }
}

/// The pixel row after the last of that slice.
pub open spec fn slice_bottom(rows: int, tall: int) -> int {
    if (rows + tall) / 2 > rows {
        rows
    } else {
        (rows + tall) / 2
    }
}

/// The wall slice of a ray that met its wall at `distance`.
pub open spec fn slice_at(rows: int, distance: int) -> Slice {
    let tall = slice_height(rows, distance);
    Slice {
        top: slice_top(rows, tall) as u32,
        bottom: slice_bottom(rows, tall) as u32,
        color: wall_shade(distance) as u8,
    }
}

/// The wall slice of column `col` on a screen of `width` by `height` cells.
pub open spec fn slice_of(grid: Grid, player: Player, width: int, height: int, col: int) -> Slice {
    slice_at(
        2 * height,
        distance_at(grid, player.x as int, player.y as int, ray_angle(player.angle as int, col, width)),
    )
}

/// `offset` pixel rows as a part of the screen's `rows`, rounded up.
pub open spec fn screen_part(offset: int, rows: int) -> int {
    (offset * ONE + rows - 1) / rows
}

/// The colour of pixel row `row` in a column with wall slice `slice`, on a
/// screen of `rows` pixel rows: the wall's colour inside the slice, and
/// outside it a ceiling or floor colour graded by the distance from the
/// slice, taken as a part of the screen's height.
pub open spec fn pixel_shade(slice: Slice, rows: int, row: int) -> int {
    if row < slice.top {
        ceiling_shade(screen_part(slice.top - row, rows))
    } else if row < slice.bottom {
        slice.color as int
    } else {
        floor_shade(screen_part(row - slice.bottom, rows))
    }
}

/// Rounding the part of the screen up loses nothing: the gradient step of a
/// pixel `offset` rows from the slice is `6 * offset / rows` exactly, as if
/// the part had been taken without rounding.
pub proof fn lemma_gradient_exact(offset: int, rows: int)
    requires
        0 <= offset <= rows,
        0 < rows <= 2 * MAX_SCREEN,
    ensures
        gradient_step(screen_part(offset, rows)) == 6 * offset / rows,
{
    let q = screen_part(offset, rows);
    let k = 6 * offset / rows;
    assert(k * rows <= 6 * offset < (k + 1) * rows && 0 <= k <= 6) by (nonlinear_arith)
        requires
            k == 6 * offset / rows,
            0 <= offset <= rows,
            0 < rows,
    ;
    assert(offset * ONE <= q * rows < offset * ONE + rows && 0 <= q <= ONE) by (nonlinear_arith)
        requires
            q == (offset * ONE + rows - 1) / rows,
            0 <= offset <= rows,
            0 < rows,
    ;
    assert(k * ONE <= 6 * q) by (nonlinear_arith)
        requires
            k * rows <= 6 * offset,
            offset * ONE <= q * rows,
            0 < rows,
            0 <= k,
    ;
    assert(6 * q < (k + 1) * ONE) by (nonlinear_arith)
        requires
            6 * offset + 1 <= (k + 1) * rows,
            q * rows < offset * ONE + rows,
            0 < rows <= 131_070,
            0 <= k,
            0 <= q,
    ;
}

/// The wall slice of one column.
fn slice_for(grid: &Grid, player: Player, width: u16, height: u16, col: u16) -> (s: Slice)
    requires
        col < width,
    ensures
        s == slice_of(*grid, player, width as int, height as int, col as int),
        s.top <= s.bottom <= 2 * height,
{
    let quotient: i64 = (2 * (col as i64) * ONE) / (width as i64);
    assert(0 <= quotient <= 2 * col * ONE) by (nonlinear_arith)
        requires
            quotient == (2 * col * ONE) / (width as int),
            0 <= col,
            0 < width,
    ;
    let camera: i64 = quotient - ONE;
    let slope: i64 = (camera * FOV) / ONE;
    let offset: i64 = arctan(slope);
    let total: i128 = (player.angle as i128) + (offset as i128);
    let angle: i64 = match total.checked_rem_euclid(TWO_PI as i128) {
        Some(a) => a as i64,
        None => 0,
    };
    let distance: i128 = cast_ray(grid, player.x, player.y, angle);
    let rows: i128 = 2 * (height as i128);
    let near: i128 = if distance < NEAR_PLANE as i128 { NEAR_PLANE as i128 } else { distance };
    let tall: i128 = (rows * 1_000_000) / near;
    assert(0 <= tall <= rows * 1_000_000) by (nonlinear_arith)
        requires
            tall == (rows * 1_000_000) / (near as int),
            0 <= rows,
            1 <= near,
    ;
    let top: i128 = if tall >= rows { 0 } else { (rows - tall) / 2 };
    let bottom: i128 = if (rows + tall) / 2 > rows { rows } else { (rows + tall) / 2 };
    Slice { top: top as u32, bottom: bottom as u32, color: distance_to_color(distance) }
}

/// `offset` pixel rows as a part of the screen's `rows`, rounded up.
fn part_of_screen(offset: u32, rows: u32) -> (part: i64)
    requires
        offset <= rows,
        0 < rows <= 2 * MAX_SCREEN,
    ensures
        part == screen_part(offset as int, rows as int),
{
    ((offset as i64) * ONE + (rows as i64) - 1) / (rows as i64)
}

/// The colour of one pixel of a column.
fn shade_pixel(slice: Slice, rows: u32, row: u32) -> (c: u8)
    requires
        row < rows <= 2 * MAX_SCREEN,
        slice.top <= slice.bottom <= rows,
    ensures
        c == pixel_shade(slice, rows as int, row as int),
{
    if row < slice.top {
        ceiling_color(part_of_screen(slice.top - row, rows))
    } else if row < slice.bottom {
        slice.color
    } else {
        floor_color(part_of_screen(row - slice.bottom, rows))
    }
}

/// What `player` sees in `grid` on a screen of `width` by `height` character
/// cells: `2 * height` rows of `width` colour indices.
pub open spec fn picture(grid: Grid, player: Player, width: int, height: int) -> Seq<Seq<u8>> {
    Seq::new(
        (2 * height) as nat,
        |y: int|
            Seq::new(
                width as nat,
                |x: int| pixel_shade(slice_of(grid, player, width, height, x), 2 * height, y) as u8,
            ),
    )
}

/// The two colours of the character cell at column `x` of line `line`: the
/// upper pixel, shown as foreground, and the lower, shown as background.
pub open spec fn cell_colors(pixels: Seq<Seq<u8>>, x: int, line: int) -> (u8, u8) {
    (pixels[2 * line][x], pixels[2 * line + 1][x])
}

/// The colours in force when the cell at column `x` is written: those of the
/// cell to its left, or none at the start of a line.
pub open spec fn colors_before(pixels: Seq<Seq<u8>>, x: int, line: int) -> (u8, u8) {
    if x == 0 {
        (0u8, 0u8)
    } else {
        cell_colors(pixels, x - 1, line)
    }
}

/// The text of one cell: a colour selection where the colours change, then
/// the half block.
pub open spec fn cell_text(pixels: Seq<Seq<u8>>, x: int, line: int) -> Seq<u8> {
    let (fg, bg) = cell_colors(pixels, x, line);
    if colors_before(pixels, x, line) != (fg, bg) {
        select_colors(fg, bg) + half_block()
    } else {
        half_block()
    }
}

/// The text of the first `n` cells of a line.
pub open spec fn cells_text(pixels: Seq<Seq<u8>>, line: int, n: int) -> Seq<u8>
    decreases n,
{
    if n <= 0 {
        Seq::<u8>::empty()
    } else {
        cells_text(pixels, line, n - 1) + cell_text(pixels, n - 1, line)
    }
}

/// The text of a line: its cells, and a line break unless it is the last.
pub open spec fn line_text(pixels: Seq<Seq<u8>>, width: int, height: int, line: int) -> Seq<u8> {
    if line + 1 < height {
        cells_text(pixels, line, width) + line_break()
    } else {
        cells_text(pixels, line, width)
    }
}

/// The text of the first `n` lines.
pub open spec fn lines_text(pixels: Seq<Seq<u8>>, width: int, height: int, n: int) -> Seq<u8>
    decreases n,
{
    if n <= 0 {
        Seq::<u8>::empty()
    } else {
        lines_text(pixels, width, height, n - 1) + line_text(pixels, width, height, n - 1)
    }
}

/// The text of a frame of `width` by `height` character cells: the cursor
/// goes home, the lines follow, and the colours are reset.
pub open spec fn frame_text(pixels: Seq<Seq<u8>>, width: int, height: int) -> Seq<u8> {
    home() + lines_text(pixels, width, height, height) + reset()
}

/// The cells of a line hold no erase control.
proof fn lemma_cells_free_of_erase(pixels: Seq<Seq<u8>>, line: int, n: int)
    ensures
        free_of(cells_text(pixels, line, n), 74),
    decreases n,
{
    if n > 0 {
        lemma_cells_free_of_erase(pixels, line, n - 1);
        let (fg, bg) = cell_colors(pixels, n - 1, line);
        lemma_controls_free_of_erase(fg, bg);
        lemma_free_of_concat(select_colors(fg, bg), half_block(), 74);
        lemma_free_of_concat(cells_text(pixels, line, n - 1), cell_text(pixels, n - 1, line), 74);
    }
}

/// The lines of a frame hold no erase control.
proof fn lemma_lines_free_of_erase(pixels: Seq<Seq<u8>>, width: int, height: int, n: int)
    ensures
        free_of(lines_text(pixels, width, height, n), 74),
    decreases n,
{
    if n > 0 {
        lemma_lines_free_of_erase(pixels, width, height, n - 1);
        lemma_cells_free_of_erase(pixels, n - 1, width);
        lemma_controls_free_of_erase(0, 0);
        lemma_free_of_concat(cells_text(pixels, n - 1, width), line_break(), 74);
        lemma_free_of_concat(
            lines_text(pixels, width, height, n - 1),
            line_text(pixels, width, height, n - 1),
            74,
        );
    }
}

/// A frame never clears the screen: the letter `J`, which ends every erase
/// control, occurs nowhere in its text.
pub proof fn lemma_frame_free_of_erase(pixels: Seq<Seq<u8>>, width: int, height: int)
    ensures
        free_of(frame_text(pixels, width, height), 74),
{
    lemma_lines_free_of_erase(pixels, width, height, height);
    lemma_controls_free_of_erase(0, 0);
    lemma_free_of_concat(home(), lines_text(pixels, width, height, height), 74);
    lemma_free_of_concat(home() + lines_text(pixels, width, height, height), reset(), 74);
}

/// A painted frame: `2 * height` rows of `width` colour indices, two pixel
/// rows for each character row of the screen.
pub struct FrameBuffer {
    width: usize,
    height: usize,
    rows: Vec<Vec<u8>>,
}

impl View for FrameBuffer {
    type V = Seq<Seq<u8>>;

    /// The pixel rows, top row first.
    closed spec fn view(&self) -> Seq<Seq<u8>> {
        Seq::new(self.rows@.len(), |y: int| self.rows@[y]@)
    }
}

impl FrameBuffer {
    /// The buffer holds two pixel rows per character row, all of one width.
    #[verifier::type_invariant]
    pub closed spec fn well_formed(&self) -> bool {
        &&& self.width <= MAX_SCREEN
        &&& self.height <= MAX_SCREEN
        &&& self.rows.len() == 2 * self.height
        &&& forall|y: int| 0 <= y < self.rows.len() ==> (#[trigger] self.rows[y]).len() == self.width
    }

    /// Width in character cells.
    pub closed spec fn cols(&self) -> int {
        self.width as int
    }

    /// Height in character rows; the buffer has twice as many pixel rows.
    pub closed spec fn lines(&self) -> int {
        self.height as int
    }

    /// The shape of a well-formed buffer.
    pub proof fn lemma_shape(&self)
        requires
            self.well_formed(),
        ensures
            0 <= self.cols() <= MAX_SCREEN,
            0 <= self.lines() <= MAX_SCREEN,
            self@.len() == 2 * self.lines(),
            forall|y: int| 0 <= y < 2 * self.lines() ==> (#[trigger] self@[y]).len() == self.cols(),
    {
    }

    /// Width in character cells.
    pub fn width(&self) -> (w: usize)
        ensures
            w == self.cols(),
    {
        self.width
    }

    /// Height in character rows.
    pub fn height(&self) -> (h: usize)
        ensures
            h == self.lines(),
    {
        self.height
    }

    /// The colour at column `x` of pixel row `y`, if the buffer has one there.
    pub fn get(&self, x: usize, y: usize) -> (c: Option<u8>)
        ensures
            c == (if x < self.cols() && y < 2 * self.lines() {
                Some(self@[y as int][x as int])
            } else {
                None
            }),
    {
        proof {
            use_type_invariant(self);
        }
        if y < self.rows.len() && x < self.width {
            Some(self.rows[y][x])
        } else {
            None
        }
    }

    /// Paints what `player` sees in `grid` for a screen of `width` by
    /// `height` character cells.  Every column gets one ray; its wall slice is
    /// centred on the screen and as tall as the wall is near.
    pub fn paint(grid: &Grid, player: Player, width: u16, height: u16) -> (f: FrameBuffer)
        ensures
            f.well_formed(),
            f.cols() == width,
            f.lines() == height,
            f@ == picture(*grid, player, width as int, height as int),
    {
        let mut slices: Vec<Slice> = Vec::new();
        let mut col: u16 = 0;
        while col < width
            invariant
                col <= width,
                slices.len() == col,
                forall|x: int|
                    0 <= x < col ==> #[trigger] slices[x] == slice_of(*grid, player, width as int, height as int, x)
                        && slices[x].top <= slices[x].bottom <= 2 * height,
            decreases width - col,
        {
            slices.push(slice_for(grid, player, width, height, col));
            col = col + 1;
        }
        let pixel_rows: u32 = 2 * (height as u32);
        let mut rows: Vec<Vec<u8>> = Vec::new();
        let mut y: u32 = 0;
        while y < pixel_rows
            invariant
                y <= pixel_rows == 2 * height,
                slices.len() == width,
                forall|x: int|
                    0 <= x < width ==> #[trigger] slices[x] == slice_of(*grid, player, width as int, height as int, x)
                        && slices[x].top <= slices[x].bottom <= 2 * height,
                rows.len() == y,
                forall|j: int| 0 <= j < y ==> (#[trigger] rows[j]).len() == width,
                forall|i: int, j: int|
                    0 <= i < width && 0 <= j < y ==> #[trigger] rows[j][i] == pixel_shade(
                        slice_of(*grid, player, width as int, height as int, i),
                        2 * height,
                        j,
                    ),
            decreases pixel_rows - y,
        {
            let mut row: Vec<u8> = Vec::new();
            let mut x: usize = 0;
            while x < width as usize
                invariant
                    x <= width,
                    y < pixel_rows == 2 * height,
                    slices.len() == width,
                    forall|x: int|
                        0 <= x < width ==> #[trigger] slices[x] == slice_of(
                            *grid,
                            player,
                            width as int,
                            height as int,
                            x,
                        ) && slices[x].top <= slices[x].bottom <= 2 * height,
                    row.len() == x,
                    forall|i: int|
                        0 <= i < x ==> #[trigger] row[i] == pixel_shade(
                            slice_of(*grid, player, width as int, height as int, i),
                            2 * height,
                            y as int,
                        ),
                decreases width - x,
            {
                row.push(shade_pixel(slices[x], pixel_rows, y));
                x = x + 1;
            }
            rows.push(row);
            y = y + 1;
        }
        let f = FrameBuffer { width: width as usize, height: height as usize, rows };
        assert(f@ =~~= picture(*grid, player, width as int, height as int));
        f
    }

    /// Writes the frame as terminal text.  Each character cell is a half
    /// block whose foreground is the upper pixel and whose background is the
    /// lower one; colours are selected only where they differ from those of
    /// the cell before.
    pub fn encode(&self) -> (out: Vec<u8>)
        ensures
            out@ == frame_text(self@, self.cols(), self.lines()),
    {
        proof {
            use_type_invariant(self);
        }
        let mut out: Vec<u8> = Vec::new();
        push_home(&mut out);
        let mut line: usize = 0;
        while line < self.height
            invariant
                self.well_formed(),
                line <= self.height,
                out@ == home() + lines_text(self@, self.cols(), self.lines(), line as int),
            decreases self.height - line,
        {
            let ghost before = out@;
            let mut fg: u8 = 0;
            let mut bg: u8 = 0;
            let mut x: usize = 0;
            while x < self.width
                invariant
                    self.well_formed(),
                    line < self.height,
                    x <= self.width,
                    (fg, bg) == colors_before(self@, x as int, line as int),
                    out@ == before + cells_text(self@, line as int, x as int),
                decreases self.width - x,
            {
                let upper: u8 = self.rows[2 * line][x];
                let lower: u8 = self.rows[2 * line + 1][x];
                let ghost so_far = out@;
                if upper != fg || lower != bg {
                    push_select_colors(&mut out, upper, lower);
                    fg = upper;
                    bg = lower;
                }
                push_half_block(&mut out);
                assert(out@ =~= so_far + cell_text(self@, x as int, line as int));
                assert(out@ =~= before + cells_text(self@, line as int, x as int + 1));
                x = x + 1;
            }
            if line + 1 < self.height {
                push_line_break(&mut out);
            }
            assert(out@ =~= before + line_text(self@, self.cols(), self.lines(), line as int));
            assert(out@ =~= home() + lines_text(self@, self.cols(), self.lines(), line as int + 1));
            line = line + 1;
        }
        push_reset(&mut out);
        out
    }
}

} // verus!
