//! The level: a rectangular grid of wall and empty cells.

use vstd::prelude::*;

verus! {

/// What a grid cell holds.
#[derive(Clone, Copy, PartialEq, Eq, Structural, Debug)]
pub enum Cell {
    Wall,
    Empty,
}

/// Largest width or height a grid may have.
pub const MAX_SIDE: usize = 65_535;

/// Width and height of the built-in level.
pub const STANDARD_SIDE: usize = 24;

/// Whether the built-in level has a wall at `(x, y)`: the outer ring of the
/// 24 by 24 square, and a two-cell-wide pillar hanging from the top edge.
pub open spec fn standard_wall(x: int, y: int) -> bool {
    x == 0 || x == 23 || y == 0 || y == 23 || (1 <= y <= 3 && 10 <= x <= 11)
}

/// An immutable rectangular level.  Cell `(x, y)` is `rows[y][x]`.
pub struct Grid {
    width: usize,
    height: usize,
    rows: Vec<Vec<Cell>>,
}

impl Grid {
    /// Every row has the declared width, and both sides are within `MAX_SIDE`.
    #[verifier::type_invariant]
    pub closed spec fn well_formed(&self) -> bool {
        &&& self.width <= MAX_SIDE
        &&& self.height <= MAX_SIDE
        &&& self.rows.len() == self.height
        &&& forall|y: int| 0 <= y < self.rows.len() ==> (#[trigger] self.rows[y]).len() == self.width
    }

    /// Number of columns.
    pub closed spec fn cols(&self) -> int {
        self.width as int
    }

    /// Number of rows.
    pub closed spec fn lines(&self) -> int {
        self.height as int
    }

    /// Whether `(x, y)` lies inside the grid.
    pub open spec fn contains(&self, x: int, y: int) -> bool {
        0 <= x < self.cols() && 0 <= y < self.lines()
    }

    /// The cell stored at `(x, y)`; meaningful only inside the grid.
    pub closed spec fn stored(&self, x: int, y: int) -> Cell {
        self.rows[y][x]
    }

    /// The cell seen at `(x, y)`: the stored cell inside the grid, a wall
    /// everywhere else.
    pub open spec fn cell(&self, x: int, y: int) -> Cell {
        if self.contains(x, y) {
            self.stored(x, y)
        } else {
            Cell::Wall
        }
    }

    /// Sides of a well-formed grid are bounded.
    pub proof fn lemma_sides_bounded(&self)
        requires
            self.well_formed(),
        ensures
            0 <= self.cols() <= MAX_SIDE,
            0 <= self.lines() <= MAX_SIDE,
    {
    }

    /// Number of columns.
    pub fn width(&self) -> (w: usize)
        ensures
            w == self.cols(),
            w <= MAX_SIDE,
    {
        proof {
            use_type_invariant(self);
        }
        self.width
    }

    /// Number of rows.
    pub fn height(&self) -> (h: usize)
        ensures
            h == self.lines(),
            h <= MAX_SIDE,
    {
        proof {
            use_type_invariant(self);
        }
        self.height
    }

    /// The cell at `(x, y)`.  Coordinates outside the grid, however far,
    /// read as `Wall`.
    pub fn lookup(&self, x: i64, y: i64) -> (c: Cell)
        ensures
            c == self.cell(x as int, y as int),
            !self.contains(x as int, y as int) ==> c == Cell::Wall,
    {
        proof {
            use_type_invariant(self);
        }
        if 0 <= x && 0 <= y && (x as u64) < (self.width as u64) && (y as u64) < (self.height as u64) {
            self.rows[y as usize][x as usize]
        } else {
            Cell::Wall
        }
    }

    /// Builds a grid from its rows, top row first.  `None` when the rows
    /// differ in length or a side exceeds `MAX_SIDE`.
    pub fn from_rows(rows: Vec<Vec<Cell>>) -> (r: Option<Grid>)
        ensures
            r is Some <==> rows.len() <= MAX_SIDE && (rows.len() > 0 ==> rows[0].len() <= MAX_SIDE)
                && forall|y: int| 0 <= y < rows.len() ==> (#[trigger] rows[y]).len() == rows[0].len(),
            r matches Some(g) ==> {
                &&& g.well_formed()
                &&& g.lines() == rows.len()
                &&& g.cols() == (if rows.len() > 0 { rows[0].len() } else { 0 })
                &&& forall|x: int, y: int| g.contains(x, y) ==> g.stored(x, y) == rows[y][x]
            },
    {
        let height: usize = rows.len();
        if height > MAX_SIDE {
            return None;
        }
        let width: usize = if height > 0 { rows[0].len() } else { 0 };
        if width > MAX_SIDE {
            return None;
        }
        let mut y: usize = 0;
        while y < height
            invariant
                y <= height,
                height == rows.len(),
                height > 0 ==> width == rows[0].len(),
                forall|k: int| 0 <= k < y ==> (#[trigger] rows[k]).len() == width,
            decreases height - y,
        {
            if rows[y].len() != width {
                return None;
            }
            y = y + 1;
        }
        Some(Grid { width, height, rows })
    }

    /// The built-in level.
    pub fn standard() -> (g: Grid)
        ensures
            g.well_formed(),
            g.cols() == STANDARD_SIDE,
            g.lines() == STANDARD_SIDE,
            forall|x: int, y: int| g.contains(x, y) ==> (g.stored(x, y) == Cell::Wall <==> standard_wall(x, y)),
    {
        let mut rows: Vec<Vec<Cell>> = Vec::new();
        let mut y: usize = 0;
        while y < STANDARD_SIDE
            invariant
                y <= STANDARD_SIDE,
                rows.len() == y,
                forall|j: int| 0 <= j < y ==> (#[trigger] rows[j]).len() == STANDARD_SIDE,
                forall|i: int, j: int| 0 <= j < y && 0 <= i < STANDARD_SIDE ==> (rows[j][i] == Cell::Wall <==> standard_wall(i, j)),
            decreases STANDARD_SIDE - y,
        {
            let mut row: Vec<Cell> = Vec::new();
            let mut x: usize = 0;
            while x < STANDARD_SIDE
                invariant
                    x <= STANDARD_SIDE,
                    y < STANDARD_SIDE,
                    row.len() == x,
                    forall|i: int| 0 <= i < x ==> (#[trigger] row[i] == Cell::Wall <==> standard_wall(i, y as int)),
                decreases STANDARD_SIDE - x,
            {
                let wall: bool = x == 0 || x == 23 || y == 0 || y == 23 || (1 <= y && y <= 3 && 10 <= x && x <= 11);
                row.push(if wall { Cell::Wall } else { Cell::Empty });
                x = x + 1;
            }
            rows.push(row);
            y = y + 1;
        }
        Grid { width: STANDARD_SIDE, height: STANDARD_SIDE, rows }
    }
}

} // verus!
