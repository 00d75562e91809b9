//! The player: a position, a heading, and the rule that moves them.

use vstd::prelude::*;
use crate::fixed::{ONE, mul_fixed};
use crate::grid::{Cell, Grid};
use crate::trig::{Direction, TWO_PI};

verus! {

/// Distance covered by one movement intent.
pub const MOVE_SPEED: i64 = 50_000;

/// Angle turned by one rotation intent.
pub const ROTATION_SPEED: i64 = 30_000;

/// One command of the player for the coming frame.
#[derive(Clone, Copy, PartialEq, Eq, Structural, Debug)]
pub enum Intent {
    Forward,
    Backward,
    StrafeLeft,
    StrafeRight,
    RotateLeft,
    RotateRight,
}

/// Where the player stands and where they look.
#[derive(Clone, Copy, PartialEq, Eq, Structural, Debug)]
pub struct Player {
    pub x: i64,
    pub y: i64,
    pub angle: i64,
}

/// How often `which` occurs among `intents`.
pub open spec fn tally(intents: Seq<Intent>, which: Intent) -> int
    decreases intents.len(),
{
    if intents.len() == 0 {
        0
    } else {
        tally(intents.drop_last(), which) + if intents.last() == which {
            1int
        } else {
            0int
        }
    }
}

/// Steps forward, net of steps backward.
pub open spec fn advance(intents: Seq<Intent>) -> int {
    tally(intents, Intent::Forward) - tally(intents, Intent::Backward)
}

/// Steps to the left, net of steps to the right.
pub open spec fn sidestep(intents: Seq<Intent>) -> int {
    tally(intents, Intent::StrafeLeft) - tally(intents, Intent::StrafeRight)
}

/// Turns to the right, net of turns to the left.
pub open spec fn turn(intents: Seq<Intent>) -> int {
    tally(intents, Intent::RotateRight) - tally(intents, Intent::RotateLeft)
}

/// The place the intents ask for: every intent adds one step of
/// `MOVE_SPEED` along the heading, or along the heading turned a quarter
/// turn, and all of them add up before anything is checked.
pub open spec fn destination(player: Player, intents: Seq<Intent>) -> (int, int) {
    let dir = Direction::at(player.angle as int);
    let along = mul_fixed(dir.cos as int, MOVE_SPEED as int);
    let across = mul_fixed(dir.sin as int, MOVE_SPEED as int);
    (
        player.x + advance(intents) * along + sidestep(intents) * across,
        player.y + advance(intents) * across - sidestep(intents) * along,
    )
}

/// Whether the grid lets the player stand at `(x, y)`.
pub open spec fn clear_at(grid: Grid, x: int, y: int) -> bool {
    grid.cell(x / (ONE as int), y / (ONE as int)) == Cell::Empty
}

/// The heading after the intents, brought back into one full turn.
pub open spec fn heading_after(player: Player, intents: Seq<Intent>) -> int {
    (player.angle + turn(intents) * ROTATION_SPEED) % (TWO_PI as int)
}

/// The player after one frame of intents: moved to the destination if the
/// grid is clear there, else left in place; turned in either case.
pub open spec fn moved(grid: Grid, player: Player, intents: Seq<Intent>) -> Player {
    let (nx, ny) = destination(player, intents);
    let free = clear_at(grid, nx, ny);
    Player {
        x: if free { nx as i64 } else { player.x },
        y: if free { ny as i64 } else { player.y },
        angle: heading_after(player, intents) as i64,
    }
}

impl Player {
    /// The player stands in an empty cell and the heading is within one turn.
    pub open spec fn valid(self, grid: Grid) -> bool {
        clear_at(grid, self.x as int, self.y as int) && 0 <= self.angle < TWO_PI
    }
}

/// What holds of every frame, whatever the intents: the heading comes out
/// within one turn; a destination that is not clear leaves both coordinates
/// as they were; and a player who stood in an empty cell still stands in one.
pub proof fn lemma_moved(grid: Grid, player: Player, intents: Seq<Intent>)
    requires
        grid.well_formed(),
    ensures
        0 <= moved(grid, player, intents).angle < TWO_PI,
        moved(grid, player, intents).angle == heading_after(player, intents),
        !clear_at(grid, destination(player, intents).0, destination(player, intents).1) ==> moved(
            grid,
            player,
            intents,
        ).x == player.x && moved(grid, player, intents).y == player.y,
        clear_at(grid, destination(player, intents).0, destination(player, intents).1) ==> moved(
            grid,
            player,
            intents,
        ).x == destination(player, intents).0 && moved(grid, player, intents).y == destination(
            player,
            intents,
        ).1,
        clear_at(grid, player.x as int, player.y as int) ==> moved(grid, player, intents).valid(grid),
{
    grid.lemma_sides_bounded();
}

/// The three net counts of a list of intents.
fn count(intents: &Vec<Intent>) -> (r: (i128, i128, i128))
    ensures
        r.0 == advance(intents@),
        r.1 == sidestep(intents@),
        r.2 == turn(intents@),
        -intents.len() <= r.0 <= intents.len(),
        -intents.len() <= r.1 <= intents.len(),
        -intents.len() <= r.2 <= intents.len(),
{
    let mut ahead: i128 = 0;
    let mut left: i128 = 0;
    let mut right: i128 = 0;
    let mut i: usize = 0;
    while i < intents.len()
        invariant
            i <= intents.len(),
            ahead == advance(intents@.take(i as int)),
            left == sidestep(intents@.take(i as int)),
            right == turn(intents@.take(i as int)),
            -i <= ahead <= i,
            -i <= left <= i,
            -i <= right <= i,
        decreases intents.len() - i,
    {
        proof {
            let next = intents@.take(i + 1);
            assert(next.drop_last() =~= intents@.take(i as int));
            assert(next.last() == intents@[i as int]);
        }
        match intents[i] {
            Intent::Forward => {
                ahead = ahead + 1;
            },
            Intent::Backward => {
                ahead = ahead - 1;
            },
            Intent::StrafeLeft => {
                left = left + 1;
            },
            Intent::StrafeRight => {
                left = left - 1;
            },
            Intent::RotateLeft => {
                right = right - 1;
            },
            Intent::RotateRight => {
                right = right + 1;
            },
        }
        i = i + 1;
    }
    proof {
        assert(intents@.take(intents.len() as int) =~= intents@);
    }
    (ahead, left, right)
}

/// One step of `MOVE_SPEED` along a direction component.
fn step_along(component: i64) -> (s: i64)
    requires
        -ONE <= component <= ONE,
    ensures
        s == mul_fixed(component as int, MOVE_SPEED as int),
        -MOVE_SPEED <= s <= MOVE_SPEED,
{
    (component * MOVE_SPEED) / ONE
}

/// Applies one frame of intents to the player.
///
/// The movement intents add up to one displacement.  It is taken whole if
/// the cell it leads to is empty, and dropped whole otherwise: the player
/// never slides along a wall.  The rotation intents turn the heading, which
/// comes back within `0 <= angle < TWO_PI`.
pub fn update(grid: &Grid, player: Player, intents: &Vec<Intent>) -> (next: Player)
    ensures
        next == moved(*grid, player, intents@),
        0 <= next.angle < TWO_PI,
        !clear_at(*grid, destination(player, intents@).0, destination(player, intents@).1) ==> next.x
            == player.x && next.y == player.y,
        clear_at(*grid, destination(player, intents@).0, destination(player, intents@).1) ==> next.x
            == destination(player, intents@).0 && next.y == destination(player, intents@).1,
        clear_at(*grid, player.x as int, player.y as int) ==> next.valid(*grid),
{
    let (ahead, left, right) = count(intents);
    let dir = Direction::of_angle(player.angle);
    let along: i64 = step_along(dir.cos);
    let across: i64 = step_along(dir.sin);
    assert(-0x1_0000_0000_0000_0000 * 50_000 <= ahead * along <= 0x1_0000_0000_0000_0000 * 50_000
        && -0x1_0000_0000_0000_0000 * 50_000 <= ahead * across <= 0x1_0000_0000_0000_0000 * 50_000
        && -0x1_0000_0000_0000_0000 * 50_000 <= left * along <= 0x1_0000_0000_0000_0000 * 50_000
        && -0x1_0000_0000_0000_0000 * 50_000 <= left * across <= 0x1_0000_0000_0000_0000 * 50_000)
        by (nonlinear_arith)
        requires
            -0x1_0000_0000_0000_0000 <= ahead <= 0x1_0000_0000_0000_0000,
            -0x1_0000_0000_0000_0000 <= left <= 0x1_0000_0000_0000_0000,
            -50_000 <= along <= 50_000,
            -50_000 <= across <= 50_000,
    ;
    let nx: i128 = (player.x as i128) + ahead * (along as i128) + left * (across as i128);
    let ny: i128 = (player.y as i128) + ahead * (across as i128) - left * (along as i128);
    let w: i128 = (grid.width() as i128) * 1_000_000;
    let h: i128 = (grid.height() as i128) * 1_000_000;
    let mut x: i64 = player.x;
    let mut y: i64 = player.y;
    if 0 <= nx && nx < w && 0 <= ny && ny < h {
        let cx: i64 = (nx / 1_000_000) as i64;
        let cy: i64 = (ny / 1_000_000) as i64;
        match grid.lookup(cx, cy) {
            Cell::Empty => {
                x = nx as i64;
                y = ny as i64;
            },
            Cell::Wall => {},
        }
    }
    let total: i128 = (player.angle as i128) + right * (ROTATION_SPEED as i128);
    let angle: i64 = match total.checked_rem_euclid(TWO_PI as i128) {
        Some(a) => a as i64,
        None => 0,
    };
    Player { x, y, angle }
}

} // verus!
