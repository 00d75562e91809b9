//! The engine: a level, the player in it, and the size of the screen last
//! drawn to.

use vstd::prelude::*;
use crate::frame::{FrameBuffer, frame_text, lemma_frame_free_of_erase, picture};
use crate::grid::{Cell, Grid, STANDARD_SIDE, standard_wall};
use crate::player::{Intent, Player, moved, update};
use crate::ray::{cast_ray, distance_at};
use crate::text::free_of;

verus! {

/// Where the player starts in the built-in level.
pub const START_X: i64 = 2_000_000;

/// Where the player starts in the built-in level.
pub const START_Y: i64 = 2_000_000;

/// The bytes that clear the whole screen: `ESC [ 2 J`.
pub open spec fn clear_screen() -> Seq<u8> {
    seq![27u8, 91u8, 50u8, 74u8]
}

/// The escape sequence of crossterm's command `Clear(ClearType::All)`, as its
/// `Command::write_ansi` writes it.  Trusted: crossterm writes the control
/// sequence introducer `ESC [` followed by `2J`.
#[verifier::external_body]
fn clear_screen_sequence() -> (bytes: Vec<u8>)
    ensures
        bytes@ == clear_screen(),
{
    let mut text = String::new();
    let _ = crossterm::Command::write_ansi(
        &crossterm::terminal::Clear(crossterm::terminal::ClearType::All),
        &mut text,
    );
    text.into_bytes()
}

/// The engine.  The player always stands in an empty cell of the level, with
/// a heading within one turn.
pub struct Raycaster {
    grid: Grid,
    player: Player,
    last_width: u16,
    last_height: u16,
}

impl Raycaster {
    /// The level is well formed and the player is validly placed in it.
    #[verifier::type_invariant]
    pub closed spec fn well_formed(&self) -> bool {
        self.grid.well_formed() && self.player.valid(self.grid)
    }

    /// The level.
    pub closed spec fn level(&self) -> Grid {
        self.grid
    }

    /// The player.
    pub closed spec fn whereabouts(&self) -> Player {
        self.player
    }

    /// Width and height of the screen last drawn to; `(0, 0)` before the
    /// first frame.
    pub closed spec fn screen(&self) -> (u16, u16) {
        (self.last_width, self.last_height)
    }

    /// The engine after one frame of intents.
    pub closed spec fn after_update(self, intents: Seq<Intent>) -> Raycaster {
        Raycaster { player: moved(self.grid, self.player, intents), ..self }
    }

    /// The engine after drawing to a screen of `width` by `height`.
    pub closed spec fn after_render(self, width: u16, height: u16) -> Raycaster {
        Raycaster { last_width: width, last_height: height, ..self }
    }

    /// What drawing to a screen of `width` by `height` writes: the frame,
    /// behind a full clear if the screen has changed its size.
    pub open spec fn render_output(self, width: u16, height: u16) -> Seq<u8> {
        let frame = frame_text(picture(self.level(), self.whereabouts(), width as int, height as int), width as int, height as int);
        if self.screen() != (width, height) {
            clear_screen() + frame
        } else {
            frame
        }
    }

    /// What the two transitions change and what they leave alone.
    pub proof fn lemma_transitions(self, intents: Seq<Intent>, width: u16, height: u16)
        ensures
            self.after_update(intents).level() == self.level(),
            self.after_update(intents).whereabouts() == moved(self.level(), self.whereabouts(), intents),
            self.after_update(intents).screen() == self.screen(),
            self.after_render(width, height).level() == self.level(),
            self.after_render(width, height).whereabouts() == self.whereabouts(),
            self.after_render(width, height).screen() == (width, height),
    {
    }

    /// Drawing twice in a row to a screen of one size shows the same picture
    /// both times.  The second output is the frame alone, with no clear of
    /// the screen in it, and the second drawing leaves the engine as the first
    /// left it.
    pub proof fn lemma_render_twice(self, width: u16, height: u16)
        ensures
            picture(
                self.after_render(width, height).level(),
                self.after_render(width, height).whereabouts(),
                width as int,
                height as int,
            ) == picture(self.level(), self.whereabouts(), width as int, height as int),
            self.after_render(width, height).render_output(width, height) == frame_text(
                picture(self.level(), self.whereabouts(), width as int, height as int),
                width as int,
                height as int,
            ),
            free_of(self.after_render(width, height).render_output(width, height), 74),
            self.after_render(width, height).after_render(width, height) == self.after_render(width, height),
    {
        lemma_frame_free_of_erase(
            picture(self.level(), self.whereabouts(), width as int, height as int),
            width as int,
            height as int,
        );
    }

    /// A change of the screen's size, and nothing else, puts a full clear in
    /// front of the frame.
    pub proof fn lemma_clear_on_resize(self, width: u16, height: u16)
        ensures
            self.screen() != (width, height) ==> self.render_output(width, height) =~= clear_screen()
                + frame_text(
                picture(self.level(), self.whereabouts(), width as int, height as int),
                width as int,
                height as int,
            ),
            self.screen() == (width, height) ==> free_of(self.render_output(width, height), 74),
    {
        lemma_frame_free_of_erase(
            picture(self.level(), self.whereabouts(), width as int, height as int),
            width as int,
            height as int,
        );
    }

    /// The player at the start: at `(START_X, START_Y)`, looking along the x axis.
    pub open spec fn new_player() -> Player {
        Player { x: START_X, y: START_Y, angle: 0 }
    }

    /// The engine is as it is at the start: the built-in level, the player
    /// at the start, nothing drawn yet.
    pub open spec fn fresh(&self) -> bool {
        &&& self.whereabouts() == Raycaster::new_player()
        &&& self.screen() == (0u16, 0u16)
        &&& self.level().cols() == STANDARD_SIDE
        &&& self.level().lines() == STANDARD_SIDE
        &&& forall|x: int, y: int|
            self.level().contains(x, y) ==> (self.level().stored(x, y) == Cell::Wall <==> standard_wall(x, y))
    }

    /// The engine at the start.
    pub fn new() -> (engine: Raycaster)
        ensures
            engine.well_formed(),
            engine.fresh(),
    {
        let grid = Grid::standard();
        assert(grid.contains(2, 2) && !standard_wall(2, 2));
        Raycaster { grid, player: Player { x: START_X, y: START_Y, angle: 0 }, last_width: 0, last_height: 0 }
    }

    /// The player.
    pub fn player(&self) -> (p: Player)
        ensures
            p == self.whereabouts(),
    {
        self.player
    }

    /// The level.
    pub fn grid(&self) -> (g: &Grid)
        ensures
            *g == self.level(),
    {
        &self.grid
    }

    /// Width and height of the screen last drawn to.
    pub fn last_size(&self) -> (size: (u16, u16))
        ensures
            size == self.screen(),
    {
        (self.last_width, self.last_height)
    }

    /// The distance from the player to the nearest wall along `ray_angle`.
    pub fn cast_ray(&self, ray_angle: i64) -> (d: i128)
        ensures
            d == distance_at(
                self.level(),
                self.whereabouts().x as int,
                self.whereabouts().y as int,
                ray_angle as int,
            ),
            d >= 0,
    {
        cast_ray(&self.grid, self.player.x, self.player.y, ray_angle)
    }

    /// Moves and turns the player by one frame of intents.
    pub fn update(&mut self, intents: &Vec<Intent>)
        ensures
            *final(self) == old(self).after_update(intents@),
            final(self).well_formed(),
            final(self).level() == old(self).level(),
            final(self).screen() == old(self).screen(),
            final(self).whereabouts() == moved(old(self).level(), old(self).whereabouts(), intents@),
    {
        proof {
            use_type_invariant(&*self);
        }
        self.player = update(&self.grid, self.player, intents);
    }

    /// Draws one frame for a screen of `width` by `height` character cells
    /// and returns the bytes to write.  The frame starts by sending the
    /// cursor home; a full clear comes first if, and only if, the size
    /// differs from the one last drawn to.
    pub fn render(&mut self, width: u16, height: u16) -> (out: Vec<u8>)
        ensures
            out@ == old(self).render_output(width, height),
            *final(self) == old(self).after_render(width, height),
            final(self).well_formed(),
            final(self).level() == old(self).level(),
            final(self).whereabouts() == old(self).whereabouts(),
            final(self).screen() == (width, height),
    {
        proof {
            use_type_invariant(&*self);
        }
        let mut out: Vec<u8> = Vec::new();
        if width != self.last_width || height != self.last_height {
            out = clear_screen_sequence();
            self.last_width = width;
            self.last_height = height;
        }
        let frame = FrameBuffer::paint(&self.grid, self.player, width, height);
        let mut text = frame.encode();
        out.append(&mut text);
        assert(out@ =~= old(self).render_output(width, height));
        out
    }
}

} // verus!
