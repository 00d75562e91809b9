//! The game loop, as a state machine: key presses come in, frames go out,
//! and a quit key ends the session.  Reading keys, writing frames and
//! sleeping are left to the caller.

use vstd::prelude::*;
use crate::engine::Raycaster;
use crate::player::Intent;

verus! {

/// The time one frame may take, in nanoseconds.
pub const FRAME_BUDGET: u64 = 16_000_000;

/// A key of the keyboard, as far as the game tells keys apart.
#[derive(Clone, Copy, PartialEq, Eq, Structural, Debug)]
pub enum Key {
    Char(char),
    Up,
    Down,
    Left,
    Right,
    Esc,
    Other,
}

/// What happened to a key.
#[derive(Clone, Copy, PartialEq, Eq, Structural, Debug)]
pub enum KeyKind {
    Press,
    Repeat,
    Release,
}

/// What a key asks for.
#[derive(Clone, Copy, PartialEq, Eq, Structural, Debug)]
pub enum Command {
    Act(Intent),
    Quit,
    Nothing,
}

/// Whether the loop goes on.
#[derive(Clone, Copy, PartialEq, Eq, Structural, Debug)]
pub enum Phase {
    Running,
    Terminated,
}

/// The command bound to `key`: `w` and `s` or the up and down arrows walk,
/// `a` and `d` step sideways, the left and right arrows turn, `q` and the
/// escape key quit.
pub open spec fn binding(key: Key) -> Command {
    match key {
        Key::Char(c) => if c == 'w' {
            Command::Act(Intent::Forward)
        } else if c == 's' {
            Command::Act(Intent::Backward)
        } else if c == 'a' {
            Command::Act(Intent::StrafeLeft)
        } else if c == 'd' {
            Command::Act(Intent::StrafeRight)
        } else if c == 'q' {
            Command::Quit
        } else {
            Command::Nothing
        },
        Key::Up => Command::Act(Intent::Forward),
        Key::Down => Command::Act(Intent::Backward),
        Key::Left => Command::Act(Intent::RotateLeft),
        Key::Right => Command::Act(Intent::RotateRight),
        Key::Esc => Command::Quit,
        Key::Other => Command::Nothing,
    }
}

/// The command bound to `key`.
pub fn command_for(key: Key) -> (c: Command)
    ensures
        c == binding(key),
{
    match key {
        Key::Char(c) => {
            if c == 'w' {
                Command::Act(Intent::Forward)
            } else if c == 's' {
                Command::Act(Intent::Backward)
            } else if c == 'a' {
                Command::Act(Intent::StrafeLeft)
            } else if c == 'd' {
                Command::Act(Intent::StrafeRight)
            } else if c == 'q' {
                Command::Quit
            } else {
                Command::Nothing
            }
        },
        Key::Up => Command::Act(Intent::Forward),
        Key::Down => Command::Act(Intent::Backward),
        Key::Left => Command::Act(Intent::RotateLeft),
        Key::Right => Command::Act(Intent::RotateRight),
        Key::Esc => Command::Quit,
        Key::Other => Command::Nothing,
    }
}

/// How long to sleep after a frame that took `elapsed` nanoseconds: what is
/// left of the budget, and nothing after a slow frame.
pub open spec fn rest(elapsed: int) -> int {
    if elapsed < FRAME_BUDGET {
        FRAME_BUDGET - elapsed
    } else {
        0
    }
}

/// How long to sleep after a frame that took `elapsed` nanoseconds.
pub fn pause_after(elapsed: u128) -> (nanos: u64)
    ensures
        nanos == rest(elapsed as int),
        nanos <= FRAME_BUDGET,
{
    if elapsed < FRAME_BUDGET as u128 {
        FRAME_BUDGET - (elapsed as u64)
    } else {
        0
    }
}

/// A running game: the engine, the intents gathered for the coming frame,
/// and the phase of the loop.
pub struct Session {
    engine: Raycaster,
    pending: Vec<Intent>,
    phase: Phase,
}

impl Session {
    /// The engine.
    pub closed spec fn engine_state(&self) -> Raycaster {
        self.engine
    }

    /// The intents gathered since the last frame, oldest first.
    pub closed spec fn gathered(&self) -> Seq<Intent> {
        self.pending@
    }

    /// The phase of the loop.
    pub closed spec fn stage(&self) -> Phase {
        self.phase
    }

    /// A session at its start: a fresh engine, no intents, running.
    pub fn new() -> (s: Session)
        ensures
            s.engine_state().well_formed(),
            s.engine_state().fresh(),
            s.stage() == Phase::Running,
            s.gathered() == Seq::<Intent>::empty(),
    {
        Session { engine: Raycaster::new(), pending: Vec::new(), phase: Phase::Running }
    }

    /// The phase of the loop.
    pub fn phase(&self) -> (p: Phase)
        ensures
            p == self.stage(),
    {
        self.phase
    }

    /// The engine.
    pub fn engine(&self) -> (e: &Raycaster)
        ensures
            *e == self.engine_state(),
    {
        &self.engine
    }

    /// Takes in one key event and returns the phase it leaves the loop in.
    ///
    /// Only presses count, and only while the loop runs.  A quit key ends the
    /// session; a movement or rotation key adds its intent to those of the
    /// coming frame; any other key is dropped.
    pub fn key_event(&mut self, key: Key, kind: KeyKind) -> (p: Phase)
        ensures
            p == final(self).stage(),
            final(self).engine_state() == old(self).engine_state(),
            old(self).stage() == Phase::Terminated || kind != KeyKind::Press ==> final(self).stage() == old(
                self,
            ).stage() && final(self).gathered() == old(self).gathered(),
            old(self).stage() == Phase::Running && kind == KeyKind::Press ==> match binding(key) {
                Command::Quit => final(self).stage() == Phase::Terminated && final(self).gathered() == old(
                    self,
                ).gathered(),
                Command::Act(intent) => final(self).stage() == Phase::Running && final(self).gathered() == old(
                    self,
                ).gathered().push(intent),
                Command::Nothing => final(self).stage() == Phase::Running && final(self).gathered() == old(
                    self,
                ).gathered(),
            },
    {
        match (self.phase, kind) {
            (Phase::Running, KeyKind::Press) => {
                match command_for(key) {
                    Command::Quit => {
                        self.phase = Phase::Terminated;
                    },
                    Command::Act(intent) => {
                        self.pending.push(intent);
                    },
                    Command::Nothing => {},
                }
            },
            _ => {},
        }
        self.phase
    }

    /// Runs one frame: the gathered intents move the player, the view is
    /// drawn for a screen of `width` by `height` cells, and the bytes to
    /// write are returned.  A terminated session draws nothing.
    pub fn frame(&mut self, width: u16, height: u16) -> (out: Option<Vec<u8>>)
        ensures
            final(self).engine_state().well_formed(),
            final(self).stage() == old(self).stage(),
            old(self).stage() == Phase::Terminated ==> out is None && final(self).engine_state() == old(
                self,
            ).engine_state() && final(self).gathered() == old(self).gathered(),
            old(self).stage() == Phase::Running ==> {
                let moved = old(self).engine_state().after_update(old(self).gathered());
                &&& out matches Some(bytes)
                &&& bytes@ == moved.render_output(width, height)
                &&& final(self).engine_state() == moved.after_render(width, height)
                &&& final(self).gathered() == Seq::<Intent>::empty()
            },
    {
        proof {
            use_type_invariant(&self.engine);
        }
        match self.phase {
            Phase::Terminated => None,
            Phase::Running => {
                self.engine.update(&self.pending);
                self.pending.clear();
                Some(self.engine.render(width, height))
            },
        }
    }
}

} // verus!
