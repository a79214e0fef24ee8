//! The player's timers and positions.
use vstd::prelude::*;
use crate::ecs::component::Component;

verus! {

/// Frames during which a jump request is remembered.
pub const JUMP_BUFFER_TIME: u8 = 8;
/// Frames after leaving the ground during which a jump is still allowed.
pub const COYOTE_BUFFER_TIME: u8 = 4;
/// Frames an attack lasts.
pub const ATTACK_TIME: u16 = 30;

/// The player's state that is counted in frames.
#[derive(Clone, Copy, Default, Debug, PartialEq, Eq, Structural)]
pub struct Player {
    pub in_air: bool,
    pub was_in_air: bool,
    pub attack_timer: u16,
    pub jump_buffer: u8,
    pub coyote_buffer: u8,
}

impl Component for Player {}

/// One frame of a countdown: down by one, stopping at zero.
pub open spec fn count_down(t: int) -> int {
    if t > 0 { t - 1 } else { t }
}

impl Player {
    /// The player after one frame: each timer counts down towards zero.
    pub open spec fn ticked(self) -> Player {
        Player {
            attack_timer: count_down(self.attack_timer as int) as u16,
            jump_buffer: count_down(self.jump_buffer as int) as u8,
            coyote_buffer: count_down(self.coyote_buffer as int) as u8,
            ..self
        }
    }

    /// The player after `n` frames.
    pub open spec fn ticked_n(self, n: nat) -> Player
        decreases n,
    {
        if n == 0 { self } else { self.ticked().ticked_n((n - 1) as nat) }
    }

    /// The player after an attack request: an attack starts unless one is
    /// under way.
    pub open spec fn attacked(self) -> Player {
        if self.attack_timer == 0 {
            Player { attack_timer: ATTACK_TIME, ..self }
        } else {
            self
        }
    }

    /// Advances the timers by one frame.
    pub fn update(&mut self)
        ensures
            *final(self) == old(self).ticked(),
    {
        if self.attack_timer > 0 {
            self.attack_timer = self.attack_timer - 1;
        }
        if self.jump_buffer > 0 {
            self.jump_buffer = self.jump_buffer - 1;
        }
        if self.coyote_buffer > 0 {
            self.coyote_buffer = self.coyote_buffer - 1;
        }
    }

    /// Starts an attack, unless one is under way.
    pub fn attack(&mut self)
        ensures
            *final(self) == old(self).attacked(),
    {
        if self.attack_timer == 0 {
            self.attack_timer = ATTACK_TIME;
        }
    }

    /// Whether an attack is under way.
    pub fn is_attacking(&self) -> (r: bool)
        ensures
            r == (self.attack_timer > 0),
    {
        self.attack_timer > 0
    }
}

/// After `n` frames a timer has counted down by `n`, stopping at zero.
pub proof fn lemma_ticked_n(p: Player, n: nat)
    ensures
        p.ticked_n(n).attack_timer == if p.attack_timer >= n { p.attack_timer - n } else { 0 },
        p.ticked_n(n).jump_buffer == if p.jump_buffer >= n { p.jump_buffer - n } else { 0 },
        p.ticked_n(n).coyote_buffer == if p.coyote_buffer >= n { p.coyote_buffer - n } else { 0 },
        p.ticked_n(n).in_air == p.in_air,
        p.ticked_n(n).was_in_air == p.was_in_air,
    decreases n,
{
    if n > 0 {
        lemma_ticked_n(p.ticked(), (n - 1) as nat);
    }
}

/// An attack started from rest lasts exactly `ATTACK_TIME` frames: the
/// player is attacking after fewer frames, and no longer after that many;
/// a second request while attacking does not prolong it.
pub proof fn lemma_attack_duration(p: Player, n: nat)
    requires
        p.attack_timer == 0,
    ensures
        p.attacked().attack_timer == ATTACK_TIME,
        p.attacked().attacked() == p.attacked(),
        n < ATTACK_TIME ==> p.attacked().ticked_n(n).attack_timer > 0,
        n >= ATTACK_TIME ==> p.attacked().ticked_n(n).attack_timer == 0,
{
    lemma_ticked_n(p.attacked(), n);
}

/// A position in world pixels.
#[derive(Clone, Copy, Default, Debug, PartialEq, Eq, Structural)]
pub struct Position {
    pub x: i32,
    pub y: i32,
}

impl Component for Position {
    const CAPACITY: usize = 64;
}

impl Position {
    /// The position `(x, y)`.
    pub fn new(x: i32, y: i32) -> (r: Position)
        ensures
            r == (Position { x, y }),
    {
        Position { x, y }
    }
}

} // verus!
