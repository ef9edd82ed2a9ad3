//! The components that entities carry.
use vstd::prelude::*;

use crate::consts::{PI_2, PLAYER_START_ANGLE, PLAYER_START_LEVEL};
use crate::utils::{get_level_radius, level_radius, Direction};

verus! {

/// Visual form of an entity: the player's triangle or an arc of a ring.
#[derive(Debug, Clone, Copy, PartialEq, Eq, Structural)]
pub enum Form {
    Triangle,
    Circle,
}

/// What the player last ran into.
#[derive(Debug, Clone, Copy, PartialEq, Eq, Structural)]
pub enum CollisionType {
    Wall,
    Enemy,
}

/// The player's own state.
#[derive(Debug, Clone, Copy, PartialEq, Eq, Structural)]
pub struct Player {
    /// Lives left.
    pub life: u32,
    /// Current angular speed, in micro-radians per tick.
    pub speed: i64,
    /// Milliseconds that the current key has been held.
    pub speed_press_ms: u64,
    /// Angle at which the current key sequence started.
    pub start_angle_repeat: i64,
    /// Collision of the last tick, for the audio side to consume.
    pub collision: Option<CollisionType>,
}

impl Player {
    /// The player after losing one life; unchanged when none is left.
    pub open spec fn life_taken(self) -> Player {
        if self.life == 0 {
            self
        } else {
            Player { life: (self.life - 1) as u32, ..self }
        }
    }

    /// Takes one life. Returns the lives left, or `None` (and changes nothing)
    /// when none was left.
    pub fn take_life(&mut self) -> (r: Option<u32>)
        ensures
            *final(self) == old(self).life_taken(),
            old(self).life == 0 ==> r is None,
            old(self).life > 0 ==> r == Some((old(self).life - 1) as u32),
    {
        let check = self.life.checked_sub(1);
        if let Some(i) = check {
            self.life = i;
        }
        check
    }
}

/// Taking a life never goes below zero: with no life left nothing changes,
/// and three lives are gone after three takes.
pub proof fn lemma_take_life_saturates(p: Player)
    ensures
        p.life == 0 ==> p.life_taken() == p && p.life_taken().life == 0,
        p.life == 3 ==> p.life_taken().life_taken().life_taken().life == 0,
        p.life_taken().life <= p.life,
{
}

/// Marks a hazardous arc, with its colour variant (0 or 1).
#[derive(Debug, Clone, Copy, PartialEq, Eq, Structural)]
pub struct Enemy {
    pub color: u32,
}

/// Makes an entity move by itself every tick.
#[derive(Debug, Clone, Copy, PartialEq, Eq, Structural)]
pub struct ConstantMovement {
    pub direction: Direction,
}

/// How an entity looks: its form and its size (an angular span in
/// micro-radians for an arc, a width for the triangle).
#[derive(Debug, Clone, Copy, PartialEq, Eq, Structural)]
pub struct View {
    pub form: Form,
    pub size: i64,
}

/// Where an entity is: its radius and angle, and the ring it is on
/// (`current_level`) or moving to (`next_level`).
#[derive(Debug, Clone, Copy, PartialEq, Eq, Structural)]
pub struct Position {
    pub radius: i64,
    pub angle: i64,
    pub current_level: i32,
    pub next_level: i32,
}

/// `x` lies between `a` and `b`, inclusive, in whichever order they come.
pub open spec fn between(x: int, a: int, b: int) -> bool {
    (a <= x <= b) || (b <= x <= a)
}

impl Position {
    /// The angle lies in `[0, 2π)`, and the radius between the radii of the
    /// current ring and of the ring being moved to.
    pub open spec fn wf(self) -> bool {
        &&& 0 <= self.angle < PI_2
        &&& between(
            self.radius as int,
            level_radius(self.current_level as int),
            level_radius(self.next_level as int),
        )
    }

    /// Standing on ring `level`, at `angle`.
    pub open spec fn on_level(level: i32, angle: i64) -> Position {
        Position {
            current_level: level,
            next_level: level,
            radius: level_radius(level as int) as i64,
            angle,
        }
    }

    /// An entity standing on ring `level`, at `angle`.
    pub fn new(level: i32, angle: i64) -> (r: Self)
        ensures
            r == Self::on_level(level, angle),
            0 <= angle < PI_2 ==> r.wf(),
    {
        Position {
            current_level: level,
            next_level: level,
            radius: get_level_radius(level),
            angle,
        }
    }

    /// Moving between two rings.
    pub fn is_between_level(&self) -> (r: bool)
        ensures
            r == (self.current_level != self.next_level),
    {
        self.current_level != self.next_level
    }

    /// Turns a ring change around: the ring being left becomes the target.
    pub fn swap_level(&mut self)
        ensures
            *final(self) == (Position {
                current_level: old(self).next_level,
                next_level: old(self).current_level,
                ..*old(self)
            }),
            old(self).wf() ==> final(self).wf(),
    {
        let c = self.current_level;
        self.current_level = self.next_level;
        self.next_level = c;
    }

    /// Puts the entity on ring `level`, keeping its angle.
    pub fn set_level(&mut self, level: i32)
        ensures
            *final(self) == Self::on_level(level, old(self).angle),
            0 <= old(self).angle < PI_2 ==> final(self).wf(),
    {
        self.current_level = level;
        self.next_level = level;
        self.radius = get_level_radius(level);
    }

    /// Puts the entity where the player starts.
    pub fn set_default_player(&mut self)
        ensures
            *final(self) == Self::on_level(PLAYER_START_LEVEL, PLAYER_START_ANGLE),
            final(self).wf(),
    {
        self.angle = PLAYER_START_ANGLE;
        self.set_level(PLAYER_START_LEVEL);
    }
}

} // verus!
