//! The components that an entity of the arena can carry.

use crate::geometry::Vec2;
use crate::timer::{timer_new, timer_state, TimerState};
use bevy::time::Timer;
use vstd::prelude::*;

verus! {

/// Marks a living entity: the player or an enemy.
#[derive(Clone, Copy, Debug, PartialEq, Eq, Structural)]
pub struct Cell;

/// Marks the one cell that the player steers.
#[derive(Clone, Copy, Debug, PartialEq, Eq, Structural)]
pub struct Player;

/// The way a cell faces.
#[derive(Clone, Copy, Debug, PartialEq, Eq, Structural)]
pub enum Direction {
    North,
    South,
    East,
    West,
    /// The cell faces no way in particular.
    Nowhere,
}

/// The health of an entity. The entity leaves the arena once it is zero or less.
#[derive(Clone, Copy, Debug, PartialEq, Eq, Structural)]
pub struct Lifespan(pub i32);

/// Marks an obstacle that never moves.
#[derive(Clone, Copy, Debug, PartialEq, Eq, Structural)]
pub struct Wall;

/// Marks an enemy cell; its repeating timer paces the particles that it ejects.
pub struct Enemy(pub Timer);

/// Marks the camera through which the arena is seen.
#[derive(Clone, Copy, Debug, PartialEq, Eq, Structural)]
pub struct MainCamera;

/// Marks an entity that harms every cell that it touches.
#[derive(Clone, Copy, Debug, PartialEq, Eq, Structural)]
pub struct Hostile;

/// An explosion; it leaves the arena when its one-shot timer finishes.
pub struct Explosion(pub Timer);

/// A virus; it explodes when its one-shot timer finishes.
pub struct Virus(pub Timer);

/// A projectile and the velocity that it flies with, in sub-units per second.
#[derive(Clone, Copy, Debug, PartialEq, Eq, Structural)]
pub struct Particle {
    pub velocity: Vec2,
}

/// The velocity of a steered cell, in sub-units per second.
#[derive(Clone, Copy, Debug, PartialEq, Eq, Structural)]
pub struct Velocity(pub Vec2);

/// What a pickup does to the cell that carries it.
#[derive(Clone, Copy, Debug, PartialEq, Eq, Structural)]
pub enum StatusEffect {
    /// The cell moves faster.
    Speed,
}

impl Lifespan {
    /// The health after `hits` hits: one point less for each, down to the least value
    /// that a lifespan can hold.
    pub open spec fn after_hits(self, hits: int) -> Lifespan {
        if self.0 - hits < i32::MIN {
            Lifespan(i32::MIN)
        } else {
            Lifespan((self.0 - hits) as i32)
        }
    }

    /// Whether the entity is due to leave the arena.
    pub open spec fn spent(self) -> bool {
        self.0 <= 0
    }

    /// Takes one point away, unless none is left to take.
    pub fn hit(&mut self)
        ensures
            *final(self) == old(self).after_hits(1),
            final(self).0 <= old(self).0,
    {
        if self.0 > i32::MIN {
            self.0 = self.0 - 1;
        }
    }

    /// Tells whether the entity is due to leave the arena.
    pub fn is_spent(&self) -> (spent: bool)
        ensures
            spent == self.spent(),
    {
        self.0 <= 0
    }
}

/// Hits add up: two rounds of hits leave the lifespan that all of them leave at once.
pub proof fn lemma_hits_add_up(lifespan: Lifespan, first: nat, second: nat)
    ensures
        lifespan.after_hits(first as int).after_hits(second as int) == lifespan.after_hits(
            (first + second) as int,
        ),
        lifespan.after_hits(first as int).0 <= lifespan.0,
        lifespan.spent() ==> lifespan.after_hits(first as int).spent(),
{
}

impl View for Enemy {
    type V = TimerState;

    open spec fn view(&self) -> TimerState {
        timer_state(self.0)
    }
}

impl View for Explosion {
    type V = TimerState;

    open spec fn view(&self) -> TimerState {
        timer_state(self.0)
    }
}

impl View for Virus {
    type V = TimerState;

    open spec fn view(&self) -> TimerState {
        timer_state(self.0)
    }
}

impl Enemy {
    /// An enemy that ejects a particle every `period` nanoseconds.
    pub fn new(period: u64) -> (enemy: Enemy)
        ensures
            enemy@ == TimerState::fresh(period as nat, true),
    {
        Enemy(timer_new(period, true))
    }
}

impl Explosion {
    /// An explosion that lasts `duration` nanoseconds.
    pub fn new(duration: u64) -> (explosion: Explosion)
        ensures
            explosion@ == TimerState::fresh(duration as nat, false),
    {
        Explosion(timer_new(duration, false))
    }
}

impl Virus {
    /// A virus that explodes after `fuse` nanoseconds.
    pub fn new(fuse: u64) -> (virus: Virus)
        ensures
            virus@ == TimerState::fresh(fuse as nat, false),
    {
        Virus(timer_new(fuse, false))
    }
}

} // verus!
