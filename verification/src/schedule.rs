//! The order of the systems within one tick.
//!
//! Keys are read before anything moves, and everything has moved before collisions are
//! looked for. A system that sends a signal runs before the system that takes it, so that
//! the signal is taken in the same tick. Lifespans are looked at last, so that an entity
//! leaves in the very tick in which its lifespan runs out.

use vstd::prelude::*;

verus! {

/// A system of a round.
#[derive(Clone, Copy, Debug, PartialEq, Eq, Hash, Structural)]
pub enum System {
    InputPlayer,
    InputParticle,
    InputVirus,
    SpawnEnemyParticle,
    DespawnVirus,
    SpawnParticle,
    SpawnVirus,
    SpawnExplosion,
    MovePlayer,
    MoveParticle,
    CollideStatusEffect,
    CollideHostile,
    DespawnExplosion,
    DespawnLifespan,
}

/// The number of systems.
pub const SYSTEM_COUNT: usize = 14;

impl System {
    /// Whether the system reads what the player does.
    pub open spec fn reads_input(self) -> bool {
        self == System::InputPlayer || self == System::InputParticle || self == System::InputVirus
    }

    /// Whether the system moves entities.
    pub open spec fn moves(self) -> bool {
        self == System::MovePlayer || self == System::MoveParticle
    }

    /// Whether the system looks for entities that overlap.
    pub open spec fn collides(self) -> bool {
        self == System::CollideStatusEffect || self == System::CollideHostile
    }

    /// Whether the system takes points of lifespan away.
    pub open spec fn wears(self) -> bool {
        self == System::MoveParticle || self == System::CollideHostile
    }

    /// Whether `self` sends a signal that `taker` takes, or makes what `taker` looks at.
    pub open spec fn feeds(self, taker: System) -> bool {
        ||| self == System::InputParticle && taker == System::SpawnParticle
        ||| self == System::SpawnEnemyParticle && taker == System::SpawnParticle
        ||| self == System::InputVirus && taker == System::SpawnVirus
        ||| self == System::DespawnVirus && taker == System::SpawnExplosion
        ||| self == System::SpawnExplosion && taker == System::CollideHostile
    }

    /// Whether `self` has to run before `later` within a tick.
    pub open spec fn must_precede(self, later: System) -> bool {
        ||| self.reads_input() && (later.moves() || later.collides())
        ||| self.moves() && later.collides()
        ||| self.feeds(later)
        ||| self.wears() && later == System::DespawnLifespan
    }

    /// The place of the system in a tick, counted from zero.
    pub open spec fn rank(self) -> nat {
        match self {
            System::InputPlayer => 0,
            System::InputParticle => 1,
            System::InputVirus => 2,
            System::SpawnEnemyParticle => 3,
            System::DespawnVirus => 4,
            System::SpawnParticle => 5,
            System::SpawnVirus => 6,
            System::SpawnExplosion => 7,
            System::MovePlayer => 8,
            System::MoveParticle => 9,
            System::CollideStatusEffect => 10,
            System::CollideHostile => 11,
            System::DespawnExplosion => 12,
            System::DespawnLifespan => 13,
        }
    }

    /// The name of the system.
    pub fn name(&self) -> (name: &'static str)
        ensures
            name@ == self.named(),
    {
        match self {
            System::InputPlayer => "input_player",
            System::InputParticle => "input_particle",
            System::InputVirus => "input_virus",
            System::SpawnEnemyParticle => "spawn_enemy_particle",
            System::DespawnVirus => "despawn_virus",
            System::SpawnParticle => "spawn_particle",
            System::SpawnVirus => "spawn_virus",
            System::SpawnExplosion => "spawn_explosion",
            System::MovePlayer => "move_player",
            System::MoveParticle => "move_particle",
            System::CollideStatusEffect => "collide_status_effect",
            System::CollideHostile => "collide_hostile",
            System::DespawnExplosion => "despawn_explosion",
            System::DespawnLifespan => "despawn_lifespan",
        }
    }

    /// The name of the system, as a sequence of characters.
    pub open spec fn named(self) -> Seq<char> {
        match self {
            System::InputPlayer => "input_player"@,
            System::InputParticle => "input_particle"@,
            System::InputVirus => "input_virus"@,
            System::SpawnEnemyParticle => "spawn_enemy_particle"@,
            System::DespawnVirus => "despawn_virus"@,
            System::SpawnParticle => "spawn_particle"@,
            System::SpawnVirus => "spawn_virus"@,
            System::SpawnExplosion => "spawn_explosion"@,
            System::MovePlayer => "move_player"@,
            System::MoveParticle => "move_particle"@,
            System::CollideStatusEffect => "collide_status_effect"@,
            System::CollideHostile => "collide_hostile"@,
            System::DespawnExplosion => "despawn_explosion"@,
            System::DespawnLifespan => "despawn_lifespan"@,
        }
    }
}

/// A system that has to run before another has the lower rank.
pub proof fn lemma_rank_keeps_the_order(first: System, later: System)
    requires
        first.must_precede(later),
    ensures
        first.rank() < later.rank(),
{
}

/// No two systems share a rank, and every rank below the number of systems is taken.
pub proof fn lemma_rank_is_one_to_one(first: System, other: System)
    ensures
        first.rank() < SYSTEM_COUNT,
        first.rank() == other.rank() ==> first == other,
{
}

/// The systems of a tick, in the order in which they run: every system once, and each
/// after all the systems that have to run before it.
pub fn schedule() -> (order: Vec<System>)
    ensures
        order.len() == SYSTEM_COUNT,
        forall|place: int| 0 <= place < order.len() ==> (#[trigger] order[place]).rank() == place,
        forall|first: int, later: int|
            0 <= first < order.len() && 0 <= later < order.len() && (#[trigger] order[first])
                .must_precede(#[trigger] order[later]) ==> first < later,
{
    let mut order: Vec<System> = Vec::new();
    order.push(System::InputPlayer);
    order.push(System::InputParticle);
    order.push(System::InputVirus);
    order.push(System::SpawnEnemyParticle);
    order.push(System::DespawnVirus);
    order.push(System::SpawnParticle);
    order.push(System::SpawnVirus);
    order.push(System::SpawnExplosion);
    order.push(System::MovePlayer);
    order.push(System::MoveParticle);
    order.push(System::CollideStatusEffect);
    order.push(System::CollideHostile);
    order.push(System::DespawnExplosion);
    order.push(System::DespawnLifespan);
    proof {
        assert forall|first: int, later: int|
            0 <= first < order.len() && 0 <= later < order.len() && (#[trigger] order[first])
                .must_precede(#[trigger] order[later]) implies first < later by {
            lemma_rank_keeps_the_order(order[first], order[later]);
        }
    }
    order
}

} // verus!
