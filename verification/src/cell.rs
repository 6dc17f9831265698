//! The systems of the first arena: cells at random places, a player that steps, and
//! particles that fly straight.
//!
//! Here nothing is timed. A player covers a fixed step in each tick in which a key is
//! down, and the velocity of a particle is the way that it covers in one tick.

use crate::components::{Cell, Enemy, Particle, Player};
use crate::events::{Mailbox, ShootEvent};
use crate::game::CELL_SIZE;
use crate::geometry::{
    aim, aimed, clamp, div_toward_zero, divide_toward_zero, find_first_touched, in_reach,
    lemma_overlaps_symmetric, narrow, overlaps, touches_any, Transform, Vec2, UNIT,
};
use crate::input::Keys;
use crate::level::{ENEMY_PERIOD, SCREEN_HEIGHT, SCREEN_WIDTH};
use crate::random::random_sample;
use crate::timer::TimerState;
use vstd::prelude::*;

verus! {

/// The way that the player covers in one tick.
pub const PLAYER_STEP: i64 = 7 * UNIT;

/// The side of a particle.
pub const PARTICLE_SIZE: i64 = 5 * UNIT;

/// The number of samples that chance can give.
pub const SAMPLES: i64 = 0x1_0000_0000;

/// The coordinate that `sample` stands for on an axis of length `size`: the samples are
/// spread evenly over the places at which a cell lies wholly on the axis, which is
/// centred on the origin.
pub open spec fn positioned(sample: u32, size: i64) -> int {
    clamp(
        div_toward_zero(sample * (size - CELL_SIZE), SAMPLES as int) - (div_toward_zero(
            size as int,
            2,
        ) - CELL_SIZE / 2),
    )
}

/// Whether a cell can be put at `place` by chance.
pub open spec fn in_arena(place: Vec2) -> bool {
    exists|across: u32, along: u32|
        place.x == positioned(across, SCREEN_WIDTH) && place.y == positioned(
            along,
            SCREEN_HEIGHT,
        )
}

/// Computes the coordinate that `sample` stands for on an axis of length `size`.
pub fn position_of(sample: u32, size: i64) -> (position: i64)
    ensures
        position == positioned(sample, size),
{
    let span: i128 = (size as i128) - (CELL_SIZE as i128);
    assert(-0x1_0000_0000_0000_0000_0000_0000 <= sample * span <= 0x1_0000_0000_0000_0000_0000_0000)
        by (nonlinear_arith)
        requires
            0 <= sample <= 0xffff_ffff,
            -0x1_0000_0000_0000_0000 <= span <= 0x1_0000_0000_0000_0000,
    ;
    let offset: i128 = divide_toward_zero((sample as i128) * span, SAMPLES as i128);
    assert(-0x1_0000_0000_0000_0000_0000_0000 <= offset <= 0x1_0000_0000_0000_0000_0000_0000)
        by (nonlinear_arith)
        requires
            offset == div_toward_zero(sample * span, SAMPLES as int),
            -0x1_0000_0000_0000_0000_0000_0000 <= sample * span
                <= 0x1_0000_0000_0000_0000_0000_0000,
            SAMPLES == 0x1_0000_0000,
    ;
    let half: i128 = divide_toward_zero(size as i128, 2);
    narrow(offset - (half - (CELL_SIZE / 2) as i128))
}

/// Picks a coordinate by chance on an axis of length `size`.
pub fn get_random_position(size: i64) -> (position: i64)
    ensures
        exists|sample: u32| position == positioned(sample, size),
{
    position_of(random_sample(), size)
}

/// Picks a place for a new cell by chance. Each time the place overlaps one of `cells`,
/// taken in order, another place is picked.
pub fn get_translation(cells: &Vec<Transform>) -> (place: Vec2)
    ensures
        in_arena(place),
{
    let mut width = get_random_position(SCREEN_WIDTH);
    let mut height = get_random_position(SCREEN_HEIGHT);
    let mut index: usize = 0;
    while index < cells.len()
        invariant
            index <= cells.len(),
            in_arena(Vec2 { x: width, y: height }),
        decreases cells.len() - index,
    {
        let candidate = Transform {
            translation: Vec2 { x: width, y: height },
            scale: Vec2 { x: CELL_SIZE, y: CELL_SIZE },
        };
        if candidate.overlaps(&cells[index]) {
            width = get_random_position(SCREEN_WIDTH);
            height = get_random_position(SCREEN_HEIGHT);
        }
        index += 1;
    }
    Vec2 { x: width, y: height }
}

/// Makes a cell at a place picked by chance.
pub fn spawn_cell(cells: &Vec<Transform>) -> (spawned: (Transform, Cell))
    ensures
        in_arena(spawned.0.translation),
        spawned.0.scale == (Vec2 { x: CELL_SIZE, y: CELL_SIZE }),
{
    (
        Transform { translation: get_translation(cells), scale: Vec2 { x: CELL_SIZE, y: CELL_SIZE } },
        Cell,
    )
}

/// Makes the cell of the player at a place picked by chance.
pub fn spawn_player(cells: &Vec<Transform>) -> (spawned: (Transform, Cell, Player))
    ensures
        in_arena(spawned.0.translation),
        spawned.0.scale == (Vec2 { x: CELL_SIZE, y: CELL_SIZE }),
{
    let (transform, cell) = spawn_cell(cells);
    (transform, cell, Player)
}

/// Makes the cell of an enemy at a place picked by chance, with its timer started.
pub fn spawn_enemy(cells: &Vec<Transform>) -> (spawned: (Transform, Cell, Enemy))
    ensures
        in_arena(spawned.0.translation),
        spawned.0.scale == (Vec2 { x: CELL_SIZE, y: CELL_SIZE }),
        spawned.2@ == TimerState::fresh(ENEMY_PERIOD as nat, true),
{
    let (transform, cell) = spawn_cell(cells);
    (transform, cell, Enemy::new(ENEMY_PERIOD))
}

/// Whether any of `particles` overlaps `cell`.
pub open spec fn struck(cell: Transform, particles: Seq<Transform>) -> bool {
    exists|index: int| 0 <= index < particles.len() && overlaps(particles[index], cell)
}

/// Tells which cells leave the arena: those that a particle overlaps.
pub fn despawn_cell(particles: &Vec<Transform>, cells: &Vec<Transform>) -> (despawned: Vec<bool>)
    ensures
        despawned.len() == cells.len(),
        forall|index: int|
            0 <= index < cells.len() ==> #[trigger] despawned[index] == struck(
                cells[index],
                particles@,
            ),
{
    let mut despawned: Vec<bool> = Vec::new();
    let mut index: usize = 0;
    while index < cells.len()
        invariant
            index <= cells.len(),
            despawned.len() == index,
            forall|done: int|
                0 <= done < index ==> #[trigger] despawned[done] == struck(
                    cells[done],
                    particles@,
                ),
        decreases cells.len() - index,
    {
        let hit = find_first_touched(&cells[index], particles);
        proof {
            let cell = cells[index as int];
            if touches_any(cell, particles@) {
                let witness = choose|at: int|
                    0 <= at < particles.len() && overlaps(cell, particles[at]);
                lemma_overlaps_symmetric(cell, particles[witness]);
            }
            if struck(cell, particles@) {
                let witness = choose|at: int|
                    0 <= at < particles.len() && overlaps(particles[at], cell);
                lemma_overlaps_symmetric(particles[witness], cell);
            }
        }
        despawned.push(hit.is_some());
        index += 1;
    }
    despawned
}

/// The place of the player after one tick with `keys` down: one step for each key, left
/// before right and up before down, each stopping at the ends of the range.
pub open spec fn stepped(place: Vec2, keys: Keys) -> Vec2 {
    let left = if keys.left {
        clamp(place.x - PLAYER_STEP)
    } else {
        place.x as int
    };
    let up = if keys.up {
        clamp(place.y + PLAYER_STEP)
    } else {
        place.y as int
    };
    Vec2 {
        x: (if keys.right {
            clamp(left + PLAYER_STEP)
        } else {
            left
        }) as i64,
        y: (if keys.down {
            clamp(up - PLAYER_STEP)
        } else {
            up
        }) as i64,
    }
}

/// Moves every player by one step for each key that is down. Nothing stands in its way.
pub fn move_player(keys: &Keys, players: &mut Vec<Transform>)
    ensures
        final(players).len() == old(players).len(),
        forall|index: int|
            0 <= index < old(players).len() ==> {
                &&& (#[trigger] final(players)[index]).translation == stepped(
                    old(players)[index].translation,
                    *keys,
                )
                &&& final(players)[index].scale == old(players)[index].scale
            },
{
    let count = players.len();
    let mut index: usize = 0;
    while index < count
        invariant
            index <= count,
            players.len() == count,
            count == old(players).len(),
            forall|done: int|
                0 <= done < index ==> {
                    &&& (#[trigger] players[done]).translation == stepped(
                        old(players)[done].translation,
                        *keys,
                    )
                    &&& players[done].scale == old(players)[done].scale
                },
            forall|left: int| index <= left < count ==> #[trigger] players[left] == old(players)[left],
        decreases count - index,
    {
        let transform = &mut players[index];
        if keys.left {
            transform.translation = transform.translation.shift(&Vec2 { x: -PLAYER_STEP, y: 0 });
        }
        if keys.right {
            transform.translation = transform.translation.shift(&Vec2 { x: PLAYER_STEP, y: 0 });
        }
        if keys.up {
            transform.translation = transform.translation.shift(&Vec2 { x: 0, y: PLAYER_STEP });
        }
        if keys.down {
            transform.translation = transform.translation.shift(&Vec2 { x: 0, y: -PLAYER_STEP });
        }
        index += 1;
    }
}

/// The particle that the player at `player` shoots at `event.cursor_position`. The
/// cursor hovers one pixel above the arena, so the way to it is never empty. The particle
/// covers one pixel of that way in each tick and starts one cell along it.
pub open spec fn shot(event: ShootEvent, player: Transform) -> Option<(Transform, Particle)> {
    match (
        aimed(player.translation, event.cursor_position, UNIT as int, CELL_SIZE as int),
        aimed(player.translation, event.cursor_position, UNIT as int, UNIT as int),
    ) {
        (Some(offset), Some(velocity)) => Some(
            (
                Transform {
                    translation: player.translation.shifted(offset),
                    scale: Vec2 { x: PARTICLE_SIZE, y: PARTICLE_SIZE },
                },
                Particle { velocity },
            ),
        ),
        _ => None,
    }
}

/// Takes the waiting shot, if there is one, and makes its particle.
pub fn spawn_particle(reader: &mut Mailbox<ShootEvent>, player: &Transform) -> (spawned: Option<
    (Transform, Particle),
>)
    requires
        old(reader).slot matches Some(event) ==> in_reach(
            player.translation,
            event.cursor_position,
            UNIT as int,
        ),
    ensures
        final(reader).slot is None,
        old(reader).slot is None ==> spawned is None,
        old(reader).slot matches Some(event) ==> spawned == shot(event, *player),
{
    match reader.take() {
        Some(event) => {
            let offset = aim(&player.translation, &event.cursor_position, UNIT as u32, CELL_SIZE);
            let velocity = aim(&player.translation, &event.cursor_position, UNIT as u32, UNIT);
            match (offset, velocity) {
                (Some(offset), Some(velocity)) => Some(
                    (
                        Transform {
                            translation: player.translation.shift(&offset),
                            scale: Vec2 { x: PARTICLE_SIZE, y: PARTICLE_SIZE },
                        },
                        Particle { velocity },
                    ),
                ),
                _ => None,
            }
        },
        None => None,
    }
}

/// Moves every particle by its velocity.
pub fn move_particle(particles: &mut Vec<(Transform, Particle)>)
    ensures
        final(particles).len() == old(particles).len(),
        forall|index: int|
            0 <= index < old(particles).len() ==> {
                &&& (#[trigger] final(particles)[index]).0.translation == old(
                    particles,
                )[index].0.translation.shifted(old(particles)[index].1.velocity)
                &&& final(particles)[index].0.scale == old(particles)[index].0.scale
                &&& final(particles)[index].1 == old(particles)[index].1
            },
{
    let count = particles.len();
    let mut index: usize = 0;
    while index < count
        invariant
            index <= count,
            particles.len() == count,
            count == old(particles).len(),
            forall|done: int|
                0 <= done < index ==> {
                    &&& (#[trigger] particles[done]).0.translation == old(
                        particles,
                    )[done].0.translation.shifted(old(particles)[done].1.velocity)
                    &&& particles[done].0.scale == old(particles)[done].0.scale
                    &&& particles[done].1 == old(particles)[done].1
                },
            forall|left: int|
                index <= left < count ==> #[trigger] particles[left] == old(particles)[left],
        decreases count - index,
    {
        let particle = &mut particles[index];
        particle.0.translation = particle.0.translation.shift(&particle.1.velocity);
        index += 1;
    }
}

/// Sends a shot at the point under the cursor, if the player fired during this tick and
/// the cursor is over the arena.
pub fn shoot_particle(fired: bool, cursor: Option<Vec2>, writer: &mut Mailbox<ShootEvent>)
    ensures
        final(writer).slot == (match cursor {
            Some(cursor_position) if fired => Mailbox::<ShootEvent>::after_send(
                old(writer).slot,
                ShootEvent { cursor_position },
            ),
            _ => old(writer).slot,
        }),
{
    if fired {
        match cursor {
            Some(cursor_position) => {
                writer.send(ShootEvent { cursor_position });
            },
            None => {},
        }
    }
}

} // verus!
