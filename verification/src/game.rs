//! The systems of a round: one function for each step of a tick.
//!
//! A system takes the components that it reads and changes, one entry for each entity it
//! looks at, in a fixed order. Where entities leave the arena, the system returns a mask
//! with one flag for each entry; where one appears, it returns the new entity's
//! components. Signals travel through mailboxes.

use crate::cell::{get_random_position, in_arena};
use crate::components::{
    Enemy, Explosion, Hostile, Lifespan, Particle, Player, StatusEffect, Velocity, Virus,
};
use crate::events::{DropVirusEvent, EjectEvent, ExplodeEvent, Mailbox, MenuEvent};
use crate::geometry::{
    aim, aimed, clamp, find_first_touched, first_touched, in_reach, narrow, overlaps,
    touches_any, Transform, Vec2, UNIT,
};
use crate::input::Keys;
use crate::level::{Level, SCREEN_HEIGHT, SCREEN_WIDTH};
use crate::mask::{find_first_set, first_set, kept, lemma_kept_are_unset};
use crate::state::AppState;
use crate::timer::{timer_finished, timer_just_finished, timer_tick, TimerState};
use vstd::prelude::*;

verus! {

/// The side of a cell.
pub const CELL_SIZE: i64 = 20 * UNIT;

/// The side of a virus: half a cell.
pub const VIRUS_SIZE: i64 = 10 * UNIT;

/// The time between the drop of a virus and its explosion, in nanoseconds.
pub const VIRUS_FUSE: u64 = 2_000_000_000;

/// The side of the picture of an explosion.
pub const EXPLOSION_RADIUS: i64 = 10 * UNIT;

/// How many times larger than its picture the footprint of an explosion is.
pub const EXPLOSION_REACH: i64 = 10;

/// The time that an explosion lasts, in nanoseconds.
pub const EXPLOSION_TIME: u64 = 1_000_000_000;

/// The side of a particle: a twentieth of a pixel.
pub const PARTICLE_SIZE: i64 = 105;

/// The speed of a particle, in sub-units per second.
pub const PARTICLE_SPEED: i64 = 100 * UNIT;

/// The lifespan that a particle starts with.
pub const PARTICLE_LIFESPAN: i32 = 2;

/// The speed of the player, in sub-units per second.
pub const DEFAULT_SPEED: i64 = 60 * UNIT;

/// The speed of a player that carries the speed effect, in sub-units per second.
pub const BOOSTED_SPEED: i64 = 150 * UNIT;

/// The message that the menu shows.
pub struct GameMessage(pub String);

impl GameMessage {
    /// The message before any round has ended.
    pub fn paused() -> (message: GameMessage)
        ensures
            message.0@ == "Paused"@,
    {
        GameMessage("Paused".to_owned())
    }
}

/// Tells whether two footprints overlap.
pub fn has_collided(a: &Transform, b: &Transform) -> (hit: bool)
    ensures
        hit == overlaps(*a, *b),
{
    a.overlaps(b)
}

/// Where the player stands after a tick of `nanos` nanoseconds: at the place that its
/// velocity leads to, unless its footprint there overlaps a wall; then where it stood.
pub open spec fn player_moved(
    transform: Transform,
    velocity: Vec2,
    nanos: int,
    walls: Seq<Transform>,
) -> Transform {
    let candidate = transform.moved(velocity, nanos);
    if touches_any(candidate, walls) {
        transform
    } else {
        candidate
    }
}

/// Moves the player along its velocity for `delta` nanoseconds. A move that would make
/// the player overlap any wall is not made at all.
pub fn move_player(
    delta: u64,
    walls: &Vec<Transform>,
    transform: &mut Transform,
    velocity: &Velocity,
)
    ensures
        *final(transform) == player_moved(*old(transform), velocity.0, delta as int, walls@),
        touches_any(old(transform).moved(velocity.0, delta as int), walls@) ==> *final(transform)
            == *old(transform),
{
    let candidate = Transform {
        translation: transform.translation.advance(&velocity.0, delta),
        scale: transform.scale,
    };
    if find_first_touched(&candidate, walls).is_none() {
        transform.translation = candidate.translation;
    }
}

/// The opposite of a speed. The least speed has no opposite in range; it turns into the
/// greatest.
pub open spec fn reversed(speed: i64) -> i64 {
    if speed == i64::MIN {
        i64::MAX
    } else {
        (-speed) as i64
    }
}

/// Whether the centre of `transform` lies left or right of the footprint of `wall`.
pub open spec fn beside(transform: Transform, wall: Transform) -> bool {
    ||| 2 * transform.translation.x < 2 * wall.translation.x - wall.scale.x
    ||| 2 * transform.translation.x > 2 * wall.translation.x + wall.scale.x
}

/// The velocity of a particle at `transform` after it bounced off `wall`: the horizontal
/// part is reversed if the particle is beside the wall, else the vertical part.
pub open spec fn bounced(velocity: Vec2, transform: Transform, wall: Transform) -> Vec2 {
    if beside(transform, wall) {
        Vec2 { x: reversed(velocity.x), y: velocity.y }
    } else {
        Vec2 { x: velocity.x, y: reversed(velocity.y) }
    }
}

/// A particle after a tick of `nanos` nanoseconds. If the place that its velocity leads
/// to overlaps a wall, the particle bounces off the first such wall, loses one point of
/// its lifespan, and makes its step with the new velocity. Otherwise it makes its step.
pub open spec fn particle_moved(
    particle: (Transform, Lifespan, Velocity),
    nanos: int,
    walls: Seq<Transform>,
) -> (Transform, Lifespan, Velocity) {
    let (transform, lifespan, velocity) = particle;
    match first_touched(transform.moved(velocity.0, nanos), walls) {
        Some(index) => {
            let velocity = bounced(velocity.0, transform, walls[index]);
            (transform.moved(velocity, nanos), lifespan.after_hits(1), Velocity(velocity))
        },
        None => (transform.moved(velocity.0, nanos), lifespan, velocity),
    }
}

/// Reverses a speed.
fn reverse(speed: i64) -> (opposite: i64)
    ensures
        opposite == reversed(speed),
{
    if speed == i64::MIN {
        i64::MAX
    } else {
        -speed
    }
}

/// Moves every particle for `delta` nanoseconds and lets it bounce off the walls.
pub fn move_particle(
    delta: u64,
    walls: &Vec<Transform>,
    particles: &mut Vec<(Transform, Lifespan, Velocity)>,
)
    ensures
        final(particles).len() == old(particles).len(),
        forall|index: int|
            0 <= index < old(particles).len() ==> #[trigger] final(particles)[index]
                == particle_moved(old(particles)[index], delta as int, walls@),
{
    let count = particles.len();
    let mut index: usize = 0;
    while index < count
        invariant
            index <= count,
            particles.len() == count,
            count == old(particles).len(),
            forall|done: int|
                0 <= done < index ==> #[trigger] particles[done] == particle_moved(
                    old(particles)[done],
                    delta as int,
                    walls@,
                ),
            forall|left: int| index <= left < count ==> #[trigger] particles[left] == old(
                particles,
            )[left],
        decreases count - index,
    {
        let particle = &mut particles[index];
        let candidate = Transform {
            translation: particle.0.translation.advance(&particle.2.0, delta),
            scale: particle.0.scale,
        };
        match find_first_touched(&candidate, walls) {
            Some(hit) => {
                let wall = &walls[hit];
                let centre: i128 = 2 * (particle.0.translation.x as i128);
                let middle: i128 = 2 * (wall.translation.x as i128);
                if centre < middle - (wall.scale.x as i128) || centre > middle + (
                wall.scale.x as i128) {
                    particle.2.0.x = reverse(particle.2.0.x);
                } else {
                    particle.2.0.y = reverse(particle.2.0.y);
                }
                particle.1.hit();
            },
            None => {},
        }
        particle.0.translation = particle.0.translation.advance(&particle.2.0, delta);
        index += 1;
    }
}

/// A bounce reverses one part of the velocity and leaves the speed as it was. The least
/// speed, which has no opposite in range, is left out.
pub proof fn lemma_bounce_keeps_speed(velocity: Vec2, transform: Transform, wall: Transform)
    requires
        velocity.x > i64::MIN,
        velocity.y > i64::MIN,
    ensures
        bounced(velocity, transform, wall).length_squared() == velocity.length_squared(),
        bounced(velocity, transform, wall) == (Vec2 { x: (-velocity.x) as i64, y: velocity.y })
            || bounced(velocity, transform, wall) == (Vec2 {
            x: velocity.x,
            y: (-velocity.y) as i64,
        }),
{
    let x = velocity.x as int;
    let y = velocity.y as int;
    assert((-x) * (-x) == x * x) by (nonlinear_arith);
    assert((-y) * (-y) == y * y) by (nonlinear_arith);
}

/// Whatever walls a particle meets during a tick, it is as fast after the tick as it was
/// before. The least speed, which has no opposite in range, is left out.
pub proof fn lemma_particle_keeps_speed(
    particle: (Transform, Lifespan, Velocity),
    nanos: int,
    walls: Seq<Transform>,
)
    requires
        particle.2.0.x > i64::MIN,
        particle.2.0.y > i64::MIN,
    ensures
        particle_moved(particle, nanos, walls).2.0.length_squared()
            == particle.2.0.length_squared(),
{
    match first_touched(particle.0.moved(particle.2.0, nanos), walls) {
        Some(index) => {
            lemma_bounce_keeps_speed(particle.2.0, particle.0, walls[index]);
        },
        None => {},
    }
}

/// How many of `hostiles` overlap `cell`.
pub open spec fn hits(cell: Transform, hostiles: Seq<Transform>) -> nat
    decreases hostiles.len(),
{
    if hostiles.len() == 0 {
        0
    } else {
        hits(cell, hostiles.drop_last()) + if overlaps(hostiles.last(), cell) {
            1nat
        } else {
            0nat
        }
    }
}

/// A cell is hit as often as hostiles overlap it: not at all exactly when none does.
pub proof fn lemma_hits_count_contacts(cell: Transform, hostiles: Seq<Transform>)
    ensures
        hits(cell, hostiles) <= hostiles.len(),
        hits(cell, hostiles) > 0 <==> exists|index: int|
            0 <= index < hostiles.len() && overlaps(hostiles[index], cell),
    decreases hostiles.len(),
{
    if hostiles.len() > 0 {
        let before = hostiles.drop_last();
        lemma_hits_count_contacts(cell, before);
        if hits(cell, before) > 0 {
            let index = choose|index: int| 0 <= index < before.len() && overlaps(before[index], cell);
            assert(overlaps(hostiles[index], cell));
        } else if overlaps(hostiles.last(), cell) {
            assert(overlaps(hostiles[hostiles.len() - 1], cell));
        } else if exists|index: int| 0 <= index < hostiles.len() && overlaps(hostiles[index], cell) {
            let index = choose|index: int|
                0 <= index < hostiles.len() && overlaps(hostiles[index], cell);
            assert(overlaps(before[index], cell));
        }
    }
}

/// The lifespan of a cell never grows under hostiles. It stays as it is exactly when no
/// hostile overlaps the cell, unless it is at its least value already; and a cell that is
/// spent stays spent.
pub proof fn lemma_lifespan_falls_on_contact_only(
    cell: Transform,
    lifespan: Lifespan,
    hostiles: Seq<Transform>,
)
    ensures
        lifespan.after_hits(hits(cell, hostiles) as int).0 <= lifespan.0,
        lifespan.0 > i32::MIN ==> (lifespan.after_hits(hits(cell, hostiles) as int).0
            < lifespan.0 <==> exists|index: int|
            0 <= index < hostiles.len() && overlaps(hostiles[index], cell)),
        lifespan.spent() ==> lifespan.after_hits(hits(cell, hostiles) as int).spent(),
{
    lemma_hits_count_contacts(cell, hostiles);
}

/// Takes one point of lifespan from a cell for each hostile that overlaps it. Nothing
/// shields a cell that was hit a tick ago: it is hit again while the overlap lasts.
pub fn collide_hostile(hostiles: &Vec<Transform>, cells: &mut Vec<(Transform, Lifespan)>)
    ensures
        final(cells).len() == old(cells).len(),
        forall|index: int|
            0 <= index < old(cells).len() ==> {
                &&& (#[trigger] final(cells)[index]).0 == old(cells)[index].0
                &&& final(cells)[index].1 == old(cells)[index].1.after_hits(
                    hits(old(cells)[index].0, hostiles@) as int,
                )
                &&& final(cells)[index].1.0 <= old(cells)[index].1.0
            },
{
    let count = cells.len();
    let mut index: usize = 0;
    while index < count
        invariant
            index <= count,
            cells.len() == count,
            count == old(cells).len(),
            forall|done: int|
                0 <= done < index ==> {
                    &&& (#[trigger] cells[done]).0 == old(cells)[done].0
                    &&& cells[done].1 == old(cells)[done].1.after_hits(
                        hits(old(cells)[done].0, hostiles@) as int,
                    )
                    &&& cells[done].1.0 <= old(cells)[done].1.0
                },
            forall|left: int| index <= left < count ==> #[trigger] cells[left] == old(cells)[left],
        decreases count - index,
    {
        let cell = &mut cells[index];
        let ghost before = *cell;
        let mut seen: usize = 0;
        while seen < hostiles.len()
            invariant
                seen <= hostiles.len(),
                cell.0 == before.0,
                cell.1 == before.1.after_hits(hits(before.0, hostiles@.take(seen as int)) as int),
            decreases hostiles.len() - seen,
        {
            proof {
                assert(hostiles@.take(seen + 1).drop_last() == hostiles@.take(seen as int));
            }
            if has_collided(&hostiles[seen], &cell.0) {
                cell.1.hit();
            }
            seen += 1;
        }
        proof {
            assert(hostiles@.take(seen as int) == hostiles@);
        }
        index += 1;
    }
}

/// What a round has come to.
pub struct Verdict {
    /// The level counter.
    pub level: usize,
    /// The screen to show.
    pub state: AppState,
    /// The message that waits for the menu, if one does.
    pub message: Option<Seq<char>>,
}

/// The verdict that a level counter, a screen and a mailbox hold together.
pub open spec fn verdict_of(level: Level, state: AppState, writer: Mailbox<MenuEvent>) -> Verdict {
    Verdict {
        level: level.0,
        state,
        message: match writer.slot {
            Some(event) => Some(event@),
            None => None,
        },
    }
}

/// The verdict once `message` was sent and the menu called for.
pub open spec fn closed(verdict: Verdict, level: usize, message: Seq<char>) -> Verdict {
    Verdict {
        level,
        state: AppState::Menu,
        message: Mailbox::<Seq<char>>::after_send(verdict.message, message),
    }
}

/// The verdict after one entity was looked at. An entity with lifespan left changes
/// nothing. A spent player ends the game. A spent enemy wins the game if the counter is
/// at zero, and else lowers the counter for the next level.
pub open spec fn judged(verdict: Verdict, entity: (Lifespan, Option<Player>, Option<Enemy>))
    -> Verdict {
    if !entity.0.spent() {
        verdict
    } else if entity.1 is Some {
        closed(verdict, verdict.level, "Game Over"@)
    } else if entity.2 is Some {
        if verdict.level == 0 {
            closed(verdict, verdict.level, "Victory"@)
        } else {
            closed(verdict, (verdict.level - 1) as usize, "Next Level"@)
        }
    } else {
        verdict
    }
}

/// For each entity, whether its lifespan is spent.
pub open spec fn spent_mask(query: Seq<(Lifespan, Option<Player>, Option<Enemy>)>) -> Seq<bool> {
    Seq::new(query.len(), |index: int| query[index].0.spent())
}

/// The verdict after every entity of `query` was looked at, in order.
pub open spec fn judged_all(
    verdict: Verdict,
    query: Seq<(Lifespan, Option<Player>, Option<Enemy>)>,
) -> Verdict
    decreases query.len(),
{
    if query.len() == 0 {
        verdict
    } else {
        judged(judged_all(verdict, query.drop_last()), query.last())
    }
}

/// Looks at every entity with a lifespan and tells which of them leave the arena: those
/// whose lifespan is zero or less. A spent player or enemy also calls for the menu and
/// sends it a message. Where several do so in one tick, the menu sees the first message.
pub fn despawn_lifespan(
    state: &mut AppState,
    level: &mut Level,
    query: &Vec<(Lifespan, Option<Player>, Option<Enemy>)>,
    writer: &mut Mailbox<MenuEvent>,
) -> (despawned: Vec<bool>)
    ensures
        despawned@ == spent_mask(query@),
        verdict_of(*final(level), *final(state), *final(writer)) == judged_all(
            verdict_of(*old(level), *old(state), *old(writer)),
            query@,
        ),
{
    let ghost start = verdict_of(*level, *state, *writer);
    let mut despawned: Vec<bool> = Vec::new();
    let mut index: usize = 0;
    proof {
        assert(query@.take(0) == Seq::<(Lifespan, Option<Player>, Option<Enemy>)>::empty());
    }
    while index < query.len()
        invariant
            index <= query.len(),
            despawned.len() == index,
            forall|done: int|
                0 <= done < index ==> #[trigger] despawned[done] == query[done].0.spent(),
            verdict_of(*level, *state, *writer) == judged_all(start, query@.take(index as int)),
        decreases query.len() - index,
    {
        proof {
            assert(query@.take(index + 1).drop_last() == query@.take(index as int));
        }
        let entity = &query[index];
        let spent = entity.0.is_spent();
        if spent {
            if entity.1.is_some() {
                writer.send(MenuEvent("Game Over".to_owned()));
                *state = AppState::Menu;
            } else if entity.2.is_some() {
                if level.0 == 0 {
                    writer.send(MenuEvent("Victory".to_owned()));
                } else {
                    level.0 = level.0 - 1;
                    writer.send(MenuEvent("Next Level".to_owned()));
                }
                *state = AppState::Menu;
            }
        }
        despawned.push(spent);
        index += 1;
    }
    proof {
        assert(query@.take(index as int) == query@);
        assert(despawned@ == spent_mask(query@));
    }
    despawned
}

/// Where none of the entities is spent, the verdict stays as it is.
pub proof fn lemma_unspent_change_nothing(
    verdict: Verdict,
    query: Seq<(Lifespan, Option<Player>, Option<Enemy>)>,
)
    requires
        forall|index: int| 0 <= index < query.len() ==> !(#[trigger] query[index]).0.spent(),
    ensures
        judged_all(verdict, query) == verdict,
    decreases query.len(),
{
    if query.len() > 0 {
        let before = query.drop_last();
        assert forall|index: int| 0 <= index < before.len() implies !(#[trigger] before[index]).0.spent() by {
            assert(before[index] == query[index]);
        }
        lemma_unspent_change_nothing(verdict, before);
        assert(!query[query.len() - 1].0.spent());
    }
}

/// An entity leaves once. When the entities that one look has flagged are gone, none of
/// those that stay is spent: the next look flags none of them and leaves the verdict as
/// it is.
pub proof fn lemma_despawned_once(
    verdict: Verdict,
    query: Seq<(Lifespan, Option<Player>, Option<Enemy>)>,
)
    ensures
        forall|index: int|
            0 <= index < kept(query, spent_mask(query)).len() ==> !(#[trigger] kept(
                query,
                spent_mask(query),
            )[index]).0.spent(),
        forall|index: int|
            0 <= index < kept(query, spent_mask(query)).len() ==> !(#[trigger] spent_mask(
                kept(query, spent_mask(query)),
            )[index]),
        judged_all(verdict, kept(query, spent_mask(query))) == verdict,
{
    let mask = spent_mask(query);
    let stay = kept(query, mask);
    lemma_kept_are_unset(query, mask, 0);
    assert forall|index: int| 0 <= index < stay.len() implies !(#[trigger] stay[index]).0.spent() by {
        let origin = choose|origin: int|
            0 <= origin < query.len() && !mask[origin] && query[origin] == stay[index];
        assert(!mask[origin]);
    }
    lemma_unspent_change_nothing(verdict, stay);
}

/// For each virus, whether its timer has finished.
pub open spec fn finished_viruses(viruses: Seq<(Virus, Transform)>) -> Seq<bool> {
    Seq::new(viruses.len(), |index: int| viruses[index].0@.finished)
}

/// What the mailbox of explosions holds after the viruses were ticked: the signal that
/// waited already, or else the place of the first virus that has finished.
pub open spec fn explosion_sent(slot: Option<ExplodeEvent>, viruses: Seq<(Virus, Transform)>)
    -> Option<ExplodeEvent> {
    match slot {
        Some(event) => Some(event),
        None => match first_set(finished_viruses(viruses)) {
            Some(index) => Some(ExplodeEvent { translation: viruses[index].1.translation }),
            None => None,
        },
    }
}

/// Ticks the timer of every virus by `delta` nanoseconds and tells which viruses leave
/// the arena: those whose timer has finished. Such a virus explodes where it lies.
pub fn despawn_virus(
    delta: u64,
    viruses: &mut Vec<(Virus, Transform)>,
    writer: &mut Mailbox<ExplodeEvent>,
) -> (despawned: Vec<bool>)
    requires
        forall|index: int|
            0 <= index < old(viruses).len() ==> (#[trigger] old(viruses)[index]).0@.can_tick(
                delta as nat,
            ),
    ensures
        final(viruses).len() == old(viruses).len(),
        forall|index: int|
            0 <= index < old(viruses).len() ==> {
                &&& (#[trigger] final(viruses)[index]).0@ == old(viruses)[index].0@.ticked(
                    delta as nat,
                )
                &&& final(viruses)[index].1 == old(viruses)[index].1
            },
        despawned@ == finished_viruses(final(viruses)@),
        final(writer).slot == explosion_sent(old(writer).slot, final(viruses)@),
{
    let count = viruses.len();
    let mut despawned: Vec<bool> = Vec::new();
    let mut index: usize = 0;
    while index < count
        invariant
            index <= count,
            viruses.len() == count,
            count == old(viruses).len(),
            despawned.len() == index,
            forall|any: int|
                0 <= any < count ==> (#[trigger] old(viruses)[any]).0@.can_tick(delta as nat),
            forall|done: int|
                0 <= done < index ==> {
                    &&& (#[trigger] viruses[done]).0@ == old(viruses)[done].0@.ticked(delta as nat)
                    &&& viruses[done].1 == old(viruses)[done].1
                    &&& despawned[done] == viruses[done].0@.finished
                },
            forall|left: int|
                index <= left < count ==> #[trigger] viruses[left] == old(viruses)[left],
        decreases count - index,
    {
        assert(viruses[index as int] == old(viruses)[index as int]);
        let virus = &mut viruses[index];
        timer_tick(&mut virus.0.0, delta);
        despawned.push(timer_finished(&virus.0.0));
        index += 1;
    }
    assert(despawned@ == finished_viruses(viruses@));
    match find_first_set(&despawned) {
        Some(first) => {
            writer.send(ExplodeEvent { translation: viruses[first].1.translation });
        },
        None => {},
    }
    despawned
}

/// For each explosion, whether its timer has finished.
pub open spec fn finished_explosions(explosions: Seq<Explosion>) -> Seq<bool> {
    Seq::new(explosions.len(), |index: int| explosions[index]@.finished)
}

/// Ticks the timer of every explosion by `delta` nanoseconds and tells which explosions
/// leave the arena: those whose timer has finished.
pub fn despawn_explosion(delta: u64, explosions: &mut Vec<Explosion>) -> (despawned: Vec<bool>)
    requires
        forall|index: int|
            0 <= index < old(explosions).len() ==> (#[trigger] old(explosions)[index])@.can_tick(
                delta as nat,
            ),
    ensures
        final(explosions).len() == old(explosions).len(),
        forall|index: int|
            0 <= index < old(explosions).len() ==> (#[trigger] final(explosions)[index])@ == old(
                explosions,
            )[index]@.ticked(delta as nat),
        despawned@ == finished_explosions(final(explosions)@),
{
    let count = explosions.len();
    let mut despawned: Vec<bool> = Vec::new();
    let mut index: usize = 0;
    while index < count
        invariant
            index <= count,
            explosions.len() == count,
            count == old(explosions).len(),
            despawned.len() == index,
            forall|any: int|
                0 <= any < count ==> (#[trigger] old(explosions)[any])@.can_tick(delta as nat),
            forall|done: int|
                0 <= done < index ==> {
                    &&& (#[trigger] explosions[done])@ == old(explosions)[done]@.ticked(
                        delta as nat,
                    )
                    &&& despawned[done] == explosions[done]@.finished
                },
            forall|left: int|
                index <= left < count ==> #[trigger] explosions[left] == old(explosions)[left],
        decreases count - index,
    {
        assert(explosions[index as int] == old(explosions)[index as int]);
        let explosion = &mut explosions[index];
        timer_tick(&mut explosion.0, delta);
        despawned.push(timer_finished(&explosion.0));
        index += 1;
    }
    assert(despawned@ == finished_explosions(explosions@));
    despawned
}

/// For each enemy, whether its timer finished during the last tick.
pub open spec fn firing_enemies(enemies: Seq<(Transform, Enemy)>) -> Seq<bool> {
    Seq::new(enemies.len(), |index: int| enemies[index].1@.just_finished())
}

/// What the mailbox of ejections holds after the enemies were ticked: the signal that
/// waited already, or else one from the first enemy whose timer just finished, aimed at
/// the player.
pub open spec fn ejection_sent(
    slot: Option<EjectEvent>,
    player: Transform,
    enemies: Seq<(Transform, Enemy)>,
) -> Option<EjectEvent> {
    match slot {
        Some(event) => Some(event),
        None => match first_set(firing_enemies(enemies)) {
            Some(index) => Some(
                EjectEvent {
                    translation: enemies[index].0.translation,
                    target_position: player.translation,
                },
            ),
            None => None,
        },
    }
}

/// Ticks the timer of every enemy by `delta` nanoseconds. An enemy whose timer finishes
/// during the tick ejects a particle toward the player.
pub fn spawn_enemy_particle(
    delta: u64,
    player: &Transform,
    enemies: &mut Vec<(Transform, Enemy)>,
    writer: &mut Mailbox<EjectEvent>,
)
    requires
        forall|index: int|
            0 <= index < old(enemies).len() ==> (#[trigger] old(enemies)[index]).1@.can_tick(
                delta as nat,
            ),
    ensures
        final(enemies).len() == old(enemies).len(),
        forall|index: int|
            0 <= index < old(enemies).len() ==> {
                &&& (#[trigger] final(enemies)[index]).1@ == old(enemies)[index].1@.ticked(
                    delta as nat,
                )
                &&& final(enemies)[index].0 == old(enemies)[index].0
            },
        final(writer).slot == ejection_sent(old(writer).slot, *player, final(enemies)@),
{
    let count = enemies.len();
    let mut firing: Vec<bool> = Vec::new();
    let mut index: usize = 0;
    while index < count
        invariant
            index <= count,
            enemies.len() == count,
            count == old(enemies).len(),
            firing.len() == index,
            forall|any: int|
                0 <= any < count ==> (#[trigger] old(enemies)[any]).1@.can_tick(delta as nat),
            forall|done: int|
                0 <= done < index ==> {
                    &&& (#[trigger] enemies[done]).1@ == old(enemies)[done].1@.ticked(delta as nat)
                    &&& enemies[done].0 == old(enemies)[done].0
                    &&& firing[done] == enemies[done].1@.just_finished()
                },
            forall|left: int|
                index <= left < count ==> #[trigger] enemies[left] == old(enemies)[left],
        decreases count - index,
    {
        assert(enemies[index as int] == old(enemies)[index as int]);
        let enemy = &mut enemies[index];
        timer_tick(&mut enemy.1.0, delta);
        firing.push(timer_just_finished(&enemy.1.0));
        index += 1;
    }
    assert(firing@ == firing_enemies(enemies@));
    match find_first_set(&firing) {
        Some(first) => {
            writer.send(
                EjectEvent {
                    translation: enemies[first].0.translation,
                    target_position: player.translation,
                },
            );
        },
        None => {},
    }
}

/// The footprint of a square picture with side `size` at `translation`.
pub fn get_sprite(size: i64, translation: Vec2) -> (transform: Transform)
    ensures
        transform == (Transform { translation, scale: Vec2 { x: size, y: size } }),
{
    Transform { translation, scale: Vec2 { x: size, y: size } }
}

/// The side of the footprint of a large picture with side `size`.
pub open spec fn enlarged(size: i64) -> i64 {
    clamp(size * EXPLOSION_REACH) as i64
}

/// The footprint of a square picture with side `size` at `translation`, where the
/// footprint is larger than the picture. The side stops at the ends of the range.
pub fn get_large_sprite(size: i64, translation: Vec2) -> (transform: Transform)
    ensures
        transform == (Transform {
            translation,
            scale: Vec2 { x: enlarged(size), y: enlarged(size) },
        }),
{
    let side = narrow((size as i128) * (EXPLOSION_REACH as i128));
    Transform { translation, scale: Vec2 { x: side, y: side } }
}

/// The footprint of a rectangle at `translation`.
pub fn get_rectangle(height: i64, width: i64, translation: Vec2) -> (transform: Transform)
    ensures
        transform == (Transform { translation, scale: Vec2 { x: height, y: width } }),
{
    Transform { translation, scale: Vec2 { x: height, y: width } }
}

/// Takes the waiting signal to drop a virus, if there is one, and makes the virus: a
/// square of half a cell where the signal says, with its fuse lit.
pub fn spawn_virus(reader: &mut Mailbox<DropVirusEvent>) -> (spawned: Option<(Transform, Virus)>)
    ensures
        final(reader).slot is None,
        old(reader).slot is None ==> spawned is None,
        old(reader).slot matches Some(event) ==> spawned matches Some(virus) && virus.0 == (
        Transform {
            translation: event.translation,
            scale: Vec2 { x: VIRUS_SIZE, y: VIRUS_SIZE },
        }) && virus.1@ == TimerState::fresh(VIRUS_FUSE as nat, false),
{
    match reader.take() {
        Some(event) => Some(
            (get_rectangle(VIRUS_SIZE, VIRUS_SIZE, event.translation), Virus::new(VIRUS_FUSE)),
        ),
        None => None,
    }
}

/// Takes the waiting signal of an explosion, if there is one, and makes the explosion
/// where the signal says: hostile, with a footprint larger than its picture, and with
/// its timer started.
pub fn spawn_explosion(reader: &mut Mailbox<ExplodeEvent>) -> (spawned: Option<
    (Transform, Hostile, Explosion),
>)
    ensures
        final(reader).slot is None,
        old(reader).slot is None ==> spawned is None,
        old(reader).slot matches Some(event) ==> spawned matches Some(explosion) && explosion.0
            == (Transform {
            translation: event.translation,
            scale: Vec2 { x: enlarged(EXPLOSION_RADIUS), y: enlarged(EXPLOSION_RADIUS) },
        }) && explosion.2@ == TimerState::fresh(EXPLOSION_TIME as nat, false),
{
    match reader.take() {
        Some(event) => Some(
            (
                get_large_sprite(EXPLOSION_RADIUS, event.translation),
                Hostile,
                Explosion::new(EXPLOSION_TIME),
            ),
        ),
        None => None,
    }
}

/// The particle that an ejection makes. It flies from the place of the signal toward
/// its target and starts one cell further that way, clear of the cell that ejected it.
/// A signal whose target is its own place makes no particle.
pub open spec fn ejected(event: EjectEvent) -> Option<
    (Transform, Hostile, Lifespan, Particle, Velocity),
> {
    match (
        aimed(event.translation, event.target_position, 0, CELL_SIZE as int),
        aimed(event.translation, event.target_position, 0, PARTICLE_SPEED as int),
    ) {
        (Some(offset), Some(velocity)) => Some(
            (
                Transform {
                    translation: event.translation.shifted(offset),
                    scale: Vec2 { x: PARTICLE_SIZE, y: PARTICLE_SIZE },
                },
                Hostile,
                Lifespan(PARTICLE_LIFESPAN),
                Particle { velocity },
                Velocity(velocity),
            ),
        ),
        _ => None,
    }
}

/// Takes the waiting signal of an ejection, if there is one, and makes the particle.
pub fn spawn_particle(reader: &mut Mailbox<EjectEvent>) -> (spawned: Option<
    (Transform, Hostile, Lifespan, Particle, Velocity),
>)
    requires
        old(reader).slot matches Some(event) ==> in_reach(
            event.translation,
            event.target_position,
            0,
        ),
    ensures
        final(reader).slot is None,
        old(reader).slot is None ==> spawned is None,
        old(reader).slot matches Some(event) ==> spawned == ejected(event),
{
    match reader.take() {
        Some(event) => {
            let offset = aim(&event.translation, &event.target_position, 0, CELL_SIZE);
            let velocity = aim(&event.translation, &event.target_position, 0, PARTICLE_SPEED);
            match (offset, velocity) {
                (Some(offset), Some(velocity)) => Some(
                    (
                        get_sprite(PARTICLE_SIZE, event.translation.shift(&offset)),
                        Hostile,
                        Lifespan(PARTICLE_LIFESPAN),
                        Particle { velocity },
                        Velocity(velocity),
                    ),
                ),
                _ => None,
            }
        },
        None => None,
    }
}

/// The speed that a player with `status_effect` steers at.
pub open spec fn steering_speed(status_effect: Option<StatusEffect>) -> i64 {
    match status_effect {
        Some(StatusEffect::Speed) => BOOSTED_SPEED,
        None => DEFAULT_SPEED,
    }
}

/// The velocity of the player once the keys were read. A key sets its part of the
/// velocity to the steering speed; of two opposite keys, right and down win. A part
/// whose keys are up keeps its value while any other key is down. With no key down the
/// player stops.
pub open spec fn steered(velocity: Vec2, keys: Keys, speed: i64) -> Vec2 {
    if keys.idle() {
        Vec2 { x: 0, y: 0 }
    } else {
        Vec2 {
            x: if keys.right {
                speed
            } else if keys.left {
                (-speed) as i64
            } else {
                velocity.x
            },
            y: if keys.down {
                (-speed) as i64
            } else if keys.up {
                speed
            } else {
                velocity.y
            },
        }
    }
}

/// Sets the velocity of the player from the keys that are down.
pub fn input_player(keys: &Keys, velocity: &mut Velocity, status_effect: Option<StatusEffect>)
    ensures
        final(velocity).0 == steered(old(velocity).0, *keys, steering_speed(status_effect)),
{
    let default_speed: i64 = match status_effect {
        Some(StatusEffect::Speed) => BOOSTED_SPEED,
        None => DEFAULT_SPEED,
    };
    if keys.left {
        velocity.0.x = -default_speed;
    }
    if keys.right {
        velocity.0.x = default_speed;
    }
    if keys.up {
        velocity.0.y = default_speed;
    }
    if keys.down {
        velocity.0.y = -default_speed;
    }
    if !keys.any_pressed() {
        velocity.0.x = 0;
        velocity.0.y = 0;
    }
}

/// Sends the signal of an ejection from the player toward the cursor, if the player
/// fired during this tick and the cursor is over the arena.
pub fn input_particle(
    fired: bool,
    cursor: Option<Vec2>,
    player: &Transform,
    writer: &mut Mailbox<EjectEvent>,
)
    ensures
        final(writer).slot == (match cursor {
            Some(target_position) if fired => Mailbox::<EjectEvent>::after_send(
                old(writer).slot,
                EjectEvent { translation: player.translation, target_position },
            ),
            _ => old(writer).slot,
        }),
{
    if fired {
        match cursor {
            Some(target_position) => {
                writer.send(EjectEvent { translation: player.translation, target_position });
            },
            None => {},
        }
    }
}

/// Sends the signal to drop a virus where the player stands, if the player asked for it
/// during this tick.
pub fn input_virus(dropped: bool, player: &Transform, writer: &mut Mailbox<DropVirusEvent>)
    ensures
        final(writer).slot == if dropped {
            Mailbox::<DropVirusEvent>::after_send(
                old(writer).slot,
                DropVirusEvent { translation: player.translation },
            )
        } else {
            old(writer).slot
        },
{
    if dropped {
        writer.send(DropVirusEvent { translation: player.translation });
    }
}

/// The effect that a cell at `cell` picks up: that of the last pickup that overlaps it.
pub open spec fn picked_up(cell: Transform, pickups: Seq<(Transform, StatusEffect)>) -> Option<
    StatusEffect,
>
    decreases pickups.len(),
{
    if pickups.len() == 0 {
        None
    } else if overlaps(pickups.last().0, cell) {
        Some(pickups.last().1)
    } else {
        picked_up(cell, pickups.drop_last())
    }
}

/// Hands every pickup that overlaps a cell to that cell. The first part of the result
/// holds, for each cell, the effect that it now carries, if it picked one up; the second
/// tells, for each pickup, whether it was picked up and leaves the arena. Only cells
/// that carry no effect yet belong in `cells`.
pub fn collide_status_effect(
    status_effects: &Vec<(Transform, StatusEffect)>,
    cells: &Vec<Transform>,
) -> (outcome: (Vec<Option<StatusEffect>>, Vec<bool>))
    ensures
        outcome.0.len() == cells.len(),
        forall|index: int|
            0 <= index < cells.len() ==> #[trigger] outcome.0[index] == picked_up(
                cells[index],
                status_effects@,
            ),
        outcome.1.len() == status_effects.len(),
        forall|index: int|
            0 <= index < status_effects.len() ==> #[trigger] outcome.1[index] == touches_any(
                status_effects[index].0,
                cells@,
            ),
{
    let mut granted: Vec<Option<StatusEffect>> = Vec::new();
    let mut index: usize = 0;
    while index < cells.len()
        invariant
            index <= cells.len(),
            granted.len() == index,
            forall|done: int|
                0 <= done < index ==> #[trigger] granted[done] == picked_up(
                    cells[done],
                    status_effects@,
                ),
        decreases cells.len() - index,
    {
        let mut effect: Option<StatusEffect> = None;
        let mut seen: usize = 0;
        while seen < status_effects.len()
            invariant
                seen <= status_effects.len(),
                index < cells.len(),
                effect == picked_up(cells[index as int], status_effects@.take(seen as int)),
            decreases status_effects.len() - seen,
        {
            proof {
                assert(status_effects@.take(seen + 1).drop_last() == status_effects@.take(
                    seen as int,
                ));
            }
            if has_collided(&status_effects[seen].0, &cells[index]) {
                effect = Some(status_effects[seen].1);
            }
            seen += 1;
        }
        proof {
            assert(status_effects@.take(seen as int) == status_effects@);
        }
        granted.push(effect);
        index += 1;
    }
    let mut taken: Vec<bool> = Vec::new();
    let mut index: usize = 0;
    while index < status_effects.len()
        invariant
            index <= status_effects.len(),
            taken.len() == index,
            forall|done: int|
                0 <= done < index ==> #[trigger] taken[done] == touches_any(
                    status_effects[done].0,
                    cells@,
                ),
        decreases status_effects.len() - index,
    {
        taken.push(find_first_touched(&status_effects[index].0, cells).is_some());
        index += 1;
    }
    (granted, taken)
}

/// Whether a cell at `place` would overlap both another cell and a wall.
pub open spec fn taken(walls: Seq<Transform>, cells: Seq<Transform>, place: Vec2) -> bool {
    let candidate = Transform { translation: place, scale: Vec2 { x: CELL_SIZE, y: CELL_SIZE } };
    touches_any(candidate, cells) && touches_any(candidate, walls)
}

/// Picks a place for a new cell by chance. The place is given up if it is taken: if the
/// cell would overlap both another cell and a wall there.
pub fn get_random_translation(walls: &Vec<Transform>, cells: &Vec<Transform>) -> (place: Option<
    Vec2,
>)
    ensures
        place matches Some(place) ==> in_arena(place) && !taken(walls@, cells@, place),
        place is None ==> exists|candidate: Vec2|
            in_arena(candidate) && taken(walls@, cells@, candidate),
{
    let width = get_random_position(SCREEN_WIDTH);
    let height = get_random_position(SCREEN_HEIGHT);
    let place = Vec2 { x: width, y: height };
    if is_taken(walls, cells, &place) {
        assert(in_arena(place) && taken(walls@, cells@, place));
        None
    } else {
        Some(place)
    }
}

/// Tells whether a cell at `place` would overlap both another cell and a wall.
pub fn is_taken(walls: &Vec<Transform>, cells: &Vec<Transform>, place: &Vec2) -> (full: bool)
    ensures
        full == taken(walls@, cells@, *place),
{
    let candidate = Transform { translation: *place, scale: Vec2 { x: CELL_SIZE, y: CELL_SIZE } };
    find_first_touched(&candidate, cells).is_some() && find_first_touched(&candidate, walls).is_some()
}

} // verus!
