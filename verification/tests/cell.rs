use cell_game::cell::{
    despawn_cell, get_random_position, get_translation, move_particle, move_player, position_of,
    shoot_particle, spawn_cell, spawn_enemy, spawn_particle, spawn_player, PARTICLE_SIZE,
    PLAYER_STEP,
};
use cell_game::components::{Cell, Particle, Player};
use cell_game::events::{Mailbox, ShootEvent};
use cell_game::game::{get_random_translation, is_taken, CELL_SIZE};
use cell_game::geometry::{Transform, Vec2, UNIT};
use cell_game::input::Keys;
use cell_game::level::{ENEMY_PERIOD, SCREEN_HEIGHT, SCREEN_WIDTH};
use std::time::Duration;

fn square(x: i64, y: i64, side: i64) -> Transform {
    Transform::new(Vec2::new(x * UNIT, y * UNIT), Vec2::new(side * UNIT, side * UNIT))
}

fn in_arena(place: Vec2) -> bool {
    let reach = (SCREEN_WIDTH - CELL_SIZE) / 2;
    -reach <= place.x && place.x < reach && -reach <= place.y && place.y < reach
}

#[test]
fn samples_are_spread_over_the_axis() {
    assert_eq!(position_of(0, SCREEN_WIDTH), -240 * UNIT);
    assert_eq!(position_of(1 << 31, SCREEN_WIDTH), 0);
    assert_eq!(position_of(1 << 30, SCREEN_WIDTH), -120 * UNIT);
    assert_eq!(position_of(u32::MAX, SCREEN_WIDTH), 240 * UNIT - 1);
    assert_eq!(position_of(3 << 30, 100 * UNIT), 20 * UNIT);
}

#[test]
fn samples_meet_the_ends_of_the_range() {
    assert_eq!(position_of(0, i64::MAX), -4_611_686_018_427_366_903);
    assert_eq!(position_of(u32::MAX, i64::MAX), 4_611_686_016_279_883_256);
    assert_eq!(position_of(0, i64::MIN), 4_611_686_018_427_408_904);
    assert_eq!(position_of(u32::MAX, i64::MIN), -4_611_686_016_279_925_255);
}

#[test]
fn chance_keeps_to_the_arena() {
    for _ in 0..200 {
        let position = get_random_position(SCREEN_WIDTH);
        assert!(-240 * UNIT <= position && position < 240 * UNIT);
    }
}

#[test]
fn random_positions_differ() {
    let first = get_random_position(SCREEN_HEIGHT);
    assert!((0..64).any(|_| get_random_position(SCREEN_HEIGHT) != first));
}

#[test]
fn new_cells_lie_in_the_arena() {
    let cells = vec![square(0, 0, 20), square(100, 100, 20)];
    for _ in 0..50 {
        assert!(in_arena(get_translation(&cells)));
        let (transform, cell) = spawn_cell(&cells);
        assert!(in_arena(transform.translation));
        assert_eq!(transform.scale, Vec2::new(CELL_SIZE, CELL_SIZE));
        assert_eq!(cell, Cell);
    }
}

#[test]
fn player_and_enemy_are_cells() {
    let cells = Vec::new();
    let (transform, cell, player) = spawn_player(&cells);
    assert!(in_arena(transform.translation));
    assert_eq!((cell, player), (Cell, Player));
    let (transform, cell, enemy) = spawn_enemy(&cells);
    assert!(in_arena(transform.translation));
    assert_eq!(transform.scale, Vec2::new(20 * UNIT, 20 * UNIT));
    assert_eq!(cell, Cell);
    assert_eq!(enemy.0.duration(), Duration::from_nanos(ENEMY_PERIOD));
    assert!(!enemy.0.finished());
}

#[test]
fn place_is_taken_by_a_cell_and_a_wall_together() {
    let walls = vec![square(0, 0, 20)];
    let cells = vec![square(10, 10, 20)];
    assert!(is_taken(&walls, &cells, &Vec2::new(5 * UNIT, 5 * UNIT)));
    assert!(!is_taken(&walls, &cells, &Vec2::new(-15 * UNIT, 0)));
    assert!(!is_taken(&walls, &cells, &Vec2::new(25 * UNIT, 25 * UNIT)));
    assert!(!is_taken(&walls, &cells, &Vec2::new(100 * UNIT, 100 * UNIT)));
}

#[test]
fn random_translation_is_free_or_given_up() {
    let walls = vec![square(0, 0, 500)];
    let cells = vec![square(0, 0, 500)];
    for _ in 0..20 {
        assert_eq!(get_random_translation(&walls, &cells), None);
    }
    let nothing = Vec::new();
    for _ in 0..20 {
        let place = get_random_translation(&walls, &nothing).unwrap();
        assert!(in_arena(place));
    }
}

#[test]
fn cell_leaves_when_a_particle_touches_it() {
    let particles = vec![square(0, 0, 5), square(300, 300, 5)];
    let cells = vec![square(100, 100, 20), square(10, 10, 20), square(290, 300, 20)];
    assert_eq!(despawn_cell(&particles, &cells), vec![false, true, true]);
    assert_eq!(despawn_cell(&Vec::new(), &cells), vec![false, false, false]);
}

#[test]
fn player_steps_with_the_keys() {
    let none = Keys { left: false, right: false, up: false, down: false };
    let mut players = vec![square(0, 0, 20), square(1, 1, 3)];
    move_player(&Keys { left: true, up: true, ..none }, &mut players);
    assert_eq!(players, vec![square(-7, 7, 20), square(-6, 8, 3)]);
    move_player(&Keys { right: true, down: true, ..none }, &mut players);
    assert_eq!(players, vec![square(0, 0, 20), square(1, 1, 3)]);
    move_player(&Keys { left: true, right: true, up: true, down: true }, &mut players);
    assert_eq!(players, vec![square(0, 0, 20), square(1, 1, 3)]);
    move_player(&none, &mut players);
    assert_eq!(players, vec![square(0, 0, 20), square(1, 1, 3)]);
    assert_eq!(PLAYER_STEP, 7 * UNIT);
}

#[test]
fn player_stops_at_the_ends_of_the_range() {
    let none = Keys { left: false, right: false, up: false, down: false };
    let mut players = vec![Transform::new(Vec2::new(i64::MIN + 1, i64::MAX), Vec2::new(1, 1))];
    move_player(&Keys { left: true, right: true, up: true, down: true }, &mut players);
    assert_eq!(
        players[0].translation,
        Vec2::new(i64::MIN + PLAYER_STEP, i64::MAX - PLAYER_STEP)
    );
    move_player(&Keys { right: true, ..none }, &mut players);
    assert_eq!(players[0].translation.x, i64::MIN + 2 * PLAYER_STEP);
}

#[test]
fn shot_flies_toward_the_cursor() {
    let player = square(0, 0, 20);
    let mut shoot = Mailbox::new();
    assert_eq!(spawn_particle(&mut shoot, &player), None);
    shoot.send(ShootEvent { cursor_position: Vec2::new(4 * UNIT, -8 * UNIT) });
    let (transform, particle) = spawn_particle(&mut shoot, &player).unwrap();
    assert!(shoot.is_empty());
    assert_eq!(particle, Particle { velocity: Vec2::new(4 * UNIT / 9, -8 * UNIT / 9) });
    assert_eq!(
        transform,
        Transform::new(
            Vec2::new(4 * CELL_SIZE / 9, -8 * CELL_SIZE / 9),
            Vec2::new(PARTICLE_SIZE, PARTICLE_SIZE)
        )
    );
}

#[test]
fn shot_at_the_own_place_goes_nowhere() {
    let player = square(3, 3, 20);
    let mut shoot = Mailbox::new();
    shoot.send(ShootEvent { cursor_position: player.translation });
    let (transform, particle) = spawn_particle(&mut shoot, &player).unwrap();
    assert_eq!(particle, Particle { velocity: Vec2::new(0, 0) });
    assert_eq!(transform.translation, player.translation);
}

#[test]
fn particle_covers_its_velocity_in_a_tick() {
    let mut particles = vec![
        (square(0, 0, 5), Particle { velocity: Vec2::new(3, -4) }),
        (square(1, 1, 5), Particle { velocity: Vec2::new(0, 0) }),
        (
            Transform::new(Vec2::new(i64::MAX - 1, i64::MIN), Vec2::new(1, 1)),
            Particle { velocity: Vec2::new(5, -5) },
        ),
    ];
    move_particle(&mut particles);
    move_particle(&mut particles);
    assert_eq!(particles[0], (Transform::new(Vec2::new(6, -8), Vec2::new(5 * UNIT, 5 * UNIT)), Particle { velocity: Vec2::new(3, -4) }));
    assert_eq!(particles[1].0, square(1, 1, 5));
    assert_eq!(particles[2].0.translation, Vec2::new(i64::MAX, i64::MIN));
}

#[test]
fn firing_sends_a_shot_at_the_cursor() {
    let cursor = Vec2::new(30, 40);
    let mut shoot = Mailbox::new();
    shoot_particle(false, Some(cursor), &mut shoot);
    assert!(shoot.is_empty());
    shoot_particle(true, None, &mut shoot);
    assert!(shoot.is_empty());
    shoot_particle(true, Some(cursor), &mut shoot);
    shoot_particle(true, Some(Vec2::new(0, 0)), &mut shoot);
    assert_eq!(shoot.take(), Some(ShootEvent { cursor_position: cursor }));
}
