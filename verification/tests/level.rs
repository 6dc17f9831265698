use cell_game::components::{Lifespan, StatusEffect, Velocity};
use cell_game::geometry::{Transform, Vec2, UNIT};
use cell_game::level::{
    generate_level, get_tile, spawn_tiles, Level, Spawn, ENEMY_PERIOD, LEVELS, LEVEL_0, LEVEL_2,
    SCREEN_WIDTH, TILE_SIZE,
};
use std::time::Duration;

fn tile(col: i64, row: i64) -> Transform {
    Transform::new(
        Vec2::new(col * TILE_SIZE - 250 * UNIT + TILE_SIZE / 2, 250 * UNIT - row * TILE_SIZE - TILE_SIZE / 2),
        Vec2::new(TILE_SIZE, TILE_SIZE),
    )
}

#[test]
fn tile_is_a_twenty_first_of_the_arena() {
    assert_eq!(TILE_SIZE * 21, SCREEN_WIDTH);
    assert_eq!(get_tile(TILE_SIZE, Vec2::new(0, 0)), tile(0, 0));
    assert_eq!(
        get_tile(TILE_SIZE, Vec2::new(0, 0)).translation,
        Vec2::new(-525_000 + 25_000, 525_000 - 25_000)
    );
    assert_eq!(get_tile(TILE_SIZE, Vec2::new(20, 20)).translation, Vec2::new(500_000, -500_000));
    assert_eq!(get_tile(3, Vec2::new(2, 5)), Transform::new(Vec2::new(6 - 525_000 + 1, -15 + 525_000 - 1), Vec2::new(3, 3)));
}

#[test]
fn counter_picks_the_layouts_from_the_end() {
    let mut level = Level(1);
    let spawned = generate_level(&mut level);
    assert_eq!(level, Level(0));
    let expected = spawn_tiles(LEVEL_2);
    assert_eq!(spawned.len(), expected.len());
    assert!(spawned.iter().any(|spawn| matches!(spawn, Spawn::Player(at, ..) if *at == tile(5, 2))));
    let mut level = Level(3);
    let spawned = generate_level(&mut level);
    assert_eq!(level, Level(2));
    assert!(spawned.iter().any(|spawn| matches!(spawn, Spawn::Player(at, ..) if *at == tile(10, 3))));
    assert_eq!(LEVELS[0], LEVEL_0);
}

#[test]
fn counter_wraps_to_the_last_level() {
    let mut level = Level(0);
    let spawned = generate_level(&mut level);
    assert_eq!(level, Level(2));
    assert!(spawned.iter().any(|spawn| matches!(spawn, Spawn::Enemy(at, ..) if *at == tile(10, 15))));
}

#[test]
fn layout_is_read_row_after_row() {
    let spawned = spawn_tiles("|.\n*P\n?E|");
    assert_eq!(spawned.len(), 5);
    assert!(matches!(&spawned[0], Spawn::Wall(at, _) if *at == tile(0, 0)));
    assert!(
        matches!(&spawned[1], Spawn::Pickup(at, effect) if *at == tile(2, 0) && *effect == StatusEffect::Speed)
    );
    assert!(matches!(&spawned[2], Spawn::Player(at, _, lifespan, _, velocity)
        if *at == tile(3, 0) && *lifespan == Lifespan(1) && *velocity == Velocity(Vec2::new(0, 0))));
    match &spawned[3] {
        Spawn::Enemy(at, _, enemy, lifespan) => {
            assert_eq!(*at, tile(5, 0));
            assert_eq!(*lifespan, Lifespan(1));
            assert_eq!(enemy.0.duration(), Duration::from_nanos(ENEMY_PERIOD));
            assert_eq!(enemy.0.elapsed(), Duration::ZERO);
        }
        _ => panic!("an enemy was expected"),
    }
    assert!(matches!(&spawned[4], Spawn::Wall(at, _) if *at == tile(6, 0)));
}

#[test]
fn first_level_has_its_walls_and_cells() {
    let spawned = spawn_tiles(LEVEL_0);
    let walls = spawned.iter().filter(|spawn| matches!(spawn, Spawn::Wall(..))).count();
    assert_eq!(walls, 21 + 21 + 19 * 2 + 11);
    assert!(spawned.iter().any(|spawn| matches!(spawn, Spawn::Player(at, ..) if *at == tile(10, 3))));
    assert!(spawned.iter().any(|spawn| matches!(spawn, Spawn::Pickup(at, _) if *at == tile(10, 7))));
    assert!(spawned.iter().any(|spawn| matches!(spawn, Spawn::Enemy(at, ..) if *at == tile(10, 15))));
    assert!(matches!(&spawned[21], Spawn::Wall(at, _) if *at == tile(0, 1)));
}

#[test]
fn unknown_characters_are_passed_over() {
    assert_eq!(spawn_tiles("..x?..\n\n").len(), 0);
    assert_eq!(spawn_tiles("").len(), 0);
}
