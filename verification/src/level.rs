//! The levels of the game and the counter that picks one.
//!
//! A level is a grid of characters, written row after row with a line break after each
//! row. Each character stands for what lies on its tile.

use crate::components::{Cell, Enemy, Lifespan, Player, StatusEffect, Velocity, Wall};
use crate::geometry::{
    clamp, div_toward_zero, divide_toward_zero, narrow, Transform, Vec2, UNIT,
};
use crate::timer::TimerState;
use vstd::prelude::*;

verus! {

/// The level counter. It counts down: the round that is played belongs to the value that
/// the counter has after it was lowered for that round.
#[derive(Clone, Copy, Debug, PartialEq, Eq, Structural)]
pub struct Level(pub usize);

/// The width of the arena.
pub const SCREEN_WIDTH: i64 = 500 * UNIT;

/// The height of the arena.
pub const SCREEN_HEIGHT: i64 = 500 * UNIT;

/// The number of tiles in a row.
pub const ROW_SIZE: usize = 21;

/// The number of tiles in a column.
pub const COL_SIZE: usize = 21;

/// The side of a tile: the width of the arena over the number of tiles in a row.
pub const TILE_SIZE: i64 = 50_000;

/// The time between two particles of an enemy, in nanoseconds.
pub const ENEMY_PERIOD: u64 = 2_000_000_000;

/// The number of levels.
pub const LEVEL_COUNT: usize = 3;

/// The level with the counter at two.
pub const LEVEL_0: &'static str = "
|||||||||||||||||||||
|...................|
|...................|
|.........P.........|
|...................|
|...................|
|...................|
|.........*.........|
|...................|
|...................|
|....|||||||||||....|
|...................|
|...................|
|...................|
|...................|
|.........E.........|
|...................|
|...................|
|...................|
|...................|
|||||||||||||||||||||
";

/// The level with the counter at one.
pub const LEVEL_1: &'static str = "
|||||||||||||||||||||
|...................|
|...................|
|..............E....|
|....||||||.........|
|.........|.........|
|.........|.........|
|.........|.........|
|.........|.........|
|.........|.........|
|.........|....*....|
|.........|.........|
|.........|.........|
|.........|.........|
|.........|.........|
|.........|.........|
|.........||||||....|
|....P..............|
|...................|
|...................|
|||||||||||||||||||||
";

/// The level with the counter at zero.
pub const LEVEL_2: &'static str = "
|||||||||||||||||||||
|...................|
|....P..............|
|...................|
|||||||||||.........|
|...................|
|...................|
|.........|||||||||||
|...................|
|...................|
|||||||||||.........|
|...................|
|...................|
|....E....|||||||||||
|...................|
|...................|
|||||||||||.........|
|...................|
|....*..............|
|...................|
|||||||||||||||||||||
";

/// The layouts, in the order in which the counter picks them from the end.
pub const LEVELS: [&'static str; 3] = [LEVEL_0, LEVEL_1, LEVEL_2];

/// What a character of a layout stands for.
#[derive(Clone, Copy, Debug, PartialEq, Eq, Structural)]
pub enum Tile {
    /// `|`: a wall.
    Wall,
    /// `*`: a pickup that speeds up the cell that takes it.
    Pickup,
    /// `P`: the player.
    Player,
    /// `E`: an enemy.
    Enemy,
}

/// An entity to put into the arena, with the components that it starts with.
pub enum Spawn {
    Wall(Transform, Wall),
    Pickup(Transform, StatusEffect),
    Player(Transform, Cell, Lifespan, Player, Velocity),
    Enemy(Transform, Cell, Enemy, Lifespan),
}

/// What `c` stands for in a layout. Any other character stands for an empty tile.
pub open spec fn tile_of(c: char) -> Option<Tile> {
    if c == '|' {
        Some(Tile::Wall)
    } else if c == '*' {
        Some(Tile::Pickup)
    } else if c == 'P' {
        Some(Tile::Player)
    } else if c == 'E' {
        Some(Tile::Enemy)
    } else {
        None
    }
}

/// The footprint of the tile in column `translation.x` and row `translation.y`, for
/// tiles of side `size`. Columns count from the left edge of the arena, rows from its
/// upper edge, and the arena is centred on the origin.
pub open spec fn tile_transform(size: i64, translation: Vec2) -> Transform {
    Transform {
        translation: Vec2 {
            x: clamp(
                translation.x * size - SCREEN_WIDTH / 2 + div_toward_zero(size as int, 2),
            ) as i64,
            y: clamp(
                translation.y * (-size) + SCREEN_HEIGHT / 2 - div_toward_zero(size as int, 2),
            ) as i64,
        },
        scale: Vec2 { x: size, y: size },
    }
}

/// The number of tiles in `layout`: every character but the line breaks.
pub open spec fn tile_count(layout: Seq<char>) -> nat
    decreases layout.len(),
{
    if layout.len() == 0 {
        0
    } else {
        tile_count(layout.drop_last()) + if layout.last() == '\n' {
            0nat
        } else {
            1nat
        }
    }
}

/// The column and the row of the tile with number `index`, counted row after row.
pub open spec fn grid_place(index: nat) -> Vec2 {
    Vec2 { x: (index % COL_SIZE as nat) as i64, y: (index / ROW_SIZE as nat) as i64 }
}

/// What a layout puts into the arena, in the order of its characters: for each
/// character that stands for something, what it stands for and the footprint of its tile.
pub open spec fn placed(layout: Seq<char>) -> Seq<(Tile, Transform)>
    decreases layout.len(),
{
    if layout.len() == 0 {
        Seq::empty()
    } else {
        let before = layout.drop_last();
        match tile_of(layout.last()) {
            Some(tile) => placed(before).push(
                (tile, tile_transform(TILE_SIZE, grid_place(tile_count(before)))),
            ),
            None => placed(before),
        }
    }
}

impl Spawn {
    /// Whether this is the entity that `tile` stands for, on the footprint `transform`.
    /// A player and an enemy are cells with one point of lifespan; the player stands
    /// still, and the timer of the enemy has just been started.
    pub open spec fn stands_for(self, tile: Tile, transform: Transform) -> bool {
        match self {
            Spawn::Wall(at, _) => tile == Tile::Wall && at == transform,
            Spawn::Pickup(at, effect) => tile == Tile::Pickup && at == transform && effect
                == StatusEffect::Speed,
            Spawn::Player(at, _, lifespan, _, velocity) => tile == Tile::Player && at
                == transform && lifespan == Lifespan(1) && velocity == Velocity(
                Vec2 { x: 0, y: 0 },
            ),
            Spawn::Enemy(at, _, enemy, lifespan) => tile == Tile::Enemy && at == transform
                && lifespan == Lifespan(1) && enemy@ == TimerState::fresh(
                ENEMY_PERIOD as nat,
                true,
            ),
        }
    }
}

/// Whether `spawned` holds, in order, the entities that `places` asks for.
pub open spec fn fills(spawned: Seq<Spawn>, places: Seq<(Tile, Transform)>) -> bool {
    &&& spawned.len() == places.len()
    &&& forall|index: int|
        0 <= index < places.len() ==> (#[trigger] spawned[index]).stands_for(
            places[index].0,
            places[index].1,
        )
}

/// Computes the footprint of the tile in column `translation.x` and row
/// `translation.y`, for tiles of side `size`.
pub fn get_tile(size: i64, translation: Vec2) -> (transform: Transform)
    ensures
        transform == tile_transform(size, translation),
{
    proof {
        lemma_tile_bound(translation.x as int, size as int);
        lemma_tile_bound(translation.y as int, -(size as int));
    }
    let half: i128 = divide_toward_zero(size as i128, 2);
    let x: i128 = (translation.x as i128) * (size as i128) - (SCREEN_WIDTH / 2) as i128 + half;
    let y: i128 = (translation.y as i128) * (-(size as i128)) + (SCREEN_HEIGHT / 2) as i128
        - half;
    Transform {
        translation: Vec2 { x: narrow(x), y: narrow(y) },
        scale: Vec2 { x: size, y: size },
    }
}

/// A product of a place and a side stays well inside the wide integers.
proof fn lemma_tile_bound(place: int, size: int)
    requires
        i64::MIN <= place <= i64::MAX,
        -0x8000_0000_0000_0000 <= size <= 0x8000_0000_0000_0000,
    ensures
        -0x4000_0000_0000_0000_0000_0000_0000_0000 <= place * size
            <= 0x4000_0000_0000_0000_0000_0000_0000_0000,
{
    assert(-0x4000_0000_0000_0000_0000_0000_0000_0000 <= place * size
        <= 0x4000_0000_0000_0000_0000_0000_0000_0000) by (nonlinear_arith)
        requires
            -0x8000_0000_0000_0000 <= place <= 0x8000_0000_0000_0000,
            -0x8000_0000_0000_0000 <= size <= 0x8000_0000_0000_0000,
    ;
}

/// The counter after it was lowered for the next round: one less, and from zero back to
/// the last level.
pub open spec fn lowered(level: usize) -> usize {
    if level == 0 {
        (LEVEL_COUNT - 1) as usize
    } else {
        (level - 1) as usize
    }
}

/// The layout that is played while the counter is at `level`: the layouts are picked
/// from the end.
pub open spec fn layout_of(level: usize) -> Seq<char> {
    LEVELS[LEVEL_COUNT - 1 - level]@
}

/// Makes the entities that `layout` asks for. Characters that stand for nothing are
/// passed over.
pub fn spawn_tiles(layout: &str) -> (spawned: Vec<Spawn>)
    ensures
        fills(spawned@, placed(layout@)),
{
    let length = layout.unicode_len();
    let mut spawned: Vec<Spawn> = Vec::new();
    let mut tiles: usize = 0;
    let mut index: usize = 0;
    proof {
        assert(layout@.take(0) == Seq::<char>::empty());
    }
    while index < length
        invariant
            index <= length,
            length == layout@.len(),
            tiles <= index,
            tiles == tile_count(layout@.take(index as int)),
            fills(spawned@, placed(layout@.take(index as int))),
        decreases length - index,
    {
        proof {
            assert(layout@.take(index + 1).drop_last() == layout@.take(index as int));
        }
        let c = layout.get_char(index);
        if c != '\n' {
            let place = Vec2 { x: (tiles % COL_SIZE) as i64, y: (tiles / ROW_SIZE) as i64 };
            let ghost before = spawned@;
            if c == '|' {
                spawned.push(Spawn::Wall(get_tile(TILE_SIZE, place), Wall));
            } else if c == '*' {
                spawned.push(Spawn::Pickup(get_tile(TILE_SIZE, place), StatusEffect::Speed));
            } else if c == 'P' {
                spawned.push(
                    Spawn::Player(
                        get_tile(TILE_SIZE, place),
                        Cell,
                        Lifespan(1),
                        Player,
                        Velocity(Vec2 { x: 0, y: 0 }),
                    ),
                );
            } else if c == 'E' {
                spawned.push(
                    Spawn::Enemy(
                        get_tile(TILE_SIZE, place),
                        Cell,
                        Enemy::new(ENEMY_PERIOD),
                        Lifespan(1),
                    ),
                );
            }
            proof {
                assert(place == grid_place(tiles as nat));
                if tile_of(c) is Some {
                    assert(spawned@ == before.push(spawned@.last()));
                    assert forall|at: int| 0 <= at < before.len() implies spawned@[at]
                        == before[at] by {}
                }
            }
            tiles += 1;
        }
        index += 1;
    }
    proof {
        assert(layout@.take(index as int) == layout@);
    }
    spawned
}

/// Lowers the level counter for the next round and makes the entities of its layout.
pub fn generate_level(level: &mut Level) -> (spawned: Vec<Spawn>)
    requires
        old(level).0 <= LEVEL_COUNT,
    ensures
        final(level).0 == lowered(old(level).0),
        fills(spawned@, placed(layout_of(final(level).0))),
{
    if level.0 == 0 {
        level.0 = LEVEL_COUNT;
    }
    level.0 = level.0 - 1;
    spawn_tiles(LEVELS[LEVEL_COUNT - 1 - level.0])
}

} // verus!
