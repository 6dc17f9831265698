//! The simulation core of a small top-down arcade game: cells, particles, viruses and
//! explosions move over an arena of walls, one tick at a time.
//!
//! The core needs no window and no store of entities. Lengths are whole numbers of
//! sub-units (see [`geometry::UNIT`]), times are whole nanoseconds, and every system is a
//! function from the components it reads to the components it changes and the signals
//! it emits. Only the timers are the engine's own (see [`timer`]).

pub mod cell;
pub mod components;
pub mod events;
pub mod game;
pub mod geometry;
pub mod input;
pub mod level;
pub mod mask;
pub mod menu;
pub mod random;
pub mod schedule;
pub mod splash;
pub mod state;
pub mod timer;
