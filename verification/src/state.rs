//! The screens of the game.

use vstd::prelude::*;

verus! {

/// The screen that the game shows.
#[derive(Clone, Copy, Debug, PartialEq, Eq, Hash, Structural)]
pub enum AppState {
    /// The title screen.
    Splash,
    /// The menu between two rounds.
    Menu,
    /// A round is played.
    Game,
}

} // verus!
