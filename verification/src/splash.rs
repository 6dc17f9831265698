//! What the button of the title screen does.

use crate::menu::Interaction;
use crate::state::AppState;
use vstd::prelude::*;

verus! {

/// Tells which screen `interaction` on the button of the title screen leads to: a
/// pressed button starts a round.
pub fn interact_button(interaction: Interaction) -> (next: Option<AppState>)
    ensures
        next == if interaction == Interaction::Clicked {
            Some(AppState::Game)
        } else {
            None
        },
{
    match interaction {
        Interaction::Clicked => Some(AppState::Game),
        _ => None,
    }
}

} // verus!
