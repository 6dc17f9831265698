//! What the buttons of the menu do, and which menu a message calls for.

use crate::events::{Mailbox, MenuEvent};
use crate::state::AppState;
use vstd::prelude::*;

verus! {

/// What the pointer does to a button.
#[derive(Clone, Copy, Debug, PartialEq, Eq, Structural)]
pub enum Interaction {
    /// The button is pressed.
    Clicked,
    /// The pointer is over the button.
    Hovered,
    /// The pointer is elsewhere.
    Idle,
}

/// What follows from a button of the menu.
#[derive(Clone, Copy, Debug, PartialEq, Eq, Structural)]
pub enum MenuAction {
    /// The program ends.
    Exit,
    /// A round starts.
    Play,
    /// The screen that was shown before the menu comes back.
    Resume,
    /// Nothing happens.
    Nothing,
}

/// The menu to show.
#[derive(Clone, Copy, Debug, PartialEq, Eq, Structural)]
pub enum MenuKind {
    /// The menu between two levels: its first button carries the message.
    Level,
    /// The menu at the end of a game: the message is its headline.
    Exit,
}

/// What follows from `interaction` on the button labelled `label`. Only a pressed button
/// does anything: "Quit" ends the program, "Play Again" starts a round, and any other
/// button leads back.
pub open spec fn acted(interaction: Interaction, label: Seq<char>) -> MenuAction {
    if interaction != Interaction::Clicked {
        MenuAction::Nothing
    } else if label == "Quit"@ {
        MenuAction::Exit
    } else if label == "Play Again"@ {
        MenuAction::Play
    } else {
        MenuAction::Resume
    }
}

/// Tells what follows from `interaction` on the button labelled `label`.
pub fn act_button(interaction: Interaction, label: &String) -> (action: MenuAction)
    ensures
        action == acted(interaction, label@),
{
    match interaction {
        Interaction::Clicked => {
            if *label == "Quit".to_owned() {
                MenuAction::Exit
            } else if *label == "Play Again".to_owned() {
                MenuAction::Play
            } else {
                MenuAction::Resume
            }
        },
        _ => MenuAction::Nothing,
    }
}

/// The screen that a pressed button labelled `label` leads to in the plain menu: "Quit"
/// leads to the title, any other button into a round.
pub open spec fn led_to(interaction: Interaction, label: Seq<char>) -> Option<AppState> {
    if interaction != Interaction::Clicked {
        None
    } else if label == "Quit"@ {
        Some(AppState::Splash)
    } else {
        Some(AppState::Game)
    }
}

/// Tells which screen `interaction` on the button labelled `label` leads to, if any.
pub fn interact_button(interaction: Interaction, label: &String) -> (next: Option<AppState>)
    ensures
        next == led_to(interaction, label@),
{
    match interaction {
        Interaction::Clicked => {
            if *label == "Quit".to_owned() {
                Some(AppState::Splash)
            } else {
                Some(AppState::Game)
            }
        },
        _ => None,
    }
}

/// The menu that `message` calls for.
pub open spec fn menu_for(message: Seq<char>) -> MenuKind {
    if message == "Next Level"@ {
        MenuKind::Level
    } else {
        MenuKind::Exit
    }
}

/// Takes the waiting message, if there is one, and tells which menu to show with it.
pub fn spawn_screen(reader: &mut Mailbox<MenuEvent>) -> (screen: Option<(MenuKind, String)>)
    ensures
        final(reader).slot is None,
        old(reader).slot is None ==> screen is None,
        old(reader).slot matches Some(event) ==> screen matches Some(shown) && shown.1@
            == event@ && shown.0 == menu_for(event@),
{
    match reader.take() {
        Some(event) => {
            let kind = if event.0 == "Next Level".to_owned() {
                MenuKind::Level
            } else {
                MenuKind::Exit
            };
            Some((kind, event.0))
        },
        None => None,
    }
}

} // verus!
