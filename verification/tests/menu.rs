use cell_game::events::{Mailbox, MenuEvent};
use cell_game::menu::{act_button, interact_button, spawn_screen, Interaction, MenuAction, MenuKind};
use cell_game::state::AppState;

#[test]
fn pressed_buttons_act_by_their_labels() {
    assert_eq!(act_button(Interaction::Clicked, &"Quit".to_string()), MenuAction::Exit);
    assert_eq!(act_button(Interaction::Clicked, &"Play Again".to_string()), MenuAction::Play);
    assert_eq!(act_button(Interaction::Clicked, &"Next Level".to_string()), MenuAction::Resume);
    assert_eq!(act_button(Interaction::Clicked, &"".to_string()), MenuAction::Resume);
}

#[test]
fn other_buttons_do_nothing() {
    assert_eq!(act_button(Interaction::Hovered, &"Quit".to_string()), MenuAction::Nothing);
    assert_eq!(act_button(Interaction::Idle, &"Play Again".to_string()), MenuAction::Nothing);
    assert_eq!(interact_button(Interaction::Hovered, &"Quit".to_string()), None);
    assert_eq!(interact_button(Interaction::Idle, &"Play Again".to_string()), None);
}

#[test]
fn plain_menu_leads_to_the_title_or_a_round() {
    assert_eq!(interact_button(Interaction::Clicked, &"Quit".to_string()), Some(AppState::Splash));
    assert_eq!(
        interact_button(Interaction::Clicked, &"Play Again".to_string()),
        Some(AppState::Game)
    );
    assert_eq!(interact_button(Interaction::Clicked, &"quit".to_string()), Some(AppState::Game));
}

#[test]
fn title_button_starts_a_round() {
    assert_eq!(cell_game::splash::interact_button(Interaction::Clicked), Some(AppState::Game));
    assert_eq!(cell_game::splash::interact_button(Interaction::Hovered), None);
    assert_eq!(cell_game::splash::interact_button(Interaction::Idle), None);
}

#[test]
fn message_picks_the_menu() {
    let mut reader = Mailbox::new();
    assert_eq!(spawn_screen(&mut reader), None);
    reader.send(MenuEvent("Next Level".to_string()));
    assert_eq!(spawn_screen(&mut reader), Some((MenuKind::Level, "Next Level".to_string())));
    assert!(reader.is_empty());
    reader.send(MenuEvent("Victory".to_string()));
    reader.send(MenuEvent("Next Level".to_string()));
    assert_eq!(spawn_screen(&mut reader), Some((MenuKind::Exit, "Victory".to_string())));
    reader.send(MenuEvent("Game Over".to_string()));
    assert_eq!(spawn_screen(&mut reader), Some((MenuKind::Exit, "Game Over".to_string())));
    assert_eq!(spawn_screen(&mut reader), None);
}
