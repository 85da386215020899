use rusty_snake::interface::MenuOption;
use rusty_snake::interface::SimpleMenu;
use rusty_snake::interface::create_main_menu;
use rusty_snake::mechanics::KeyInput;
use rusty_snake::mechanics::State;

fn three_option_menu() -> SimpleMenu {
    SimpleMenu::new(
        "Title".to_string(),
        "bottom".to_string(),
        vec![
            MenuOption::new("a".to_string(), State::Game),
            MenuOption::new("b".to_string(), State::MainMenu),
            MenuOption::new("c".to_string(), State::Quit),
        ],
    )
}

#[test]
fn menu_starts_at_the_top() {
    let menu = three_option_menu();
    assert_eq!(menu.title, "Title");
    assert_eq!(menu.bottom_text, "bottom");
    assert_eq!(menu.options.len(), 3);
    assert_eq!(menu.selected, 0);
}

#[test]
fn selection_wraps_both_ways() {
    let mut menu = three_option_menu();

    menu.move_up();
    assert_eq!(menu.selected, 2);
    menu.move_up();
    assert_eq!(menu.selected, 1);

    menu.move_down();
    assert_eq!(menu.selected, 2);
    menu.move_down();
    assert_eq!(menu.selected, 0);
    menu.move_down();
    assert_eq!(menu.selected, 1);
}

#[test]
fn letters_move_and_choose() {
    let mut menu = three_option_menu();

    assert!(!menu.handle_char_input('j'));
    assert_eq!(menu.selected, 1);
    assert!(!menu.handle_char_input('K'));
    assert_eq!(menu.selected, 0);
    assert!(!menu.handle_char_input('s'));
    assert_eq!(menu.selected, 1);
    assert!(!menu.handle_char_input('W'));
    assert_eq!(menu.selected, 0);

    // Choosing letters report success and leave the selection alone.
    assert!(menu.handle_char_input('\n'));
    assert!(menu.handle_char_input('l'));
    assert!(menu.handle_char_input('D'));
    assert_eq!(menu.selected, 0);

    // Anything else is ignored.
    assert!(!menu.handle_char_input('z'));
    assert_eq!(menu.selected, 0);
}

#[test]
fn key_events_move_and_choose() {
    let mut menu = three_option_menu();

    assert!(!menu.handle_input(Some(KeyInput::KeyDown)));
    assert_eq!(menu.selected, 1);
    assert!(!menu.handle_input(Some(KeyInput::KeyUp)));
    assert_eq!(menu.selected, 0);

    assert!(menu.handle_input(Some(KeyInput::KeyRight)));
    assert!(menu.handle_input(Some(KeyInput::Character('\n'))));

    assert!(!menu.handle_input(None));
    assert!(!menu.handle_input(Some(KeyInput::Other)));
    assert!(!menu.handle_input(Some(KeyInput::KeyLeft)));
    assert_eq!(menu.selected, 0);
}

#[test]
fn main_menu_offers_play_and_exit() {
    let menu = create_main_menu("1.2.3".to_string());
    assert_eq!(menu.title, "Rusty Snake");
    assert_eq!(menu.bottom_text, "1.2.3");
    assert_eq!(menu.selected, 0);
    assert_eq!(menu.options.len(), 2);
    assert_eq!(menu.options[0].text, "Play");
    assert_eq!(menu.options[0].target_state, State::Game);
    assert_eq!(menu.options[1].text, "Exit");
    assert_eq!(menu.options[1].target_state, State::Quit);
}
