//! Menu-selection state: a titled list of options, one of them selected,
//! steered by the same key events as the game itself.

use crate::mechanics::KeyInput;
use crate::mechanics::State;
use vstd::prelude::*;

verus! {

pub struct MenuOption {
    pub text: String,
    /// The game-loop state this option switches to when chosen.
    pub target_state: State,
}

impl MenuOption {
    pub fn new(text: String, target_state: State) -> (option: MenuOption)
        ensures
            option.text == text,
            option.target_state == target_state,
    {
        MenuOption { text, target_state }
    }
}

/// The selection index after moving one row down, wrapping to the top.
pub open spec fn down_from(sel: int, len: int) -> int {
    if sel >= len - 1 {
        0
    } else {
        sel + 1
    }
}

/// The selection index after moving one row up, wrapping to the bottom.
pub open spec fn up_from(sel: int, len: int) -> int {
    if sel <= 0 {
        len - 1
    } else {
        sel - 1
    }
}

/// Whether the letter `c` chooses the selected option.
pub open spec fn menu_char_selects(c: char) -> bool {
    c == '\n' || c == 'l' || c == 'L' || c == 'd' || c == 'D'
}

pub open spec fn menu_char_moves_up(c: char) -> bool {
    c == 'k' || c == 'K' || c == 'w' || c == 'W'
}

pub open spec fn menu_char_moves_down(c: char) -> bool {
    c == 'j' || c == 'J' || c == 's' || c == 'S'
}

/// The selection index after the letter `c`.
pub open spec fn char_next_selected(sel: int, len: int, c: char) -> int {
    if menu_char_moves_up(c) {
        up_from(sel, len)
    } else if menu_char_moves_down(c) {
        down_from(sel, len)
    } else {
        sel
    }
}

/// Whether the key event `k` (or no event) chooses the selected option.
pub open spec fn menu_key_selects(k: Option<KeyInput>) -> bool {
    match k {
        Some(KeyInput::Character(c)) => menu_char_selects(c),
        Some(KeyInput::KeyRight) => true,
        _ => false,
    }
}

/// The selection index after the key event `k` (or no event).
pub open spec fn menu_next_selected(sel: int, len: int, k: Option<KeyInput>) -> int {
    match k {
        Some(KeyInput::Character(c)) => char_next_selected(sel, len, c),
        Some(KeyInput::KeyUp) => up_from(sel, len),
        Some(KeyInput::KeyDown) => down_from(sel, len),
        _ => sel,
    }
}

pub struct SimpleMenu {
    pub title: String,
    /// Short text shown at the bottom of the menu, e.g. a version string.
    pub bottom_text: String,
    pub options: Vec<MenuOption>,
    /// Index of the highlighted option.
    pub selected: usize,
}

impl SimpleMenu {
    pub fn new(title: String, bottom_text: String, options: Vec<MenuOption>) -> (menu: SimpleMenu)
        ensures
            menu.title == title,
            menu.bottom_text == bottom_text,
            menu.options == options,
            menu.selected == 0,
    {
        SimpleMenu { title, bottom_text, options, selected: 0 }
    }

    pub fn move_down(&mut self)
        requires
            old(self).options@.len() >= 1,
        ensures
            final(self).title == old(self).title,
            final(self).bottom_text == old(self).bottom_text,
            final(self).options == old(self).options,
            final(self).selected as int == down_from(
                old(self).selected as int,
                old(self).options@.len() as int,
            ),
    {
        if self.selected >= self.options.len() - 1 {
            self.selected = 0;
        } else {
            self.selected += 1;
        }
    }

    pub fn move_up(&mut self)
        requires
            old(self).options@.len() >= 1,
        ensures
            final(self).title == old(self).title,
            final(self).bottom_text == old(self).bottom_text,
            final(self).options == old(self).options,
            final(self).selected as int == up_from(
                old(self).selected as int,
                old(self).options@.len() as int,
            ),
    {
        if self.selected == 0 {
            self.selected = self.options.len() - 1;
        } else {
            self.selected -= 1;
        }
    }

    /// Applies a letter key to the menu: some letters move the selection,
    /// some choose the selected option; the result says whether the
    /// selected option was chosen.
    pub fn handle_char_input(&mut self, input: char) -> (chose: bool)
        requires
            old(self).options@.len() >= 1,
        ensures
            final(self).title == old(self).title,
            final(self).bottom_text == old(self).bottom_text,
            final(self).options == old(self).options,
            final(self).selected as int == char_next_selected(
                old(self).selected as int,
                old(self).options@.len() as int,
                input,
            ),
            chose == menu_char_selects(input),
    {
        match input {
            'k' | 'K' | 'w' | 'W' => {
                self.move_up();
                false
            },
            'j' | 'J' | 's' | 'S' => {
                self.move_down();
                false
            },
            '\n' | 'l' | 'L' | 'd' | 'D' => true,
            _ => false,
        }
    }

    /// Applies one polled key event to the menu; the result says whether
    /// the selected option was chosen.
    pub fn handle_input(&mut self, input: Option<KeyInput>) -> (chose: bool)
        requires
            old(self).options@.len() >= 1,
        ensures
            final(self).title == old(self).title,
            final(self).bottom_text == old(self).bottom_text,
            final(self).options == old(self).options,
            final(self).selected as int == menu_next_selected(
                old(self).selected as int,
                old(self).options@.len() as int,
                input,
            ),
            chose == menu_key_selects(input),
    {
        match input {
            Some(KeyInput::Character(c)) => self.handle_char_input(c),
            Some(KeyInput::KeyUp) => {
                self.move_up();
                false
            },
            Some(KeyInput::KeyDown) => {
                self.move_down();
                false
            },
            Some(KeyInput::KeyRight) => true,
            _ => false,
        }
    }
}

/// The main menu of the game: play or exit, with the version string at the
/// bottom. The caller supplies the version, which is a fact about the build,
/// not about the simulation.
pub fn create_main_menu(version: String) -> (menu: SimpleMenu)
    ensures
        menu.title@ == "Rusty Snake"@,
        menu.bottom_text == version,
        menu.options@.len() == 2,
        menu.options@[0].text@ == "Play"@,
        menu.options@[0].target_state == State::Game,
        menu.options@[1].text@ == "Exit"@,
        menu.options@[1].target_state == State::Quit,
        menu.selected == 0,
{
    let mut options: Vec<MenuOption> = Vec::new();
    options.push(MenuOption::new("Play".to_owned(), State::Game));
    options.push(MenuOption::new("Exit".to_owned(), State::Quit));
    SimpleMenu::new("Rusty Snake".to_owned(), version, options)
}

} // verus!
