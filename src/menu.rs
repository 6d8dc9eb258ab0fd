//! The main menu: start a game or choose its difficulty.
use vstd::prelude::*;

use crate::game::{new_game_view, GameState};
use crate::input::{is_newly_pressed, is_pressed, newly_pressed, pressed, BUTTON_1, BUTTON_DOWN, BUTTON_UP};
use crate::State;

verus! {

/// The difficulty chosen in the menu.
#[derive(Clone, Copy, Debug, PartialEq, Eq, Structural)]
pub enum Difficulty {
    Boring,
    Easy,
    Normal,
    Hard,
    Insane,
}

impl Difficulty {
    /// The choice that follows this one, wrapping around after the last.
    pub open spec fn next_spec(self) -> Difficulty {
        match self {
            Difficulty::Boring => Difficulty::Easy,
            Difficulty::Easy => Difficulty::Normal,
            Difficulty::Normal => Difficulty::Hard,
            Difficulty::Hard => Difficulty::Insane,
            Difficulty::Insane => Difficulty::Boring,
        }
    }

    /// The difficulty level a game starts with.
    pub open spec fn level_spec(self) -> u8 {
        match self {
            Difficulty::Boring => 3,
            Difficulty::Easy => 5,
            Difficulty::Normal => 7,
            Difficulty::Hard => 9,
            Difficulty::Insane => 10,
        }
    }

    /// The name shown in the menu.
    pub open spec fn name_spec(self) -> Seq<char> {
        match self {
            Difficulty::Boring => "Boring"@,
            Difficulty::Easy => "Easy"@,
            Difficulty::Normal => "Normal"@,
            Difficulty::Hard => "Hard"@,
            Difficulty::Insane => "INSANE"@,
        }
    }

    pub fn next(&self) -> (r: Self)
        ensures
            r == self.next_spec(),
    {
        match self {
            Difficulty::Boring => Difficulty::Easy,
            Difficulty::Easy => Difficulty::Normal,
            Difficulty::Normal => Difficulty::Hard,
            Difficulty::Hard => Difficulty::Insane,
            Difficulty::Insane => Difficulty::Boring,
        }
    }

    pub fn to_str(&self) -> (r: &'static str)
        ensures
            r@ == self.name_spec(),
    {
        match self {
            Difficulty::Boring => "Boring",
            Difficulty::Easy => "Easy",
            Difficulty::Normal => "Normal",
            Difficulty::Hard => "Hard",
            Difficulty::Insane => "INSANE",
        }
    }

    pub fn to_difficulty_level(&self) -> (r: u8)
        ensures
            r == self.level_spec(),
    {
        match self {
            Difficulty::Boring => 3,
            Difficulty::Easy => 5,
            Difficulty::Normal => 7,
            Difficulty::Hard => 9,
            Difficulty::Insane => 10,
        }
    }
}

/// The main menu: the highlighted entry (0 play, 1 difficulty), whether the
/// confirm button is held, and the chosen difficulty.
#[derive(Clone, Copy)]
pub struct MenuState {
    selected: u8,
    pressed: bool,
    difficulty: Difficulty,
}

/// The model of the main menu.
pub struct MenuView {
    pub selected: u8,
    pub pressed: bool,
    pub difficulty: Difficulty,
}

impl View for MenuState {
    type V = MenuView;

    closed spec fn view(&self) -> MenuView {
        MenuView { selected: self.selected, pressed: self.pressed, difficulty: self.difficulty }
    }
}

/// The menu as it first appears.
pub open spec fn new_menu_view() -> MenuView {
    MenuView { selected: 0, pressed: false, difficulty: Difficulty::Normal }
}

/// The highlighted entry after the up and down edges of this frame.
pub open spec fn selection_after(selected: u8, gamepad: u8, last_gamepad: u8) -> u8 {
    let s1 = if newly_pressed(gamepad, last_gamepad, BUTTON_UP) {
        (vstd::wrapping::u8_specs::wrapping_sub(selected, 1) % 2) as u8
    } else {
        selected
    };
    if newly_pressed(gamepad, last_gamepad, BUTTON_DOWN) {
        (vstd::wrapping::u8_specs::wrapping_add(s1, 1) % 2) as u8
    } else {
        s1
    }
}

impl MenuState {
    pub fn new() -> (r: Self)
        ensures
            r@ == new_menu_view(),
    {
        Self { selected: 0, pressed: false, difficulty: Difficulty::Normal }
    }

    pub fn selected(&self) -> (r: u8)
        ensures
            r == self@.selected,
    {
        self.selected
    }

    pub fn pressed(&self) -> (r: bool)
        ensures
            r == self@.pressed,
    {
        self.pressed
    }

    pub fn difficulty(&self) -> (r: Difficulty)
        ensures
            r == self@.difficulty,
    {
        self.difficulty
    }
}

/// The state after the menu's step from `m`. Up and down move the highlight
/// on the frame they are pressed. Holding confirm latches it; on the frame it
/// is released, "play" starts a game at the chosen difficulty's level and
/// "difficulty" moves to the next choice.
pub open spec fn menu_outcome(m: MenuView, gamepad: u8, last_gamepad: u8, r: State) -> bool {
    let sel = selection_after(m.selected, gamepad, last_gamepad);
    if pressed(gamepad, BUTTON_1) {
        r matches State::Menu(n) && n@ == (MenuView {
            selected: sel,
            pressed: true,
            difficulty: m.difficulty,
        })
    } else if pressed(last_gamepad, BUTTON_1) && sel == 0 {
        r matches State::Game(g) && g@ == new_game_view(m.difficulty.level_spec())
    } else if pressed(last_gamepad, BUTTON_1) {
        r matches State::Menu(n) && n@ == (MenuView {
            selected: sel,
            pressed: false,
            difficulty: if sel == 1 {
                m.difficulty.next_spec()
            } else {
                m.difficulty
            },
        })
    } else {
        r matches State::Menu(n) && n@ == (MenuView {
            selected: sel,
            pressed: m.pressed,
            difficulty: m.difficulty,
        })
    }
}

/// The menu's step.
pub fn update_menu(state: MenuState, gamepad: u8, last_gamepad: u8) -> (r: State)
    ensures
        menu_outcome(state@, gamepad, last_gamepad, r),
{
    let mut new_state = state;
    if is_newly_pressed(gamepad, last_gamepad, BUTTON_UP) {
        new_state.selected = new_state.selected.wrapping_sub(1) % 2;
    }
    if is_newly_pressed(gamepad, last_gamepad, BUTTON_DOWN) {
        new_state.selected = new_state.selected.wrapping_add(1) % 2;
    }
    if is_pressed(gamepad, BUTTON_1) {
        new_state.pressed = true;
    } else if is_pressed(last_gamepad, BUTTON_1) {
        if new_state.selected == 0 {
            return State::Game(GameState::new(new_state.difficulty.to_difficulty_level()));
        } else if new_state.selected == 1 {
            new_state.difficulty = new_state.difficulty.next();
        }
        new_state.pressed = false;
    }
    State::Menu(new_state)
}

} // verus!
