//! The game-over screen.
use vstd::prelude::*;

use crate::input::{is_pressed, pressed, BUTTON_1};
use crate::menu::{new_menu_view, MenuState};
use crate::State;

verus! {

/// The game-over screen: the final score, and whether the confirm button
/// has been seen held.
#[derive(Clone, Copy)]
pub struct LoseState {
    score: u32,
    pressed: bool,
}

/// The model of the game-over screen.
pub struct LoseView {
    pub score: u32,
    pub pressed: bool,
}

impl View for LoseState {
    type V = LoseView;

    closed spec fn view(&self) -> LoseView {
        LoseView { score: self.score, pressed: self.pressed }
    }
}

impl LoseState {
    /// The screen shown when a game ends with `score`.
    pub fn new(score: u32) -> (r: Self)
        ensures
            r@ == (LoseView { score, pressed: false }),
    {
        Self { score, pressed: false }
    }

    pub fn score(&self) -> (r: u32)
        ensures
            r == self@.score,
    {
        self.score
    }

    pub fn pressed(&self) -> (r: bool)
        ensures
            r == self@.pressed,
    {
        self.pressed
    }
}

/// The state after the game-over screen's step from `l`: back to the menu
/// once the confirm button, seen held, is released; otherwise the screen
/// remembers whether the button is held.
pub open spec fn lose_outcome(l: LoseView, gamepad: u8, r: State) -> bool {
    if l.pressed && !pressed(gamepad, BUTTON_1) {
        r matches State::Menu(m) && m@ == new_menu_view()
    } else {
        r matches State::Lose(n) && n@ == (LoseView {
            score: l.score,
            pressed: l.pressed || pressed(gamepad, BUTTON_1),
        })
    }
}

/// The game-over screen's step.
pub fn update_lose(state: LoseState, gamepad: u8, last_gamepad: u8) -> (r: State)
    ensures
        lose_outcome(state@, gamepad, r),
{
    let mut new_state = state;
    if state.pressed && !is_pressed(gamepad, BUTTON_1) {
        State::Menu(MenuState::new())
    } else {
        if is_pressed(gamepad, BUTTON_1) {
            new_state.pressed = true;
        }
        State::Lose(new_state)
    }
}

} // verus!
