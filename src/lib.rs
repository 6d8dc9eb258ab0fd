//! Fixed-step arcade shooter simulation: the per-frame transition of a
//! menu / game / game-over state machine, driven by a five-bit gamepad mask.
use vstd::prelude::*;

pub mod behavior;
pub mod entity;
pub mod game;
pub mod input;
pub mod lose;
pub mod menu;
pub mod pool;
pub mod rng;
pub mod spawn;

use crate::game::{game_outcome, update_game, GameState};
use crate::lose::{lose_outcome, update_lose, LoseState};
use crate::menu::{menu_outcome, update_menu, MenuState};

verus! {

/// The screen the program is on, with that screen's state.
#[derive(Clone, Copy)]
pub enum State {
    Menu(MenuState),
    Game(GameState),
    Lose(LoseState),
}

/// One frame of the program: the current screen's step, given this frame's
/// and the previous frame's gamepad bytes.
pub fn update(state: State, gamepad: u8, last_gamepad: u8) -> (r: State)
    requires
        state matches State::Game(g) ==> g@.time < u32::MAX,
    ensures
        match state {
            State::Menu(m) => menu_outcome(m@, gamepad, last_gamepad, r),
            State::Game(g) => game_outcome(g@, gamepad, last_gamepad, r),
            State::Lose(l) => lose_outcome(l@, gamepad, r),
        },
{
    match state {
        State::Menu(m) => update_menu(m, gamepad, last_gamepad),
        State::Game(g) => update_game(g, gamepad, last_gamepad),
        State::Lose(l) => update_lose(l, gamepad, last_gamepad),
    }
}

} // verus!
