use w4_shot::lose::{update_lose, LoseState};
use w4_shot::menu::{update_menu, Difficulty, MenuState};
use w4_shot::{update, State};

const CONFIRM: u8 = 1;
const UP: u8 = 64;
const DOWN: u8 = 128;

fn menu(state: State) -> MenuState {
    match state {
        State::Menu(m) => m,
        _ => panic!("expected the menu"),
    }
}

#[test]
fn difficulty_cycle_and_levels() {
    let mut d = Difficulty::Boring;
    let mut levels = Vec::new();
    let mut names = Vec::new();
    for _ in 0..5 {
        levels.push(d.to_difficulty_level());
        names.push(d.to_str());
        d = d.next();
    }
    assert_eq!(d, Difficulty::Boring);
    assert_eq!(levels, vec![3, 5, 7, 9, 10]);
    assert_eq!(names, vec!["Boring", "Easy", "Normal", "Hard", "INSANE"]);
}

#[test]
fn new_menu_defaults() {
    let m = MenuState::new();
    assert_eq!(m.selected(), 0);
    assert!(!m.pressed());
    assert_eq!(m.difficulty(), Difficulty::Normal);
}

#[test]
fn menu_selection_moves_on_press_edge() {
    let m = menu(update_menu(MenuState::new(), DOWN, 0));
    assert_eq!(m.selected(), 1);
    // Held down: no further move.
    let m = menu(update_menu(m, DOWN, DOWN));
    assert_eq!(m.selected(), 1);
    let m = menu(update_menu(m, DOWN, 0));
    assert_eq!(m.selected(), 0);
    let m = menu(update_menu(m, UP, 0));
    assert_eq!(m.selected(), 1);
}

#[test]
fn menu_confirm_release_starts_game() {
    let m = menu(update_menu(MenuState::new(), CONFIRM, 0));
    assert!(m.pressed());
    match update_menu(m, 0, CONFIRM) {
        State::Game(g) => {
            assert_eq!(g.difficulty(), 7);
            assert_eq!(g.player_health(), 2);
            assert_eq!(g.entity_spawn_interval(), 355);
        },
        _ => panic!("expected a game"),
    }
}

#[test]
fn menu_confirm_on_difficulty_cycles_it() {
    let m = menu(update_menu(MenuState::new(), DOWN, 0));
    let m = menu(update_menu(m, CONFIRM, DOWN));
    let m = menu(update_menu(m, 0, CONFIRM));
    assert_eq!(m.difficulty(), Difficulty::Hard);
    assert!(!m.pressed());
    assert_eq!(m.selected(), 1);
}

#[test]
fn lose_returns_to_menu_after_press_and_release() {
    let l = LoseState::new(42);
    assert_eq!(l.score(), 42);
    let l = match update_lose(l, 0, 0) {
        State::Lose(l) => l,
        _ => panic!("expected the game-over screen"),
    };
    assert!(!l.pressed());
    let l = match update_lose(l, CONFIRM, 0) {
        State::Lose(l) => l,
        _ => panic!("expected the game-over screen"),
    };
    assert!(l.pressed());
    assert_eq!(l.score(), 42);
    let m = menu(update_lose(l, 0, CONFIRM));
    assert_eq!(m.selected(), 0);
    assert_eq!(m.difficulty(), Difficulty::Normal);
}

#[test]
fn top_level_update_dispatches() {
    let s = update(State::Menu(MenuState::new()), CONFIRM, 0);
    let s = update(s, 0, CONFIRM);
    let s = match s {
        State::Game(g) => {
            assert_eq!(g.time(), 0);
            update(State::Game(g), 0, 0)
        },
        _ => panic!("expected a game"),
    };
    match s {
        State::Game(g) => assert_eq!(g.time(), 1),
        _ => panic!("expected a game"),
    }
    let s = update(State::Lose(LoseState::new(5)), CONFIRM, 0);
    assert!(matches!(update(s, 0, CONFIRM), State::Menu(_)));
}
