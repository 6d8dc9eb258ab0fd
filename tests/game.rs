use w4_shot::entity::{Entity, EntityType, GameEvent};
use w4_shot::game::{update_game, GameState};
use w4_shot::State;

fn entity(x: u8, y: u8, size: u8, dx: i8, dy: i8, age: u16, entity_type: EntityType) -> Entity {
    Entity { x, y, size, dx, dy, age, entity_type }
}

fn enemy_bullet_on_player() -> Entity {
    entity(80, 100, 1, 0, 0, 0, EntityType::Bullet { player: false })
}

#[test]
fn new_game_starts_in_place() {
    let state = GameState::new(0);
    assert_eq!((state.player_x(), state.player_y()), (80, 100));
    assert_eq!(state.player_health(), 2);
    assert_eq!(state.player_hurt_cooldown(), 0);
    assert_eq!(state.time(), 0);
    assert_eq!(state.difficulty(), 0);
    assert_eq!(state.entity_spawn_interval(), 600);
    assert_eq!(state.live_entities(), 0);
}

#[test]
fn idle_frame_keeps_player_in_place() {
    let state = GameState::new(0);
    match update_game(state, 0, 0) {
        State::Game(g) => {
            assert_eq!((g.player_x(), g.player_y()), (80, 100));
            assert_eq!(g.player_health(), 2);
            assert_eq!(g.time(), 1);
        },
        _ => panic!("the game should go on"),
    }
}

#[test]
fn first_frame_at_difficulty_zero_spawns_one_powerup() {
    // The generator gives 0 at time 0: no enemy, and one power-up launched
    // from (10, 10) toward the corner, one step along after the sweep.
    let state = GameState::new(0);
    match update_game(state, 0, 0) {
        State::Game(g) => {
            assert_eq!(g.live_entities(), 1);
            let p = g.entities()[0];
            assert_eq!(p.entity_type, EntityType::PowerUp);
            assert_eq!((p.x, p.y, p.dx, p.dy, p.age), (9, 9, -1, -1, 1));
        },
        _ => panic!("the game should go on"),
    }
}

#[test]
fn held_direction_counts_twice() {
    // Right held this frame and the last moves two pixels; held only now, one.
    let mut state = GameState::new(0);
    state.update_player(32, 32);
    assert_eq!((state.player_x(), state.player_dx()), (82, 2));
    state.update_player(32, 0);
    assert_eq!((state.player_x(), state.player_dx()), (83, 1));
    state.update_player(64 | 16, 64);
    assert_eq!((state.player_x(), state.player_y(), state.player_dy()), (82, 98, -2));
}

#[test]
fn firing_depends_on_health() {
    // Health 2, time 0: one straight bullet.
    let mut state = GameState::new(0);
    state.update_player(1, 0);
    assert_eq!(state.live_entities(), 1);
    let b = state.entities()[0];
    assert_eq!((b.x, b.y, b.dx, b.dy), (80, 97, 0, -3));
    assert_eq!(b.entity_type, EntityType::Bullet { player: true });
    // Health 3: three bullets.
    let mut state = GameState::new(0);
    state.apply_event(GameEvent::PowerUp);
    state.update_player(1, 0);
    assert_eq!(state.live_entities(), 3);
    let pool = state.entities();
    assert_eq!((pool[0].dx, pool[1].dx, pool[2].dx), (0, -1, 1));
    // Health 1: nothing unless the clock is a multiple of 30; time 0 is.
    let mut state = GameState::new(0);
    state.apply_event(GameEvent::PlayerHurt);
    state.update_player(1, 0);
    assert_eq!(state.live_entities(), 1);
}

#[test]
fn powerup_raises_health_without_cap() {
    let mut state = GameState::new(0);
    state.apply_event(GameEvent::PowerUp);
    assert_eq!(state.player_health(), 3);
    state.apply_event(GameEvent::PowerUp);
    assert_eq!(state.player_health(), 4);
}

#[test]
fn hits_debounced_within_cooldown() {
    let mut state = GameState::new(0);
    assert_eq!(state.player_health(), 2);
    state.apply_event(GameEvent::PlayerHurt);
    state.apply_event(GameEvent::PlayerHurt);
    assert_eq!(state.player_health(), 1);
    assert_eq!(state.player_hurt_cooldown(), 90);
    for _ in 0..89 {
        state.update_player(0, 0);
    }
    assert_eq!(state.player_hurt_cooldown(), 1);
    state.apply_event(GameEvent::PlayerHurt);
    assert_eq!(state.player_health(), 1);
    state.update_player(0, 0);
    assert_eq!(state.player_hurt_cooldown(), 0);
    state.apply_event(GameEvent::PlayerHurt);
    assert_eq!(state.player_health(), 0);
    assert_eq!(state.player_hurt_cooldown(), 90);
}

#[test]
fn two_hits_in_one_sweep_cost_one_health() {
    let mut state = GameState::new(0);
    state.add_entity(enemy_bullet_on_player());
    state.add_entity(enemy_bullet_on_player());
    let next = state.with_updated_entities();
    assert_eq!(next.player_health(), 1);
    assert_eq!(next.player_hurt_cooldown(), 90);
    assert_eq!(next.live_entities(), 0);
}

#[test]
fn health_reaching_zero_ends_game_with_clock_as_score() {
    let mut state = GameState::new(0);
    state.apply_event(GameEvent::PlayerHurt);
    for _ in 0..90 {
        state.update_player(0, 0);
    }
    assert_eq!(state.player_health(), 1);
    assert_eq!(state.player_hurt_cooldown(), 0);
    state.add_entity(enemy_bullet_on_player());
    match update_game(state, 0, 0) {
        State::Lose(l) => {
            assert_eq!(l.score(), 1);
            assert!(!l.pressed());
        },
        _ => panic!("the game should be lost"),
    }
}

#[test]
fn old_bullet_vanishes() {
    let state = GameState::new(0);
    let b = entity(80, 50, 1, 0, 1, 201, EntityType::Bullet { player: false });
    let (next, req) = b.update(&state);
    assert!(next.is_empty());
    assert!(req.events.is_empty());
    let young = entity(80, 50, 1, 0, 1, 199, EntityType::Bullet { player: false });
    let (next, _) = young.update(&state);
    assert_eq!((next.y, next.age), (51, 200));
}

#[test]
fn bullet_vanishes_on_wall() {
    let state = GameState::new(0);
    let b = entity(80, 2, 1, 0, -3, 0, EntityType::Bullet { player: true });
    let (next, _) = b.update(&state);
    assert!(next.is_empty());
}

#[test]
fn player_bullet_never_hurts_player() {
    let state = GameState::new(0);
    let b = entity(80, 100, 1, 0, 0, 0, EntityType::Bullet { player: true });
    let (next, req) = b.update(&state);
    assert!(!next.is_empty());
    assert!(req.events.is_empty());
}

#[test]
fn enemy_bullet_hurts_player() {
    let state = GameState::new(0);
    let (next, req) = enemy_bullet_on_player().update(&state);
    assert!(next.is_empty());
    assert_eq!(req.events, vec![GameEvent::PlayerHurt]);
}

#[test]
fn empty_slot_only_ages() {
    let state = GameState::new(0);
    let (next, req) = Entity::empty().update(&state);
    assert_eq!(next.entity_type, EntityType::Empty);
    assert_eq!(next.age, 1);
    assert!(req.entities_to_add.is_empty() && req.entities_to_remove.is_empty());
}

#[test]
fn enemy_turns_and_fires_at_phase_zero() {
    let state = GameState::new(0);
    let e = entity(50, 50, 8, 0, 0, 59, EntityType::BasicEnemy { seed: 0, aims: false });
    let (next, req) = e.update(&state);
    assert_eq!((next.x, next.y, next.dx, next.dy, next.age), (49, 49, -1, -1, 60));
    assert_eq!(
        req.entities_to_add,
        vec![entity(49, 49, 1, 0, 2, 0, EntityType::Bullet { player: false })]
    );
    assert!(req.events.is_empty());
}

#[test]
fn aiming_enemy_fires_toward_player() {
    let state = GameState::new(0);
    let e = entity(50, 50, 8, 0, 0, 59, EntityType::BasicEnemy { seed: 0, aims: true });
    let (_, req) = e.update(&state);
    let b = req.entities_to_add[0];
    assert_eq!((b.dx, b.dy), (1, 1));
}

#[test]
fn enemy_seed_shifts_its_phase() {
    let state = GameState::new(0);
    let e = entity(50, 50, 8, 1, 1, 29, EntityType::BasicEnemy { seed: 30, aims: false });
    let (next, req) = e.update(&state);
    assert_eq!((next.x, next.y, next.dx, next.dy), (49, 49, -1, -1));
    assert_eq!(req.entities_to_add.len(), 1);
}

#[test]
fn enemy_pauses_at_phase_thirty() {
    let state = GameState::new(0);
    let e = entity(50, 50, 8, 1, 1, 29, EntityType::BasicEnemy { seed: 0, aims: false });
    let (next, req) = e.update(&state);
    assert_eq!((next.x, next.y, next.dx, next.dy), (50, 50, 0, 0));
    assert!(req.entities_to_add.is_empty());
}

#[test]
fn enemy_and_player_bullet_destroy_each_other() {
    let mut state = GameState::new(0);
    let bullet = entity(50, 52, 1, 0, -3, 4, EntityType::Bullet { player: true });
    let enemy = entity(50, 50, 8, 0, 0, 5, EntityType::BasicEnemy { seed: 0, aims: false });
    state.add_entity(enemy);
    state.add_entity(bullet);
    let (next, req) = enemy.update(&state);
    assert!(next.is_empty());
    // The bullet is asked to be removed as its own step leaves it.
    let spent = entity(50, 49, 1, 0, -3, 5, EntityType::Bullet { player: true });
    assert_eq!(req.entities_to_remove, vec![spent]);
}

#[test]
fn commit_removes_enemy_and_bullet_that_meet() {
    let mut state = GameState::new(0);
    state.add_entity(entity(80, 50, 8, 0, 0, 5, EntityType::BasicEnemy { seed: 0, aims: false }));
    state.add_entity(entity(80, 53, 1, 0, -3, 0, EntityType::Bullet { player: true }));
    let next = state.with_updated_entities();
    assert_eq!(next.live_entities(), 0);
    assert!(next.entities()[0].is_empty());
    assert!(next.entities()[1].is_empty());
}

#[test]
fn very_old_bullet_vanishes_without_wrapping() {
    let state = GameState::new(0);
    let b = entity(80, 50, 1, 0, 1, u16::MAX, EntityType::Bullet { player: true });
    let (next, req) = b.update(&state);
    assert!(next.is_empty());
    assert!(req.entities_to_add.is_empty() && req.entities_to_remove.is_empty());
}

#[test]
fn enemy_on_player_at_phase_zero_hurts() {
    let state = GameState::new(0);
    let e = entity(80, 100, 8, 0, 0, 59, EntityType::BasicEnemy { seed: 0, aims: false });
    let (_, req) = e.update(&state);
    assert_eq!(req.events, vec![GameEvent::PlayerHurt]);
}

#[test]
fn powerup_bounces_off_wall() {
    let state = GameState::new(0);
    let p = entity(0, 50, 8, -1, 1, 0, EntityType::PowerUp);
    let (next, _) = p.update(&state);
    assert_eq!((next.x, next.y, next.dx, next.dy), (1, 51, 1, 1));
}

#[test]
fn powerup_expires_after_900() {
    let state = GameState::new(0);
    let p = entity(20, 20, 8, 1, 1, 900, EntityType::PowerUp);
    let (next, _) = p.update(&state);
    assert!(next.is_empty());
}

#[test]
fn powerup_pickup_emits_event() {
    let state = GameState::new(0);
    let p = entity(80, 100, 8, 0, 0, 0, EntityType::PowerUp);
    let (next, req) = p.update(&state);
    assert!(next.is_empty());
    assert_eq!(req.events, vec![GameEvent::PowerUp]);
}

#[test]
fn pickup_in_sweep_raises_health() {
    let mut state = GameState::new(0);
    state.add_entity(entity(80, 100, 8, 0, 0, 0, EntityType::PowerUp));
    let next = state.with_updated_entities();
    assert_eq!(next.player_health(), 3);
    assert_eq!(next.live_entities(), 0);
}
