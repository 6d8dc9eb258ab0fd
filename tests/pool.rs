use w4_shot::entity::{Entity, EntityType};
use w4_shot::game::GameState;
use w4_shot::pool::{pool_add, pool_remove};

fn bullet(x: u8) -> Entity {
    Entity { x, y: 10, size: 1, dx: 0, dy: -3, age: 0, entity_type: EntityType::Bullet { player: true } }
}

#[test]
fn add_uses_first_free_slot() {
    let mut pool = [Entity::empty(); 64];
    assert!(pool_add(&mut pool, bullet(1)));
    assert!(pool_add(&mut pool, bullet(2)));
    pool[0] = Entity::empty();
    assert!(pool_add(&mut pool, bullet(3)));
    assert_eq!(pool[0], bullet(3));
    assert_eq!(pool[1], bullet(2));
    assert!(pool[2].is_empty());
}

#[test]
fn add_fails_exactly_when_full() {
    let mut state = GameState::new(0);
    for i in 0..64u8 {
        assert!(state.add_entity(bullet(i)));
        assert_eq!(state.live_entities(), i as usize + 1);
    }
    let before = *state.entities();
    assert!(!state.add_entity(bullet(100)));
    assert_eq!(state.live_entities(), 64);
    assert_eq!(*state.entities(), before);
}

#[test]
fn adding_an_empty_entity_keeps_live_count() {
    let mut state = GameState::new(0);
    assert!(state.add_entity(Entity::empty()));
    assert_eq!(state.live_entities(), 0);
}

#[test]
fn remove_clears_only_first_equal_live_slot() {
    let mut pool = [Entity::empty(); 64];
    pool[3] = bullet(7);
    pool[9] = bullet(7);
    pool[5] = bullet(8);
    pool_remove(&mut pool, &bullet(7));
    assert!(pool[3].is_empty());
    assert_eq!(pool[9], bullet(7));
    assert_eq!(pool[5], bullet(8));
}

#[test]
fn remove_without_match_changes_nothing() {
    let mut pool = [Entity::empty(); 64];
    pool[0] = bullet(1);
    let before = pool;
    pool_remove(&mut pool, &bullet(2));
    assert_eq!(pool, before);
}
