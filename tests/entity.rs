use w4_shot::entity::{collides, entity_collides_with_wall, overlap, step, Entity, EntityType};
use w4_shot::behavior::{aim_component, reflect};

fn at(x: u8, y: u8, size: u8, dx: i8, dy: i8, entity_type: EntityType) -> Entity {
    Entity { x, y, size, dx, dy, age: 0, entity_type }
}

#[test]
fn movement_stops_at_edges() {
    let mut e = at(159, 1, 1, 3, -3, EntityType::PowerUp);
    e.update_movement();
    assert_eq!((e.x, e.y), (160, 0));
    let mut e = at(80, 80, 1, -2, 2, EntityType::PowerUp);
    e.update_movement();
    assert_eq!((e.x, e.y), (78, 82));
}

#[test]
fn movement_brings_outside_positions_inside() {
    let mut e = at(250, 200, 1, 0, 0, EntityType::PowerUp);
    e.update_movement();
    assert_eq!((e.x, e.y), (160, 160));
}

#[test]
fn step_extremes() {
    assert_eq!(step(0, -128), 0);
    assert_eq!(step(255, 127), 160);
    assert_eq!(step(100, 60), 160);
    assert_eq!(step(100, -60), 40);
}

#[test]
fn wall_contact_needs_outward_velocity() {
    assert!(entity_collides_with_wall(&at(0, 50, 1, -1, 0, EntityType::PowerUp)));
    assert!(!entity_collides_with_wall(&at(0, 50, 1, 1, 0, EntityType::PowerUp)));
    assert!(entity_collides_with_wall(&at(50, 160, 1, 0, 1, EntityType::PowerUp)));
    assert!(entity_collides_with_wall(&at(160, 50, 1, 2, 0, EntityType::PowerUp)));
    assert!(entity_collides_with_wall(&at(50, 0, 1, 0, -3, EntityType::PowerUp)));
    assert!(!entity_collides_with_wall(&at(50, 50, 1, -1, -1, EntityType::PowerUp)));
}

#[test]
fn collision_is_open_overlap() {
    let enemy = at(50, 50, 8, 0, 0, EntityType::BasicEnemy { seed: 0, aims: false });
    let bullet = at(53, 53, 1, 0, -3, EntityType::Bullet { player: true });
    assert!(collides(&enemy, &bullet));
    // Boxes that only share an edge do not collide.
    let touching = at(54, 50, 1, 0, 0, EntityType::Bullet { player: true });
    assert!(!collides(&enemy, &touching));
}

#[test]
fn empty_entities_never_collide() {
    let enemy = at(50, 50, 8, 0, 0, EntityType::BasicEnemy { seed: 0, aims: false });
    let empty = at(50, 50, 8, 0, 0, EntityType::Empty);
    assert!(!collides(&enemy, &empty));
    assert!(!collides(&empty, &enemy));
}

#[test]
fn overlap_saturates_at_the_origin() {
    // The box around (1, 1) of half-extent 4 reaches down to 0, not below.
    assert!(overlap(1, 1, 4, 0, 0, 1));
    assert!(!overlap(1, 1, 0, 0, 0, 0));
}

#[test]
fn aim_component_exact_values() {
    assert_eq!(aim_component(0, 0), 0);
    assert_eq!(aim_component(0, 1), 0);
    assert_eq!(aim_component(1, 0), 2);
    assert_eq!(aim_component(-5, 0), -2);
    assert_eq!(aim_component(3, 4), 1);
    assert_eq!(aim_component(4, 3), 1);
    assert_eq!(aim_component(-4, 3), -1);
    assert_eq!(aim_component(1, 10), 0);
    assert_eq!(aim_component(10, 1), 1);
    assert_eq!(aim_component(-255, 255), -1);
}

#[test]
fn reflect_reverses_velocity() {
    assert_eq!(reflect(1), -1);
    assert_eq!(reflect(-1), 1);
    assert_eq!(reflect(0), 0);
    assert_eq!(reflect(-128), 127);
}

#[test]
fn empty_constructor_is_free_slot() {
    let e = Entity::empty();
    assert!(e.is_empty());
    assert_eq!(e.entity_type, EntityType::Empty);
}
