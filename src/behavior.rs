//! The per-entity behaviour state machine: each kind's step against a frozen
//! snapshot of the game, producing the replacing entity and the requests
//! handed to the commit phase.
use vstd::prelude::*;

use crate::entity::{
    collides, collides_spec, empty_entity, entity_collides_with_wall, overlap, touches_player_spec,
    touches_wall, Entity, EntityType, GameEvent, PLAYER_HALF,
};
use crate::game::{GameState, GameView};
use crate::pool::POOL_SIZE;
use crate::rng::{next_random, next_random_spec};

verus! {

/// What one entity's step asks of the commit phase.
pub struct Requests {
    pub adds: Seq<Entity>,
    pub removes: Seq<Entity>,
    pub events: Seq<GameEvent>,
}

pub open spec fn no_requests() -> Requests {
    Requests { adds: seq![], removes: seq![], events: seq![] }
}

/// The requests one entity's step hands to the commit phase.
pub struct ChangeRequests {
    pub entities_to_add: Vec<Entity>,
    pub entities_to_remove: Vec<Entity>,
    pub events: Vec<GameEvent>,
}

impl View for ChangeRequests {
    type V = Requests;

    open spec fn view(&self) -> Requests {
        Requests {
            adds: self.entities_to_add@,
            removes: self.entities_to_remove@,
            events: self.events@,
        }
    }
}

/// The entity one frame older; the age wraps around after 65535.
pub open spec fn aged(e: Entity) -> Entity {
    Entity { age: if e.age == 65535 { 0 } else { (e.age + 1) as u16 }, ..e }
}

/// The component `a` of the vector `(a, b)` scaled to length 2 and
/// truncated toward zero: 2 when the vector lies on that axis, 1 when
/// `a` exceeds the angle of 30 degrees from the other axis, else 0.
pub open spec fn aim_spec(a: int, b: int) -> i8 {
    if a == 0 {
        0
    } else if b == 0 {
        if a > 0 {
            2
        } else {
            -2i8
        }
    } else if 3 * a * a > b * b {
        if a > 0 {
            1
        } else {
            -1i8
        }
    } else {
        0
    }
}

/// A velocity component reversed; the one value without an opposite
/// becomes the largest positive one.
pub open spec fn reflect_spec(d: i8) -> i8 {
    if d == -128 {
        127
    } else {
        (-d) as i8
    }
}

/// The random value an enemy at `(x, y)` draws at `time`.
pub open spec fn enemy_random(time: u32, x: u8, y: u8) -> u32 {
    next_random_spec(
        next_random_spec(time) ^ ((x as u32 * 651) as u32) ^ ((y as u32 * 474) as u32),
    )
}

/// The bullet an enemy standing at `(e.x, e.y)` fires: toward the player at
/// `(px, py)` when it aims, else straight down.
pub open spec fn enemy_bullet(e: Entity, aims: bool, px: u8, py: u8) -> Entity {
    let ax: int = if aims { px - e.x } else { 0 };
    let ay: int = if aims { py - e.y } else { 1 };
    Entity {
        x: e.x,
        y: e.y,
        size: 1,
        dx: aim_spec(ax, ay),
        dy: aim_spec(ay, ax),
        age: 0,
        entity_type: EntityType::Bullet { player: false },
    }
}

/// A player's bullet that `e` collides with.
pub open spec fn hit_by_player_bullet(e: Entity, b: Entity) -> bool {
    b.entity_type == (EntityType::Bullet { player: true }) && collides_spec(e, b)
}

/// The first entity of `s` at or after `i` that is a player's bullet
/// colliding with `e`.
pub open spec fn first_hit_from(e: Entity, s: Seq<Entity>, i: int) -> Option<Entity>
    decreases s.len() - i,
{
    if i < 0 || i >= s.len() {
        None
    } else if hit_by_player_bullet(e, s[i]) {
        Some(s[i])
    } else {
        first_hit_from(e, s, i + 1)
    }
}

/// A bullet's step: age and move; vanish once it has lived 200 frames or on
/// a wall; an enemy's bullet that reaches the player vanishes and hurts the
/// player.
pub open spec fn bullet_step(b: Entity, player: bool, snap: GameView) -> (Entity, Requests) {
    let m = aged(b).moved();
    let n = if b.age >= 200 || touches_wall(m) {
        empty_entity()
    } else {
        m
    };
    if !player && touches_player_spec(n, snap.player_x, snap.player_y) {
        (empty_entity(), Requests { events: seq![GameEvent::PlayerHurt], ..no_requests() })
    } else {
        (n, no_requests())
    }
}

/// Where an enemy `e`, already one frame older, stands after this frame's
/// heading change and movement.
pub open spec fn enemy_moved(e: Entity, seed: u8, snap: GameView) -> Entity {
    let r = enemy_random(snap.time, e.x, e.y);
    let phase = (seed + e.age) % 60;
    let v = if phase == 0 {
        Entity {
            dx: if r & 0x10 != 0 { 1i8 } else { -1i8 },
            dy: if r & 0x01 != 0 { 1i8 } else { -1i8 },
            ..e
        }
    } else if phase == 30 || touches_wall(e) {
        Entity { dx: 0, dy: 0, ..e }
    } else {
        e
    };
    v.moved()
}

/// A hit found by the scan is a player's bullet colliding with `e`.
pub proof fn lemma_first_hit_from(e: Entity, s: Seq<Entity>, i: int)
    requires
        0 <= i <= s.len(),
    ensures
        first_hit_from(e, s, i) matches Some(b) ==> hit_by_player_bullet(e, b),
    decreases s.len() - i,
{
    if i < s.len() && !hit_by_player_bullet(e, s[i]) {
        lemma_first_hit_from(e, s, i + 1);
    }
}

/// An enemy's step. Its phase is `(seed + age) % 60`: at phase 0 it takes a
/// random diagonal heading, fires, and hurts the player it stands on; at
/// phase 30 or on a wall it stops. A player's bullet touching it destroys it
/// and is destroyed too: the commit is asked to remove that bullet as its own
/// step in this sweep leaves it.
pub open spec fn enemy_step(e: Entity, seed: u8, aims: bool, snap: GameView) -> (Entity, Requests) {
    let phase = (seed + e.age) % 60;
    let m = enemy_moved(e, seed, snap);
    let adds = if phase == 0 {
        seq![enemy_bullet(m, aims, snap.player_x, snap.player_y)]
    } else {
        seq![]
    };
    let events = if phase == 0 && touches_player_spec(m, snap.player_x, snap.player_y) {
        seq![GameEvent::PlayerHurt]
    } else {
        seq![]
    };
    match first_hit_from(m, snap.entities, 0) {
        Some(b) => (
            empty_entity(),
            Requests { adds, removes: seq![bullet_step(b, true, snap).0], events },
        ),
        None => (m, Requests { adds, removes: seq![], events }),
    }
}

/// A power-up's step: age, bounce off the walls, move, vanish once it has
/// lived 900 frames, and be picked up by the player it touches.
pub open spec fn powerup_step(p: Entity, snap: GameView) -> (Entity, Requests) {
    let e = aged(p);
    let dx = if (e.x == 0 && e.dx < 0) || (e.x == 160 && e.dx > 0) {
        reflect_spec(e.dx)
    } else {
        e.dx
    };
    let dy = if (e.y == 0 && e.dy < 0) || (e.y == 160 && e.dy > 0) {
        reflect_spec(e.dy)
    } else {
        e.dy
    };
    let m = (Entity { dx, dy, ..e }).moved();
    let n = if p.age >= 900 {
        empty_entity()
    } else {
        m
    };
    if touches_player_spec(n, snap.player_x, snap.player_y) {
        (empty_entity(), Requests { events: seq![GameEvent::PowerUp], ..no_requests() })
    } else {
        (n, no_requests())
    }
}

/// One entity's step against the frozen snapshot `snap` of the game.
pub open spec fn entity_step(e: Entity, snap: GameView) -> (Entity, Requests) {
    let a = aged(e);
    match a.entity_type {
        EntityType::Empty => (a, no_requests()),
        EntityType::Bullet { player } => bullet_step(e, player, snap),
        EntityType::BasicEnemy { seed, aims } => enemy_step(a, seed, aims, snap),
        EntityType::PowerUp => powerup_step(e, snap),
    }
}

/// The component `a` of the vector `(a, b)` scaled to length 2, truncated
/// toward zero.
pub fn aim_component(a: i32, b: i32) -> (r: i8)
    requires
        -255 <= a <= 255,
        -255 <= b <= 255,
    ensures
        r == aim_spec(a as int, b as int),
        -2 <= r <= 2,
        r * a >= 0,
        r * r * (a * a + b * b) <= 4 * a * a,
        r >= 0 ==> 4 * a * a <= (r + 1) * (r + 1) * (a * a + b * b),
        r < 0 ==> 4 * a * a <= (r - 1) * (r - 1) * (a * a + b * b),
{
    proof {
        assert(0 <= 3 * a && 3 * a * a <= 195075 || 3 * a < 0 && 0 <= 3 * a * a <= 195075) by (
        nonlinear_arith)
            requires
                -255 <= a <= 255,
        ;
        assert(0 <= b * b <= 65025) by (nonlinear_arith)
            requires
                -255 <= a <= 255,
                -255 <= b <= 255,
        ;
    }
    let r: i8 = if a == 0 {
        0
    } else if b == 0 {
        if a > 0 {
            2
        } else {
            -2
        }
    } else if 3 * a * a > b * b {
        if a > 0 {
            1
        } else {
            -1
        }
    } else {
        0
    };
    proof {
        let (ai, bi, ri) = (a as int, b as int, r as int);
        let l = ai * ai + bi * bi;
        if ri == 0 {
            assert(4 * ai * ai <= l) by (nonlinear_arith)
                requires
                    ai == 0 || 3 * ai * ai <= bi * bi,
                    l == ai * ai + bi * bi,
            ;
            assert(ri * ri * l == 0 && (ri + 1) * (ri + 1) * l == l && 4 * ai * ai >= 0) by (
            nonlinear_arith)
                requires
                    ri == 0,
            ;
        } else if ri == 2 || ri == -2 {
            assert(ri * ri * l <= 4 * ai * ai && 4 * ai * ai <= 9 * l) by (nonlinear_arith)
                requires
                    bi == 0,
                    ri == 2 || ri == -2,
                    l == ai * ai + bi * bi,
            ;
            assert(ri == 2 ==> (ri + 1) * (ri + 1) == 9);
            assert(ri == -2 ==> (ri - 1) * (ri - 1) == 9);
        } else {
            assert(ri * ri * l <= 4 * ai * ai && 4 * ai * ai <= 4 * l) by (nonlinear_arith)
                requires
                    3 * ai * ai > bi * bi,
                    ri == 1 || ri == -1,
                    l == ai * ai + bi * bi,
                    bi * bi >= 0,
            ;
            assert(ri == 1 ==> (ri + 1) * (ri + 1) == 4);
            assert(ri == -1 ==> (ri - 1) * (ri - 1) == 4);
        }
        assert(ri * ri * l <= 4 * ai * ai);
        assert(r * r * (a * a + b * b) == ri * ri * l);
        assert(ri * ai >= 0) by (nonlinear_arith)
            requires
                ri == 0 || (ri > 0 && ai > 0) || (ri < 0 && ai < 0),
        ;
    }
    r
}

/// A velocity component reversed.
pub fn reflect(d: i8) -> (r: i8)
    ensures
        r == reflect_spec(d),
{
    if d == -128 {
        127
    } else {
        -d
    }
}

/// Whether `entity` is live and overlaps the player of `state`.
pub fn collides_with_player(entity: &Entity, state: &GameState) -> (r: bool)
    ensures
        r == touches_player_spec(*entity, state@.player_x, state@.player_y),
{
    !entity.is_empty() && overlap(
        entity.x,
        entity.y,
        entity.size / 2,
        state.player_x(),
        state.player_y(),
        PLAYER_HALF,
    )
}

/// The first player's bullet of `pool` that `entity` collides with.
fn find_hit(entity: &Entity, pool: &[Entity; 64]) -> (r: Option<Entity>)
    ensures
        r == first_hit_from(*entity, pool@, 0),
{
    let mut i: usize = 0;
    while i < POOL_SIZE
        invariant
            0 <= i <= POOL_SIZE,
            pool@.len() == POOL_SIZE,
            first_hit_from(*entity, pool@, 0) == first_hit_from(*entity, pool@, i as int),
        decreases POOL_SIZE - i,
    {
        let b = pool[i];
        if b.entity_type == (EntityType::Bullet { player: true }) && collides(entity, &b) {
            return Some(b);
        }
        i += 1;
    }
    None
}

/// A bullet's step against the frozen snapshot of the game.
fn update_bullet(bullet: Entity, player: bool, state_snapshot: &GameState) -> (r: (
    Entity,
    ChangeRequests,
))
    ensures
        (r.0, r.1@) == bullet_step(bullet, player, state_snapshot@),
{
    let mut change_requests = ChangeRequests {
        entities_to_add: Vec::new(),
        entities_to_remove: Vec::new(),
        events: Vec::new(),
    };
    let mut new_entity = bullet;
    new_entity.age = new_entity.age.wrapping_add(1);
    new_entity.update_movement();
    if bullet.age >= 200 || entity_collides_with_wall(&new_entity) {
        new_entity = Entity::empty();
    }
    if !player && collides_with_player(&new_entity, state_snapshot) {
        new_entity = Entity::empty();
        change_requests.events.push(GameEvent::PlayerHurt);
    }
    assert(change_requests@ == bullet_step(bullet, player, state_snapshot@).1);
    (new_entity, change_requests)
}

impl Entity {
    /// One step of this entity against the frozen snapshot of the game: the
    /// entity that replaces it and what it asks of the commit phase.
    pub fn update(self, state_snapshot: &GameState) -> (r: (Entity, ChangeRequests))
        ensures
            (r.0, r.1@) == entity_step(self, state_snapshot@),
    {
        let mut change_requests = ChangeRequests {
            entities_to_add: Vec::new(),
            entities_to_remove: Vec::new(),
            events: Vec::new(),
        };
        let mut new_entity = self;
        new_entity.age = new_entity.age.wrapping_add(1);
        let ghost snap = state_snapshot@;
        let ghost a = new_entity;
        assert(a == aged(self));
        match new_entity.entity_type {
            EntityType::Empty => {
                assert(change_requests@ == no_requests());
            },
            EntityType::Bullet { player } => {
                return update_bullet(self, player, state_snapshot);
            },
            EntityType::BasicEnemy { seed, aims } => {
                let random = next_random(
                    state_snapshot.get_random() ^ (new_entity.x as u32 * 651) ^ (
                    new_entity.y as u32 * 474),
                );
                let phase: u32 = (seed as u32 + new_entity.age as u32) % 60;
                if phase == 0 {
                    new_entity.dx = if random & 0x10 != 0 {
                        1
                    } else {
                        -1
                    };
                    new_entity.dy = if random & 0x01 != 0 {
                        1
                    } else {
                        -1
                    };
                } else if phase == 30 || entity_collides_with_wall(&new_entity) {
                    new_entity.dx = 0;
                    new_entity.dy = 0;
                }
                new_entity.update_movement();
                if phase == 0 {
                    let (ax, ay): (i32, i32) = if aims {
                        (
                            state_snapshot.player_x() as i32 - new_entity.x as i32,
                            state_snapshot.player_y() as i32 - new_entity.y as i32,
                        )
                    } else {
                        (0, 1)
                    };
                    change_requests.entities_to_add.push(
                        Entity {
                            x: new_entity.x,
                            y: new_entity.y,
                            size: 1,
                            dx: aim_component(ax, ay),
                            dy: aim_component(ay, ax),
                            age: 0,
                            entity_type: EntityType::Bullet { player: false },
                        },
                    );
                    if collides_with_player(&new_entity, state_snapshot) {
                        change_requests.events.push(GameEvent::PlayerHurt);
                    }
                }
                match find_hit(&new_entity, state_snapshot.entities()) {
                    Some(b) => {
                        new_entity = Entity::empty();
                        let (spent, _) = update_bullet(b, true, state_snapshot);
                        change_requests.entities_to_remove.push(spent);
                    },
                    None => {},
                }
                assert(change_requests@ == enemy_step(a, seed, aims, snap).1);
            },
            EntityType::PowerUp => {
                if new_entity.x == 0 && new_entity.dx < 0 || new_entity.x == 160 && new_entity.dx
                    > 0 {
                    new_entity.dx = reflect(new_entity.dx);
                }
                if new_entity.y == 0 && new_entity.dy < 0 || new_entity.y == 160 && new_entity.dy
                    > 0 {
                    new_entity.dy = reflect(new_entity.dy);
                }
                new_entity.update_movement();
                if self.age >= 900 {
                    new_entity = Entity::empty();
                }
                if collides_with_player(&new_entity, state_snapshot) {
                    new_entity = Entity::empty();
                    change_requests.events.push(GameEvent::PowerUp);
                }
                assert(change_requests@ == powerup_step(self, snap).1);
            },
        }
        (new_entity, change_requests)
    }
}

} // verus!
