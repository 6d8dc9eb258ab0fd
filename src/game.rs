//! The game proper: the state of a running game and its per-frame transition.
use vstd::prelude::*;

use crate::behavior::{
    aged, bullet_step, enemy_moved, entity_step, first_hit_from, lemma_first_hit_from, no_requests, Requests,
};
use crate::entity::{empty_entity, step, step_coord, Entity, EntityType, GameEvent};
use crate::input::{is_pressed, pressed, BUTTON_1, BUTTON_DOWN, BUTTON_LEFT, BUTTON_RIGHT, BUTTON_UP};
use crate::lose::{LoseState, LoseView};
use crate::pool::{
    add_all, add_one, first_free, lemma_add_all_push, lemma_first_free_from, lemma_free_iff_not_full,
    lemma_add_all_avoids, lemma_live_count_fill, lemma_live_count_full, lemma_remove_all_clears,
    lemma_remove_all_frees, live_count, pool_add, pool_remove, remove_all,
    POOL_SIZE,
};
use crate::rng::{next_random, next_random_spec};
use crate::spawn::{
    powerup_at, rng_iter, spawn_interval, spawn_interval_spec, spawn_step, spawns, wave,
};
use crate::State;

verus! {

/// Frames during which a further hit is ignored after one has registered.
pub const HURT_COOLDOWN: u8 = 90;

/// A running game.
#[derive(Clone, Copy)]
pub struct GameState {
    player_x: u8,
    player_y: u8,
    player_dx: i8,
    player_dy: i8,
    player_health: u8,
    player_hurt_cooldown: u8,
    time: u32,
    difficulty: u8,
    entity_spawn_interval: u16,
    entities: [Entity; 64],
}

/// The mathematical model of a running game.
pub struct GameView {
    pub player_x: u8,
    pub player_y: u8,
    pub player_dx: i8,
    pub player_dy: i8,
    pub health: u8,
    pub hurt_cooldown: u8,
    pub time: u32,
    pub difficulty: u8,
    pub entities: Seq<Entity>,
}

impl View for GameState {
    type V = GameView;

    closed spec fn view(&self) -> GameView {
        GameView {
            player_x: self.player_x,
            player_y: self.player_y,
            player_dx: self.player_dx,
            player_dy: self.player_dy,
            health: self.player_health,
            hurt_cooldown: self.player_hurt_cooldown,
            time: self.time,
            difficulty: self.difficulty,
            entities: self.entities@,
        }
    }
}

/// A game as it starts at the given difficulty.
pub open spec fn new_game_view(difficulty: u8) -> GameView {
    GameView {
        player_x: 80,
        player_y: 100,
        player_dx: 0,
        player_dy: 0,
        health: 2,
        hurt_cooldown: 0,
        time: 0,
        difficulty,
        entities: Seq::new(POOL_SIZE as nat, |i: int| empty_entity()),
    }
}

/// Health and hurt cooldown after one event.
pub open spec fn apply_event_spec(health: u8, cooldown: u8, event: GameEvent) -> (u8, u8) {
    match event {
        GameEvent::PlayerHurt => if cooldown == 0 {
            (if health == 0 { 0 } else { (health - 1) as u8 }, HURT_COOLDOWN)
        } else {
            (health, cooldown)
        },
        GameEvent::PowerUp => (if health == 255 { 255 } else { (health + 1) as u8 }, cooldown),
    }
}

/// Health and hurt cooldown after the events of `events`, in order.
pub open spec fn apply_events_spec(health: u8, cooldown: u8, events: Seq<GameEvent>) -> (u8, u8)
    decreases events.len(),
{
    if events.len() == 0 {
        (health, cooldown)
    } else {
        let (h, c) = apply_events_spec(health, cooldown, events.drop_last());
        apply_event_spec(h, c, events.last())
    }
}

/// Direction of one axis read from one gamepad byte: +1, -1 or 0.
pub open spec fn axis_spec(gamepad: u8, negative: u8, positive: u8) -> int {
    (if pressed(gamepad, positive) {
        1int
    } else {
        0int
    }) - (if pressed(gamepad, negative) {
        1int
    } else {
        0int
    })
}

/// A bullet fired by the player standing at `(x, y)`.
pub open spec fn player_bullet(x: u8, y: u8, dx: i8) -> Entity {
    Entity {
        x,
        y: if y < 3 { 0 } else { (y - 3) as u8 },
        size: 1,
        dx,
        dy: -3i8,
        age: 0,
        entity_type: EntityType::Bullet { player: true },
    }
}

/// The bullets the player fires at `time` with the fire button held: one
/// every 30 frames at health 1, one every 10 frames at health 2, and three
/// (straight, left and right) every 10 frames from health 3 on.
pub open spec fn player_shots(health: u8, time: u32, x: u8, y: u8) -> Seq<Entity> {
    if health == 1 && time % 30 == 0 {
        seq![player_bullet(x, y, 0)]
    } else if health == 2 && time % 10 == 0 {
        seq![player_bullet(x, y, 0)]
    } else if health >= 3 && time % 10 == 0 {
        seq![player_bullet(x, y, 0), player_bullet(x, y, -1i8), player_bullet(x, y, 1)]
    } else {
        seq![]
    }
}

/// The player controller's step: velocity read from both the current and the
/// previous gamepad byte, movement, and firing.
pub open spec fn player_step(s: GameView, gamepad: u8, last_gamepad: u8) -> GameView {
    let dx = axis_spec(gamepad, BUTTON_LEFT, BUTTON_RIGHT) + axis_spec(
        last_gamepad,
        BUTTON_LEFT,
        BUTTON_RIGHT,
    );
    let dy = axis_spec(gamepad, BUTTON_UP, BUTTON_DOWN) + axis_spec(
        last_gamepad,
        BUTTON_UP,
        BUTTON_DOWN,
    );
    let x = step_coord(s.player_x, dx as i8);
    let y = step_coord(s.player_y, dy as i8);
    GameView {
        player_x: x,
        player_y: y,
        player_dx: dx as i8,
        player_dy: dy as i8,
        hurt_cooldown: if s.hurt_cooldown == 0 { 0 } else { (s.hurt_cooldown - 1) as u8 },
        entities: if pressed(gamepad, BUTTON_1) {
            add_all(s.entities, player_shots(s.health, s.time, x, y))
        } else {
            s.entities
        },
        ..s
    }
}

/// The requests of the first `n` slots of `snap`, each list in slot order.
pub open spec fn collected(snap: GameView, n: int) -> Requests
    decreases n,
{
    if n <= 0 {
        no_requests()
    } else {
        let r = collected(snap, n - 1);
        let q = entity_step(snap.entities[n - 1], snap).1;
        Requests {
            adds: r.adds + q.adds,
            removes: r.removes + q.removes,
            events: r.events + q.events,
        }
    }
}

/// Every slot of `snap` replaced by its step against `snap`.
pub open spec fn swept(snap: GameView) -> Seq<Entity> {
    Seq::new(snap.entities.len(), |j: int| entity_step(snap.entities[j], snap).0)
}

/// The entity sweep and its commit: every slot steps against the same
/// snapshot; then all removals, then all additions, then all events apply.
pub open spec fn sweep_spec(snap: GameView) -> GameView {
    let req = collected(snap, snap.entities.len() as int);
    let hc = apply_events_spec(snap.health, snap.hurt_cooldown, req.events);
    GameView {
        entities: add_all(remove_all(swept(snap), req.removes), req.adds),
        health: hc.0,
        hurt_cooldown: hc.1,
        ..snap
    }
}

/// One frame of a running game: spawning, the clock's tick, the player's
/// step, then the entity sweep and its commit.
pub open spec fn frame_spec(s: GameView, gamepad: u8, last_gamepad: u8) -> GameView {
    let a = spawn_step(s);
    sweep_spec(player_step(GameView { time: (a.time + 1) as u32, ..a }, gamepad, last_gamepad))
}

/// The state after one frame from `s`: the game goes on while the player has
/// health left, and otherwise ends with the clock as the score.
pub open spec fn game_outcome(s: GameView, gamepad: u8, last_gamepad: u8, r: State) -> bool {
    let f = frame_spec(s, gamepad, last_gamepad);
    if f.health == 0 {
        r matches State::Lose(l) && l@ == (LoseView { score: f.time, pressed: false })
    } else {
        r matches State::Game(g) && g@ == f
    }
}

impl GameState {
    #[verifier::type_invariant]
    spec fn inv(self) -> bool {
        self.entity_spawn_interval == spawn_interval_spec(self.difficulty)
    }

    /// A new game at `difficulty`: the player at (80, 100) with health 2,
    /// the clock at 0 and every slot free.
    pub fn new(difficulty: u8) -> (r: Self)
        ensures
            r@ == new_game_view(difficulty),
    {
        let empty = Entity::empty();
        let state = Self {
            player_x: 80,
            player_y: 100,
            player_dx: 0,
            player_dy: 0,
            player_health: 2,
            player_hurt_cooldown: 0,
            time: 0,
            difficulty,
            entity_spawn_interval: spawn_interval(difficulty),
            entities: [empty; 64],
        };
        assert(state@.entities =~= new_game_view(difficulty).entities);
        state
    }

    pub fn player_x(&self) -> (r: u8)
        ensures
            r == self@.player_x,
    {
        self.player_x
    }

    pub fn player_y(&self) -> (r: u8)
        ensures
            r == self@.player_y,
    {
        self.player_y
    }

    pub fn player_dx(&self) -> (r: i8)
        ensures
            r == self@.player_dx,
    {
        self.player_dx
    }

    pub fn player_dy(&self) -> (r: i8)
        ensures
            r == self@.player_dy,
    {
        self.player_dy
    }

    pub fn player_health(&self) -> (r: u8)
        ensures
            r == self@.health,
    {
        self.player_health
    }

    pub fn player_hurt_cooldown(&self) -> (r: u8)
        ensures
            r == self@.hurt_cooldown,
    {
        self.player_hurt_cooldown
    }

    pub fn time(&self) -> (r: u32)
        ensures
            r == self@.time,
    {
        self.time
    }

    pub fn difficulty(&self) -> (r: u8)
        ensures
            r == self@.difficulty,
    {
        self.difficulty
    }

    pub fn entity_spawn_interval(&self) -> (r: u16)
        ensures
            r == spawn_interval_spec(self@.difficulty),
    {
        proof {
            use_type_invariant(self);
        }
        self.entity_spawn_interval
    }

    /// Every slot of the pool, borrowed.
    pub fn entities(&self) -> (r: &[Entity; 64])
        ensures
            r@ == self@.entities,
    {
        &self.entities
    }

    /// Number of live slots.
    pub fn live_entities(&self) -> (r: usize)
        ensures
            r == live_count(self@.entities),
            r <= POOL_SIZE,
    {
        let mut n: usize = 0;
        let mut i: usize = 0;
        while i < POOL_SIZE
            invariant
                0 <= i <= POOL_SIZE,
                self.entities@.len() == POOL_SIZE,
                n == live_count(self.entities@.take(i as int)),
                n <= i,
            decreases POOL_SIZE - i,
        {
            assert(self.entities@.take(i as int + 1).drop_last() =~= self.entities@.take(i as int));
            if !self.entities[i].is_empty() {
                n += 1;
            }
            i += 1;
        }
        assert(self.entities@.take(POOL_SIZE as int) =~= self.entities@);
        n
    }

    /// Adds `entity` in the first free slot; false, with nothing changed,
    /// exactly when all slots are live.
    pub fn add_entity(&mut self, entity: Entity) -> (r: bool)
        ensures
            final(self)@ == (GameView { entities: add_one(old(self)@.entities, entity), ..old(self)@ }),
            r == (live_count(old(self)@.entities) < POOL_SIZE),
            !r <==> forall|i: int| 0 <= i < POOL_SIZE ==> old(self)@.entities[i].is_live(),
            live_count(final(self)@.entities) <= POOL_SIZE,
            r && entity.is_live() ==> live_count(final(self)@.entities) == live_count(
                old(self)@.entities,
            ) + 1,
            !r ==> final(self)@ == old(self)@,
    {
        proof {
            use_type_invariant(&*self);
        }
        let ghost s = self.entities@;
        let mut pool = self.entities;
        let r = pool_add(&mut pool, entity);
        self.entities = pool;
        proof {
            lemma_free_iff_not_full(s);
            lemma_first_free_from(s, 0);
            lemma_live_count_full(self.entities@);
            if r && entity.is_live() {
                lemma_live_count_fill(s, first_free(s)->Some_0, entity);
            }
        }
        r
    }

    /// Applies one event to the player's health.
    pub fn apply_event(&mut self, event: GameEvent)
        ensures
            final(self)@ == (GameView {
                health: apply_event_spec(old(self)@.health, old(self)@.hurt_cooldown, event).0,
                hurt_cooldown: apply_event_spec(
                    old(self)@.health,
                    old(self)@.hurt_cooldown,
                    event,
                ).1,
                ..old(self)@
            }),
    {
        proof {
            use_type_invariant(&*self);
        }
        match event {
            GameEvent::PlayerHurt => {
                if self.player_hurt_cooldown == 0 {
                    self.player_health = self.player_health.saturating_sub(1);
                    self.player_hurt_cooldown = HURT_COOLDOWN;
                }
            },
            GameEvent::PowerUp => {
                self.player_health = self.player_health.saturating_add(1);
            },
        }
    }

    /// The entity sweep against a snapshot of this state, then the commit.
    pub fn with_updated_entities(&self) -> (r: GameState)
        ensures
            r@ == sweep_spec(self@),
    {
        proof {
            use_type_invariant(self);
        }
        let ghost snap = self@;
        let mut pool = self.entities;
        let mut adds: Vec<Entity> = Vec::new();
        let mut removes: Vec<Entity> = Vec::new();
        let mut events: Vec<GameEvent> = Vec::new();
        let mut i: usize = 0;
        while i < POOL_SIZE
            invariant
                0 <= i <= POOL_SIZE,
                snap == self@,
                snap.entities.len() == POOL_SIZE,
                pool@.len() == POOL_SIZE,
                forall|j: int| 0 <= j < i ==> pool@[j] == entity_step(snap.entities[j], snap).0,
                forall|j: int| i <= j < POOL_SIZE ==> pool@[j] == snap.entities[j],
                adds@ == collected(snap, i as int).adds,
                removes@ == collected(snap, i as int).removes,
                events@ == collected(snap, i as int).events,
            decreases POOL_SIZE - i,
        {
            let (e, mut req) = self.entities[i].update(self);
            pool[i] = e;
            adds.append(&mut req.entities_to_add);
            removes.append(&mut req.entities_to_remove);
            events.append(&mut req.events);
            i += 1;
        }
        assert(pool@ =~= swept(snap));
        let ghost all = collected(snap, POOL_SIZE as int);

        let mut k: usize = 0;
        while k < removes.len()
            invariant
                0 <= k <= removes@.len(),
                removes@ == all.removes,
                pool@ == remove_all(swept(snap), removes@.take(k as int)),
            decreases removes@.len() - k,
        {
            proof {
                assert(removes@.take(k as int + 1).drop_last() =~= removes@.take(k as int));
            }
            pool_remove(&mut pool, &removes[k]);
            k += 1;
        }
        assert(removes@.take(removes@.len() as int) =~= removes@);
        let ghost removed = pool@;

        let mut k: usize = 0;
        while k < adds.len()
            invariant
                0 <= k <= adds@.len(),
                adds@ == all.adds,
                pool@ == add_all(removed, adds@.take(k as int)),
            decreases adds@.len() - k,
        {
            proof {
                assert(adds@.take(k as int + 1).drop_last() =~= adds@.take(k as int));
            }
            pool_add(&mut pool, adds[k]);
            k += 1;
        }
        assert(adds@.take(adds@.len() as int) =~= adds@);

        let mut new_state = *self;
        new_state.entities = pool;
        let mut k: usize = 0;
        while k < events.len()
            invariant
                0 <= k <= events@.len(),
                events@ == all.events,
                new_state@ == (GameView {
                    health: apply_events_spec(
                        snap.health,
                        snap.hurt_cooldown,
                        events@.take(k as int),
                    ).0,
                    hurt_cooldown: apply_events_spec(
                        snap.health,
                        snap.hurt_cooldown,
                        events@.take(k as int),
                    ).1,
                    entities: pool@,
                    ..snap
                }),
            decreases events@.len() - k,
        {
            proof {
                assert(events@.take(k as int + 1).drop_last() =~= events@.take(k as int));
            }
            new_state.apply_event(events[k]);
            k += 1;
        }
        assert(events@.take(events@.len() as int) =~= events@);
        new_state
    }

    /// The generator's value at the current clock.
    pub fn get_random(&self) -> (r: u32)
        ensures
            r == next_random_spec(self@.time),
    {
        next_random(self.time)
    }

    /// The spawn scheduler's step.
    pub fn spawn_new_entities(&mut self)
        ensures
            final(self)@ == spawn_step(old(self)@),
    {
        proof {
            use_type_invariant(&*self);
        }
        let ghost s0 = self@;
        let ghost r0 = next_random_spec(s0.time);
        let mut random = self.get_random();
        let ghost mut enemies: Seq<Entity> = seq![];
        if self.time % self.entity_spawn_interval as u32 == 0 {
            let enemy_count: u8 = (random % 6) as u8 + (6 * self.difficulty as u32 / 10) as u8;
            let ghost w = wave(s0.time, s0.difficulty);
            assert(w.len() == enemy_count);
            assert(w.take(0) =~= seq![]);
            if enemy_count > 0 {
                let x_increment: u8 = 160u8 / enemy_count;
                let mut i: u8 = 0;
                while i < enemy_count
                    invariant
                        0 <= i <= enemy_count,
                        enemy_count > 0,
                        x_increment == 160int / (enemy_count as int),
                        w.len() == enemy_count,
                        w == wave(s0.time, s0.difficulty),
                        r0 == next_random_spec(s0.time),
                        random == rng_iter(r0, i as nat),
                        self@ == (GameView { entities: add_all(s0.entities, w.take(i as int)), ..s0 }),
                    decreases enemy_count - i,
                {
                    proof {
                        use_type_invariant(&*self);
                        assert(i * x_increment <= 160) by (nonlinear_arith)
                            requires
                                i < enemy_count,
                                x_increment == 160int / (enemy_count as int),
                                enemy_count > 0,
                        ;
                        assert(w.take(i as int + 1) =~= w.take(i as int).push(w[i as int]));
                        lemma_add_all_push(s0.entities, w.take(i as int), w[i as int]);
                    }
                    self.add_entity(
                        Entity {
                            x: i * x_increment,
                            y: 10,
                            size: 8,
                            dx: 0,
                            dy: 0,
                            age: 0,
                            entity_type: EntityType::BasicEnemy {
                                seed: random as u8,
                                aims: self.difficulty > 6,
                            },
                        },
                    );
                    random = next_random(random);
                    i += 1;
                }
            }
            assert(w.take(w.len() as int) =~= w);
            proof {
                enemies = w;
            }
        }
        proof {
            use_type_invariant(&*self);
        }
        assert(self@ == (GameView { entities: add_all(s0.entities, enemies), ..s0 }));
        if self.time % 600 == 0 {
            let p = Entity {
                x: (random as u8 % 140) + 10,
                y: ((random >> 8u32) as u8 % 100) + 10,
                size: 8,
                dx: ((random >> 16u32) as u8 % 3) as i8 - 1,
                dy: ((random >> 24u32) as u8 % 3) as i8 - 1,
                age: 0,
                entity_type: EntityType::PowerUp,
            };
            assert(p == powerup_at(random));
            self.add_entity(p);
            proof {
                lemma_add_all_push(s0.entities, enemies, p);
                assert(enemies.push(p) =~= spawns(s0.time, s0.difficulty));
            }
        } else {
            assert(enemies + seq![] =~= spawns(s0.time, s0.difficulty));
            assert(enemies + seq![] =~= enemies);
        }
    }

    fn update_movement_from_gamepad(&mut self, gamepad: u8)
        requires
            i8::MIN < old(self).player_dx < i8::MAX,
            i8::MIN < old(self).player_dy < i8::MAX,
        ensures
            final(self).player_dx == old(self).player_dx + axis_spec(
                gamepad,
                BUTTON_LEFT,
                BUTTON_RIGHT,
            ),
            final(self).player_dy == old(self).player_dy + axis_spec(gamepad, BUTTON_UP, BUTTON_DOWN),
            final(self).player_x == old(self).player_x,
            final(self).player_y == old(self).player_y,
            final(self).player_health == old(self).player_health,
            final(self).player_hurt_cooldown == old(self).player_hurt_cooldown,
            final(self).time == old(self).time,
            final(self).difficulty == old(self).difficulty,
            final(self).entities == old(self).entities,
    {
        proof {
            use_type_invariant(&*self);
        }
        if is_pressed(gamepad, BUTTON_UP) {
            self.player_dy -= 1;
        }
        if is_pressed(gamepad, BUTTON_DOWN) {
            self.player_dy += 1;
        }
        if is_pressed(gamepad, BUTTON_LEFT) {
            self.player_dx -= 1;
        }
        if is_pressed(gamepad, BUTTON_RIGHT) {
            self.player_dx += 1;
        }
    }

    fn fire(&mut self, dx: i8)
        ensures
            final(self)@ == (GameView {
                entities: add_one(
                    old(self)@.entities,
                    player_bullet(old(self)@.player_x, old(self)@.player_y, dx),
                ),
                ..old(self)@
            }),
    {
        proof {
            use_type_invariant(&*self);
        }
        let bullet = Entity {
            x: self.player_x,
            y: self.player_y.saturating_sub(3),
            size: 1,
            dx,
            dy: -3i8,
            age: 0,
            entity_type: EntityType::Bullet { player: true },
        };
        self.add_entity(bullet);
    }

    /// The player controller's step.
    pub fn update_player(&mut self, gamepad: u8, last_gamepad: u8)
        ensures
            final(self)@ == player_step(old(self)@, gamepad, last_gamepad),
            final(self)@.player_x <= 160,
            final(self)@.player_y <= 160,
    {
        proof {
            use_type_invariant(&*self);
        }
        self.player_dx = 0;
        self.player_dy = 0;
        self.player_hurt_cooldown = self.player_hurt_cooldown.saturating_sub(1);

        self.update_movement_from_gamepad(gamepad);
        self.update_movement_from_gamepad(last_gamepad);
        proof {
            use_type_invariant(&*self);
        }

        self.player_x = step(self.player_x, self.player_dx);
        self.player_y = step(self.player_y, self.player_dy);

        let ghost s = self@;
        if is_pressed(gamepad, BUTTON_1) {
            let health = self.player_health;
            if health == 1 {
                if self.time % 30 == 0 {
                    self.fire(0);
                }
            } else if health == 2 {
                if self.time % 10 == 0 {
                    self.fire(0);
                }
            } else if health >= 3 {
                if self.time % 10 == 0 {
                    self.fire(0);
                    self.fire(-1);
                    self.fire(1);
                }
            }
            proof {
                let shots = player_shots(s.health, s.time, s.player_x, s.player_y);
                let e = s.entities;
                assert(add_all(e, seq![]) == e);
                if shots.len() == 3 {
                    assert(shots =~= seq![].push(shots[0]).push(shots[1]).push(shots[2]));
                    lemma_add_all_push(e, seq![], shots[0]);
                    lemma_add_all_push(e, seq![].push(shots[0]), shots[1]);
                    lemma_add_all_push(e, seq![].push(shots[0]).push(shots[1]), shots[2]);
                } else if shots.len() == 1 {
                    assert(shots =~= seq![].push(shots[0]));
                    lemma_add_all_push(e, seq![], shots[0]);
                }
            }
        }
    }
}

/// One frame of a running game.
pub fn update_game(state: GameState, gamepad: u8, last_gamepad: u8) -> (r: State)
    requires
        state@.time < u32::MAX,
    ensures
        game_outcome(state@, gamepad, last_gamepad, r),
{
    let mut new_state = state;
    new_state.spawn_new_entities();
    proof {
        use_type_invariant(&new_state);
    }
    new_state.time += 1;
    new_state.update_player(gamepad, last_gamepad);
    new_state = new_state.with_updated_entities();
    if new_state.player_health == 0 {
        State::Lose(LoseState::new(new_state.time))
    } else {
        State::Game(new_state)
    }
}

/// All hits that land in one commit while no cooldown runs cost exactly one
/// point of health (none below zero) and start the cooldown at 90 frames.
pub proof fn lemma_hits_debounced(health: u8, hits: nat)
    requires
        hits >= 1,
    ensures
        apply_events_spec(health, 0, Seq::new(hits, |i: int| GameEvent::PlayerHurt)) == (
            if health == 0 {
                0
            } else {
                (health - 1) as u8
            },
            HURT_COOLDOWN,
        ),
    decreases hits,
{
    let es = Seq::new(hits, |i: int| GameEvent::PlayerHurt);
    if hits == 1 {
        assert(es.drop_last() =~= seq![]);
        assert(apply_events_spec(health, 0, es.drop_last()) == (health, 0u8));
        assert(es.last() == GameEvent::PlayerHurt);
        assert(apply_events_spec(health, 0, es) == apply_event_spec(health, 0, GameEvent::PlayerHurt));
    } else {
        let rest = Seq::new((hits - 1) as nat, |i: int| GameEvent::PlayerHurt);
        lemma_hits_debounced(health, (hits - 1) as nat);
        assert(es.drop_last() =~= rest);
    }
}

/// While a cooldown runs, no event lowers health or changes the cooldown.
pub proof fn lemma_events_during_cooldown(health: u8, cooldown: u8, events: Seq<GameEvent>)
    requires
        cooldown > 0,
    ensures
        apply_events_spec(health, cooldown, events).1 == cooldown,
        apply_events_spec(health, cooldown, events).0 >= health,
    decreases events.len(),
{
    if events.len() > 0 {
        lemma_events_during_cooldown(health, cooldown, events.drop_last());
    }
}

/// A frame that starts with two or more frames of cooldown left lowers no
/// health and counts the cooldown down by one: a hit within 90 frames of the
/// one that registered is ignored.
pub proof fn lemma_frame_during_cooldown(s: GameView, gamepad: u8, last_gamepad: u8)
    requires
        s.hurt_cooldown >= 2,
    ensures
        frame_spec(s, gamepad, last_gamepad).hurt_cooldown == s.hurt_cooldown - 1,
        frame_spec(s, gamepad, last_gamepad).health >= s.health,
{
    let a = spawn_step(s);
    let c = player_step(GameView { time: (a.time + 1) as u32, ..a }, gamepad, last_gamepad);
    let req = collected(c, c.entities.len() as int);
    lemma_events_during_cooldown(c.health, c.hurt_cooldown, req.events);
}

/// A frame that starts with at most one frame of cooldown left registers a
/// hit again: when its commit holds hits and nothing else, exactly one point
/// of health goes and the cooldown restarts at 90.
pub proof fn lemma_frame_after_cooldown(s: GameView, gamepad: u8, last_gamepad: u8)
    requires
        s.hurt_cooldown <= 1,
        ({
            let a = spawn_step(s);
            let c = player_step(GameView { time: (a.time + 1) as u32, ..a }, gamepad, last_gamepad);
            let ev = collected(c, c.entities.len() as int).events;
            ev.len() >= 1 && forall|i: int| 0 <= i < ev.len() ==> ev[i] == GameEvent::PlayerHurt
        }),
    ensures
        frame_spec(s, gamepad, last_gamepad).health == (if s.health == 0 {
            0
        } else {
            s.health - 1
        }),
        frame_spec(s, gamepad, last_gamepad).hurt_cooldown == HURT_COOLDOWN,
{
    let a = spawn_step(s);
    let c = player_step(GameView { time: (a.time + 1) as u32, ..a }, gamepad, last_gamepad);
    let ev = collected(c, c.entities.len() as int).events;
    assert(ev =~= Seq::new(ev.len(), |i: int| GameEvent::PlayerHurt));
    lemma_hits_debounced(c.health, ev.len());
}

/// A bullet that has lived 200 frames or more is gone after its next step,
/// and asks nothing of the commit.
pub proof fn lemma_old_bullet_vanishes(e: Entity, snap: GameView)
    requires
        e.entity_type is Bullet,
        e.age >= 200,
    ensures
        entity_step(e, snap).0 == empty_entity(),
        entity_step(e, snap).1.adds.len() == 0,
        entity_step(e, snap).1.removes.len() == 0,
{
}

/// A running game never holds more live entities than its pool has slots.
pub proof fn lemma_live_within_capacity(g: &GameState)
    ensures
        g@.entities.len() == POOL_SIZE,
        live_count(g@.entities) <= POOL_SIZE,
{
    lemma_live_count_full(g@.entities);
}

/// A removal asked by the step of a slot below `n` is among the removals
/// collected from the first `n` slots.
proof fn lemma_collected_removes(snap: GameView, n: int, i: int, x: Entity)
    requires
        0 <= i < n <= snap.entities.len(),
        entity_step(snap.entities[i], snap).1.removes.contains(x),
    ensures
        collected(snap, n).removes.contains(x),
    decreases n,
{
    let prev = collected(snap, n - 1).removes;
    let q = entity_step(snap.entities[n - 1], snap).1.removes;
    if i == n - 1 {
        let w = choose|w: int| 0 <= w < q.len() && q[w] == x;
        assert((prev + q)[prev.len() + w] == x);
    } else {
        lemma_collected_removes(snap, n - 1, i, x);
        let w = choose|w: int| 0 <= w < prev.len() && prev[w] == x;
        assert((prev + q)[w] == x);
    }
}

/// Every entity the steps of the first `n` slots ask to add is an enemy's
/// bullet.
proof fn lemma_collected_adds(snap: GameView, n: int)
    requires
        0 <= n <= snap.entities.len(),
    ensures
        forall|k: int|
            0 <= k < collected(snap, n).adds.len() ==> collected(snap, n).adds[k].entity_type == (
            EntityType::Bullet { player: false }),
    decreases n,
{
    if n > 0 {
        lemma_collected_adds(snap, n - 1);
        let prev = collected(snap, n - 1).adds;
        let q = entity_step(snap.entities[n - 1], snap).1.adds;
        assert forall|k: int| 0 <= k < (prev + q).len() implies (prev + q)[k].entity_type == (
        EntityType::Bullet { player: false }) by {
            if k >= prev.len() {
                assert(q[k - prev.len()].entity_type == (EntityType::Bullet { player: false }));
            }
        }
    }
}

/// An enemy and the player's bullet it meets destroy each other: when the
/// enemy in slot `i` first collides with the player's bullet in slot `j`,
/// the enemy is gone after its step, and after the commit no slot holds the
/// bullet as its own step left it. (A bullet that its own step already
/// removed is gone anyway; two slots holding the very same value are the one
/// case value-matched removal cannot tell apart.)
pub proof fn lemma_hit_bullet_destroyed(snap: GameView, i: int, j: int, seed: u8, aims: bool)
    requires
        snap.entities.len() == POOL_SIZE,
        0 <= i < POOL_SIZE,
        0 <= j < POOL_SIZE,
        snap.entities[i].entity_type == (EntityType::BasicEnemy { seed, aims }),
        first_hit_from(
            enemy_moved(aged(snap.entities[i]), seed, snap),
            snap.entities,
            0,
        ) == Some(snap.entities[j]),
        swept(snap)[j].is_live(),
        forall|k: int| 0 <= k < POOL_SIZE && k != j ==> swept(snap)[k] != swept(snap)[j],
    ensures
        entity_step(snap.entities[i], snap).0 == empty_entity(),
        forall|k: int| 0 <= k < POOL_SIZE ==> sweep_spec(snap).entities[k] != swept(snap)[j],
{
    let m = enemy_moved(aged(snap.entities[i]), seed, snap);
    lemma_first_hit_from(m, snap.entities, 0);
    let b = snap.entities[j];
    let u = swept(snap)[j];
    assert(u == bullet_step(b, true, snap).0);
    let req = collected(snap, POOL_SIZE as int);
    assert(entity_step(snap.entities[i], snap).1.removes[0] == u);
    lemma_collected_removes(snap, POOL_SIZE as int, i, u);
    lemma_remove_all_clears(swept(snap), req.removes, u, j);
    lemma_remove_all_frees(swept(snap), req.removes);
    lemma_collected_adds(snap, POOL_SIZE as int);
    assert(b.entity_type == (EntityType::Bullet { player: true }));
    assert(u.entity_type == (EntityType::Bullet { player: true }));
    lemma_add_all_avoids(remove_all(swept(snap), req.removes), req.adds, u);
}

} // verus!
