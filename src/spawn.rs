//! The spawn scheduler's rules: enemy waves on a difficulty-derived interval
//! and a power-up every 600 frames.
use vstd::prelude::*;

use crate::entity::{Entity, EntityType};
use crate::game::GameView;
use crate::pool::{add_all, enemy_count, lemma_add_all_counts, live_count, POOL_SIZE};
use crate::rng::next_random_spec;

verus! {

/// Frames between two enemy waves: `600 - 5 * difficulty^2`, held in `[1, 600]`.
pub open spec fn spawn_interval_spec(difficulty: u8) -> u16 {
    let v = 600 - 5 * difficulty * difficulty;
    if v < 1 {
        1
    } else {
        v as u16
    }
}

pub fn spawn_interval(difficulty: u8) -> (r: u16)
    ensures
        r == spawn_interval_spec(difficulty),
        1 <= r <= 600,
{
    let d: u32 = difficulty as u32;
    assert(5 * d * d <= 325125) by (nonlinear_arith)
        requires
            d <= 255,
    ;
    let p: u32 = 5 * d * d;
    if p >= 600 {
        1
    } else {
        (600 - p) as u16
    }
}

/// The generator advanced `k` times from `seed`.
pub open spec fn rng_iter(seed: u32, k: nat) -> u32
    decreases k,
{
    if k == 0 {
        seed
    } else {
        next_random_spec(rng_iter(seed, (k - 1) as nat))
    }
}

/// Number of enemies in the wave spawned at `time`.
pub open spec fn wave_size(time: u32, difficulty: u8) -> nat {
    (next_random_spec(time) % 6) as nat + (6 * difficulty / 10) as nat
}

pub open spec fn basic_enemy(x: u8, seed: u8, aims: bool) -> Entity {
    Entity {
        x,
        y: 10,
        size: 8,
        dx: 0,
        dy: 0,
        age: 0,
        entity_type: EntityType::BasicEnemy { seed, aims },
    }
}

/// The enemies of the wave spawned at `time`, evenly spaced across the
/// field, each seeded by a further step of the generator; they aim from
/// difficulty 7 on.
pub open spec fn wave(time: u32, difficulty: u8) -> Seq<Entity> {
    let n = wave_size(time, difficulty);
    let r0 = next_random_spec(time);
    Seq::new(
        n,
        |i: int|
            basic_enemy((i * (160int / (n as int))) as u8, rng_iter(r0, i as nat) as u8, difficulty > 6),
    )
}

/// The power-up placed and launched from the random value `r`.
pub open spec fn powerup_at(r: u32) -> Entity {
    Entity {
        x: ((r as u8) % 140 + 10) as u8,
        y: (((r >> 8u32) as u8) % 100 + 10) as u8,
        size: 8,
        dx: (((r >> 16u32) as u8) % 3 - 1) as i8,
        dy: (((r >> 24u32) as u8) % 3 - 1) as i8,
        age: 0,
        entity_type: EntityType::PowerUp,
    }
}

/// What the spawn scheduler adds at `time`: on each multiple of the spawn
/// interval a wave; on each multiple of 600 a power-up after it, placed from
/// the generator's value once the wave's seeds have been drawn.
pub open spec fn spawns(time: u32, difficulty: u8) -> Seq<Entity> {
    let r0 = next_random_spec(time);
    let wave_due = (time as int) % (spawn_interval_spec(difficulty) as int) == 0;
    let enemies = if wave_due {
        wave(time, difficulty)
    } else {
        seq![]
    };
    let after = if wave_due {
        rng_iter(r0, wave_size(time, difficulty))
    } else {
        r0
    };
    enemies + if time % 600 == 0 {
        seq![powerup_at(after)]
    } else {
        seq![]
    }
}

pub open spec fn spawn_step(s: GameView) -> GameView {
    GameView { entities: add_all(s.entities, spawns(s.time, s.difficulty)), ..s }
}

/// The size of a wave: the generator's value at the clock modulo 6, plus
/// six tenths of the difficulty rounded down.
pub proof fn lemma_wave_size(time: u32, difficulty: u8)
    ensures
        wave(time, difficulty).len() == next_random_spec(time) % 6 + (6 * difficulty) / 10,
{
}

/// A sequence made only of enemies counts each of its entries.
proof fn lemma_enemy_count_all(es: Seq<Entity>)
    requires
        forall|i: int| 0 <= i < es.len() ==> es[i].entity_type is BasicEnemy,
    ensures
        enemy_count(es) == es.len(),
    decreases es.len(),
{
    if es.len() > 0 {
        lemma_enemy_count_all(es.drop_last());
        assert(es.last() == es[es.len() - 1]);
    }
}

/// On a frame whose clock is a multiple of the spawn interval, with room in
/// the pool for the wave and a power-up, the spawn scheduler adds exactly
/// `(next_random(time) % 6) + floor(6 * difficulty / 10)` enemies.
pub proof fn lemma_wave_adds_enemies(s: GameView)
    requires
        s.entities.len() == POOL_SIZE,
        (s.time as int) % (spawn_interval_spec(s.difficulty) as int) == 0,
        live_count(s.entities) + wave_size(s.time, s.difficulty) + 1 <= POOL_SIZE,
    ensures
        enemy_count(spawn_step(s).entities) == enemy_count(s.entities) + next_random_spec(s.time) % 6
            + (6 * s.difficulty) / 10,
{
    let w = wave(s.time, s.difficulty);
    let sp = spawns(s.time, s.difficulty);
    lemma_enemy_count_all(w);
    if s.time % 600 == 0 {
        let after = rng_iter(next_random_spec(s.time), wave_size(s.time, s.difficulty));
        assert(sp =~= w.push(powerup_at(after)));
        assert(sp.drop_last() =~= w);
    } else {
        assert(sp =~= w);
    }
    assert forall|i: int| 0 <= i < sp.len() implies sp[i].is_live() by {
        if i < w.len() {
            assert(sp[i] == w[i]);
        }
    }
    lemma_add_all_counts(s.entities, sp);
}

} // verus!
