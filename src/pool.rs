//! The fixed-capacity entity pool: first-fit insertion and removal of the
//! first live slot equal to a given value.
use vstd::prelude::*;

use crate::entity::{empty_entity, Entity};

verus! {

/// Number of slots in the pool.
pub const POOL_SIZE: usize = 64;

/// Index of the first free slot at or after `i`.
pub open spec fn first_free_from(s: Seq<Entity>, i: int) -> Option<int>
    decreases s.len() - i,
{
    if i < 0 || i >= s.len() {
        None
    } else if !s[i].is_live() {
        Some(i)
    } else {
        first_free_from(s, i + 1)
    }
}

pub open spec fn first_free(s: Seq<Entity>) -> Option<int> {
    first_free_from(s, 0)
}

/// The pool after adding `e` in its first free slot; unchanged when full.
pub open spec fn add_one(s: Seq<Entity>, e: Entity) -> Seq<Entity> {
    match first_free(s) {
        Some(i) => s.update(i, e),
        None => s,
    }
}

/// The pool after adding each entity of `es` in order.
pub open spec fn add_all(s: Seq<Entity>, es: Seq<Entity>) -> Seq<Entity>
    decreases es.len(),
{
    if es.len() == 0 {
        s
    } else {
        add_one(add_all(s, es.drop_last()), es.last())
    }
}

/// Adding a sequence extended by one entity adds that entity last.
pub proof fn lemma_add_all_push(s: Seq<Entity>, es: Seq<Entity>, e: Entity)
    ensures
        add_all(s, es.push(e)) == add_one(add_all(s, es), e),
{
    assert(es.push(e).drop_last() =~= es);
}

/// Index of the first live slot at or after `i` equal to `t`.
pub open spec fn first_equal_from(s: Seq<Entity>, t: Entity, i: int) -> Option<int>
    decreases s.len() - i,
{
    if i < 0 || i >= s.len() {
        None
    } else if s[i].is_live() && s[i] == t {
        Some(i)
    } else {
        first_equal_from(s, t, i + 1)
    }
}

/// The pool with its first live slot equal to `t` cleared; unchanged when
/// there is none.
pub open spec fn remove_one(s: Seq<Entity>, t: Entity) -> Seq<Entity> {
    match first_equal_from(s, t, 0) {
        Some(i) => s.update(i, empty_entity()),
        None => s,
    }
}

/// The pool after removing each entity of `ts` in order.
pub open spec fn remove_all(s: Seq<Entity>, ts: Seq<Entity>) -> Seq<Entity>
    decreases ts.len(),
{
    if ts.len() == 0 {
        s
    } else {
        remove_one(remove_all(s, ts.drop_last()), ts.last())
    }
}

/// Number of live slots.
pub open spec fn live_count(s: Seq<Entity>) -> nat
    decreases s.len(),
{
    if s.len() == 0 {
        0
    } else {
        live_count(s.drop_last()) + if s.last().is_live() {
            1nat
        } else {
            0nat
        }
    }
}

/// Number of slots holding an enemy.
pub open spec fn enemy_count(s: Seq<Entity>) -> nat
    decreases s.len(),
{
    if s.len() == 0 {
        0
    } else {
        enemy_count(s.drop_last()) + if s.last().entity_type is BasicEnemy {
            1nat
        } else {
            0nat
        }
    }
}

/// What the first-fit scan from `i` finds.
pub proof fn lemma_first_free_from(s: Seq<Entity>, i: int)
    requires
        0 <= i <= s.len(),
    ensures
        match first_free_from(s, i) {
            Some(k) => i <= k < s.len() && !s[k].is_live() && forall|j: int|
                i <= j < k ==> s[j].is_live(),
            None => forall|j: int| i <= j < s.len() ==> s[j].is_live(),
        },
    decreases s.len() - i,
{
    if i < s.len() && s[i].is_live() {
        lemma_first_free_from(s, i + 1);
    }
}

/// What the scan for a live slot equal to `t` from `i` finds.
pub proof fn lemma_first_equal_from(s: Seq<Entity>, t: Entity, i: int)
    requires
        0 <= i <= s.len(),
    ensures
        match first_equal_from(s, t, i) {
            Some(k) => i <= k < s.len() && s[k].is_live() && s[k] == t,
            None => forall|j: int| i <= j < s.len() ==> !(s[j].is_live() && s[j] == t),
        },
    decreases s.len() - i,
{
    if i < s.len() && !(s[i].is_live() && s[i] == t) {
        lemma_first_equal_from(s, t, i + 1);
    }
}

/// Removals only free slots: every slot keeps its value or becomes free.
pub proof fn lemma_remove_all_frees(s: Seq<Entity>, ts: Seq<Entity>)
    ensures
        remove_all(s, ts).len() == s.len(),
        forall|k: int|
            0 <= k < s.len() ==> remove_all(s, ts)[k] == s[k] || remove_all(s, ts)[k]
                == empty_entity(),
    decreases ts.len(),
{
    if ts.len() > 0 {
        lemma_remove_all_frees(s, ts.drop_last());
        let r = remove_all(s, ts.drop_last());
        lemma_first_equal_from(r, ts.last(), 0);
    }
}

/// A live value held by no slot but `j`, once asked to be removed, is held
/// by no slot at all, whatever else is removed.
pub proof fn lemma_remove_all_clears(s: Seq<Entity>, ts: Seq<Entity>, u: Entity, j: int)
    requires
        u.is_live(),
        0 <= j < s.len(),
        forall|k: int| 0 <= k < s.len() && k != j ==> s[k] != u,
        ts.contains(u),
    ensures
        forall|k: int| 0 <= k < s.len() ==> remove_all(s, ts)[k] != u,
    decreases ts.len(),
{
    let rest = ts.drop_last();
    let r = remove_all(s, rest);
    lemma_remove_all_frees(s, rest);
    lemma_first_equal_from(r, ts.last(), 0);
    if ts.last() != u {
        let w = choose|w: int| 0 <= w < ts.len() && ts[w] == u;
        assert(rest[w] == u);
        lemma_remove_all_clears(s, rest, u, j);
    } else {
        assert(!empty_entity().is_live());
        assert forall|k: int| 0 <= k < s.len() && k != j implies r[k] != u by {
            assert(r[k] == s[k] || r[k] == empty_entity());
        }
    }
}

/// Adding values that differ from `u` to a pool that does not hold `u`
/// leaves it without `u`.
pub proof fn lemma_add_all_avoids(s: Seq<Entity>, es: Seq<Entity>, u: Entity)
    requires
        forall|k: int| 0 <= k < s.len() ==> s[k] != u,
        forall|i: int| 0 <= i < es.len() ==> es[i] != u,
    ensures
        add_all(s, es).len() == s.len(),
        forall|k: int| 0 <= k < s.len() ==> add_all(s, es)[k] != u,
    decreases es.len(),
{
    if es.len() > 0 {
        lemma_add_all_avoids(s, es.drop_last(), u);
        lemma_first_free_from(add_all(s, es.drop_last()), 0);
        assert(es.last() == es[es.len() - 1]);
    }
}

/// The live count never exceeds the number of slots, and reaches it
/// exactly when every slot is live.
pub proof fn lemma_live_count_full(s: Seq<Entity>)
    ensures
        live_count(s) <= s.len(),
        live_count(s) == s.len() <==> forall|j: int| 0 <= j < s.len() ==> s[j].is_live(),
    decreases s.len(),
{
    if s.len() > 0 {
        let t = s.drop_last();
        lemma_live_count_full(t);
        if live_count(s) == s.len() {
            assert forall|j: int| 0 <= j < s.len() implies s[j].is_live() by {
                if j < s.len() - 1 {
                    assert(t[j] == s[j]);
                }
            }
        }
        if forall|j: int| 0 <= j < s.len() ==> s[j].is_live() {
            assert forall|j: int| 0 <= j < t.len() implies t[j].is_live() by {
                assert(t[j] == s[j]);
            }
        }
    }
}

/// Making a free slot live adds one to the live count.
pub proof fn lemma_live_count_fill(s: Seq<Entity>, i: int, e: Entity)
    requires
        0 <= i < s.len(),
        !s[i].is_live(),
        e.is_live(),
    ensures
        live_count(s.update(i, e)) == live_count(s) + 1,
    decreases s.len(),
{
    let u = s.update(i, e);
    if i == s.len() - 1 {
        assert(u.drop_last() =~= s.drop_last());
    } else {
        lemma_live_count_fill(s.drop_last(), i, e);
        assert(u.drop_last() =~= s.drop_last().update(i, e));
    }
}

/// Filling a free slot with `e` adds one enemy exactly when `e` is one.
pub proof fn lemma_enemy_count_fill(s: Seq<Entity>, i: int, e: Entity)
    requires
        0 <= i < s.len(),
        !s[i].is_live(),
    ensures
        enemy_count(s.update(i, e)) == enemy_count(s) + if e.entity_type is BasicEnemy {
            1nat
        } else {
            0nat
        },
    decreases s.len(),
{
    let u = s.update(i, e);
    if i == s.len() - 1 {
        assert(u.drop_last() =~= s.drop_last());
    } else {
        lemma_enemy_count_fill(s.drop_last(), i, e);
        assert(u.drop_last() =~= s.drop_last().update(i, e));
    }
}

/// A sequence of live entities that fits in the free slots is added whole:
/// the live count grows by its length and the enemy count by its enemies.
pub proof fn lemma_add_all_counts(s: Seq<Entity>, es: Seq<Entity>)
    requires
        forall|i: int| 0 <= i < es.len() ==> es[i].is_live(),
        live_count(s) + es.len() <= s.len(),
    ensures
        add_all(s, es).len() == s.len(),
        live_count(add_all(s, es)) == live_count(s) + es.len(),
        enemy_count(add_all(s, es)) == enemy_count(s) + enemy_count(es),
    decreases es.len(),
{
    if es.len() > 0 {
        let rest = es.drop_last();
        lemma_add_all_counts(s, rest);
        let r = add_all(s, rest);
        lemma_free_iff_not_full(r);
        lemma_first_free_from(r, 0);
        let i = first_free(r)->Some_0;
        assert(es.last() == es[es.len() - 1]);
        lemma_live_count_fill(r, i, es.last());
        lemma_enemy_count_fill(r, i, es.last());
    }
}

/// A free slot exists exactly when fewer slots than the capacity are live.
pub proof fn lemma_free_iff_not_full(s: Seq<Entity>)
    ensures
        (first_free(s) is Some) == (live_count(s) < s.len()),
{
    lemma_first_free_from(s, 0);
    lemma_live_count_full(s);
}

/// Adds `entity` in the first free slot of `pool`; false, with the pool
/// unchanged, when every slot is live.
pub fn pool_add(pool: &mut [Entity; 64], entity: Entity) -> (r: bool)
    ensures
        final(pool)@ == add_one(old(pool)@, entity),
        r == (first_free(old(pool)@) is Some),
{
    let ghost s = pool@;
    let mut i: usize = 0;
    while i < POOL_SIZE
        invariant
            0 <= i <= POOL_SIZE,
            pool@ == s,
            s == old(pool)@,
            s.len() == POOL_SIZE,
            first_free_from(s, 0) == first_free_from(s, i as int),
        decreases POOL_SIZE - i,
    {
        if pool[i].is_empty() {
            pool[i] = entity;
            return true;
        }
        i += 1;
    }
    false
}

/// Clears the first live slot of `pool` equal to `target`, if any.
pub fn pool_remove(pool: &mut [Entity; 64], target: &Entity)
    ensures
        final(pool)@ == remove_one(old(pool)@, *target),
{
    let ghost s = pool@;
    let mut i: usize = 0;
    while i < POOL_SIZE
        invariant
            0 <= i <= POOL_SIZE,
            pool@ == s,
            s == old(pool)@,
            s.len() == POOL_SIZE,
            first_equal_from(s, *target, 0) == first_equal_from(s, *target, i as int),
        decreases POOL_SIZE - i,
    {
        if !pool[i].is_empty() && pool[i] == *target {
            pool[i] = Entity::empty();
            return;
        }
        i += 1;
    }
}

} // verus!
