//! Entities of the play field, the movement engine and the collision tests.
use vstd::prelude::*;

verus! {

/// Largest coordinate on either axis of the play field.
pub const FIELD_MAX: u8 = 160;

/// The closed set of entity kinds; a slot holding `Empty` is free.
#[derive(Clone, Copy, Debug, PartialEq, Eq, Structural)]
pub enum EntityType {
    Empty,
    Bullet { player: bool },
    BasicEnemy { seed: u8, aims: bool },
    PowerUp,
}

/// One slot of the entity pool.
#[derive(Clone, Copy, Debug, PartialEq, Eq, Structural)]
pub struct Entity {
    pub x: u8,
    pub y: u8,
    pub size: u8,
    pub dx: i8,
    pub dy: i8,
    pub age: u16,
    pub entity_type: EntityType,
}

/// Something that happened to the player during an entity sweep.
#[derive(Clone, Copy, Debug, PartialEq, Eq, Structural)]
pub enum GameEvent {
    PlayerHurt,
    PowerUp,
}

/// The value of a free slot.
pub open spec fn empty_entity() -> Entity {
    Entity { x: 0, y: 0, size: 0, dx: 0, dy: 0, age: 0, entity_type: EntityType::Empty }
}

/// A coordinate moved by a signed step, stopped at the field's edges.
pub open spec fn step_coord(p: u8, d: i8) -> u8 {
    let n = p + d;
    if n < 0 {
        0
    } else if n > FIELD_MAX {
        FIELD_MAX
    } else {
        n as u8
    }
}

/// Lower edge of a box of half-extent `h` around `c`, stopped at zero.
pub open spec fn box_low(c: u8, h: u8) -> int {
    if c < h {
        0
    } else {
        c - h
    }
}

/// Upper edge of a box of half-extent `h` around `c`, stopped at 255.
pub open spec fn box_high(c: u8, h: u8) -> int {
    if c + h > 255 {
        255
    } else {
        c + h
    }
}

/// Open overlap on both axes of the box of half-extent `ah` around
/// `(ax, ay)` and that of half-extent `bh` around `(bx, by)`.
pub open spec fn boxes_overlap(ax: u8, ay: u8, ah: u8, bx: u8, by: u8, bh: u8) -> bool {
    &&& box_low(ax, ah) < box_high(bx, bh)
    &&& box_high(ax, ah) > box_low(bx, bh)
    &&& box_low(ay, ah) < box_high(by, bh)
    &&& box_high(ay, ah) > box_low(by, bh)
}

/// Two live entities whose boxes overlap.
pub open spec fn collides_spec(a: Entity, b: Entity) -> bool {
    &&& a.is_live()
    &&& b.is_live()
    &&& boxes_overlap(a.x, a.y, a.size / 2, b.x, b.y, b.size / 2)
}

/// Half-extent of the player's box.
pub const PLAYER_HALF: u8 = 4;

/// A live entity whose box overlaps the player standing at `(px, py)`.
pub open spec fn touches_player_spec(e: Entity, px: u8, py: u8) -> bool {
    &&& e.is_live()
    &&& boxes_overlap(e.x, e.y, e.size / 2, px, py, PLAYER_HALF)
}

/// An entity standing on an edge and moving out through it.
pub open spec fn touches_wall(e: Entity) -> bool {
    ||| e.x == 0 && e.dx < 0
    ||| e.x == FIELD_MAX && e.dx > 0
    ||| e.y == 0 && e.dy < 0
    ||| e.y == FIELD_MAX && e.dy > 0
}

impl Entity {
    pub open spec fn is_live(self) -> bool {
        !(self.entity_type is Empty)
    }

    /// The entity after one step of the movement engine.
    pub open spec fn moved(self) -> Entity {
        Entity { x: step_coord(self.x, self.dx), y: step_coord(self.y, self.dy), ..self }
    }

    /// A free slot.
    pub fn empty() -> (r: Entity)
        ensures
            r == empty_entity(),
    {
        Entity { x: 0, y: 0, size: 0, dx: 0, dy: 0, age: 0, entity_type: EntityType::Empty }
    }

    pub fn is_empty(&self) -> (r: bool)
        ensures
            r == !self.is_live(),
    {
        match self.entity_type {
            EntityType::Empty => true,
            _ => false,
        }
    }

    /// Integrates the velocity into the position, stopping at the edges.
    pub fn update_movement(&mut self)
        ensures
            *final(self) == old(self).moved(),
            final(self).x <= FIELD_MAX,
            final(self).y <= FIELD_MAX,
    {
        self.x = step(self.x, self.dx);
        self.y = step(self.y, self.dy);
    }
}

/// One coordinate moved by `d` and held inside the field.
pub fn step(p: u8, d: i8) -> (r: u8)
    ensures
        r == step_coord(p, d),
        r <= FIELD_MAX,
{
    let n: i16 = p as i16 + d as i16;
    if n < 0 {
        0
    } else if n > FIELD_MAX as i16 {
        FIELD_MAX
    } else {
        n as u8
    }
}

pub fn entity_collides_with_wall(entity: &Entity) -> (r: bool)
    ensures
        r == touches_wall(*entity),
{
    entity.x == 0 && entity.dx < 0 || entity.x == FIELD_MAX && entity.dx > 0 || entity.y == 0
        && entity.dy < 0 || entity.y == FIELD_MAX && entity.dy > 0
}

/// Whether the box of half-extent `ah` around `(ax, ay)` overlaps that of
/// half-extent `bh` around `(bx, by)`.
pub fn overlap(ax: u8, ay: u8, ah: u8, bx: u8, by: u8, bh: u8) -> (r: bool)
    ensures
        r == boxes_overlap(ax, ay, ah, bx, by, bh),
{
    ax.saturating_sub(ah) < bx.saturating_add(bh) && ax.saturating_add(ah) > bx.saturating_sub(bh)
        && ay.saturating_sub(ah) < by.saturating_add(bh) && ay.saturating_add(ah)
        > by.saturating_sub(bh)
}

pub fn collides(entity: &Entity, other_entity: &Entity) -> (r: bool)
    ensures
        r == collides_spec(*entity, *other_entity),
{
    !entity.is_empty() && !other_entity.is_empty() && overlap(
        entity.x,
        entity.y,
        entity.size / 2,
        other_entity.x,
        other_entity.y,
        other_entity.size / 2,
    )
}

} // verus!
