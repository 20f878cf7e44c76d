//! One pool slot: a game object held entirely as plain values. `del == true`
//! marks a free slot; the `typ` tag says what the slot holds when active.

use vstd::prelude::*;

verus! {

/// Kind tag: the player ship. Exactly one slot ever carries it actively.
pub const TYP_PLAYER: i16 = 0;

/// Kind tag: an enemy, drifting left until shot or past the left edge.
pub const TYP_ENEMY: i16 = 1;

/// Kind tag: a bullet, flying right from the player's muzzle.
pub const TYP_BULLET: i16 = 2;

/// Kind tag: a cosmetic background star.
pub const TYP_STAR: i16 = 3;

/// Kind tag: one digit of the score display.
pub const TYP_DIGIT: i16 = 4;

#[derive(Copy, Clone)]
pub struct Entity {
    pub x: i16,
    pub y: i16,
    pub w: i16,
    pub h: i16,
    pub typ: i16,
    pub del: bool,
    pub state: u8,
    pub sprite_x: u8,
    pub sprite_y: u8,
    pub speed: u16,
}

/// The blank slot every pool position starts from: free, at the origin,
/// tagged as the player kind by default.
pub open spec fn blank_entity() -> Entity {
    Entity {
        x: 0,
        y: 0,
        w: 0,
        h: 0,
        typ: TYP_PLAYER,
        del: true,
        state: 0,
        sprite_x: 0,
        sprite_y: 0,
        speed: 0,
    }
}

impl Entity {
    pub fn new() -> (e: Entity)
        ensures
            e == blank_entity(),
    {
        Entity {
            x: 0i16,
            y: 0i16,
            w: 0i16,
            h: 0i16,
            typ: 0i16,
            del: true,
            state: 0u8,
            sprite_x: 0u8,
            sprite_y: 0u8,
            speed: 0u16,
        }
    }
}

/// Two axis-aligned boxes collide. Every comparison is inclusive, so boxes
/// that merely touch — even edge to edge — count as colliding. That is the
/// observed behaviour of the game and is kept as it stands.
pub open spec fn collides(a: Entity, b: Entity) -> bool {
    &&& a.x + a.w >= b.x
    &&& a.x <= b.x + b.w
    &&& a.y + a.h >= b.y
    &&& a.y <= b.y + b.h
}

/// Law: the collision predicate is symmetric in its two boxes.
pub proof fn lemma_collides_symmetric(a: Entity, b: Entity)
    ensures
        collides(a, b) == collides(b, a),
{
}

} // verus!
