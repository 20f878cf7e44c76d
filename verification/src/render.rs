//! The renderer: decodes every active pool slot's packed sprite rows into
//! pixel writes, in pool index order — which is what makes slot order the
//! paint order. A glyph bit is found by rotating its row word left until
//! the bit falls out at position zero. A pixel lands in the output only
//! when both coordinates lie inside `0..=128` x `0..=64`: the upper bound
//! is inclusive, one past the last column and row the display owns, and
//! that off-by-one is kept as observed behaviour.

use vstd::prelude::*;
use crate::entities::Entity;
use crate::sprites::SPRITES;
use crate::world::{World, POOL_SIZE, DISP_H, DISP_W, pos_ok, slot_wf};

verus! {

/// One pixel the display surface should set.
#[derive(Copy, Clone, PartialEq, Eq, Structural, Debug)]
pub struct PixelWrite {
    pub x: u16,
    pub y: u16,
}

/// A 32-bit word rotated left by `s` places.
pub open spec fn spec_rotl32(v: u32, s: nat) -> u32
    recommends
        s < 32,
{
    if s == 0 {
        v
    } else {
        (v << s as u32) | (v >> ((32 - s) as u32))
    }
}

fn rotl32(v: u32, s: u32) -> (r: u32)
    requires
        s < 32,
    ensures
        r == spec_rotl32(v, s as nat),
{
    if s == 0 {
        v
    } else {
        (v << s) | (v >> (32 - s))
    }
}

/// Glyph column `x` of a row word at horizontal offset `sx` is lit: the
/// decode walks the word by left rotation, so this is bit
/// `31 - ((sx + x) % 32)` of the row.
pub open spec fn glyph_bit(row: u32, sx: nat, x: nat) -> bool {
    spec_rotl32(row, ((sx + x + 1) % 32) as nat) & 1 == 1
}

/// Pixel `(x, y)` of an entity's sprite is lit, reading the sprite table at
/// the entity's row and column offsets.
pub open spec fn pixel_lit(e: Entity, x: int, y: int) -> bool
    recommends
        0 <= y,
        e.sprite_y + y < 64,
        0 <= x,
{
    glyph_bit(SPRITES[e.sprite_y + y], e.sprite_x as nat, x as nat)
}

/// `p` is a pixel of some active slot: one of its lit sprite positions,
/// translated by the entity's position.
pub open spec fn pixel_from(s: Seq<Entity>, p: PixelWrite) -> bool {
    exists|n: int, x: int, y: int|
        {
            &&& 0 <= n < s.len()
            &&& !s[n].del
            &&& 0 <= x < s[n].w
            &&& 0 <= y < s[n].h
            &&& #[trigger] pixel_lit(s[n], x, y)
            &&& p.x == s[n].x + x
            &&& p.y == s[n].y + y
        }
}

/// Slot `n`'s glyph position `(x, y)` has reached the output `pv`: either
/// it is free, out of the glyph box, unlit, or off the (edge-inclusive)
/// display — or its translated pixel stands in `pv`.
pub open spec fn emitted(s: Seq<Entity>, pv: Seq<PixelWrite>, n: int, x: int, y: int) -> bool {
    (!s[n].del && 0 <= x < s[n].w && 0 <= y < s[n].h && pixel_lit(s[n], x, y) && 0 <= s[n].x + x
        <= 128 && 0 <= s[n].y + y <= 64) ==> pv.contains(
        PixelWrite { x: (s[n].x + x) as u16, y: (s[n].y + y) as u16 },
    )
}

/// Whatever a position had reached stays reached when one more pixel is
/// appended.
proof fn lemma_emitted_push(
    s: Seq<Entity>,
    pv: Seq<PixelWrite>,
    p: PixelWrite,
    n: int,
    x: int,
    y: int,
)
    requires
        emitted(s, pv, n, x, y),
    ensures
        emitted(s, pv.push(p), n, x, y),
{
    let q = PixelWrite { x: (s[n].x + x) as u16, y: (s[n].y + y) as u16 };
    if pv.contains(q) {
        let idx = choose|idx: int| 0 <= idx < pv.len() && pv[idx] == q;
        assert(pv.push(p)[idx] == q);
    }
}

/// Decode one frame: every active slot, in index order, row by row and
/// column by column. The three clauses say, in turn: no written pixel
/// strays outside `0..=128` x `0..=64`; every written pixel is a lit
/// sprite pixel of some active slot; and every lit, on-display sprite
/// pixel of every active slot is written.
pub fn render(world: &World) -> (pix: Vec<PixelWrite>)
    requires
        world.wf(),
    ensures
        forall|k: int|
            0 <= k < pix@.len() ==> (#[trigger] pix@[k]).x <= 128 && pix@[k].y <= 64,
        forall|k: int| 0 <= k < pix@.len() ==> pixel_from(world.entities@, #[trigger] pix@[k]),
        forall|n: int, x: int, y: int|
            0 <= n < POOL_SIZE as int && 0 <= x && 0 <= y ==> #[trigger] emitted(
                world.entities@,
                pix@,
                n,
                x,
                y,
            ),
{
    let ghost s = world.entities@;
    let mut pix: Vec<PixelWrite> = Vec::new();
    let mut n: usize = 0;
    while n < POOL_SIZE
        invariant
            n <= POOL_SIZE,
            world.wf(),
            s == world.entities@,
            forall|k: int| 0 <= k < pix@.len() ==> (#[trigger] pix@[k]).x <= 128 && pix@[k].y
                <= 64,
            forall|k: int| 0 <= k < pix@.len() ==> pixel_from(s, #[trigger] pix@[k]),
            forall|n2: int, x2: int, y2: int|
                0 <= n2 < n as int && 0 <= x2 && 0 <= y2 ==> #[trigger] emitted(
                    s,
                    pix@,
                    n2,
                    x2,
                    y2,
                ),
        decreases POOL_SIZE - n,
    {
        let entity = world.entities[n];
        proof {
            assert(slot_wf(s[n as int], n as int));
        }
        if !entity.del {
            let mut y: i16 = 0;
            while y < entity.h
                invariant
                    0 <= y <= entity.h,
                    n < POOL_SIZE,
                    world.wf(),
                    s == world.entities@,
                    entity == s[n as int],
                    !entity.del,
                    pos_ok(entity),
                    forall|k: int| 0 <= k < pix@.len() ==> (#[trigger] pix@[k]).x <= 128
                        && pix@[k].y <= 64,
                    forall|k: int| 0 <= k < pix@.len() ==> pixel_from(s, #[trigger] pix@[k]),
                    forall|n2: int, x2: int, y2: int|
                        0 <= n2 < n as int && 0 <= x2 && 0 <= y2 ==> #[trigger] emitted(
                            s,
                            pix@,
                            n2,
                            x2,
                            y2,
                        ),
                    forall|x2: int, y2: int|
                        0 <= x2 && 0 <= y2 < y as int ==> #[trigger] emitted(
                            s,
                            pix@,
                            n as int,
                            x2,
                            y2,
                        ),
                decreases entity.h - y,
            {
                let row = SPRITES[(y + entity.sprite_y as i16) as usize];
                let mut x: i16 = 0;
                while x < entity.w
                    invariant
                        0 <= x <= entity.w,
                        0 <= y < entity.h,
                        n < POOL_SIZE,
                        world.wf(),
                        s == world.entities@,
                        entity == s[n as int],
                        !entity.del,
                        pos_ok(entity),
                        row == SPRITES[entity.sprite_y + y],
                        forall|k: int| 0 <= k < pix@.len() ==> (#[trigger] pix@[k]).x <= 128
                            && pix@[k].y <= 64,
                        forall|k: int| 0 <= k < pix@.len() ==> pixel_from(s, #[trigger] pix@[k]),
                        forall|n2: int, x2: int, y2: int|
                            0 <= n2 < n as int && 0 <= x2 && 0 <= y2 ==> #[trigger] emitted(
                                s,
                                pix@,
                                n2,
                                x2,
                                y2,
                            ),
                        forall|x2: int, y2: int|
                            0 <= x2 && 0 <= y2 < y as int ==> #[trigger] emitted(
                                s,
                                pix@,
                                n as int,
                                x2,
                                y2,
                            ),
                        forall|x2: int|
                            0 <= x2 < x as int ==> #[trigger] emitted(s, pix@, n as int, x2, y as int),
                    decreases entity.w - x,
                {
                    let rot = ((entity.sprite_x as u32) + (x as u32) + 1) % 32;
                    let bits = rotl32(row, rot);
                    let to_paint = bits & 1u32;
                    proof {
                        assert(bits & 1u32 == 0 || bits & 1u32 == 1) by (bit_vector);
                    }
                    let ghost pv0 = pix@;
                    if to_paint > 0 {
                        // avoid print to non existing display coord
                        let x_pos = x + entity.x;
                        if !(x_pos < 0 || x_pos > DISP_W) {
                            let y_pos = y + entity.y;
                            if !(y_pos < 0 || y_pos > DISP_H) {
                                let p = PixelWrite { x: x_pos as u16, y: y_pos as u16 };
                                pix.push(p);
                                proof {
                                    assert(pixel_lit(s[n as int], x as int, y as int));
                                    assert(pixel_from(s, p));
                                    assert forall|n2: int, x2: int, y2: int|
                                        0 <= n2 && 0 <= x2 && 0 <= y2 && emitted(
                                            s,
                                            pv0,
                                            n2,
                                            x2,
                                            y2,
                                        ) implies #[trigger] emitted(s, pix@, n2, x2, y2) by {
                                        lemma_emitted_push(s, pv0, p, n2, x2, y2);
                                    }
                                    assert(pix@.contains(p)) by {
                                        assert(pix@[pv0.len() as int] == p);
                                    }
                                }
                            }
                        }
                    }
                    proof {
                        assert(emitted(s, pix@, n as int, x as int, y as int));
                    }
                    x += 1;
                }
                y += 1;
            }
        }
        proof {
            assert forall|x2: int, y2: int| 0 <= x2 && 0 <= y2 implies #[trigger] emitted(
                s,
                pix@,
                n as int,
                x2,
                y2,
            ) by {
            }
        }
        n += 1;
    }
    pix
}

} // verus!
